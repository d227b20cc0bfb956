use ventoypilot::calendar::today_iso;
use ventoypilot::download::human_size;
use ventoypilot::pattern::regex_match;
use ventoypilot::source::resolver::file_name_from_url;
use ventoypilot::source::windows::{pick_language, Sku};

fn sku(lang: &str, loc: &str) -> Sku {
    Sku {
        id: "1".into(),
        language: lang.into(),
        localized_language: loc.into(),
        product_edition_id: 3321,
    }
}

#[test]
fn civil_date_ok() {
    assert_eq!(today_iso().len(), 10);
}

#[test]
fn human_size_format() {
    assert_eq!(human_size(0), "0.0 B");
    assert_eq!(human_size(1024), "1.0 KiB");
    assert_eq!(human_size(5_864_800_256), "5.5 GiB");
}

#[test]
fn file_name_from_url_basic() {
    assert_eq!(
        file_name_from_url(
            "https://software.download.prss.microsoft.com/db/Win11_25H2_x64.iso?t=123&e=456",
            "fallback.iso"
        ),
        "Win11_25H2_x64.iso"
    );
    assert_eq!(
        file_name_from_url("https://example.com/foo/Ubuntu%2026.04.iso", "fb.iso"),
        "Ubuntu 26.04.iso"
    );
    assert_eq!(file_name_from_url("https://example.com/", "fb.iso"), "fb.iso");
}

#[test]
fn lang_exact_code() {
    let skus = vec![
        sku("Chinese (Simplified)", "简体中文"),
        sku("English (United States)", "English"),
    ];
    assert_eq!(
        pick_language(&skus, Some("zh-CN")).unwrap().language,
        "Chinese (Simplified)"
    );
    assert_eq!(
        pick_language(&skus, Some("english")).unwrap().language,
        "English (United States)"
    );
}

#[test]
fn lang_substring_fallback() {
    let skus = vec![sku("Arabic", "العربية"), sku("Japanese", "日本語")];
    assert_eq!(
        pick_language(&skus, Some("jap")).unwrap().language,
        "Japanese"
    );
    assert_eq!(pick_language(&skus, None).unwrap().language, "Arabic");
}

#[test]
fn regex_extract() {
    // Real-world mdt.js carries the escaped quote: rticks=\"+12345678\"
    let real = "x = \"https://ov-df.microsoft.com/?w=ABCDEF&rticks=\\\"+12345678\\\"\"";
    assert_eq!(
        regex_match(real, "rticks=\\\\?\"\\+?(\\d+)").as_deref(),
        Some("12345678")
    );
    // Plain form (no backslash) also works.
    let body2 = "https://ov-df.microsoft.com/?w=ABCDEF&rticks=\"+12345678\"";
    assert_eq!(
        regex_match(body2, "rticks=\\\\?\"\\+?(\\d+)").as_deref(),
        Some("12345678")
    );
}
