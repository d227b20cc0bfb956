//! Configuration, catalog search, the mock client, checksums, dates and the
//! smaller helpers, on concrete values.

use ventoypilot::calendar::{civil_from_days, iso_date, iso_date_from_secs};
use ventoypilot::catalog::{Catalog, Kind, LinuxCycle, LinuxDistro, Tool, ToolCycle, WindowsEdition,
    WindowsRelease, WindowsVersion};
use ventoypilot::catalog_gen::{
    choose_cycles, cycles_from_endoflife, distro_from_source, endoflife_url, manual_cycles,
    EndOfLifeCycle, LinuxSource, ManualCycle,
};
use ventoypilot::checksum::Checksum;
use ventoypilot::cli::{normalize_args, KindArg};
use ventoypilot::config::{Config, MsConfig};
use ventoypilot::download::human_size;
use ventoypilot::error::Error;
use ventoypilot::http::{HttpResponse, MockHttp};
use ventoypilot::order::sorted_unique;
use ventoypilot::paths::{expand_path_with, join};
use ventoypilot::source::dispatch::{resolver_kind, unknown_system};
use ventoypilot::source::resolver::{file_name_from_url, LinkCheck, ResolverContext};
use ventoypilot::source::windows::{pick_language, Sku};

fn s(x: &str) -> String {
    x.to_string()
}

fn cycle(c: &str) -> LinuxCycle {
    LinuxCycle { cycle: s(c), latest: None, lts: None, release_date: None, eol: None }
}

fn distro(name: &str, slug: &str, cycles: &[&str]) -> LinuxDistro {
    LinuxDistro {
        name: s(name),
        slug: s(slug),
        resolver: s("template"),
        url_template: None,
        page_url: None,
        arch: vec![],
        cycles: cycles.iter().map(|c| cycle(c)).collect(),
    }
}

fn small_catalog() -> Catalog {
    Catalog {
        generated_at: s("2026-01-01"),
        windows: vec![WindowsVersion {
            name: s("Windows 11"),
            slug: s("windows11"),
            releases: vec![
                WindowsRelease { release: s("25H2"), editions: vec![WindowsEdition {
                    name: s("Windows 11"),
                    types: vec![s("desktop")],
                    product_edition_id: vec![3321],
                }] },
                WindowsRelease { release: s("24H2"), editions: vec![] },
            ],
        }],
        linux: vec![
            distro("Ubuntu", "ubuntu", &["26.04", "24.04"]),
            distro("NixOS", "nixos", &["25.11"]),
            distro("Proxmox VE", "proxmox-ve", &[]),
            distro("KDE Plasma", "kde-plasma", &["6.5"]),
        ],
        tools: vec![Tool {
            name: s("UEFI Shell"),
            slug: s("uefi-shell"),
            repo: None,
            url_template: None,
            cycles: vec![ToolCycle { tag: s("26H1"), release: None }],
        }],
    }
}

// ---------------------------------------------------------------------------
// Catalog search
// ---------------------------------------------------------------------------

#[test]
fn search_lists_all_kinds() {
    let catalog = small_catalog();
    let all = catalog.search(None, None);
    let kinds: Vec<&str> = all.iter().map(|m| m.kind.as_str()).collect();
    assert!(kinds.contains(&"windows"));
    assert!(kinds.contains(&"linux"));
    assert!(kinds.contains(&"tools"));
    let win11 = all.iter().find(|m| m.slug == "windows11").unwrap();
    assert!(win11.versions.iter().any(|v| v.contains("25H2")));
    // Unfiltered, every system is listed in catalog order.
    let slugs: Vec<&str> = all.iter().map(|m| m.slug.as_str()).collect();
    assert_eq!(slugs, ["windows11", "ubuntu", "nixos", "proxmox-ve", "kde-plasma", "uefi-shell"]);
}

#[test]
fn search_filters_by_kind_and_query() {
    let catalog = small_catalog();
    let linux = catalog.search(Some(Kind::Linux), None);
    assert!(linux.iter().all(|m| m.kind == Kind::Linux));
    assert!(linux.iter().any(|m| m.slug == "nixos"));
    assert!(linux.iter().any(|m| m.slug == "proxmox-ve"));
    assert!(linux.iter().any(|m| m.slug == "kde-plasma"));

    let ubuntu = catalog.search(Some(Kind::Linux), Some("ubuntu"));
    assert_eq!(ubuntu.len(), 1);
    assert_eq!(ubuntu[0].slug, "ubuntu");
}

#[test]
fn search_ignores_case_and_keeps_catalog_order() {
    let mut catalog = small_catalog();
    catalog.linux.push(distro("Kubuntu", "kubuntu", &["26.04"]));
    let ubuntu = catalog.search(Some(Kind::Linux), Some("UBUNTU"));
    assert_eq!(ubuntu.len(), 2);
    assert_eq!(ubuntu[0].slug, "ubuntu");
    assert_eq!(ubuntu[1].slug, "kubuntu");
    assert_eq!(ubuntu[0].versions, vec![s("26.04"), s("24.04")]);

    let none = catalog.search(Some(Kind::Tools), Some("ubuntu"));
    assert!(none.is_empty());
    let kind: Kind = KindArg::Tools.into();
    assert_eq!(catalog.search(Some(kind), Some("shell")).len(), 1);
    assert_eq!(catalog.search(None, Some("24H2")).len(), 0);
}

// ---------------------------------------------------------------------------
// Choosing a resolver
// ---------------------------------------------------------------------------

#[test]
fn resolver_kind_tries_each_family() {
    let catalog = small_catalog();
    let cfg = Config::default();
    let ctx = ResolverContext { config: &cfg, kind: Kind::Windows };
    assert_eq!(resolver_kind(&catalog, &ctx, "win11"), Some(Kind::Windows));
    assert_eq!(resolver_kind(&catalog, &ctx, "nixos"), Some(Kind::Linux));
    assert_eq!(resolver_kind(&catalog, &ctx, "uefi-shell"), Some(Kind::Tools));
    assert_eq!(resolver_kind(&catalog, &ctx, "macos"), None);
}

#[test]
fn unknown_system_lists_everything() {
    let catalog = small_catalog();
    match unknown_system(&catalog, "macos") {
        Error::NotFound(m) => assert_eq!(
            m,
            "unknown system 'macos'. Available: Windows 11 (windows), Ubuntu (linux), NixOS (linux), \
             Proxmox VE (linux), KDE Plasma (linux), UEFI Shell (tools). Try `vpilot search`."
        ),
        other => panic!("unexpected: {other:?}"),
    }
}

// ---------------------------------------------------------------------------
// Configuration
// ---------------------------------------------------------------------------

#[test]
fn config_set_then_get() {
    let mut cfg = Config::default();
    cfg.set("download_dir", "/tmp/iso").unwrap();
    assert_eq!(cfg.get("download_dir").as_deref(), Some("/tmp/iso"));
    cfg.set("ms.org_id", "abc").unwrap();
    assert_eq!(cfg.get("ms.org_id").as_deref(), Some("abc"));
    assert_eq!(cfg.get("lang").as_deref(), Some("en-US"));
    assert_eq!(cfg.get("edition"), None);
    cfg.set("edition", "Pro").unwrap();
    assert_eq!(cfg.get("edition").as_deref(), Some("Pro"));
    assert_eq!(cfg.get("nope"), None);
}

#[test]
fn config_unknown_key_is_refused() {
    let mut cfg = Config::default();
    let before = cfg.get("lang");
    match cfg.set("colour", "blue") {
        Err(Error::Config(m)) => assert_eq!(
            m,
            "unknown config key 'colour' (valid: download_dir, lang, arch, release, edition, ms.org_id, ms.profile_id, ms.instance_id)"
        ),
        other => panic!("unexpected: {other:?}"),
    }
    assert_eq!(cfg.get("lang"), before);
}

#[test]
fn config_defaults_and_entries() {
    let ms = MsConfig::default();
    assert_eq!(ms.org_id, "y6jn8c31");
    assert_eq!(ms.profile_id, "606624d44113");
    assert_eq!(ms.instance_id, "560dc9f3-1aa5-4a2f-b63c-9e18f8d0e175");
    let mut cfg = Config::default();
    cfg.set("download_dir", "/data/iso").unwrap();
    let entries = cfg.entries();
    let keys: Vec<&str> = entries.iter().map(|(k, _)| k.as_str()).collect();
    assert_eq!(keys, ["download_dir", "lang", "arch", "release", "ms.org_id", "ms.profile_id", "ms.instance_id"]);
    assert_eq!(entries[0].1, "/data/iso");
    assert_eq!(entries[3].1, "latest");
    cfg.set("edition", "Pro").unwrap();
    assert_eq!(cfg.entries().len(), 8);
    assert_eq!(Config::keys().len(), 8);
}

#[test]
fn config_download_dir_override_and_tilde() {
    let mut cfg = Config::default();
    cfg.set("download_dir", "/srv/iso").unwrap();
    assert_eq!(cfg.download_dir(None), "/srv/iso");
    assert_eq!(cfg.download_dir(Some("/mnt/usb")), "/mnt/usb");
    assert!(Config::config_path().ends_with("ventoypilot/config.toml"));
}

#[test]
fn paths_join_and_expand() {
    assert_eq!(join("/tmp/a", "b.iso"), "/tmp/a/b.iso");
    assert_eq!(join("/tmp/a/", "b.iso"), "/tmp/a/b.iso");
    assert_eq!(join("/tmp/a", "/abs.iso"), "/abs.iso");
    assert_eq!(expand_path_with("~", Some(s("/home/u"))), "/home/u");
    assert_eq!(expand_path_with("~/iso", Some(s("/home/u"))), "/home/u/iso");
    assert_eq!(expand_path_with("~/iso", None), "~/iso");
    assert_eq!(expand_path_with("/opt/iso", Some(s("/home/u"))), "/opt/iso");
}

// ---------------------------------------------------------------------------
// Mock client and responses
// ---------------------------------------------------------------------------

#[test]
fn mock_first_route_wins_and_logs() {
    let mut http = MockHttp::new();
    http.route_text("https://a.example/x", "first");
    http.route_text("https://a.example/", "second");
    http.route_text("https://a.example/x/y", "never");
    assert_eq!(http.dispatch("https://a.example/x/y/z").unwrap().text().unwrap(), "first");
    assert_eq!(http.dispatch("https://a.example/other").unwrap().text().unwrap(), "second");
    match http.dispatch("https://b.example/") {
        Err(Error::HttpStatus { status, url, body }) => {
            assert_eq!(status, 404);
            assert_eq!(url, "https://b.example/");
            assert_eq!(body, "no mock route registered");
        }
        other => panic!("unexpected: {other:?}"),
    }
    assert_eq!(
        http.requested(),
        vec![s("https://a.example/x/y/z"), s("https://a.example/other"), s("https://b.example/")]
    );
}

#[test]
fn response_headers_and_length() {
    let mut r = HttpResponse::ok(206, b"abc".to_vec());
    r.headers.push((s("Content-Length"), s("5864800256")));
    r.headers.push((s("content-length"), s("1")));
    r.headers.push((s("X-Bad"), s("12a")));
    assert_eq!(r.header("CONTENT-LENGTH"), Some("5864800256"));
    assert_eq!(r.content_length(), Some(5_864_800_256));
    assert_eq!(r.header("missing"), None);
    assert_eq!(r.text().unwrap(), "abc");
    let bad = HttpResponse::ok(200, vec![0xc3, 0x28]);
    match bad.text() {
        Err(Error::Parse(m)) => assert!(m.starts_with("invalid utf-8 body: ")),
        other => panic!("unexpected: {other:?}"),
    }
    let mut nolen = HttpResponse::ok(200, vec![]);
    nolen.headers.push((s("Content-Length"), s("abc")));
    assert_eq!(nolen.content_length(), None);
}

#[test]
fn link_check_reads_status() {
    let r = HttpResponse::ok(404, vec![]);
    let c = LinkCheck::from_response("https://x/y.iso", &r);
    assert!(!c.ok);
    assert_eq!(c.status, 404);
    assert_eq!(c.size_hint, None);
    let r = HttpResponse::ok(302, vec![]);
    assert!(LinkCheck::from_response("https://x/y.iso", &r).ok);
    let p = LinkCheck::page_only("https://kde.org/");
    assert!(!p.ok);
    assert_eq!(p.status, 0);
}

// ---------------------------------------------------------------------------
// Sizes, names and errors
// ---------------------------------------------------------------------------

#[test]
fn human_size_matches_float_formatting() {
    let units = ["B", "KiB", "MiB", "GiB", "TiB"];
    let samples: [u64; 14] = [
        0, 1, 1023, 1024, 1075, 1126, 1280, 1536, 1_048_576, 1_572_864, 5_864_800_256,
        1_099_511_627_776, 1_125_899_906_842_624, u64::MAX,
    ];
    for b in samples {
        let mut size = b as f64;
        let mut unit = 0;
        while size >= 1024.0 && unit < units.len() - 1 {
            size /= 1024.0;
            unit += 1;
        }
        assert_eq!(human_size(b), format!("{size:.1} {}", units[unit]), "bytes = {b}");
    }
}

#[test]
fn file_name_edge_cases() {
    assert_eq!(file_name_from_url("not a url", "fb.iso"), "fb.iso");
    assert_eq!(file_name_from_url("https://example.com/dir/", "fb.iso"), "fb.iso");
    assert_eq!(file_name_from_url("https://example.com/dir/noext", "fb.iso"), "fb.iso");
    assert_eq!(file_name_from_url("https://example.com/a/b.iso/", "fb.iso"), "b.iso");
    assert_eq!(file_name_from_url("https://example.com/a%41b.iso", "fb.iso"), "aAb.iso");
}

#[test]
fn error_messages() {
    assert_eq!(Error::NotFound(s("x")).message(), "x");
    let e = Error::HttpStatus { status: 503, url: s("https://u/"), body: s("busy") };
    assert_eq!(e.message(), "HTTP 503 for https://u/: busy");
}

#[test]
fn normalize_args_rewrites_compat_flags() {
    let raw: Vec<String> = ["vpilot", "win11", "-v", "25H2", "-lang", "zh-CN", "-type", "desktop"]
        .iter()
        .map(|a| s(a))
        .collect();
    assert_eq!(
        normalize_args(raw),
        vec![s("vpilot"), s("win11"), s("-v"), s("25H2"), s("--lang"), s("zh-CN"), s("--type"), s("desktop")]
    );
}

#[test]
fn sorted_unique_sorts_and_dedups() {
    let v = vec![s("b"), s("a"), s("b"), s("ab"), s("A")];
    assert_eq!(sorted_unique(&v), vec![s("A"), s("a"), s("ab"), s("b")]);
    assert!(sorted_unique(&vec![]).is_empty());
}

// ---------------------------------------------------------------------------
// Checksums
// ---------------------------------------------------------------------------

#[test]
fn checksum_of_chunks() {
    let mut c = Checksum::new();
    c.feed(b"a");
    c.feed(b"");
    c.feed(b"bc");
    assert_eq!(c.written(), 3);
    let (hex, n) = c.finish();
    assert_eq!(hex, "ba7816bf8f01cfea414140de5dae2223b00361a396177a9cb410ff61f20015ad");
    assert_eq!(n, 3);
    let (empty, zero) = Checksum::new().finish();
    assert_eq!(empty, "e3b0c44298fc1c149afbf4c8996fb92427ae41e4649b934ca495991b7852b855");
    assert_eq!(zero, 0);
}

// ---------------------------------------------------------------------------
// Dates
// ---------------------------------------------------------------------------

#[test]
fn civil_dates() {
    assert_eq!(civil_from_days(0), (1970, 1, 1));
    assert_eq!(civil_from_days(-1), (1969, 12, 31));
    assert_eq!(civil_from_days(11016), (2000, 2, 29));
    assert_eq!(civil_from_days(19723), (2024, 1, 1));
    assert_eq!(iso_date_from_secs(0), "1970-01-01");
    assert_eq!(iso_date_from_secs(1_700_000_000), "2023-11-14");
    // Seconds are divided by truncation, as `today_iso` does.
    assert_eq!(iso_date_from_secs(-1), "1970-01-01");
    assert_eq!(iso_date_from_secs(-86_400), "1969-12-31");
    assert_eq!(iso_date(5, 3, 7), "0005-03-07");
}

// ---------------------------------------------------------------------------
// Building catalog entries
// ---------------------------------------------------------------------------

#[test]
fn endoflife_cycles_keep_string_eol_only() {
    let raw = vec![
        EndOfLifeCycle {
            cycle: s("24.04"),
            latest: Some(s("24.04.3")),
            lts: Some(true),
            release_date: Some(s("2024-04-25")),
            eol: Some(s("2029-05-31")),
        },
        EndOfLifeCycle { cycle: s("25.10"), latest: None, lts: None, release_date: None, eol: Some(s("")) },
        EndOfLifeCycle { cycle: s("25.04"), latest: None, lts: Some(false), release_date: None, eol: None },
    ];
    let cycles = cycles_from_endoflife(&raw);
    assert_eq!(cycles.len(), 3);
    assert_eq!(cycles[0].eol.as_deref(), Some("2029-05-31"));
    assert_eq!(cycles[0].latest.as_deref(), Some("24.04.3"));
    assert_eq!(cycles[0].lts, Some(true));
    assert_eq!(cycles[1].eol, None);
    assert_eq!(cycles[2].eol, None);
    assert_eq!(cycles[2].cycle, "25.04");
    assert_eq!(endoflife_url("ubuntu"), "https://endoflife.date/api/ubuntu.json");
}

fn source_with_manual() -> LinuxSource {
    LinuxSource {
        name: s("NixOS"),
        slug: s("nixos"),
        resolver: s("nixos"),
        url_template: None,
        page_url: None,
        arch: vec![s("x86_64"), s("aarch64")],
        manual_cycles: Some(vec![ManualCycle {
            cycle: s("25.11"),
            latest: None,
            lts: None,
            release_date: Some(s("2025-11-30")),
            eol: None,
        }]),
    }
}

#[test]
fn cycle_choice_falls_back_to_manual() {
    let src = source_with_manual();
    let manual = manual_cycles(&src);
    assert_eq!(manual.len(), 1);
    assert_eq!(manual[0].release_date.as_deref(), Some("2025-11-30"));

    let (chosen, warning) = choose_cycles(Ok(vec![]), manual_cycles(&src), "nixos");
    assert_eq!(chosen.len(), 1);
    assert_eq!(warning.as_deref(), Some("warning: nixos: endoflife returned no cycles, using manual"));

    let (chosen, warning) = choose_cycles(Err(s("timed out")), manual_cycles(&src), "nixos");
    assert_eq!(chosen[0].cycle, "25.11");
    assert_eq!(warning.as_deref(), Some("warning: nixos: timed out; using manual cycles"));

    let fetched = vec![LinuxCycle { cycle: s("26.05"), latest: None, lts: None, release_date: None, eol: None }];
    let (chosen, warning) = choose_cycles(Ok(fetched), manual_cycles(&src), "nixos");
    assert_eq!(chosen[0].cycle, "26.05");
    assert_eq!(warning, None);

    let d = distro_from_source(&src, chosen);
    assert_eq!(d.slug, "nixos");
    assert_eq!(d.arch, vec![s("x86_64"), s("aarch64")]);
    assert_eq!(d.cycles[0].cycle, "26.05");

    let bare = LinuxSource { manual_cycles: None, ..source_with_manual() };
    assert!(manual_cycles(&bare).is_empty());
}

#[test]
fn file_name_decodes_invalid_utf8_lossily() {
    assert_eq!(file_name_from_url("https://example.com/a%FFb.iso", "fb.iso"), "a\u{FFFD}b.iso");
}

#[test]
fn language_query_is_trimmed_and_folded() {
    let skus = vec![
        Sku { id: s("1"), language: s("en-us"), localized_language: s("English"), product_edition_id: 1 },
        Sku { id: s("2"), language: s("zh-cn"), localized_language: s("Chinese (Simplified)"), product_edition_id: 1 },
    ];
    assert_eq!(pick_language(&skus, Some("\t ZH-CN \n")).unwrap().id, "2");
    assert_eq!(pick_language(&skus, Some("chinese (simplified)")).unwrap().id, "2");
    assert_eq!(pick_language(&skus, Some("klingon")).unwrap().id, "1");
    assert!(pick_language(&[], Some("en")).is_err());
}

#[test]
fn file_name_never_leaves_the_directory() {
    assert_eq!(file_name_from_url("https://example.com/..%2F..%2Fx.iso", "fb.iso"), "fb.iso");
    assert_eq!(file_name_from_url("https://example.com/a%5Cb.iso", "fb.iso"), "fb.iso");
    assert_eq!(file_name_from_url("https://example.com/dir/%2E.", "fb.iso"), "fb.iso");
    assert_eq!(file_name_from_url("https://example.com/x%2Ey.iso", "fb.iso"), "x.y.iso");
}

#[test]
fn replace_with_an_empty_pattern() {
    assert_eq!(ventoypilot::text::replace("abc", "", "x"), "abc".replace("", "x"));
    assert_eq!(ventoypilot::text::replace("", "", "x"), "x");
    assert_eq!(ventoypilot::text::replace("a{v}b{v}", "{v}", "1"), "a1b1");
}

#[test]
fn trim_knows_unicode_white_space() {
    assert_eq!(ventoypilot::text::trim("\u{3000}\u{85} zh-CN\u{2029}"), "zh-CN");
    assert_eq!(ventoypilot::text::trim("\u{200B}x"), "\u{200B}x");
}

#[test]
fn white_space_set_matches_std() {
    for u in 0u32..=0x10FFFF {
        if let Some(c) = char::from_u32(u) {
            assert_eq!(ventoypilot::text::is_whitespace(c), c.is_whitespace(), "U+{u:04X}");
        }
    }
}

#[test]
fn checksum_verification() {
    let digest = "ba7816bf8f01cfea414140de5dae2223b00361a396177a9cb410ff61f20015ad";
    assert!(Checksum::matches(digest, None, "x.iso").is_ok());
    assert!(Checksum::matches(digest, Some(digest), "x.iso").is_ok());
    assert!(Checksum::matches(digest, Some(&digest.to_uppercase()), "x.iso").is_ok());
    match Checksum::matches(digest, Some("00"), "x.iso") {
        Err(Error::Other(m)) => assert_eq!(m, format!("sha256 mismatch for x.iso: expected 00, got {digest}")),
        other => panic!("unexpected: {other:?}"),
    }
}
