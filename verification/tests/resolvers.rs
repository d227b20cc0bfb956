//! Resolvers against a small hand-written catalog and a mocked network.

use ventoypilot::catalog::{
    Catalog, Kind, LinuxCycle, LinuxDistro, Tool, ToolCycle, WindowsEdition, WindowsRelease,
    WindowsVersion,
};
use ventoypilot::config::Config;
use ventoypilot::error::Error;
use ventoypilot::http::{HttpResponse, MockHttp};
use ventoypilot::source::linux::{LinuxResolver, LinuxStep};
use ventoypilot::source::resolver::{DownloadPlan, DownloadRequest, LinkCheck, ResolverContext};
use ventoypilot::source::tools::ToolsResolver;
use ventoypilot::source::windows::{
    ApiError, LinkRaw, LinksPayload, SkuPayload, SkuRaw, WinAction, WinEvent, WindowsResolver,
};

fn s(x: &str) -> String {
    x.to_string()
}

fn cycle(c: &str, latest: Option<&str>) -> LinuxCycle {
    LinuxCycle {
        cycle: s(c),
        latest: latest.map(s),
        lts: None,
        release_date: None,
        eol: None,
    }
}

fn distro(
    name: &str,
    slug: &str,
    resolver: &str,
    tpl: Option<&str>,
    page: Option<&str>,
    arch: &[&str],
    cycles: Vec<LinuxCycle>,
) -> LinuxDistro {
    LinuxDistro {
        name: s(name),
        slug: s(slug),
        resolver: s(resolver),
        url_template: tpl.map(s),
        page_url: page.map(s),
        arch: arch.iter().map(|a| s(a)).collect(),
        cycles,
    }
}

fn sample_catalog() -> Catalog {
    Catalog {
        generated_at: s("2026-01-01"),
        windows: vec![WindowsVersion {
            name: s("Windows 11"),
            slug: s("windows11"),
            releases: vec![WindowsRelease {
                release: s("25H2"),
                editions: vec![
                    WindowsEdition {
                        name: s("Windows 11 (multi-edition ISO)"),
                        types: vec![s("desktop"), s("pro"), s("home")],
                        product_edition_id: vec![3321],
                    },
                    WindowsEdition {
                        name: s("Windows 11 Home China"),
                        types: vec![s("home-china")],
                        product_edition_id: vec![3322],
                    },
                ],
            }],
        }],
        linux: vec![
            distro(
                "Ubuntu",
                "ubuntu",
                "template",
                Some("https://releases.ubuntu.com/{version}/ubuntu-{version}-desktop-{arch}.iso"),
                None,
                &["amd64", "arm64"],
                vec![cycle("26.04", Some("26.04")), cycle("24.04", Some("24.04.3"))],
            ),
            distro(
                "Fedora Workstation",
                "fedora",
                "template",
                Some("https://download.fedoraproject.org/pub/fedora/linux/releases/{cycle}/Workstation/{arch}/iso/Fedora-Workstation-Live-{cycle}-{arch}.iso"),
                None,
                &["x86_64", "aarch64"],
                vec![cycle("44", Some("44"))],
            ),
            distro(
                "Alpine Linux",
                "alpine",
                "template",
                Some("https://dl-cdn.alpinelinux.org/alpine/v{cycle}/releases/{arch}/alpine-{version}-{arch}.iso"),
                None,
                &["x86_64", "aarch64"],
                vec![cycle("3.24", Some("3.24.1"))],
            ),
            distro("NixOS", "nixos", "nixos", None, None, &["x86_64", "aarch64"], vec![cycle("25.11", None)]),
            distro("Proxmox VE", "proxmox-ve", "proxmox", None, None, &["amd64"], vec![]),
            distro(
                "KDE Plasma",
                "kde-plasma",
                "release-page",
                None,
                Some("https://kde.org/plasma-desktop/"),
                &[],
                vec![cycle("6.5", None)],
            ),
        ],
        tools: vec![Tool {
            name: s("UEFI Shell"),
            slug: s("uefi-shell"),
            repo: Some(s("pbatard/UEFI-Shell")),
            url_template: Some(s(
                "https://github.com/pbatard/UEFI-Shell/releases/download/{tag}/UEFI-Shell-{release}-{tag}-RELEASE.iso",
            )),
            cycles: vec![
                ToolCycle { tag: s("26H1"), release: Some(s("2.2")) },
                ToolCycle { tag: s("24H2"), release: Some(s("2.2")) },
            ],
        }],
    }
}

fn cfg_with_dir(dir: &str) -> Config {
    Config {
        download_dir: s(dir),
        default_release: s("latest"),
        default_arch: s("x64"),
        default_lang: s("en-US"),
        ..Config::default()
    }
}

fn req(cfg: &Config, system: &str) -> DownloadRequest {
    DownloadRequest {
        system: s(system),
        release: None,
        edition: None,
        lang: None,
        arch: None,
        target_dir: cfg.download_dir(None),
    }
}

fn linux_plan(resolver: &LinuxResolver, r: &DownloadRequest) -> DownloadPlan {
    match resolver.resolve(r).unwrap() {
        LinuxStep::Plan(p) => p,
        LinuxStep::FetchPage(u) => panic!("unexpected page fetch: {u}"),
    }
}

// ---------------------------------------------------------------------------
// Linux
// ---------------------------------------------------------------------------

#[test]
fn ubuntu_template_resolver() {
    let catalog = sample_catalog();
    let cfg = cfg_with_dir("/tmp/vpilot-linux-dl");
    let ctx = ResolverContext { config: &cfg, kind: Kind::Linux };
    let resolver = LinuxResolver::new(&ctx, &catalog);

    let plan = linux_plan(&resolver, &req(&cfg, "ubuntu"));
    assert!(plan.url.starts_with("https://releases.ubuntu.com/"));
    assert!(plan.url.ends_with("ubuntu-26.04-desktop-amd64.iso"));
    assert_eq!(plan.file_name, "ubuntu-26.04-desktop-amd64.iso");
    assert_eq!(plan.target_path, "/tmp/vpilot-linux-dl/ubuntu-26.04-desktop-amd64.iso");
    assert_eq!(plan.arch, "amd64");
    assert!(plan.downloadable);
}

#[test]
fn ubuntu_arch_maps_to_arm64() {
    let catalog = sample_catalog();
    let cfg = cfg_with_dir("/tmp/vpilot-linux-dl");
    let ctx = ResolverContext { config: &cfg, kind: Kind::Linux };
    let resolver = LinuxResolver::new(&ctx, &catalog);

    let mut r = req(&cfg, "ubuntu");
    r.arch = Some(s("arm64"));
    let plan = linux_plan(&resolver, &r);
    assert!(plan.url.ends_with("-arm64.iso"));
}

#[test]
fn ubuntu_specific_release() {
    let catalog = sample_catalog();
    let cfg = cfg_with_dir("/tmp/vpilot-linux-dl");
    let ctx = ResolverContext { config: &cfg, kind: Kind::Linux };
    let resolver = LinuxResolver::new(&ctx, &catalog);

    let mut r = req(&cfg, "ubuntu");
    r.release = Some(s("24.04"));
    let plan = linux_plan(&resolver, &r);
    assert!(plan.url.contains("ubuntu-24.04"));
    assert_eq!(plan.file_name, "ubuntu-24.04.3-desktop-amd64.iso");
    assert_eq!(plan.source, "Ubuntu 24.04 24.04.3 (template)");
}

#[test]
fn fedora_arch_family_fallback() {
    let catalog = sample_catalog();
    let cfg = cfg_with_dir("/tmp/vpilot-linux-dl");
    let ctx = ResolverContext { config: &cfg, kind: Kind::Linux };
    let resolver = LinuxResolver::new(&ctx, &catalog);

    let plan = linux_plan(&resolver, &req(&cfg, "fedora"));
    assert!(plan.url.contains("Fedora-Workstation-Live-44-x86_64.iso"));
    assert_eq!(plan.arch, "x86_64");
}

#[test]
fn alpine_version_uses_latest_patch() {
    let catalog = sample_catalog();
    let cfg = cfg_with_dir("/tmp/vpilot-linux-dl");
    let ctx = ResolverContext { config: &cfg, kind: Kind::Linux };
    let resolver = LinuxResolver::new(&ctx, &catalog);

    let plan = linux_plan(&resolver, &req(&cfg, "alpine"));
    assert!(plan.url.starts_with("https://dl-cdn.alpinelinux.org/alpine/v3.24/"));
    assert!(plan.url.ends_with("alpine-3.24.1-x86_64.iso"));
}

#[test]
fn nixos_channel_url() {
    let catalog = sample_catalog();
    let cfg = cfg_with_dir("/tmp/vpilot-linux-dl");
    let ctx = ResolverContext { config: &cfg, kind: Kind::Linux };
    let resolver = LinuxResolver::new(&ctx, &catalog);

    let plan = linux_plan(&resolver, &req(&cfg, "nixos"));
    assert!(plan.url.starts_with("https://channels.nixos.org/nixos-"));
    assert!(plan.url.ends_with("latest-nixos-minimal-x86_64-linux.iso"));
    assert_eq!(plan.file_name, "nixos-minimal-25.11-x86_64.iso");
    assert_eq!(plan.source, "NixOS 25.11 channel");
}

#[test]
fn nixos_arm_channel_url() {
    let catalog = sample_catalog();
    let cfg = cfg_with_dir("/tmp/vpilot-linux-dl");
    let ctx = ResolverContext { config: &cfg, kind: Kind::Linux };
    let resolver = LinuxResolver::new(&ctx, &catalog);

    let mut r = req(&cfg, "nixos");
    r.arch = Some(s("aarch64"));
    let plan = linux_plan(&resolver, &r);
    assert_eq!(plan.url, "https://channels.nixos.org/nixos-25.11/latest-nixos-minimal-aarch64-linux.iso");
    assert_eq!(plan.arch, "aarch64");
    // "arm64" names no listed architecture exactly; the family fallback scans
    // the list in order and "64" also counts as the x86 family.
    r.arch = Some(s("arm64"));
    assert_eq!(linux_plan(&resolver, &r).arch, "x86_64");
}

#[test]
fn proxmox_scrapes_iso_links() {
    let catalog = sample_catalog();
    let cfg = cfg_with_dir("/tmp/vpilot-linux-dl");
    let ctx = ResolverContext { config: &cfg, kind: Kind::Linux };
    let mut http = MockHttp::new();
    http.route_text(
        "https://www.proxmox.com/en/downloads/proxmox-virtual-environment/iso",
        r#"<a href="https://enterprise.proxmox.com/iso/proxmox-ve_8.3-1.iso">8.3</a>
           <a href="https://enterprise.proxmox.com/iso/proxmox-ve_8.4-2.iso">8.4</a>"#,
    );
    let resolver = LinuxResolver::new(&ctx, &catalog);

    let r = req(&cfg, "proxmox");
    let page_url = match resolver.resolve(&r).unwrap() {
        LinuxStep::FetchPage(u) => u,
        LinuxStep::Plan(_) => panic!("proxmox must fetch its page"),
    };
    let page = http.dispatch(&page_url).unwrap();
    let plan = resolver.resolve_proxmox_page(&r, &page).unwrap();
    assert_eq!(plan.url, "https://enterprise.proxmox.com/iso/proxmox-ve_8.4-2.iso");
    assert_eq!(plan.file_name, "proxmox-ve_8.4-2.iso");

    let mut r = req(&cfg, "proxmox");
    r.release = Some(s("8.3"));
    let page = http.dispatch(&page_url).unwrap();
    let plan = resolver.resolve_proxmox_page(&r, &page).unwrap();
    assert_eq!(plan.url, "https://enterprise.proxmox.com/iso/proxmox-ve_8.3-1.iso");
}

#[test]
fn proxmox_unknown_release_lists_links() {
    let catalog = sample_catalog();
    let cfg = cfg_with_dir("/tmp/vpilot-linux-dl");
    let ctx = ResolverContext { config: &cfg, kind: Kind::Linux };
    let resolver = LinuxResolver::new(&ctx, &catalog);
    let page = HttpResponse::ok(
        200,
        br#"<a href="https://enterprise.proxmox.com/iso/proxmox-ve_8.4-2.iso">x</a>
            <a href="https://enterprise.proxmox.com/iso/proxmox-ve_8.3-1.iso">y</a>
            <a href="https://enterprise.proxmox.com/iso/proxmox-ve_8.4-2.iso">dup</a>"#
            .to_vec(),
    );
    let mut r = req(&cfg, "proxmox");
    r.release = Some(s("9.0"));
    match resolver.resolve_proxmox_page(&r, &page) {
        Err(Error::NotFound(m)) => assert_eq!(
            m,
            "no Proxmox ISO for release '9.0' (found: https://enterprise.proxmox.com/iso/proxmox-ve_8.3-1.iso, https://enterprise.proxmox.com/iso/proxmox-ve_8.4-2.iso)"
        ),
        other => panic!("unexpected: {other:?}"),
    }
}

#[test]
fn proxmox_page_without_links() {
    let catalog = sample_catalog();
    let cfg = cfg_with_dir("/tmp/vpilot-linux-dl");
    let ctx = ResolverContext { config: &cfg, kind: Kind::Linux };
    let resolver = LinuxResolver::new(&ctx, &catalog);
    let page = HttpResponse::ok(200, b"<html>nothing here</html>".to_vec());
    match resolver.resolve_proxmox_page(&req(&cfg, "proxmox"), &page) {
        Err(Error::NotFound(m)) => assert!(m.starts_with("no proxmox-ve*.iso links found")),
        other => panic!("unexpected: {other:?}"),
    }
    let bad = HttpResponse::ok(200, vec![0xff, 0xfe]);
    match resolver.resolve_proxmox_page(&req(&cfg, "proxmox"), &bad) {
        Err(Error::Parse(m)) => assert!(m.starts_with("invalid utf-8 body: ")),
        other => panic!("unexpected: {other:?}"),
    }
}

#[test]
fn kde_plasma_release_page_not_downloadable() {
    let catalog = sample_catalog();
    let cfg = cfg_with_dir("/tmp/vpilot-linux-dl");
    let ctx = ResolverContext { config: &cfg, kind: Kind::Linux };
    let resolver = LinuxResolver::new(&ctx, &catalog);

    let plan = linux_plan(&resolver, &req(&cfg, "kde"));
    assert!(!plan.downloadable);
    assert_eq!(plan.url, "https://kde.org/plasma-desktop/");
    assert_eq!(plan.file_name, "kde-plasma-6.5.txt");
    let refused = ventoypilot::source::dispatch::require_downloadable(&plan).unwrap_err();
    assert_eq!(
        refused.message(),
        "KDE Plasma release page (no bootable ISO) has no bootable ISO; open https://kde.org/plasma-desktop/ manually"
    );
}

#[test]
fn linux_unknown_distro_errors() {
    let catalog = sample_catalog();
    let cfg = cfg_with_dir("/tmp/vpilot-linux-dl");
    let ctx = ResolverContext { config: &cfg, kind: Kind::Linux };
    let resolver = LinuxResolver::new(&ctx, &catalog);

    let r = req(&cfg, "slackware");
    let err = resolver.resolve(&r).err().unwrap();
    assert!(err.message().contains("unknown Linux distro"));
}

#[test]
fn linux_unknown_release_lists_cycles() {
    let catalog = sample_catalog();
    let cfg = cfg_with_dir("/tmp/vpilot-linux-dl");
    let ctx = ResolverContext { config: &cfg, kind: Kind::Linux };
    let resolver = LinuxResolver::new(&ctx, &catalog);

    let mut r = req(&cfg, "ubuntu");
    r.release = Some(s("18.04"));
    match resolver.resolve(&r) {
        Err(Error::NotFound(m)) => {
            assert_eq!(m, "release '18.04' not found for Ubuntu (available: 26.04, 24.04)")
        }
        _ => panic!("expected NotFound"),
    }
}

// ---------------------------------------------------------------------------
// Tools
// ---------------------------------------------------------------------------

#[test]
fn uefi_shell_latest_builds_github_url() {
    let catalog = sample_catalog();
    let cfg = cfg_with_dir("/tmp/vpilot-tools-dl");
    let ctx = ResolverContext { config: &cfg, kind: Kind::Tools };
    let resolver = ToolsResolver::new(&ctx, &catalog);

    let plan = resolver.resolve(&req(&cfg, "uefi-shell")).unwrap();
    assert_eq!(
        plan.url,
        "https://github.com/pbatard/UEFI-Shell/releases/download/26H1/UEFI-Shell-2.2-26H1-RELEASE.iso"
    );
    assert_eq!(plan.file_name, "UEFI-Shell-2.2-26H1-RELEASE.iso");
    assert_eq!(plan.target_path, "/tmp/vpilot-tools-dl/UEFI-Shell-2.2-26H1-RELEASE.iso");
    assert_eq!(plan.source, "UEFI Shell 26H1 (pbatard/UEFI-Shell)");
    assert_eq!(plan.arch, "x86_64");
}

#[test]
fn uefi_shell_specific_tag() {
    let catalog = sample_catalog();
    let cfg = cfg_with_dir("/tmp/vpilot-tools-dl");
    let ctx = ResolverContext { config: &cfg, kind: Kind::Tools };
    let resolver = ToolsResolver::new(&ctx, &catalog);

    let mut r = req(&cfg, "uefi-shell");
    r.release = Some(s("24H2"));
    let plan = resolver.resolve(&r).unwrap();
    assert!(plan.url.contains("download/24H2/UEFI-Shell-2.2-24H2-RELEASE.iso"));
}

#[test]
fn tools_unknown_tag_and_tool() {
    let catalog = sample_catalog();
    let cfg = cfg_with_dir("/tmp/vpilot-tools-dl");
    let ctx = ResolverContext { config: &cfg, kind: Kind::Tools };
    let resolver = ToolsResolver::new(&ctx, &catalog);

    let mut r = req(&cfg, "uefi-shell");
    r.release = Some(s("23H1"));
    match resolver.resolve(&r) {
        Err(Error::NotFound(m)) => {
            assert_eq!(m, "release '23H1' not found for UEFI Shell (available: 26H1, 24H2)")
        }
        _ => panic!("expected NotFound"),
    }
    match resolver.resolve(&req(&cfg, "memtest")) {
        Err(Error::NotFound(m)) => assert_eq!(m, "unknown tool: memtest"),
        _ => panic!("expected NotFound"),
    }
}

// ---------------------------------------------------------------------------
// Windows, driven through the flow with a mocked connector
// ---------------------------------------------------------------------------

fn mock_connector() -> MockHttp {
    let mut http = MockHttp::new();
    http.route_text("https://vlscppe.microsoft.com/tags", "OK");
    http.route_text(
        "https://ov-df.microsoft.com/mdt.js",
        "x = \"https://ov-df.microsoft.com/?w=ABCDEF&rticks=\\\"+9876543210\\\"\"",
    );
    http.route_text("https://ov-df.microsoft.com/?session_id=", "OK");
    http.route_text(
        "https://www.microsoft.com/software-download-connector/api/getskuinformationbyproductedition",
        r#"{"Skus": [
              { "Id": "1449", "Language": "zh-cn", "LocalizedLanguage": "Chinese (Simplified)" },
              { "Id": "1450", "Language": "en-us", "LocalizedLanguage": "English (United States)" }
            ], "Errors": []}"#,
    );
    http.route_text(
        "https://www.microsoft.com/software-download-connector/api/GetProductDownloadLinksBySku",
        r#"{"ProductDownloadOptions": [
              { "DownloadType": 0, "Uri": "https://dl.example/x86/Win11_x86.iso?t=1" },
              { "DownloadType": 1, "Uri": "https://dl.example/x64/Win11_25H2_Chinese_Simplified_x64.iso?t=1&e=2" },
              { "DownloadType": 2, "Uri": "https://dl.example/arm64/Win11_25H2_Chinese_Simplified_arm64.iso" }
            ], "Errors": []}"#,
    );
    http
}

fn errors_of(v: &serde_json::Value) -> Vec<ApiError> {
    v.get("errors")
        .and_then(|e| e.as_array())
        .map(|a| {
            a.iter()
                .map(|e| ApiError {
                    err_type: e.get("type").and_then(|t| t.as_u64()).map(|t| t as u8),
                    value: e.get("Value").and_then(|t| t.as_str()).map(s),
                })
                .collect()
        })
        .unwrap_or_default()
}

fn sku_payload(body: &[u8]) -> Result<SkuPayload, String> {
    let v: serde_json::Value = serde_json::from_slice(body).map_err(|e| e.to_string())?;
    let skus = v
        .get("Skus")
        .and_then(|x| x.as_array())
        .map(|a| {
            a.iter()
                .map(|k| SkuRaw {
                    id: k.get("Id").and_then(|t| t.as_str()).map(s),
                    language: k.get("Language").and_then(|t| t.as_str()).map(s),
                    localized_language: k.get("LocalizedLanguage").and_then(|t| t.as_str()).map(s),
                })
                .collect()
        })
        .unwrap_or_default();
    Ok(SkuPayload { skus, errors: errors_of(&v) })
}

fn links_payload(body: &[u8]) -> Result<LinksPayload, String> {
    let v: serde_json::Value = serde_json::from_slice(body).map_err(|e| e.to_string())?;
    let options = v
        .get("ProductDownloadOptions")
        .and_then(|x| x.as_array())
        .map(|a| {
            a.iter()
                .map(|k| LinkRaw {
                    download_type: k.get("DownloadType").and_then(|t| t.as_u64()).map(|t| t as u8),
                    uri: k.get("Uri").and_then(|t| t.as_str()).map(s),
                })
                .collect()
        })
        .unwrap_or_default();
    Ok(LinksPayload { options, errors: errors_of(&v) })
}

fn resolve_windows(
    resolver: &WindowsResolver,
    r: &DownloadRequest,
    http: &mut MockHttp,
) -> Result<DownloadPlan, Error> {
    let (mut flow, mut action) = resolver.start(r)?;
    loop {
        let event = match action {
            WinAction::Done(p) => return Ok(p),
            WinAction::Fail(e) => return Err(e),
            WinAction::Get(url) => match http.dispatch(&url) {
                Ok(resp) => WinEvent::Reply(resp),
                Err(e) => WinEvent::Failed(e),
            },
            WinAction::GetSkus(url) => match http.dispatch(&url) {
                Ok(resp) => {
                    let p = sku_payload(&resp.body);
                    WinEvent::SkuReply(resp, p)
                }
                Err(e) => WinEvent::Failed(e),
            },
            WinAction::GetLinks(url, referer) => {
                assert_eq!(referer, "https://www.microsoft.com/software-download/windows11");
                match http.dispatch(&url) {
                    Ok(resp) => {
                        let p = links_payload(&resp.body);
                        WinEvent::LinksReply(resp, p)
                    }
                    Err(e) => WinEvent::Failed(e),
                }
            }
        };
        assert!(flow.accepts(&event));
        action = flow.step(event);
    }
}

fn win_req(cfg: &Config) -> DownloadRequest {
    DownloadRequest {
        system: s("win11"),
        release: Some(s("25H2")),
        edition: Some(s("desktop")),
        lang: Some(s("zh-CN")),
        arch: Some(s("x64")),
        target_dir: cfg.download_dir(None),
    }
}

#[test]
fn windows_full_flow_resolves_link_path_and_name() {
    let catalog = sample_catalog();
    let cfg = cfg_with_dir("/tmp/vpilot-test-dl");
    let mut http = mock_connector();
    let c = ResolverContext { config: &cfg, kind: Kind::Windows };
    let resolver = WindowsResolver::new(&c, &catalog);

    let plan = resolve_windows(&resolver, &win_req(&cfg), &mut http).unwrap();

    assert_eq!(plan.url, "https://dl.example/x64/Win11_25H2_Chinese_Simplified_x64.iso?t=1&e=2");
    assert_eq!(plan.file_name, "Win11_25H2_Chinese_Simplified_x64.iso");
    assert_eq!(plan.target_path, "/tmp/vpilot-test-dl/Win11_25H2_Chinese_Simplified_x64.iso");
    assert_eq!(plan.arch, "x64");
    assert!(plan.downloadable);
    assert!(plan.source.contains("Windows 11"));
    assert!(plan.source.contains("25H2"));
    assert!(plan.source.contains("Chinese (Simplified)"));

    let requested = http.requested();
    assert!(requested.iter().any(|u| u.starts_with("https://vlscppe.microsoft.com/tags")));
    assert!(requested.iter().any(|u| u.starts_with("https://ov-df.microsoft.com/mdt.js")));
    assert!(requested.iter().any(|u| u.starts_with("https://ov-df.microsoft.com/?session_id=")));
    let sku_call = requested
        .iter()
        .find(|u| u.contains("getskuinformationbyproductedition"))
        .expect("sku call made");
    assert!(sku_call.contains("productEditionId=3321"));
    let links_call = requested
        .iter()
        .find(|u| u.contains("GetProductDownloadLinksBySku"))
        .expect("links call made");
    assert!(links_call.contains("SKU=1449"));
    let reply_call = requested
        .iter()
        .find(|u| u.starts_with("https://ov-df.microsoft.com/?session_id="))
        .unwrap();
    assert!(reply_call.contains("&w=ABCDEF&mdt="));
    assert!(reply_call.ends_with("&rticks=9876543210"));
}

#[test]
fn windows_arm64_selected_by_arch() {
    let catalog = sample_catalog();
    let cfg = Config::default();
    let mut http = mock_connector();
    let c = ResolverContext { config: &cfg, kind: Kind::Windows };
    let resolver = WindowsResolver::new(&c, &catalog);

    let mut r = win_req(&cfg);
    r.arch = Some(s("arm64"));
    let plan = resolve_windows(&resolver, &r, &mut http).unwrap();
    assert!(plan.url.ends_with("Win11_25H2_Chinese_Simplified_arm64.iso"));
    assert_eq!(plan.arch, "arm64");
}

#[test]
fn windows_language_fallback_english() {
    let catalog = sample_catalog();
    let cfg = Config::default();
    let mut http = mock_connector();
    let c = ResolverContext { config: &cfg, kind: Kind::Windows };
    let resolver = WindowsResolver::new(&c, &catalog);

    let mut r = win_req(&cfg);
    r.lang = Some(s("en-US"));
    let plan = resolve_windows(&resolver, &r, &mut http).unwrap();
    assert!(plan.source.contains("English (United States)"));
    assert_eq!(plan.arch, "x64");
}

#[test]
fn windows_edition_china() {
    let catalog = sample_catalog();
    let cfg = Config::default();
    let mut http = mock_connector();
    let c = ResolverContext { config: &cfg, kind: Kind::Windows };
    let resolver = WindowsResolver::new(&c, &catalog);

    let mut r = win_req(&cfg);
    r.edition = Some(s("home-china"));
    let plan = resolve_windows(&resolver, &r, &mut http).unwrap();
    assert!(plan.source.contains("Home China"));
    assert!(http.requested().iter().any(|u| u.contains("productEditionId=3322")));
}

#[test]
fn windows_unknown_system_errors() {
    let catalog = sample_catalog();
    let cfg = Config::default();
    let mut http = mock_connector();
    let c = ResolverContext { config: &cfg, kind: Kind::Windows };
    let resolver = WindowsResolver::new(&c, &catalog);

    let mut r = win_req(&cfg);
    r.system = s("macos");
    let err = resolve_windows(&resolver, &r, &mut http).unwrap_err();
    assert!(err.message().contains("unknown Windows version"));
    assert!(http.requested().is_empty());
}

#[test]
fn windows_link_availability_probe() {
    let catalog = sample_catalog();
    let cfg = Config::default();
    let mut http = mock_connector();
    let mut resp = HttpResponse::ok(200, b"".to_vec());
    resp.headers.push((s("Content-Length"), s("5864800256")));
    resp.headers.push((s("Content-Type"), s("application/octet-stream")));
    http.route("https://dl.example/x64/", resp);

    let c = ResolverContext { config: &cfg, kind: Kind::Windows };
    let resolver = WindowsResolver::new(&c, &catalog);
    let plan = resolve_windows(&resolver, &win_req(&cfg), &mut http).unwrap();

    let answer = http.dispatch(&plan.url).unwrap();
    let check = LinkCheck::from_response(&plan.url, &answer);
    assert!(check.ok);
    assert_eq!(check.status, 200);
    assert_eq!(check.size_hint, Some(5_864_800_256));
    assert_eq!(check.content_type.as_deref(), Some("application/octet-stream"));
    assert_eq!(
        http.requested().iter().filter(|u| u.starts_with("https://dl.example/x64/")).count(),
        1
    );
}

#[test]
fn windows_region_block_is_reported() {
    let catalog = sample_catalog();
    let cfg = Config::default();
    let mut http = MockHttp::new();
    http.route_text("https://vlscppe.microsoft.com/tags", "OK");
    http.route_text(
        "https://ov-df.microsoft.com/mdt.js",
        "x = \"https://ov-df.microsoft.com/?w=ABCDEF&rticks=\\\"+9876543210\\\"\"",
    );
    http.route_text("https://ov-df.microsoft.com/?session_id=", "OK");
    http.route_text(
        "https://www.microsoft.com/software-download-connector/api/getskuinformationbyproductedition",
        r#"{"Skus": [], "errors": [{"type": 9, "Value": "blocked"}]}"#,
    );
    let c = ResolverContext { config: &cfg, kind: Kind::Windows };
    let resolver = WindowsResolver::new(&c, &catalog);
    let err = resolve_windows(&resolver, &win_req(&cfg), &mut http).unwrap_err();
    match err {
        Error::Other(m) => assert_eq!(
            m,
            "Microsoft has blocked this IP/region (error 715-123130). Try again later or use a different network."
        ),
        other => panic!("unexpected: {other:?}"),
    }
}

#[test]
fn windows_tags_refusal_fails_with_status() {
    let catalog = sample_catalog();
    let cfg = Config::default();
    let mut http = MockHttp::new();
    http.route("https://vlscppe.microsoft.com/tags", HttpResponse::ok(403, b"no".to_vec()));
    let c = ResolverContext { config: &cfg, kind: Kind::Windows };
    let resolver = WindowsResolver::new(&c, &catalog);
    let err = resolve_windows(&resolver, &win_req(&cfg), &mut http).unwrap_err();
    match err {
        Error::HttpStatus { status, url, body } => {
            assert_eq!(status, 403);
            assert!(url.starts_with("https://vlscppe.microsoft.com/tags?org_id=y6jn8c31&session_id="));
            assert_eq!(body, "vlscppe tags whitelist failed");
        }
        other => panic!("unexpected: {other:?}"),
    }
}

#[test]
fn windows_missing_route_fails() {
    let catalog = sample_catalog();
    let cfg = Config::default();
    let mut http = MockHttp::new();
    let c = ResolverContext { config: &cfg, kind: Kind::Windows };
    let resolver = WindowsResolver::new(&c, &catalog);
    let err = resolve_windows(&resolver, &win_req(&cfg), &mut http).unwrap_err();
    match err {
        Error::HttpStatus { status, body, .. } => {
            assert_eq!(status, 404);
            assert_eq!(body, "no mock route registered");
        }
        other => panic!("unexpected: {other:?}"),
    }
    assert_eq!(http.requested().len(), 1);
}

fn handshake_only() -> MockHttp {
    let mut http = MockHttp::new();
    http.route_text("https://vlscppe.microsoft.com/tags", "OK");
    http.route_text(
        "https://ov-df.microsoft.com/mdt.js",
        "x = \"https://ov-df.microsoft.com/?w=ABCDEF&rticks=\\\"+9876543210\\\"\"",
    );
    http.route_text("https://ov-df.microsoft.com/?session_id=", "OK");
    http
}

fn windows_error(http: &mut MockHttp) -> Error {
    let catalog = sample_catalog();
    let cfg = Config::default();
    let c = ResolverContext { config: &cfg, kind: Kind::Windows };
    let resolver = WindowsResolver::new(&c, &catalog);
    resolve_windows(&resolver, &win_req(&cfg), http).unwrap_err()
}

#[test]
fn windows_mdt_without_token_fails() {
    let mut http = MockHttp::new();
    http.route_text("https://vlscppe.microsoft.com/tags", "OK");
    http.route_text("https://ov-df.microsoft.com/mdt.js", "var nothing = 1;");
    match windows_error(&mut http) {
        Error::Parse(m) => assert_eq!(m, "ov-df: cannot extract w"),
        other => panic!("unexpected: {other:?}"),
    }
}

#[test]
fn windows_bad_json_and_connector_errors() {
    let mut http = handshake_only();
    http.route_text(
        "https://www.microsoft.com/software-download-connector/api/getskuinformationbyproductedition",
        "not json",
    );
    match windows_error(&mut http) {
        Error::Parse(m) => assert!(m.starts_with("invalid json body: ")),
        other => panic!("unexpected: {other:?}"),
    }

    let mut http = handshake_only();
    http.route_text(
        "https://www.microsoft.com/software-download-connector/api/getskuinformationbyproductedition",
        r#"{"Skus": [], "errors": [{"type": 1, "Value": "try later"}]}"#,
    );
    match windows_error(&mut http) {
        Error::Other(m) => assert_eq!(m, "Microsoft connector error: try later"),
        other => panic!("unexpected: {other:?}"),
    }
}

#[test]
fn windows_no_links_is_not_found() {
    let mut http = handshake_only();
    http.route_text(
        "https://www.microsoft.com/software-download-connector/api/getskuinformationbyproductedition",
        r#"{"Skus": [{ "Id": "1449", "Language": "zh-cn", "LocalizedLanguage": "Chinese (Simplified)" }]}"#,
    );
    http.route_text(
        "https://www.microsoft.com/software-download-connector/api/GetProductDownloadLinksBySku",
        r#"{"ProductDownloadOptions": [{ "DownloadType": 1 }]}"#,
    );
    match windows_error(&mut http) {
        Error::NotFound(m) => assert_eq!(m, "no download links returned by Microsoft connector"),
        other => panic!("unexpected: {other:?}"),
    }
}

#[test]
fn windows_transport_failure_is_passed_on() {
    let catalog = sample_catalog();
    let cfg = Config::default();
    let c = ResolverContext { config: &cfg, kind: Kind::Windows };
    let resolver = WindowsResolver::new(&c, &catalog);
    let (mut flow, action) = resolver.start(&win_req(&cfg)).unwrap();
    assert!(matches!(action, WinAction::Get(_)));
    let event = WinEvent::Failed(Error::Http(s("connection reset")));
    assert!(flow.accepts(&event));
    match flow.step(event) {
        WinAction::Fail(Error::Http(m)) => assert_eq!(m, "connection reset"),
        _ => panic!("expected the transport error"),
    }
    assert!(!flow.accepts(&WinEvent::Failed(Error::Http(s("again")))));
}
