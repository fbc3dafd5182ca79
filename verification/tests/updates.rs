use hapcli::desktop::installer::{
    bat_quote, check_install_directory, detect_install_target, extract_archive,
    extraction_failure, locate_payload, macos_bundle_root, pick_platform_asset,
    platform_asset_name, sh_quote, staging_name, write_helper, write_test_name, Architecture,
    InstallTarget, UnpackedEntry, UpdateAsset,
};
use hapcli::desktop::settings::Platform;
use hapcli::desktop::units::{format_bytes, format_size, format_speed};
use hapcli::desktop::update::{
    fastest_proxy, offer_release, parse_proxy_prefixes, proxied, read_reply, tries_proxy,
    DownloadRun, GithubRelease, ReleaseReply, ReleaseSearch, SearchStep, UpdateCheckEvent,
    UpdateCheckState, UpdateClicks, UpdateStatus, UpdateWindow,
};
use hapcli::desktop::version::{compare_versions, is_update_newer};
use hapcli::paths::LocalPath;
use std::cmp::Ordering;

fn path(text: &str) -> LocalPath {
    let mut components = Vec::new();
    if text.starts_with('/') {
        components.push("/".to_string());
    }
    for part in text.split('/') {
        if !part.is_empty() {
            components.push(part.to_string());
        }
    }
    LocalPath { components }
}

fn assets() -> Vec<UpdateAsset> {
    vec![
        UpdateAsset {
            name: "hapcli-windows-x86_64.zip".to_string(),
            browser_download_url: "https://example.invalid/win.zip".to_string(),
        },
        UpdateAsset {
            name: "hapcli-macos-arm64.zip".to_string(),
            browser_download_url: "https://example.invalid/mac.zip".to_string(),
        },
    ]
}

fn release(tag: &str) -> GithubRelease {
    GithubRelease {
        tag_name: tag.to_string(),
        name: None,
        body: None,
        prerelease: false,
        draft: false,
        assets: assets(),
    }
}

fn no_clicks() -> UpdateClicks {
    UpdateClicks {
        toggle_notes: false,
        start: false,
        ignore: false,
        later: false,
        cancel: false,
        retry: false,
        open_page: false,
    }
}

fn offered() -> UpdateCheckState {
    let mut state = UpdateCheckState::default();
    let status = offer_release(release("v2.0.24"), "2.0.23").unwrap();
    state.poll(vec![UpdateCheckEvent::Result(status)], 5);
    state
}

const MAC: (Platform, Architecture) = (Platform::MacOs, Architecture::Arm64);
const WINDOWS: (Platform, Architecture) = (Platform::Windows, Architecture::X64);
const LINUX: (Platform, Architecture) = (Platform::Other, Architecture::X64);

#[test]
fn version_compare_handles_numeric_segments() {
    assert_eq!(compare_versions("2.0.24", "2.0.23"), Ordering::Greater);
    assert_eq!(compare_versions("2.0.9", "2.0.10"), Ordering::Less);
    assert_eq!(compare_versions("2.1.0", "2.0.99"), Ordering::Greater);
    assert_eq!(compare_versions("2.0.23", "2.0.23"), Ordering::Equal);
    assert_eq!(compare_versions("v2.0.24", "2.0.23"), Ordering::Greater);
    assert_eq!(compare_versions("2.0.24-beta", "2.0.24"), Ordering::Less);
    assert_eq!(compare_versions("2.0.24", "2.0.24-beta"), Ordering::Greater);
}

#[test]
fn versions_are_padded_and_broken_parts_count_as_zero() {
    assert_eq!(compare_versions("2", "2.0.0"), Ordering::Equal);
    assert_eq!(compare_versions("2.x.1", "2.0.1"), Ordering::Equal);
    assert_eq!(compare_versions("2.0.1+build", "2.0.1"), Ordering::Equal);
    assert_eq!(compare_versions("", "0"), Ordering::Equal);
    assert_eq!(compare_versions("99999999999999999999", "1"), Ordering::Less);
}

#[test]
fn update_newer_ignores_older_or_same() {
    assert!(is_update_newer("2.0.24", "2.0.23"));
    assert!(!is_update_newer("2.0.22", "2.0.23"));
    assert!(!is_update_newer("2.0.23", "2.0.23"));
}

#[test]
fn platform_asset_picks_matching_name() {
    let assets = assets();
    for (platform, architecture) in [MAC, WINDOWS, LINUX] {
        if let Some(expected) = platform_asset_name(platform, architecture) {
            let picked = pick_platform_asset(platform, architecture, &assets).unwrap();
            assert_eq!(picked.name, expected);
        } else {
            assert!(pick_platform_asset(platform, architecture, &assets).is_none());
        }
    }
    assert_eq!(platform_asset_name(MAC.0, MAC.1), Some("hapcli-macos-arm64.zip"));
    assert_eq!(platform_asset_name(LINUX.0, LINUX.1), None);
}

#[test]
fn macos_bundle_root_detects_app_bundle() {
    let exe = path("/Applications/hapcli.app/Contents/MacOS/hapcli");
    assert_eq!(macos_bundle_root(&exe), Some(path("/Applications/hapcli.app")));
    let bare = path("/usr/local/bin/hapcli");
    assert_eq!(macos_bundle_root(&bare), None);
    assert_eq!(
        detect_install_target(&exe),
        InstallTarget::AppBundle(path("/Applications/hapcli.app"))
    );
    assert_eq!(detect_install_target(&bare), InstallTarget::Executable(bare.clone()));
    assert_eq!(detect_install_target(&bare).directory(), Some(path("/usr/local/bin")));
}

#[test]
fn app_bundle_payload_resolves_to_bundle_dir() {
    let payload = path("/tmp/hapcli-update-123/hapcli.app/Contents/MacOS/hapcli");
    assert_eq!(macos_bundle_root(&payload), Some(path("/tmp/hapcli-update-123/hapcli.app")));
}

#[test]
fn shell_quote_escapes_single_quotes() {
    assert_eq!(sh_quote("/a b/c"), "'/a b/c'");
    assert_eq!(sh_quote("/it's"), "'/it'\\''s'");
    assert_eq!(bat_quote("a\"b"), "\"a\"\"b\"");
}

#[test]
fn proxy_prefixes_are_parsed_and_normalized() {
    let list = "https://gh.dpik.top/, ghfast.top , ,http://localhost:8080,not-a-url";
    let proxies = parse_proxy_prefixes(list);
    assert_eq!(
        proxies,
        vec![
            "https://gh.dpik.top/".to_string(),
            "https://ghfast.top/".to_string(),
            "http://localhost:8080/".to_string(),
            "https://not-a-url/".to_string(),
        ]
    );
    assert!(parse_proxy_prefixes(" , /// ").is_empty());
}

#[test]
fn proxied_url_keeps_full_github_url() {
    let url = "https://github.com/dardiao/hapcli/releases/download/v3.0.0/hapcli-macos-arm64.zip";
    assert_eq!(
        proxied(url, "https://gh.dpik.top/"),
        "https://gh.dpik.top/https://github.com/dardiao/hapcli/releases/download/v3.0.0/hapcli-macos-arm64.zip"
    );
}

#[test]
fn the_fastest_proxy_is_the_first_of_the_quickest() {
    assert_eq!(fastest_proxy(&[None, Some(30), Some(10), Some(10)]), Some(2));
    assert_eq!(fastest_proxy(&[None, None]), None);
    assert!(tries_proxy(true, &["p".to_string()]));
    assert!(!tries_proxy(true, &[]));
    assert!(!tries_proxy(false, &["p".to_string()]));
}

#[test]
fn only_newer_final_releases_are_offered() {
    match offer_release(release("v2.0.24"), "2.0.23") {
        Some(UpdateStatus::UpdateAvailable { version, name, notes, assets }) => {
            assert_eq!(version, "2.0.24");
            assert_eq!(name, "v2.0.24");
            assert_eq!(notes, "");
            assert_eq!(assets.len(), 2);
        }
        _ => panic!("expected an offer"),
    }
    assert!(offer_release(release("v2.0.23"), "2.0.23").is_none());
    let mut draft = release("v3.0.0");
    draft.draft = true;
    assert!(offer_release(draft, "2.0.23").is_none());
    let mut early = release("v3.0.0");
    early.prerelease = true;
    assert!(offer_release(early, "2.0.23").is_none());
}

#[test]
fn a_search_goes_on_to_the_proxies() {
    let mut search = ReleaseSearch::new(&["https://p/".to_string()]);
    let direct = "https://api.github.com/repos/dardiao/hapcli/releases/latest";
    match search.next() {
        SearchStep::Ask(url) => assert_eq!(url, direct),
        _ => panic!("expected an address"),
    }
    match search.answered(ReleaseReply::Unreachable("down".to_string()), "1.0") {
        SearchStep::Ask(url) => assert_eq!(url, format!("https://p/{direct}")),
        _ => panic!("expected an address"),
    }
    match search.answered(ReleaseReply::Refused("500".to_string()), "1.0") {
        SearchStep::Done(UpdateStatus::Error(message)) => {
            assert_eq!(message, "无法连接更新服务器（直连与代理均失败）: HTTP 500")
        }
        _ => panic!("expected an error"),
    }
    let mut search = ReleaseSearch::new(&[]);
    search.next();
    assert!(matches!(
        search.answered(ReleaseReply::NotFound, "1.0"),
        SearchStep::Done(UpdateStatus::UpToDate)
    ));
    assert_eq!(
        read_reply(ReleaseReply::Unreadable("eof".to_string()), "1.0").err(),
        Some("解析失败: eof".to_string())
    );
}

#[test]
fn downloads_report_and_end() {
    let mut run = DownloadRun::new(Some(10), 1000);
    assert!(!run.received(4, 1079));
    assert!(run.received(5, 1080));
    assert!(!run.received(0, 1100));
    assert_eq!(run.finish(false), Err("下载不完整（9/10 字节）".to_string()));
    run.received(1, 1101);
    assert_eq!(run.finish(false), Ok(()));
    assert_eq!(run.finish(true), Err("下载已取消".to_string()));
    assert_eq!(DownloadRun::new(None, 0).total, 0);
}

#[test]
fn checks_are_begun_once_and_repeated() {
    let mut state = UpdateCheckState::default();
    state.set_proxies(&["https://p/".to_string()]);
    let job = state.maybe_periodic_check("1.0", true, 0).unwrap();
    assert_eq!(job.delay_ms, 4000);
    assert_eq!(job.current_version, "1.0");
    assert_eq!(job.proxies, vec!["https://p/".to_string()]);
    assert!(state.check_now("1.0", 0).is_none());
    state.poll(vec![UpdateCheckEvent::Result(UpdateStatus::UpToDate)], 100);
    assert!(state.maybe_periodic_check("1.0", true, 100 + 21599999).is_none());
    assert!(state.maybe_periodic_check("1.0", false, 100 + 21600000).is_none());
    let job = state.maybe_periodic_check("1.0", true, 100 + 21600000).unwrap();
    assert_eq!(job.delay_ms, 0);
}

#[test]
fn a_download_runs_to_its_end() {
    let mut state = offered();
    let mut ignored = None;
    let clicks = UpdateClicks { start: true, ..no_clicks() };
    let effect = state.update_window(&mut ignored, clicks, MAC.0, MAC.1);
    assert_eq!(effect.job.unwrap().asset.name, "hapcli-macos-arm64.zip");
    state.poll(
        vec![UpdateCheckEvent::Progress { transferred: 1024, total: 2048, speed_bps: 512 }],
        6,
    );
    match state.window(&ignored, "2.0.23") {
        UpdateWindow::Progress { heading, detail, unknown_total } => {
            assert_eq!(heading, "正在下载 v2.0.24 …");
            assert_eq!(detail, "1 KB / 2 KB · 512 B/s");
            assert!(!unknown_total);
        }
        _ => panic!("expected progress"),
    }
    state.poll(vec![UpdateCheckEvent::Finished], 7);
    assert!(matches!(state.window(&ignored, "2.0.23"), UpdateWindow::CloseProgram));
    let effect = state.update_window(&mut ignored, no_clicks(), MAC.0, MAC.1);
    assert!(effect.close);
    state.poll(
        vec![UpdateCheckEvent::Progress { transferred: 1, total: 2, speed_bps: 0 }],
        8,
    );
    assert!(matches!(state.status, UpdateStatus::ReadyToInstall));
}

#[test]
fn a_failed_download_can_be_tried_again() {
    let mut state = offered();
    let mut ignored = None;
    let start = UpdateClicks { start: true, ..no_clicks() };
    let effect = state.update_window(&mut ignored, start, LINUX.0, LINUX.1);
    assert!(effect.job.is_none());
    match state.window(&ignored, "2.0.23") {
        UpdateWindow::Failure { heading, message } => {
            assert_eq!(heading, "更新 v2.0.24 失败");
            assert_eq!(message, "当前平台没有可用的自动更新安装包，请打开下载页手动安装");
        }
        _ => panic!("expected a failure"),
    }
    let page = UpdateClicks { open_page: true, ..no_clicks() };
    let effect = state.update_window(&mut ignored, page, LINUX.0, LINUX.1);
    assert_eq!(
        effect.open_url,
        Some("https://github.com/dardiao/hapcli/releases/tag/v2.0.24".to_string())
    );
    assert!(matches!(state.window(&ignored, "2.0.23"), UpdateWindow::Hidden));

    let mut state = offered();
    state.update_window(&mut ignored, start, MAC.0, MAC.1);
    state.poll(vec![UpdateCheckEvent::Failed("x".to_string())], 1);
    let retry = UpdateClicks { retry: true, ..no_clicks() };
    assert!(state.update_window(&mut ignored, retry, MAC.0, MAC.1).job.is_some());
    let cancel = UpdateClicks { cancel: true, ..no_clicks() };
    state.update_window(&mut ignored, cancel, MAC.0, MAC.1);
    assert!(state.cancel_download && state.dismissed);
}

#[test]
fn an_ignored_version_is_not_offered() {
    let mut state = offered();
    let mut ignored = None;
    match state.window(&ignored, "2.0.23") {
        UpdateWindow::Offer { heading, detail, notes, notes_label } => {
            assert_eq!(heading, "发现新版本 2.0.24");
            assert_eq!(detail, "当前版本 2.0.23 · v2.0.24");
            assert!(notes.is_none());
            assert_eq!(notes_label, "更新了什么");
        }
        _ => panic!("expected an offer"),
    }
    let notes = UpdateClicks { toggle_notes: true, ..no_clicks() };
    state.update_window(&mut ignored, notes, MAC.0, MAC.1);
    match state.window(&ignored, "2.0.23") {
        UpdateWindow::Offer { notes, .. } => {
            assert_eq!(notes, Some("（本版本没有提供更新说明）".to_string()))
        }
        _ => panic!("expected an offer"),
    }
    let ignore = UpdateClicks { ignore: true, ..no_clicks() };
    let effect = state.update_window(&mut ignored, ignore, MAC.0, MAC.1);
    assert!(effect.save_settings);
    assert_eq!(ignored, Some("2.0.24".to_string()));
    assert!(matches!(offered().window(&ignored, "2.0.23"), UpdateWindow::Hidden));
}

#[test]
fn archives_are_unpacked_by_the_system() {
    let call = extract_archive(Platform::MacOs, "/a.zip", "/b").unwrap();
    assert_eq!(call.program, "ditto");
    assert_eq!(call.arguments, vec!["-x", "-k", "/a.zip", "/b"]);
    let call = extract_archive(Platform::Windows, "a.zip", "b").unwrap();
    assert_eq!(
        call.arguments[2],
        "Expand-Archive -LiteralPath 'a.zip' -DestinationPath 'b' -Force"
    );
    assert_eq!(
        extract_archive(Platform::Other, "a", "b").unwrap_err(),
        "当前平台暂不支持自动更新"
    );
    assert_eq!(extraction_failure(" no\n"), "解压失败：no");
    assert_eq!(staging_name(7), "hapcli-update-7");
    assert_eq!(write_test_name(7), ".hapcli-write-test-7");
    assert!(check_install_directory(Some(path("/x")), true).is_ok());
    assert!(check_install_directory(None, true).is_err());
    assert!(check_install_directory(Some(path("/x")), false).is_err());
}

#[test]
fn new_programs_are_found_and_installed() {
    let staging = path("/tmp/s");
    let entries = vec![
        UnpackedEntry { name: "x.app".to_string(), is_dir: false, holds_program: true },
        UnpackedEntry { name: "y.app".to_string(), is_dir: true, holds_program: true },
    ];
    let found = locate_payload(Platform::MacOs, &staging, false, &entries).unwrap();
    assert_eq!(found, path("/tmp/s/y.app/Contents/MacOS/hapcli"));
    assert_eq!(
        locate_payload(Platform::MacOs, &staging, false, &[]),
        Err("解压后未找到 hapcli.app".to_string())
    );
    assert_eq!(
        locate_payload(Platform::Windows, &staging, false, &[]),
        Err("解压后未找到 hapcli.exe".to_string())
    );
    let bundle = InstallTarget::AppBundle(path("/Applications/hapcli.app"));
    let script = write_helper(Platform::MacOs, &bundle, &found, &staging, 42).unwrap();
    assert_eq!(script.name, "hapcli-update.sh");
    assert!(script.text.starts_with("#!/bin/sh\nLOG='/tmp/hapcli-update.log'\n{\n"));
    assert!(script.text.contains("  PID=42\n"));
    assert!(script.text.contains(
        "  ditto '/tmp/s/y.app' '/Applications/hapcli.app.new' || { echo \"ditto failed\"; exit 1; }\n"
    ));
    assert!(script.text.ends_with("  echo \"done\"\n} >> \"$LOG\" 2>&1\n"));
    assert_eq!(
        write_helper(Platform::MacOs, &bundle, &path("/tmp/s/hapcli"), &staging, 1).unwrap_err(),
        "安装包结构异常（未找到 .app 目录），已取消更新"
    );
    assert_eq!(
        write_helper(Platform::Windows, &bundle, &found, &staging, 1).unwrap_err(),
        "Windows 不支持 .app 安装目标"
    );
}

#[test]
fn programs_are_replaced_by_scripts() {
    let exe = LocalPath {
        components: vec!["C:".to_string(), "/".to_string(), "hapcli.exe".to_string()],
    };
    let payload = LocalPath {
        components: vec!["C:".to_string(), "/".to_string(), "s".to_string(), "n.exe".to_string()],
    };
    let staging = LocalPath {
        components: vec!["C:".to_string(), "/".to_string(), "s".to_string()],
    };
    let target = InstallTarget::Executable(exe);
    let script = write_helper(Platform::Windows, &target, &payload, &staging, 7).unwrap();
    assert_eq!(
        script.text,
        "@echo off\r\ntimeout /t 2 /nobreak >nul\r\n:wait\r\ntasklist /FI \"PID eq 7\" | findstr \"7\" >nul\r\nif not errorlevel 1 (\r\n  timeout /t 1 /nobreak >nul\r\n  goto wait\r\n)\r\ntimeout /t 1 /nobreak >nul\r\ncopy /y \"C:\\s\\n.exe\" \"C:\\hapcli.exe\" >nul\r\nstart \"\" \"C:\\hapcli.exe\"\r\nrmdir /s /q \"C:\\s\"\r\n"
    );
    let target = InstallTarget::Executable(path("/usr/bin/hapcli"));
    let script = write_helper(Platform::MacOs, &target, &path("/s/n"), &path("/s"), 7).unwrap();
    assert_eq!(
        script.text,
        "#!/bin/sh\nPID=7\ni=0\nwhile kill -0 \"$PID\" 2>/dev/null; do\n  i=$((i+1))\n  [ \"$i\" -ge 120 ] && break\n  sleep 0.3\ndone\nsleep 1\nrm -f '/usr/bin/hapcli.new'\ncp '/s/n' '/usr/bin/hapcli.new'\nchmod +x '/usr/bin/hapcli.new'\nmv '/usr/bin/hapcli.new' '/usr/bin/hapcli'\n'/usr/bin/hapcli'\nrm -rf '/s'\n"
    );
}

#[test]
fn format_size_uses_human_units() {
    assert_eq!(format_size(0), "0 B");
    assert_eq!(format_size(1023), "1023 B");
    assert_eq!(format_size(1024), "1.0 KB");
    assert_eq!(format_size(5 * 1024 * 1024), "5.0 MB");
}

#[test]
fn sizes_agree_with_binary_floating_point() {
    let units = ["B", "KB", "MB", "GB", "TB"];
    for bytes in [
        1,
        1535,
        1536,
        1587,
        1638,
        1690,
        1048575,
        1048576,
        123456789,
        9007199254740993,
        18446744073709551615,
        18446744073709549568,
        1152921504606846977,
        1319413953331,
        5368709120,
    ] {
        let mut value = bytes as f64;
        let mut unit = 0;
        while value >= 1024.0 && unit < 4 {
            value /= 1024.0;
            unit += 1;
        }
        let size = if unit == 0 {
            format!("{bytes} B")
        } else {
            format!("{value:.1} {}", units[unit])
        };
        assert_eq!(format_size(bytes), size);
        let whole = bytes as f64;
        let text = if whole >= 1073741824.0 {
            format!("{:.2} GB", whole / 1073741824.0)
        } else if whole >= 1048576.0 {
            format!("{:.1} MB", whole / 1048576.0)
        } else if whole >= 1024.0 {
            format!("{:.0} KB", whole / 1024.0)
        } else {
            format!("{whole:.0} B")
        };
        assert_eq!(format_bytes(bytes), text);
        assert_eq!(format_speed(bytes), format!("{text}/s"));
    }
}
