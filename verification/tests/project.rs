use hapcli::assoc::AssocList;
use hapcli::desktop::fonts::{
    cjk_font_candidates, find_fonts, first_usable, install_fonts, symbol_candidates,
    system_mono_candidates, LoadedFonts,
};
use hapcli::desktop::settings::{
    default_github_proxies, font_label, load_settings, settings_directory, settings_path,
    AppSettings, CursorStyleChoice, Platform, SettingsEffect, SettingsEvent, SettingsFlag,
    SettingsPanel, ThemeChoice,
};
use hapcli::environment::model::{
    normalize_project_label, normalize_project_path, ProjectFacet, ProjectFacetKind,
    ProjectProbeKey, ProjectProbeOutcome, ProjectProbeScope, ProjectSnapshot, ProjectTask,
    ProjectTaskGroup,
};
use hapcli::environment::store::{ProjectProbeState, ProjectStatusStore};
use hapcli::forwarding::{ForwardingRegistry, SavedForwardStore, SavedForwardsSyncSnapshot};
use hapcli::ide::agent::{
    dispatch_watch_event, next_watch_step, IdeRemoteSession, LeaseOutcome, WatchReceipt, WatchStep,
};
use hapcli::ide::filesystem::{
    IdeFileError, IdeFileErrorKind, IdeSearchQuery, IdeWatchEvent, IdeWatchKey,
};
use hapcli::network_proxy::{
    application_proxy_policy_from_settings, application_proxy_policy_with_password,
    configure_http_client_builder, configure_update_http_client_builder, proxy_host, proxy_url,
    update_proxy_policy, ApplicationProxyAuth, ApplicationProxyCredentialProvider,
    ApplicationProxyError, ApplicationProxyPolicy, ApplicationProxyProtocol,
    ApplicationProxyRuntime, CustomApplicationProxy, NetworkSettings,
    SettingsApplicationProxyMode, SettingsUpstreamProxy, SettingsUpstreamProxyAuth,
    SettingsUpstreamProxyProtocol, UpdateProxyMode, UpdateProxyProtocol, UpdateProxySettings,
};
use hapcli::paths::LocalPath;
use hapcli::portable::{
    acquire_portable_instance_lock, plan_portable_instance_lock, portable_instance_lock_path,
    PortableError, PortableInfo, PortableLockOutcome,
};
use hapcli::preview::PreviewRenderer;
use hapcli::wiped::WipedText;

fn key() -> ProjectProbeKey {
    ProjectProbeKey::new(ProjectProbeScope::Local, "/repo").unwrap()
}

fn snapshot() -> ProjectSnapshot {
    ProjectSnapshot::new(
        "/repo",
        vec![
            ProjectFacet::new(ProjectFacetKind::Cargo, "/repo", "/repo/Cargo.toml", vec![])
                .unwrap(),
        ],
    )
    .unwrap()
}

fn path(parts: &[&str]) -> LocalPath {
    LocalPath { components: parts.iter().map(|part| part.to_string()).collect() }
}

fn custom(auth: ApplicationProxyAuth) -> CustomApplicationProxy {
    CustomApplicationProxy {
        protocol: ApplicationProxyProtocol::Socks5,
        host: "proxy.test".to_string(),
        port: 1080,
        auth,
        remote_dns: true,
        no_proxy: "localhost".to_string(),
    }
}

#[test]
fn loading_keeps_previous_snapshot() {
    let mut store = ProjectStatusStore::default();
    let first = store.mark_loading(key(), 0);
    store.finish_probe(&key(), first, ProjectProbeOutcome::Ready(snapshot()), 5);

    let second = store.mark_loading(key(), 10);
    let entry = store.get(&key()).unwrap();
    assert_eq!(entry.generation(), second);
    assert!(matches!(entry.state(), ProjectProbeState::Loading));
    assert_eq!(entry.snapshot().unwrap().root_path(), "/repo");
}

#[test]
fn stale_probe_result_is_ignored() {
    let mut store = ProjectStatusStore::default();
    let first = store.mark_loading(key(), 0);
    let _second = store.mark_loading(key(), 1);

    let applied = store.finish_probe(&key(), first, ProjectProbeOutcome::NoProject, 2);

    assert!(!applied);
    assert!(matches!(store.get(&key()).unwrap().state(), ProjectProbeState::Loading));
}

#[test]
fn probes_are_repeated_when_they_are_old() {
    let mut store = ProjectStatusStore::default();
    assert!(store.should_probe(&key(), 0, 100));
    let first = store.mark_loading(key(), 0);
    assert!(!store.should_probe(&key(), 50, 100));
    store.finish_probe(&key(), first, ProjectProbeOutcome::NoProject, 60);
    assert!(!store.should_probe(&key(), 100, 100));
    assert!(store.should_probe(&key(), 160, 100));
    store.retain_keys(|key| key.cwd() != "/repo");
    assert!(store.get(&key()).is_none());
}

#[test]
fn projects_are_normalized() {
    assert_eq!(normalize_project_path(" /repo/ "), Some("/repo".to_string()));
    assert_eq!(normalize_project_path("  "), None);
    assert_eq!(normalize_project_label(" a "), Some("a".to_string()));
    assert!(ProjectProbeKey::new(ProjectProbeScope::ssh_node("n"), "").is_none());
    let task = ProjectTask::new(
        ProjectFacetKind::Cargo,
        ProjectTaskGroup::Test,
        "cargo:test",
        "test",
        "cargo test",
    )
    .unwrap();
    assert_eq!(task.command(), "cargo test");
}

#[test]
fn association_lists_hold_one_value_for_a_key() {
    let other = ProjectProbeKey::new(ProjectProbeScope::ssh_node("n"), "/other").unwrap();
    let mut list: AssocList<ProjectProbeKey, u32> = AssocList::new();
    assert_eq!(list.get(&key()), None);
    list.insert(key(), 1);
    list.insert(other.clone(), 2);
    list.insert(key(), 3);
    assert_eq!(list.entries.len(), 2);
    assert_eq!(list.get(&key()), Some(&3));
    assert_eq!(list.get(&other), Some(&2));
    assert_eq!(list.remove(&key()), Some(3));
    assert_eq!(list.remove(&key()), None);
    assert_eq!(list.get(&other), Some(&2));
}

#[test]
fn watches_cover_their_tree() {
    let key = IdeWatchKey::new("n".to_string(), "/a".to_string());
    let event = || IdeWatchEvent { path: "/a/b".to_string(), kind: "modify".to_string() };
    assert!(dispatch_watch_event(&key, event(), "/a/b").is_some());
    assert!(dispatch_watch_event(&key, event(), "/ab").is_none());
    assert!(matches!(next_watch_step(WatchReceipt::Lagged), WatchStep::ReceiveAgain));
    assert!(matches!(next_watch_step(WatchReceipt::Closed), WatchStep::End));
    assert!(matches!(next_watch_step(WatchReceipt::Event(event())), WatchStep::Deliver(_)));
}

#[test]
fn sessions_hold_one_lease() {
    let mut session = IdeRemoteSession::new("n".to_string(), 7);
    assert!(session.begin_acquire().is_ok());
    assert!(matches!(session.finish_acquire("c1".to_string()), LeaseOutcome::Held { .. }));
    assert_eq!(session.connection_id(), Some("c1".to_string()));
    assert!(session.close().is_some());
    assert!(session.begin_acquire().is_err());
    assert!(matches!(session.finish_acquire("c2".to_string()), LeaseOutcome::Closed { .. }));
}

#[test]
fn searches_share_their_cache() {
    let query = |limit, token| {
        IdeSearchQuery::tauri_literal_project_search(
            "x".to_string(),
            "/r".to_string(),
            limit,
            token,
        )
    };
    assert_eq!(query(1, 2).cache_key(), query(3, 4).cache_key());
    let other =
        IdeSearchQuery::tauri_literal_project_search("y".to_string(), "/r".to_string(), 1, 2);
    assert_ne!(query(1, 2).cache_key(), other.cache_key());
    let error = IdeFileError::new(IdeFileErrorKind::NotFound, "gone".to_string());
    assert!(error.text().contains("gone"));
}

struct NoForwards;

impl SavedForwardStore for NoForwards {
    type Forward = u8;
    type Checkpoint = u8;
    type Error = String;
    type Applied = usize;

    fn checkpoint(&self) -> Result<u8, String> {
        Ok(3)
    }

    fn replace_from_checkpoint(&self, checkpoint: &u8) -> Result<(), String> {
        if *checkpoint == 3 {
            Ok(())
        } else {
            Err("other".to_string())
        }
    }

    fn restore_checkpoint(&self, _checkpoint: &u8) -> Result<(), String> {
        Ok(())
    }

    fn delete_owned_forwards(&self, _owner_connection_id: &str) -> Result<usize, String> {
        Ok(2)
    }

    fn load_persisted_forwards(&self, _session_id: &str) -> Vec<u8> {
        vec![1]
    }

    fn load_syncable_forwards(&self) -> Vec<u8> {
        vec![2, 3]
    }

    fn export_snapshot(&self) -> Result<SavedForwardsSyncSnapshot<u8>, String> {
        Err("none".to_string())
    }

    fn apply_snapshot(
        &self,
        snapshot: SavedForwardsSyncSnapshot<u8>,
        _valid_owner_connection_ids: &Vec<String>,
    ) -> Result<usize, String> {
        Ok(snapshot.records.len())
    }

    fn nothing_applied() -> usize {
        0
    }
}

#[test]
fn forwards_are_kept_in_their_store() {
    let empty: ForwardingRegistry<NoForwards> = ForwardingRegistry::new();
    assert_eq!(empty.checkpoint_saved_forwards(), Ok(None));
    assert_eq!(empty.delete_owned_forwards("c"), Ok(0));
    assert!(empty.list_all_saved_forwards().is_empty());
    let exported = empty.export_saved_forwards_snapshot().ok().unwrap();
    assert!(exported.records.is_empty());
    assert!(exported.exported_at.contains('T'));
    let held = ForwardingRegistry::new_with_store(NoForwards);
    assert_eq!(held.checkpoint_saved_forwards(), Ok(Some(3)));
    assert_eq!(held.delete_owned_forwards("c"), Ok(2));
    assert_eq!(held.list_saved_forwards("s"), vec![1]);
    assert_eq!(held.load_persisted_forwards("s"), held.list_saved_forwards("s"));
    assert_eq!(held.list_all_saved_forwards(), vec![2, 3]);
    assert!(held.replace_saved_forwards(&4).is_err());
    assert!(held.export_saved_forwards_snapshot().is_err());
}

#[test]
fn portable_startup_creates_the_skills_directory() {
    let info = Ok(PortableInfo {
        is_portable: true,
        data_dir: path(&["/", "portable-data"]),
        instance_lock_path: path(&["/", "portable-data", "lock"]),
    });
    let plan = plan_portable_instance_lock(&info, false, "skills").ok().unwrap().unwrap();
    assert!(plan.directories.contains(&path(&["/", "portable-data", "skills"])));
    assert_eq!(plan.lock_path, path(&["/", "portable-data", "lock"]));
    assert!(acquire_portable_instance_lock(plan, PortableLockOutcome::Locked).is_ok());
    let plan = plan_portable_instance_lock(&info, false, "skills").ok().unwrap().unwrap();
    assert!(matches!(
        acquire_portable_instance_lock(plan, PortableLockOutcome::WouldBlock),
        Err(PortableError::InstanceLocked(_))
    ));
    assert!(plan_portable_instance_lock(&info, true, "skills").ok().unwrap().is_none());
    assert!(portable_instance_lock_path(&Err("x".to_string())).is_err());
}

struct Shout;

impl PreviewRenderer for Shout {
    type State = String;
    type Output = String;

    fn render_preview(&self, state: &String) -> String {
        format!("{state}!")
    }
}

#[test]
fn previews_are_rendered_by_their_renderer() {
    assert_eq!(Shout.render_preview(&"a".to_string()), "a!");
}

#[test]
fn proxy_addresses_are_built() {
    assert_eq!(proxy_host("a.test"), "a.test");
    let config = custom(ApplicationProxyAuth::Anonymous);
    let url = proxy_url(&config, false).ok().unwrap();
    assert!(url.starts_with("socks5"));
    assert!(url.contains("proxy.test:1080"));
    let mut broken = custom(ApplicationProxyAuth::Anonymous);
    broken.host = String::new();
    assert!(matches!(
        proxy_url(&broken, false),
        Err(ApplicationProxyError::InvalidConfiguration(_))
    ));
}

#[test]
fn passwords_are_never_shown() {
    let auth = ApplicationProxyAuth::Password {
        username: "u".to_string(),
        password: WipedText::new("hunter2".to_string()),
    };
    assert!(!auth.debug_text().contains("hunter2"));
    assert!(!custom(auth).debug_text().contains("hunter2"));
}

#[test]
fn clients_are_configured_by_policy() {
    let policies = [
        ApplicationProxyPolicy::Direct,
        ApplicationProxyPolicy::System,
        ApplicationProxyPolicy::Custom(custom(ApplicationProxyAuth::Password {
            username: "u".to_string(),
            password: WipedText::new("p".to_string()),
        })),
    ];
    for policy in policies {
        let builder = configure_http_client_builder(reqwest::Client::builder(), &policy, false);
        assert!(builder.is_ok());
        let runtime = ApplicationProxyRuntime::new(policy, false);
        assert!(runtime.client().is_ok());
    }
    let mut spaced = custom(ApplicationProxyAuth::Anonymous);
    spaced.host = "bad host".to_string();
    assert!(configure_http_client_builder(
        reqwest::Client::builder(),
        &ApplicationProxyPolicy::Custom(spaced),
        false
    )
    .is_err());
    let gone = ApplicationProxyPolicy::Unavailable { reason: "why".to_string() };
    match configure_http_client_builder(reqwest::Client::builder(), &gone, false) {
        Err(error) => assert!(error.message().contains("why")),
        Ok(_) => panic!("expected an error"),
    }
}

struct NoKeychain;

impl ApplicationProxyCredentialProvider for NoKeychain {
    fn application_proxy_password(
        &self,
        keychain_id: &str,
    ) -> Result<WipedText, ApplicationProxyError> {
        if keychain_id == "known" {
            Ok(WipedText::new("p".to_string()))
        } else {
            Err(ApplicationProxyError::Unavailable("no keychain".to_string()))
        }
    }
}

#[test]
fn policies_follow_the_settings() {
    let mut settings = NetworkSettings {
        application_proxy_mode: SettingsApplicationProxyMode::Direct,
        upstream_proxy: None,
    };
    assert!(matches!(
        application_proxy_policy_from_settings(&settings, &NoKeychain),
        ApplicationProxyPolicy::Direct
    ));
    settings.application_proxy_mode = SettingsApplicationProxyMode::Shared;
    settings.upstream_proxy = Some(SettingsUpstreamProxy {
        protocol: SettingsUpstreamProxyProtocol::HttpConnect,
        host: "h".to_string(),
        port: 8080,
        auth: SettingsUpstreamProxyAuth::Password {
            username: "u".to_string(),
            keychain_id: Some("known".to_string()),
        },
        remote_dns: false,
        no_proxy: String::new(),
    });
    match application_proxy_policy_from_settings(&settings, &NoKeychain) {
        ApplicationProxyPolicy::Custom(config) => match config.auth {
            ApplicationProxyAuth::Password { password, .. } => assert_eq!(password.expose(), "p"),
            _ => panic!("expected a password"),
        },
        _ => panic!("expected a proxy"),
    }
    assert!(matches!(
        application_proxy_policy_with_password(&settings, None),
        ApplicationProxyPolicy::Unavailable { .. }
    ));
}

#[test]
fn updates_may_use_a_proxy_of_their_own() {
    let mut settings = UpdateProxySettings {
        mode: UpdateProxyMode::Application,
        protocol: UpdateProxyProtocol::Http,
        host: "h".to_string(),
        port: 1,
        no_proxy: String::new(),
    };
    assert!(update_proxy_policy(&settings).is_none());
    settings.mode = UpdateProxyMode::Custom;
    assert!(matches!(
        update_proxy_policy(&settings),
        Some(ApplicationProxyPolicy::Custom(_))
    ));
    let runtime = ApplicationProxyRuntime::new(ApplicationProxyPolicy::Direct, false);
    assert!(configure_update_http_client_builder(
        reqwest::Client::builder(),
        &settings,
        &runtime,
        false
    )
    .is_ok());
}

#[test]
fn load_missing_file_returns_default() {
    let loaded = load_settings(None);
    let fresh = AppSettings::default();
    assert_eq!(format!("{loaded:?}"), format!("{fresh:?}"));
    assert_eq!(loaded.cursor_style, CursorStyleChoice::default());
}

#[test]
fn settings_are_changed_in_their_window() {
    let mut panel =
        SettingsPanel { settings: AppSettings::default(), error: None, show: true };
    panel.settings_window(SettingsEvent::ChooseTheme(ThemeChoice::Light));
    assert_eq!(panel.settings.theme, ThemeChoice::Light);
    panel.settings_window(SettingsEvent::SetFlag { flag: SettingsFlag::CopyOnSelect, on: true });
    assert!(panel.settings.copy_on_select);
    assert!(matches!(
        panel.settings_window(SettingsEvent::SetTransparent(true)),
        SettingsEffect::SetWindowTransparent(true)
    ));
    assert!(matches!(
        panel.settings_window(SettingsEvent::PickFont("/f.ttf".to_string())),
        SettingsEffect::InstallFonts
    ));
    panel.settings_window(SettingsEvent::EditProxies("p".to_string()));
    assert_eq!(panel.settings.github_proxies, "p");
    panel.settings_window(SettingsEvent::RestoreProxies);
    assert_eq!(panel.settings.github_proxies, default_github_proxies());
    panel.settings_window(SettingsEvent::Saved(Err("disk".to_string())));
    assert_eq!(panel.error, Some("保存失败: disk".to_string()));
    assert!(matches!(panel.settings_window(SettingsEvent::Reset), SettingsEffect::ResetAll));
    assert_eq!(panel.settings.theme, AppSettings::default().theme);
    panel.settings_window(SettingsEvent::Close);
    assert!(!panel.show);
}

#[test]
fn settings_are_kept_below_the_home_directory() {
    let file = settings_path(&Some(path(&["/", "h"])));
    assert_eq!(file, path(&["/", "h", ".hapcli", "settings.json"]));
    assert_eq!(settings_directory(&file), Ok(path(&["/", "h", ".hapcli"])));
    assert_eq!(settings_directory(&path(&["/"])), Err("无效的设置路径".to_string()));
    assert_eq!(settings_path(&None), path(&["settings.json"]));
}

#[test]
fn fonts_fall_back_in_order() {
    assert_eq!(font_label(false, Platform::MacOs), "默认 (Monaco)");
    assert_eq!(font_label(true, Platform::MacOs), "自定义字体已加载");
    assert_eq!(cjk_font_candidates().len(), 16);
    assert_eq!(system_mono_candidates().len(), 3);
    assert_eq!(symbol_candidates()[0], "/System/Library/Fonts/Apple Symbols.ttf");
    let fonts = LoadedFonts {
        custom: true,
        cjk: Some(0),
        system_mono: Some(2),
        symbols: Some(1),
    };
    let families = install_fonts(&fonts, &vec!["Hack".to_string()], &vec!["Ubuntu".to_string()]);
    assert_eq!(families.monospace[0], "hapcli-terminal-font");
    assert_eq!(families.monospace[1], "hapcli-system-mono");
    assert_eq!(families.proportional[0], "Ubuntu");
    assert_eq!(
        families.custom,
        Some(vec![
            "hapcli-terminal-font".to_string(),
            "Hack".to_string(),
            "hapcli-cjk".to_string()
        ])
    );
}

/// A font with no more than the tables that every font has.
fn smallest_font() -> Vec<u8> {
    let mut head = vec![0u8; 54];
    head[18] = 0x04;
    let hhea = vec![0u8; 36];
    let maxp = vec![0, 0, 0x50, 0, 0, 1];
    let mut font = vec![0, 1, 0, 0, 0, 3, 0, 0, 0, 0, 0, 0];
    let mut offset = 12 + 3 * 16u32;
    for (tag, table) in [(b"head", &head), (b"hhea", &hhea), (b"maxp", &maxp)] {
        font.extend_from_slice(tag);
        font.extend_from_slice(&[0; 4]);
        font.extend_from_slice(&offset.to_be_bytes());
        font.extend_from_slice(&(table.len() as u32).to_be_bytes());
        offset += table.len() as u32;
    }
    for table in [head, hhea, maxp] {
        font.extend_from_slice(&table);
    }
    font
}

#[test]
fn the_first_font_that_can_be_read_is_used() {
    let junk = Some(b"not a font".to_vec());
    assert_eq!(first_usable(&vec![None, junk.clone()]), None);
    let files = vec![None, junk, Some(smallest_font()), Some(smallest_font())];
    assert_eq!(first_usable(&files), Some(2));
    let found = find_fonts(false, &files, &vec![], &vec![Some(smallest_font())]);
    let expected =
        LoadedFonts { custom: false, cjk: Some(2), system_mono: None, symbols: Some(0) };
    assert_eq!(found, expected);
    let families = install_fonts(&found, &vec!["Hack".to_string()], &vec![]);
    assert_eq!(families.monospace, vec!["Hack", "hapcli-symbol", "hapcli-cjk"]);
    assert_eq!(families.custom, None);
}
