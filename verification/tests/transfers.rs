use hapcli::audio::input::{AudioInputClient, AudioInputStep, MicrophonePacketQueue};
use hapcli::audio::pcm::{DeviceConfigRange, PcmQueueLock, SampleFormat};
use hapcli::desktop::connect::ConnectForm;
use hapcli::desktop::recording::Recording;
use hapcli::desktop::session::TerminalSessionKind;
use hapcli::desktop::settings::ThemeChoice;
use hapcli::desktop::shell::{toolbar, HapcliApp};
use hapcli::desktop::tabs::{TabEffect, TerminalTab};
use hapcli::desktop::trzsz::{
    check_download_config, check_upload_config, declined, existing_local_name,
    is_cancelled_transfer, progress_from_config, try_open_with_root, CreatedDirectories,
    DeleteStep, DownloadConstraintTracker, DownloadWriter, NativeSaveRoot, OpenStep, ProgressWidth,
    TrzszDirectoryEntry, TrzszError, TrzszTransferPolicy, UploadEntry,
};
use hapcli::desktop::update::{client_failure, user_agent};
use hapcli::environment::model::{
    ProjectFacet, ProjectFacetKind, ProjectManifestEntry, ProjectSnapshot, ProjectTask,
    ProjectTaskGroup,
};
use hapcli::paths::LocalPath;
use hapcli::plugin::events::runtime_metadata_node_filter;
use hapcli::plugin::manifest::{
    default_activity_bar_position, default_declarative_ui_component_version,
    default_declarative_ui_kind, default_host_monitor_max_output_bytes,
    default_host_monitor_max_rows, default_host_monitor_timeout_seconds, default_sidebar_position,
};
use hapcli::plugin::protocol::PluginError;
use hapcli::plugin::registry::{
    native_plugin_sidebar_position_sort_key, resolve_process_runtime_entry,
};
use hapcli::plugin::scp::{
    ScpTransfer, TransferDirection, TransferKind, TransferStrategy,
};
use hapcli::remote_desktop::certificate_store::RemoteDesktopCertificateStore;
use serde_json::Value;

fn json(text: &str) -> Value {
    serde_json::from_str(text).unwrap()
}

fn policy(allow_directory: bool) -> TrzszTransferPolicy {
    TrzszTransferPolicy { allow_directory, max_file_count: 2, max_total_bytes: 10 }
}

fn entry(names: &[&str], is_dir: bool) -> TrzszDirectoryEntry {
    TrzszDirectoryEntry {
        path_id: 7,
        path_name: names.iter().map(|name| name.to_string()).collect(),
        is_dir,
    }
}

fn upload(name: &str) -> UploadEntry {
    UploadEntry { path_id: 1, rel_path: vec![name.to_string()], is_dir: false, size: 1 }
}

fn path(parts: &[&str]) -> LocalPath {
    LocalPath { components: parts.iter().map(|part| part.to_string()).collect() }
}

fn process_error(entry: &str, executable: Result<LocalPath, String>) -> PluginError {
    match resolve_process_runtime_entry(entry, Ok(path(&["/", "plugin"])), executable) {
        Err(error) => error,
        Ok(_) => panic!("expected a refusal"),
    }
}

#[test]
fn transfers_are_held_to_the_remote_configuration() {
    assert!(is_cancelled_transfer(&declined()));
    let twice = vec![upload("a"), upload("a")];
    assert!(check_upload_config(&json("{}"), &twice).is_ok());
    assert!(matches!(
        check_upload_config(&json(r#"{"overwrite":true}"#), &twice),
        Err(TrzszError::InvalidState(message)) if message == "Duplicate name: a"
    ));
    let directory = json(r#"{"directory":true}"#);
    assert!(check_download_config(&directory, &policy(true)).is_ok());
    assert!(matches!(
        check_download_config(&directory, &policy(false)),
        Err(TrzszError::DirectoryNotAllowed(place)) if place == "terminal settings"
    ));
    assert_eq!(progress_from_config(80, &json(r#"{"quiet":true}"#)), None);
    assert_eq!(
        progress_from_config(0, &json(r#"{"tmux_pane_width":40}"#)),
        Some(ProgressWidth { columns: 1, pane_columns: Some(40) })
    );
}

#[test]
fn directories_are_opened_step_by_step() {
    let constraints = DownloadConstraintTracker::new(policy(true));
    let file = entry(&["docs", "deep", "a.txt"], false);
    let steps = try_open_with_root(&file, "docs.0", true, false, &constraints).ok().unwrap();
    assert_eq!(steps.len(), 4);
    assert!(matches!(
        &steps[0],
        OpenStep::CreateDirectory { path, must_create: true } if path == "docs.0"
    ));
    assert!(matches!(steps[1], OpenStep::CheckFileCount));
    assert!(matches!(
        &steps[2],
        OpenStep::CreateDirectory { path, must_create: false } if path == "docs.0/deep"
    ));
    assert!(matches!(&steps[3], OpenStep::OpenFile { path } if path == "docs.0/deep/a.txt"));
    let strict = DownloadConstraintTracker::new(policy(false));
    assert!(try_open_with_root(&file, "docs", true, false, &strict).is_err());
    let single = entry(&["a.txt"], false);
    assert_eq!(try_open_with_root(&single, "b.txt", true, false, &strict).ok().unwrap().len(), 2);
}

#[test]
fn top_directories_keep_their_local_name() {
    let mut root = NativeSaveRoot::new("/home/me/saved".to_string());
    assert_eq!(root.display_name, "saved");
    let docs = entry(&["docs"], true);
    assert_eq!(existing_local_name(&root, &docs, true), Some("docs".to_string()));
    assert_eq!(existing_local_name(&root, &docs, false), None);
    root.remember(7, "docs.3".to_string());
    assert_eq!(existing_local_name(&root, &docs, false), Some("docs.3".to_string()));
}

#[test]
fn created_directories_are_removed_from_the_inside() {
    let mut created = CreatedDirectories::new();
    created.ensure_download_directory("a".to_string(), true);
    created.ensure_download_directory("there".to_string(), false);
    created.ensure_download_directory("a/b".to_string(), true);
    assert_eq!(created.cleanup(), vec!["a/b".to_string(), "a".to_string()]);
}

#[test]
fn received_files_are_finished_or_deleted() {
    let mut writer = DownloadWriter::new("a".to_string());
    let mut constraints = DownloadConstraintTracker::new(policy(true));
    assert!(writer.write_file(10, &mut constraints).is_ok());
    assert!(matches!(
        writer.write_file(1, &mut constraints),
        Err(TrzszError::MaxTotalBytesExceeded { .. })
    ));
    assert_eq!(writer.begin_delete(), DeleteStep::AbortWriter);
    let gone = || TrzszError::HandleNotFound("a".to_string());
    assert!(writer.abort_failed(gone()).is_some());
    assert!(writer.begin_finish());
    assert!(writer.abort_failed(gone()).is_none());
    writer.end(true);
    assert_eq!(writer.begin_delete(), DeleteStep::RemoveFile);
    assert!(!writer.begin_finish());
    let mut other = DownloadWriter::new("b".to_string());
    other.end(false);
    assert_eq!(other.begin_delete(), DeleteStep::Nothing);
}

#[test]
fn captures_are_answered() {
    let device = Some(vec![DeviceConfigRange {
        channels: 2,
        min_sample_rate: 8000,
        max_sample_rate: 48000,
        format: SampleFormat::I16,
    }]);
    let mut client = AudioInputClient::new();
    let formats = [
        2, 1, 0, 0, 0, 27, 0, 0, 0, 1, 0, 2, 0, 0x44, 0xac, 0, 0, 0x10, 0xb1, 2, 0, 4, 0, 16, 0,
        0, 0,
    ];
    match client.process(&formats, &device) {
        AudioInputStep::Send(messages) => assert_eq!(messages, vec![vec![5], formats.to_vec()]),
        AudioInputStep::StartCapture { .. } => panic!("expected an answer"),
    }
    let opened = client.process(&[3, 10, 0, 0, 0, 0, 0, 0, 0], &device);
    assert!(matches!(
        opened,
        AudioInputStep::StartCapture { format, frames_per_packet: 10 } if format.channels == 2
    ));
    let refused = client.capture_started(false);
    assert_eq!(refused, vec![vec![4, 1, 0, 0, 0]]);
    let started = client.capture_started(true);
    assert_eq!(started, vec![vec![7, 0, 0, 0, 0], vec![4, 0, 0, 0, 0]]);
    assert!(client.stop_capture());
    let mut queue = MicrophonePacketQueue::new();
    assert!(!queue.rearm());
    queue.push(PcmQueueLock::Acquired, vec![1]);
    assert!(!queue.rearm());
}

#[test]
fn tools_are_offered_for_connections() {
    let ssh = TerminalSessionKind::SshPty;
    let mut tab = TerminalTab::new(3, ssh, "me@host".to_string(), true, 80, 24);
    let tools = toolbar(&tab, false);
    assert!(tools.reconnect);
    assert!(!tools.files.unwrap().enabled);
    assert_eq!(tools.forwards.unwrap().label, "转发");
    tab.connected = true;
    assert!(toolbar(&tab, true).files.unwrap().enabled);
    assert!(!toolbar(&tab, true).reconnect);
    let local = TerminalTab::new(0, TerminalSessionKind::LocalPty, "zsh".to_string(), true, 80, 24);
    assert!(toolbar(&local, false).files.is_none());

    let mut effects: Vec<TabEffect> = Vec::new();
    tab.reconnect_from_notice(&mut effects);
    assert!(matches!(effects[0], TabEffect::Reconnect(3)));
    assert_eq!(tab.reconnect.status, Some("正在手动重连…".to_string()));
    let form = ConnectForm::new(None, None, None, None);
    let mut app = HapcliApp::new(tab, form, ThemeChoice::Light);
    assert_eq!(app.window_focus(false), 3);
    assert!(!app.bar.window_focused);
}

#[test]
fn projects_tell_their_parts() {
    let manifest = ProjectManifestEntry::new("/repo/a/Cargo.toml", "[package]".to_string());
    let manifest = manifest.unwrap();
    assert_eq!(manifest.content(), "[package]");
    assert_eq!(manifest.file_name(), "Cargo.toml");
    assert_eq!(manifest.parent_path(), "/repo/a");
    let task = ProjectTask::new(
        ProjectFacetKind::Cargo,
        ProjectTaskGroup::Build,
        "t",
        "Build",
        "cargo build",
    )
    .unwrap();
    assert!(matches!(task.group(), ProjectTaskGroup::Build));
    assert!(matches!(task.source(), ProjectFacetKind::Cargo));
    let facet =
        ProjectFacet::new(ProjectFacetKind::Cargo, "/repo", "/repo/Cargo.toml", vec![task]);
    let snapshot = ProjectSnapshot::new("/repo", vec![facet.unwrap()]).unwrap();
    assert_eq!(snapshot.facets()[0].manifest_path(), "/repo/Cargo.toml");
    assert_eq!(snapshot.tasks()[0].command(), "cargo build");
}

#[test]
fn plugins_have_their_defaults() {
    assert_eq!(default_sidebar_position(), "bottom");
    assert_eq!(default_activity_bar_position(), "top");
    assert_eq!(default_declarative_ui_kind(), "form");
    assert_eq!(default_declarative_ui_component_version(), 1);
    assert_eq!(default_host_monitor_timeout_seconds(), 10);
    assert_eq!(default_host_monitor_max_output_bytes(), 262144);
    assert_eq!(default_host_monitor_max_rows(), 1000);
    assert_eq!(native_plugin_sidebar_position_sort_key("top"), 0);
    assert_eq!(native_plugin_sidebar_position_sort_key("bottom"), 1);
    assert_eq!(native_plugin_sidebar_position_sort_key("left"), 2);
    assert_eq!(
        runtime_metadata_node_filter(&json(r#"{"nodeId":"n1","x":1}"#)),
        Some(json(r#"{"nodeId":"n1"}"#))
    );
    assert_eq!(runtime_metadata_node_filter(&json("{}")), None);
}

#[test]
fn process_entries_stay_below_the_plugin() {
    let inside = path(&["/", "plugin", "bin", "run"]);
    let found = resolve_process_runtime_entry(
        "bin/run",
        Ok(path(&["/", "plugin"])),
        Ok(inside.clone()),
    );
    assert_eq!(found.ok(), Some(inside));
    let refusals = [
        process_error("bin/run", Ok(path(&["/", "other", "run"]))),
        process_error("bin/run", Err("gone".to_string())),
        process_error("../run", Ok(path(&["/", "plugin", "run"]))),
    ];
    assert!(refusals.iter().all(|error| !error.message.is_empty()));
    assert_ne!(refusals[0].code, refusals[1].code);
}

#[test]
fn small_texts_are_exact() {
    assert_eq!(client_failure("x"), "HTTP 客户端创建失败: x");
    assert_eq!(user_agent("1.2.3"), "hapcli-updater/1.2.3");
    assert_eq!(Recording::new(1000).elapsed_secs(3999), 2);
    let store = RemoteDesktopCertificateStore::path_next_to_settings(&path(&["/", "a", "s.json"]));
    assert_eq!(store, path(&["/", "a", "rdp-known-certificates.json"]));
    let transfer = ScpTransfer {
        transfer_id: "t".to_string(),
        node_id: "n".to_string(),
        local_path: "/l".to_string(),
        remote_path: "/r".to_string(),
        direction: TransferDirection::Upload,
        kind: TransferKind::Directory,
        disposition: None,
    };
    assert!(matches!(transfer.strategy(), TransferStrategy::DirectoryRecursive));
}
