use hapcli::desktop::connect::ConnectForm;
use hapcli::desktop::forward::{
    after_command, forward_window_ui, runtime_failure, ForwardCommand, ForwardEvent, ForwardPanel,
    ForwardStatus, ForwardType, ForwardWindowEvent,
};
use hapcli::desktop::input::{
    sync_sftp_after_submit, DropState, InputEvent, InputFrame, PointerFrame, TerminalAction,
    TerminalInput, TerminalPrefs,
};
use hapcli::desktop::keys::{Key, Modifiers};
use hapcli::desktop::quick::{
    QuickCategory, QuickCommand, QuickCommandsPanel, QuickCommandsSnapshot, QuickEvent,
};
use hapcli::desktop::screen::{
    TerminalCursorShape, TerminalSearchMatch, TerminalSearchRange, TerminalSnapshot, TextSelection,
};
use hapcli::desktop::session::{
    display_label, handle_keychain_save, keychain_message, notification_script, status_line,
    CommandWatch, KeychainStep, ReconnectState, SessionStatus, StatusNotes, TerminalLifecycle,
    TerminalSessionKind,
};
use hapcli::desktop::settings::ThemeChoice;
use hapcli::desktop::sftp::{
    fast_id, finished_event, progress_event, sftp_panel_ui, upload_command_for_drop, DroppedPath,
    FileInfo, PickedPath, SftpCommand, SftpEvent, SftpFailure, SftpPanelEvent, SftpPanelState,
    SftpWorker, TransferState, WorkerAction, WorkerReport,
};
use hapcli::desktop::shell::{
    poll_forward, poll_sftp, use_sftp_panel, HapcliApp, ToolbarIntents,
};
use hapcli::desktop::tabs::{draw_tab, RenameEvent, TabEffect, TabMenuAction, TerminalTab};
use hapcli::desktop::terminal::{SearchBarStep, SearchClicks, TerminalMenuAction, TerminalMenuStep};
use hapcli::desktop::trzsz::{
    base_name, begin_download, begin_upload, check_duplicate_names, check_upload_entries,
    format_saved_files, is_cancelled_transfer, next_collision_name, parse_directory_entry,
    prompt_text, worker_outcome, DownloadConstraintTracker, NameSearch, TerminalEvent,
    TransferPanel, TrzszError, TrzszPromptRequest, TrzszPromptSelection, TrzszTransferDirection,
    TrzszTransferPolicy, TrzszTransferSelection, TrzszWorkerEvent, UploadEntry, UploadStart,
};

const NONE: Modifiers =
    Modifiers { alt: false, ctrl: false, shift: false, mac_cmd: false, command: false };

fn file(name: &str, is_directory: bool) -> FileInfo {
    FileInfo {
        name: name.to_string(),
        path: format!("/home/{name}"),
        is_directory,
        size: 2048,
    }
}

fn panel() -> SftpPanelState {
    let mut panel = SftpPanelState::new();
    panel.apply_event(SftpEvent::Listing {
        cwd: "/home".to_string(),
        entries: vec![file("docs", true), file("a.txt", false)],
        error: None,
    });
    panel
}

fn failure(recoverable: bool) -> SftpFailure {
    SftpFailure { recoverable, text: "closed".to_string() }
}

fn tab(id: u64, kind: TerminalSessionKind) -> TerminalTab {
    TerminalTab::new(id, kind, format!("tab {id}"), true, 80, 24)
}

fn screen(cols: usize, rows: usize) -> TerminalSnapshot {
    TerminalSnapshot {
        cols,
        rows,
        cursor_shape: TerminalCursorShape::Block,
        display_offset: 0,
        scrollback_lines: 0,
        lines: vec![],
    }
}

fn frame() -> InputFrame {
    let prefs = TerminalPrefs {
        copy_on_select: false,
        middle_click_paste: false,
        sftp_sync_cwd: true,
        modal_open: false,
    };
    InputFrame { owns_keys: true, modifiers: NONE, prefs, windows: false }
}

const NO_FILES: DropState =
    DropState { over_terminal: false, hovering_files: false, dropped: vec![] };

const POINTER: PointerFrame =
    PointerFrame { double_clicked: false, triple_clicked: false, primary_down: false, drag: None };

fn enter() -> InputEvent {
    InputEvent::Key { key: Key::Enter, pressed: true, modifiers: NONE }
}

fn app(kinds: &[TerminalSessionKind]) -> HapcliApp {
    let form = ConnectForm::new(None, None, None, None);
    let mut app = HapcliApp::new(tab(0, kinds[0]), form, ThemeChoice::Dark);
    for (at, kind) in kinds.iter().enumerate().skip(1) {
        app.session_opened(Ok(tab(at as u64, *kind)), false);
    }
    app
}

fn no_intents() -> ToolbarIntents {
    ToolbarIntents {
        clicked: None,
        close: None,
        menu: None,
        connect: false,
        settings: false,
        reconnect: false,
        sftp: false,
        forward: false,
        quick: false,
    }
}

fn status(kind: TerminalSessionKind, title: Option<&str>) -> SessionStatus {
    SessionStatus {
        kind,
        title: title.map(|title| title.to_string()),
        lifecycle: TerminalLifecycle::Running,
    }
}

fn command(id: &str, name: &str, text: &str) -> QuickCommand {
    QuickCommand {
        id: id.to_string(),
        name: name.to_string(),
        command: text.to_string(),
        category: "c".to_string(),
        description: None,
        host_pattern: None,
        created_at: 0,
        updated_at: 0,
    }
}

fn quick() -> QuickCommandsPanel {
    let snapshot = QuickCommandsSnapshot {
        version: 1,
        categories: vec![QuickCategory { id: "c".to_string(), name: "Cat".to_string() }],
        commands: vec![
            command("1", "List", "ls -la"),
            command("2", "Top", " htop "),
            command("3", "Disk", "df"),
            command("4", "Blank", "  "),
        ],
        updated_at: 0,
    };
    QuickCommandsPanel::new(Some(snapshot), vec![], vec![], 9)
}

fn policy() -> TrzszTransferPolicy {
    TrzszTransferPolicy { allow_directory: true, max_file_count: 10, max_total_bytes: 1000 }
}

fn entry(name: &str, is_dir: bool, size: u64) -> UploadEntry {
    UploadEntry { path_id: 1, rel_path: vec![name.to_string()], is_dir, size }
}

fn upload_request(selection: TrzszTransferSelection) -> TrzszPromptRequest {
    TrzszPromptRequest {
        direction: TrzszTransferDirection::Upload,
        selection,
        remote_is_windows: false,
    }
}

#[test]
fn apply_event_finishes_transfer_and_requests_refresh() {
    let mut panel = SftpPanelState::new();
    panel.cwd = "/".to_string();
    panel.transfer_id = Some("dl-1".to_string());
    panel.transfer_progress = Some((100, 200));
    panel.busy = true;
    let refresh = panel.apply_event(SftpEvent::Progress {
        id: "dl-1".to_string(),
        transferred: 200,
        total: 200,
        done: true,
        message: Some("传输完成".to_string()),
    });
    assert!(refresh);
    assert!(panel.transfer_id.is_none());
    assert!(panel.transfer_progress.is_none());
    assert!(!panel.busy);
}

#[test]
fn drop_file_builds_upload_command_into_cwd() {
    let path = DroppedPath {
        is_directory: Some(false),
        name: Some("hapcli-drop-file-1.txt".to_string()),
        local: "/tmp/hapcli-drop-file-1.txt".to_string(),
    };
    let command = upload_command_for_drop(&path, "/home/user").unwrap();
    let SftpCommand::Upload { local, remote } = command else {
        panic!("expected Upload command");
    };
    assert!(local.ends_with("hapcli-drop-file-1.txt"));
    assert_eq!(remote, "/home/user/hapcli-drop-file-1.txt");
}

#[test]
fn drop_directory_builds_upload_dir_command() {
    let path = DroppedPath {
        is_directory: Some(true),
        name: Some("hapcli-drop-dir-1".to_string()),
        local: "/tmp/hapcli-drop-dir-1".to_string(),
    };
    let command = upload_command_for_drop(&path, "/").unwrap();
    let SftpCommand::UploadDir { remote, .. } = command else {
        panic!("expected UploadDir command");
    };
    assert_eq!(remote, "/hapcli-drop-dir-1");
}

#[test]
fn drop_missing_path_returns_none() {
    let path = DroppedPath {
        is_directory: None,
        name: Some("hapcli-sftp-drop-missing".to_string()),
        local: "/nonexistent/hapcli-sftp-drop-missing".to_string(),
    };
    assert!(upload_command_for_drop(&path, "/").is_none());
}

#[test]
fn the_files_panel_sends_commands() {
    let mut panel = panel();
    assert_eq!(panel.entries[0].label(), "📁 docs  ");
    assert_eq!(panel.entries[1].label(), "📄 a.txt  2.0 KB");
    assert!(sftp_panel_ui(&mut panel, SftpPanelEvent::Click(1)).is_empty());
    assert_eq!(panel.selected, Some(1));
    let sent = sftp_panel_ui(&mut panel, SftpPanelEvent::Download("/l".to_string()));
    assert!(matches!(&sent[0], SftpCommand::Download { remote, .. } if remote == "/home/a.txt"));
    assert!(sftp_panel_ui(&mut panel, SftpPanelEvent::DownloadFolder("/l".to_string())).is_empty());
    let sent = sftp_panel_ui(&mut panel, SftpPanelEvent::DoubleClick(0));
    assert!(matches!(&sent[0], SftpCommand::List(path) if path == "/home/docs"));
    sftp_panel_ui(&mut panel, SftpPanelEvent::EditNewDir(" new ".to_string()));
    let sent = sftp_panel_ui(&mut panel, SftpPanelEvent::MakeDir);
    assert!(matches!(&sent[0], SftpCommand::Mkdir(path) if path == "/home/new"));
    assert_eq!(panel.new_dir_name, "");
    let picked = PickedPath { name: None, local: "/".to_string() };
    let sent = sftp_panel_ui(&mut panel, SftpPanelEvent::UploadFolder(picked));
    assert!(
        matches!(&sent[0], SftpCommand::UploadDir { remote, .. } if remote == "/home/folder")
    );
}

#[test]
fn files_are_deleted_after_a_question() {
    let mut panel = panel();
    sftp_panel_ui(&mut panel, SftpPanelEvent::Click(0));
    assert!(sftp_panel_ui(&mut panel, SftpPanelEvent::AskDelete).is_empty());
    assert_eq!(panel.delete_question(), Some("确定删除「/home/docs」？".to_string()));
    let sent = sftp_panel_ui(&mut panel, SftpPanelEvent::ConfirmDelete);
    assert!(matches!(&sent[0], SftpCommand::Delete { recursive: true, .. }));
    assert!(panel.delete_question().is_none());
    assert!(sftp_panel_ui(&mut panel, SftpPanelEvent::ConfirmDelete).is_empty());
}

#[test]
fn dropped_files_are_uploaded_where_they_hover() {
    let mut panel = panel();
    let drop = |over_panel| SftpPanelEvent::Pointer {
        over_panel,
        files_hover: false,
        dropped: vec![DroppedPath {
            is_directory: Some(false),
            name: Some("x".to_string()),
            local: "/x".to_string(),
        }],
    };
    assert!(use_sftp_panel(&mut panel, drop(false)).is_empty());
    assert!(!panel.busy);
    assert_eq!(use_sftp_panel(&mut panel, drop(true)).len(), 1);
    assert!(panel.busy);
}

#[test]
fn the_files_worker_opens_its_channel_twice_at_most() {
    let mut worker = SftpWorker::new();
    let step = worker.take_report(WorkerReport::Started(Ok(()))).unwrap();
    assert!(matches!(step.action, WorkerAction::Open));
    let step = worker.take_report(WorkerReport::Opened(Err(failure(true)))).unwrap();
    assert!(matches!(step.action, WorkerAction::Reopen));
    let step = worker.take_report(WorkerReport::Opened(Err(failure(true)))).unwrap();
    assert!(matches!(step.action, WorkerAction::End));
    assert!(matches!(
        step.event,
        Some(SftpEvent::Listing { error: Some(error), .. }) if error == "SFTP 连接失败: closed"
    ));
    let mut worker = SftpWorker::new();
    let step = worker.take_report(WorkerReport::Started(Err("x".to_string()))).unwrap();
    assert!(matches!(
        step.event,
        Some(SftpEvent::Listing { error: Some(error), .. }) if error == "SFTP 运行时创建失败: x"
    ));
}

#[test]
fn the_files_worker_retries_a_listing_once() {
    let mut worker = SftpWorker::new();
    worker.take_report(WorkerReport::Started(Ok(())));
    worker.take_report(WorkerReport::Opened(Ok(())));
    let list = Some(SftpCommand::List("/d".to_string()));
    let step = worker.take_report(WorkerReport::Command(list, 1)).unwrap();
    assert!(matches!(step.action, WorkerAction::List(path) if path == "/d"));
    let step = worker.take_report(WorkerReport::Listed(Err(failure(true)))).unwrap();
    assert!(matches!(step.action, WorkerAction::Reopen));
    let step = worker.take_report(WorkerReport::Opened(Ok(()))).unwrap();
    assert!(matches!(step.action, WorkerAction::List(_)));
    let step = worker.take_report(WorkerReport::Listed(Err(failure(true)))).unwrap();
    assert!(matches!(step.action, WorkerAction::Receive));
    assert!(step.event.is_some());
    assert!(worker.take_report(WorkerReport::Done(Ok(()))).is_none());
}

#[test]
fn the_files_worker_names_transfers() {
    let mut worker = SftpWorker::new();
    worker.take_report(WorkerReport::Started(Ok(())));
    worker.take_report(WorkerReport::Opened(Ok(())));
    let get = SftpCommand::DownloadDir { remote: "/r".to_string(), local: "/l".to_string() };
    let step = worker.take_report(WorkerReport::Command(Some(get), 0xbeef)).unwrap();
    assert!(matches!(step.action, WorkerAction::DownloadDir { id, .. } if id == "dldir-beef"));
    let step = worker.take_report(WorkerReport::Transferred(Ok(12))).unwrap();
    assert!(matches!(
        step.event,
        Some(SftpEvent::Progress { done: true, message: Some(text), .. })
            if text == "传输完成，共 12 字节"
    ));
    let step = worker.take_report(WorkerReport::Command(None, 0)).unwrap();
    assert!(matches!(step.action, WorkerAction::End));
    assert_eq!(fast_id(0xff, 0x0f), 0xf0);
}

#[test]
fn files_events_tell_what_happened() {
    assert!(matches!(
        finished_event(Err(failure(false)), "删除"),
        SftpEvent::Finished { ok: false, message } if message == "删除失败: closed"
    ));
    assert!(matches!(
        finished_event(Ok(()), "新建目录"),
        SftpEvent::Finished { ok: true, message } if message == "新建目录成功"
    ));
    assert!(matches!(
        progress_event("i".to_string(), 1, 2, TransferState::Cancelled, None),
        SftpEvent::Progress { done: true, .. }
    ));
    let mut panel = panel();
    let running = progress_event("i".to_string(), 1024, 2048, TransferState::InProgress, None);
    assert!(poll_sftp(&mut panel, vec![running]).is_none());
    assert_eq!(panel.progress_text(), Some("1.0 KB / 2.0 KB".to_string()));
    let done = SftpEvent::Finished { ok: true, message: "x".to_string() };
    assert!(matches!(
        poll_sftp(&mut panel, vec![done]),
        Some(SftpCommand::List(path)) if path == "/home"
    ));
}

#[test]
fn ports_are_forwarded() {
    let mut panel = ForwardPanel::new();
    panel.target_host = " db ".to_string();
    panel.description = " note ".to_string();
    let sent = forward_window_ui(&mut panel, ForwardWindowEvent::Add(0x10)).unwrap();
    let ForwardCommand::Create(rule) = sent else {
        panic!("expected a rule");
    };
    assert_eq!(rule.id, "fwd-10");
    assert_eq!(rule.label(), "[本地] 127.0.0.1:8080 → db:80 (启动中)");
    assert_eq!(rule.description, "note");
    assert!(panel.busy);
    assert!(forward_window_ui(&mut panel, ForwardWindowEvent::Add(1)).is_none());
    poll_forward(&mut panel, after_command(Some("no".to_string()), vec![rule]));
    assert!(!panel.busy);
    assert_eq!(panel.error, Some("no".to_string()));
    assert_eq!(panel.count_text(), "1 条规则");
    assert!(matches!(
        forward_window_ui(&mut panel, ForwardWindowEvent::Stop(0)),
        Some(ForwardCommand::Stop(id)) if id == "fwd-10"
    ));
    forward_window_ui(&mut panel, ForwardWindowEvent::TargetHost("  ".to_string()));
    assert!(forward_window_ui(&mut panel, ForwardWindowEvent::Add(2)).is_none());
    assert_eq!(panel.error, Some("目标主机不能为空".to_string()));
    assert!(matches!(
        runtime_failure("x"),
        ForwardEvent::Error(text) if text == "转发运行时创建失败: x"
    ));
    assert_eq!(ForwardType::Dynamic.label(), "动态");
    assert_eq!(ForwardStatus::Suspended.label(), "挂起");
}

#[test]
fn quick_commands_are_sent() {
    let mut panel = quick();
    assert_eq!(panel.loaded, vec!["1".to_string(), "2".to_string(), "3".to_string()]);
    let send = |id: &str| QuickEvent::Send(id.to_string());
    assert_eq!(panel.ui_window(send("2"), 0, String::new()).send, Some("htop".to_string()));
    assert_eq!(panel.ui_window(send("4"), 0, String::new()).send, None);
    panel.snapshot.commands.push(command("2", "Other", "uptime"));
    let row = |at| QuickEvent::SendListed(at);
    assert_eq!(panel.ui_window(row(4), 0, String::new()).send, Some("uptime".to_string()));
    assert_eq!(panel.ui_window(row(5), 0, String::new()).send, None);
    panel.ui_window(QuickEvent::Filter("df".to_string()), 0, String::new());
    assert_eq!(panel.ui_window(row(0), 0, String::new()).send, Some("df".to_string()));
    panel.ui_window(QuickEvent::Draft(" pwd ".to_string()), 0, String::new());
    assert_eq!(
        panel.ui_window(QuickEvent::SendDraft, 0, String::new()).send,
        Some("pwd".to_string())
    );
    assert_eq!(panel.draft, "");
}

#[test]
fn quick_commands_are_added_and_deleted() {
    let mut panel = quick();
    assert!(!panel.ui_window(QuickEvent::Add, 5, "9".to_string()).save);
    assert_eq!(panel.error, Some("名称和命令不能为空".to_string()));
    panel.new_name = " Who ".to_string();
    panel.new_command = "whoami".to_string();
    assert!(panel.ui_window(QuickEvent::Add, 5, "9".to_string()).save);
    assert_eq!(panel.snapshot.commands[4].name, "Who");
    assert_eq!(panel.snapshot.updated_at, 5);
    assert!(panel.pinned("9"));
    assert_eq!(panel.category_text(), "Cat");
    assert!(panel.ui_window(QuickEvent::Delete("9".to_string()), 6, String::new()).save);
    assert!(!panel.pinned("9"));
    assert_eq!(panel.snapshot.commands.len(), 4);
    panel.saved(Err("disk".to_string()));
    assert_eq!(panel.error, Some("disk".to_string()));
}

#[test]
fn quick_commands_are_filtered_and_pinned() {
    let mut panel = quick();
    panel.filter = " HTOP ".to_string();
    let listed = panel.listed();
    assert_eq!(listed.len(), 1);
    assert_eq!(listed[0].id, "2");
    panel.filter = "l".to_string();
    assert_eq!(panel.listed().len(), 2);
    panel.ui_window(QuickEvent::TogglePin("4".to_string()), 0, String::new());
    assert!(panel.pinned("4"));
    panel.ui_window(QuickEvent::TogglePin("4".to_string()), 0, String::new());
    assert!(!panel.pinned("4"));
}

#[test]
fn closing_a_tab_keeps_the_shown_one() {
    let local = TerminalSessionKind::LocalPty;
    let mut app = app(&[local, local, local]);
    app.bar.rename_index = Some(2);
    let effects = app.update(&ToolbarIntents { close: Some(0), ..no_intents() }, false);
    assert!(matches!(effects[0], TabEffect::Shutdown(0)));
    assert_eq!(app.bar.tabs[app.bar.active].id, 2);
    assert_eq!(app.bar.rename_index, Some(1));
    let menu = Some((0, TabMenuAction::CloseOthers));
    app.update(&ToolbarIntents { menu, ..no_intents() }, false);
    assert_eq!(app.bar.tabs.len(), 1);
    assert_eq!(app.bar.tabs[0].id, 1);
    assert!(app.update(&ToolbarIntents { close: Some(0), ..no_intents() }, false).is_empty());
}

#[test]
fn tabs_are_copied_and_renamed() {
    let mut app = app(&[TerminalSessionKind::SshPty]);
    let menu = |action| ToolbarIntents { menu: Some((0, action)), ..no_intents() };
    let effects = app.update(&menu(TabMenuAction::Duplicate), false);
    assert!(matches!(
        &effects[0],
        TabEffect::OpenSame { id: 0, label } if label == "tab 0 (副本)"
    ));
    app.update(&menu(TabMenuAction::Rename), false);
    assert_eq!(app.bar.rename_draft, "tab 0");
    assert!(app.modal_open());
    app.bar.rename_tab_window(RenameEvent::Edit(" work ".to_string()));
    assert!(app.bar.rename_tab_window(RenameEvent::Confirm));
    let seen = status(TerminalSessionKind::SshPty, Some("t"));
    assert_eq!(app.title_change(&seen), Some("hapcli — work".to_string()));
    assert_eq!(app.title_change(&seen), None);
    app.session_opened(Err("busy".to_string()), true);
    assert_eq!(app.form.error, Some("复制串口标签失败: busy".to_string()));
}

#[test]
fn dialogs_exclude_each_other() {
    let mut app = app(&[TerminalSessionKind::LocalPty]);
    app.update(&ToolbarIntents { connect: true, ..no_intents() }, true);
    assert!(app.show_connect && app.form.shell_colors);
    app.update(&ToolbarIntents { settings: true, ..no_intents() }, false);
    assert!(app.show_settings && !app.show_connect);
    app.update(&ToolbarIntents { connect: true, ..no_intents() }, false);
    assert!(!app.connect_finished(Err("x".to_string())));
    assert_eq!(app.form.error, Some("串口打开失败: x".to_string()));
    assert!(app.connect_finished(Ok(tab(5, TerminalSessionKind::Telnet))));
    assert!(!app.show_connect);
    assert_eq!(app.bar.active, 1);
    assert_eq!(app.theme_change(ThemeChoice::Dark), None);
    assert_eq!(app.theme_change(ThemeChoice::Light), Some(ThemeChoice::Light));
    app.connect_cancelled(ConnectForm::new(None, None, None, None));
    assert_eq!(app.form.error, None);
}

#[test]
fn the_last_tab_is_not_closed_by_a_menu() {
    for action in [TabMenuAction::Close, TabMenuAction::CloseOthers] {
        let mut app = app(&[TerminalSessionKind::LocalPty, TerminalSessionKind::LocalPty]);
        let intents =
            ToolbarIntents { close: Some(0), menu: Some((1, action)), ..no_intents() };
        let effects = app.update(&intents, false);
        assert_eq!(effects.len(), 1);
        assert!(matches!(effects[0], TabEffect::Shutdown(0)));
        assert_eq!(app.bar.tabs.len(), 1);
        assert_eq!(app.bar.tabs[0].id, 1);
    }
}

#[test]
fn panels_open_with_a_connection() {
    let mut app = app(&[TerminalSessionKind::SshPty]);
    let tools = ToolbarIntents { sftp: true, forward: true, ..no_intents() };
    assert!(app.update(&tools, false).is_empty());
    app.bar.tabs[0].connected = true;
    let effects = app.update(&tools, false);
    assert_eq!(effects.len(), 2);
    assert!(matches!(
        &effects[0],
        TabEffect::StartSftp { id: 0, first: SftpCommand::List(path) } if path == "."
    ));
    assert!(matches!(
        effects[1],
        TabEffect::StartForward { id: 0, first: ForwardCommand::List }
    ));
    assert!(app.bar.tabs[0].sftp.is_some());
    assert!(app.bar.tabs[0].forward.as_ref().unwrap().show);
    assert!(app.bar.tabs[0].sync_sftp_to("/d").is_some());
    assert_eq!(app.bar.tabs[0].sftp_prev_cwd, Some(String::new()));
    app.update(&tools, false);
    assert!(app.bar.tabs[0].sftp.is_none());
    let effects = app.update(&ToolbarIntents { reconnect: true, ..no_intents() }, false);
    assert!(matches!(effects[0], TabEffect::Reconnect(0)));
    assert_eq!(app.bar.tabs[0].reconnect.status, Some("正在重连…".to_string()));
    assert_eq!(app.bar.tabs[0].sftp_prev_cwd, None);
    let effects = app.update(&ToolbarIntents { quick: true, ..no_intents() }, false);
    assert!(matches!(effects[0], TabEffect::ReleaseKeyboard));
    assert!(app.show_quick);
}

#[test]
fn terminals_are_searched_and_cleared() {
    let mut tab = tab(0, TerminalSessionKind::LocalPty);
    let view = screen(80, 24);
    assert_eq!(tab.terminal_menu(TerminalMenuAction::Copy, &view), TerminalMenuStep::Nothing);
    assert_eq!(tab.terminal_menu(TerminalMenuAction::SelectAll, &view), TerminalMenuStep::Nothing);
    let all = TextSelection { anchor: (0, 0), active: (23, 79) };
    assert_eq!(
        tab.terminal_menu(TerminalMenuAction::Copy, &view),
        TerminalMenuStep::CopySelection(all)
    );
    let none =
        SearchClicks { typed: None, next: false, previous: false, close: false, entered: false };
    assert_eq!(tab.search_bar(none), SearchBarStep { take_keyboard: false, offset: None });
    assert_eq!(
        tab.terminal_menu(TerminalMenuAction::Search, &view),
        TerminalMenuStep::SearchAgain
    );
    assert!(tab.input.search_open);
    let found = vec![TerminalSearchMatch {
        line: -4,
        ranges: vec![TerminalSearchRange { line: -4, start_col: 0, end_col: 1 }],
    }];
    let clicks = SearchClicks {
        typed: Some(("x".to_string(), found)),
        next: true,
        previous: false,
        close: false,
        entered: true,
    };
    assert_eq!(tab.search_bar(clicks), SearchBarStep { take_keyboard: true, offset: Some(4) });
    assert!(tab.input.search_enter_consumed);
    tab.terminal_menu(TerminalMenuAction::Clear, &view);
    assert!(tab.search.matches.is_empty());
    assert!(tab.input.selection.is_none());
    assert!(tab.terminal_clicked());
    assert!(!tab.terminal_clicked());
    assert!(tab.resize(100, 30));
    assert!(!tab.resize(100, 30));
    assert_eq!(draw_tab(true, true, false).background.r, 0xd6);
    assert!(draw_tab(false, false, false).outline.is_none());
}

#[test]
fn a_request_for_the_keyboard_is_answered_once() {
    let mut tab = tab(0, TerminalSessionKind::LocalPty);
    tab.terminal_menu(TerminalMenuAction::Search, &screen(80, 24));
    let none = || SearchClicks {
        typed: None,
        next: false,
        previous: false,
        close: false,
        entered: false,
    };
    assert!(tab.search_bar(none()).take_keyboard);
    assert!(!tab.input.search_focus_requested);
    assert!(!tab.search_bar(none()).take_keyboard);
    tab.search_bar(SearchClicks { next: true, ..none() });
    assert!(!tab.input.search_focus_requested);
}

#[test]
fn an_enter_of_the_search_does_not_reach_the_shell() {
    let mut tab = tab(0, TerminalSessionKind::SshPty);
    tab.sftp = Some(panel());
    tab.input.input_line = "cd docs".to_string();
    tab.terminal_menu(TerminalMenuAction::Search, &screen(80, 24));
    tab.search_bar(SearchClicks {
        typed: None,
        next: true,
        previous: false,
        close: false,
        entered: true,
    });
    let events = vec![InputEvent::WindowFocused(true), enter()];
    let (actions, command) =
        tab.process_input(&events, &frame(), &NO_FILES, &POINTER, &screen(80, 24));
    assert!(!actions.iter().any(|action| matches!(action, TerminalAction::Write(_))));
    assert!(command.is_none());
    assert_eq!(tab.input.input_line, "cd docs");
    assert!(!tab.input.search_enter_consumed);
    let events = vec![enter()];
    let (actions, command) =
        tab.process_input(&events, &frame(), &NO_FILES, &POINTER, &screen(80, 24));
    assert!(actions.iter().any(|action| matches!(action, TerminalAction::Write(_))));
    assert!(matches!(command, Some(SftpCommand::List(cwd)) if cwd == "/home/docs"));
    assert_eq!(tab.sftp_prev_cwd, Some("/home".to_string()));
    assert_eq!(tab.input.input_line, "");
}

#[test]
fn sessions_are_labelled() {
    let local = status(TerminalSessionKind::LocalPty, None);
    assert_eq!(display_label(&local, "base", &None, false), "本地 · zsh");
    let ssh = status(TerminalSessionKind::SshPty, None);
    assert_eq!(display_label(&ssh, "me@h", &None, true), "🔔 me@h …");
    let notes = StatusNotes {
        cols: 80,
        rows: 24,
        display_offset: 3,
        font_points: "13".to_string(),
        trzsz_active: false,
        trzsz_status: None,
        keychain_status: None,
        reconnect_status: Some("SSH 已重连".to_string()),
    };
    assert_eq!(
        status_line(&ssh, &notes),
        "SSH · zsh · 运行中 · 80x24 · 滚动 3 · 13pt · SSH 已重连"
    );
    assert_eq!(handle_keychain_save(&ssh), KeychainStep::Wait);
    assert_eq!(handle_keychain_save(&local), KeychainStep::Drop);
    assert_eq!(keychain_message(&Err("x".to_string())), "钥匙串保存失败: x");
    assert!(notification_script("t", "m").contains("display notification"));
}

#[test]
fn sessions_reconnect_three_times() {
    let mut state = ReconnectState::new(true);
    assert!(!state.handle_reconnect(true, true, true, 0));
    let mut tries = 0;
    let mut now = 0;
    for _ in 0..20 {
        if state.handle_reconnect(false, false, true, now) {
            tries += 1;
        }
        now += 2500;
    }
    assert_eq!(tries, 3);
    assert_eq!(state.status, Some("自动重连失败，可手动重连".to_string()));
    assert!(state.banner_visible(false));
    state.dismiss();
    assert!(!state.banner_visible(false));
}

#[test]
fn long_commands_are_told_of() {
    let mut watch = CommandWatch::new();
    assert!(watch.probe_due(0));
    let running = Some("make".to_string());
    assert!(watch.poll_notification(Some(2), Some(1), running, 0, true, false).is_none());
    assert!(!watch.probe_due(499));
    let told = watch.poll_notification(Some(1), Some(1), None, 6000, true, false);
    assert_eq!(told, Some("make（6 秒）".to_string()));
    assert!(watch.notify_pending);
}

#[test]
fn typed_lines_are_followed() {
    let prefs = frame().prefs;
    let mut input = TerminalInput::new();
    let events = vec![
        InputEvent::Text("cd www".to_string()),
        enter(),
    ];
    let (actions, line) =
        input.process_input(&events, &frame(), &NO_FILES, &POINTER, &screen(0, 0));
    assert_eq!(line, Some("cd www".to_string()));
    assert!(actions.iter().any(|action| matches!(action, TerminalAction::Write(_))));
    let mut previous = None;
    let target =
        sync_sftp_after_submit("cd www", &prefs, true, Some("/var".to_string()), &mut previous);
    assert_eq!(target, Some("/var/www".to_string()));
    assert_eq!(previous, Some("/var".to_string()));
}

#[test]
fn build_upload_readers_enforces_file_count() {
    let entries = vec![entry("a.txt", false, 1), entry("b.txt", false, 1)];
    let policy = TrzszTransferPolicy { max_file_count: 1, ..policy() };
    assert!(matches!(
        check_upload_entries(&entries, &policy),
        Err(TrzszError::MaxFileCountExceeded { .. })
    ));
}

#[test]
fn build_upload_readers_rejects_directory_when_disallowed() {
    let entries = vec![entry("dir", true, 0), entry("a.txt", false, 1)];
    let policy = TrzszTransferPolicy { allow_directory: false, ..policy() };
    assert!(matches!(
        check_upload_entries(&entries, &policy),
        Err(TrzszError::DirectoryNotAllowed(_))
    ));
}

#[test]
fn parse_directory_entry_handles_json() {
    let entry =
        parse_directory_entry(r#"{"path_id":7,"path_name":["docs","a.txt"],"is_dir":false}"#)
            .ok()
            .unwrap();
    assert_eq!(entry.path_id, 7);
    assert_eq!(entry.path_name, vec!["docs", "a.txt"]);
    assert!(!entry.is_dir);
    assert!(parse_directory_entry("not json").is_err());
}

#[test]
fn collision_and_cancel_helpers() {
    assert_eq!(next_collision_name("a.txt", 0), "a.txt");
    assert_eq!(next_collision_name("a.txt", 1), "a.txt.0");
    assert!(is_cancelled_transfer(&TrzszError::InvalidState("Stopped".to_string())));
    assert!(!is_cancelled_transfer(&TrzszError::InvalidState("boom".to_string())));
}

#[test]
fn uploads_are_begun_or_declined() {
    let request = upload_request(TrzszTransferSelection::File);
    assert!(matches!(
        begin_upload(&request, &TrzszPromptSelection::Cancelled, &policy()),
        UploadStart::Decline
    ));
    let chosen = TrzszPromptSelection::Upload(vec!["/a".to_string()]);
    assert!(matches!(begin_upload(&request, &chosen, &policy()), UploadStart::Build(_)));
    let strict = TrzszTransferPolicy { allow_directory: false, ..policy() };
    let directory = upload_request(TrzszTransferSelection::Directory);
    assert!(matches!(begin_upload(&directory, &chosen, &strict), UploadStart::Fail(_)));
    assert_eq!(
        begin_download(&TrzszPromptSelection::DownloadRoot("/d".to_string())),
        Some("/d".to_string())
    );
    assert!(check_duplicate_names(&vec![entry("a", false, 1), entry("a", false, 1)]).is_err());
    assert!(check_duplicate_names(&vec![entry("a", false, 1), entry("b", false, 1)]).is_ok());
    assert_eq!(prompt_text(&request), ("上传文件 (trz)", "远程请求上传文件"));
}

#[test]
fn downloads_are_bounded() {
    let mut tracker = DownloadConstraintTracker::new(TrzszTransferPolicy {
        allow_directory: false,
        max_file_count: 1,
        max_total_bytes: 10,
    });
    assert!(tracker.ensure_directory_allowed().is_err());
    assert!(tracker.assert_can_add_file().is_ok());
    tracker.commit_file();
    assert!(tracker.assert_can_add_file().is_err());
    assert!(tracker.count_bytes(10).is_ok());
    assert!(tracker.count_bytes(1).is_err());
    let mut search = NameSearch::new("a".to_string(), false);
    assert_eq!(search.candidate(), "a");
    assert!(search.failed(TrzszError::AlreadyExists("a".to_string())).is_none());
    assert_eq!(search.candidate(), "a.0");
    assert!(search.failed(TrzszError::InvalidPath("a".to_string())).is_some());
    assert_eq!(base_name("/x/y.txt"), "y.txt");
    let saved = format_saved_files(&vec!["a".to_string()], "/d");
    assert!(saved.contains(" to /d"));
    assert!(saved.ends_with("\r\n- a"));
}

#[test]
fn transfers_are_asked_for_and_end() {
    let mut panel = TransferPanel::new();
    let request = upload_request(TrzszTransferSelection::File);
    let events = vec![
        TerminalEvent::CwdChanged("/a".to_string()),
        TerminalEvent::TrzszTransferPrompt(request),
        TerminalEvent::CwdChanged("/b".to_string()),
    ];
    assert_eq!(panel.take_events(&events), vec!["/a".to_string()]);
    assert!(panel.start(true).is_some());
    assert!(panel.active);
    let failed = TrzszWorkerEvent::Failed {
        code: "c".to_string(),
        detail: Some("d".to_string()),
        message: "m".to_string(),
    };
    let (_, finished) = panel.poll_worker(&vec![failed], false);
    assert!(finished);
    assert_eq!(panel.status, Some("Trzsz 传输失败 [c] (d): m".to_string()));
    let (_, event) = worker_outcome(Ok(()), String::new(), None, String::new());
    assert!(matches!(event, TrzszWorkerEvent::Completed));
    panel.active = true;
    assert!(panel.interrupt(false));
    assert_eq!(panel.status, Some("连接已断开，传输已中断".to_string()));
}
