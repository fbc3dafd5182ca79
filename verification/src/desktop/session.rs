//! What the application shows and keeps of a session: its labels and status line, and when it
//! reconnects, saves a password or reports that a command has ended.

use crate::text::{
    concat2, concat3, concat4, concat5, decimal, decimal_text,
};
use vstd::prelude::*;
use vstd::string::*;

verus! {

#[derive(Clone, Copy, Debug, PartialEq, Eq, Structural)]
pub enum TerminalSessionKind {
    LocalPty,
    SshPty,
    Telnet,
    Serial,
}

#[derive(Clone, Copy, Debug, PartialEq, Eq)]
pub enum TerminalLifecycle {
    Running,
    Exited(Option<i32>),
    Closed,
}

#[derive(Clone, Debug, PartialEq, Eq)]
pub struct SessionStatus {
    pub kind: TerminalSessionKind,
    pub title: Option<String>,
    pub lifecycle: TerminalLifecycle,
}

impl SessionStatus {
    pub fn is_running(&self) -> (r: bool)
        ensures
            r == (self.lifecycle is Running),
    {
        match self.lifecycle {
            TerminalLifecycle::Running => true,
            _ => false,
        }
    }
}

/// The title of a session, or another text where it has none.
pub open spec fn title_or(status: SessionStatus, other: Seq<char>) -> Seq<char> {
    match status.title {
        Some(title) => title@,
        None => other,
    }
}

/// The label that a session has of itself: a local one goes by its title, a remote one also shows
/// that it has ended or is still connecting.
pub open spec fn session_label(status: SessionStatus, base: Seq<char>) -> Seq<char> {
    if status.kind == TerminalSessionKind::LocalPty {
        "本地 · "@ + title_or(status, "zsh"@)
    } else if !(status.lifecycle is Running) {
        title_or(status, base) + " ✗"@
    } else if status.title is None {
        base + " …"@
    } else {
        title_or(status, base)
    }
}

/// The label of a tab: the user's own where there is one, with a bell where a command has ended.
pub open spec fn tab_label(
    status: SessionStatus,
    base: Seq<char>,
    custom: Option<String>,
    notify: bool,
) -> Seq<char> {
    let label = match custom {
        Some(label) => label@,
        None => session_label(status, base),
    };
    if notify {
        "🔔 "@ + label
    } else {
        label
    }
}

pub fn display_label(status: &SessionStatus, base: &str, custom: &Option<String>, notify: bool) -> (r:
    String)
    ensures
        r@ == tab_label(*status, base@, *custom, notify),
{
    let label = match custom {
        Some(label) => label.clone(),
        None => {
            match status.kind {
                TerminalSessionKind::LocalPty => match &status.title {
                    Some(title) => concat2("本地 · ", title.as_str()),
                    None => concat2("本地 · ", "zsh"),
                },
                _ => {
                    let shown = match &status.title {
                        Some(title) => title.clone(),
                        None => base.to_owned(),
                    };
                    if !status.is_running() {
                        concat2(shown.as_str(), " ✗")
                    } else if status.title.is_none() {
                        concat2(shown.as_str(), " …")
                    } else {
                        shown
                    }
                },
            }
        },
    };
    if notify {
        concat2("🔔 ", label.as_str())
    } else {
        label
    }
}

/// A whole number as it is written.
pub open spec fn signed_decimal(n: int) -> Seq<char> {
    if n < 0 {
        "-"@ + decimal((-n) as nat)
    } else {
        decimal(n as nat)
    }
}

fn signed_text(n: i32) -> (r: String)
    ensures
        r@ == signed_decimal(n as int),
{
    let wide: i64 = n as i64;
    if wide < 0 {
        concat2("-", decimal_text((-wide) as u64).as_str())
    } else {
        decimal_text(wide as u64)
    }
}

pub open spec fn kind_name(kind: TerminalSessionKind) -> Seq<char> {
    match kind {
        TerminalSessionKind::LocalPty => "本地"@,
        TerminalSessionKind::SshPty => "SSH"@,
        TerminalSessionKind::Telnet => "Telnet"@,
        TerminalSessionKind::Serial => "串口"@,
    }
}

pub open spec fn lifecycle_name(lifecycle: TerminalLifecycle) -> Seq<char> {
    match lifecycle {
        TerminalLifecycle::Running => "运行中"@,
        TerminalLifecycle::Exited(code) => "已退出（代码 "@ + signed_decimal(
            match code {
                Some(code) => code as int,
                None => -1,
            },
        ) + "）"@,
        TerminalLifecycle::Closed => "已关闭"@,
    }
}

fn lifecycle_text(lifecycle: &TerminalLifecycle) -> (r: String)
    ensures
        r@ == lifecycle_name(*lifecycle),
{
    match lifecycle {
        TerminalLifecycle::Running => "运行中".to_owned(),
        TerminalLifecycle::Exited(code) => {
            let number: i32 = match code {
                Some(code) => *code,
                None => -1,
            };
            concat3("已退出（代码 ", signed_text(number).as_str(), "）")
        },
        TerminalLifecycle::Closed => "已关闭".to_owned(),
    }
}

/// A note at the end of the status line.
pub open spec fn note(text: Option<String>) -> Seq<char> {
    match text {
        Some(text) => " · "@ + text@,
        None => Seq::empty(),
    }
}

fn note_text(text: &Option<String>) -> (r: String)
    ensures
        r@ == note(*text),
{
    match text {
        Some(text) => concat2(" · ", text.as_str()),
        None => {
            let none = String::new();
            assert(none@ =~= Seq::empty());
            none
        },
    }
}

/// What the status line says besides the session's own status. `font_points` is the font size as
/// it is shown.
pub struct StatusNotes {
    pub cols: usize,
    pub rows: usize,
    pub display_offset: usize,
    pub font_points: String,
    pub trzsz_active: bool,
    pub trzsz_status: Option<String>,
    pub keychain_status: Option<String>,
    pub reconnect_status: Option<String>,
}

pub open spec fn transfer_note(notes: StatusNotes) -> Seq<char> {
    if notes.trzsz_active {
        " · Trzsz 传输中…"@
    } else {
        note(notes.trzsz_status)
    }
}

pub open spec fn status_text(status: SessionStatus, notes: StatusNotes) -> Seq<char> {
    kind_name(status.kind) + " · "@ + title_or(status, "zsh"@) + " · "@ + lifecycle_name(
        status.lifecycle,
    ) + (" · "@ + decimal(notes.cols as nat) + "x"@ + decimal(notes.rows as nat)) + (" · 滚动 "@
        + decimal(notes.display_offset as nat) + " · "@ + notes.font_points@ + "pt"@) + (
    transfer_note(notes) + note(notes.keychain_status) + note(notes.reconnect_status))
}

/// The line at the foot of the window.
pub fn status_line(status: &SessionStatus, notes: &StatusNotes) -> (r: String)
    ensures
        r@ == status_text(*status, *notes),
{
    let kind = match status.kind {
        TerminalSessionKind::LocalPty => "本地",
        TerminalSessionKind::SshPty => "SSH",
        TerminalSessionKind::Telnet => "Telnet",
        TerminalSessionKind::Serial => "串口",
    };
    let title = match &status.title {
        Some(title) => title.clone(),
        None => "zsh".to_owned(),
    };
    let trzsz = if notes.trzsz_active {
        " · Trzsz 传输中…".to_owned()
    } else {
        note_text(&notes.trzsz_status)
    };
    let head = concat5(
        kind,
        " · ",
        title.as_str(),
        " · ",
        lifecycle_text(&status.lifecycle).as_str(),
    );
    let size = concat4(
        " · ",
        decimal_text(notes.cols as u64).as_str(),
        "x",
        decimal_text(notes.rows as u64).as_str(),
    );
    let view = concat5(
        " · 滚动 ",
        decimal_text(notes.display_offset as u64).as_str(),
        " · ",
        notes.font_points.as_str(),
        "pt",
    );
    let tail = concat3(
        trzsz.as_str(),
        note_text(&notes.keychain_status).as_str(),
        note_text(&notes.reconnect_status).as_str(),
    );
    concat4(head.as_str(), size.as_str(), view.as_str(), tail.as_str())
}

pub const MAX_RECONNECT_ATTEMPTS: u32 = 3;

pub const RECONNECT_DELAY_MILLISECONDS: u64 = 2500;

/// How a session that can be connected again goes about it. Times are in milliseconds.
pub struct ReconnectState {
    pub configured: bool,
    pub ever_connected: bool,
    pub attempts: u32,
    pub due: Option<u64>,
    pub status: Option<String>,
    pub dismissed: bool,
}

pub open spec fn says(status: Option<String>, text: Seq<char>) -> bool {
    status matches Some(status) && status@ == text
}

/// What a look at the session makes of the state, and whether the session is connected again.
pub open spec fn reconnects(
    before: ReconnectState,
    connected: bool,
    running: bool,
    auto: bool,
    now: u64,
    after: ReconnectState,
    r: bool,
) -> bool {
    &&& after.configured == before.configured
    &&& !before.configured ==> !r && after == before
    &&& before.configured ==> {
        let pending = before.attempts > 0 || before.due is Some;
        let recovered = connected && pending;
        let attempts = if recovered {
            0
        } else {
            before.attempts
        };
        let ever = before.ever_connected || connected;
        let due = if recovered {
            None
        } else {
            before.due
        };
        let scheduled = !running && due is None && ever && auto && attempts
            < MAX_RECONNECT_ATTEMPTS;
        let given_up = !running && due is None && ever && !scheduled && attempts
            >= MAX_RECONNECT_ATTEMPTS;
        &&& after.ever_connected == ever
        &&& r == (!running && (due matches Some(time) && now >= time))
        &&& after.attempts == (if r {
            attempts + 1
        } else {
            attempts as int
        })
        &&& after.due == (if r {
            None
        } else if scheduled {
            Some((now + RECONNECT_DELAY_MILLISECONDS) as u64)
        } else {
            due
        })
        &&& after.dismissed == (if r || recovered {
            false
        } else {
            before.dismissed
        })
        &&& if r {
            says(
                after.status,
                "正在重连（第 "@ + decimal((attempts + 1) as nat) + " 次）…"@,
            )
        } else if scheduled {
            says(after.status, "连接已断开，即将自动重连…"@)
        } else if given_up {
            says(after.status, "自动重连失败，可手动重连"@)
        } else if recovered {
            says(after.status, "SSH 已重连"@)
        } else {
            after.status == before.status
        }
    }
}

impl ReconnectState {
    /// Never more than the limit of attempts, and none is due once they are used up.
    pub open spec fn well_formed(self) -> bool {
        &&& self.attempts <= MAX_RECONNECT_ATTEMPTS
        &&& self.due is Some ==> self.attempts < MAX_RECONNECT_ATTEMPTS
    }

    pub fn new(configured: bool) -> (r: Self)
        ensures
            r.well_formed(),
            r.configured == configured && !r.ever_connected && r.attempts == 0,
            r.due is None && r.status is None && !r.dismissed,
    {
        ReconnectState {
            configured,
            ever_connected: false,
            attempts: 0,
            due: None,
            status: None,
            dismissed: false,
        }
    }

    /// Looks at the session, and says whether to connect it again now. `connected` says that the
    /// session has a title, `auto` that the user wants this.
    pub fn handle_reconnect(&mut self, connected: bool, running: bool, auto: bool, now: u64) -> (r:
        bool)
        requires
            old(self).well_formed(),
            now + RECONNECT_DELAY_MILLISECONDS <= u64::MAX,
        ensures
            final(self).well_formed(),
            reconnects(*old(self), connected, running, auto, now, *final(self), r),
    {
        if !self.configured {
            return false;
        }
        if connected {
            self.ever_connected = true;
            if self.attempts > 0 || self.due.is_some() {
                self.attempts = 0;
                self.due = None;
                self.dismissed = false;
                self.status = Some("SSH 已重连".to_owned());
            }
        }
        if running {
            return false;
        }
        if self.due.is_none() && self.ever_connected {
            if auto && self.attempts < MAX_RECONNECT_ATTEMPTS {
                self.due = Some(now + RECONNECT_DELAY_MILLISECONDS);
                self.status = Some("连接已断开，即将自动重连…".to_owned());
            } else if self.attempts >= MAX_RECONNECT_ATTEMPTS {
                self.status = Some("自动重连失败，可手动重连".to_owned());
            }
        }
        match self.due {
            Some(time) => {
                if now >= time {
                    self.due = None;
                    self.attempts = self.attempts + 1;
                    self.dismissed = false;
                    self.status = Some(
                        concat3(
                            "正在重连（第 ",
                            decimal_text(self.attempts as u64).as_str(),
                            " 次）…",
                        ),
                    );
                    true
                } else {
                    false
                }
            },
            None => false,
        }
    }

    /// Whether to tell the user that the connection is gone.
    pub fn banner_visible(&self, running: bool) -> (r: bool)
        ensures
            r == (self.configured && !running && self.ever_connected && self.due is None
                && !self.dismissed),
    {
        self.configured && !running && self.ever_connected && self.due.is_none() && !self.dismissed
    }

    /// The user connects again from the notice.
    pub fn reconnect_manually(&mut self)
        requires
            old(self).well_formed(),
        ensures
            final(self).well_formed(),
            final(self).configured == old(self).configured,
            final(self).ever_connected == old(self).ever_connected,
            final(self).attempts == 0 && final(self).due is None,
            final(self).dismissed == (old(self).dismissed && !old(self).configured),
            says(final(self).status, "正在手动重连…"@),
    {
        self.attempts = 0;
        self.due = None;
        if self.configured {
            self.dismissed = false;
        }
        self.status = Some("正在手动重连…".to_owned());
    }

    /// The user connects again from the tool bar.
    pub fn reconnect_from_toolbar(&mut self)
        ensures
            final(self).well_formed(),
            final(self).configured == old(self).configured,
            final(self).ever_connected == old(self).ever_connected,
            final(self).attempts == 0 && final(self).due is None && !final(self).dismissed,
            says(final(self).status, "正在重连…"@),
    {
        self.attempts = 0;
        self.due = None;
        self.dismissed = false;
        self.status = Some("正在重连…".to_owned());
    }

    /// The user closes the notice.
    pub fn dismiss(&mut self)
        requires
            old(self).well_formed(),
        ensures
            final(self).well_formed(),
            final(self).dismissed && final(self).status is None,
            final(self).configured == old(self).configured,
            final(self).ever_connected == old(self).ever_connected,
            final(self).attempts == old(self).attempts && final(self).due == old(self).due,
    {
        self.dismissed = true;
        self.status = None;
    }
}

/// What becomes of a password that waits to be saved.
#[derive(Clone, Copy, Debug, PartialEq, Eq, Structural)]
pub enum KeychainStep {
    /// The session is no connection any more: the password is dropped.
    Drop,
    /// The session is still connecting.
    Wait,
    /// The session is connected: the password is saved.
    Store,
}

pub fn handle_keychain_save(status: &SessionStatus) -> (r: KeychainStep)
    ensures
        r == (if status.kind != TerminalSessionKind::SshPty || !(status.lifecycle is Running) {
            KeychainStep::Drop
        } else if status.title is None {
            KeychainStep::Wait
        } else {
            KeychainStep::Store
        }),
{
    if status.kind != TerminalSessionKind::SshPty || !status.is_running() {
        KeychainStep::Drop
    } else if status.title.is_none() {
        KeychainStep::Wait
    } else {
        KeychainStep::Store
    }
}

/// What is said of saving a password.
pub fn keychain_message(stored: &Result<(), String>) -> (r: String)
    ensures
        r@ == (match *stored {
            Ok(_) => "密码已保存到钥匙串"@,
            Err(error) => "钥匙串保存失败: "@ + error@,
        }),
{
    match stored {
        Ok(()) => "密码已保存到钥匙串".to_owned(),
        Err(error) => concat2("钥匙串保存失败: ", error.as_str()),
    }
}

pub const PROBE_INTERVAL_MILLISECONDS: u64 = 500;

pub const LONG_COMMAND_MILLISECONDS: u64 = 5000;

/// A command that runs in the foreground of a local session.
pub struct ForegroundTrack {
    pub pid: u32,
    pub started: u64,
    pub command: Option<String>,
}

/// The watch that is kept on the commands of a session. Times are in milliseconds.
pub struct CommandWatch {
    pub last_probe: Option<u64>,
    pub running: Option<ForegroundTrack>,
    pub notify_pending: bool,
}

/// The first characters of a text.
pub open spec fn shortened(text: Seq<char>, limit: int) -> Seq<char> {
    if text.len() <= limit {
        text
    } else {
        text.take(limit)
    }
}

fn shorten(text: &str, limit: usize) -> (r: String)
    ensures
        r@ == shortened(text@, limit as int),
{
    if text.unicode_len() <= limit {
        text.to_owned()
    } else {
        let head = text.substring_char(0, limit);
        assert(head@ =~= text@.take(limit as int));
        head.to_owned()
    }
}

pub open spec fn command_name(track: ForegroundTrack) -> Seq<char> {
    match track.command {
        Some(command) => command@,
        None => "pid "@ + decimal(track.pid as nat),
    }
}

/// What is said of a command that has ended.
pub open spec fn ended_message(track: ForegroundTrack, now: u64) -> Seq<char> {
    shortened(command_name(track), 60) + "（"@ + decimal(((now - track.started) / 1000) as nat) + " 秒）"@
}

/// What a look at the foreground makes of the watch, and what is said of a command that has ended.
pub open spec fn probed(
    before: CommandWatch,
    foreground: Option<u32>,
    shell: Option<u32>,
    command: Option<String>,
    now: u64,
    tell: bool,
    after: CommandWatch,
    r: Option<String>,
) -> bool {
    &&& after.last_probe == Some(now)
    &&& if foreground is Some && foreground != shell {
        &&& r is None
        &&& after.notify_pending == before.notify_pending
        &&& match before.running {
            Some(_) => after.running == before.running,
            None => after.running matches Some(track) && Some(track.pid) == foreground
                && track.started == now && track.command == command,
        }
    } else {
        &&& after.running is None
        &&& match before.running {
            Some(track) => if now - track.started >= LONG_COMMAND_MILLISECONDS && tell {
                &&& r matches Some(text) && text@ == ended_message(track, now)
                &&& after.notify_pending
            } else {
                r is None && after.notify_pending == before.notify_pending
            },
            None => r is None && after.notify_pending == before.notify_pending,
        }
    }
}

impl CommandWatch {
    pub fn new() -> (r: Self)
        ensures
            r.last_probe is None && r.running is None && !r.notify_pending,
    {
        CommandWatch { last_probe: None, running: None, notify_pending: false }
    }

    /// Nothing that is kept lies in the future.
    pub open spec fn before(self, now: u64) -> bool {
        &&& self.last_probe matches Some(time) ==> time <= now
        &&& self.running matches Some(track) ==> track.started <= now
    }

    /// Whether the session is to be looked at: not again right after the last time.
    pub fn probe_due(&self, now: u64) -> (r: bool)
        requires
            self.before(now),
        ensures
            r == !(self.last_probe matches Some(time) && now - time < PROBE_INTERVAL_MILLISECONDS),
    {
        match self.last_probe {
            Some(time) => now - time >= PROBE_INTERVAL_MILLISECONDS,
            None => true,
        }
    }

    /// Takes up what runs in the foreground. When a command that ran long has ended out of sight,
    /// it comes out what to say of it.
    pub fn poll_notification(
        &mut self,
        foreground: Option<u32>,
        shell: Option<u32>,
        command: Option<String>,
        now: u64,
        enabled: bool,
        in_sight: bool,
    ) -> (r: Option<String>)
        requires
            old(self).before(now),
        ensures
            final(self).before(now),
            probed(*old(self), foreground, shell, command, now, enabled && !in_sight, *final(self), r),
    {
        self.last_probe = Some(now);
        let same = match (foreground, shell) {
            (Some(a), Some(b)) => a == b,
            _ => false,
        };
        match foreground {
            Some(pid) => {
                if !same {
                    if self.running.is_none() {
                        self.running = Some(ForegroundTrack { pid, started: now, command });
                    }
                    return None;
                }
            },
            None => {},
        }
        let mut ended: Option<ForegroundTrack> = None;
        std::mem::swap(&mut ended, &mut self.running);
        match ended {
            Some(track) => {
                let lasted: u64 = now - track.started;
                if lasted >= LONG_COMMAND_MILLISECONDS && enabled && !in_sight {
                    let name = match &track.command {
                        Some(command) => command.clone(),
                        None => concat2("pid ", decimal_text(track.pid as u64).as_str()),
                    };
                    let shown = shorten(name.as_str(), 60);
                    self.notify_pending = true;
                    Some(
                        concat4(
                            shown.as_str(),
                            "（",
                            decimal_text(lasted / 1000).as_str(),
                            " 秒）",
                        ),
                    )
                } else {
                    None
                }
            },
            None => None,
        }
    }
}

/// A text in the quotes of AppleScript.
pub open spec fn apple_quoted(text: Seq<char>) -> Seq<char> {
    "'"@ + crate::text::replaced(
        crate::text::replaced(text, '\\', "\\\\"@),
        '\'',
        "'\\''"@,
    ) + "'"@
}

fn apple_quote(text: &str) -> (r: String)
    ensures
        r@ == apple_quoted(text@),
{
    let doubled = crate::text::replace_char(text, '\\', "\\\\");
    concat3("'", crate::text::replace_char(doubled.as_str(), '\'', "'\\''").as_str(), "'")
}

/// The script that shows a notification on macOS.
pub fn notification_script(title: &str, message: &str) -> (r: String)
    ensures
        r@ == "display notification "@ + apple_quoted(message@) + " with title "@ + apple_quoted(
            title@,
        ),
{
    concat4(
        "display notification ",
        apple_quote(message).as_str(),
        " with title ",
        apple_quote(title).as_str(),
    )
}

/// A session that goes down is tried again no more often than the limit, unless it came up
/// meanwhile or the user asked for it: each attempt counts, and none follows the last.
pub proof fn law_attempts_are_bounded(state: ReconnectState)
    requires
        state.well_formed(),
        state.attempts == MAX_RECONNECT_ATTEMPTS,
    ensures
        state.due is None,
{
}

/// The label of a tab is the name that the user gave it. Otherwise it is the title of the session,
/// and the name of the connection where there is none; a remote session that has ended, or that has
/// no title yet, is marked. A bell comes before it where a command has ended.
pub proof fn law_labels_name_the_session(
    status: SessionStatus,
    base: Seq<char>,
    custom: Option<String>,
    notify: bool,
)
    ensures
        ({
            let plain = tab_label(status, base, custom, false);
            let label = tab_label(status, base, custom, notify);
            let name = match status.title {
                Some(title) => title@,
                None => base,
            };
            &&& custom matches Some(own) ==> plain == own@
            &&& !notify ==> label == plain
            &&& notify ==> plain.is_suffix_of(label) && label.len() > plain.len()
            &&& custom is None && status.kind != TerminalSessionKind::LocalPty
                && status.lifecycle is Running && status.title is Some ==> plain == name
            &&& custom is None && status.kind != TerminalSessionKind::LocalPty && !(
            status.lifecycle is Running && status.title is Some) ==> name.is_prefix_of(plain)
                && plain.len() == name.len() + 2
            &&& custom is None && status.kind != TerminalSessionKind::LocalPty && !(
            status.lifecycle is Running) ==> plain.last() == '✗'
            &&& custom is None && status.kind != TerminalSessionKind::LocalPty
                && status.lifecycle is Running && status.title is None ==> plain.last() == '…'
            &&& custom is None && status.kind == TerminalSessionKind::LocalPty ==> (
            status.title matches Some(title) ==> title@.is_suffix_of(plain))
        }),
{
    reveal_strlit("🔔 ");
    reveal_strlit(" ✗");
    reveal_strlit(" …");
    let plain = tab_label(status, base, custom, false);
    let belled = "🔔 "@ + plain;
    assert(belled.subrange(belled.len() - plain.len(), belled.len() as int) =~= plain);
    let name = match status.title {
        Some(title) => title@,
        None => base,
    };
    if custom is None {
        if status.kind == TerminalSessionKind::LocalPty {
            if status.title is Some {
                assert(plain.subrange(plain.len() - name.len(), plain.len() as int) =~= name);
            }
        } else if !(status.lifecycle is Running && status.title is Some) {
            assert(plain.subrange(0, name.len() as int) =~= name);
        }
    }
}

/// The status line starts with the kind of the session and names its title, and it says all notes.
pub proof fn law_status_line_tells_all(status: SessionStatus, notes: StatusNotes)
    ensures
        kind_name(status.kind).is_prefix_of(status_text(status, notes)),
        kind_name(TerminalSessionKind::SshPty) == seq!['S', 'S', 'H'],
        kind_name(TerminalSessionKind::Telnet) == seq!['T', 'e', 'l', 'n', 'e', 't'],
        kind_name(TerminalSessionKind::LocalPty) != kind_name(TerminalSessionKind::Serial),
        notes.reconnect_status matches Some(text) ==> text@.is_suffix_of(
            status_text(status, notes),
        ),
{
    reveal_strlit("SSH");
    reveal_strlit("Telnet");
    reveal_strlit("本地");
    reveal_strlit("串口");
    assert("SSH"@ =~= seq!['S', 'S', 'H']);
    assert("Telnet"@ =~= seq!['T', 'e', 'l', 'n', 'e', 't']);
    assert("本地"@[0] != "串口"@[0]);
    let all = status_text(status, notes);
    let kind = kind_name(status.kind);
    assert(all.subrange(0, kind.len() as int) =~= kind);
    if notes.reconnect_status is Some {
        let text = notes.reconnect_status->Some_0@;
        assert(all.subrange(all.len() - text.len(), all.len() as int) =~= text);
    }
}

/// A lost connection is tried again three times, each time two and a half seconds after it was seen
/// to be gone; a session is looked at every half second, and a command is long after five seconds.
pub proof fn law_times_are_kept(state: ReconnectState)
    requires
        state.well_formed(),
    ensures
        state.attempts <= 3,
        state.due is Some ==> state.attempts < 3,
        RECONNECT_DELAY_MILLISECONDS == 2500,
        PROBE_INTERVAL_MILLISECONDS == 500,
        LONG_COMMAND_MILLISECONDS == 5000,
{
}

/// What is said of a command that has ended starts with the command, or its process where it is not
/// known, at most sixty characters of it.
pub proof fn law_ended_commands_are_named(track: ForegroundTrack, now: u64)
    requires
        track.started <= now,
    ensures
        track.command matches Some(command) ==> (command@.len() <= 60 ==> command@.is_prefix_of(
            ended_message(track, now),
        )) && (command@.len() > 60 ==> command@.take(60).is_prefix_of(ended_message(track, now))
            && !command@.is_prefix_of(ended_message(track, now).take(60))),
{
    if track.command is Some {
        let command = track.command->Some_0@;
        let message = ended_message(track, now);
        let shown = shortened(command, 60);
        assert(message.subrange(0, shown.len() as int) =~= shown);
    }
}

/// A text is quoted for a script between single quotes: backslashes are doubled, and a quote ends
/// the quotes, stands behind a backslash, and starts them anew. A text without either is as it is.
pub proof fn law_scripts_quote_texts(text: Seq<char>, c: char)
    ensures
        text.len() == 0 ==> apple_quoted(text) == seq!['\'', '\''],
        c != '\\' && c != '\'' ==> apple_quoted(text.push(c)) == apple_quoted(text).drop_last()
            + seq![c, '\''],
        apple_quoted(text.push('\\')) == apple_quoted(text).drop_last() + seq!['\\', '\\', '\''],
        apple_quoted(text.push('\'')) == apple_quoted(text).drop_last() + seq![
            '\'',
            '\\',
            '\'',
            '\'',
            '\'',
        ],
{
    reveal_strlit("'");
    reveal_strlit("\\\\");
    reveal_strlit("'\\''");
    let once = crate::text::replaced(text, '\\', "\\\\"@);
    let twice = crate::text::replaced(once, '\'', "'\\''"@);
    assert("\\\\"@ =~= seq!['\\', '\\']);
    assert("'\\''"@ =~= seq!['\'', '\\', '\'', '\'']);
    assert(apple_quoted(text).drop_last() =~= "'"@ + twice);
    if text.len() == 0 {
        assert(once =~= Seq::<char>::empty());
        assert(twice =~= Seq::<char>::empty());
        assert(apple_quoted(text) =~= seq!['\'', '\'']);
    }
    assert(text.push(c) =~= text + seq![c]);
    assert(text.push('\\') =~= text + seq!['\\']);
    assert(text.push('\'') =~= text + seq!['\'']);
    crate::text::law_replacing_goes_piece_by_piece(text, seq![c], '\\', "\\\\"@);
    crate::text::law_replacing_goes_piece_by_piece(text, seq!['\\'], '\\', "\\\\"@);
    crate::text::law_replacing_goes_piece_by_piece(text, seq!['\''], '\\', "\\\\"@);
    crate::text::law_replacing_goes_piece_by_piece(once, seq![c], '\'', "'\\''"@);
    crate::text::law_replacing_goes_piece_by_piece(once, seq!['\'' ], '\'', "'\\''"@);
    crate::text::law_replacing_goes_piece_by_piece(once, seq!['\\', '\\'], '\'', "'\\''"@);
    crate::text::law_replacing_goes_piece_by_piece(seq!['\\'], seq!['\\'], '\'', "'\\''"@);
    crate::text::law_replacing_goes_piece_by_piece(Seq::empty(), seq!['\\'], '\'', "'\\''"@);
    assert(seq!['\\', '\\'] =~= seq!['\\'] + seq!['\\']);
    if c != '\\' && c != '\'' {
        assert(apple_quoted(text.push(c)) =~= apple_quoted(text).drop_last() + seq![c, '\'']);
    }
    assert(apple_quoted(text.push('\\')) =~= apple_quoted(text).drop_last() + seq![
        '\\',
        '\\',
        '\'',
    ]);
    assert(apple_quoted(text.push('\'')) =~= apple_quoted(text).drop_last() + seq![
        '\'',
        '\\',
        '\'',
        '\'',
        '\'',
    ]);
}

/// A status that is shown says exactly its text.
pub proof fn law_statuses_say_their_text(status: String, text: Seq<char>)
    ensures
        says(Some(status), text) <==> status@ == text,
        !says(None, text),
{
}

/// A session that was connected before and is down is tried again two and a half seconds later,
/// three times at most, and only where the user wants this. Nothing is done while it runs.
pub proof fn law_lost_sessions_are_tried_again(
    before: ReconnectState,
    auto: bool,
    now: u64,
    after: ReconnectState,
    r: bool,
)
    requires
        before.configured,
        before.ever_connected,
        before.due is None,
        now + 2500 <= u64::MAX,
        reconnects(before, false, false, auto, now, after, r),
    ensures
        !r,
        after.attempts == before.attempts,
        auto && before.attempts < 3 ==> after.due == Some((now + 2500) as u64) && says(
            after.status,
            "连接已断开，即将自动重连…"@,
        ),
        !auto || before.attempts >= 3 ==> after.due is None,
        before.attempts >= 3 ==> says(after.status, "自动重连失败，可手动重连"@),
        !auto && before.attempts < 3 ==> after.status == before.status,
        after.dismissed == before.dismissed,
{
}

/// A session that is due is connected when its time has come and not before: that counts as one
/// more attempt, and a dismissed notice comes back.
pub proof fn law_due_sessions_are_connected(
    before: ReconnectState,
    due: u64,
    auto: bool,
    now: u64,
    after: ReconnectState,
    r: bool,
)
    requires
        before.configured,
        before.due == Some(due),
        reconnects(before, false, false, auto, now, after, r),
    ensures
        r <==> now >= due,
        r ==> after.attempts == before.attempts + 1 && after.due is None && !after.dismissed
            && says(after.status, "正在重连（第 "@ + decimal(after.attempts as nat) + " 次）…"@),
        !r ==> after.attempts == before.attempts && after.due == before.due && after.dismissed
            == before.dismissed && after.status == before.status,
        after.ever_connected == before.ever_connected,
{
}

/// Once a session is connected the attempts are forgotten. While it runs, and while it was never
/// connected, nothing is tried; a session that cannot be connected again is left alone.
pub proof fn law_connected_sessions_are_left_alone(
    before: ReconnectState,
    connected: bool,
    running: bool,
    auto: bool,
    now: u64,
    after: ReconnectState,
    r: bool,
)
    requires
        reconnects(before, connected, running, auto, now, after, r),
    ensures
        !before.configured ==> !r && after == before,
        running ==> !r,
        connected ==> !r,
        before.configured && connected ==> after.ever_connected,
        before.configured && connected && running ==> after.attempts == 0 && after.due is None,
        before.configured && connected && running && (before.attempts > 0 || before.due is Some)
            ==> !after.dismissed && says(after.status, "SSH 已重连"@),
        before.configured && running && (!connected || before.attempts == 0 && before.due is None)
            ==> after.attempts == before.attempts && after.due == before.due && after.dismissed
            == before.dismissed && after.status == before.status,
        !connected && !before.ever_connected && before.due is None ==> !r && after.due is None
            && !after.ever_connected,
{
}

/// A command is watched from when it is first seen in the foreground until the shell is back there.
/// What is said of it comes then, if it ran for five seconds and may be told of, and the tab is
/// marked.
pub proof fn law_commands_are_watched_to_their_end(
    before: CommandWatch,
    foreground: Option<u32>,
    shell: Option<u32>,
    command: Option<String>,
    now: u64,
    tell: bool,
    after: CommandWatch,
    r: Option<String>,
)
    requires
        before.before(now),
        probed(before, foreground, shell, command, now, tell, after, r),
    ensures
        after.last_probe == Some(now),
        foreground is None || foreground == shell ==> after.running is None,
        foreground is Some && foreground != shell && before.running is Some ==> r is None
            && after.running == before.running,
        foreground is Some && foreground != shell && before.running is None ==> r is None
            && after.running == Some(
            ForegroundTrack { pid: foreground->Some_0, started: now, command },
        ),
        before.running is None ==> r is None,
        (foreground is None || foreground == shell) && before.running is Some ==> (r is Some <==> (
        tell && now >= before.running->Some_0.started + 5000)),
        r is Some ==> r->Some_0@ == ended_message(before.running->Some_0, now)
            && after.notify_pending,
        r is None ==> after.notify_pending == before.notify_pending,
{
}

/// A state is named by whether the session runs; one that has exited says its code, and minus one
/// where there is none.
pub proof fn law_states_are_named(code: i32)
    ensures
        lifecycle_name(TerminalLifecycle::Running) == "运行中"@,
        lifecycle_name(TerminalLifecycle::Closed) == "已关闭"@,
        code >= 0 ==> lifecycle_name(TerminalLifecycle::Exited(Some(code))) == "已退出（代码 "@
            + decimal(code as nat) + "）"@,
        code < 0 ==> lifecycle_name(TerminalLifecycle::Exited(Some(code))) == "已退出（代码 "@ + (seq![
            '-',
        ] + decimal((-code) as nat)) + "）"@,
        lifecycle_name(TerminalLifecycle::Exited(None)) == lifecycle_name(
            TerminalLifecycle::Exited(Some(-1i32)),
        ),
{
    reveal_strlit("-");
    assert("-"@ =~= seq!['-']);
}

/// The status line says the kind, the title and the state of the session, the size and the place of
/// the view, and the size of the font, with dots between; the notes follow.
pub proof fn law_status_line_is_put_together(status: SessionStatus, notes: StatusNotes)
    ensures
        ({
            let dot = seq![' ', '·', ' '];
            let title = match status.title {
                Some(title) => title@,
                None => seq!['z', 's', 'h'],
            };
            let size = decimal(notes.cols as nat) + seq!['x'] + decimal(notes.rows as nat);
            let place = "滚动 "@ + decimal(notes.display_offset as nat);
            let font = notes.font_points@ + seq!['p', 't'];
            status_text(status, notes) == kind_name(status.kind) + dot + title + dot
                + lifecycle_name(status.lifecycle) + dot + size + dot + place + dot + font
                + transfer_note(notes) + note(notes.keychain_status) + note(notes.reconnect_status)
        }),
        notes.trzsz_active ==> transfer_note(notes) == seq![' ', '·', ' '] + "Trzsz 传输中…"@,
        !notes.trzsz_active ==> transfer_note(notes) == note(notes.trzsz_status),
{
    reveal_strlit(" · ");
    reveal_strlit("zsh");
    reveal_strlit("x");
    reveal_strlit("pt");
    reveal_strlit("滚动 ");
    reveal_strlit(" · 滚动 ");
    reveal_strlit("Trzsz 传输中…");
    reveal_strlit(" · Trzsz 传输中…");
    let dot = seq![' ', '·', ' '];
    assert(" · "@ =~= dot);
    assert("zsh"@ =~= seq!['z', 's', 'h']);
    assert("x"@ =~= seq!['x']);
    assert("pt"@ =~= seq!['p', 't']);
    assert(" · 滚动 "@ =~= dot + "滚动 "@);
    assert(" · Trzsz 传输中…"@ =~= dot + "Trzsz 传输中…"@);
    let title = match status.title {
        Some(title) => title@,
        None => seq!['z', 's', 'h'],
    };
    let size = decimal(notes.cols as nat) + seq!['x'] + decimal(notes.rows as nat);
    let place = "滚动 "@ + decimal(notes.display_offset as nat);
    let font = notes.font_points@ + seq!['p', 't'];
    assert(status_text(status, notes) =~= kind_name(status.kind) + dot + title + dot
        + lifecycle_name(status.lifecycle) + dot + size + dot + place + dot + font + transfer_note(
        notes,
    ) + note(notes.keychain_status) + note(notes.reconnect_status));
}

/// The label of a local session begins with what it is. A bell and a space come before the label of
/// a tab with news, and the marks of remote sessions behind a space.
pub proof fn law_marks_of_labels(status: SessionStatus, base: Seq<char>, custom: Option<String>)
    ensures
        tab_label(status, base, custom, true) == seq!['🔔', ' '] + tab_label(
            status,
            base,
            custom,
            false,
        ),
        status.kind == TerminalSessionKind::LocalPty && status.title is None ==> session_label(
            status,
            base,
        ) == seq!['本', '地', ' ', '·', ' ', 'z', 's', 'h'],
        status.kind == TerminalSessionKind::LocalPty && status.title is Some ==> session_label(
            status,
            base,
        ) == seq!['本', '地', ' ', '·', ' '] + status.title->Some_0@,
        status.kind != TerminalSessionKind::LocalPty && !(status.lifecycle is Running)
            && status.title is None ==> session_label(status, base) == base + seq![' ', '✗'],
        status.kind != TerminalSessionKind::LocalPty && status.lifecycle is Running && status.title
            is None ==> session_label(status, base) == base + seq![' ', '…'],
{
    reveal_strlit("🔔 ");
    reveal_strlit("本地 · ");
    reveal_strlit("zsh");
    reveal_strlit(" ✗");
    reveal_strlit(" …");
    assert("🔔 "@ =~= seq!['🔔', ' ']);
    assert("本地 · "@ =~= seq!['本', '地', ' ', '·', ' ']);
    assert("本地 · "@ + "zsh"@ =~= seq!['本', '地', ' ', '·', ' ', 'z', 's', 'h']);
    assert(" ✗"@ =~= seq![' ', '✗']);
    assert(" …"@ =~= seq![' ', '…']);
}

/// What is said of a command that has ended is its name, or its process where it has none, cut
/// after sixty characters, and for how many whole seconds it ran.
pub proof fn law_ended_commands_say_their_time(track: ForegroundTrack, now: u64, seconds: nat)
    requires
        seconds * 1000 <= now - track.started < seconds * 1000 + 1000,
    ensures
        track.command matches Some(command) ==> (command@.len() <= 60 ==> ended_message(track, now)
            == command@ + seq!['（'] + decimal(seconds) + seq![' ', '秒', '）']),
        track.command matches Some(command) ==> (command@.len() >= 60 ==> ended_message(track, now)
            == command@.take(60) + seq!['（'] + decimal(seconds) + seq![' ', '秒', '）']),
        track.command is None ==> command_name(track) == seq!['p', 'i', 'd', ' '] + decimal(
            track.pid as nat,
        ),
{
    reveal_strlit("（");
    reveal_strlit(" 秒）");
    reveal_strlit("pid ");
    assert("（"@ =~= seq!['（']);
    assert(" 秒）"@ =~= seq![' ', '秒', '）']);
    assert("pid "@ =~= seq!['p', 'i', 'd', ' ']);
    if track.command is Some {
        let command = track.command->Some_0@;
        assert(command.len() == 60 ==> command.take(60) =~= command);
    }
    assert((now - track.started) / 1000 == seconds);
}

} // verus!
