//! The settings of the application and what the settings window does to them.

use crate::paths::LocalPath;
use crate::text::{concat2, concat3, join, joined, texts};
use vstd::prelude::*;

verus! {

#[derive(Clone, Copy, Debug, PartialEq, Eq, Structural)]
pub enum ThemeChoice {
    Dark,
    Light,
}

impl ThemeChoice {
    pub fn label(self) -> (r: &'static str)
        ensures
            r@ == (match self {
                ThemeChoice::Dark => "深色"@,
                ThemeChoice::Light => "浅色"@,
            }),
    {
        match self {
            ThemeChoice::Dark => "深色",
            ThemeChoice::Light => "浅色",
        }
    }
}

/// A page of the settings window.
#[derive(Clone, Copy, Debug, PartialEq, Eq, Structural)]
pub enum SettingsPage {
    General,
    Appearance,
    Terminal,
}

/// A part of the page on terminals.
#[derive(Clone, Copy, Debug, PartialEq, Eq, Structural)]
pub enum TerminalSub {
    Display,
    Input,
    Local,
    CommandBar,
    Awareness,
    Transfer,
    Highlight,
}

impl Default for TerminalSub {
    fn default() -> (r: Self)
        ensures
            r == TerminalSub::Display,
    {
        TerminalSub::Display
    }
}

impl TerminalSub {
    pub open spec fn name(self) -> Seq<char> {
        match self {
            TerminalSub::Display => "显示"@,
            TerminalSub::Input => "输入"@,
            TerminalSub::Local => "本地"@,
            TerminalSub::CommandBar => "命令行"@,
            TerminalSub::Awareness => "感知与集成"@,
            TerminalSub::Transfer => "传输"@,
            TerminalSub::Highlight => "高亮"@,
        }
    }

    pub fn label(self) -> (r: &'static str)
        ensures
            r@ == self.name(),
    {
        match self {
            TerminalSub::Display => "显示",
            TerminalSub::Input => "输入",
            TerminalSub::Local => "本地",
            TerminalSub::CommandBar => "命令行",
            TerminalSub::Awareness => "感知与集成",
            TerminalSub::Transfer => "传输",
            TerminalSub::Highlight => "高亮",
        }
    }

    /// All of them, in the order in which they are offered.
    pub fn all() -> (r: Vec<Self>)
        ensures
            r@ == seq![
                TerminalSub::Display,
                TerminalSub::Input,
                TerminalSub::Local,
                TerminalSub::CommandBar,
                TerminalSub::Awareness,
                TerminalSub::Transfer,
                TerminalSub::Highlight,
            ],
    {
        let list = vec![
            TerminalSub::Display,
            TerminalSub::Input,
            TerminalSub::Local,
            TerminalSub::CommandBar,
            TerminalSub::Awareness,
            TerminalSub::Transfer,
            TerminalSub::Highlight
        ];
        assert(list@ =~= seq![
            TerminalSub::Display,
            TerminalSub::Input,
            TerminalSub::Local,
            TerminalSub::CommandBar,
            TerminalSub::Awareness,
            TerminalSub::Transfer,
            TerminalSub::Highlight,
        ]);
        list
    }
}

/// How a cursor looks by default.
#[derive(Clone, Copy, Debug, PartialEq, Eq, Structural)]
pub enum CursorStyleChoice {
    Block,
    Underline,
    Beam,
}

impl Default for CursorStyleChoice {
    fn default() -> (r: Self)
        ensures
            r == CursorStyleChoice::Block,
    {
        CursorStyleChoice::Block
    }
}

impl CursorStyleChoice {
    pub open spec fn name(self) -> Seq<char> {
        match self {
            CursorStyleChoice::Block => "方块 ▮"@,
            CursorStyleChoice::Underline => "下划线 _"@,
            CursorStyleChoice::Beam => "竖线 |"@,
        }
    }

    pub fn label(self) -> (r: &'static str)
        ensures
            r@ == self.name(),
    {
        match self {
            CursorStyleChoice::Block => "方块 ▮",
            CursorStyleChoice::Underline => "下划线 _",
            CursorStyleChoice::Beam => "竖线 |",
        }
    }
}

/// What the backspace key sends.
#[derive(Clone, Copy, Debug, PartialEq, Eq, Structural)]
pub enum BackspaceSequence {
    Delete,
    ControlH,
}

impl Default for BackspaceSequence {
    fn default() -> (r: Self)
        ensures
            r == BackspaceSequence::Delete,
    {
        BackspaceSequence::Delete
    }
}

impl BackspaceSequence {
    pub open spec fn name(self) -> Seq<char> {
        match self {
            BackspaceSequence::Delete => "DEL (0x7F)"@,
            BackspaceSequence::ControlH => "Backspace (0x08)"@,
        }
    }

    pub fn label(self) -> (r: &'static str)
        ensures
            r@ == self.name(),
    {
        match self {
            BackspaceSequence::Delete => "DEL (0x7F)",
            BackspaceSequence::ControlH => "Backspace (0x08)",
        }
    }
}

impl BackspaceSequence {
    pub fn bytes(self) -> (r: Vec<u8>)
        ensures
            r@ == (match self {
                BackspaceSequence::Delete => seq![0x7fu8],
                BackspaceSequence::ControlH => seq![0x08u8],
            }),
    {
        match self {
            BackspaceSequence::Delete => vec![0x7f],
            BackspaceSequence::ControlH => vec![0x08],
        }
    }
}

/// What the delete key sends.
#[derive(Clone, Copy, Debug, PartialEq, Eq, Structural)]
pub enum DeleteSequence {
    Csi3Tilde,
    Delete,
    ControlH,
}

impl Default for DeleteSequence {
    fn default() -> (r: Self)
        ensures
            r == DeleteSequence::Csi3Tilde,
    {
        DeleteSequence::Csi3Tilde
    }
}

impl DeleteSequence {
    pub open spec fn name(self) -> Seq<char> {
        match self {
            DeleteSequence::Csi3Tilde => "CSI 3 ~ (\\x1b[3~)"@,
            DeleteSequence::Delete => "DEL (0x7F)"@,
            DeleteSequence::ControlH => "Backspace (0x08)"@,
        }
    }

    pub fn label(self) -> (r: &'static str)
        ensures
            r@ == self.name(),
    {
        match self {
            DeleteSequence::Csi3Tilde => "CSI 3 ~ (\\x1b[3~)",
            DeleteSequence::Delete => "DEL (0x7F)",
            DeleteSequence::ControlH => "Backspace (0x08)",
        }
    }
}

impl DeleteSequence {
    pub fn bytes(self) -> (r: Vec<u8>)
        ensures
            r@ == (match self {
                DeleteSequence::Csi3Tilde => seq![0x1bu8, 0x5b, 0x33, 0x7e],
                DeleteSequence::Delete => seq![0x7fu8],
                DeleteSequence::ControlH => seq![0x08u8],
            }),
    {
        match self {
            DeleteSequence::Csi3Tilde => vec![0x1b, 0x5b, 0x33, 0x7e],
            DeleteSequence::Delete => vec![0x7f],
            DeleteSequence::ControlH => vec![0x08],
        }
    }
}

/// The character set of a terminal.
#[derive(Clone, Copy, Debug, PartialEq, Eq, Structural)]
pub enum EncodingChoice {
    Utf8,
    Gbk,
    Gb18030,
    Big5,
    ShiftJis,
    EucJp,
    EucKr,
    Windows1252,
}

impl Default for EncodingChoice {
    fn default() -> (r: Self)
        ensures
            r == EncodingChoice::Utf8,
    {
        EncodingChoice::Utf8
    }
}

impl EncodingChoice {
    pub open spec fn name(self) -> Seq<char> {
        match self {
            EncodingChoice::Utf8 => "UTF-8"@,
            EncodingChoice::Gbk => "GBK"@,
            EncodingChoice::Gb18030 => "GB18030"@,
            EncodingChoice::Big5 => "Big5"@,
            EncodingChoice::ShiftJis => "Shift_JIS"@,
            EncodingChoice::EucJp => "EUC-JP"@,
            EncodingChoice::EucKr => "EUC-KR"@,
            EncodingChoice::Windows1252 => "Windows-1252"@,
        }
    }

    pub fn label(self) -> (r: &'static str)
        ensures
            r@ == self.name(),
    {
        match self {
            EncodingChoice::Utf8 => "UTF-8",
            EncodingChoice::Gbk => "GBK",
            EncodingChoice::Gb18030 => "GB18030",
            EncodingChoice::Big5 => "Big5",
            EncodingChoice::ShiftJis => "Shift_JIS",
            EncodingChoice::EucJp => "EUC-JP",
            EncodingChoice::EucKr => "EUC-KR",
            EncodingChoice::Windows1252 => "Windows-1252",
        }
    }

    /// All of them, in the order in which they are offered.
    pub fn all() -> (r: Vec<Self>)
        ensures
            r@ == seq![
                EncodingChoice::Utf8,
                EncodingChoice::Gbk,
                EncodingChoice::Gb18030,
                EncodingChoice::Big5,
                EncodingChoice::ShiftJis,
                EncodingChoice::EucJp,
                EncodingChoice::EucKr,
                EncodingChoice::Windows1252,
            ],
    {
        let list = vec![
            EncodingChoice::Utf8,
            EncodingChoice::Gbk,
            EncodingChoice::Gb18030,
            EncodingChoice::Big5,
            EncodingChoice::ShiftJis,
            EncodingChoice::EucJp,
            EncodingChoice::EucKr,
            EncodingChoice::Windows1252
        ];
        assert(list@ =~= seq![
            EncodingChoice::Utf8,
            EncodingChoice::Gbk,
            EncodingChoice::Gb18030,
            EncodingChoice::Big5,
            EncodingChoice::ShiftJis,
            EncodingChoice::EucJp,
            EncodingChoice::EucKr,
            EncodingChoice::Windows1252,
        ]);
        list
    }
}

/// The colours of a session.
#[derive(Clone, Copy, Debug, PartialEq, Eq, Structural)]
pub enum ThemePresetChoice {
    Default,
    Dracula,
    HighContrast,
}

impl Default for ThemePresetChoice {
    fn default() -> (r: Self)
        ensures
            r == ThemePresetChoice::Default,
    {
        ThemePresetChoice::Default
    }
}

impl ThemePresetChoice {
    pub open spec fn name(self) -> Seq<char> {
        match self {
            ThemePresetChoice::Default => "默认"@,
            ThemePresetChoice::Dracula => "Dracula"@,
            ThemePresetChoice::HighContrast => "高对比"@,
        }
    }

    pub fn label(self) -> (r: &'static str)
        ensures
            r@ == self.name(),
    {
        match self {
            ThemePresetChoice::Default => "默认",
            ThemePresetChoice::Dracula => "Dracula",
            ThemePresetChoice::HighContrast => "高对比",
        }
    }

    /// All of them, in the order in which they are offered.
    pub fn all() -> (r: Vec<Self>)
        ensures
            r@ == seq![
                ThemePresetChoice::Dracula,
                ThemePresetChoice::Default,
                ThemePresetChoice::HighContrast,
            ],
    {
        let list = vec![
            ThemePresetChoice::Dracula,
            ThemePresetChoice::Default,
            ThemePresetChoice::HighContrast
        ];
        assert(list@ =~= seq![
            ThemePresetChoice::Dracula,
            ThemePresetChoice::Default,
            ThemePresetChoice::HighContrast,
        ]);
        list
    }
}

/// The settings, but for those that are fractions.
#[derive(Clone, Debug, PartialEq, Eq)]
pub struct AppSettings {
    pub theme: ThemeChoice,
    pub transparent_window: bool,
    pub terminal_font_path: Option<String>,
    pub scrollback_lines: usize,
    pub cursor_style: CursorStyleChoice,
    pub backspace_sequence: BackspaceSequence,
    pub delete_sequence: DeleteSequence,
    pub terminal_encoding: EncodingChoice,
    pub terminal_theme: ThemePresetChoice,
    pub copy_on_select: bool,
    pub middle_click_paste: bool,
    pub ssh_auto_reconnect: bool,
    pub notify_on_long_command: bool,
    pub ssh_shell_colors: bool,
    pub sftp_sync_cwd: bool,
    pub check_updates: bool,
    pub ignored_update_version: Option<String>,
    pub github_proxies: String,
}

pub fn default_true() -> (r: bool)
    ensures
        r,
{
    true
}

pub fn default_scrollback() -> (r: usize)
    ensures
        r == 1000,
{
    1000
}

/// The proxies that are tried by default.
pub open spec fn default_proxies() -> Seq<Seq<char>> {
    seq![
        "https://gh.dpik.top/"@,
        "https://ghfast.top/"@,
        "https://gh-proxy.com/"@,
        "https://ghproxy.net/"@,
        "https://gh-proxy.net/"@,
        "https://github.tbap.top/"@,
        "https://gh.ddlc.top/"@,
        "https://gitproxy.click/"@,
    ]
}

pub fn default_github_proxies() -> (r: String)
    ensures
        r@ == joined(default_proxies(), ","@),
{
    let list = vec![
        "https://gh.dpik.top/".to_owned(),
        "https://ghfast.top/".to_owned(),
        "https://gh-proxy.com/".to_owned(),
        "https://ghproxy.net/".to_owned(),
        "https://gh-proxy.net/".to_owned(),
        "https://github.tbap.top/".to_owned(),
        "https://gh.ddlc.top/".to_owned(),
        "https://gitproxy.click/".to_owned()
    ];
    assert(texts(list@) =~= default_proxies());
    join(list.as_slice(), ",")
}

impl AppSettings {
    pub open spec fn is_default(self) -> bool {
        &&& self.theme == ThemeChoice::Light && !self.transparent_window
        &&& self.terminal_font_path is None && self.scrollback_lines == 1000
        &&& self.cursor_style == CursorStyleChoice::Block
        &&& self.backspace_sequence == BackspaceSequence::Delete
        &&& self.delete_sequence == DeleteSequence::Csi3Tilde
        &&& self.terminal_encoding == EncodingChoice::Utf8
        &&& self.terminal_theme == ThemePresetChoice::Default
        &&& !self.copy_on_select && self.middle_click_paste && self.ssh_auto_reconnect
        &&& self.notify_on_long_command && self.ssh_shell_colors && self.sftp_sync_cwd
        &&& self.check_updates && self.ignored_update_version is None
        &&& self.github_proxies@ == joined(default_proxies(), ","@)
    }
}

impl Default for AppSettings {
    fn default() -> (r: Self)
        ensures
            r.is_default(),
    {
        AppSettings {
            theme: ThemeChoice::Light,
            transparent_window: false,
            terminal_font_path: None,
            scrollback_lines: default_scrollback(),
            cursor_style: CursorStyleChoice::Block,
            backspace_sequence: BackspaceSequence::Delete,
            delete_sequence: DeleteSequence::Csi3Tilde,
            terminal_encoding: EncodingChoice::Utf8,
            terminal_theme: ThemePresetChoice::Default,
            copy_on_select: false,
            middle_click_paste: true,
            ssh_auto_reconnect: true,
            notify_on_long_command: true,
            ssh_shell_colors: true,
            sftp_sync_cwd: default_true(),
            check_updates: default_true(),
            ignored_update_version: None,
            github_proxies: default_github_proxies(),
        }
    }
}

/// A file of the user's data, below the home directory where there is one.
pub open spec fn data_path(home: Option<LocalPath>, name: Seq<char>) -> Seq<Seq<char>> {
    match home {
        Some(home) => home@ + seq![".hapcli"@, name],
        None => seq![name],
    }
}

pub fn data_file(home: &Option<LocalPath>, name: &str) -> (r: LocalPath)
    ensures
        r@ == data_path(*home, name@),
{
    match home {
        Some(home) => {
            let mut path = home.duplicate();
            let ghost before = path.components@;
            path.components.push(".hapcli".to_owned());
            path.components.push(name.to_owned());
            assert(path@ =~= texts(before) + seq![".hapcli"@, name@]);
            path
        },
        None => {
            let mut components: Vec<String> = Vec::new();
            components.push(name.to_owned());
            let path = LocalPath { components };
            assert(path@ =~= seq![name@]);
            path
        },
    }
}

pub fn settings_path(home: &Option<LocalPath>) -> (r: LocalPath)
    ensures
        r@ == data_path(*home, "settings.json"@),
{
    data_file(home, "settings.json")
}

/// The settings that were read; what cannot be read counts as the defaults.
pub fn load_settings(read: Option<AppSettings>) -> (r: AppSettings)
    ensures
        match read {
            Some(settings) => r == settings,
            None => r.is_default(),
        },
{
    match read {
        Some(settings) => settings,
        None => AppSettings::default(),
    }
}

/// The directory to create before settings are saved in a file.
pub fn settings_directory(path: &LocalPath) -> (r: Result<LocalPath, String>)
    ensures
        match r {
            Ok(directory) => crate::paths::parent_of(path@) == Some(directory@),
            Err(message) => crate::paths::parent_of(path@) is None && message@ == "无效的设置路径"@,
        },
{
    match path.parent() {
        Some(directory) => Ok(directory),
        None => Err("无效的设置路径".to_owned()),
    }
}

#[derive(Clone, Copy, Debug, PartialEq, Eq, Structural)]
pub enum Platform {
    MacOs,
    Windows,
    Other,
}

pub fn platform_default_font_label(platform: Platform) -> (r: &'static str)
    ensures
        r@ == default_font(platform),
{
    match platform {
        Platform::MacOs => "Monaco",
        Platform::Windows => "Consolas",
        Platform::Other => "DejaVu Sans Mono",
    }
}

pub open spec fn default_font(platform: Platform) -> Seq<char> {
    match platform {
        Platform::MacOs => "Monaco"@,
        Platform::Windows => "Consolas"@,
        Platform::Other => "DejaVu Sans Mono"@,
    }
}

/// What is said of the font in use.
pub fn font_label(custom_loaded: bool, platform: Platform) -> (r: String)
    ensures
        r@ == (if custom_loaded {
            "自定义字体已加载"@
        } else {
            "默认 ("@ + default_font(platform) + ")"@
        }),
{
    if custom_loaded {
        "自定义字体已加载".to_owned()
    } else {
        concat3("默认 (", platform_default_font_label(platform), ")")
    }
}

/// A setting that is on or off.
#[derive(Clone, Copy, Debug, PartialEq, Eq, Structural)]
pub enum SettingsFlag {
    CopyOnSelect,
    MiddleClickPaste,
    AutoReconnect,
    Notify,
    ShellColors,
    SyncCwd,
    CheckUpdates,
}

pub open spec fn with_flag(settings: AppSettings, flag: SettingsFlag, on: bool) -> AppSettings {
    match flag {
        SettingsFlag::CopyOnSelect => AppSettings { copy_on_select: on, ..settings },
        SettingsFlag::MiddleClickPaste => AppSettings { middle_click_paste: on, ..settings },
        SettingsFlag::AutoReconnect => AppSettings { ssh_auto_reconnect: on, ..settings },
        SettingsFlag::Notify => AppSettings { notify_on_long_command: on, ..settings },
        SettingsFlag::ShellColors => AppSettings { ssh_shell_colors: on, ..settings },
        SettingsFlag::SyncCwd => AppSettings { sftp_sync_cwd: on, ..settings },
        SettingsFlag::CheckUpdates => AppSettings { check_updates: on, ..settings },
    }
}

fn set_flag(settings: &mut AppSettings, flag: SettingsFlag, on: bool)
    ensures
        *final(settings) == with_flag(*old(settings), flag, on),
{
    match flag {
        SettingsFlag::CopyOnSelect => {
            settings.copy_on_select = on;
        },
        SettingsFlag::MiddleClickPaste => {
            settings.middle_click_paste = on;
        },
        SettingsFlag::AutoReconnect => {
            settings.ssh_auto_reconnect = on;
        },
        SettingsFlag::Notify => {
            settings.notify_on_long_command = on;
        },
        SettingsFlag::ShellColors => {
            settings.ssh_shell_colors = on;
        },
        SettingsFlag::SyncCwd => {
            settings.sftp_sync_cwd = on;
        },
        SettingsFlag::CheckUpdates => {
            settings.check_updates = on;
        },
    }
}

/// What the user does in the settings window.
pub enum SettingsEvent {
    ChooseTheme(ThemeChoice),
    SetTransparent(bool),
    /// A font file was picked.
    PickFont(String),
    ClearFont,
    SetFlag { flag: SettingsFlag, on: bool },
    EditProxies(String),
    RestoreProxies,
    RestoreIgnoredVersion,
    Reset,
    /// Saving was tried.
    Saved(Result<(), String>),
    Close,
}

/// What follows from it.
#[derive(Clone, Copy, Debug, PartialEq, Eq, Structural)]
pub enum SettingsEffect {
    Nothing,
    /// The fonts are to be loaded anew.
    InstallFonts,
    /// The window becomes transparent or opaque.
    SetWindowTransparent(bool),
    /// The fonts are to be loaded anew and the window becomes opaque.
    ResetAll,
}

/// The settings window.
pub struct SettingsPanel {
    pub settings: AppSettings,
    pub error: Option<String>,
    pub show: bool,
}

/// What an event leaves of the settings.
pub open spec fn is_changed(after: AppSettings, before: AppSettings, event: SettingsEvent) -> bool {
    match event {
        SettingsEvent::ChooseTheme(theme) => after == (AppSettings { theme, ..before }),
        SettingsEvent::SetTransparent(on) => after == (AppSettings {
            transparent_window: on,
            ..before
        }),
        SettingsEvent::PickFont(path) => after == (AppSettings {
            terminal_font_path: Some(path),
            ..before
        }),
        SettingsEvent::ClearFont => after == (AppSettings { terminal_font_path: None, ..before }),
        SettingsEvent::SetFlag { flag, on } => after == with_flag(before, flag, on),
        SettingsEvent::EditProxies(text) => after == (AppSettings {
            github_proxies: text,
            ..before
        }),
        SettingsEvent::RestoreProxies => after == (AppSettings {
            github_proxies: after.github_proxies,
            ..before
        }) && after.github_proxies@ == joined(default_proxies(), ","@),
        SettingsEvent::RestoreIgnoredVersion => after == (AppSettings {
            ignored_update_version: None,
            ..before
        }),
        SettingsEvent::Reset => after.is_default(),
        SettingsEvent::Saved(_) | SettingsEvent::Close => after == before,
    }
}

pub open spec fn effect_of(before: AppSettings, event: SettingsEvent) -> SettingsEffect {
    match event {
        SettingsEvent::SetTransparent(on) => if on != before.transparent_window {
            SettingsEffect::SetWindowTransparent(on)
        } else {
            SettingsEffect::Nothing
        },
        SettingsEvent::PickFont(_) | SettingsEvent::ClearFont => SettingsEffect::InstallFonts,
        SettingsEvent::Reset => SettingsEffect::ResetAll,
        _ => SettingsEffect::Nothing,
    }
}

impl SettingsPanel {
    /// Takes up what the user does.
    pub fn settings_window(&mut self, event: SettingsEvent) -> (r: SettingsEffect)
        ensures
            is_changed(final(self).settings, old(self).settings, event),
            r == effect_of(old(self).settings, event),
            final(self).show == (old(self).show && !(event is Close)),
            match event {
                SettingsEvent::Reset | SettingsEvent::Saved(Ok(_)) => final(self).error is None,
                SettingsEvent::Saved(Err(message)) => final(self).error matches Some(text) && text@
                    == "保存失败: "@ + message@,
                _ => final(self).error == old(self).error,
            },
    {
        let effect = settings_effect(&self.settings, &event);
        match &event {
            SettingsEvent::Reset => {
                self.error = None;
            },
            SettingsEvent::Saved(result) => match result {
                Ok(()) => {
                    self.error = None;
                },
                Err(message) => {
                    self.error = Some(concat2("保存失败: ", message.as_str()));
                },
            },
            SettingsEvent::Close => {
                self.show = false;
            },
            _ => {},
        }
        change_settings(&mut self.settings, event);
        effect
    }
}

fn settings_effect(settings: &AppSettings, event: &SettingsEvent) -> (r: SettingsEffect)
    ensures
        r == effect_of(*settings, *event),
{
    match event {
        SettingsEvent::SetTransparent(on) => {
            if *on != settings.transparent_window {
                SettingsEffect::SetWindowTransparent(*on)
            } else {
                SettingsEffect::Nothing
            }
        },
        SettingsEvent::PickFont(_) | SettingsEvent::ClearFont => SettingsEffect::InstallFonts,
        SettingsEvent::Reset => SettingsEffect::ResetAll,
        _ => SettingsEffect::Nothing,
    }
}

fn change_settings(settings: &mut AppSettings, event: SettingsEvent)
    ensures
        is_changed(*final(settings), *old(settings), event),
{
    match event {
        SettingsEvent::ChooseTheme(theme) => {
            settings.theme = theme;
        },
        SettingsEvent::SetTransparent(on) => {
            settings.transparent_window = on;
        },
        SettingsEvent::PickFont(path) => {
            settings.terminal_font_path = Some(path);
        },
        SettingsEvent::ClearFont => {
            settings.terminal_font_path = None;
        },
        SettingsEvent::SetFlag { flag, on } => {
            set_flag(settings, flag, on);
        },
        SettingsEvent::EditProxies(text) => {
            settings.github_proxies = text;
        },
        SettingsEvent::RestoreProxies => {
            settings.github_proxies = default_github_proxies();
        },
        SettingsEvent::RestoreIgnoredVersion => {
            settings.ignored_update_version = None;
        },
        SettingsEvent::Reset => {
            *settings = AppSettings::default();
        },
        SettingsEvent::Saved(_) => {},
        SettingsEvent::Close => {},
    }
}

/// Setting a flag sets that one: it reads as it was set, and every other flag and setting is as
/// it was.
pub proof fn law_flags_are_set_one_by_one(settings: AppSettings, flag: SettingsFlag, on: bool)
    ensures
        ({
            let after = with_flag(settings, flag, on);
            &&& after.copy_on_select == (if flag == SettingsFlag::CopyOnSelect {
                on
            } else {
                settings.copy_on_select
            })
            &&& after.middle_click_paste == (if flag == SettingsFlag::MiddleClickPaste {
                on
            } else {
                settings.middle_click_paste
            })
            &&& after.ssh_auto_reconnect == (if flag == SettingsFlag::AutoReconnect {
                on
            } else {
                settings.ssh_auto_reconnect
            })
            &&& after.notify_on_long_command == (if flag == SettingsFlag::Notify {
                on
            } else {
                settings.notify_on_long_command
            })
            &&& after.ssh_shell_colors == (if flag == SettingsFlag::ShellColors {
                on
            } else {
                settings.ssh_shell_colors
            })
            &&& after.sftp_sync_cwd == (if flag == SettingsFlag::SyncCwd {
                on
            } else {
                settings.sftp_sync_cwd
            })
            &&& after.check_updates == (if flag == SettingsFlag::CheckUpdates {
                on
            } else {
                settings.check_updates
            })
            &&& after.theme == settings.theme
            &&& after.transparent_window == settings.transparent_window
            &&& after.terminal_font_path == settings.terminal_font_path
            &&& after.scrollback_lines == settings.scrollback_lines
            &&& after.cursor_style == settings.cursor_style
            &&& after.backspace_sequence == settings.backspace_sequence
            &&& after.delete_sequence == settings.delete_sequence
            &&& after.terminal_encoding == settings.terminal_encoding
            &&& after.terminal_theme == settings.terminal_theme
            &&& after.ignored_update_version == settings.ignored_update_version
            &&& after.github_proxies == settings.github_proxies
        }),
{
}

/// What the user chooses is what the settings hold; nothing else changes with it.
pub proof fn law_choices_are_kept(
    after: AppSettings,
    before: AppSettings,
    theme: ThemeChoice,
    on: bool,
    text: String,
    flag: SettingsFlag,
)
    ensures
        is_changed(after, before, SettingsEvent::ChooseTheme(theme)) ==> after.theme == theme
            && after == (AppSettings { theme: after.theme, ..before }),
        is_changed(after, before, SettingsEvent::SetTransparent(on)) ==> after.transparent_window
            == on && after == (AppSettings {
            transparent_window: after.transparent_window,
            ..before
        }),
        is_changed(after, before, SettingsEvent::PickFont(text)) ==> after.terminal_font_path
            == Some(text) && after == (AppSettings {
            terminal_font_path: after.terminal_font_path,
            ..before
        }),
        is_changed(after, before, SettingsEvent::ClearFont) ==> after.terminal_font_path is None
            && after == (AppSettings { terminal_font_path: after.terminal_font_path, ..before }),
        is_changed(after, before, SettingsEvent::EditProxies(text)) ==> after.github_proxies == text
            && after == (AppSettings { github_proxies: after.github_proxies, ..before }),
        is_changed(after, before, SettingsEvent::RestoreProxies) ==> after.github_proxies@
            == joined(default_proxies(), seq![',']) && after == (AppSettings {
            github_proxies: after.github_proxies,
            ..before
        }),
        is_changed(after, before, SettingsEvent::RestoreIgnoredVersion)
            ==> after.ignored_update_version is None && after == (AppSettings {
            ignored_update_version: after.ignored_update_version,
            ..before
        }),
        is_changed(after, before, SettingsEvent::SetFlag { flag, on }) ==> after == with_flag(
            before,
            flag,
            on,
        ),
        is_changed(after, before, SettingsEvent::Close) ==> after == before,
        is_changed(after, before, SettingsEvent::Saved(Ok(()))) ==> after == before,
        is_changed(after, before, SettingsEvent::Saved(Err(text))) ==> after == before,
        is_changed(after, before, SettingsEvent::Reset) ==> after.is_default(),
{
    reveal_strlit(",");
    assert(","@ =~= seq![',']);
}

/// What the default settings are.
pub proof fn law_defaults_are_set(settings: AppSettings)
    requires
        settings.is_default(),
    ensures
        settings.theme == ThemeChoice::Light,
        !settings.transparent_window,
        settings.terminal_font_path is None,
        settings.scrollback_lines == 1000,
        settings.cursor_style == CursorStyleChoice::Block,
        settings.backspace_sequence == BackspaceSequence::Delete,
        settings.delete_sequence == DeleteSequence::Csi3Tilde,
        settings.terminal_encoding == EncodingChoice::Utf8,
        settings.terminal_theme == ThemePresetChoice::Default,
        !settings.copy_on_select,
        settings.middle_click_paste,
        settings.ssh_auto_reconnect,
        settings.notify_on_long_command,
        settings.ssh_shell_colors,
        settings.sftp_sync_cwd,
        settings.check_updates,
        settings.ignored_update_version is None,
        settings.github_proxies@ == joined(default_proxies(), seq![',']),
{
    reveal_strlit(",");
    assert(","@ =~= seq![',']);
}

/// The proxies that are tried by default, in their order.
pub proof fn law_default_proxies_are_listed()
    ensures
        default_proxies().len() == 8,
        default_proxies()[0] == "https://gh.dpik.top/"@,
        default_proxies()[1] == "https://ghfast.top/"@,
        default_proxies()[2] == "https://gh-proxy.com/"@,
        default_proxies()[3] == "https://ghproxy.net/"@,
        default_proxies()[4] == "https://gh-proxy.net/"@,
        default_proxies()[5] == "https://github.tbap.top/"@,
        default_proxies()[6] == "https://gh.ddlc.top/"@,
        default_proxies()[7] == "https://gitproxy.click/"@,
{
}

/// The window is told of its transparency exactly when that changes, and the fonts are loaded
/// anew exactly when another font was chosen or everything was reset.
pub proof fn law_changes_take_effect(before: AppSettings, event: SettingsEvent, on: bool)
    ensures
        on != before.transparent_window ==> effect_of(before, SettingsEvent::SetTransparent(on))
            == SettingsEffect::SetWindowTransparent(on),
        on == before.transparent_window ==> effect_of(before, SettingsEvent::SetTransparent(on))
            == SettingsEffect::Nothing,
        effect_of(before, event) == SettingsEffect::InstallFonts <==> (event is PickFont
            || event is ClearFont),
        effect_of(before, event) == SettingsEffect::ResetAll <==> event is Reset,
        effect_of(before, event) is SetWindowTransparent ==> event is SetTransparent,
{
}

/// The user's data lies in one directory below home; without a home it lies where the program
/// runs.
pub proof fn law_data_lies_below_home(home: LocalPath, name: Seq<char>)
    ensures
        data_path(Some(home), name).len() == home@.len() + 2,
        data_path(Some(home), name).last() == name,
        data_path(Some(home), name).take(home@.len() as int) == home@,
        data_path(Some(home), name)[home@.len() as int] == seq!['.', 'h', 'a', 'p', 'c', 'l', 'i'],
        data_path(None, name) == seq![name],
{
    reveal_strlit(".hapcli");
    assert(".hapcli"@ =~= seq!['.', 'h', 'a', 'p', 'c', 'l', 'i']);
    assert(data_path(Some(home), name).take(home@.len() as int) =~= home@);
}

/// How the choices are named.
pub proof fn law_settings_are_named()
    ensures
        TerminalSub::Display.name() == "显示"@,
        TerminalSub::Input.name() == "输入"@,
        TerminalSub::Local.name() == "本地"@,
        TerminalSub::CommandBar.name() == "命令行"@,
        TerminalSub::Awareness.name() == "感知与集成"@,
        TerminalSub::Transfer.name() == "传输"@,
        TerminalSub::Highlight.name() == "高亮"@,
        CursorStyleChoice::Block.name() == "方块 ▮"@,
        CursorStyleChoice::Underline.name() == "下划线 _"@,
        CursorStyleChoice::Beam.name() == "竖线 |"@,
        BackspaceSequence::Delete.name() == "DEL (0x7F)"@,
        BackspaceSequence::ControlH.name() == "Backspace (0x08)"@,
        DeleteSequence::Csi3Tilde.name() == "CSI 3 ~ (\\x1b[3~)"@,
        DeleteSequence::Delete.name() == "DEL (0x7F)"@,
        DeleteSequence::ControlH.name() == "Backspace (0x08)"@,
        EncodingChoice::Utf8.name() == "UTF-8"@,
        EncodingChoice::Gbk.name() == "GBK"@,
        EncodingChoice::Gb18030.name() == "GB18030"@,
        EncodingChoice::Big5.name() == "Big5"@,
        EncodingChoice::ShiftJis.name() == "Shift_JIS"@,
        EncodingChoice::EucJp.name() == "EUC-JP"@,
        EncodingChoice::EucKr.name() == "EUC-KR"@,
        EncodingChoice::Windows1252.name() == "Windows-1252"@,
        ThemePresetChoice::Default.name() == "默认"@,
        ThemePresetChoice::Dracula.name() == "Dracula"@,
        ThemePresetChoice::HighContrast.name() == "高对比"@,
        default_font(Platform::MacOs) == "Monaco"@,
        default_font(Platform::Windows) == "Consolas"@,
        default_font(Platform::Other) == "DejaVu Sans Mono"@,
{
}

} // verus!
