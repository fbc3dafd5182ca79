//! The tabs of the window: which one is shown, and how they open, close and are named.

use crate::desktop::forward::{ForwardCommand, ForwardCommandView, ForwardPanel, ForwardView};
use crate::desktop::input::{InputView, TerminalInput};
use crate::desktop::paint::{color, Rgba};
use crate::desktop::screen::{TerminalSearchMatch, TextSelection};
use crate::desktop::search::SearchState;
use crate::desktop::session::{ReconnectState, TerminalSessionKind};
use crate::desktop::sftp::{PanelView, SftpCommand, SftpCommandView, SftpPanelState};
use crate::json::opt_text;
use crate::text::{concat2, trim, trimmed};
use vstd::prelude::*;
use vstd::string::*;

verus! {

/// What the panel at the right of a terminal shows.
#[derive(Clone, Copy, Debug, PartialEq, Eq, Structural)]
pub enum RightPanelTab {
    Files,
    Quick,
    Forward,
}

/// A tab. Its session lives outside and goes by the number of the tab.
pub struct TerminalTab {
    pub id: u64,
    pub kind: TerminalSessionKind,
    pub base_label: String,
    pub custom_label: Option<String>,
    /// Whether the settings of the session are kept, so that it can be opened again.
    pub configured: bool,
    /// Whether files and ports can go through the connection of the session.
    pub connected: bool,
    pub cols: usize,
    pub rows: usize,
    /// The line that is typed, the selection, and whether the terminal or its search has the
    /// keyboard.
    pub input: TerminalInput,
    pub notify_pending: bool,
    pub right_panel: Option<RightPanelTab>,
    pub reconnect: ReconnectState,
    pub search: SearchState,
    pub sftp: Option<SftpPanelState>,
    pub sftp_prev_cwd: Option<String>,
    pub forward: Option<ForwardPanel>,
}

#[verifier::ext_equal]
pub struct ReconnectView {
    pub configured: bool,
    pub ever_connected: bool,
    pub attempts: u32,
    pub due: Option<u64>,
    pub status: Option<Seq<char>>,
    pub dismissed: bool,
}

pub open spec fn reconnect_view(state: ReconnectState) -> ReconnectView {
    ReconnectView {
        configured: state.configured,
        ever_connected: state.ever_connected,
        attempts: state.attempts,
        due: state.due,
        status: opt_text(state.status),
        dismissed: state.dismissed,
    }
}

#[verifier::ext_equal]
pub struct SearchView {
    pub query: Seq<char>,
    pub matches: Seq<TerminalSearchMatch>,
    pub current: Option<usize>,
    pub focus_requested: bool,
}

pub open spec fn search_view(state: SearchState, focus_requested: bool) -> SearchView {
    SearchView {
        query: state.query@,
        matches: state.matches@,
        current: state.current,
        focus_requested,
    }
}

/// The line and the selection of a tab.
#[verifier::ext_equal]
pub struct TypingView {
    pub line: Seq<char>,
    pub unreliable: bool,
    pub selection: Option<TextSelection>,
    pub selection_active: bool,
    pub selection_dragged: bool,
    pub drop_hovering: bool,
}

pub open spec fn typing_view(state: TerminalInput) -> TypingView {
    TypingView {
        line: state.input_line@,
        unreliable: state.input_line_unreliable,
        selection: state.selection,
        selection_active: state.selection_active,
        selection_dragged: state.selection_dragged,
        drop_hovering: state.drop_hovering,
    }
}

#[verifier::ext_equal]
pub struct TabView {
    pub id: u64,
    pub kind: TerminalSessionKind,
    pub base_label: Seq<char>,
    pub custom_label: Option<Seq<char>>,
    pub configured: bool,
    pub connected: bool,
    pub cols: usize,
    pub rows: usize,
    pub focused: bool,
    pub notify_pending: bool,
    pub right_panel: Option<RightPanelTab>,
    pub reconnect: ReconnectView,
    pub search_open: bool,
    pub search_enter_consumed: bool,
    pub search: SearchView,
    pub typing: TypingView,
    pub sftp: Option<PanelView>,
    pub sftp_prev_cwd: Option<Seq<char>>,
    pub forward: Option<ForwardView>,
}

pub open spec fn opt_panel(panel: Option<SftpPanelState>) -> Option<PanelView> {
    match panel {
        Some(panel) => Some(panel@),
        None => None,
    }
}

pub open spec fn opt_forward(panel: Option<ForwardPanel>) -> Option<ForwardView> {
    match panel {
        Some(panel) => Some(panel@),
        None => None,
    }
}

impl View for TerminalTab {
    type V = TabView;

    open spec fn view(&self) -> TabView {
        TabView {
            id: self.id,
            kind: self.kind,
            base_label: self.base_label@,
            custom_label: opt_text(self.custom_label),
            configured: self.configured,
            connected: self.connected,
            cols: self.cols,
            rows: self.rows,
            focused: self.input.focused,
            notify_pending: self.notify_pending,
            right_panel: self.right_panel,
            reconnect: reconnect_view(self.reconnect),
            search_open: self.input.search_open,
            search_enter_consumed: self.input.search_enter_consumed,
            search: search_view(self.search, self.input.search_focus_requested),
            typing: typing_view(self.input),
            sftp: opt_panel(self.sftp),
            sftp_prev_cwd: opt_text(self.sftp_prev_cwd),
            forward: opt_forward(self.forward),
        }
    }
}

pub open spec fn tab_views(tabs: Seq<TerminalTab>) -> Seq<TabView> {
    Seq::new(tabs.len(), |i: int| tabs[i]@)
}

/// What a frame of input starts from in a tab.
pub open spec fn input_start(tab: TabView) -> InputView {
    InputView {
        line: tab.typing.line,
        unreliable: tab.typing.unreliable,
        search_open: tab.search_open,
        enter_consumed: tab.search_enter_consumed,
        search_focus: tab.search.focus_requested,
        selection: tab.typing.selection,
        selection_active: tab.typing.selection_active,
        selection_dragged: tab.typing.selection_dragged,
        focused: tab.focused,
        drop_hovering: tab.typing.drop_hovering,
        done: Seq::empty(),
        writes: Seq::empty(),
        presses: Seq::empty(),
        scroll: 0,
        copy: false,
        focus_changed: false,
        submitted: None,
    }
}

/// A tab with what a frame of input came to.
pub open spec fn with_input(tab: TabView, end: InputView) -> TabView {
    TabView {
        focused: end.focused,
        search_open: end.search_open,
        search_enter_consumed: end.enter_consumed,
        search: SearchView { focus_requested: end.search_focus, ..tab.search },
        typing: TypingView {
            line: end.line,
            unreliable: end.unreliable,
            selection: end.selection,
            selection_active: end.selection_active,
            selection_dragged: end.selection_dragged,
            drop_hovering: end.drop_hovering,
        },
        ..tab
    }
}

/// A tab as it is opened.
pub open spec fn fresh_tab(
    id: u64,
    kind: TerminalSessionKind,
    base_label: Seq<char>,
    configured: bool,
    cols: usize,
    rows: usize,
) -> TabView {
    TabView {
        id,
        kind,
        base_label,
        custom_label: None,
        configured,
        connected: false,
        cols,
        rows,
        focused: false,
        notify_pending: false,
        right_panel: None,
        reconnect: ReconnectView {
            configured: configured && kind == TerminalSessionKind::SshPty,
            ever_connected: false,
            attempts: 0,
            due: None,
            status: None,
            dismissed: false,
        },
        search_open: false,
        search_enter_consumed: false,
        search: SearchView {
            query: Seq::empty(),
            matches: Seq::empty(),
            current: None,
            focus_requested: false,
        },
        typing: TypingView {
            line: Seq::empty(),
            unreliable: false,
            selection: None,
            selection_active: false,
            selection_dragged: false,
            drop_hovering: false,
        },
        sftp: None,
        sftp_prev_cwd: None,
        forward: None,
    }
}

impl TerminalTab {
    pub fn new(
        id: u64,
        kind: TerminalSessionKind,
        base_label: String,
        configured: bool,
        cols: usize,
        rows: usize,
    ) -> (r: TerminalTab)
        ensures
            r@ == fresh_tab(id, kind, base_label@, configured, cols, rows),
    {
        let r = TerminalTab {
            id,
            kind,
            base_label,
            custom_label: None,
            configured,
            connected: false,
            cols,
            rows,
            input: TerminalInput::new(),
            notify_pending: false,
            right_panel: None,
            reconnect: ReconnectState::new(configured && kind == TerminalSessionKind::SshPty),
            search: SearchState::new(),
            sftp: None,
            sftp_prev_cwd: None,
            forward: None,
        };
        proof {
            assert(r.search.query@ =~= Seq::<char>::empty());
            assert(r.search.matches@ =~= Seq::<TerminalSearchMatch>::empty());
            assert(r.input.input_line@ =~= Seq::<char>::empty());
        }
        r
    }
}

impl TerminalTab {
    /// Takes the size of the terminal; says whether its session is told of it.
    pub fn resize(&mut self, cols: usize, rows: usize) -> (r: bool)
        ensures
            r == (old(self)@.cols != cols || old(self)@.rows != rows),
            final(self)@ == (TabView { cols, rows, ..old(self)@ }),
    {
        let changed = self.cols != cols || self.rows != rows;
        self.cols = cols;
        self.rows = rows;
        changed
    }
}

/// The colours of a tab in the bar.
#[derive(Clone, Copy, Debug, PartialEq, Eq)]
pub struct TabPaint {
    pub text: Rgba,
    pub background: Rgba,
    /// The line around the tab that is shown.
    pub outline: Option<Rgba>,
    /// The lamp of the tab that is shown.
    pub lamp: Option<Rgba>,
    /// What is behind the button that closes, while the pointer is over it.
    pub close_fill: Option<Rgba>,
    pub close_text: Rgba,
}

pub open spec fn tab_paint(light: bool, selected: bool, close_hovered: bool) -> TabPaint {
    TabPaint {
        text: match (light, selected) {
            (true, true) => color(0x1c, 0x1e, 0x21, 0xff),
            (true, false) => color(0x55, 0x5c, 0x66, 0xff),
            (false, true) => color(0xec, 0xf0, 0xf4, 0xff),
            (false, false) => color(0x9a, 0xa2, 0xab, 0xff),
        },
        background: match (light, selected) {
            (true, true) => color(0xd6, 0xe2, 0xee, 0xff),
            (true, false) => color(0xf2, 0xf4, 0xf7, 0xff),
            (false, true) => color(0x2a, 0x3b, 0x4f, 0xff),
            (false, false) => color(0x16, 0x1b, 0x22, 0xff),
        },
        outline: match (light, selected) {
            (true, true) => Some(color(0x9f, 0xb4, 0xc8, 0xff)),
            (false, true) => Some(color(0x3f, 0x5f, 0x7f, 0xff)),
            _ => None,
        },
        lamp: if selected {
            Some(color(0x3f, 0xca, 0x6b, 0xff))
        } else {
            None
        },
        close_fill: match (light, close_hovered) {
            (true, true) => Some(color(0, 0, 0, 18)),
            (false, true) => Some(color(255, 255, 255, 30)),
            _ => None,
        },
        close_text: match (light, close_hovered) {
            (true, _) => color(0x3a, 0x40, 0x48, 0xff),
            (false, true) => color(255, 255, 255, 0xff),
            (false, false) => color(0x8a, 0x92, 0x9a, 0xff),
        },
    }
}

fn rgba(r: u8, g: u8, b: u8, a: u8) -> (c: Rgba)
    ensures
        c == color(r, g, b, a),
{
    Rgba { r, g, b, a }
}

/// How a tab of the bar is drawn.
pub fn draw_tab(light: bool, selected: bool, close_hovered: bool) -> (r: TabPaint)
    ensures
        r == tab_paint(light, selected, close_hovered),
{
    let text = match (light, selected) {
        (true, true) => rgba(0x1c, 0x1e, 0x21, 0xff),
        (true, false) => rgba(0x55, 0x5c, 0x66, 0xff),
        (false, true) => rgba(0xec, 0xf0, 0xf4, 0xff),
        (false, false) => rgba(0x9a, 0xa2, 0xab, 0xff),
    };
    let background = match (light, selected) {
        (true, true) => rgba(0xd6, 0xe2, 0xee, 0xff),
        (true, false) => rgba(0xf2, 0xf4, 0xf7, 0xff),
        (false, true) => rgba(0x2a, 0x3b, 0x4f, 0xff),
        (false, false) => rgba(0x16, 0x1b, 0x22, 0xff),
    };
    let outline = match (light, selected) {
        (true, true) => Some(rgba(0x9f, 0xb4, 0xc8, 0xff)),
        (false, true) => Some(rgba(0x3f, 0x5f, 0x7f, 0xff)),
        _ => None,
    };
    let lamp = if selected {
        Some(rgba(0x3f, 0xca, 0x6b, 0xff))
    } else {
        None
    };
    let close_fill = match (light, close_hovered) {
        (true, true) => Some(rgba(0, 0, 0, 18)),
        (false, true) => Some(rgba(255, 255, 255, 30)),
        _ => None,
    };
    let close_text = match (light, close_hovered) {
        (true, _) => rgba(0x3a, 0x40, 0x48, 0xff),
        (false, true) => rgba(255, 255, 255, 0xff),
        (false, false) => rgba(0x8a, 0x92, 0x9a, 0xff),
    };
    TabPaint { text, background, outline, lamp, close_fill, close_text }
}

/// The tabs in their order.
pub struct TabBar {
    pub tabs: Vec<TerminalTab>,
    pub active: usize,
    pub rename_index: Option<usize>,
    pub rename_draft: String,
    pub window_focused: bool,
}

#[verifier::ext_equal]
pub struct BarView {
    pub tabs: Seq<TabView>,
    pub active: usize,
    pub rename_index: Option<usize>,
    pub rename_draft: Seq<char>,
    pub window_focused: bool,
}

impl View for TabBar {
    type V = BarView;

    open spec fn view(&self) -> BarView {
        BarView {
            tabs: tab_views(self.tabs@),
            active: self.active,
            rename_index: self.rename_index,
            rename_draft: self.rename_draft@,
            window_focused: self.window_focused,
        }
    }
}

/// There is always a tab that is shown, and only a tab that is there is being renamed.
pub open spec fn bar_is_sound(bar: BarView) -> bool {
    &&& bar.active < bar.tabs.len()
    &&& bar.rename_index matches Some(at) ==> at < bar.tabs.len()
}

/// What a tab asks of the sessions.
#[derive(Debug)]
pub enum TabEffect {
    Shutdown(u64),
    SetFocused(u64, bool),
    /// Opens a local session.
    OpenLocal,
    /// Opens a session with the settings of another.
    OpenSame { id: u64, label: String },
    /// Takes the keyboard away from what has it.
    ReleaseKeyboard,
    Reconnect(u64),
    /// Starts the worker for files and gives it its first command.
    StartSftp { id: u64, first: SftpCommand },
    /// Starts the worker for ports and gives it its first command.
    StartForward { id: u64, first: ForwardCommand },
}

pub enum TabEffectView {
    Shutdown(u64),
    SetFocused(u64, bool),
    OpenLocal,
    OpenSame { id: u64, label: Seq<char> },
    ReleaseKeyboard,
    Reconnect(u64),
    StartSftp { id: u64, first: SftpCommandView },
    StartForward { id: u64, first: ForwardCommandView },
}

impl View for TabEffect {
    type V = TabEffectView;

    open spec fn view(&self) -> TabEffectView {
        match *self {
            TabEffect::Shutdown(id) => TabEffectView::Shutdown(id),
            TabEffect::SetFocused(id, on) => TabEffectView::SetFocused(id, on),
            TabEffect::OpenLocal => TabEffectView::OpenLocal,
            TabEffect::OpenSame { id, label } => TabEffectView::OpenSame { id, label: label@ },
            TabEffect::ReleaseKeyboard => TabEffectView::ReleaseKeyboard,
            TabEffect::Reconnect(id) => TabEffectView::Reconnect(id),
            TabEffect::StartSftp { id, first } => TabEffectView::StartSftp { id, first: first@ },
            TabEffect::StartForward { id, first } => TabEffectView::StartForward {
                id,
                first: first@,
            },
        }
    }
}

pub open spec fn effect_views(effects: Seq<TabEffect>) -> Seq<TabEffectView> {
    Seq::new(effects.len(), |i: int| effects[i]@)
}

pub fn push_effect(effects: &mut Vec<TabEffect>, effect: TabEffect)
    ensures
        effect_views(final(effects)@) == effect_views(old(effects)@).push(effect@),
{
    let ghost before = effects@;
    let ghost view = effect@;
    effects.push(effect);
    assert(effect_views(effects@) =~= effect_views(before).push(view));
}

/// The bar once a tab was chosen.
pub open spec fn activated(bar: BarView, at: usize) -> BarView {
    if at == bar.active {
        bar
    } else {
        BarView {
            active: at,
            tabs: bar.tabs.update(
                at as int,
                TabView {
                    notify_pending: false,
                    focused: bar.window_focused,
                    ..bar.tabs[at as int]
                },
            ),
            ..bar
        }
    }
}

pub open spec fn activation_effects(bar: BarView, at: usize) -> Seq<TabEffectView> {
    if at == bar.active {
        Seq::empty()
    } else {
        seq![TabEffectView::SetFocused(bar.tabs[at as int].id, bar.window_focused)]
    }
}

/// Where a position is once the tab at `gone` is closed.
pub open spec fn moved_up(at: usize, gone: usize) -> usize {
    if at > gone {
        (at - 1) as usize
    } else {
        at
    }
}

/// The bar once a tab was closed; the last tab stays.
pub open spec fn closed(bar: BarView, at: usize) -> BarView {
    if bar.tabs.len() <= 1 {
        bar
    } else {
        BarView {
            tabs: bar.tabs.remove(at as int),
            active: if bar.active >= bar.tabs.len() - 1 {
                (bar.tabs.len() - 2) as usize
            } else {
                moved_up(bar.active, at)
            },
            rename_index: match bar.rename_index {
                Some(renamed) => if renamed == at {
                    None
                } else {
                    Some(moved_up(renamed, at))
                },
                None => None,
            },
            rename_draft: if bar.rename_index == Some(at) {
                Seq::empty()
            } else {
                bar.rename_draft
            },
            ..bar
        }
    }
}

pub open spec fn close_effects(bar: BarView, at: usize) -> Seq<TabEffectView> {
    if bar.tabs.len() <= 1 {
        Seq::empty()
    } else {
        seq![TabEffectView::Shutdown(bar.tabs[at as int].id)]
    }
}

/// The bar once all other tabs were closed.
pub open spec fn others_closed(bar: BarView, keep: usize) -> BarView {
    if bar.tabs.len() <= 1 {
        bar
    } else {
        BarView {
            tabs: seq![bar.tabs[keep as int]],
            active: 0,
            rename_index: None,
            rename_draft: Seq::empty(),
            ..bar
        }
    }
}

pub open spec fn others_effects(bar: BarView, keep: usize) -> Seq<TabEffectView> {
    if bar.tabs.len() <= 1 {
        Seq::empty()
    } else {
        let rest = bar.tabs.remove(keep as int);
        Seq::new(rest.len(), |i: int| TabEffectView::Shutdown(rest[i].id))
    }
}

pub open spec fn rename_begun(bar: BarView, at: usize) -> BarView {
    BarView {
        rename_index: Some(at),
        rename_draft: match bar.tabs[at as int].custom_label {
            Some(label) => label,
            None => bar.tabs[at as int].base_label,
        },
        ..bar
    }
}

/// The session that a copy of a tab needs; a remote one without its settings cannot be copied.
pub open spec fn duplicate_effects(bar: BarView, at: usize) -> Seq<TabEffectView> {
    if at >= bar.tabs.len() {
        Seq::empty()
    } else {
        let tab = bar.tabs[at as int];
        if tab.kind == TerminalSessionKind::LocalPty {
            seq![TabEffectView::OpenLocal]
        } else if tab.configured {
            seq![TabEffectView::OpenSame { id: tab.id, label: tab.base_label + " (副本)"@ }]
        } else {
            Seq::empty()
        }
    }
}

/// The bar with one more tab, which is shown.
pub open spec fn opened(bar: BarView, tab: TabView) -> BarView {
    BarView { tabs: bar.tabs.push(tab), active: bar.tabs.len() as usize, ..bar }
}

/// What is chosen in the menu of a tab.
#[derive(Clone, Copy, Debug, PartialEq, Eq, Structural)]
pub enum TabMenuAction {
    Rename,
    Duplicate,
    Close,
    CloseOthers,
}

/// Whether the menu of a position can ask something of so many tabs. The last tab is never closed,
/// so that with one tab any position will do for closing.
pub open spec fn menu_fits(tabs: nat, at: usize, action: TabMenuAction) -> bool {
    match action {
        TabMenuAction::Rename | TabMenuAction::Duplicate => at < tabs,
        TabMenuAction::Close | TabMenuAction::CloseOthers => tabs > 1 ==> at < tabs,
    }
}

pub open spec fn menu_step(bar: BarView, at: usize, action: TabMenuAction) -> BarView {
    match action {
        TabMenuAction::Rename => rename_begun(bar, at),
        TabMenuAction::Duplicate => bar,
        TabMenuAction::Close => closed(bar, at),
        TabMenuAction::CloseOthers => others_closed(bar, at),
    }
}

pub open spec fn menu_effects(bar: BarView, at: usize, action: TabMenuAction) -> Seq<TabEffectView> {
    match action {
        TabMenuAction::Rename => Seq::empty(),
        TabMenuAction::Duplicate => duplicate_effects(bar, at),
        TabMenuAction::Close => close_effects(bar, at),
        TabMenuAction::CloseOthers => others_effects(bar, at),
    }
}

/// What is done in the window that renames a tab.
#[derive(Debug)]
pub enum RenameEvent {
    Edit(String),
    Confirm,
    Cancel,
}

/// The bar after the window that renames: an empty name gives the tab its own back.
pub open spec fn rename_step(bar: BarView, event: RenameEvent) -> BarView {
    match bar.rename_index {
        None => bar,
        Some(at) => match event {
            RenameEvent::Edit(text) => BarView { rename_draft: text@, ..bar },
            RenameEvent::Confirm => BarView {
                tabs: bar.tabs.update(
                    at as int,
                    TabView {
                        custom_label: if trimmed(bar.rename_draft).len() == 0 {
                            None
                        } else {
                            Some(trimmed(bar.rename_draft))
                        },
                        ..bar.tabs[at as int]
                    },
                ),
                rename_index: None,
                rename_draft: Seq::empty(),
                ..bar
            },
            RenameEvent::Cancel => BarView {
                rename_index: None,
                rename_draft: Seq::empty(),
                ..bar
            },
        },
    }
}

impl TabBar {
    pub open spec fn wf(&self) -> bool {
        bar_is_sound(self@)
    }

    /// A bar with its first tab.
    pub fn new(first: TerminalTab) -> (r: TabBar)
        ensures
            r.wf(),
            r@ == (BarView {
                tabs: seq![first@],
                active: 0,
                rename_index: None,
                rename_draft: Seq::empty(),
                window_focused: true,
            }),
    {
        let mut tabs: Vec<TerminalTab> = Vec::new();
        let ghost view = first@;
        tabs.push(first);
        assert(tab_views(tabs@) =~= seq![view]);
        TabBar {
            tabs,
            active: 0,
            rename_index: None,
            rename_draft: String::new(),
            window_focused: true,
        }
    }

    pub fn activate_tab(&mut self, at: usize, effects: &mut Vec<TabEffect>)
        requires
            old(self).wf(),
            at < old(self).tabs@.len(),
        ensures
            final(self).wf(),
            final(self)@ == activated(old(self)@, at),
            effect_views(final(effects)@) == effect_views(old(effects)@) + activation_effects(
                old(self)@,
                at,
            ),
    {
        let ghost told = effect_views(effects@);
        if at == self.active {
            assert(told + Seq::<TabEffectView>::empty() =~= told);
            return;
        }
        let ghost before = self.tabs@;
        let focused = self.window_focused;
        self.active = at;
        self.tabs[at].notify_pending = false;
        self.tabs[at].input.focused = focused;
        assert(tab_views(self.tabs@) =~= tab_views(before).update(
            at as int,
            TabView { notify_pending: false, focused, ..before[at as int]@ },
        ));
        let id: u64 = self.tabs[at].id;
        push_effect(effects, TabEffect::SetFocused(id, focused));
        assert(told.push(TabEffectView::SetFocused(id, focused)) =~= told + seq![
            TabEffectView::SetFocused(id, focused),
        ]);
    }

    pub fn close_tab(&mut self, at: usize, effects: &mut Vec<TabEffect>)
        requires
            old(self).wf(),
            old(self).tabs@.len() > 1 ==> at < old(self).tabs@.len(),
        ensures
            final(self).wf(),
            final(self)@ == closed(old(self)@, at),
            effect_views(final(effects)@) == effect_views(old(effects)@) + close_effects(
                old(self)@,
                at,
            ),
    {
        let ghost told = effect_views(effects@);
        if self.tabs.len() <= 1 {
            assert(told + Seq::<TabEffectView>::empty() =~= told);
            return;
        }
        let ghost before = self.tabs@;
        let gone = self.tabs.remove(at);
        assert(tab_views(self.tabs@) =~= tab_views(before).remove(at as int));
        push_effect(effects, TabEffect::Shutdown(gone.id));
        assert(told.push(TabEffectView::Shutdown(gone.id)) =~= told + seq![
            TabEffectView::Shutdown(gone.id),
        ]);
        if let Some(renamed) = self.rename_index {
            if renamed == at {
                self.rename_index = None;
                self.rename_draft = String::new();
            } else if renamed > at {
                self.rename_index = Some(renamed - 1);
            }
        }
        if self.active >= self.tabs.len() {
            self.active = self.tabs.len() - 1;
        } else if self.active > at {
            self.active = self.active - 1;
        }
    }

    pub fn close_other_tabs(&mut self, keep: usize, effects: &mut Vec<TabEffect>)
        requires
            old(self).wf(),
            old(self).tabs@.len() > 1 ==> keep < old(self).tabs@.len(),
        ensures
            final(self).wf(),
            final(self)@ == others_closed(old(self)@, keep),
            effect_views(final(effects)@) == effect_views(old(effects)@) + others_effects(
                old(self)@,
                keep,
            ),
    {
        let ghost told = effect_views(effects@);
        if self.tabs.len() <= 1 {
            assert(told + Seq::<TabEffectView>::empty() =~= told);
            return;
        }
        let ghost before = self.tabs@;
        let kept = self.tabs.remove(keep);
        let ghost rest = tab_views(before).remove(keep as int);
        assert(tab_views(self.tabs@) =~= rest);
        let ghost all = Seq::new(rest.len(), |i: int| TabEffectView::Shutdown(rest[i].id));
        let mut i: usize = 0;
        assert(told + all.take(0) =~= told);
        while i < self.tabs.len()
            invariant
                i <= self.tabs.len(),
                tab_views(self.tabs@) == rest,
                all == Seq::new(rest.len(), |i: int| TabEffectView::Shutdown(rest[i].id)),
                effect_views(effects@) == told + all.take(i as int),
            decreases self.tabs.len() - i,
        {
            let id: u64 = self.tabs[i].id;
            assert(rest[i as int].id == id);
            push_effect(effects, TabEffect::Shutdown(id));
            assert((told + all.take(i as int)).push(TabEffectView::Shutdown(id)) =~= told
                + all.take(i + 1));
            i = i + 1;
        }
        assert(all.take(i as int) =~= all);
        let mut tabs: Vec<TerminalTab> = Vec::new();
        let ghost view = kept@;
        tabs.push(kept);
        assert(tab_views(tabs@) =~= seq![view]);
        self.tabs = tabs;
        self.active = 0;
        self.rename_index = None;
        self.rename_draft = String::new();
    }

    fn duplicate_tab(&self, at: usize, effects: &mut Vec<TabEffect>)
        ensures
            effect_views(final(effects)@) == effect_views(old(effects)@) + duplicate_effects(
                self@,
                at,
            ),
    {
        let ghost told = effect_views(effects@);
        assert(told + Seq::<TabEffectView>::empty() =~= told);
        if at >= self.tabs.len() {
            return;
        }
        let tab = &self.tabs[at];
        if tab.kind == TerminalSessionKind::LocalPty {
            push_effect(effects, TabEffect::OpenLocal);
            assert(told.push(TabEffectView::OpenLocal) =~= told + seq![TabEffectView::OpenLocal]);
        } else if tab.configured {
            let label = concat2(tab.base_label.as_str(), " (副本)");
            let ghost view = TabEffectView::OpenSame { id: tab.id, label: label@ };
            push_effect(effects, TabEffect::OpenSame { id: tab.id, label });
            assert(told.push(view) =~= told + seq![view]);
        }
    }

    pub fn handle_tab_menu(
        &mut self,
        at: usize,
        action: TabMenuAction,
        effects: &mut Vec<TabEffect>,
    )
        requires
            old(self).wf(),
            menu_fits(old(self)@.tabs.len(), at, action),
        ensures
            final(self).wf(),
            final(self)@ == menu_step(old(self)@, at, action),
            effect_views(final(effects)@) == effect_views(old(effects)@) + menu_effects(
                old(self)@,
                at,
                action,
            ),
    {
        match action {
            TabMenuAction::Rename => {
                let draft = match &self.tabs[at].custom_label {
                    Some(label) => label.clone(),
                    None => self.tabs[at].base_label.clone(),
                };
                self.rename_draft = draft;
                self.rename_index = Some(at);
                assert(effect_views(effects@) + Seq::<TabEffectView>::empty() =~= effect_views(
                    effects@,
                ));
            },
            TabMenuAction::Duplicate => {
                self.duplicate_tab(at, effects);
            },
            TabMenuAction::Close => {
                self.close_tab(at, effects);
            },
            TabMenuAction::CloseOthers => {
                self.close_other_tabs(at, effects);
            },
        }
    }

    /// Adds a tab and shows it.
    pub fn push_tab(&mut self, tab: TerminalTab)
        requires
            old(self).wf(),
            old(self).tabs@.len() < usize::MAX,
        ensures
            final(self).wf(),
            final(self)@ == opened(old(self)@, tab@),
    {
        let ghost before = self.tabs@;
        let ghost view = tab@;
        self.tabs.push(tab);
        assert(tab_views(self.tabs@) =~= tab_views(before).push(view));
        self.active = self.tabs.len() - 1;
    }

    fn set_label(&mut self, at: usize, label: Option<String>)
        requires
            at < old(self).tabs@.len(),
        ensures
            final(self)@ == (BarView {
                tabs: old(self)@.tabs.update(
                    at as int,
                    TabView { custom_label: opt_text(label), ..old(self)@.tabs[at as int] },
                ),
                ..old(self)@
            }),
    {
        let ghost before = self.tabs@;
        self.tabs[at].custom_label = label;
        assert(tab_views(self.tabs@) =~= tab_views(before).update(
            at as int,
            TabView { custom_label: opt_text(label), ..before[at as int]@ },
        ));
    }

    /// Does what was asked for in the window that renames a tab; says whether the keyboard goes
    /// back to the terminal.
    pub fn rename_tab_window(&mut self, event: RenameEvent) -> (r: bool)
        requires
            old(self).wf(),
        ensures
            final(self).wf(),
            final(self)@ == rename_step(old(self)@, event),
            r == (old(self)@.rename_index is Some && !(event is Edit)),
    {
        let at: usize = match self.rename_index {
            Some(at) => at,
            None => {
                return false;
            },
        };
        match event {
            RenameEvent::Edit(text) => {
                self.rename_draft = text;
                false
            },
            RenameEvent::Confirm => {
                let name = trim(self.rename_draft.as_str()).to_string();
                let label = if name.as_str().unicode_len() == 0 {
                    None
                } else {
                    Some(name)
                };
                self.set_label(at, label);
                self.rename_index = None;
                self.rename_draft = String::new();
                true
            },
            RenameEvent::Cancel => {
                self.rename_index = None;
                self.rename_draft = String::new();
                true
            },
        }
    }
}

/// Whatever is done, there is a tab that is shown, and only a tab that is there is being renamed.
pub proof fn law_bar_stays_sound(
    bar: BarView,
    at: usize,
    action: TabMenuAction,
    tab: TabView,
    event: RenameEvent,
)
    requires
        bar_is_sound(bar),
        at < bar.tabs.len(),
        bar.tabs.len() < usize::MAX,
    ensures
        bar_is_sound(activated(bar, at)),
        bar_is_sound(menu_step(bar, at, action)),
        bar_is_sound(opened(bar, tab)),
        bar_is_sound(rename_step(bar, event)),
{
}

/// Closing another tab leaves the tab that is shown, and the one that is being renamed, the same
/// ones.
pub proof fn law_closing_keeps_the_shown_tab(bar: BarView, at: usize)
    requires
        bar_is_sound(bar),
        at < bar.tabs.len(),
        bar.tabs.len() > 1,
    ensures
        at != bar.active ==> closed(bar, at).tabs[closed(bar, at).active as int]
            == bar.tabs[bar.active as int],
        bar.rename_index is Some && bar.rename_index != Some(at) ==> (closed(
            bar,
            at,
        ).rename_index matches Some(moved) && closed(bar, at).tabs[moved as int]
            == bar.tabs[bar.rename_index->Some_0 as int]),
        bar.rename_index == Some(at) ==> closed(bar, at).rename_index is None,
{
}

/// A name that was given and then taken back leaves the tab as it was.
pub proof fn law_renaming_can_be_undone(bar: BarView, at: usize, name: String, none: String)
    requires
        bar_is_sound(bar),
        at < bar.tabs.len(),
        bar.tabs[at as int].custom_label is None,
        bar.rename_index is None,
        bar.rename_draft == Seq::<char>::empty(),
        trimmed(none@).len() == 0,
    ensures
        ({
            let named = rename_step(
                rename_step(rename_begun(bar, at), RenameEvent::Edit(name)),
                RenameEvent::Confirm,
            );
            rename_step(
                rename_step(rename_begun(named, at), RenameEvent::Edit(none)),
                RenameEvent::Confirm,
            ) == bar
        }),
{
    let named = rename_step(
        rename_step(rename_begun(bar, at), RenameEvent::Edit(name)),
        RenameEvent::Confirm,
    );
    let back = rename_step(
        rename_step(rename_begun(named, at), RenameEvent::Edit(none)),
        RenameEvent::Confirm,
    );
    assert(back.tabs =~= bar.tabs);
}

/// The tab that is chosen is the one that is shown; it has no notice any more and the keyboard of
/// the window, and no other tab changes.
pub proof fn law_chosen_tab_is_shown(bar: BarView, at: usize, i: int)
    requires
        bar_is_sound(bar),
        at < bar.tabs.len(),
        0 <= i < bar.tabs.len(),
    ensures
        ({
            let next = activated(bar, at);
            &&& next.active == at
            &&& next.tabs.len() == bar.tabs.len()
            &&& i != at ==> next.tabs[i] == bar.tabs[i]
            &&& at != bar.active ==> !next.tabs[at as int].notify_pending
                && next.tabs[at as int].focused == bar.window_focused
            &&& next.tabs[at as int] == (TabView {
                notify_pending: next.tabs[at as int].notify_pending,
                focused: next.tabs[at as int].focused,
                ..bar.tabs[at as int]
            })
            &&& at == bar.active ==> next == bar && activation_effects(bar, at).len() == 0
            &&& at != bar.active ==> activation_effects(bar, at).len() == 1 && activation_effects(
                bar,
                at,
            )[0] == TabEffectView::SetFocused(bar.tabs[at as int].id, bar.window_focused)
            &&& next.rename_index == bar.rename_index && next.rename_draft == bar.rename_draft
        }),
{
}

/// A tab that is closed is gone and its session is shut down; the tabs behind it move up, and the
/// others stay where they are. Where it was shown, the tab that took its place is, or the last one.
/// The last tab is not closed.
pub proof fn law_closed_tab_is_gone(bar: BarView, at: usize, i: int)
    requires
        bar_is_sound(bar),
        at < bar.tabs.len(),
        0 <= i,
    ensures
        ({
            let next = closed(bar, at);
            if bar.tabs.len() == 1 {
                next == bar && close_effects(bar, at).len() == 0
            } else {
                &&& next.tabs.len() + 1 == bar.tabs.len()
                &&& i < at ==> next.tabs[i] == bar.tabs[i]
                &&& at <= i < next.tabs.len() ==> next.tabs[i] == bar.tabs[i + 1]
                &&& close_effects(bar, at).len() == 1
                &&& close_effects(bar, at)[0] == TabEffectView::Shutdown(bar.tabs[at as int].id)
                &&& at == bar.active && at + 1 < bar.tabs.len() ==> next.active == at
                &&& at == bar.active && at + 1 == bar.tabs.len() ==> next.active + 1 == at
                &&& at < bar.active ==> next.active + 1 == bar.active
                &&& at > bar.active ==> next.active == bar.active
                &&& next.window_focused == bar.window_focused
            }
        }),
{
}

/// Closing the others leaves the one tab, as the one that is shown, and shuts down each of the
/// others, in their order.
pub proof fn law_only_one_tab_is_kept(bar: BarView, keep: usize, i: int)
    requires
        bar_is_sound(bar),
        keep < bar.tabs.len(),
        bar.tabs.len() > 1,
        0 <= i < bar.tabs.len(),
        i != keep,
    ensures
        others_closed(bar, keep).tabs == seq![bar.tabs[keep as int]],
        others_closed(bar, keep).active == 0,
        others_closed(bar, keep).rename_index is None,
        others_effects(bar, keep).len() + 1 == bar.tabs.len(),
        others_effects(bar, keep)[if i < keep {
            i
        } else {
            i - 1
        }] == TabEffectView::Shutdown(bar.tabs[i].id),
{
}

/// A name that is entered for a tab becomes its label, without the white space around it; a blank
/// one takes the label away. Only that tab changes, and cancelling changes none.
pub proof fn law_renaming_changes_one_label(bar: BarView, at: usize, name: String, i: int)
    requires
        bar_is_sound(bar),
        at < bar.tabs.len(),
        0 <= i < bar.tabs.len(),
    ensures
        ({
            let asked = rename_begun(bar, at);
            let typed = rename_step(asked, RenameEvent::Edit(name));
            let done = rename_step(typed, RenameEvent::Confirm);
            let left = rename_step(typed, RenameEvent::Cancel);
            &&& asked.tabs == bar.tabs && typed.tabs == bar.tabs
            &&& asked.rename_draft == (match bar.tabs[at as int].custom_label {
                Some(label) => label,
                None => bar.tabs[at as int].base_label,
            })
            &&& typed.rename_draft == name@
            &&& done.tabs.len() == bar.tabs.len()
            &&& i != at ==> done.tabs[i] == bar.tabs[i]
            &&& trimmed(name@).len() > 0 ==> done.tabs[at as int].custom_label == Some(
                trimmed(name@),
            )
            &&& trimmed(name@).len() == 0 ==> done.tabs[at as int].custom_label is None
            &&& done.tabs[at as int].base_label == bar.tabs[at as int].base_label
            &&& done.tabs[at as int].id == bar.tabs[at as int].id
            &&& done.rename_index is None && left.rename_index is None
            &&& left.tabs == bar.tabs
            &&& done.active == bar.active && left.active == bar.active
        }),
{
}

/// A new tab comes behind the others, which stay as they are, and is shown.
pub proof fn law_new_tab_is_shown(bar: BarView, tab: TabView)
    requires
        bar.tabs.len() < usize::MAX,
    ensures
        opened(bar, tab).tabs.len() == bar.tabs.len() + 1,
        opened(bar, tab).tabs.drop_last() == bar.tabs,
        opened(bar, tab).tabs.last() == tab,
        opened(bar, tab).active == bar.tabs.len(),
        opened(bar, tab).rename_index == bar.rename_index,
{
    assert(opened(bar, tab).tabs.drop_last() =~= bar.tabs);
}

/// A copy of a local tab is a new local session; of another one it is a session with the same
/// settings, under a label that says so, where those settings are kept. The tabs do not change.
pub proof fn law_copies_have_the_same_settings(bar: BarView, at: usize)
    requires
        at < bar.tabs.len(),
    ensures
        ({
            let tab = bar.tabs[at as int];
            let effects = menu_effects(bar, at, TabMenuAction::Duplicate);
            &&& menu_step(bar, at, TabMenuAction::Duplicate) == bar
            &&& tab.kind == TerminalSessionKind::LocalPty ==> effects == seq![
                TabEffectView::OpenLocal,
            ]
            &&& tab.kind != TerminalSessionKind::LocalPty && !tab.configured ==> effects.len() == 0
            &&& tab.kind != TerminalSessionKind::LocalPty && tab.configured ==> effects.len() == 1
                && (effects[0] matches TabEffectView::OpenSame { id, label } && id == tab.id
                && tab.base_label.is_prefix_of(label) && label.len() > tab.base_label.len())
        }),
{
    reveal_strlit(" (副本)");
    let tab = bar.tabs[at as int];
    let label = tab.base_label + " (副本)"@;
    assert(label.subrange(0, tab.base_label.len() as int) =~= tab.base_label);
}

/// The menu of a tab does what its entries say.
pub proof fn law_menu_does_what_it_says(bar: BarView, at: usize)
    ensures
        menu_step(bar, at, TabMenuAction::Close) == closed(bar, at),
        menu_step(bar, at, TabMenuAction::CloseOthers) == others_closed(bar, at),
        menu_step(bar, at, TabMenuAction::Rename).rename_index == Some(at),
        menu_effects(bar, at, TabMenuAction::Close) == close_effects(bar, at),
        menu_effects(bar, at, TabMenuAction::CloseOthers) == others_effects(bar, at),
        menu_effects(bar, at, TabMenuAction::Rename).len() == 0,
{
}

/// A new tab is that of its session: nothing is typed, selected, searched for or open in it. It
/// can be connected again where it is an SSH session whose settings are kept.
pub proof fn law_new_tab_is_empty(
    id: u64,
    kind: TerminalSessionKind,
    label: Seq<char>,
    configured: bool,
    cols: usize,
    rows: usize,
)
    ensures
        ({
            let tab = fresh_tab(id, kind, label, configured, cols, rows);
            &&& tab.id == id && tab.kind == kind && tab.base_label == label
            &&& tab.custom_label is None && tab.configured == configured && !tab.connected
            &&& tab.cols == cols && tab.rows == rows
            &&& !tab.focused && !tab.notify_pending && tab.right_panel is None
            &&& tab.reconnect.configured == (configured && kind == TerminalSessionKind::SshPty)
            &&& !tab.reconnect.ever_connected && tab.reconnect.attempts == 0
            &&& tab.reconnect.due is None && tab.reconnect.status is None
            &&& !tab.search_open && tab.search.query.len() == 0 && tab.search.matches.len() == 0
            &&& tab.typing.line.len() == 0 && tab.typing.selection is None
            &&& tab.sftp is None && tab.sftp_prev_cwd is None && tab.forward is None
        }),
{
}

/// A frame of input that changes nothing leaves its tab as it is, and a frame starts from the state
/// of the tab with nothing done yet.
pub proof fn law_input_is_that_of_the_tab(tab: TabView)
    ensures
        with_input(tab, input_start(tab)) == tab,
        input_start(tab).line == tab.typing.line,
        input_start(tab).selection == tab.typing.selection,
        input_start(tab).search_open == tab.search_open,
        input_start(tab).enter_consumed == tab.search_enter_consumed,
        input_start(tab).focused == tab.focused,
        input_start(tab).done.len() == 0,
        input_start(tab).writes.len() == 0,
        input_start(tab).presses.len() == 0,
        input_start(tab).submitted is None,
        input_start(tab).scroll == 0 && !input_start(tab).copy && !input_start(tab).focus_changed,
{
}

/// The tab that is shown is told from the others by its colours, and has a lamp and an outline; the
/// button that closes is filled only while the pointer is over it.
pub proof fn law_shown_tab_stands_out(light: bool, hovered: bool)
    ensures
        tab_paint(light, true, hovered).background != tab_paint(light, false, hovered).background,
        tab_paint(light, true, hovered).text != tab_paint(light, false, hovered).text,
        tab_paint(light, true, hovered).lamp is Some,
        tab_paint(light, false, hovered).lamp is None,
        tab_paint(light, true, hovered).outline is Some,
        tab_paint(light, false, hovered).outline is None,
        tab_paint(light, true, hovered).close_fill is Some == hovered,
        tab_paint(light, false, hovered).close_fill is Some == hovered,
        tab_paint(true, true, hovered).background == (Rgba { r: 0xd6, g: 0xe2, b: 0xee, a: 0xff }),
        tab_paint(false, true, hovered).background == (Rgba { r: 0x2a, g: 0x3b, b: 0x4f, a: 0xff }),
{
}

} // verus!
