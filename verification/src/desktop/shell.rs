//! The window as a whole: its bar of tools, its dialogs, and what a frame does to the tab that is
//! shown.

use crate::desktop::connect::{ConnectForm, FormView};
use crate::desktop::forward::{
    first_ports_command, forward_step, initial_forward, ForwardCommandView, ForwardEvent,
    ForwardEventView, ForwardPanel, ForwardView,
};
use crate::desktop::session::{display_label, SessionStatus, TerminalSessionKind};
use crate::desktop::settings::ThemeChoice;
use crate::desktop::sftp::{
    asks_refresh, command_views, first_files_command, is_transfer, panel_after, panel_commands,
    panel_step, sftp_panel_ui, PanelView, SftpCommand, SftpCommandView, SftpEvent, SftpEventView,
    SftpPanelEvent, SftpPanelState,
};
use crate::desktop::tabs::{
    activated, activation_effects, bar_is_sound, close_effects, closed, effect_views, menu_effects,
    menu_fits, menu_step, opened, push_effect, tab_views, BarView, ReconnectView, TabBar, TabEffect,
    TabEffectView, TabMenuAction, TerminalTab, TabView, TypingView,
};
use crate::json::opt_text;
use crate::text::{concat2, same};
use vstd::prelude::*;
use vstd::string::*;

verus! {

/// What was clicked in the bar of a frame.
#[derive(Clone, Copy, Debug)]
pub struct ToolbarIntents {
    pub clicked: Option<usize>,
    pub close: Option<usize>,
    pub menu: Option<(usize, TabMenuAction)>,
    pub connect: bool,
    pub settings: bool,
    pub reconnect: bool,
    pub sftp: bool,
    pub forward: bool,
    pub quick: bool,
}

/// The window.
pub struct HapcliApp {
    pub bar: TabBar,
    pub form: ConnectForm,
    pub show_connect: bool,
    pub show_settings: bool,
    pub show_quick: bool,
    pub last_title: String,
    pub applied_theme: Option<ThemeChoice>,
}

#[verifier::ext_equal]
pub struct ShellView {
    pub bar: BarView,
    pub form: FormView,
    pub show_connect: bool,
    pub show_settings: bool,
    pub show_quick: bool,
    pub last_title: Seq<char>,
    pub applied_theme: Option<ThemeChoice>,
}

/// The window once a connection was tried that the form asked for.
pub open spec fn after_connecting(shell: ShellView, tab: Result<TerminalTab, String>) -> ShellView {
    match tab {
        Ok(tab) => ShellView { bar: opened(shell.bar, tab@), show_connect: false, ..shell },
        Err(error) => ShellView {
            form: FormView { error: Some("串口打开失败: "@ + error@), ..shell.form },
            ..shell
        },
    }
}

/// The window once a session was opened like another one.
pub open spec fn after_opening(
    shell: ShellView,
    tab: Result<TerminalTab, String>,
    serial: bool,
) -> ShellView {
    match tab {
        Ok(tab) => ShellView { bar: opened(shell.bar, tab@), ..shell },
        Err(error) => if serial {
            ShellView {
                form: FormView { error: Some("复制串口标签失败: "@ + error@), ..shell.form },
                ..shell
            }
        } else {
            shell
        },
    }
}

/// The title that the window gets, where it changes.
pub open spec fn retitled(
    shell: ShellView,
    status: SessionStatus,
    after: ShellView,
    r: Option<Seq<char>>,
) -> bool {
    let title = window_title(status, shown_tab(shell.bar));
    &&& after == (ShellView { last_title: title, ..shell })
    &&& r == if title == shell.last_title {
        None
    } else {
        Some(title)
    }
}

/// What is listed where the file panel follows the session.
pub open spec fn files_synced(
    tab: TabView,
    cwd: Seq<char>,
    after: TabView,
    r: Option<SftpCommand>,
) -> bool {
    match r {
        Some(command) => follows(tab, cwd) && command@ == SftpCommandView::List(cwd) && after == (
        TabView { sftp_prev_cwd: Some(tab.sftp->Some_0.cwd), ..tab }),
        None => !follows(tab, cwd) && after == tab,
    }
}

impl View for HapcliApp {
    type V = ShellView;

    open spec fn view(&self) -> ShellView {
        ShellView {
            bar: self.bar@,
            form: self.form@,
            show_connect: self.show_connect,
            show_settings: self.show_settings,
            show_quick: self.show_quick,
            last_title: self.last_title@,
            applied_theme: self.applied_theme,
        }
    }
}

/// The tab that is shown.
pub open spec fn shown_tab(bar: BarView) -> TabView {
    bar.tabs[bar.active as int]
}

/// The bar with another state of the tab that is shown.
pub open spec fn with_shown(bar: BarView, tab: TabView) -> BarView {
    BarView { tabs: bar.tabs.update(bar.active as int, tab), ..bar }
}

/// How many tabs a frame has when it comes to the menu of one.
pub open spec fn tabs_at_menu(bar: BarView, intents: ToolbarIntents) -> nat {
    if intents.close is Some && bar.tabs.len() > 1 {
        (bar.tabs.len() - 1) as nat
    } else {
        bar.tabs.len()
    }
}

/// Whether the positions of what was clicked are those of tabs. The last tab is never closed, so
/// that a position does not matter there.
pub open spec fn intents_fit(bar: BarView, intents: ToolbarIntents) -> bool {
    &&& intents.clicked matches Some(at) ==> at < bar.tabs.len()
    &&& intents.close matches Some(at) ==> bar.tabs.len() > 1 ==> at < bar.tabs.len()
    &&& intents.menu matches Some((at, action)) ==> menu_fits(
        tabs_at_menu(bar, intents),
        at,
        action,
    )
}

/// The tabs after a frame: one is chosen, one is closed, then what the menu of one asks is done.
pub open spec fn bar_after(bar: BarView, intents: ToolbarIntents) -> BarView {
    let chosen = match intents.clicked {
        Some(at) => activated(bar, at),
        None => bar,
    };
    let fewer = match intents.close {
        Some(at) => closed(chosen, at),
        None => chosen,
    };
    match intents.menu {
        Some((at, action)) => menu_step(fewer, at, action),
        None => fewer,
    }
}

pub open spec fn bar_effects(bar: BarView, intents: ToolbarIntents) -> Seq<TabEffectView> {
    let chosen = match intents.clicked {
        Some(at) => activated(bar, at),
        None => bar,
    };
    let fewer = match intents.close {
        Some(at) => closed(chosen, at),
        None => chosen,
    };
    let first = match intents.clicked {
        Some(at) => activation_effects(bar, at),
        None => Seq::empty(),
    };
    let second = match intents.close {
        Some(at) => close_effects(chosen, at),
        None => Seq::empty(),
    };
    let third = match intents.menu {
        Some((at, action)) => menu_effects(fewer, at, action),
        None => Seq::empty(),
    };
    first + second + third
}

/// A tab whose session is opened anew: what belonged to the old one is forgotten.
pub open spec fn tab_reopened(tab: TabView) -> TabView {
    if tab.reconnect.configured {
        TabView {
            sftp_prev_cwd: None,
            search_enter_consumed: false,
            typing: TypingView {
                line: Seq::empty(),
                unreliable: false,
                selection: None,
                selection_active: false,
                drop_hovering: false,
                ..tab.typing
            },
            right_panel: None,
            reconnect: ReconnectView { dismissed: false, ..tab.reconnect },
            ..tab
        }
    } else {
        tab
    }
}

pub open spec fn reopen_effects(tab: TabView) -> Seq<TabEffectView> {
    if tab.reconnect.configured {
        seq![TabEffectView::Reconnect(tab.id)]
    } else {
        Seq::empty()
    }
}

/// A tab that is connected again from the bar.
pub open spec fn tab_reconnected(tab: TabView) -> TabView {
    TabView {
        reconnect: ReconnectView {
            attempts: 0,
            due: None,
            dismissed: false,
            status: Some("正在重连…"@),
            ..tab.reconnect
        },
        ..tab_reopened(tab)
    }
}

pub open spec fn initial_panel() -> PanelView {
    PanelView {
        cwd: Seq::empty(),
        entries: Seq::empty(),
        selected: None,
        error: None,
        transfer_id: None,
        transfer_progress: None,
        busy: false,
        new_dir_name: Seq::empty(),
        drop_hovering: false,
        confirm_delete: None,
    }
}

/// The panel for files is closed, or opened where there is a connection for it.
pub open spec fn sftp_toggled(tab: TabView) -> TabView {
    if tab.sftp is Some {
        TabView { sftp: None, ..tab }
    } else if tab.connected {
        TabView { sftp: Some(initial_panel()), ..tab }
    } else {
        tab
    }
}

pub open spec fn sftp_effects(tab: TabView) -> Seq<TabEffectView> {
    if tab.sftp is None && tab.connected {
        seq![TabEffectView::StartSftp { id: tab.id, first: SftpCommandView::List("."@) }]
    } else {
        Seq::empty()
    }
}

pub open spec fn forward_toggled(tab: TabView) -> TabView {
    if tab.forward is Some {
        TabView { forward: None, ..tab }
    } else if tab.connected {
        TabView { forward: Some(ForwardView { show: true, ..initial_forward() }), ..tab }
    } else {
        tab
    }
}

pub open spec fn forward_effects(tab: TabView) -> Seq<TabEffectView> {
    if tab.forward is None && tab.connected {
        seq![TabEffectView::StartForward { id: tab.id, first: ForwardCommandView::List }]
    } else {
        Seq::empty()
    }
}

/// The tab that is shown after the tools of a frame.
pub open spec fn tab_after(tab: TabView, intents: ToolbarIntents) -> TabView {
    let again = if intents.reconnect {
        tab_reconnected(tab)
    } else {
        tab
    };
    let files = if intents.sftp {
        sftp_toggled(again)
    } else {
        again
    };
    if intents.forward {
        forward_toggled(files)
    } else {
        files
    }
}

pub open spec fn tab_effects(tab: TabView, intents: ToolbarIntents) -> Seq<TabEffectView> {
    let again = if intents.reconnect {
        tab_reconnected(tab)
    } else {
        tab
    };
    let files = if intents.sftp {
        sftp_toggled(again)
    } else {
        again
    };
    (if intents.reconnect {
        reopen_effects(tab)
    } else {
        Seq::empty()
    }) + (if intents.sftp {
        sftp_effects(again)
    } else {
        Seq::empty()
    }) + (if intents.forward {
        forward_effects(files)
    } else {
        Seq::empty()
    })
}

/// The window after the bar of a frame. The dialogs for connections and for settings exclude each
/// other: the one that was asked for last is shown.
pub open spec fn shell_after(shell: ShellView, intents: ToolbarIntents, colors: bool) -> ShellView {
    let bar = bar_after(shell.bar, intents);
    ShellView {
        bar: with_shown(bar, tab_after(shown_tab(bar), intents)),
        form: if intents.connect {
            FormView { shell_colors: colors, ..shell.form }
        } else {
            shell.form
        },
        show_connect: if intents.settings {
            false
        } else {
            shell.show_connect || intents.connect
        },
        show_settings: if intents.settings {
            true
        } else {
            shell.show_settings && !intents.connect
        },
        show_quick: shell.show_quick != intents.quick,
        ..shell
    }
}

pub open spec fn shell_effects(shell: ShellView, intents: ToolbarIntents) -> Seq<TabEffectView> {
    let bar = bar_after(shell.bar, intents);
    bar_effects(shell.bar, intents) + tab_effects(shown_tab(bar), intents) + (if intents.quick {
        seq![TabEffectView::ReleaseKeyboard]
    } else {
        Seq::empty()
    })
}

proof fn lemma_one_more(told: Seq<TabEffectView>, effect: TabEffectView)
    ensures
        told.push(effect) == told + seq![effect],
{
    assert(told.push(effect) =~= told + seq![effect]);
}

proof fn lemma_no_more(told: Seq<TabEffectView>)
    ensures
        told + Seq::<TabEffectView>::empty() == told,
{
    assert(told + Seq::<TabEffectView>::empty() =~= told);
}

impl TerminalTab {
    /// Forgets what belonged to the old session, and has a new one opened.
    pub fn reopen(&mut self, effects: &mut Vec<TabEffect>)
        ensures
            final(self)@ == tab_reopened(old(self)@),
            effect_views(final(effects)@) == effect_views(old(effects)@) + reopen_effects(
                old(self)@,
            ),
    {
        proof {
            lemma_no_more(effect_views(effects@));
            lemma_one_more(effect_views(effects@), TabEffectView::Reconnect(self.id));
        }
        if self.reconnect.configured {
            self.sftp_prev_cwd = None;
            self.input.reset();
            assert(self.input.input_line@ =~= Seq::<char>::empty());
            self.right_panel = None;
            self.reconnect.dismissed = false;
            push_effect(effects, TabEffect::Reconnect(self.id));
        }
    }

    fn reconnect_from_bar(&mut self, effects: &mut Vec<TabEffect>)
        ensures
            final(self)@ == tab_reconnected(old(self)@),
            effect_views(final(effects)@) == effect_views(old(effects)@) + reopen_effects(
                old(self)@,
            ),
    {
        self.reopen(effects);
        self.reconnect.reconnect_from_toolbar();
    }

    fn toggle_sftp(&mut self, effects: &mut Vec<TabEffect>)
        ensures
            final(self)@ == sftp_toggled(old(self)@),
            effect_views(final(effects)@) == effect_views(old(effects)@) + sftp_effects(old(self)@),
    {
        proof {
            lemma_no_more(effect_views(effects@));
            lemma_one_more(
                effect_views(effects@),
                TabEffectView::StartSftp { id: self.id, first: SftpCommandView::List("."@) },
            );
        }
        if self.sftp.is_some() {
            self.sftp = None;
        } else if self.connected {
            self.sftp = Some(SftpPanelState::new());
            push_effect(
                effects,
                TabEffect::StartSftp { id: self.id, first: first_files_command() },
            );
        }
    }

    fn toggle_forward(&mut self, effects: &mut Vec<TabEffect>)
        ensures
            final(self)@ == forward_toggled(old(self)@),
            effect_views(final(effects)@) == effect_views(old(effects)@) + forward_effects(
                old(self)@,
            ),
    {
        proof {
            lemma_no_more(effect_views(effects@));
            lemma_one_more(
                effect_views(effects@),
                TabEffectView::StartForward { id: self.id, first: ForwardCommandView::List },
            );
        }
        if self.forward.is_some() {
            self.forward = None;
        } else if self.connected {
            let mut panel = ForwardPanel::new();
            panel.show = true;
            self.forward = Some(panel);
            push_effect(
                effects,
                TabEffect::StartForward { id: self.id, first: first_ports_command() },
            );
        }
    }

    fn use_tools(&mut self, intents: &ToolbarIntents, effects: &mut Vec<TabEffect>)
        ensures
            final(self)@ == tab_after(old(self)@, *intents),
            effect_views(final(effects)@) == effect_views(old(effects)@) + tab_effects(
                old(self)@,
                *intents,
            ),
    {
        let ghost told = effect_views(effects@);
        let ghost tab = self@;
        let ghost again = if intents.reconnect {
            tab_reconnected(tab)
        } else {
            tab
        };
        let ghost files = if intents.sftp {
            sftp_toggled(again)
        } else {
            again
        };
        let ghost first = if intents.reconnect {
            reopen_effects(tab)
        } else {
            Seq::empty()
        };
        let ghost second = if intents.sftp {
            sftp_effects(again)
        } else {
            Seq::empty()
        };
        let ghost third = if intents.forward {
            forward_effects(files)
        } else {
            Seq::empty()
        };
        proof {
            lemma_no_more(told);
        }
        if intents.reconnect {
            self.reconnect_from_bar(effects);
        }
        assert(effect_views(effects@) == told + first);
        proof {
            lemma_no_more(told + first);
        }
        if intents.sftp {
            self.toggle_sftp(effects);
        }
        assert(effect_views(effects@) == told + first + second);
        proof {
            lemma_no_more(told + first + second);
        }
        if intents.forward {
            self.toggle_forward(effects);
        }
        assert(effect_views(effects@) == told + first + second + third);
        assert(told + first + second + third =~= told + (first + second + third));
    }
}

impl TabBar {
    fn take_clicks(&mut self, intents: &ToolbarIntents, effects: &mut Vec<TabEffect>)
        requires
            old(self).wf(),
            intents_fit(old(self)@, *intents),
        ensures
            final(self).wf(),
            final(self)@ == bar_after(old(self)@, *intents),
            effect_views(final(effects)@) == effect_views(old(effects)@) + bar_effects(
                old(self)@,
                *intents,
            ),
    {
        let ghost told = effect_views(effects@);
        let ghost bar = self@;
        let ghost chosen = match intents.clicked {
            Some(at) => activated(bar, at),
            None => bar,
        };
        let ghost fewer = match intents.close {
            Some(at) => closed(chosen, at),
            None => chosen,
        };
        let ghost first = match intents.clicked {
            Some(at) => activation_effects(bar, at),
            None => Seq::empty(),
        };
        let ghost second = match intents.close {
            Some(at) => close_effects(chosen, at),
            None => Seq::empty(),
        };
        let ghost third = match intents.menu {
            Some((at, action)) => menu_effects(fewer, at, action),
            None => Seq::empty(),
        };
        proof {
            lemma_no_more(told);
        }
        if let Some(at) = intents.clicked {
            self.activate_tab(at, effects);
        }
        assert(self@ == chosen && effect_views(effects@) == told + first);
        assert(self.tabs@.len() == bar.tabs.len()) by {
            assert(self@.tabs.len() == chosen.tabs.len());
        }
        proof {
            lemma_no_more(told + first);
        }
        if let Some(at) = intents.close {
            self.close_tab(at, effects);
        }
        assert(self@ == fewer && effect_views(effects@) == told + first + second);
        assert(self.tabs@.len() == fewer.tabs.len()) by {
            assert(self@.tabs.len() == fewer.tabs.len());
        }
        proof {
            lemma_no_more(told + first + second);
        }
        if let Some((at, action)) = intents.menu {
            self.handle_tab_menu(at, action, effects);
        }
        assert(effect_views(effects@) == told + first + second + third);
        assert(told + first + second + third =~= told + (first + second + third));
    }

    fn use_tools(&mut self, intents: &ToolbarIntents, effects: &mut Vec<TabEffect>)
        requires
            old(self).wf(),
        ensures
            final(self).wf(),
            final(self)@ == with_shown(old(self)@, tab_after(shown_tab(old(self)@), *intents)),
            effect_views(final(effects)@) == effect_views(old(effects)@) + tab_effects(
                shown_tab(old(self)@),
                *intents,
            ),
    {
        let ghost before = self.tabs@;
        let at: usize = self.active;
        self.tabs[at].use_tools(intents, effects);
        assert(tab_views(self.tabs@) =~= tab_views(before).update(
            at as int,
            tab_after(before[at as int]@, *intents),
        ));
    }
}

impl HapcliApp {
    pub open spec fn wf(&self) -> bool {
        self.bar.wf()
    }

    /// The window with its first tab.
    pub fn new(first: TerminalTab, form: ConnectForm, theme: ThemeChoice) -> (r: HapcliApp)
        ensures
            r.wf(),
            r@ == (ShellView {
                bar: BarView {
                    tabs: seq![first@],
                    active: 0,
                    rename_index: None,
                    rename_draft: Seq::empty(),
                    window_focused: true,
                },
                form: form@,
                show_connect: false,
                show_settings: false,
                show_quick: false,
                last_title: Seq::empty(),
                applied_theme: Some(theme),
            }),
    {
        HapcliApp {
            bar: TabBar::new(first),
            form,
            show_connect: false,
            show_settings: false,
            show_quick: false,
            last_title: String::new(),
            applied_theme: Some(theme),
        }
    }

    /// Does what was clicked in the bar of a frame. `colors` is the setting for new connections.
    pub fn update(&mut self, intents: &ToolbarIntents, colors: bool) -> (r: Vec<TabEffect>)
        requires
            old(self).wf(),
            intents_fit(old(self)@.bar, *intents),
        ensures
            final(self).wf(),
            final(self)@ == shell_after(old(self)@, *intents, colors),
            effect_views(r@) == shell_effects(old(self)@, *intents),
    {
        let mut effects: Vec<TabEffect> = Vec::new();
        let ghost before = self@;
        let ghost bar = bar_after(before.bar, *intents);
        let ghost first = bar_effects(before.bar, *intents);
        let ghost second = tab_effects(shown_tab(bar), *intents);
        assert(effect_views(effects@) =~= Seq::<TabEffectView>::empty());
        self.bar.take_clicks(intents, &mut effects);
        assert(effect_views(effects@) =~= first);
        if intents.connect {
            self.form.shell_colors = colors;
            self.show_connect = true;
            self.show_settings = false;
        }
        if intents.settings {
            self.show_settings = true;
            self.show_connect = false;
        }
        self.bar.use_tools(intents, &mut effects);
        assert(effect_views(effects@) == first + second);
        proof {
            lemma_no_more(first + second);
            lemma_one_more(first + second, TabEffectView::ReleaseKeyboard);
        }
        if intents.quick {
            self.show_quick = !self.show_quick;
            push_effect(&mut effects, TabEffect::ReleaseKeyboard);
        }
        effects
    }

    /// Whether a dialog has the keyboard, so that keys do not go to the terminal.
    pub fn modal_open(&self) -> (r: bool)
        ensures
            r == (self@.show_settings || self@.show_connect || self@.bar.rename_index is Some),
    {
        self.show_settings || self.show_connect || self.bar.rename_index.is_some()
    }

    /// Takes what became of a connection that the form asked for: the tab is shown and the form
    /// closed, or the form tells why the port could not be opened. Says whether the keyboard goes
    /// back to the terminal.
    pub fn connect_finished(&mut self, tab: Result<TerminalTab, String>) -> (r: bool)
        requires
            old(self).wf(),
            old(self).bar.tabs@.len() < usize::MAX,
        ensures
            final(self).wf(),
            r == tab is Ok,
            final(self)@ == after_connecting(old(self)@, tab),
    {
        match tab {
            Ok(tab) => {
                self.bar.push_tab(tab);
                self.show_connect = false;
                true
            },
            Err(error) => {
                self.form.show_error(concat2("串口打开失败: ", error.as_str()));
                false
            },
        }
    }

    /// Closes the form and starts over with an empty one.
    pub fn connect_cancelled(&mut self, fresh: ConnectForm)
        requires
            old(self).wf(),
        ensures
            final(self).wf(),
            final(self)@ == (ShellView { show_connect: false, form: fresh@, ..old(self)@ }),
    {
        self.show_connect = false;
        self.form = fresh;
    }

    /// Takes what became of a session that is a copy of another, or of a new local one. A local
    /// session that cannot be opened is passed over.
    pub fn session_opened(&mut self, tab: Result<TerminalTab, String>, serial: bool)
        requires
            old(self).wf(),
            old(self).bar.tabs@.len() < usize::MAX,
        ensures
            final(self).wf(),
            final(self)@ == after_opening(old(self)@, tab, serial),
    {
        match tab {
            Ok(tab) => {
                self.bar.push_tab(tab);
            },
            Err(error) => {
                if serial {
                    self.form.show_error(concat2("复制串口标签失败: ", error.as_str()));
                }
            },
        }
    }

    /// The theme to apply, where it is not yet the one in use.
    pub fn theme_change(&mut self, theme: ThemeChoice) -> (r: Option<ThemeChoice>)
        requires
            old(self).wf(),
        ensures
            final(self).wf(),
            final(self)@ == (ShellView { applied_theme: Some(theme), ..old(self)@ }),
            r == if old(self)@.applied_theme == Some(theme) {
                None::<ThemeChoice>
            } else {
                Some(theme)
            },
    {
        let applied = match self.applied_theme {
            Some(applied) => applied == theme,
            None => false,
        };
        if applied {
            None
        } else {
            self.applied_theme = Some(theme);
            Some(theme)
        }
    }

    /// The title of the window, where it has changed: it follows the tab that is shown.
    pub fn title_change(&mut self, status: &SessionStatus) -> (r: Option<String>)
        requires
            old(self).wf(),
        ensures
            final(self).wf(),
            retitled(old(self)@, *status, final(self)@, opt_text(r)),
    {
        let tab = &self.bar.tabs[self.bar.active];
        let label = display_label(
            status,
            tab.base_label.as_str(),
            &tab.custom_label,
            tab.notify_pending,
        );
        let title = concat2("hapcli — ", label.as_str());
        if same(title.as_str(), self.last_title.as_str()) {
            None
        } else {
            self.last_title = title.clone();
            Some(title)
        }
    }

    /// Takes that the window got the keyboard, or lost it; gives the session to tell of it.
    pub fn window_focus(&mut self, focused: bool) -> (r: u64)
        requires
            old(self).wf(),
        ensures
            final(self).wf(),
            final(self)@ == (ShellView {
                bar: BarView { window_focused: focused, ..old(self)@.bar },
                ..old(self)@
            }),
            r == shown_tab(old(self)@.bar).id,
    {
        self.bar.window_focused = focused;
        self.bar.tabs[self.bar.active].id
    }
}

/// The label of a tab with its parts as texts.
pub open spec fn window_title(status: SessionStatus, tab: TabView) -> Seq<char> {
    "hapcli — "@ + shown_label(status, tab)
}

pub open spec fn shown_label(status: SessionStatus, tab: TabView) -> Seq<char> {
    let label = match tab.custom_label {
        Some(label) => label,
        None => crate::desktop::session::session_label(status, tab.base_label),
    };
    if tab.notify_pending {
        "🔔 "@ + label
    } else {
        label
    }
}

/// A panel after all that its worker has told.
pub open spec fn panel_steps(panel: PanelView, events: Seq<SftpEventView>) -> PanelView
    decreases events.len(),
{
    if events.len() == 0 {
        panel
    } else {
        panel_step(panel_steps(panel, events.drop_last()), events.last())
    }
}

pub open spec fn sftp_event_views(events: Seq<SftpEvent>) -> Seq<SftpEventView> {
    Seq::new(events.len(), |i: int| events[i]@)
}

/// Takes what the worker for files has told; gives the command to list them anew.
pub fn poll_sftp(panel: &mut SftpPanelState, events: Vec<SftpEvent>) -> (r: Option<SftpCommand>)
    ensures
        final(panel)@ == panel_steps(old(panel)@, sftp_event_views(events@)),
        match r {
            Some(command) => (exists|i: int|
                0 <= i < events@.len() && #[trigger] asks_refresh(events@[i]@)) && command@
                == SftpCommandView::List(final(panel)@.cwd),
            None => forall|i: int| 0 <= i < events@.len() ==> !#[trigger] asks_refresh(events@[i]@),
        },
{
    let ghost all = sftp_event_views(events@);
    let ghost given = events@;
    let ghost first = panel@;
    let mut events = events;
    let ghost mut done: int = 0;
    let mut refresh = false;
    assert(all.take(0) == Seq::<SftpEventView>::empty());
    assert(all.skip(0) == all);
    while events.len() > 0
        invariant
            0 <= done <= all.len(),
            all == sftp_event_views(given),
            sftp_event_views(events@) == all.skip(done),
            events@.len() == all.len() - done,
            panel@ == panel_steps(first, all.take(done)),
            refresh == exists|i: int| 0 <= i < done && #[trigger] asks_refresh(given[i]@),
        decreases events.len(),
    {
        let ghost before = events@;
        let event = events.remove(0);
        proof {
            assert(all.skip(done)[0] == event@);
            assert(all.take(done + 1).drop_last() == all.take(done));
            assert(all.take(done + 1).last() == all[done]);
            assert(all[done] == event@ && given[done]@ == event@);
            assert(sftp_event_views(events@) =~= all.skip(done + 1)) by {
                assert forall|i: int| 0 <= i < events@.len() implies sftp_event_views(events@)[i]
                    == all.skip(done + 1)[i] by {
                    assert(events@[i] == before[i + 1]);
                    assert(sftp_event_views(before)[i + 1] == all.skip(done)[i + 1]);
                }
            }
        }
        let ghost asked = asks_refresh(given[done]@);
        let ghost earlier = refresh;
        if panel.apply_event(event) {
            refresh = true;
        }
        proof {
            if refresh {
                if earlier {
                    let i = choose|i: int| 0 <= i < done && #[trigger] asks_refresh(given[i]@);
                    assert(asks_refresh(given[i]@));
                } else {
                    assert(asks_refresh(given[done]@));
                }
            }
            done = done + 1;
        }
    }
    assert(all.take(done) == all);
    if refresh {
        Some(panel.refresh())
    } else {
        None
    }
}

/// Does what was asked for in the panel for files; a transfer makes the panel busy.
pub fn use_sftp_panel(panel: &mut SftpPanelState, event: SftpPanelEvent) -> (r: Vec<SftpCommand>)
    ensures
        command_views(r@) == panel_commands(old(panel)@, event),
        final(panel)@ == (PanelView {
            busy: panel_after(old(panel)@, event).busy || exists|i: int|
                0 <= i < r@.len() && #[trigger] is_transfer(r@[i]@),
            ..panel_after(old(panel)@, event)
        }),
{
    let commands = sftp_panel_ui(panel, event);
    let mut started = false;
    let mut i: usize = 0;
    while i < commands.len()
        invariant
            i <= commands.len(),
            started == exists|k: int| 0 <= k < i && #[trigger] is_transfer(commands@[k]@),
        decreases commands.len() - i,
    {
        let ghost earlier = started;
        if commands[i].transfers() {
            started = true;
        }
        proof {
            if started {
                if earlier {
                    let k = choose|k: int| 0 <= k < i && #[trigger] is_transfer(commands@[k]@);
                    assert(is_transfer(commands@[k]@));
                } else {
                    assert(is_transfer(commands@[i as int]@));
                }
            }
        }
        i = i + 1;
    }
    if started {
        panel.busy = true;
    }
    commands
}

pub open spec fn forward_steps(panel: ForwardView, events: Seq<ForwardEventView>) -> ForwardView
    decreases events.len(),
{
    if events.len() == 0 {
        panel
    } else {
        forward_step(forward_steps(panel, events.drop_last()), events.last())
    }
}

pub open spec fn forward_event_views(events: Seq<ForwardEvent>) -> Seq<ForwardEventView> {
    Seq::new(events.len(), |i: int| events[i]@)
}

/// Takes what the worker for ports has told.
pub fn poll_forward(panel: &mut ForwardPanel, events: Vec<ForwardEvent>)
    ensures
        final(panel)@ == forward_steps(old(panel)@, forward_event_views(events@)),
{
    let ghost all = forward_event_views(events@);
    let ghost first = panel@;
    let mut events = events;
    let ghost mut done: int = 0;
    assert(all.take(0) == Seq::<ForwardEventView>::empty());
    assert(all.skip(0) == all);
    while events.len() > 0
        invariant
            0 <= done <= all.len(),
            forward_event_views(events@) == all.skip(done),
            events@.len() == all.len() - done,
            panel@ == forward_steps(first, all.take(done)),
        decreases events.len(),
    {
        let ghost before = events@;
        let event = events.remove(0);
        proof {
            assert(all.skip(done)[0] == event@);
            assert(all.take(done + 1).drop_last() == all.take(done));
            assert(all.take(done + 1).last() == all[done]);
            assert(all[done] == event@);
            assert(forward_event_views(events@) =~= all.skip(done + 1)) by {
                assert forall|i: int| 0 <= i < events@.len() implies forward_event_views(events@)[i]
                    == all.skip(done + 1)[i] by {
                    assert(events@[i] == before[i + 1]);
                    assert(forward_event_views(before)[i + 1] == all.skip(done)[i + 1]);
                }
            }
            done = done + 1;
        }
        panel.apply_event(event);
    }
    assert(all.take(done) == all);
}

/// Whether the panel for files goes to a directory that the session reports.
pub open spec fn follows(tab: TabView, cwd: Seq<char>) -> bool {
    &&& tab.kind == TerminalSessionKind::SshPty
    &&& tab.sftp matches Some(panel) && panel.cwd != cwd
}

impl TerminalTab {
    /// Has the panel for files follow the session: the directory that it leaves is kept.
    pub fn sync_sftp_to(&mut self, cwd: &str) -> (r: Option<SftpCommand>)
        ensures
            files_synced(old(self)@, cwd@, final(self)@, r),
    {
        if self.kind != TerminalSessionKind::SshPty {
            return None;
        }
        let previous = match &self.sftp {
            Some(panel) => {
                if same(panel.cwd.as_str(), cwd) {
                    return None;
                }
                panel.cwd.clone()
            },
            None => {
                return None;
            },
        };
        self.sftp_prev_cwd = Some(previous);
        Some(SftpCommand::List(cwd.to_string()))
    }

    /// The notice that a connection is gone: the user connects again.
    pub fn reconnect_from_notice(&mut self, effects: &mut Vec<TabEffect>)
        requires
            old(self).reconnect.well_formed(),
        ensures
            final(self)@ == (TabView {
                reconnect: ReconnectView {
                    attempts: 0,
                    due: None,
                    status: Some("正在手动重连…"@),
                    ..tab_reopened(old(self)@).reconnect
                },
                ..tab_reopened(old(self)@)
            }),
            effect_views(final(effects)@) == effect_views(old(effects)@) + reopen_effects(
                old(self)@,
            ),
    {
        self.reopen(effects);
        self.reconnect.reconnect_manually();
    }

    /// A click on the terminal gives it the keyboard; says whether its session is told of that.
    pub fn terminal_clicked(&mut self) -> (r: bool)
        ensures
            r == !old(self)@.focused,
            final(self)@ == (TabView { focused: true, ..old(self)@ }),
    {
        if self.input.focused {
            false
        } else {
            self.input.focused = true;
            true
        }
    }
}

/// A tool of the bar that may be out of use.
#[derive(Clone, Copy, Debug)]
pub struct ToolButton {
    pub label: &'static str,
    pub enabled: bool,
}

/// The tools that the bar offers for the tab that is shown.
#[derive(Clone, Copy, Debug)]
pub struct Toolbar {
    pub reconnect: bool,
    pub files: Option<ToolButton>,
    pub forwards: Option<ToolButton>,
}

/// Whether a tool is offered for a tab, under a label, and in use only with a connection.
pub open spec fn is_offered(
    tool: Option<ToolButton>,
    tab: TabView,
    open: bool,
    shut: Seq<char>,
    opened: Seq<char>,
) -> bool {
    match tool {
        Some(button) => {
            &&& tab.kind == TerminalSessionKind::SshPty
            &&& button.enabled == tab.connected
            &&& button.label@ == if open {
                opened
            } else {
                shut
            }
        },
        None => tab.kind != TerminalSessionKind::SshPty,
    }
}

/// Whether the panel for ports of a tab is in view.
pub open spec fn shows_forwards(tab: TabView) -> bool {
    tab.forward matches Some(panel) && panel.show
}

/// The tools for a tab. Only SSH sessions have them: connecting again while the session does not
/// run, and the panels for files and for ports while there is a connection.
pub fn toolbar(tab: &TerminalTab, running: bool) -> (r: Toolbar)
    ensures
        r.reconnect == (tab@.kind == TerminalSessionKind::SshPty && !running),
        is_offered(r.files, tab@, tab@.sftp is Some, "SFTP"@, "SFTP ×"@),
        is_offered(r.forwards, tab@, shows_forwards(tab@), "转发"@, "转发 ×"@),
{
    if tab.kind != TerminalSessionKind::SshPty {
        return Toolbar { reconnect: false, files: None, forwards: None };
    }
    let files = if tab.sftp.is_some() {
        "SFTP ×"
    } else {
        "SFTP"
    };
    let shown = match &tab.forward {
        Some(panel) => panel.show,
        None => false,
    };
    let forwards = if shown {
        "转发 ×"
    } else {
        "转发"
    };
    Toolbar {
        reconnect: !running,
        files: Some(ToolButton { label: files, enabled: tab.connected }),
        forwards: Some(ToolButton { label: forwards, enabled: tab.connected }),
    }
}

/// The dialogs for connections and for settings are never shown together by what is clicked in
/// the bar.
pub proof fn law_one_dialog_at_a_time(shell: ShellView, intents: ToolbarIntents, colors: bool)
    requires
        !(shell.show_connect && shell.show_settings),
    ensures
        ({
            let next = shell_after(shell, intents, colors);
            !(next.show_connect && next.show_settings)
        }),
{
}

/// Opening the panel for files and closing it again leaves the tab as it was.
pub proof fn law_panels_close_again(tab: TabView)
    requires
        tab.connected,
    ensures
        tab.sftp is None ==> sftp_toggled(sftp_toggled(tab)) == tab,
        tab.forward is None ==> forward_toggled(forward_toggled(tab)) == tab,
{
}

/// A frame without a click changes nothing and asks for nothing.
pub proof fn law_idle_frame_changes_nothing(shell: ShellView, intents: ToolbarIntents, colors: bool)
    requires
        bar_is_sound(shell.bar),
        intents.clicked is None && intents.close is None && intents.menu is None,
        !intents.connect && !intents.settings && !intents.reconnect,
        !intents.sftp && !intents.forward && !intents.quick,
    ensures
        shell_after(shell, intents, colors) == shell,
        shell_effects(shell, intents).len() == 0,
{
    let next = shell_after(shell, intents, colors);
    assert(next.bar.tabs =~= shell.bar.tabs);
}

/// The panel for files opens empty, with a worker whose first command lists the directory at hand,
/// where there is a connection; without one nothing happens, and an open panel closes.
pub proof fn law_panels_open_with_their_first_command(tab: TabView)
    ensures
        tab.sftp is None && tab.connected ==> {
            let next = sftp_toggled(tab);
            &&& next.sftp matches Some(panel) && panel.cwd.len() == 0 && panel.entries.len() == 0
                && panel.selected is None && !panel.busy && panel.confirm_delete is None
            &&& sftp_effects(tab).len() == 1
            &&& sftp_effects(tab)[0] matches TabEffectView::StartSftp { id, first } && id == tab.id
                && first == SftpCommandView::List(seq!['.'])
            &&& (TabView { sftp: None, ..next }) == tab
        },
        tab.sftp is None && !tab.connected ==> sftp_toggled(tab) == tab && sftp_effects(tab).len()
            == 0,
        tab.sftp is Some ==> sftp_toggled(tab).sftp is None && sftp_effects(tab).len() == 0,
        tab.forward is None && tab.connected ==> {
            let next = forward_toggled(tab);
            &&& next.forward matches Some(panel) && panel.show
            &&& forward_effects(tab).len() == 1
            &&& forward_effects(tab)[0] matches TabEffectView::StartForward { id, first } && id
                == tab.id && first is List
            &&& (TabView { forward: None, ..next }) == tab
        },
        tab.forward is None && !tab.connected ==> forward_toggled(tab) == tab && forward_effects(
            tab,
        ).len() == 0,
        tab.forward is Some ==> forward_toggled(tab).forward is None && forward_effects(tab).len()
            == 0,
{
    reveal_strlit(".");
    assert("."@ =~= seq!['.']);
}

/// A session that is opened again forgets what was typed, selected and taken by the search, and the
/// directory before; its own tab is the one that connects. One without settings is left alone.
pub proof fn law_reconnecting_starts_over(tab: TabView)
    ensures
        tab.reconnect.configured ==> {
            let next = tab_reopened(tab);
            &&& next.typing.line.len() == 0 && !next.typing.unreliable
            &&& next.typing.selection is None && !next.typing.selection_active
            &&& !next.typing.drop_hovering && !next.search_enter_consumed
            &&& next.sftp_prev_cwd is None && next.right_panel is None
            &&& !next.reconnect.dismissed
            &&& next.id == tab.id && next.custom_label == tab.custom_label
            &&& next.sftp == tab.sftp && next.forward == tab.forward
            &&& next.search_open == tab.search_open && next.search == tab.search
            &&& next.cols == tab.cols && next.rows == tab.rows && next.focused == tab.focused
            &&& reopen_effects(tab) == seq![TabEffectView::Reconnect(tab.id)]
        },
        !tab.reconnect.configured ==> tab_reopened(tab) == tab && reopen_effects(tab).len() == 0,
        tab_reconnected(tab).reconnect.attempts == 0,
        tab_reconnected(tab).reconnect.due is None,
        !tab_reconnected(tab).reconnect.dismissed,
        tab_reconnected(tab).reconnect.ever_connected == tab.reconnect.ever_connected,
{
}

/// What is clicked in the bar is done to the tab that is then shown, and to no other: the tools work
/// on it after tabs were chosen and closed.
pub proof fn law_tools_work_on_the_shown_tab(
    shell: ShellView,
    intents: ToolbarIntents,
    colors: bool,
    i: int,
)
    requires
        bar_is_sound(bar_after(shell.bar, intents)),
        0 <= i < bar_after(shell.bar, intents).tabs.len(),
    ensures
        ({
            let bar = bar_after(shell.bar, intents);
            let next = shell_after(shell, intents, colors);
            &&& next.bar.active == bar.active
            &&& next.bar.tabs.len() == bar.tabs.len()
            &&& i != bar.active ==> next.bar.tabs[i] == bar.tabs[i]
            &&& next.bar.tabs[bar.active as int] == tab_after(
                bar.tabs[bar.active as int],
                intents,
            )
            &&& !intents.reconnect && !intents.sftp && !intents.forward ==> next.bar.tabs
                =~= bar.tabs
            &&& next.show_quick == (if intents.quick {
                !shell.show_quick
            } else {
                shell.show_quick
            })
            &&& intents.connect && !intents.settings ==> next.show_connect && !next.show_settings
                && next.form.shell_colors == colors
            &&& intents.settings ==> next.show_settings && !next.show_connect
            &&& !intents.connect && !intents.settings ==> next.show_connect == shell.show_connect
                && next.show_settings == shell.show_settings
            &&& !intents.connect ==> next.form == shell.form
            &&& next.last_title == shell.last_title && next.applied_theme == shell.applied_theme
        }),
{
}

/// What a frame asks of the tabs is done one after the other: choosing, closing, and the menu.
pub proof fn law_clicks_are_done_in_order(bar: BarView, intents: ToolbarIntents, at: usize)
    ensures
        intents.clicked is None && intents.close is None && intents.menu is None ==> bar_after(
            bar,
            intents,
        ) == bar && bar_effects(bar, intents).len() == 0,
        intents.clicked == Some(at) && intents.close is None && intents.menu is None ==> bar_after(
            bar,
            intents,
        ) == activated(bar, at) && bar_effects(bar, intents) =~= activation_effects(bar, at),
        intents.clicked is None && intents.close == Some(at) && intents.menu is None ==> bar_after(
            bar,
            intents,
        ) == closed(bar, at) && bar_effects(bar, intents) =~= close_effects(bar, at),
        intents.clicked is None && intents.close is None ==> (intents.menu matches Some((on, action))
            ==> bar_after(bar, intents) == menu_step(bar, on, action) && bar_effects(bar, intents)
            =~= menu_effects(bar, on, action)),
        bar_after(bar, intents) == bar_after(
            bar_after(bar, ToolbarIntents { close: None, menu: None, ..intents }),
            ToolbarIntents { clicked: None, ..intents },
        ),
        bar_after(bar, intents) == bar_after(
            bar_after(bar, ToolbarIntents { menu: None, ..intents }),
            ToolbarIntents { clicked: None, close: None, ..intents },
        ),
{
}

/// The title of the window ends with the label of the tab that is shown: the user's own name for it,
/// or else that of its session.
pub proof fn law_title_names_the_tab(status: SessionStatus, tab: TabView)
    ensures
        shown_label(status, tab).is_suffix_of(window_title(status, tab)),
        tab.custom_label matches Some(label) ==> label.is_suffix_of(shown_label(status, tab)),
        !tab.notify_pending ==> (tab.custom_label matches Some(label) ==> shown_label(status, tab)
            == label),
        tab.custom_label is None && tab.kind == status.kind && status.kind
            != TerminalSessionKind::LocalPty && status.lifecycle is Running && !tab.notify_pending
            ==> (status.title matches Some(title) ==> shown_label(status, tab) == title@),
{
    let title = window_title(status, tab);
    let label = shown_label(status, tab);
    assert(title.subrange(title.len() - label.len(), title.len() as int) =~= label);
    if tab.custom_label is Some {
        let own = tab.custom_label->Some_0;
        assert(label.subrange(label.len() - own.len(), label.len() as int) =~= own);
    }
}

/// The panel for files of an SSH tab follows the session to another directory than its own.
pub proof fn law_files_follow_the_session(tab: TabView, cwd: Seq<char>)
    ensures
        follows(tab, cwd) ==> tab.kind == TerminalSessionKind::SshPty && tab.sftp is Some
            && tab.sftp->Some_0.cwd != cwd,
        tab.kind == TerminalSessionKind::SshPty && tab.sftp is Some && tab.sftp->Some_0.cwd != cwd
            ==> follows(tab, cwd),
{
}

/// Events of the workers are taken in the order in which they came.
pub proof fn law_events_are_taken_in_order(
    files: PanelView,
    told: Seq<SftpEventView>,
    event: SftpEventView,
    ports: ForwardView,
    said: Seq<ForwardEventView>,
    other: ForwardEventView,
)
    ensures
        panel_steps(files, told.push(event)) == panel_step(panel_steps(files, told), event),
        panel_steps(files, Seq::empty()) == files,
        forward_steps(ports, said.push(other)) == forward_step(forward_steps(ports, said), other),
        forward_steps(ports, Seq::empty()) == ports,
{
    assert(told.push(event).drop_last() =~= told);
    assert(said.push(other).drop_last() =~= said);
}

/// The tools for files and ports are offered to remote sessions only, can be used while they are
/// connected, and are labelled by whether their panel is open.
pub proof fn law_tools_are_offered_to_remote_sessions(
    button: ToolButton,
    tab: TabView,
    open: bool,
    shut: Seq<char>,
    opened: Seq<char>,
)
    ensures
        is_offered(None, tab, open, shut, opened) <==> tab.kind != TerminalSessionKind::SshPty,
        is_offered(Some(button), tab, open, shut, opened) ==> tab.kind
            == TerminalSessionKind::SshPty && button.enabled == tab.connected,
        is_offered(Some(button), tab, true, shut, opened) ==> button.label@ == opened,
        is_offered(Some(button), tab, false, shut, opened) ==> button.label@ == shut,
        shows_forwards(tab) <==> (tab.forward matches Some(panel) && panel.show),
{
}

/// A session that opens gets a tab, and one that was asked for by the form closes the form. One
/// that fails opens no tab; why is said in the form, of a session opened like another one only
/// where it is a serial one.
pub proof fn law_sessions_open_or_say_why(
    shell: ShellView,
    tab: Result<TerminalTab, String>,
    serial: bool,
)
    ensures
        tab matches Ok(tab) ==> after_connecting(shell, Ok(tab)).bar == opened(shell.bar, tab@)
            && !after_connecting(shell, Ok(tab)).show_connect && after_connecting(
            shell,
            Ok(tab),
        ).form == shell.form,
        tab matches Err(error) ==> after_connecting(shell, Err(error)).bar == shell.bar
            && after_connecting(shell, Err(error)).show_connect == shell.show_connect
            && after_connecting(shell, Err(error)).form.error == Some("串口打开失败: "@ + error@),
        tab matches Ok(tab) ==> after_opening(shell, Ok(tab), serial) == (ShellView {
            bar: opened(shell.bar, tab@),
            ..shell
        }),
        tab is Err ==> after_opening(shell, tab, false) == shell,
        tab matches Err(error) ==> after_opening(shell, Err(error), true).bar == shell.bar
            && after_opening(shell, Err(error), true).show_connect == shell.show_connect
            && after_opening(shell, Err(error), true).form.error == Some(
            "复制串口标签失败: "@ + error@,
        ),
{
}

/// The title of the window is set when it changes: the same one is not set twice in a row.
pub proof fn law_titles_are_set_once(
    shell: ShellView,
    status: SessionStatus,
    first: ShellView,
    set: Option<Seq<char>>,
    second: ShellView,
    again: Option<Seq<char>>,
)
    requires
        retitled(shell, status, first, set),
        retitled(first, status, second, again),
    ensures
        first.last_title == window_title(status, shown_tab(shell.bar)),
        set is Some <==> first.last_title != shell.last_title,
        set is Some ==> set == Some(first.last_title),
        again is None,
        second == first,
        (ShellView { last_title: shell.last_title, ..first }) == shell,
{
}

/// Where the file panel follows the session, it lists the new directory and remembers the one that
/// it showed; otherwise nothing is listed and nothing changes.
pub proof fn law_followed_directories_are_listed(
    tab: TabView,
    cwd: Seq<char>,
    after: TabView,
    r: Option<SftpCommand>,
)
    requires
        files_synced(tab, cwd, after, r),
    ensures
        r is Some <==> tab.kind == TerminalSessionKind::SshPty && (tab.sftp matches Some(panel)
            && panel.cwd != cwd),
        r is Some ==> r->Some_0@ == SftpCommandView::List(cwd) && after.sftp_prev_cwd == Some(
            tab.sftp->Some_0.cwd,
        ),
        r is None ==> after.sftp_prev_cwd == tab.sftp_prev_cwd,
        (TabView { sftp_prev_cwd: tab.sftp_prev_cwd, ..after }) == tab,
{
}

/// The title of the window is the name of the program and the label of the tab; a bell stands
/// before the label where the tab has news.
pub proof fn law_titles_begin_with_the_program(status: SessionStatus, tab: TabView)
    ensures
        window_title(status, tab) == seq!['h', 'a', 'p', 'c', 'l', 'i', ' ', '—', ' ']
            + shown_label(status, tab),
        shown_label(status, TabView { notify_pending: true, ..tab }) == seq!['🔔', ' ']
            + shown_label(status, TabView { notify_pending: false, ..tab }),
        tab.custom_label is None && !tab.notify_pending ==> shown_label(status, tab)
            == crate::desktop::session::session_label(status, tab.base_label),
        tab_reconnected(tab).reconnect.status == Some("正在重连…"@),
{
    reveal_strlit("hapcli — ");
    reveal_strlit("🔔 ");
    assert("hapcli — "@ =~= seq!['h', 'a', 'p', 'c', 'l', 'i', ' ', '—', ' ']);
    assert("🔔 "@ =~= seq!['🔔', ' ']);
}

} // verus!
