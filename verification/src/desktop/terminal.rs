//! What a tab makes of the menu of its terminal, of the bar of its search and of a frame of input.

use crate::desktop::input::{
    actions, drag_scroll, drag_step, drop_step, events_fit, events_step, finish_step,
    follow_target, frame_steps, hover_step, presses_step, start_view, submitted_line,
    sync_sftp_after_submit, wheel_fits, DropState, InputEvent, InputFrame, InputView, PointerFrame,
    PointerPress, TerminalAction, TerminalInput, TerminalPrefs,
};
use crate::desktop::keys::{Key, Modifiers};
use crate::desktop::screen::{
    select_all, whole_screen, TerminalSearchMatch, TerminalSnapshot, TextSelection,
};
use crate::desktop::search::{lines_fit, next_index, previous_index, shown_offset, SearchState};
use crate::desktop::session::TerminalSessionKind;
use crate::desktop::sftp::{PanelView, SftpCommand, SftpCommandView, SftpPanelState};
use crate::desktop::tabs::{
    input_start, opt_panel, search_view, typing_view, with_input, SearchView, TabView, TerminalTab,
    TypingView,
};
use crate::json::opt_text;
use crate::text::{texts, trimmed};
use vstd::prelude::*;
use vstd::string::*;

verus! {

/// The view of a tab of which only the input, the search and the directory that its files came from
/// have changed.
proof fn lemma_tab_parts(before: TerminalTab, after: TerminalTab)
    requires
        after == (TerminalTab {
            input: after.input,
            search: after.search,
            sftp_prev_cwd: after.sftp_prev_cwd,
            ..before
        }),
    ensures
        after@ == (TabView {
            focused: after.input.focused,
            search_open: after.input.search_open,
            search_enter_consumed: after.input.search_enter_consumed,
            search: search_view(after.search, after.input.search_focus_requested),
            typing: typing_view(after.input),
            sftp_prev_cwd: opt_text(after.sftp_prev_cwd),
            ..before@
        }),
{
}

/// What is chosen in the menu of a terminal.
#[derive(Clone, Copy, Debug, PartialEq, Eq, Structural)]
pub enum TerminalMenuAction {
    Copy,
    Paste,
    SelectAll,
    Search,
    Clear,
}

/// What the menu of a terminal asks of its session.
#[derive(Clone, Copy, Debug, PartialEq, Eq)]
pub enum TerminalMenuStep {
    Nothing,
    CopySelection(TextSelection),
    Paste,
    /// What is looked for is looked for again.
    SearchAgain,
    /// The buffer is cleared, and the shell draws its prompt anew on the form feed that it gets.
    ClearBuffer,
}

/// The byte that has a shell draw its prompt anew.
pub const FORM_FEED: u8 = 0x0c;

pub open spec fn terminal_menu_step(tab: TabView, action: TerminalMenuAction) -> TerminalMenuStep {
    match action {
        TerminalMenuAction::Copy => match tab.typing.selection {
            Some(selection) => TerminalMenuStep::CopySelection(selection),
            None => TerminalMenuStep::Nothing,
        },
        TerminalMenuAction::Paste => TerminalMenuStep::Paste,
        TerminalMenuAction::SelectAll => TerminalMenuStep::Nothing,
        TerminalMenuAction::Search => TerminalMenuStep::SearchAgain,
        TerminalMenuAction::Clear => TerminalMenuStep::ClearBuffer,
    }
}

pub open spec fn after_terminal_menu(
    tab: TabView,
    action: TerminalMenuAction,
    snapshot: TerminalSnapshot,
) -> TabView {
    match action {
        TerminalMenuAction::SelectAll => TabView {
            typing: TypingView { selection: Some(whole_screen(snapshot)), ..tab.typing },
            ..tab
        },
        TerminalMenuAction::Search => TabView {
            search_open: true,
            search: SearchView { focus_requested: true, ..tab.search },
            ..tab
        },
        TerminalMenuAction::Clear => TabView {
            search: SearchView { matches: Seq::empty(), current: None, ..tab.search },
            typing: TypingView { selection: None, ..tab.typing },
            ..tab
        },
        _ => tab,
    }
}

/// What was done in the bar of the search.
#[derive(Debug)]
pub struct SearchClicks {
    /// A query that was typed, with what is found for it.
    pub typed: Option<(String, Vec<TerminalSearchMatch>)>,
    pub next: bool,
    pub previous: bool,
    pub close: bool,
    /// Whether the bar took an enter key for itself.
    pub entered: bool,
}

/// The search with another query.
pub open spec fn search_typed(
    search: SearchView,
    query: Seq<char>,
    found: Seq<TerminalSearchMatch>,
) -> SearchView {
    if trimmed(query).len() == 0 {
        SearchView { query, matches: Seq::empty(), current: None, ..search }
    } else {
        SearchView {
            query,
            matches: found,
            current: match search.current {
                Some(index) => if index < found.len() {
                    Some(index)
                } else if found.len() > 0 {
                    Some(0usize)
                } else {
                    None
                },
                None => if found.len() > 0 {
                    Some(0usize)
                } else {
                    None
                },
            },
            ..search
        }
    }
}

pub open spec fn search_after(search: SearchView, clicks: SearchClicks) -> SearchView {
    let typed = match clicks.typed {
        Some((query, found)) => search_typed(search, query@, found@),
        None => search,
    };
    let on = if clicks.next {
        next_index(typed.current, typed.matches.len())
    } else {
        typed.current
    };
    SearchView {
        current: if clicks.previous {
            previous_index(on, typed.matches.len())
        } else {
            on
        },
        focus_requested: (clicks.next || clicks.previous) && typed.matches.len() > 0,
        ..typed
    }
}

/// What the bar of the search is to do.
#[derive(Clone, Copy, Debug, PartialEq, Eq, Structural)]
pub struct SearchBarStep {
    /// Whether the field of the query takes the keyboard.
    pub take_keyboard: bool,
    /// How far to scroll back.
    pub offset: Option<usize>,
}

/// A tab after its bar of the search was drawn and used. The bar is there only while the search is
/// open, and it answers a request for the keyboard as it is drawn.
pub open spec fn after_search_bar(tab: TabView, clicks: SearchClicks) -> TabView {
    if tab.search_open {
        TabView {
            search: search_after(tab.search, clicks),
            search_open: !clicks.close,
            search_enter_consumed: tab.search_enter_consumed || clicks.entered,
            ..tab
        }
    } else {
        tab
    }
}

/// Draws the bar of an open search and does what was asked for in it to the input and the search of
/// a terminal.
fn use_bar(input: &mut TerminalInput, search: &mut SearchState, clicks: SearchClicks) -> (r:
    SearchBarStep)
    requires
        old(search).well_formed(),
        old(input).search_open,
        clicks.typed matches Some(typed) ==> lines_fit(typed.1@),
    ensures
        final(search).well_formed(),
        final(input).focused == old(input).focused,
        final(input).search_open == !clicks.close,
        final(input).search_enter_consumed == (old(input).search_enter_consumed || clicks.entered),
        typing_view(*final(input)) == typing_view(*old(input)),
        search_view(*final(search), final(input).search_focus_requested) == search_after(
            search_view(*old(search), old(input).search_focus_requested),
            clicks,
        ),
        r.take_keyboard == old(input).search_focus_requested,
        r.offset == if clicks.next || clicks.previous {
            shown_offset(final(search).matches@, final(search).current)
        } else {
            None
        },
{
    let take_keyboard = input.search_focus_requested;
    input.search_focus_requested = false;
    let SearchClicks { typed, next, previous, close, entered } = clicks;
    if let Some((query, found)) = typed {
        search.query = query;
        search.refresh_search(found);
        proof {
            if trimmed(query@).len() == 0 {
                assert(search.matches@ =~= Seq::<TerminalSearchMatch>::empty());
            }
        }
    }
    let mut offset: Option<usize> = None;
    if next {
        offset = search.search_next();
    }
    if previous {
        offset = search.search_prev();
    }
    if (next || previous) && search.matches.len() > 0 {
        input.search_focus_requested = true;
    }
    if close {
        input.search_open = false;
    }
    if entered {
        input.search_enter_consumed = true;
    }
    SearchBarStep { take_keyboard, offset }
}

impl TerminalTab {
    /// Draws the bar of the search and does what was asked for in it.
    pub fn search_bar(&mut self, clicks: SearchClicks) -> (r: SearchBarStep)
        requires
            old(self).search.well_formed(),
            clicks.typed matches Some(typed) ==> lines_fit(typed.1@),
        ensures
            final(self).search.well_formed(),
            final(self)@ == after_search_bar(old(self)@, clicks),
            r.take_keyboard == (old(self)@.search_open && old(self)@.search.focus_requested),
            r.offset == if old(self)@.search_open && (clicks.next || clicks.previous) {
                shown_offset(final(self)@.search.matches, final(self)@.search.current)
            } else {
                None
            },
    {
        if !self.input.search_open {
            return SearchBarStep { take_keyboard: false, offset: None };
        }
        let r = use_bar(&mut self.input, &mut self.search, clicks);
        proof {
            lemma_tab_parts(*old(self), *self);
        }
        r
    }
}

/// Does what was chosen in the menu of a terminal to its input and its search.
fn apply_choice(
    input: &mut TerminalInput,
    search: &mut SearchState,
    action: TerminalMenuAction,
    snapshot: &TerminalSnapshot,
) -> (r: TerminalMenuStep)
    ensures
        r == (match action {
            TerminalMenuAction::Copy => match old(input).selection {
                Some(selection) => TerminalMenuStep::CopySelection(selection),
                None => TerminalMenuStep::Nothing,
            },
            TerminalMenuAction::Paste => TerminalMenuStep::Paste,
            TerminalMenuAction::SelectAll => TerminalMenuStep::Nothing,
            TerminalMenuAction::Search => TerminalMenuStep::SearchAgain,
            TerminalMenuAction::Clear => TerminalMenuStep::ClearBuffer,
        }),
        final(input).focused == old(input).focused,
        final(input).search_open == (old(input).search_open || action
            == TerminalMenuAction::Search),
        final(input).search_enter_consumed == old(input).search_enter_consumed,
        final(input).search_focus_requested == (old(input).search_focus_requested || action
            == TerminalMenuAction::Search),
        typing_view(*final(input)) == (TypingView {
            selection: match action {
                TerminalMenuAction::SelectAll => Some(whole_screen(*snapshot)),
                TerminalMenuAction::Clear => None,
                _ => old(input).selection,
            },
            ..typing_view(*old(input))
        }),
        search_view(*final(search), final(input).search_focus_requested) == (if action
            == TerminalMenuAction::Clear {
            SearchView {
                matches: Seq::empty(),
                current: None,
                ..search_view(*old(search), old(input).search_focus_requested)
            }
        } else {
            search_view(*old(search), final(input).search_focus_requested)
        }),
{
    match action {
        TerminalMenuAction::Copy => {
            match input.selection {
                Some(selection) => TerminalMenuStep::CopySelection(selection),
                None => TerminalMenuStep::Nothing,
            }
        },
        TerminalMenuAction::Paste => TerminalMenuStep::Paste,
        TerminalMenuAction::SelectAll => {
            input.selection = Some(select_all(snapshot));
            TerminalMenuStep::Nothing
        },
        TerminalMenuAction::Search => {
            input.search_open = true;
            input.search_focus_requested = true;
            TerminalMenuStep::SearchAgain
        },
        TerminalMenuAction::Clear => {
            search.clear();
            assert(search.matches@ =~= Seq::<TerminalSearchMatch>::empty());
            input.selection = None;
            TerminalMenuStep::ClearBuffer
        },
    }
}

impl TerminalTab {
    /// Does what was chosen in the menu of the terminal; says what is left to its session.
    pub fn terminal_menu(&mut self, action: TerminalMenuAction, snapshot: &TerminalSnapshot) -> (r:
        TerminalMenuStep)
        ensures
            r == terminal_menu_step(old(self)@, action),
            final(self)@ == after_terminal_menu(old(self)@, action, *snapshot),
    {
        let r = apply_choice(&mut self.input, &mut self.search, action, snapshot);
        proof {
            lemma_tab_parts(*old(self), *self);
        }
        r
    }
}

/// The directory of the panel for files.
pub open spec fn shown_cwd(panel: Option<PanelView>) -> Option<Seq<char>> {
    match panel {
        Some(panel) => Some(panel.cwd),
        None => None,
    }
}

/// The directory that a submitted line takes the panel for files to.
pub open spec fn submitted_target(
    line: Option<Seq<char>>,
    prefs: TerminalPrefs,
    is_ssh: bool,
    panel: Option<PanelView>,
    prev_cwd: Option<Seq<char>>,
) -> Option<Seq<char>> {
    match line {
        Some(line) => follow_target(line, prefs, is_ssh, shown_cwd(panel), prev_cwd),
        None => None,
    }
}

pub open spec fn lists(command: Option<SftpCommand>, target: Option<Seq<char>>) -> bool {
    match target {
        Some(cwd) => command matches Some(command) && command@ == SftpCommandView::List(cwd),
        None => command is None,
    }
}

/// Has the panel for files follow a line that was submitted.
fn follow_line(
    line: Option<String>,
    prefs: &TerminalPrefs,
    is_ssh: bool,
    panel: &Option<SftpPanelState>,
    prev_cwd: &mut Option<String>,
) -> (r: Option<SftpCommand>)
    ensures
        ({
            let target = submitted_target(
                opt_text(line),
                *prefs,
                is_ssh,
                opt_panel(*panel),
                opt_text(*old(prev_cwd)),
            );
            &&& lists(r, target)
            &&& opt_text(*final(prev_cwd)) == if target is Some {
                shown_cwd(opt_panel(*panel))
            } else {
                opt_text(*old(prev_cwd))
            }
        }),
{
    match line {
        Some(line) => {
            let cwd = match panel {
                Some(panel) => Some(panel.cwd.clone()),
                None => None,
            };
            match sync_sftp_after_submit(line.as_str(), prefs, is_ssh, cwd, prev_cwd) {
                Some(target) => Some(SftpCommand::List(target)),
                None => None,
            }
        },
        None => None,
    }
}

impl TerminalTab {
    /// Takes up a frame of input. What is to be done comes out in order, with the directory that
    /// the panel for files goes to where a submitted line changed it.
    pub fn process_input(
        &mut self,
        events: &Vec<InputEvent>,
        frame: &InputFrame,
        files: &DropState,
        pointer: &PointerFrame,
        snapshot: &TerminalSnapshot,
    ) -> (r: (Vec<TerminalAction>, Option<SftpCommand>))
        requires
            wheel_fits(events@),
            events_fit(events@, *snapshot),
        ensures
            ({
                let end = frame_steps(
                    input_start(old(self)@),
                    events@,
                    *frame,
                    *files,
                    *pointer,
                    *snapshot,
                );
                let target = submitted_target(
                    submitted_line(end),
                    frame.prefs,
                    old(self)@.kind == TerminalSessionKind::SshPty,
                    old(self)@.sftp,
                    old(self)@.sftp_prev_cwd,
                );
                &&& actions(r.0@) == end.done
                &&& lists(r.1, target)
                &&& final(self)@ == (TabView {
                    sftp_prev_cwd: if target is Some {
                        shown_cwd(old(self)@.sftp)
                    } else {
                        old(self)@.sftp_prev_cwd
                    },
                    ..with_input(old(self)@, end)
                })
            }),
    {
        assert(start_view(self.input) == input_start(self@));
        let (done, line) = self.input.process_input(events, frame, files, pointer, snapshot);
        let command = follow_line(
            line,
            &frame.prefs,
            self.kind == TerminalSessionKind::SshPty,
            &self.sftp,
            &mut self.sftp_prev_cwd,
        );
        proof {
            lemma_tab_parts(*old(self), *self);
        }
        (done, command)
    }
}

/// Whether no event of a list presses a key.
pub open spec fn presses_no_key(events: Seq<InputEvent>) -> bool {
    forall|i: int|
        0 <= i < events.len() ==> !((#[trigger] events[i]) matches InputEvent::Key {
            pressed: true,
            ..
        })
}

/// Events without a key press leave an open search, and the enter that it took, as they are.
proof fn lemma_no_key_keeps_the_enter(v: InputView, events: Seq<InputEvent>, frame: InputFrame)
    requires
        v.search_open && v.enter_consumed,
        presses_no_key(events),
    ensures
        events_step(v, events, frame).search_open,
        events_step(v, events, frame).enter_consumed,
    decreases events.len(),
{
    if events.len() > 0 {
        let shorter = events.drop_last();
        assert forall|i: int| 0 <= i < shorter.len() implies !((#[trigger] shorter[i]) matches
            InputEvent::Key { pressed: true, .. }) by {
            assert(shorter[i] == events[i]);
        }
        lemma_no_key_keeps_the_enter(v, shorter, frame);
        assert(events.last() == events[events.len() - 1]);
    }
}

/// A state without the enter that the search took.
spec fn after_enter(v: InputView) -> InputView {
    InputView { enter_consumed: false, ..v }
}

/// Presses of the pointer do not see the enter that the search took.
proof fn lemma_presses_ignore_the_enter(
    v: InputView,
    presses: Seq<PointerPress>,
    pointer: PointerFrame,
    prefs: TerminalPrefs,
    snapshot: TerminalSnapshot,
)
    ensures
        presses_step(after_enter(v), presses, pointer, prefs, snapshot) == after_enter(
            presses_step(v, presses, pointer, prefs, snapshot),
        ),
    decreases presses.len(),
{
    if presses.len() > 0 {
        lemma_presses_ignore_the_enter(v, presses.drop_last(), pointer, prefs, snapshot);
    }
}

/// Nor does a drag of the pointer.
proof fn lemma_drag_ignores_the_enter(v: InputView, pointer: PointerFrame, rows: usize)
    ensures
        drag_step(after_enter(v), pointer, rows) == after_enter(drag_step(v, pointer, rows)),
        drag_scroll(after_enter(v), pointer) == drag_scroll(v, pointer),
{
}

/// Nor does the end of a frame.
proof fn lemma_finish_ignores_the_enter(v: InputView, dragged: int)
    ensures
        finish_step(after_enter(v), dragged) == after_enter(finish_step(v, dragged)),
{
}

/// Nor do files that are dropped.
proof fn lemma_drop_ignores_the_enter(
    v: InputView,
    dropped: Seq<Seq<char>>,
    taken: bool,
    windows: bool,
)
    ensures
        drop_step(after_enter(v), dropped, taken, windows) == after_enter(
            drop_step(v, dropped, taken, windows),
        ),
{
}

/// Of the events of a frame that starts with an enter that the search took, the first key that is
/// pressed uses the enter up and does nothing else.
proof fn lemma_first_key_is_the_enter(
    v: InputView,
    events: Seq<InputEvent>,
    key: Key,
    modifiers: Modifiers,
    frame: InputFrame,
)
    requires
        v.search_open && v.enter_consumed,
        presses_no_key(events),
    ensures
        events_step(
            v,
            events.push(InputEvent::Key { key, pressed: true, modifiers }),
            frame,
        ) == after_enter(events_step(v, events, frame)),
{
    lemma_no_key_keeps_the_enter(v, events, frame);
    assert(events.push(InputEvent::Key { key, pressed: true, modifiers }).drop_last() =~= events);
}

/// The same of a whole frame, from its events to its end.
proof fn lemma_frame_ignores_the_enter(
    v: InputView,
    events: Seq<InputEvent>,
    key: Key,
    modifiers: Modifiers,
    frame: InputFrame,
    files: DropState,
    pointer: PointerFrame,
    snapshot: TerminalSnapshot,
)
    requires
        v.search_open && v.enter_consumed,
        presses_no_key(events),
    ensures
        frame_steps(
            v,
            events.push(InputEvent::Key { key, pressed: true, modifiers }),
            frame,
            files,
            pointer,
            snapshot,
        ) == after_enter(frame_steps(v, events, frame, files, pointer, snapshot)),
{
    let start = hover_step(v, files.over_terminal, files.hovering_files);
    let taken = files.over_terminal || v.drop_hovering;
    lemma_first_key_is_the_enter(start, events, key, modifiers, frame);
    let read = events_step(start, events, frame);
    lemma_drop_ignores_the_enter(read, texts(files.dropped@), taken, frame.windows);
    let dropped = drop_step(read, texts(files.dropped@), taken, frame.windows);
    lemma_presses_ignore_the_enter(dropped, dropped.presses, pointer, frame.prefs, snapshot);
    let pressed = presses_step(dropped, dropped.presses, pointer, frame.prefs, snapshot);
    lemma_drag_ignores_the_enter(pressed, pointer, snapshot.rows);
    lemma_finish_ignores_the_enter(
        drag_step(pressed, pointer, snapshot.rows),
        drag_scroll(pressed, pointer),
    );
}

/// An enter that the bar of the search took does not reach the shell: the first key that is pressed
/// in the frame changes nothing of what the frame comes to, neither what is written nor the line
/// nor what is submitted. The key after it is the terminal's own again.
pub proof fn law_consumed_enter_stays_in_the_bar(
    tab: TabView,
    clicks: SearchClicks,
    events: Seq<InputEvent>,
    key: Key,
    modifiers: Modifiers,
    frame: InputFrame,
    files: DropState,
    pointer: PointerFrame,
    snapshot: TerminalSnapshot,
)
    requires
        tab.search_open && !clicks.close && clicks.entered,
        presses_no_key(events),
    ensures
        ({
            let start = input_start(after_search_bar(tab, clicks));
            let pressed = InputEvent::Key { key, pressed: true, modifiers };
            frame_steps(start, events.push(pressed), frame, files, pointer, snapshot) == (
            InputView {
                enter_consumed: false,
                ..frame_steps(start, events, frame, files, pointer, snapshot)
            })
        }),
{
    let start = input_start(after_search_bar(tab, clicks));
    lemma_frame_ignores_the_enter(
        start,
        events,
        key,
        modifiers,
        frame,
        files,
        pointer,
        snapshot,
    );
}

/// The menu of a terminal copies what is selected, where something is; selecting all selects the
/// whole screen, clearing forgets the selection and the results, and searching opens the search and
/// gives it the keyboard. Nothing else of the tab changes.
pub proof fn law_terminal_menu_does_what_it_says(tab: TabView, snapshot: TerminalSnapshot)
    ensures
        tab.typing.selection matches Some(selection) ==> terminal_menu_step(
            tab,
            TerminalMenuAction::Copy,
        ) == TerminalMenuStep::CopySelection(selection),
        tab.typing.selection is None ==> terminal_menu_step(tab, TerminalMenuAction::Copy)
            is Nothing,
        terminal_menu_step(tab, TerminalMenuAction::Paste) is Paste,
        terminal_menu_step(tab, TerminalMenuAction::Search) is SearchAgain,
        terminal_menu_step(tab, TerminalMenuAction::Clear) is ClearBuffer,
        after_terminal_menu(tab, TerminalMenuAction::Copy, snapshot) == tab,
        after_terminal_menu(tab, TerminalMenuAction::Paste, snapshot) == tab,
        ({
            let all = after_terminal_menu(tab, TerminalMenuAction::SelectAll, snapshot);
            &&& all.typing.selection matches Some(selection) && selection.anchor == (0usize, 0usize)
                && (snapshot.rows > 0 ==> selection.active.0 + 1 == snapshot.rows) && (snapshot.cols
                > 0 ==> selection.active.1 + 1 == snapshot.cols)
            &&& (TabView {
                typing: TypingView { selection: tab.typing.selection, ..all.typing },
                ..all
            }) == tab
        }),
        ({
            let found = after_terminal_menu(tab, TerminalMenuAction::Search, snapshot);
            found.search_open && found.search.focus_requested && found.search.matches
                == tab.search.matches && found.typing == tab.typing
        }),
        ({
            let clear = after_terminal_menu(tab, TerminalMenuAction::Clear, snapshot);
            clear.typing.selection is None && clear.search.matches.len() == 0
                && clear.search.current is None && clear.search.query == tab.search.query
                && clear.search_open == tab.search_open && clear.typing.line == tab.typing.line
        }),
        FORM_FEED == 12,
{
}

/// A query that is typed shows what was found for it; the current result stays where there still is
/// one of that number, and otherwise the first one is current. A blank query finds nothing.
pub proof fn law_typed_query_shows_its_results(
    search: SearchView,
    query: Seq<char>,
    found: Seq<TerminalSearchMatch>,
)
    ensures
        ({
            let next = search_typed(search, query, found);
            &&& next.query == query
            &&& trimmed(query).len() == 0 ==> next.matches.len() == 0 && next.current is None
            &&& trimmed(query).len() > 0 ==> next.matches == found
            &&& trimmed(query).len() > 0 && found.len() == 0 ==> next.current is None
            &&& trimmed(query).len() > 0 && found.len() > 0 && search.current is None
                ==> next.current == Some(0usize)
            &&& trimmed(query).len() > 0 && found.len() > 0 ==> (search.current matches Some(index)
                ==> next.current == Some(
                if index < found.len() {
                    index
                } else {
                    0usize
                },
            ))
        }),
{
}

/// The bar of an open search steps through the results: forwards by one, backwards by one, around
/// the ends. It takes the keyboard back after a step, and closes when asked to.
pub proof fn law_bar_steps_through_results(tab: TabView, clicks: SearchClicks)
    requires
        tab.search_open,
        clicks.typed is None,
        tab.search.matches.len() > 0,
        tab.search.matches.len() <= usize::MAX,
        tab.search.current matches Some(index) ==> index < tab.search.matches.len(),
        tab.search.current is Some,
    ensures
        ({
            let next = after_search_bar(tab, clicks);
            let index = tab.search.current->Some_0;
            let total = tab.search.matches.len();
            &&& next.search.matches == tab.search.matches && next.search.query == tab.search.query
            &&& clicks.next && !clicks.previous && index + 1 < total ==> next.search.current == Some(
                (index + 1) as usize,
            )
            &&& clicks.next && !clicks.previous && index + 1 == total ==> next.search.current
                == Some(0usize)
            &&& clicks.previous && !clicks.next && index > 0 ==> next.search.current == Some(
                (index - 1) as usize,
            )
            &&& clicks.previous && !clicks.next && index == 0 ==> next.search.current == Some(
                (total - 1) as usize,
            )
            &&& !clicks.next && !clicks.previous ==> next.search.current == tab.search.current
            &&& next.search.focus_requested == (clicks.next || clicks.previous)
            &&& next.search_open == !clicks.close
            &&& clicks.entered ==> next.search_enter_consumed
            &&& !clicks.entered ==> next.search_enter_consumed == tab.search_enter_consumed
            &&& next.typing == tab.typing && next.id == tab.id
        }),
{
}

/// A search that is not open is not touched by its bar.
pub proof fn law_closed_search_is_left_alone(tab: TabView, clicks: SearchClicks)
    requires
        !tab.search_open,
    ensures
        after_search_bar(tab, clicks) == tab,
{
}

/// The panel for files follows a submitted line only in an SSH session whose user wants that, and
/// with the directory in view as the one that the line starts from.
pub proof fn law_files_follow_submitted_lines(
    line: Seq<char>,
    prefs: TerminalPrefs,
    is_ssh: bool,
    panel: PanelView,
    previous: Option<Seq<char>>,
)
    ensures
        !prefs.sftp_sync_cwd || !is_ssh ==> submitted_target(
            Some(line),
            prefs,
            is_ssh,
            Some(panel),
            previous,
        ) is None,
        submitted_target(None, prefs, is_ssh, Some(panel), previous) is None,
        submitted_target(Some(line), prefs, is_ssh, None, previous) is None,
        prefs.sftp_sync_cwd && is_ssh ==> submitted_target(
            Some(line),
            prefs,
            is_ssh,
            Some(panel),
            previous,
        ) == crate::desktop::line::cd_target(line, panel.cwd, previous),
{
}

} // verus!
