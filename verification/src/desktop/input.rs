//! What a terminal makes of a frame's keyboard, pointer and drop events: the bytes it writes, the
//! selection, and the line that is being typed.

use crate::desktop::keys::{key_bytes, key_event_to_bytes, letter, letter_number, Key, Modifiers};
use crate::desktop::line::{
    cd_target, delete_last_word, double_quoted, resolve_cd_target, shell_quote_path,
    shell_quote_path_for_windows, single_quoted, without_last_word,
};
use crate::desktop::screen::{
    clicked_col, least, select_line, select_word_at, word_end, word_start, TerminalSnapshot,
    TextSelection,
};
use crate::json::opt_text;
use crate::text::{control, is_control, join, joined, texts};
use vstd::prelude::*;
use vstd::string::*;
use vstd::utf8::encode_utf8;

verus! {

/// What the user prefers of a terminal. `modal_open` says that a dialog is open, to which the
/// control keys belong.
#[derive(Clone, Copy, Debug, PartialEq, Eq, Structural)]
pub struct TerminalPrefs {
    pub copy_on_select: bool,
    pub middle_click_paste: bool,
    pub sftp_sync_cwd: bool,
    pub modal_open: bool,
}

#[derive(Clone, Copy, Debug, PartialEq, Eq, Structural)]
pub enum PointerButton {
    Primary,
    Middle,
    Other,
}

/// Where the pointer is: over the terminal itself or not, and on which cell of the screen.
#[derive(Clone, Copy, Debug, PartialEq, Eq)]
pub struct PointerPlace {
    pub over_terminal: bool,
    pub cell: Option<(usize, usize)>,
}

impl PointerPlace {
    /// The cell that the pointer is on, where it is over the terminal.
    pub open spec fn target(self) -> Option<(usize, usize)> {
        if self.over_terminal {
            self.cell
        } else {
            None
        }
    }

    fn target_cell(&self) -> (r: Option<(usize, usize)>)
        ensures
            r == self.target(),
    {
        if self.over_terminal {
            self.cell
        } else {
            None
        }
    }
}

pub enum InputEvent {
    Copy,
    Text(String),
    Paste(String),
    ImeCommit(String),
    Key { key: Key, pressed: bool, modifiers: Modifiers },
    /// Whole lines that the wheel turned by.
    Wheel { lines: i32, modifiers: Modifiers },
    Pointer { button: PointerButton, pressed: bool, place: PointerPlace },
    WindowFocused(bool),
    Other,
}

/// What holds throughout a frame. `owns_keys` says that no other control has the keyboard.
#[derive(Clone, Copy, Debug, PartialEq, Eq, Structural)]
pub struct InputFrame {
    pub owns_keys: bool,
    pub modifiers: Modifiers,
    pub prefs: TerminalPrefs,
    pub windows: bool,
}

/// Files that were dropped, or that hover.
pub struct DropState {
    pub over_terminal: bool,
    pub hovering_files: bool,
    pub dropped: Vec<String>,
}

/// Where the pointer drags a selection to. Beyond an edge it scrolls by whole lines and the
/// selection reaches to a column of that edge.
#[derive(Clone, Copy, Debug, PartialEq, Eq, Structural)]
pub enum DragEdge {
    Inside,
    Below { lines: u32, col: usize },
    Above { lines: u32, col: usize },
}

#[derive(Clone, Copy, Debug, PartialEq, Eq)]
pub struct DragState {
    pub edge: DragEdge,
    pub place: PointerPlace,
}

/// What the pointer did in a frame besides its events.
#[derive(Clone, Copy, Debug, PartialEq, Eq)]
pub struct PointerFrame {
    pub double_clicked: bool,
    pub triple_clicked: bool,
    pub primary_down: bool,
    pub drag: Option<DragState>,
}

/// What is to be done, in order.
pub enum TerminalAction {
    PasteText(String),
    PasteClipboard,
    RefreshSearch,
    InsertText(String),
    CopySelection(TextSelection),
    SetFocused(bool),
    ScrollLines(i64),
    Write(Vec<u8>),
}

pub ghost enum ActionView {
    PasteText(Seq<char>),
    PasteClipboard,
    RefreshSearch,
    InsertText(Seq<char>),
    CopySelection(TextSelection),
    SetFocused(bool),
    ScrollLines(int),
    Write(Seq<u8>),
}

impl TerminalAction {
    pub open spec fn action(self) -> ActionView {
        match self {
            TerminalAction::PasteText(text) => ActionView::PasteText(text@),
            TerminalAction::PasteClipboard => ActionView::PasteClipboard,
            TerminalAction::RefreshSearch => ActionView::RefreshSearch,
            TerminalAction::InsertText(text) => ActionView::InsertText(text@),
            TerminalAction::CopySelection(selection) => ActionView::CopySelection(selection),
            TerminalAction::SetFocused(focused) => ActionView::SetFocused(focused),
            TerminalAction::ScrollLines(lines) => ActionView::ScrollLines(lines as int),
            TerminalAction::Write(bytes) => ActionView::Write(bytes@),
        }
    }
}

pub open spec fn actions(list: Seq<TerminalAction>) -> Seq<ActionView> {
    Seq::new(list.len(), |i: int| list[i].action())
}

pub open spec fn byte_lists(list: Seq<Vec<u8>>) -> Seq<Seq<u8>> {
    Seq::new(list.len(), |i: int| list[i]@)
}

fn act(list: &mut Vec<TerminalAction>, action: TerminalAction)
    ensures
        actions(final(list)@) == actions(old(list)@).push(action.action()),
{
    list.push(action);
    assert(actions(list@) =~= actions(old(list)@).push(action.action()));
}

/// A primary button that went down or up.
#[derive(Clone, Copy, Debug, PartialEq, Eq)]
pub struct PointerPress {
    pub place: PointerPlace,
    pub pressed: bool,
}

/// What a terminal keeps of its input from frame to frame.
pub struct TerminalInput {
    pub input_line: String,
    pub input_line_unreliable: bool,
    pub search_open: bool,
    pub search_enter_consumed: bool,
    pub search_focus_requested: bool,
    pub selection: Option<TextSelection>,
    pub selection_active: bool,
    pub selection_dragged: bool,
    pub focused: bool,
    pub drop_hovering: bool,
}

/// What the events of a frame have come to so far.
pub struct InputEffects {
    pub done: Vec<TerminalAction>,
    pub writes: Vec<Vec<u8>>,
    pub presses: Vec<PointerPress>,
    pub scroll_lines: i32,
    pub copy_requested: bool,
    pub focus_changed: bool,
    pub submitted: Option<(String, bool)>,
}

/// The state of a terminal's input and the effects so far.
#[verifier::ext_equal]
pub ghost struct InputView {
    pub line: Seq<char>,
    pub unreliable: bool,
    pub search_open: bool,
    pub enter_consumed: bool,
    pub search_focus: bool,
    pub selection: Option<TextSelection>,
    pub selection_active: bool,
    pub selection_dragged: bool,
    pub focused: bool,
    pub drop_hovering: bool,
    pub done: Seq<ActionView>,
    pub writes: Seq<Seq<u8>>,
    pub presses: Seq<PointerPress>,
    pub scroll: int,
    pub copy: bool,
    pub focus_changed: bool,
    pub submitted: Option<(Seq<char>, bool)>,
}

pub open spec fn input_view(state: TerminalInput, effects: InputEffects) -> InputView {
    InputView {
        line: state.input_line@,
        unreliable: state.input_line_unreliable,
        search_open: state.search_open,
        enter_consumed: state.search_enter_consumed,
        search_focus: state.search_focus_requested,
        selection: state.selection,
        selection_active: state.selection_active,
        selection_dragged: state.selection_dragged,
        focused: state.focused,
        drop_hovering: state.drop_hovering,
        done: actions(effects.done@),
        writes: byte_lists(effects.writes@),
        presses: effects.presses@,
        scroll: effects.scroll_lines as int,
        copy: effects.copy_requested,
        focus_changed: effects.focus_changed,
        submitted: match effects.submitted {
            Some(submitted) => Some((submitted.0@, submitted.1)),
            None => None,
        },
    }
}

/// Whether a text holds anything to be written.
pub open spec fn is_printable(text: Seq<char>) -> bool {
    exists|i: int| 0 <= i < text.len() && !is_control(#[trigger] text[i])
}

fn printable(text: &str) -> (r: bool)
    ensures
        r == is_printable(text@),
{
    let total: usize = text.unicode_len();
    let mut i: usize = 0;
    while i < total
        invariant
            i <= total == text@.len(),
            forall|j: int| 0 <= j < i ==> is_control(#[trigger] text@[j]),
        decreases total - i,
    {
        if !control(text.get_char(i)) {
            assert(!is_control(text@[i as int]));
            return true;
        }
        i = i + 1;
    }
    false
}

/// Typed text goes to the terminal and to the line. With the alt key it is an editing command, and
/// what is on the line is no longer known.
pub open spec fn text_step(v: InputView, text: Seq<char>, frame: InputFrame) -> InputView {
    if frame.owns_keys && !v.search_open && is_printable(text) && !frame.modifiers.mac_cmd {
        if frame.modifiers.alt {
            InputView {
                unreliable: true,
                writes: v.writes.push(seq![0x1bu8] + encode_utf8(text)),
                ..v
            }
        } else {
            InputView { line: v.line + text, writes: v.writes.push(encode_utf8(text)), ..v }
        }
    } else {
        v
    }
}

pub open spec fn paste_step(v: InputView, text: Seq<char>, frame: InputFrame) -> InputView {
    if frame.owns_keys && !v.search_open {
        InputView { unreliable: true, done: v.done.push(ActionView::PasteText(text)), ..v }
    } else {
        v
    }
}

pub open spec fn commit_step(v: InputView, text: Seq<char>, frame: InputFrame) -> InputView {
    if frame.owns_keys && !v.search_open && text.len() > 0 && !frame.modifiers.mac_cmd {
        InputView { line: v.line + text, writes: v.writes.push(encode_utf8(text)), ..v }
    } else {
        v
    }
}

/// Whether a key leaves the line in a state that only the shell knows.
pub open spec fn moves_on_line(key: Key) -> bool {
    match key {
        Key::Tab
        | Key::ArrowLeft
        | Key::ArrowRight
        | Key::ArrowUp
        | Key::ArrowDown
        | Key::Home
        | Key::End
        | Key::Delete => true,
        _ => false,
    }
}

/// What a key press does to the line.
pub open spec fn line_step(v: InputView, key: Key, ctrl: bool) -> InputView {
    let first = match key {
        Key::Enter => InputView {
            line: Seq::empty(),
            unreliable: false,
            submitted: Some((v.line, v.unreliable)),
            ..v
        },
        Key::Backspace => InputView {
            line: if v.line.len() > 0 {
                v.line.drop_last()
            } else {
                v.line
            },
            ..v
        },
        _ => if moves_on_line(key) {
            InputView { unreliable: true, ..v }
        } else {
            v
        },
    };
    if !ctrl {
        first
    } else {
        match key {
            Key::C | Key::U => InputView { line: Seq::empty(), unreliable: false, ..first },
            Key::W => InputView { line: without_last_word(first.line), ..first },
            _ => first,
        }
    }
}

/// Whether a key goes to the terminal though a button or the like has the keyboard: the control
/// keys do, so that a program can be interrupted.
pub open spec fn forwards_control(v: InputView, key: Key, pressed: bool, modifiers: Modifiers, frame: InputFrame) -> bool {
    !v.search_open && !frame.prefs.modal_open && pressed && modifiers.ctrl && letter_number(key) is Some
}

pub open spec fn key_step(
    v: InputView,
    key: Key,
    pressed: bool,
    modifiers: Modifiers,
    frame: InputFrame,
) -> InputView {
    if v.search_open && pressed && v.enter_consumed {
        InputView { enter_consumed: false, ..v }
    } else if v.search_open && pressed && key == Key::Escape {
        InputView { search_open: false, ..v }
    } else if !frame.owns_keys && (v.search_open || !forwards_control(
        v,
        key,
        pressed,
        modifiers,
        frame,
    )) {
        v
    } else if pressed && modifiers.command && key == Key::F {
        InputView {
            search_open: true,
            search_focus: true,
            done: v.done.push(ActionView::RefreshSearch),
            ..v
        }
    } else {
        let noted = if pressed {
            line_step(v, key, modifiers.ctrl)
        } else {
            v
        };
        match key_bytes(key, modifiers, pressed) {
            Some(bytes) => InputView { writes: noted.writes.push(bytes), ..noted },
            None => noted,
        }
    }
}

/// Whether the wheel scrolls: with the control key it zooms.
pub open spec fn wheel_scrolls(modifiers: Modifiers) -> bool {
    !modifiers.ctrl && !modifiers.command
}

pub open spec fn event_step(v: InputView, event: InputEvent, frame: InputFrame) -> InputView {
    match event {
        InputEvent::Copy => InputView { copy: true, ..v },
        InputEvent::Text(text) => text_step(v, text@, frame),
        InputEvent::Paste(text) => paste_step(v, text@, frame),
        InputEvent::ImeCommit(text) => commit_step(v, text@, frame),
        InputEvent::Key { key, pressed, modifiers } => key_step(v, key, pressed, modifiers, frame),
        InputEvent::Wheel { lines, modifiers } => if wheel_scrolls(modifiers) {
            InputView { scroll: v.scroll + lines, ..v }
        } else {
            v
        },
        InputEvent::Pointer { button, pressed, place } => match button {
            PointerButton::Primary => InputView {
                presses: v.presses.push(PointerPress { place, pressed }),
                ..v
            },
            PointerButton::Middle => if pressed && frame.prefs.middle_click_paste {
                InputView { done: v.done.push(ActionView::PasteClipboard), ..v }
            } else {
                v
            },
            PointerButton::Other => v,
        },
        InputEvent::WindowFocused(focused) => InputView { focused, focus_changed: true, ..v },
        InputEvent::Other => v,
    }
}

/// The lines that the wheel turned by in a list of events.
pub open spec fn wheel_total(events: Seq<InputEvent>) -> int
    decreases events.len(),
{
    if events.len() == 0 {
        0
    } else {
        wheel_total(events.drop_last()) + (match events.last() {
            InputEvent::Wheel { lines, modifiers } => if wheel_scrolls(modifiers) {
                lines as int
            } else {
                0
            },
            _ => 0,
        })
    }
}

/// The wheel turns by no more than a number can hold, at any time.
pub open spec fn wheel_fits(events: Seq<InputEvent>) -> bool {
    forall|n: int|
        0 <= n <= events.len() ==> i32::MIN <= #[trigger] wheel_total(events.take(n)) <= i32::MAX
}

/// What a list of events comes to.
pub open spec fn events_step(v: InputView, events: Seq<InputEvent>, frame: InputFrame) -> InputView
    decreases events.len(),
{
    if events.len() == 0 {
        v
    } else {
        event_step(events_step(v, events.drop_last(), frame), events.last(), frame)
    }
}

fn byte_copy(text: &str, escaped: bool) -> (r: Vec<u8>)
    ensures
        r@ == (if escaped {
            seq![0x1bu8] + encode_utf8(text@)
        } else {
            encode_utf8(text@)
        }),
{
    let mut out: Vec<u8> = Vec::new();
    if escaped {
        out.push(0x1b);
    }
    out.extend_from_slice(text.as_bytes());
    assert(out@ =~= (if escaped {
        seq![0x1bu8] + encode_utf8(text@)
    } else {
        encode_utf8(text@)
    }));
    out
}

/// Drops the last character of a text.
fn drop_last_char(text: &mut String)
    ensures
        final(text)@ == (if old(text)@.len() > 0 {
            old(text)@.drop_last()
        } else {
            old(text)@
        }),
{
    let total: usize = text.as_str().unicode_len();
    if total > 0 {
        let shorter = text.as_str().substring_char(0, total - 1).to_owned();
        assert(shorter@ =~= old(text)@.drop_last());
        *text = shorter;
    }
}

impl InputEffects {
    pub fn new() -> (r: Self)
        ensures
            r.done@.len() == 0 && r.writes@.len() == 0 && r.presses@.len() == 0,
            r.scroll_lines == 0 && !r.copy_requested && !r.focus_changed && r.submitted is None,
    {
        InputEffects {
            done: Vec::new(),
            writes: Vec::new(),
            presses: Vec::new(),
            scroll_lines: 0,
            copy_requested: false,
            focus_changed: false,
            submitted: None,
        }
    }

    fn write(&mut self, bytes: Vec<u8>)
        ensures
            byte_lists(final(self).writes@) == byte_lists(old(self).writes@).push(bytes@),
            final(self).done == old(self).done,
            final(self).presses == old(self).presses,
            final(self).scroll_lines == old(self).scroll_lines,
            final(self).copy_requested == old(self).copy_requested,
            final(self).focus_changed == old(self).focus_changed,
            final(self).submitted == old(self).submitted,
    {
        self.writes.push(bytes);
        assert(byte_lists(self.writes@) =~= byte_lists(old(self).writes@).push(bytes@));
    }
}

impl TerminalInput {
    pub fn new() -> (r: Self)
        ensures
            r.input_line@.len() == 0 && !r.input_line_unreliable,
            !r.search_open && !r.search_enter_consumed && !r.search_focus_requested,
            r.selection is None && !r.selection_active && !r.selection_dragged,
            !r.focused && !r.drop_hovering,
    {
        TerminalInput {
            input_line: String::new(),
            input_line_unreliable: false,
            search_open: false,
            search_enter_consumed: false,
            search_focus_requested: false,
            selection: None,
            selection_active: false,
            selection_dragged: false,
            focused: false,
            drop_hovering: false,
        }
    }

    /// Forgets the line and the selection, as for a new connection.
    pub fn reset(&mut self)
        ensures
            final(self).input_line@.len() == 0 && !final(self).input_line_unreliable,
            final(self).selection is None && !final(self).selection_active,
            !final(self).drop_hovering && !final(self).search_enter_consumed,
            final(self).search_open == old(self).search_open,
            final(self).search_focus_requested == old(self).search_focus_requested,
            final(self).selection_dragged == old(self).selection_dragged,
            final(self).focused == old(self).focused,
    {
        self.input_line = String::new();
        self.input_line_unreliable = false;
        self.selection = None;
        self.selection_active = false;
        self.drop_hovering = false;
        self.search_enter_consumed = false;
    }

    fn track_line(&mut self, effects: &mut InputEffects, key: Key, ctrl: bool)
        ensures
            input_view(*final(self), *final(effects)) == line_step(
                input_view(*old(self), *old(effects)),
                key,
                ctrl,
            ),
    {
        match key {
            Key::Enter => {
                let mut line = String::new();
                std::mem::swap(&mut line, &mut self.input_line);
                let unreliable = self.input_line_unreliable;
                self.input_line_unreliable = false;
                effects.submitted = Some((line, unreliable));
                assert(self.input_line@ =~= Seq::empty());
            },
            Key::Backspace => {
                drop_last_char(&mut self.input_line);
            },
            Key::Tab
            | Key::ArrowLeft
            | Key::ArrowRight
            | Key::ArrowUp
            | Key::ArrowDown
            | Key::Home
            | Key::End
            | Key::Delete => {
                self.input_line_unreliable = true;
            },
            _ => {},
        }
        if ctrl {
            match key {
                Key::C | Key::U => {
                    self.input_line = String::new();
                    self.input_line_unreliable = false;
                    assert(self.input_line@ =~= Seq::empty());
                },
                Key::W => {
                    delete_last_word(&mut self.input_line);
                },
                _ => {},
            }
        }
    }

    fn handle_key(
        &mut self,
        effects: &mut InputEffects,
        key: Key,
        pressed: bool,
        modifiers: Modifiers,
        frame: &InputFrame,
    )
        ensures
            input_view(*final(self), *final(effects)) == key_step(
                input_view(*old(self), *old(effects)),
                key,
                pressed,
                modifiers,
                *frame,
            ),
    {
        if self.search_open && pressed {
            if self.search_enter_consumed {
                self.search_enter_consumed = false;
                return;
            }
            if key == Key::Escape {
                self.search_open = false;
                return;
            }
        }
        if !frame.owns_keys {
            let forward_control = !self.search_open && !frame.prefs.modal_open && pressed
                && modifiers.ctrl && letter(key).is_some();
            if self.search_open || !forward_control {
                return;
            }
        }
        if pressed && modifiers.command && key == Key::F {
            self.search_open = true;
            self.search_focus_requested = true;
            act(&mut effects.done, TerminalAction::RefreshSearch);
            return;
        }
        if pressed {
            self.track_line(effects, key, modifiers.ctrl);
        }
        match key_event_to_bytes(key, modifiers, pressed) {
            Some(bytes) => {
                effects.write(bytes);
            },
            None => {},
        }
    }

    /// Takes up one event.
    pub fn handle_event(&mut self, effects: &mut InputEffects, event: &InputEvent, frame: &InputFrame)
        requires
            *event matches InputEvent::Wheel { lines, modifiers } ==> wheel_scrolls(modifiers)
                ==> i32::MIN <= old(effects).scroll_lines + lines <= i32::MAX,
        ensures
            input_view(*final(self), *final(effects)) == event_step(
                input_view(*old(self), *old(effects)),
                *event,
                *frame,
            ),
    {
        match event {
            InputEvent::Copy => {
                effects.copy_requested = true;
            },
            InputEvent::Text(text) => {
                if frame.owns_keys && !self.search_open && printable(text.as_str())
                    && !frame.modifiers.mac_cmd {
                    let bytes = byte_copy(text.as_str(), frame.modifiers.alt);
                    if frame.modifiers.alt {
                        self.input_line_unreliable = true;
                    } else {
                        self.input_line.append(text.as_str());
                    }
                    effects.write(bytes);
                }
            },
            InputEvent::Paste(text) => {
                if frame.owns_keys && !self.search_open {
                    self.input_line_unreliable = true;
                    act(&mut effects.done, TerminalAction::PasteText(text.clone()));
                }
            },
            InputEvent::ImeCommit(text) => {
                if frame.owns_keys && !self.search_open && !text.as_str().is_empty()
                    && !frame.modifiers.mac_cmd {
                    self.input_line.append(text.as_str());
                    effects.write(byte_copy(text.as_str(), false));
                }
            },
            InputEvent::Key { key, pressed, modifiers } => {
                self.handle_key(effects, *key, *pressed, *modifiers, frame);
            },
            InputEvent::Wheel { lines, modifiers } => {
                if !modifiers.ctrl && !modifiers.command {
                    effects.scroll_lines = effects.scroll_lines + *lines;
                }
            },
            InputEvent::Pointer { button, pressed, place } => match button {
                PointerButton::Primary => {
                    effects.presses.push(PointerPress { place: *place, pressed: *pressed });
                },
                PointerButton::Middle => {
                    if *pressed && frame.prefs.middle_click_paste {
                        act(&mut effects.done, TerminalAction::PasteClipboard);
                    }
                },
                PointerButton::Other => {},
            },
            InputEvent::WindowFocused(focused) => {
                self.focused = *focused;
                effects.focus_changed = true;
            },
            InputEvent::Other => {},
        }
    }
}

/// What the shell gets of dropped files: their quoted paths, each followed by a blank.
pub open spec fn quoted_paths(paths: Seq<Seq<char>>, windows: bool) -> Seq<Seq<char>> {
    Seq::new(
        paths.len(),
        |i: int|
            if windows {
                double_quoted(paths[i])
            } else {
                single_quoted(paths[i])
            },
    )
}

pub open spec fn drop_text(paths: Seq<Seq<char>>, windows: bool) -> Seq<char> {
    joined(quoted_paths(paths, windows), " "@) + " "@
}

fn drop_insertion(paths: &Vec<String>, windows: bool) -> (r: String)
    ensures
        r@ == drop_text(texts(paths@), windows),
{
    let mut quoted: Vec<String> = Vec::new();
    let mut i: usize = 0;
    while i < paths.len()
        invariant
            i <= paths.len(),
            quoted@.len() == i,
            forall|k: int|
                0 <= k < i ==> (#[trigger] quoted@[k])@ == quoted_paths(texts(paths@), windows)[k],
        decreases paths.len() - i,
    {
        let text = if windows {
            shell_quote_path_for_windows(paths[i].as_str())
        } else {
            shell_quote_path(paths[i].as_str())
        };
        quoted.push(text);
        i = i + 1;
    }
    assert(texts(quoted@) =~= quoted_paths(texts(paths@), windows));
    let mut out = join(quoted.as_slice(), " ");
    out.append(" ");
    out
}

/// Dropped files go to the shell where they were dropped on the terminal, or hovered over it last.
pub open spec fn drop_step(v: InputView, dropped: Seq<Seq<char>>, taken: bool, windows: bool) -> InputView {
    if taken && dropped.len() > 0 {
        let text = drop_text(dropped, windows);
        InputView {
            line: v.line + text,
            done: v.done.push(ActionView::InsertText(text)),
            ..v
        }
    } else {
        v
    }
}

/// A selection that is copied, where there is one.
pub open spec fn copy_step(v: InputView) -> InputView {
    match v.selection {
        Some(selection) => InputView {
            done: v.done.push(ActionView::CopySelection(selection)),
            ..v
        },
        None => v,
    }
}

/// The word under a cell.
pub open spec fn word_selection(snapshot: TerminalSnapshot, cell: (usize, usize)) -> TextSelection {
    let cells = snapshot.lines@[cell.0 as int].cells@;
    TextSelection {
        anchor: (cell.0, word_start(cells, clicked_col(cells, cell.1)) as usize),
        active: (cell.0, word_end(cells, clicked_col(cells, cell.1)) as usize),
    }
}

pub open spec fn row_selection(snapshot: TerminalSnapshot, row: usize) -> TextSelection {
    TextSelection {
        anchor: (row, 0),
        active: (
            row,
            if snapshot.cols == 0 {
                0
            } else {
                (snapshot.cols - 1) as usize
            },
        ),
    }
}

/// What a primary button that goes down or up does. A press starts a selection, a release ends it:
/// three clicks take the row, two the word, and a single one without dragging takes nothing.
pub open spec fn press_step(
    v: InputView,
    press: PointerPress,
    pointer: PointerFrame,
    prefs: TerminalPrefs,
    snapshot: TerminalSnapshot,
) -> InputView {
    if press.pressed {
        down_step(v, press.place)
    } else {
        up_step(v, press.place, pointer, prefs, snapshot)
    }
}

pub open spec fn down_step(v: InputView, place: PointerPlace) -> InputView {
    let started = match place.target() {
        Some(cell) => InputView {
            selection: Some(TextSelection { anchor: cell, active: cell }),
            selection_active: true,
            selection_dragged: false,
            ..v
        },
        None => v,
    };
    if started.focused {
        started
    } else {
        InputView { focused: true, focus_changed: true, ..started }
    }
}

/// A selection that was made by clicks.
pub open spec fn selected_step(v: InputView, selection: TextSelection, copy: bool) -> InputView {
    if copy {
        copy_step(InputView { selection: Some(selection), ..v })
    } else {
        InputView { selection: Some(selection), ..v }
    }
}

pub open spec fn up_step(
    v: InputView,
    place: PointerPlace,
    pointer: PointerFrame,
    prefs: TerminalPrefs,
    snapshot: TerminalSnapshot,
) -> InputView {
    let ended = if pointer.triple_clicked {
        match place.target() {
            Some(cell) => selected_step(v, row_selection(snapshot, cell.0), prefs.copy_on_select),
            None => v,
        }
    } else if pointer.double_clicked {
        match place.target() {
            Some(cell) => selected_step(v, word_selection(snapshot, cell), prefs.copy_on_select),
            None => v,
        }
    } else if !v.selection_dragged {
        InputView { selection: None, ..v }
    } else if prefs.copy_on_select {
        copy_step(v)
    } else {
        v
    };
    InputView { selection_active: false, ..ended }
}

pub open spec fn presses_step(
    v: InputView,
    presses: Seq<PointerPress>,
    pointer: PointerFrame,
    prefs: TerminalPrefs,
    snapshot: TerminalSnapshot,
) -> InputView
    decreases presses.len(),
{
    if presses.len() == 0 {
        v
    } else {
        press_step(
            presses_step(v, presses.drop_last(), pointer, prefs, snapshot),
            presses.last(),
            pointer,
            prefs,
            snapshot,
        )
    }
}

pub open spec fn less(a: usize, b: int) -> usize {
    if a < b {
        0
    } else {
        (a - b) as usize
    }
}

/// A selection that is dragged beyond an edge follows what scrolls in there.
pub open spec fn edge_step(v: InputView, edge: DragEdge, rows: usize) -> InputView {
    match (edge, v.selection) {
        (DragEdge::Below { lines, col }, Some(selection)) => if lines > 0 {
            InputView {
                selection: Some(
                    TextSelection {
                        anchor: (less(selection.anchor.0, lines as int), selection.anchor.1),
                        active: (less(rows, 1), col),
                    },
                ),
                selection_dragged: true,
                ..v
            }
        } else {
            v
        },
        (DragEdge::Above { lines, col }, Some(selection)) => if lines > 0 {
            InputView {
                selection: Some(
                    TextSelection {
                        anchor: (0, col),
                        active: (
                            least(selection.active.0 + lines, less(rows, 1) as int) as usize,
                            selection.active.1,
                        ),
                    },
                ),
                selection_dragged: true,
                ..v
            }
        } else {
            v
        },
        _ => v,
    }
}

/// By how much dragging beyond an edge scrolls: back for the upper one.
pub open spec fn edge_scroll(edge: DragEdge) -> int {
    match edge {
        DragEdge::Inside => 0,
        DragEdge::Below { lines, .. } => -(lines as int),
        DragEdge::Above { lines, .. } => lines as int,
    }
}

/// The selection follows the pointer over the terminal.
pub open spec fn follow_step(v: InputView, place: PointerPlace) -> InputView {
    match (place.target(), v.selection) {
        (Some(cell), Some(selection)) => if selection.active != cell {
            InputView {
                selection: Some(TextSelection { active: cell, ..selection }),
                selection_dragged: true,
                ..v
            }
        } else {
            v
        },
        _ => v,
    }
}

/// Whether a selection is being dragged, and where to.
pub open spec fn active_drag(v: InputView, pointer: PointerFrame) -> Option<DragState> {
    if v.selection_active && pointer.primary_down {
        pointer.drag
    } else {
        None
    }
}

pub open spec fn drag_step(v: InputView, pointer: PointerFrame, rows: usize) -> InputView {
    match active_drag(v, pointer) {
        Some(drag) => follow_step(edge_step(v, drag.edge, rows), drag.place),
        None => v,
    }
}

pub open spec fn drag_scroll(v: InputView, pointer: PointerFrame) -> int {
    match active_drag(v, pointer) {
        Some(drag) => edge_scroll(drag.edge),
        None => 0,
    }
}

pub open spec fn writes_of(list: Seq<Seq<u8>>) -> Seq<ActionView> {
    Seq::new(list.len(), |i: int| ActionView::Write(list[i]))
}

/// What is done at the end of a frame: a copy that was asked for, the focus, scrolling, and what is
/// written. Scrolling by the wheel and writing end the selection.
pub open spec fn finish_step(v: InputView, dragged: int) -> InputView {
    let copied = if v.copy {
        copy_step(v)
    } else {
        v
    };
    InputView {
        selection: if v.scroll != 0 || v.writes.len() > 0 {
            None
        } else {
            v.selection
        },
        done: copied.done + (if v.focus_changed {
            seq![ActionView::SetFocused(v.focused)]
        } else {
            Seq::empty()
        }) + (if dragged != 0 {
            seq![ActionView::ScrollLines(dragged)]
        } else {
            Seq::empty()
        }) + (if v.scroll != 0 {
            seq![ActionView::ScrollLines(v.scroll)]
        } else {
            Seq::empty()
        }) + writes_of(v.writes),
        ..v
    }
}

/// The line that was submitted, where it is known.
pub open spec fn submitted_line(v: InputView) -> Option<Seq<char>> {
    match v.submitted {
        Some(submitted) => if submitted.1 {
            None
        } else {
            Some(submitted.0)
        },
        None => None,
    }
}

pub open spec fn hover_step(v: InputView, over: bool, hovering: bool) -> InputView {
    InputView { drop_hovering: over && hovering, ..v }
}

/// What a frame comes to, from its events to its end.
pub open spec fn frame_steps(
    v: InputView,
    events: Seq<InputEvent>,
    frame: InputFrame,
    files: DropState,
    pointer: PointerFrame,
    snapshot: TerminalSnapshot,
) -> InputView {
    let taken = files.over_terminal || v.drop_hovering;
    let read = events_step(
        hover_step(v, files.over_terminal, files.hovering_files),
        events,
        frame,
    );
    let dropped = drop_step(read, texts(files.dropped@), taken, frame.windows);
    let pressed = presses_step(dropped, dropped.presses, pointer, frame.prefs, snapshot);
    finish_step(drag_step(pressed, pointer, snapshot.rows), drag_scroll(pressed, pointer))
}

/// The cells that events and drags name are on the screen.
pub open spec fn place_fits(place: PointerPlace, snapshot: TerminalSnapshot) -> bool {
    place.cell matches Some(cell) ==> cell.0 < snapshot.lines@.len()
}

pub open spec fn presses_fit(presses: Seq<PointerPress>, snapshot: TerminalSnapshot) -> bool {
    forall|i: int|
        0 <= i < presses.len() ==> place_fits((#[trigger] presses[i]).place, snapshot)
}

pub open spec fn events_fit(events: Seq<InputEvent>, snapshot: TerminalSnapshot) -> bool {
    forall|i: int|
        0 <= i < events.len() ==> ((#[trigger] events[i]) matches InputEvent::Pointer { place, .. }
            ==> place_fits(place, snapshot))
}

impl TerminalInput {
    fn copy_selection(&self, effects: &mut InputEffects)
        ensures
            input_view(*self, *final(effects)) == copy_step(input_view(*self, *old(effects))),
    {
        match self.selection {
            Some(selection) => {
                act(&mut effects.done, TerminalAction::CopySelection(selection));
            },
            None => {},
        }
    }

    fn select(&mut self, effects: &mut InputEffects, selection: TextSelection, copy: bool)
        ensures
            input_view(*final(self), *final(effects)) == selected_step(
                input_view(*old(self), *old(effects)),
                selection,
                copy,
            ),
            final(effects).presses@ == old(effects).presses@,
    {
        self.selection = Some(selection);
        if copy {
            self.copy_selection(effects);
        }
    }

    fn press_down(&mut self, effects: &mut InputEffects, place: PointerPlace)
        ensures
            input_view(*final(self), *final(effects)) == down_step(
                input_view(*old(self), *old(effects)),
                place,
            ),
            final(effects).presses@ == old(effects).presses@,
    {
        match place.target_cell() {
            Some(cell) => {
                self.selection = Some(TextSelection { anchor: cell, active: cell });
                self.selection_active = true;
                self.selection_dragged = false;
            },
            None => {},
        }
        if !self.focused {
            self.focused = true;
            effects.focus_changed = true;
        }
    }

    fn press_up(
        &mut self,
        effects: &mut InputEffects,
        place: PointerPlace,
        pointer: &PointerFrame,
        prefs: &TerminalPrefs,
        snapshot: &TerminalSnapshot,
    )
        requires
            place_fits(place, *snapshot),
        ensures
            input_view(*final(self), *final(effects)) == up_step(
                input_view(*old(self), *old(effects)),
                place,
                *pointer,
                *prefs,
                *snapshot,
            ),
            final(effects).presses@ == old(effects).presses@,
    {
        if pointer.triple_clicked {
            match place.target_cell() {
                Some((row, _)) => {
                    self.select(effects, select_line(row, snapshot.cols), prefs.copy_on_select);
                },
                None => {},
            }
        } else if pointer.double_clicked {
            match place.target_cell() {
                Some((row, col)) => {
                    let word = select_word_at(snapshot, row, col);
                    assert(word == word_selection(*snapshot, (row, col)));
                    self.select(effects, word, prefs.copy_on_select);
                },
                None => {},
            }
        } else if !self.selection_dragged {
            self.selection = None;
        } else if prefs.copy_on_select {
            self.copy_selection(effects);
        }
        self.selection_active = false;
    }

    fn handle_press(
        &mut self,
        effects: &mut InputEffects,
        press: PointerPress,
        pointer: &PointerFrame,
        prefs: &TerminalPrefs,
        snapshot: &TerminalSnapshot,
    )
        requires
            place_fits(press.place, *snapshot),
        ensures
            input_view(*final(self), *final(effects)) == press_step(
                input_view(*old(self), *old(effects)),
                press,
                *pointer,
                *prefs,
                *snapshot,
            ),
            final(effects).presses@ == old(effects).presses@,
    {
        if press.pressed {
            self.press_down(effects, press.place);
        } else {
            self.press_up(effects, press.place, pointer, prefs, snapshot);
        }
    }

    fn handle_presses(
        &mut self,
        effects: &mut InputEffects,
        pointer: &PointerFrame,
        prefs: &TerminalPrefs,
        snapshot: &TerminalSnapshot,
    )
        requires
            presses_fit(old(effects).presses@, *snapshot),
        ensures
            input_view(*final(self), *final(effects)) == presses_step(
                input_view(*old(self), *old(effects)),
                old(effects).presses@,
                *pointer,
                *prefs,
                *snapshot,
            ),
    {
        let ghost first = input_view(*self, *effects);
        let ghost list = effects.presses@;
        let mut k: usize = 0;
        assert(list.take(0) =~= Seq::empty());
        while k < effects.presses.len()
            invariant
                k <= effects.presses@.len(),
                list == effects.presses@,
                presses_fit(list, *snapshot),
                input_view(*self, *effects) == presses_step(
                    first,
                    list.take(k as int),
                    *pointer,
                    *prefs,
                    *snapshot,
                ),
            decreases effects.presses@.len() - k,
        {
            let press = effects.presses[k];
            assert(list.take(k + 1).drop_last() =~= list.take(k as int));
            self.handle_press(effects, press, pointer, prefs, snapshot);
            k = k + 1;
        }
        assert(list.take(k as int) =~= list);
    }

    fn handle_events(
        &mut self,
        effects: &mut InputEffects,
        events: &Vec<InputEvent>,
        frame: &InputFrame,
        Ghost(snapshot): Ghost<TerminalSnapshot>,
    )
        requires
            wheel_fits(events@),
            events_fit(events@, snapshot),
            old(effects).scroll_lines == 0,
            old(effects).presses@.len() == 0,
        ensures
            input_view(*final(self), *final(effects)) == events_step(
                input_view(*old(self), *old(effects)),
                events@,
                *frame,
            ),
            presses_fit(final(effects).presses@, snapshot),
    {
        let ghost first = input_view(*self, *effects);
        let mut i: usize = 0;
        assert(events@.take(0) =~= Seq::empty());
        while i < events.len()
            invariant
                i <= events.len(),
                wheel_fits(events@),
                events_fit(events@, snapshot),
                input_view(*self, *effects) == events_step(first, events@.take(i as int), *frame),
                effects.scroll_lines == wheel_total(events@.take(i as int)),
                presses_fit(effects.presses@, snapshot),
            decreases events.len() - i,
        {
            let ghost before = input_view(*self, *effects);
            let event = &events[i];
            proof {
                assert(events@.take(i + 1).drop_last() =~= events@.take(i as int));
                assert(events@.take(i + 1).last() == events@[i as int]);
                assert(i32::MIN <= wheel_total(events@.take(i + 1)) <= i32::MAX);
                lemma_event_effects(before, *event, *frame, snapshot);
            }
            self.handle_event(effects, event, frame);
            i = i + 1;
        }
        assert(events@.take(i as int) =~= events@);
    }

    fn drag_edge(&mut self, edge: DragEdge, rows: usize)
        ensures
            forall|effects: InputEffects|
                #[trigger] input_view(*final(self), effects) == edge_step(
                    input_view(*old(self), effects),
                    edge,
                    rows,
                ),
    {
        let bottom: usize = rows.saturating_sub(1);
        match self.selection {
            Some(selection) => match edge {
                DragEdge::Inside => {},
                DragEdge::Below { lines, col } => {
                    if lines > 0 {
                        let anchor_row: usize = selection.anchor.0.saturating_sub(lines as usize);
                        self.selection = Some(
                            TextSelection {
                                anchor: (anchor_row, selection.anchor.1),
                                active: (bottom, col),
                            },
                        );
                        self.selection_dragged = true;
                    }
                },
                DragEdge::Above { lines, col } => {
                    if lines > 0 {
                        let step: usize = lines as usize;
                        let row: usize = if selection.active.0 >= bottom || step >= bottom
                            - selection.active.0 {
                            bottom
                        } else {
                            selection.active.0 + step
                        };
                        self.selection = Some(
                            TextSelection { anchor: (0, col), active: (row, selection.active.1) },
                        );
                        self.selection_dragged = true;
                    }
                },
            },
            None => {},
        }
    }

    fn follow(&mut self, place: PointerPlace)
        ensures
            forall|effects: InputEffects|
                #[trigger] input_view(*final(self), effects) == follow_step(
                    input_view(*old(self), effects),
                    place,
                ),
    {
        match place.target_cell() {
            Some(cell) => match self.selection {
                Some(selection) => {
                    if selection.active.0 != cell.0 || selection.active.1 != cell.1 {
                        self.selection = Some(
                            TextSelection { anchor: selection.anchor, active: cell },
                        );
                        self.selection_dragged = true;
                    }
                },
                None => {},
            },
            None => {},
        }
    }

    fn drag(&mut self, pointer: &PointerFrame, rows: usize) -> (scroll: i64)
        ensures
            forall|effects: InputEffects|
                #[trigger] input_view(*final(self), effects) == drag_step(
                    input_view(*old(self), effects),
                    *pointer,
                    rows,
                ),
            forall|effects: InputEffects|
                scroll == drag_scroll(#[trigger] input_view(*old(self), effects), *pointer),
    {
        if !self.selection_active || !pointer.primary_down {
            return 0;
        }
        match pointer.drag {
            Some(drag) => {
                let ghost start = *self;
                self.drag_edge(drag.edge, rows);
                let ghost middle = *self;
                self.follow(drag.place);
                proof {
                    assert forall|effects: InputEffects| #[trigger]
                        input_view(*self, effects) == drag_step(
                        input_view(start, effects),
                        *pointer,
                        rows,
                    ) by {
                        assert(input_view(middle, effects) == edge_step(
                            input_view(start, effects),
                            drag.edge,
                            rows,
                        ));
                    }
                }
                match drag.edge {
                    DragEdge::Inside => 0,
                    DragEdge::Below { lines, .. } => -(lines as i64),
                    DragEdge::Above { lines, .. } => lines as i64,
                }
            },
            None => 0,
        }
    }

    /// Takes up a frame: its events, dropped files and pointer. What is to be done comes out in
    /// order, with the line that was submitted where it is known.
    pub fn process_input(
        &mut self,
        events: &Vec<InputEvent>,
        frame: &InputFrame,
        files: &DropState,
        pointer: &PointerFrame,
        snapshot: &TerminalSnapshot,
    ) -> (r: (Vec<TerminalAction>, Option<String>))
        requires
            wheel_fits(events@),
            events_fit(events@, *snapshot),
        ensures
            ({
                let end = frame_steps(
                    start_view(*old(self)),
                    events@,
                    *frame,
                    *files,
                    *pointer,
                    *snapshot,
                );
                &&& actions(r.0@) == end.done
                &&& (match r.1 {
                    Some(line) => submitted_line(end) == Some(line@),
                    None => submitted_line(end) is None,
                })
                &&& keeps(*final(self), end)
            }),
    {
        let mut effects = InputEffects::new();
        let ghost first = start_view(*self);
        assert(input_view(*self, effects) =~= first) by {
            assert(actions(effects.done@) =~= Seq::empty());
            assert(byte_lists(effects.writes@) =~= Seq::empty());
            assert(effects.presses@ =~= Seq::empty());
        }
        let taken = files.over_terminal || self.drop_hovering;
        self.drop_hovering = files.over_terminal && files.hovering_files;
        let ghost hovered = hover_step(first, files.over_terminal, files.hovering_files);
        assert(input_view(*self, effects) == hovered);
        self.handle_events(&mut effects, events, frame, Ghost(*snapshot));
        let ghost read = input_view(*self, effects);
        self.handle_drop(&mut effects, files, taken, frame.windows);
        let ghost dropped = input_view(*self, effects);
        self.handle_presses(&mut effects, pointer, &frame.prefs, snapshot);
        let ghost pressed = input_view(*self, effects);
        let scroll: i64 = self.drag(pointer, snapshot.rows);
        assert(input_view(*self, effects) == drag_step(pressed, *pointer, snapshot.rows));
        self.finish(effects, scroll)
    }

    fn handle_drop(
        &mut self,
        effects: &mut InputEffects,
        files: &DropState,
        taken: bool,
        windows: bool,
    )
        ensures
            input_view(*final(self), *final(effects)) == drop_step(
                input_view(*old(self), *old(effects)),
                texts(files.dropped@),
                taken,
                windows,
            ),
            final(effects).presses@ == old(effects).presses@,
    {
        if taken && files.dropped.len() > 0 {
            let text = drop_insertion(&files.dropped, windows);
            self.input_line.append(text.as_str());
            act(&mut effects.done, TerminalAction::InsertText(text));
        }
    }

    fn finish(&mut self, effects: InputEffects, scroll: i64) -> (r: (
        Vec<TerminalAction>,
        Option<String>,
    ))
        ensures
            ({
                let end = finish_step(input_view(*old(self), effects), scroll as int);
                &&& actions(r.0@) == end.done
                &&& (match r.1 {
                    Some(line) => submitted_line(end) == Some(line@),
                    None => submitted_line(end) is None,
                })
                &&& keeps(*final(self), end)
            }),
    {
        let ghost v = input_view(*self, effects);
        let mut effects = effects;
        if effects.copy_requested {
            self.copy_selection(&mut effects);
        }
        let ghost copied = actions(effects.done@);
        let ghost focus = if v.focus_changed {
            seq![ActionView::SetFocused(v.focused)]
        } else {
            Seq::empty()
        };
        let ghost dragging = if scroll != 0 {
            seq![ActionView::ScrollLines(scroll as int)]
        } else {
            Seq::empty()
        };
        let ghost turning = if v.scroll != 0 {
            seq![ActionView::ScrollLines(v.scroll)]
        } else {
            Seq::empty()
        };
        if effects.focus_changed {
            act(&mut effects.done, TerminalAction::SetFocused(self.focused));
        }
        assert(actions(effects.done@) =~= copied + focus);
        if scroll != 0 {
            act(&mut effects.done, TerminalAction::ScrollLines(scroll));
        }
        assert(actions(effects.done@) =~= copied + focus + dragging);
        if effects.scroll_lines != 0 {
            self.selection = None;
            let lines: i64 = effects.scroll_lines as i64;
            act(&mut effects.done, TerminalAction::ScrollLines(lines));
        }
        let ghost base = copied + focus + dragging + turning;
        assert(actions(effects.done@) =~= base);
        if effects.writes.len() > 0 {
            self.selection = None;
        }
        let mut done = effects.done;
        let writes = effects.writes;
        let mut i: usize = 0;
        assert(base + writes_of(v.writes.take(0)) =~= base);
        while i < writes.len()
            invariant
                i <= writes.len(),
                v.writes == byte_lists(writes@),
                actions(done@) == base + writes_of(v.writes.take(i as int)),
            decreases writes.len() - i,
        {
            let mut bytes: Vec<u8> = Vec::new();
            bytes.extend_from_slice(writes[i].as_slice());
            assert(bytes@ =~= writes@[i as int]@);
            act(&mut done, TerminalAction::Write(bytes));
            assert(actions(done@) =~= base + writes_of(v.writes.take(i + 1)));
            i = i + 1;
        }
        assert(v.writes.take(i as int) =~= v.writes);
        let line = match effects.submitted {
            Some((line, unreliable)) => {
                if unreliable {
                    None
                } else {
                    Some(line)
                }
            },
            None => None,
        };
        (done, line)
    }
}

/// The state at the start of a frame.
pub open spec fn start_view(state: TerminalInput) -> InputView {
    InputView {
        line: state.input_line@,
        unreliable: state.input_line_unreliable,
        search_open: state.search_open,
        enter_consumed: state.search_enter_consumed,
        search_focus: state.search_focus_requested,
        selection: state.selection,
        selection_active: state.selection_active,
        selection_dragged: state.selection_dragged,
        focused: state.focused,
        drop_hovering: state.drop_hovering,
        done: Seq::empty(),
        writes: Seq::empty(),
        presses: Seq::empty(),
        scroll: 0,
        copy: false,
        focus_changed: false,
        submitted: None,
    }
}

/// Whether a state is what a frame came to.
pub open spec fn keeps(state: TerminalInput, v: InputView) -> bool {
    &&& state.input_line@ == v.line
    &&& state.input_line_unreliable == v.unreliable
    &&& state.search_open == v.search_open
    &&& state.search_enter_consumed == v.enter_consumed
    &&& state.search_focus_requested == v.search_focus
    &&& state.selection == v.selection
    &&& state.selection_active == v.selection_active
    &&& state.selection_dragged == v.selection_dragged
    &&& state.focused == v.focused
    &&& state.drop_hovering == v.drop_hovering
}

/// An event turns the wheel and presses buttons by what it says.
proof fn lemma_event_effects(
    v: InputView,
    event: InputEvent,
    frame: InputFrame,
    snapshot: TerminalSnapshot,
)
    requires
        event matches InputEvent::Pointer { place, .. } ==> place_fits(place, snapshot),
        presses_fit(v.presses, snapshot),
    ensures
        event_step(v, event, frame).scroll == v.scroll + (match event {
            InputEvent::Wheel { lines, modifiers } => if wheel_scrolls(modifiers) {
                lines as int
            } else {
                0
            },
            _ => 0,
        }),
        presses_fit(event_step(v, event, frame).presses, snapshot),
{
    let after = event_step(v, event, frame).presses;
    assert(after == v.presses || (event matches InputEvent::Pointer { place, pressed, .. } && after
        == v.presses.push(PointerPress { place, pressed })));
}

/// While a search is open or another control has the keyboard, typed text reaches neither the
/// terminal nor its line.
pub proof fn law_text_needs_the_keyboard(v: InputView, text: Seq<char>, frame: InputFrame)
    requires
        v.search_open || !frame.owns_keys,
    ensures
        text_step(v, text, frame) == v,
        commit_step(v, text, frame) == v,
        paste_step(v, text, frame) == v,
{
}

/// A key that another control has the keyboard for writes nothing, but for the control keys, and
/// those not while a dialog or a search is open.
pub proof fn law_keys_stay_with_dialogs(
    v: InputView,
    key: Key,
    pressed: bool,
    modifiers: Modifiers,
    frame: InputFrame,
)
    requires
        !frame.owns_keys,
        frame.prefs.modal_open || v.search_open || !modifiers.ctrl,
    ensures
        key_step(v, key, pressed, modifiers, frame).writes == v.writes,
        key_step(v, key, pressed, modifiers, frame).line == v.line,
{
}

/// The line grows by what is typed and written, and an enter hands it over and starts anew.
pub proof fn law_line_is_what_was_typed(v: InputView, text: Seq<char>, frame: InputFrame)
    requires
        frame.owns_keys,
        !v.search_open,
        is_printable(text),
        !frame.modifiers.mac_cmd && !frame.modifiers.alt,
    ensures
        ({
            let typed = text_step(v, text, frame);
            let entered = line_step(typed, Key::Enter, false);
            &&& typed.writes == v.writes.push(encode_utf8(text))
            &&& entered.submitted == Some((v.line + text, v.unreliable))
            &&& entered.line.len() == 0
            &&& !entered.unreliable
        }),
{
}

/// The directory that the files panel is to show after a line was submitted.
pub open spec fn follow_target(
    line: Seq<char>,
    prefs: TerminalPrefs,
    is_ssh: bool,
    panel_cwd: Option<Seq<char>>,
    prev_cwd: Option<Seq<char>>,
) -> Option<Seq<char>> {
    if prefs.sftp_sync_cwd && is_ssh {
        match panel_cwd {
            Some(cwd) => cd_target(line, cwd, prev_cwd),
            None => None,
        }
    } else {
        None
    }
}

/// Has the files panel follow a submitted `cd`: the directory to list, where there is one. The one
/// that the panel leaves is kept for `cd -`.
pub fn sync_sftp_after_submit(
    line: &str,
    prefs: &TerminalPrefs,
    is_ssh: bool,
    panel_cwd: Option<String>,
    prev_cwd: &mut Option<String>,
) -> (r: Option<String>)
    ensures
        opt_text(r) == follow_target(
            line@,
            *prefs,
            is_ssh,
            opt_text(panel_cwd),
            opt_text(*old(prev_cwd)),
        ),
        opt_text(*final(prev_cwd)) == (if r is Some {
            opt_text(panel_cwd)
        } else {
            opt_text(*old(prev_cwd))
        }),
{
    if !prefs.sftp_sync_cwd || !is_ssh {
        return None;
    }
    match panel_cwd {
        None => None,
        Some(cwd) => {
            let target = match prev_cwd {
                Some(prev) => resolve_cd_target(line, cwd.as_str(), Some(prev.as_str())),
                None => resolve_cd_target(line, cwd.as_str(), None),
            };
            if target.is_some() {
                *prev_cwd = Some(cwd);
            }
            target
        },
    }
}

/// Whether a terminal that has the keyboard takes what is typed.
pub open spec fn takes_typing(v: InputView, frame: InputFrame) -> bool {
    frame.owns_keys && !v.search_open && !frame.modifiers.mac_cmd
}

/// Typed text is written as it was typed and stands on the line; with the alt key an escape goes
/// ahead of it and the line is no longer known. Nothing else changes. A text of control
/// characters alone is not typed.
pub proof fn law_typed_text_is_written(v: InputView, text: Seq<char>, frame: InputFrame, at: int)
    ensures
        ({
            let after = text_step(v, text, frame);
            &&& takes_typing(v, frame) && 0 <= at < text.len() && !is_control(text[at])
                ==> after.writes.len() == v.writes.len() + 1 && after.writes.drop_last()
                == v.writes && after.writes.last() == (if frame.modifiers.alt {
                seq![27u8] + encode_utf8(text)
            } else {
                encode_utf8(text)
            }) && after.line == (if frame.modifiers.alt {
                v.line
            } else {
                v.line + text
            }) && after.unreliable == (v.unreliable || frame.modifiers.alt)
            &&& after == (InputView {
                writes: after.writes,
                line: after.line,
                unreliable: after.unreliable,
                ..v
            })
            &&& (forall|i: int| 0 <= i < text.len() ==> is_control(#[trigger] text[i])) ==> after
                == v
            &&& !takes_typing(v, frame) ==> after == v
        }),
{
    let after = text_step(v, text, frame);
    if takes_typing(v, frame) && 0 <= at < text.len() && !is_control(text[at]) {
        assert(is_printable(text));
        assert(after.writes.drop_last() =~= v.writes);
    }
}

/// Text that is pasted is handed over whole, and leaves the line unknown; text of an input method
/// is written and stands on the line.
pub proof fn law_other_text_is_taken(v: InputView, text: Seq<char>, frame: InputFrame)
    ensures
        frame.owns_keys && !v.search_open ==> paste_step(v, text, frame) == (InputView {
            unreliable: true,
            done: v.done.push(ActionView::PasteText(text)),
            ..v
        }),
        !frame.owns_keys || v.search_open ==> paste_step(v, text, frame) == v,
        takes_typing(v, frame) && text.len() > 0 ==> commit_step(v, text, frame) == (InputView {
            line: v.line + text,
            writes: v.writes.push(encode_utf8(text)),
            ..v
        }),
        !takes_typing(v, frame) || text.len() == 0 ==> commit_step(v, text, frame) == v,
{
}

/// What keys do to the line: an enter hands it over and empties it, a backspace takes its last
/// character, moving about leaves it unknown, and with the control key `C` and `U` empty it and
/// `W` takes its last word.
pub proof fn law_keys_edit_the_line(v: InputView, key: Key, ctrl: bool)
    ensures
        ({
            let after = line_step(v, key, ctrl);
            &&& after == (InputView {
                line: after.line,
                unreliable: after.unreliable,
                submitted: after.submitted,
                ..v
            })
            &&& key == Key::Enter ==> after.submitted == Some((v.line, v.unreliable))
                && after.line.len() == 0 && !after.unreliable
            &&& key != Key::Enter ==> after.submitted == v.submitted
            &&& key == Key::Backspace && v.line.len() > 0 ==> after.line == v.line.drop_last()
                && after.unreliable == v.unreliable
            &&& key == Key::Backspace && v.line.len() == 0 ==> after.line == v.line
            &&& (key == Key::Tab || key == Key::ArrowLeft || key == Key::ArrowRight || key
                == Key::ArrowUp || key == Key::ArrowDown || key == Key::Home || key == Key::End
                || key == Key::Delete) ==> after.unreliable && after.line == v.line
            &&& ctrl && (key == Key::C || key == Key::U) ==> after.line.len() == 0
                && !after.unreliable
            &&& ctrl && key == Key::W ==> after.line == without_last_word(v.line)
                && after.unreliable == v.unreliable
            &&& !ctrl && (key == Key::C || key == Key::U || key == Key::W || key == Key::A)
                ==> after == v
        }),
{
}

/// A key that reaches the terminal writes its own bytes behind what was written before; with the
/// command key `F` opens the search, and an escape closes it.
pub proof fn law_pressed_keys_are_written(
    v: InputView,
    key: Key,
    modifiers: Modifiers,
    frame: InputFrame,
    bytes: Seq<u8>,
)
    requires
        frame.owns_keys,
    ensures
        !v.search_open && !(modifiers.command && key == Key::F) && key_bytes(key, modifiers, true)
            == Some(bytes) ==> ({
            let after = key_step(v, key, true, modifiers, frame);
            &&& after.writes == v.writes.push(bytes)
            &&& after.done == v.done
            &&& after.selection == v.selection
            &&& after.search_open == v.search_open
        }),
        !v.search_open && modifiers.command && key == Key::F ==> ({
            let after = key_step(v, key, true, modifiers, frame);
            &&& after.search_open && after.search_focus
            &&& after.done == v.done.push(ActionView::RefreshSearch)
            &&& after.writes == v.writes
            &&& after.line == v.line
        }),
        v.search_open && !v.enter_consumed && key == Key::Escape ==> ({
            let after = key_step(v, key, true, modifiers, frame);
            &&& after == (InputView { search_open: false, ..v })
        }),
        v.search_open && v.enter_consumed ==> key_step(v, key, true, modifiers, frame) == (
        InputView { enter_consumed: false, ..v }),
{
    let after = key_step(v, key, true, modifiers, frame);
    let noted = line_step(v, key, modifiers.ctrl);
    law_keys_edit_the_line(v, key, modifiers.ctrl);
    assert(noted.writes == v.writes);
}

/// What the other events of a frame do: the wheel scrolls by its lines unless a control key turns
/// it into a zoom, the middle button pastes where that is wanted, the primary button is noted.
pub proof fn law_other_events_are_noted(
    v: InputView,
    frame: InputFrame,
    lines: i32,
    modifiers: Modifiers,
    place: PointerPlace,
    flag: bool,
)
    ensures
        event_step(v, InputEvent::Copy, frame) == (InputView { copy: true, ..v }),
        event_step(v, InputEvent::Other, frame) == v,
        event_step(v, InputEvent::WindowFocused(flag), frame) == (InputView {
            focused: flag,
            focus_changed: true,
            ..v
        }),
        !modifiers.ctrl && !modifiers.command ==> event_step(
            v,
            InputEvent::Wheel { lines, modifiers },
            frame,
        ) == (InputView { scroll: v.scroll + lines, ..v }),
        modifiers.ctrl || modifiers.command ==> event_step(
            v,
            InputEvent::Wheel { lines, modifiers },
            frame,
        ) == v,
        event_step(
            v,
            InputEvent::Pointer { button: PointerButton::Primary, pressed: flag, place },
            frame,
        ) == (InputView { presses: v.presses.push(PointerPress { place, pressed: flag }), ..v }),
        event_step(
            v,
            InputEvent::Pointer { button: PointerButton::Middle, pressed: flag, place },
            frame,
        ) == (if flag && frame.prefs.middle_click_paste {
            InputView { done: v.done.push(ActionView::PasteClipboard), ..v }
        } else {
            v
        }),
        event_step(
            v,
            InputEvent::Pointer { button: PointerButton::Other, pressed: flag, place },
            frame,
        ) == v,
{
}

/// Each kind of text goes its own way.
pub proof fn law_texts_are_told_apart(
    v: InputView,
    frame: InputFrame,
    text: String,
    key: Key,
    pressed: bool,
    modifiers: Modifiers,
)
    ensures
        event_step(v, InputEvent::Text(text), frame) == text_step(v, text@, frame),
        event_step(v, InputEvent::Paste(text), frame) == paste_step(v, text@, frame),
        event_step(v, InputEvent::ImeCommit(text), frame) == commit_step(v, text@, frame),
        event_step(v, InputEvent::Key { key, pressed, modifiers }, frame) == key_step(
            v,
            key,
            pressed,
            modifiers,
            frame,
        ),
{
}

/// Events are taken one after the other, in their order.
pub proof fn law_events_are_taken_in_turn(
    v: InputView,
    a: Seq<InputEvent>,
    b: Seq<InputEvent>,
    frame: InputFrame,
)
    ensures
        events_step(v, a + b, frame) == events_step(events_step(v, a, frame), b, frame),
        events_step(v, Seq::empty(), frame) == v,
        b.len() == 1 ==> events_step(v, b, frame) == event_step(v, b[0], frame),
        wheel_total(a + b) == wheel_total(a) + wheel_total(b),
    decreases b.len(),
{
    if b.len() == 0 {
        assert(a + b =~= a);
    } else {
        law_events_are_taken_in_turn(v, a, b.drop_last(), frame);
        assert((a + b).drop_last() =~= a + b.drop_last());
        if b.len() == 1 {
            assert(b.drop_last() =~= Seq::<InputEvent>::empty());
        }
    }
}

/// A press on a cell starts a selection of that cell alone and gives the terminal the focus; a
/// press elsewhere leaves the selection.
pub proof fn law_presses_start_selections(v: InputView, place: PointerPlace)
    ensures
        ({
            let after = down_step(v, place);
            &&& place.over_terminal && place.cell is Some ==> after.selection == Some(
                TextSelection { anchor: place.cell->0, active: place.cell->0 },
            ) && after.selection_active && !after.selection_dragged
            &&& !(place.over_terminal && place.cell is Some) ==> after.selection == v.selection
                && after.selection_active == v.selection_active && after.selection_dragged
                == v.selection_dragged
            &&& after.focused
            &&& after.focus_changed == (v.focus_changed || !v.focused)
            &&& after.done == v.done && after.writes == v.writes && after.line == v.line
        }),
{
}

/// A release ends the selection that was dragged: it stays, and is copied where that is wanted. A
/// click without dragging takes the selection away; two clicks take a word and three a row.
pub proof fn law_releases_end_selections(
    v: InputView,
    place: PointerPlace,
    pointer: PointerFrame,
    prefs: TerminalPrefs,
    snapshot: TerminalSnapshot,
)
    ensures
        ({
            let after = up_step(v, place, pointer, prefs, snapshot);
            let chosen: Option<TextSelection> = if pointer.triple_clicked && place.over_terminal
                && place.cell is Some {
                Some(row_selection(snapshot, (place.cell->0).0))
            } else if !pointer.triple_clicked && pointer.double_clicked && place.over_terminal
                && place.cell is Some {
                Some(word_selection(snapshot, place.cell->0))
            } else if !pointer.triple_clicked && !pointer.double_clicked && !v.selection_dragged {
                None
            } else {
                v.selection
            };
            let clicked = pointer.triple_clicked || pointer.double_clicked;
            let copied = prefs.copy_on_select && chosen is Some && (if clicked {
                place.over_terminal && place.cell is Some
            } else {
                v.selection_dragged
            });
            &&& !after.selection_active
            &&& after.selection == chosen
            &&& after.done == (if copied {
                v.done.push(ActionView::CopySelection(chosen->0))
            } else {
                v.done
            })
            &&& after == (InputView {
                selection_active: false,
                selection: after.selection,
                done: after.done,
                ..v
            })
        }),
{
}

/// The row that three clicks take reaches from its first to its last column.
pub proof fn law_clicked_rows_are_whole(snapshot: TerminalSnapshot, row: usize)
    ensures
        row_selection(snapshot, row).anchor == (row, 0usize),
        row_selection(snapshot, row).active.0 == row,
        snapshot.cols > 0 ==> row_selection(snapshot, row).active.1 == snapshot.cols - 1,
        snapshot.cols == 0 ==> row_selection(snapshot, row).active.1 == 0,
{
}

/// Presses and releases are taken in their order.
pub proof fn law_presses_are_taken_in_turn(
    v: InputView,
    a: Seq<PointerPress>,
    b: Seq<PointerPress>,
    pointer: PointerFrame,
    prefs: TerminalPrefs,
    snapshot: TerminalSnapshot,
)
    ensures
        presses_step(v, a + b, pointer, prefs, snapshot) == presses_step(
            presses_step(v, a, pointer, prefs, snapshot),
            b,
            pointer,
            prefs,
            snapshot,
        ),
        presses_step(v, Seq::empty(), pointer, prefs, snapshot) == v,
        b.len() == 1 && b[0].pressed ==> presses_step(v, b, pointer, prefs, snapshot) == down_step(
            v,
            b[0].place,
        ),
        b.len() == 1 && !b[0].pressed ==> presses_step(v, b, pointer, prefs, snapshot) == up_step(
            v,
            b[0].place,
            pointer,
            prefs,
            snapshot,
        ),
    decreases b.len(),
{
    if b.len() == 0 {
        assert(a + b =~= a);
    } else {
        law_presses_are_taken_in_turn(v, a, b.drop_last(), pointer, prefs, snapshot);
        assert((a + b).drop_last() =~= a + b.drop_last());
        if b.len() == 1 {
            assert(b.drop_last() =~= Seq::<PointerPress>::empty());
        }
    }
}

/// While the button is held the end of the selection follows the pointer; its start stays.
pub proof fn law_selections_follow_the_pointer(
    v: InputView,
    place: PointerPlace,
    selection: TextSelection,
    cell: (usize, usize),
)
    requires
        v.selection == Some(selection),
        place.over_terminal,
        place.cell == Some(cell),
    ensures
        ({
            let after = follow_step(v, place);
            &&& after.selection matches Some(now) && now.active == cell && now.anchor
                == selection.anchor
            &&& after.selection_dragged == (v.selection_dragged || selection.active != cell)
            &&& after == (InputView {
                selection: after.selection,
                selection_dragged: after.selection_dragged,
                ..v
            })
        }),
        follow_step(InputView { selection: None, ..v }, place) == (InputView {
            selection: None,
            ..v
        }),
        follow_step(v, PointerPlace { over_terminal: false, ..place }) == v,
        follow_step(v, PointerPlace { cell: None, ..place }) == v,
{
}

/// Dragging below the screen scrolls on, so that the start of the selection moves up with the
/// text and its end is in the last row; dragging above it scrolls back, so that the end moves
/// down with the text and the start is in the first row.
pub proof fn law_dragging_beyond_an_edge_scrolls(
    v: InputView,
    selection: TextSelection,
    lines: u32,
    col: usize,
    rows: usize,
)
    requires
        v.selection == Some(selection),
        lines > 0,
        rows > 0,
        selection.active.0 < rows,
    ensures
        edge_step(v, DragEdge::Below { lines, col }, rows).selection_dragged,
        edge_step(v, DragEdge::Below { lines, col }, rows).selection matches Some(now) && {
            &&& now.active == ((rows - 1) as usize, col)
            &&& now.anchor.1 == selection.anchor.1
            &&& now.anchor.0 == if selection.anchor.0 >= lines {
                selection.anchor.0 - lines
            } else {
                0
            }
        },
        edge_step(v, DragEdge::Above { lines, col }, rows).selection_dragged,
        edge_step(v, DragEdge::Above { lines, col }, rows).selection matches Some(now) && {
            &&& now.anchor == (0usize, col)
            &&& now.active.1 == selection.active.1
            &&& now.active.0 == if selection.active.0 + lines < rows {
                selection.active.0 + lines
            } else {
                rows - 1
            }
        },
        edge_step(v, DragEdge::Inside, rows) == v,
        edge_scroll(DragEdge::Inside) == 0,
        edge_scroll(DragEdge::Below { lines, col }) == -lines,
        edge_scroll(DragEdge::Above { lines, col }) == lines,
{
}

/// A selection is dragged only while it is being made with the button held.
pub proof fn law_dragging_needs_the_button(v: InputView, pointer: PointerFrame, rows: usize)
    ensures
        !(v.selection_active && pointer.primary_down) ==> drag_step(v, pointer, rows) == v
            && drag_scroll(v, pointer) == 0,
        pointer.drag is None ==> drag_step(v, pointer, rows) == v && drag_scroll(v, pointer) == 0,
        v.selection_active && pointer.primary_down ==> (pointer.drag matches Some(drag) ==> {
            &&& drag_scroll(v, pointer) == edge_scroll(drag.edge)
            &&& drag_step(v, pointer, rows) == follow_step(
                edge_step(v, drag.edge, rows),
                drag.place,
            )
        }),
{
}

/// At the end of a frame come, in this order: a copy that was asked for, the focus where it
/// changed, scrolling by dragging and by the wheel, and what is written. Wheel and writing take
/// the selection away.
pub proof fn law_frames_end_in_order(v: InputView, dragged: int)
    ensures
        ({
            let after = finish_step(v, dragged);
            let copied: int = if v.copy && v.selection is Some {
                1
            } else {
                0
            };
            let focused: int = if v.focus_changed {
                1
            } else {
                0
            };
            let moved: int = if dragged != 0 {
                1
            } else {
                0
            };
            let turned: int = if v.scroll != 0 {
                1
            } else {
                0
            };
            let n = v.done.len() as int;
            &&& after.done.len() == n + copied + focused + moved + turned + v.writes.len()
            &&& after.done.take(n) == v.done
            &&& copied == 1 ==> after.done[n] == ActionView::CopySelection(v.selection->0)
            &&& focused == 1 ==> after.done[n + copied] == ActionView::SetFocused(v.focused)
            &&& moved == 1 ==> after.done[n + copied + focused] == ActionView::ScrollLines(dragged)
            &&& turned == 1 ==> after.done[n + copied + focused + moved]
                == ActionView::ScrollLines(v.scroll)
            &&& forall|i: int|
                0 <= i < v.writes.len() ==> #[trigger] after.done[n + copied + focused + moved
                    + turned + i] == ActionView::Write(v.writes[i])
            &&& after.selection == (if v.scroll != 0 || v.writes.len() > 0 {
                None
            } else {
                v.selection
            })
            &&& after == (InputView { selection: after.selection, done: after.done, ..v })
        }),
{
    let after = finish_step(v, dragged);
    assert(after.done.take(v.done.len() as int) =~= v.done);
}

/// Dropped files are inserted as one text, which also stands on the line; nothing is inserted of
/// no files, or of files that were dropped elsewhere.
pub proof fn law_dropped_files_are_inserted(
    v: InputView,
    dropped: Seq<Seq<char>>,
    taken: bool,
    windows: bool,
)
    ensures
        taken && dropped.len() > 0 ==> drop_step(v, dropped, taken, windows) == (InputView {
            line: v.line + drop_text(dropped, windows),
            done: v.done.push(ActionView::InsertText(drop_text(dropped, windows))),
            ..v
        }),
        !taken || dropped.len() == 0 ==> drop_step(v, dropped, taken, windows) == v,
{
}

/// Each dropped file is written quoted for its shell with a blank behind it, one after the other.
pub proof fn law_dropped_paths_are_quoted(
    paths: Seq<Seq<char>>,
    path: Seq<char>,
    windows: bool,
)
    ensures
        drop_text(seq![path], windows) == (if windows {
            double_quoted(path)
        } else {
            single_quoted(path)
        }) + seq![' '],
        paths.len() > 0 ==> drop_text(paths.push(path), windows) == drop_text(paths, windows)
            + drop_text(seq![path], windows),
{
    reveal_strlit(" ");
    assert(" "@ =~= seq![' ']);
    let one = if windows {
        double_quoted(path)
    } else {
        single_quoted(path)
    };
    assert(quoted_paths(seq![path], windows) =~= Seq::<Seq<char>>::empty().push(one));
    crate::text::law_joining_adds_one_part(Seq::empty(), one, " "@);
    if paths.len() > 0 {
        let front = quoted_paths(paths, windows);
        assert(quoted_paths(paths.push(path), windows) =~= front.push(one));
        crate::text::law_joining_adds_one_part(front, one, " "@);
        assert(drop_text(paths.push(path), windows) =~= drop_text(paths, windows) + drop_text(
            seq![path],
            windows,
        ));
    }
}

/// A line that was submitted is told only where it is known; hovering files are remembered while
/// they are over the terminal.
pub proof fn law_known_lines_are_told(v: InputView, line: Seq<char>, over: bool, hovering: bool)
    ensures
        v.submitted == Some((line, false)) ==> submitted_line(v) == Some(line),
        v.submitted == Some((line, true)) ==> submitted_line(v) is None,
        v.submitted is None ==> submitted_line(v) is None,
        hover_step(v, over, hovering).drop_hovering == (over && hovering),
        hover_step(v, over, hovering) == (InputView { drop_hovering: over && hovering, ..v }),
{
}

/// A selection is copied as it is, and nothing is copied where there is none.
pub proof fn law_selections_are_copied(v: InputView, selection: TextSelection, copy: bool)
    ensures
        v.selection == Some(selection) ==> copy_step(v) == (InputView {
            done: v.done.push(ActionView::CopySelection(selection)),
            ..v
        }),
        v.selection is None ==> copy_step(v) == v,
        selected_step(v, selection, copy).selection == Some(selection),
        selected_step(v, selection, copy).done == (if copy {
            v.done.push(ActionView::CopySelection(selection))
        } else {
            v.done
        }),
{
}

/// A frame in which nothing happens does nothing.
pub proof fn law_idle_frames_do_nothing(
    state: TerminalInput,
    frame: InputFrame,
    files: DropState,
    pointer: PointerFrame,
    snapshot: TerminalSnapshot,
)
    requires
        files.dropped@.len() == 0,
        pointer.drag is None,
    ensures
        ({
            let end = frame_steps(
                start_view(state),
                Seq::empty(),
                frame,
                files,
                pointer,
                snapshot,
            );
            &&& end.done.len() == 0
            &&& end.line == state.input_line@
            &&& end.selection == state.selection
            &&& end.search_open == state.search_open
            &&& end.focused == state.focused
            &&& end.drop_hovering == (files.over_terminal && files.hovering_files)
            &&& submitted_line(end) is None
        }),
{
    let start = start_view(state);
    let read = hover_step(start, files.over_terminal, files.hovering_files);
    assert(events_step(read, Seq::empty(), frame) == read);
    assert(texts(files.dropped@).len() == 0);
    assert(presses_step(read, read.presses, pointer, frame.prefs, snapshot) == read);
    law_frames_end_in_order(read, 0);
}

/// A frame in which a text is typed writes that text and nothing else.
pub proof fn law_a_frame_writes_what_is_typed(
    state: TerminalInput,
    text: String,
    frame: InputFrame,
    files: DropState,
    pointer: PointerFrame,
    snapshot: TerminalSnapshot,
    at: int,
)
    requires
        files.dropped@.len() == 0,
        pointer.drag is None,
        frame.owns_keys,
        !state.search_open,
        !frame.modifiers.mac_cmd,
        !frame.modifiers.alt,
        0 <= at < text@.len(),
        !is_control(text@[at]),
    ensures
        ({
            let end = frame_steps(
                start_view(state),
                seq![InputEvent::Text(text)],
                frame,
                files,
                pointer,
                snapshot,
            );
            &&& end.done == seq![ActionView::Write(encode_utf8(text@))]
            &&& end.line == state.input_line@ + text@
            &&& end.selection is None
        }),
{
    let start = start_view(state);
    let hovered = hover_step(start, files.over_terminal, files.hovering_files);
    let events = seq![InputEvent::Text(text)];
    law_events_are_taken_in_turn(hovered, Seq::empty(), events, frame);
    let read = event_step(hovered, events[0], frame);
    assert(is_printable(text@));
    assert(texts(files.dropped@).len() == 0);
    assert(read.presses.len() == 0);
    assert(presses_step(read, read.presses, pointer, frame.prefs, snapshot) == read);
    law_frames_end_in_order(read, 0);
    assert(finish_step(read, 0).done =~= seq![ActionView::Write(encode_utf8(text@))]);
}

/// The files panel follows a `cd` of a remote session only, and only where that is wanted.
pub proof fn law_files_follow_where_wanted(
    line: Seq<char>,
    prefs: TerminalPrefs,
    is_ssh: bool,
    cwd: Seq<char>,
    prev_cwd: Option<Seq<char>>,
)
    ensures
        prefs.sftp_sync_cwd && is_ssh ==> follow_target(line, prefs, is_ssh, Some(cwd), prev_cwd)
            == cd_target(line, cwd, prev_cwd),
        !prefs.sftp_sync_cwd || !is_ssh ==> follow_target(
            line,
            prefs,
            is_ssh,
            Some(cwd),
            prev_cwd,
        ) is None,
        follow_target(line, prefs, is_ssh, None, prev_cwd) is None,
{
}

/// What a frame ends with is what the terminal keeps, field by field.
pub proof fn law_terminals_keep_what_a_frame_came_to(state: TerminalInput, effects: InputEffects)
    ensures
        keeps(state, input_view(state, effects)),
        input_view(state, effects).done.len() == effects.done@.len(),
        input_view(state, effects).writes.len() == effects.writes@.len(),
        input_view(state, effects).line == state.input_line@,
        input_view(state, effects).scroll == effects.scroll_lines,
        input_view(state, effects).selection == state.selection,
        start_view(state).line == state.input_line@,
        start_view(state).done.len() == 0 && start_view(state).writes.len() == 0,
        keeps(state, start_view(state)),
{
}

} // verus!
