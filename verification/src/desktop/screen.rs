//! What a terminal shows, the text that is selected on it, and the search results in view.

use crate::text::{is_white_space, white_space};
use vstd::prelude::*;
use vstd::string::*;

verus! {

#[derive(Clone, Copy, Debug, PartialEq, Eq, Structural)]
pub struct TerminalColor {
    pub r: u8,
    pub g: u8,
    pub b: u8,
}

#[derive(Clone, Copy, Debug, PartialEq, Eq, Structural)]
pub struct TerminalAttrs {
    pub bold: bool,
    pub dim: bool,
    pub inverse: bool,
    pub underline: bool,
    pub strikeout: bool,
}

#[derive(Clone, Copy, Debug, PartialEq, Eq, Structural)]
pub enum TerminalCursorShape {
    Block,
    Underline,
    Bar,
    Hollow,
    Hidden,
}

/// A place of the screen: a character with those that combine with it. A wide one also takes the
/// place to its right.
#[derive(Clone, Debug, PartialEq, Eq)]
pub struct TerminalCell {
    pub ch: char,
    pub zerowidth: String,
    pub wide: bool,
    pub fg: TerminalColor,
    pub bg: TerminalColor,
    pub attrs: TerminalAttrs,
    pub cursor: bool,
}

#[derive(Clone, Debug, PartialEq, Eq)]
pub struct TerminalRow {
    pub absolute_line: i64,
    pub cells: Vec<TerminalCell>,
    pub wrapped: bool,
}

#[derive(Clone, Debug, PartialEq, Eq)]
pub struct TerminalSnapshot {
    pub cols: usize,
    pub rows: usize,
    pub cursor_shape: TerminalCursorShape,
    pub display_offset: usize,
    pub scrollback_lines: usize,
    pub lines: Vec<TerminalRow>,
}

#[derive(Clone, Copy, Debug, PartialEq, Eq, Structural)]
pub struct TerminalSearchRange {
    pub line: i32,
    pub start_col: usize,
    pub end_col: usize,
}

#[derive(Clone, Debug, PartialEq, Eq)]
pub struct TerminalSearchMatch {
    pub line: i32,
    pub ranges: Vec<TerminalSearchRange>,
}

/// A stretch of a search result that is in view; its end column is not part of it.
#[derive(Clone, Copy, Debug, PartialEq, Eq, Structural)]
pub struct ViewportHighlight {
    pub row: usize,
    pub start_col: usize,
    pub end_col: usize,
    pub current: bool,
}

/// The first row that shows a line.
pub open spec fn row_of_line(lines: Seq<TerminalRow>, line: int) -> Option<nat>
    decreases lines.len(),
{
    if lines.len() == 0 {
        None
    } else {
        match row_of_line(lines.drop_last(), line) {
            Some(row) => Some(row),
            None => if lines.last().absolute_line == line {
                Some((lines.len() - 1) as nat)
            } else {
                None
            },
        }
    }
}

fn find_row(lines: &Vec<TerminalRow>, line: i32) -> (r: Option<usize>)
    ensures
        match r {
            Some(row) => row < lines@.len() && row_of_line(lines@, line as int) == Some(row as nat),
            None => row_of_line(lines@, line as int) is None,
        },
{
    let mut found: Option<usize> = None;
    let mut i: usize = 0;
    while i < lines.len()
        invariant
            i <= lines.len(),
            match found {
                Some(row) => row < i && row_of_line(lines@.take(i as int), line as int) == Some(
                    row as nat,
                ),
                None => row_of_line(lines@.take(i as int), line as int) is None,
            },
        decreases lines.len() - i,
    {
        assert(lines@.take(i + 1).drop_last() =~= lines@.take(i as int));
        if found.is_none() && lines[i].absolute_line == line as i64 {
            found = Some(i);
        }
        i = i + 1;
    }
    assert(lines@.take(i as int) =~= lines@);
    found
}

pub open spec fn least(a: int, b: int) -> int {
    if a < b {
        a
    } else {
        b
    }
}

/// The stretch of a range that is in view.
pub open spec fn range_highlight(
    snapshot: TerminalSnapshot,
    range: TerminalSearchRange,
    current: bool,
) -> Option<ViewportHighlight> {
    let start = least(range.start_col as int, snapshot.cols as int);
    let end = least(range.end_col as int, snapshot.cols as int);
    match row_of_line(snapshot.lines@, range.line as int) {
        Some(row) => if start < end {
            Some(
                ViewportHighlight {
                    row: row as usize,
                    start_col: start as usize,
                    end_col: end as usize,
                    current,
                },
            )
        } else {
            None
        },
        None => None,
    }
}

/// The stretches of a result that are in view.
pub open spec fn match_highlights(
    snapshot: TerminalSnapshot,
    ranges: Seq<TerminalSearchRange>,
    current: bool,
) -> Seq<ViewportHighlight>
    decreases ranges.len(),
{
    if ranges.len() == 0 {
        Seq::empty()
    } else {
        let before = match_highlights(snapshot, ranges.drop_last(), current);
        match range_highlight(snapshot, ranges.last(), current) {
            Some(highlight) => before.push(highlight),
            None => before,
        }
    }
}

/// The stretches of all results that are in view, in the order of the results.
pub open spec fn highlights_of(
    snapshot: TerminalSnapshot,
    matches: Seq<TerminalSearchMatch>,
    current: Option<usize>,
) -> Seq<ViewportHighlight>
    decreases matches.len(),
{
    if matches.len() == 0 {
        Seq::empty()
    } else {
        highlights_of(snapshot, matches.drop_last(), current) + match_highlights(
            snapshot,
            matches.last().ranges@,
            current matches Some(index) && index == matches.len() - 1,
        )
    }
}

pub fn viewport_highlights(
    snapshot: &TerminalSnapshot,
    matches: &Vec<TerminalSearchMatch>,
    current: Option<usize>,
) -> (r: Vec<ViewportHighlight>)
    ensures
        r@ == highlights_of(*snapshot, matches@, current),
{
    let mut out: Vec<ViewportHighlight> = Vec::new();
    let cols: usize = snapshot.cols;
    let mut i: usize = 0;
    while i < matches.len()
        invariant
            i <= matches.len(),
            cols == snapshot.cols,
            out@ == highlights_of(*snapshot, matches@.take(i as int), current),
        decreases matches.len() - i,
    {
        let is_current = match current {
            Some(index) => index == i,
            None => false,
        };
        let ranges = &matches[i].ranges;
        let ghost before = out@;
        let mut k: usize = 0;
        assert(out@ =~= before + match_highlights(*snapshot, ranges@.take(0), is_current));
        while k < ranges.len()
            invariant
                k <= ranges.len(),
                cols == snapshot.cols,
                out@ == before + match_highlights(*snapshot, ranges@.take(k as int), is_current),
            decreases ranges.len() - k,
        {
            let range = ranges[k];
            assert(ranges@.take(k + 1).drop_last() =~= ranges@.take(k as int));
            let ghost so_far = match_highlights(*snapshot, ranges@.take(k as int), is_current);
            match find_row(&snapshot.lines, range.line) {
                Some(row) => {
                    let start_col: usize = if range.start_col < cols {
                        range.start_col
                    } else {
                        cols
                    };
                    let end_col: usize = if range.end_col < cols {
                        range.end_col
                    } else {
                        cols
                    };
                    if start_col < end_col {
                        let highlight = ViewportHighlight {
                            row,
                            start_col,
                            end_col,
                            current: is_current,
                        };
                        out.push(highlight);
                        assert(before + so_far.push(highlight) =~= (before + so_far).push(
                            highlight,
                        ));
                    }
                },
                None => {},
            }
            k = k + 1;
        }
        assert(ranges@.take(k as int) =~= ranges@);
        assert(matches@.take(i + 1).drop_last() =~= matches@.take(i as int));
        i = i + 1;
    }
    assert(matches@.take(i as int) =~= matches@);
    out
}

/// How far to scroll back for a line to be at the top; lines from zero on are in view at the end.
pub fn scroll_offset_for_line(line: i32) -> (r: usize)
    requires
        line > i32::MIN,
    ensures
        r == (if line < 0 {
            -line as int
        } else {
            0
        }),
{
    if line < 0 {
        (-line) as usize
    } else {
        0
    }
}

/// What a user asks of the scroll bar.
#[derive(Clone, Copy, Debug, PartialEq, Eq, Structural)]
pub enum ScrollCommand {
    /// Scroll back by this many lines; zero is the end.
    ToOffset(usize),
    PageUp,
    PageDown,
}

/// Where a click on the track fell.
#[derive(Clone, Copy, Debug, PartialEq, Eq, Structural)]
pub enum TrackPlace {
    Outside,
    AboveThumb,
    OnThumb,
    BelowThumb,
}

/// What the pointer does on the scroll bar.
#[derive(Clone, Copy, Debug, PartialEq, Eq, Structural)]
pub enum ScrollPointer {
    Idle,
    /// The button is down; it went down on the thumb or not, and the pointer is where this offset
    /// is.
    Down { on_thumb: bool, offset: Option<usize> },
    /// The button was pressed and released.
    Clicked { pressed_on_thumb: bool, place: TrackPlace },
}

/// The command of a pointer on the scroll bar; without history there is no bar.
pub open spec fn scroll_command(scrollback_lines: usize, pointer: ScrollPointer) -> Option<ScrollCommand> {
    if scrollback_lines == 0 {
        None
    } else {
        match pointer {
            ScrollPointer::Idle => None,
            ScrollPointer::Down { on_thumb, offset } => match offset {
                Some(offset) => if on_thumb {
                    Some(ScrollCommand::ToOffset(offset))
                } else {
                    None
                },
                None => None,
            },
            ScrollPointer::Clicked { pressed_on_thumb, place } => if pressed_on_thumb {
                None
            } else {
                match place {
                    TrackPlace::AboveThumb => Some(ScrollCommand::PageUp),
                    TrackPlace::BelowThumb => Some(ScrollCommand::PageDown),
                    _ => None,
                }
            },
        }
    }
}

pub fn scrollbar(scrollback_lines: usize, pointer: ScrollPointer) -> (r: Option<ScrollCommand>)
    ensures
        r == scroll_command(scrollback_lines, pointer),
{
    if scrollback_lines == 0 {
        return None;
    }
    match pointer {
        ScrollPointer::Idle => None,
        ScrollPointer::Down { on_thumb, offset } => match offset {
            Some(offset) => {
                if on_thumb {
                    Some(ScrollCommand::ToOffset(offset))
                } else {
                    None
                }
            },
            None => None,
        },
        ScrollPointer::Clicked { pressed_on_thumb, place } => {
            if pressed_on_thumb {
                None
            } else {
                match place {
                    TrackPlace::AboveThumb => Some(ScrollCommand::PageUp),
                    TrackPlace::BelowThumb => Some(ScrollCommand::PageDown),
                    _ => None,
                }
            }
        },
    }
}

/// Selected text: where the selection began and where it is now, as row and column.
#[derive(Clone, Copy, Debug, PartialEq, Eq)]
pub struct TextSelection {
    pub anchor: (usize, usize),
    pub active: (usize, usize),
}

/// Whether one place comes no later than another in reading order.
pub open spec fn reads_before(a: (usize, usize), b: (usize, usize)) -> bool {
    a.0 < b.0 || (a.0 == b.0 && a.1 <= b.1)
}

impl TextSelection {
    /// The first and the last place of the selection.
    pub open spec fn ends(self) -> ((usize, usize), (usize, usize)) {
        if reads_before(self.anchor, self.active) {
            (self.anchor, self.active)
        } else {
            (self.active, self.anchor)
        }
    }

    /// Whether a place lies in the selection.
    pub open spec fn covers(self, row: usize, col: usize) -> bool {
        reads_before(self.ends().0, (row, col)) && reads_before((row, col), self.ends().1)
    }

    pub fn ordered(&self) -> (r: ((usize, usize), (usize, usize)))
        ensures
            r == self.ends(),
    {
        let (a, b) = (self.anchor, self.active);
        if a.0 < b.0 || (a.0 == b.0 && a.1 <= b.1) {
            (a, b)
        } else {
            (b, a)
        }
    }

    pub fn contains(&self, row: usize, col: usize) -> (r: bool)
        ensures
            r == self.covers(row, col),
    {
        let (start, end) = self.ordered();
        (start.0 < row || (start.0 == row && start.1 <= col)) && (row < end.0 || (row == end.0
            && col <= end.1))
    }
}

/// A selection that is dragged backwards covers what it covers forwards.
pub proof fn law_selection_has_no_direction(selection: TextSelection, row: usize, col: usize)
    ensures
        selection.covers(row, col) == (TextSelection {
            anchor: selection.active,
            active: selection.anchor,
        }).covers(row, col),
        selection.covers(selection.anchor.0, selection.anchor.1),
        selection.covers(selection.active.0, selection.active.1),
{
}

/// Whether a cell of a selected stretch is taken: the place to the right of a wide one is not.
pub open spec fn is_taken(cells: Seq<TerminalCell>, from: int, at: int) -> bool
    decreases at - from,
{
    at <= from || !(is_taken(cells, from, at - 1) && cells[at - 1].wide)
}

/// The text of the cells from `from` up to `end`.
pub open spec fn cells_text(cells: Seq<TerminalCell>, from: int, end: int) -> Seq<char>
    decreases end - from,
{
    if end <= from {
        Seq::empty()
    } else {
        cells_text(cells, from, end - 1) + (if is_taken(cells, from, end - 1) {
            seq![cells[end - 1].ch] + cells[end - 1].zerowidth@
        } else {
            Seq::empty()
        })
    }
}

/// What a row adds to the selected text. Rows that were wrapped are one line of text.
pub open spec fn row_text(row: TerminalRow, at: int, selection: TextSelection) -> Seq<char> {
    let (start, end) = selection.ends();
    let cols = row.cells@.len() as int;
    let from = if at == start.0 {
        start.1 as int
    } else {
        0
    };
    let last = if at == end.0 {
        least(end.1 as int, cols - 1)
    } else {
        cols - 1
    };
    if cols == 0 || from > last {
        Seq::empty()
    } else {
        cells_text(row.cells@, from, last + 1) + (if at != end.0 && !row.wrapped {
            seq!['\n']
        } else {
            Seq::empty()
        })
    }
}

/// The selected text of the rows before `end`.
pub open spec fn rows_text(lines: Seq<TerminalRow>, selection: TextSelection, end: int) -> Seq<char>
    decreases end - selection.ends().0.0,
{
    let start = selection.ends().0.0;
    if end <= start {
        Seq::empty()
    } else {
        rows_text(lines, selection, end - 1) + row_text(lines[end - 1], end - 1, selection)
    }
}

/// The selected text. Rows that are not there add nothing.
pub open spec fn selection_text(snapshot: TerminalSnapshot, selection: TextSelection) -> Seq<char> {
    rows_text(
        snapshot.lines@,
        selection,
        least(selection.ends().1.0 + 1, snapshot.lines@.len() as int),
    )
}

pub fn selected_text(snapshot: &TerminalSnapshot, selection: &TextSelection) -> (r: String)
    ensures
        r@ == selection_text(*snapshot, *selection),
{
    let (start, end) = selection.ordered();
    let mut out = String::new();
    let mut row: usize = start.0;
    while row <= end.0 && row < snapshot.lines.len()
        invariant
            (start, end) == selection.ends(),
            start.0 <= end.0,
            start.0 <= row <= end.0 + 1,
            row == start.0 || row <= snapshot.lines@.len(),
            out@ == rows_text(snapshot.lines@, *selection, row as int),
        decreases snapshot.lines@.len() - row,
    {
        let line = &snapshot.lines[row];
        let cols: usize = line.cells.len();
        let ghost before = out@;
        if cols > 0 {
            let from: usize = if row == start.0 {
                start.1
            } else {
                0
            };
            let last: usize = if row == end.0 && end.1 < cols - 1 {
                end.1
            } else {
                cols - 1
            };
            if from <= last {
                let mut skip = false;
                let mut col: usize = from;
                assert(before + cells_text(line.cells@, from as int, from as int) =~= before);
                while col <= last
                    invariant
                        from <= col <= last + 1,
                        last < cols == line.cells@.len(),
                        skip == (col > from && !is_taken(line.cells@, from as int, col as int)),
                        out@ == before + cells_text(line.cells@, from as int, col as int),
                    decreases last + 1 - col,
                {
                    if skip {
                        skip = false;
                        assert(out@ =~= before + cells_text(line.cells@, from as int, col + 1));
                    } else {
                        let cell = &line.cells[col];
                        skip = cell.wide;
                        out.push(cell.ch);
                        out.append(cell.zerowidth.as_str());
                        assert(out@ =~= before + cells_text(line.cells@, from as int, col + 1));
                    }
                    col = col + 1;
                }
                if row != end.0 && !line.wrapped {
                    out.push('\n');
                    assert(out@ =~= before + row_text(*line, row as int, *selection));
                } else {
                    assert(out@ =~= before + row_text(*line, row as int, *selection));
                }
            } else {
                assert(out@ =~= before + row_text(*line, row as int, *selection));
            }
        } else {
            assert(out@ =~= before + row_text(*line, row as int, *selection));
        }
        row = row + 1;
    }
    out
}

/// What a selection from one place to another takes, whichever of the two it began at.
pub open spec fn text_between(
    snapshot: TerminalSnapshot,
    first: (usize, usize),
    last: (usize, usize),
) -> Seq<char> {
    selection_text(snapshot, TextSelection { anchor: first, active: last })
}

/// Which cells are taken does not depend on where the stretch began, from a narrow cell on.
proof fn lemma_taken_after_narrow(cells: Seq<TerminalCell>, from: int, at: int)
    requires
        from + 1 <= at,
        !cells[from].wide,
    ensures
        is_taken(cells, from, at) == is_taken(cells, from + 1, at),
    decreases at - from,
{
    if from + 1 < at {
        lemma_taken_after_narrow(cells, from, at - 1);
    }
}

/// Nor does it behind the two places of a wide cell.
proof fn lemma_taken_after_wide(cells: Seq<TerminalCell>, from: int, at: int)
    requires
        from + 2 <= at,
        cells[from].wide,
    ensures
        is_taken(cells, from, at) == is_taken(cells, from + 2, at),
        !is_taken(cells, from, from + 1),
    decreases at - from,
{
    assert(is_taken(cells, from, from));
    assert(!is_taken(cells, from, from + 1));
    if from + 2 < at {
        lemma_taken_after_wide(cells, from, at - 1);
    }
}

proof fn lemma_text_after_narrow(cells: Seq<TerminalCell>, from: int, end: int)
    requires
        from + 1 <= end,
        !cells[from].wide,
    ensures
        cells_text(cells, from, end) == seq![cells[from].ch] + cells[from].zerowidth@ + cells_text(
            cells,
            from + 1,
            end,
        ),
    decreases end - from,
{
    let head = seq![cells[from].ch] + cells[from].zerowidth@;
    if from + 1 == end {
        assert(cells_text(cells, from, from) =~= Seq::empty());
        assert(cells_text(cells, from, end) =~= head + cells_text(cells, from + 1, end));
    } else {
        lemma_text_after_narrow(cells, from, end - 1);
        lemma_taken_after_narrow(cells, from, end - 1);
        assert(cells_text(cells, from, end) =~= head + cells_text(cells, from + 1, end));
    }
}

proof fn lemma_text_after_wide(cells: Seq<TerminalCell>, from: int, end: int)
    requires
        from + 1 <= end,
        cells[from].wide,
    ensures
        cells_text(cells, from, end) == seq![cells[from].ch] + cells[from].zerowidth@ + cells_text(
            cells,
            from + 2,
            end,
        ),
    decreases end - from,
{
    let head = seq![cells[from].ch] + cells[from].zerowidth@;
    assert(is_taken(cells, from, from));
    if from + 1 == end {
        assert(cells_text(cells, from, from) =~= Seq::empty());
        assert(cells_text(cells, from, end) =~= head + cells_text(cells, from + 2, end));
    } else if from + 2 == end {
        lemma_text_after_wide(cells, from, end - 1);
        assert(!is_taken(cells, from, from + 1));
        assert(cells_text(cells, from, end) =~= head + cells_text(cells, from + 2, end));
    } else {
        lemma_text_after_wide(cells, from, end - 1);
        lemma_taken_after_wide(cells, from, end - 1);
        assert(cells_text(cells, from, end) =~= head + cells_text(cells, from + 2, end));
    }
}

/// The text of a selection within a row is that of the cells of the stretch.
proof fn lemma_one_row(snapshot: TerminalSnapshot, row: usize, from: usize, to: usize)
    requires
        row < snapshot.lines@.len(),
        from <= to,
    ensures
        text_between(snapshot, (row, from), (row, to)) == cells_text(
            snapshot.lines@[row as int].cells@,
            from as int,
            least(to + 1, snapshot.lines@[row as int].cells@.len() as int),
        ),
        text_between(snapshot, (row, to), (row, from)) == text_between(
            snapshot,
            (row, from),
            (row, to),
        ),
{
    let selection = TextSelection { anchor: (row, from), active: (row, to) };
    let back = TextSelection { anchor: (row, to), active: (row, from) };
    assert(selection.ends() == ((row, from), (row, to)));
    assert(back.ends() == selection.ends());
    let lines = snapshot.lines@;
    assert(rows_text(lines, selection, row as int) =~= Seq::empty());
    assert(rows_text(lines, back, row as int) =~= Seq::empty());
    assert(rows_text(lines, selection, row + 1) =~= row_text(lines[row as int], row as int, selection));
    assert(rows_text(lines, back, row + 1) =~= row_text(lines[row as int], row as int, back));
    assert(row_text(lines[row as int], row as int, selection) =~= cells_text(
        lines[row as int].cells@,
        from as int,
        least(to + 1, lines[row as int].cells@.len() as int),
    ));
}

/// A selection that is made backwards takes what it takes forwards.
pub proof fn law_text_has_no_direction(
    snapshot: TerminalSnapshot,
    first: (usize, usize),
    last: (usize, usize),
)
    ensures
        selection_text(snapshot, TextSelection { anchor: first, active: last }) == selection_text(
            snapshot,
            TextSelection { anchor: last, active: first },
        ),
{
    let forwards = TextSelection { anchor: first, active: last };
    let backwards = TextSelection { anchor: last, active: first };
    assert(forwards.ends() == backwards.ends());
    lemma_rows_by_ends(
        snapshot.lines@,
        forwards,
        backwards,
        least(forwards.ends().1.0 + 1, snapshot.lines@.len() as int),
    );
}

proof fn lemma_rows_by_ends(lines: Seq<TerminalRow>, a: TextSelection, b: TextSelection, end: int)
    requires
        a.ends() == b.ends(),
    ensures
        rows_text(lines, a, end) == rows_text(lines, b, end),
    decreases end - a.ends().0.0,
{
    if end > a.ends().0.0 {
        lemma_rows_by_ends(lines, a, b, end - 1);
    }
}

/// A selection over narrow cells of one row, from column `from` to column `to`, takes the character
/// of each of these cells, in their order, and nothing else.
pub proof fn law_selected_cells_are_copied(
    snapshot: TerminalSnapshot,
    row: usize,
    from: usize,
    to: usize,
)
    requires
        row < snapshot.lines@.len(),
        from <= to < snapshot.lines@[row as int].cells@.len(),
        forall|col: int|
            from <= col <= to ==> !(#[trigger] snapshot.lines@[row as int].cells@[col]).wide
                && snapshot.lines@[row as int].cells@[col].zerowidth@.len() == 0,
    ensures
        selection_text(
            snapshot,
            TextSelection { anchor: (row, from), active: (row, to) },
        ).len() == to - from + 1,
        forall|k: int|
            0 <= k <= to - from ==> #[trigger] selection_text(
                snapshot,
                TextSelection { anchor: (row, from), active: (row, to) },
            )[k] == snapshot.lines@[row as int].cells@[from + k].ch,
    decreases to - from,
{
    let cells = snapshot.lines@[row as int].cells@;
    lemma_one_row(snapshot, row, from, to);
    lemma_text_after_narrow(cells, from as int, to + 1);
    assert(cells[from as int].zerowidth@ =~= Seq::empty());
    let text = text_between(snapshot, (row, from), (row, to));
    if from == to {
        assert(cells_text(cells, from + 1, to + 1) =~= Seq::empty());
        assert(text =~= seq![cells[from as int].ch]);
    } else {
        let next = (from + 1) as usize;
        law_selected_cells_are_copied(snapshot, row, next, to);
        lemma_one_row(snapshot, row, next, to);
        let rest = text_between(snapshot, (row, next), (row, to));
        assert(text =~= seq![cells[from as int].ch] + rest);
        assert forall|k: int| 0 <= k <= to - from implies #[trigger] text[k] == cells[from
            + k].ch by {
            if k > 0 {
                assert(text[k] == rest[k - 1]);
                assert(rest[k - 1] == cells[next + (k - 1)].ch);
            }
        }
    }
}

/// Within a row a selection takes its first cell, with what combines with it, and then what the
/// selection of the cells behind it takes; the place to the right of a wide cell is passed over.
pub proof fn law_selection_goes_cell_by_cell(
    snapshot: TerminalSnapshot,
    row: usize,
    from: usize,
    to: usize,
)
    requires
        row < snapshot.lines@.len(),
        from <= to < snapshot.lines@[row as int].cells@.len(),
    ensures
        ({
            let cell = snapshot.lines@[row as int].cells@[from as int];
            let next = if cell.wide {
                from + 2
            } else {
                from + 1
            };
            selection_text(snapshot, TextSelection { anchor: (row, from), active: (row, to) })
                == seq![cell.ch] + cell.zerowidth@ + (if next <= to {
                selection_text(
                    snapshot,
                    TextSelection { anchor: (row, next as usize), active: (row, to) },
                )
            } else {
                Seq::empty()
            })
        }),
{
    let cells = snapshot.lines@[row as int].cells@;
    let cell = cells[from as int];
    let head = seq![cell.ch] + cell.zerowidth@;
    lemma_one_row(snapshot, row, from, to);
    let next = if cell.wide {
        lemma_text_after_wide(cells, from as int, to + 1);
        from + 2
    } else {
        lemma_text_after_narrow(cells, from as int, to + 1);
        from + 1
    };
    if next <= to {
        lemma_one_row(snapshot, row, next as usize, to);
    } else {
        assert(head + cells_text(cells, next, to + 1) =~= head + Seq::<char>::empty());
    }
}

/// A selection that goes on behind its first row takes the rest of that row, an end of line unless
/// the row is empty there or was wrapped, and what the selection from the start of the next row on
/// takes.
pub proof fn law_selection_goes_row_by_row(
    snapshot: TerminalSnapshot,
    first: (usize, usize),
    last: (usize, usize),
)
    requires
        first.0 < last.0,
        first.0 < snapshot.lines@.len(),
    ensures
        ({
            let row = snapshot.lines@[first.0 as int];
            let all = selection_text(snapshot, TextSelection { anchor: first, active: last });
            let below = selection_text(
                snapshot,
                TextSelection { anchor: ((first.0 + 1) as usize, 0usize), active: last },
            );
            if first.1 >= row.cells@.len() {
                all == below
            } else {
                all == selection_text(
                    snapshot,
                    TextSelection {
                        anchor: first,
                        active: (first.0, (row.cells@.len() - 1) as usize),
                    },
                ) + (if row.wrapped {
                    Seq::empty()
                } else {
                    seq!['\n']
                }) + below
            }
        }),
{
    let lines = snapshot.lines@;
    let row = lines[first.0 as int];
    let selection = TextSelection { anchor: first, active: last };
    let next = TextSelection { anchor: ((first.0 + 1) as usize, 0usize), active: last };
    assert(selection.ends() == (first, last));
    assert(next.ends() == (((first.0 + 1) as usize, 0usize), last));
    let end = least(last.0 + 1, lines.len() as int);
    assert(row.cells.len() == row.cells@.len());
    lemma_first_row(lines, selection, next, end);
    if first.1 < row.cells@.len() {
        lemma_one_row(snapshot, first.0, first.1, (row.cells@.len() - 1) as usize);
    } else {
        assert(row_text(row, first.0 as int, selection) =~= Seq::empty());
        assert(Seq::<char>::empty() + rows_text(lines, next, end) =~= rows_text(lines, next, end));
    }
}

/// The rows of a selection are its first row and those of the selection behind it.
proof fn lemma_first_row(
    lines: Seq<TerminalRow>,
    selection: TextSelection,
    next: TextSelection,
    end: int,
)
    requires
        selection.ends().0.0 < end <= lines.len(),
        selection.ends().0.0 < selection.ends().1.0,
        next.ends() == (((selection.ends().0.0 + 1) as usize, 0usize), selection.ends().1),
    ensures
        rows_text(lines, selection, end) == row_text(
            lines[selection.ends().0.0 as int],
            selection.ends().0.0 as int,
            selection,
        ) + rows_text(lines, next, end),
    decreases end,
{
    let at = selection.ends().0.0 as int;
    let head = row_text(lines[at], at, selection);
    if end == at + 1 {
        assert(rows_text(lines, selection, at) =~= Seq::empty());
        assert(rows_text(lines, selection, end) =~= head + rows_text(lines, next, end));
    } else {
        lemma_first_row(lines, selection, next, end - 1);
        assert(row_text(lines[end - 1], end - 1, selection) == row_text(
            lines[end - 1],
            end - 1,
            next,
        ));
        assert(rows_text(lines, selection, end) =~= head + rows_text(lines, next, end));
    }
}

/// A selection ends with the last cell of its row where it reaches beyond it, and takes nothing
/// that is not there.
pub proof fn law_selection_ends_with_the_screen(
    snapshot: TerminalSnapshot,
    row: usize,
    from: usize,
    to: usize,
    last: (usize, usize),
)
    requires
        from <= to,
    ensures
        row >= snapshot.lines@.len() && row <= last.0 ==> selection_text(
            snapshot,
            TextSelection { anchor: (row, from), active: last },
        ).len() == 0,
        row < snapshot.lines@.len() && from >= snapshot.lines@[row as int].cells@.len()
            ==> selection_text(
            snapshot,
            TextSelection { anchor: (row, from), active: (row, to) },
        ).len() == 0,
        row < snapshot.lines@.len() && from < snapshot.lines@[row as int].cells@.len() <= to
            ==> selection_text(
            snapshot,
            TextSelection { anchor: (row, from), active: (row, to) },
        ) == selection_text(
            snapshot,
            TextSelection {
                anchor: (row, from),
                active: (row, (snapshot.lines@[row as int].cells@.len() - 1) as usize),
            },
        ),
{
    if row >= snapshot.lines@.len() {
        if row <= last.0 {
            let selection = TextSelection { anchor: (row, from), active: last };
            assert(selection.ends().0.0 == row);
        }
    } else {
        let cells = snapshot.lines@[row as int].cells@;
        assert(snapshot.lines@[row as int].cells.len() == cells.len());
        lemma_one_row(snapshot, row, from, to);
        if from < cells.len() && cells.len() <= to {
            lemma_one_row(snapshot, row, from, (cells.len() - 1) as usize);
        }
    }
}

/// Whether a cell is part of a word.
pub open spec fn is_word_cell(cells: Seq<TerminalCell>, col: int) -> bool {
    0 <= col < cells.len() && !is_white_space(cells[col].ch) && cells[col].ch != '\0'
}

/// The first column of the word around a column; where there is no word, the column.
pub open spec fn word_start(cells: Seq<TerminalCell>, col: int) -> int
    decreases col,
{
    if col > 0 && is_word_cell(cells, col) && is_word_cell(cells, col - 1) {
        word_start(cells, col - 1)
    } else {
        col
    }
}

/// The last column of the word around a column; where there is no word, the column.
pub open spec fn word_end(cells: Seq<TerminalCell>, col: int) -> int
    decreases cells.len() - col,
{
    if is_word_cell(cells, col) && is_word_cell(cells, col + 1) {
        word_end(cells, col + 1)
    } else {
        col
    }
}

fn word_cell(cells: &Vec<TerminalCell>, col: usize) -> (r: bool)
    ensures
        r == is_word_cell(cells@, col as int),
{
    col < cells.len() && !white_space(cells[col].ch) && cells[col].ch != '\0'
}

/// The column that a click selects at: the last one where the row is shorter.
pub open spec fn clicked_col(cells: Seq<TerminalCell>, col: usize) -> int {
    if cells.len() == 0 {
        0
    } else {
        least(col as int, cells.len() - 1)
    }
}

/// Selects the word under a double click.
pub fn select_word_at(snapshot: &TerminalSnapshot, row: usize, col: usize) -> (r: TextSelection)
    requires
        row < snapshot.lines@.len(),
    ensures
        r.anchor.0 == row && r.active.0 == row,
        r.anchor.1 == word_start(
            snapshot.lines@[row as int].cells@,
            clicked_col(snapshot.lines@[row as int].cells@, col),
        ),
        r.active.1 == word_end(
            snapshot.lines@[row as int].cells@,
            clicked_col(snapshot.lines@[row as int].cells@, col),
        ),
{
    let cells = &snapshot.lines[row].cells;
    let col: usize = if cells.len() == 0 {
        0
    } else if col < cells.len() {
        col
    } else {
        cells.len() - 1
    };
    let mut start: usize = col;
    while start > 0 && word_cell(cells, start) && word_cell(cells, start - 1)
        invariant
            word_start(cells@, start as int) == word_start(cells@, col as int),
        decreases start,
    {
        start = start - 1;
    }
    let mut end: usize = col;
    while end < cells.len() && word_cell(cells, end) && word_cell(cells, end + 1)
        invariant
            end <= cells@.len(),
            word_end(cells@, end as int) == word_end(cells@, col as int),
        decreases cells@.len() - end,
    {
        end = end + 1;
    }
    TextSelection { anchor: (row, start), active: (row, end) }
}

/// A double click on a word selects that word: it lies around the click, it holds nothing but
/// characters that are not white space, and it cannot be made longer on either side.
pub proof fn law_word_is_whole(cells: Seq<TerminalCell>, col: int)
    requires
        0 <= col < cells.len(),
    ensures
        0 <= word_start(cells, col) <= col <= word_end(cells, col) < cells.len(),
        is_white_space(cells[col].ch) || cells[col].ch == '\0' ==> word_start(cells, col) == col
            && word_end(cells, col) == col,
        !is_white_space(cells[col].ch) && cells[col].ch != '\0' ==> {
            let first = word_start(cells, col);
            let last = word_end(cells, col);
            &&& forall|i: int|
                first <= i <= last ==> !is_white_space((#[trigger] cells[i]).ch) && cells[i].ch
                    != '\0'
            &&& first > 0 ==> is_white_space(cells[first - 1].ch) || cells[first - 1].ch == '\0'
            &&& last + 1 < cells.len() ==> is_white_space(cells[last + 1].ch) || cells[last
                + 1].ch == '\0'
        },
{
    lemma_word_start(cells, col);
    lemma_word_end(cells, col);
    if is_word_cell(cells, col) {
        let first = word_start(cells, col);
        let last = word_end(cells, col);
        assert(!is_word_cell(cells, first - 1) && !is_word_cell(cells, last + 1));
        assert forall|i: int| first <= i <= last implies !is_white_space((#[trigger] cells[i]).ch)
            && cells[i].ch != '\0' by {
            assert(is_word_cell(cells, i));
        }
    }
}

proof fn lemma_word_start(cells: Seq<TerminalCell>, col: int)
    requires
        0 <= col < cells.len(),
    ensures
        0 <= word_start(cells, col) <= col,
        !is_word_cell(cells, col) ==> word_start(cells, col) == col,
        is_word_cell(cells, col) ==> (forall|i: int|
            word_start(cells, col) <= i <= col ==> #[trigger] is_word_cell(cells, i)),
        is_word_cell(cells, col) ==> !is_word_cell(cells, word_start(cells, col) - 1),
    decreases col,
{
    if col > 0 && is_word_cell(cells, col) && is_word_cell(cells, col - 1) {
        lemma_word_start(cells, col - 1);
    }
}

proof fn lemma_word_end(cells: Seq<TerminalCell>, col: int)
    requires
        0 <= col < cells.len(),
    ensures
        col <= word_end(cells, col) < cells.len(),
        !is_word_cell(cells, col) ==> word_end(cells, col) == col,
        is_word_cell(cells, col) ==> (forall|i: int|
            col <= i <= word_end(cells, col) ==> #[trigger] is_word_cell(cells, i)),
        is_word_cell(cells, col) ==> !is_word_cell(cells, word_end(cells, col) + 1),
    decreases cells.len() - col,
{
    if is_word_cell(cells, col) && is_word_cell(cells, col + 1) {
        lemma_word_end(cells, col + 1);
    }
}

/// Selects the row under a triple click.
pub fn select_line(row: usize, cols: usize) -> (r: TextSelection)
    ensures
        r.anchor == (row, 0usize),
        r.active.0 == row,
        r.active.1 == (if cols == 0 {
            0
        } else {
            cols - 1
        }),
{
    TextSelection { anchor: (row, 0), active: (row, cols.saturating_sub(1)) }
}

/// All that is in view.
pub open spec fn whole_screen(snapshot: TerminalSnapshot) -> TextSelection {
    TextSelection {
        anchor: (0usize, 0usize),
        active: (
            if snapshot.rows == 0 {
                0usize
            } else {
                (snapshot.rows - 1) as usize
            },
            if snapshot.cols == 0 {
                0usize
            } else {
                (snapshot.cols - 1) as usize
            },
        ),
    }
}

/// Selecting all takes in every place of the screen, from the first on.
pub proof fn law_all_is_selected(snapshot: TerminalSnapshot, row: usize, col: usize)
    requires
        row < snapshot.rows,
        col < snapshot.cols,
    ensures
        whole_screen(snapshot).anchor == (0usize, 0usize),
        whole_screen(snapshot).active.0 + 1 == snapshot.rows,
        whole_screen(snapshot).active.1 + 1 == snapshot.cols,
        whole_screen(snapshot).covers(row, col),
{
}

/// Selects all that is in view.
pub fn select_all(snapshot: &TerminalSnapshot) -> (r: TextSelection)
    ensures
        r == whole_screen(*snapshot),
{
    TextSelection {
        anchor: (0, 0),
        active: (snapshot.rows.saturating_sub(1), snapshot.cols.saturating_sub(1)),
    }
}

/// The cell of a position, where it is one of the screen.
pub fn cell_on_screen(snapshot: &TerminalSnapshot, cell: Option<(usize, usize)>) -> (r: Option<
    (usize, usize),
>)
    ensures
        r == (match cell {
            Some(place) => if place.0 < snapshot.rows && place.1 < snapshot.cols {
                Some(place)
            } else {
                None
            },
            None => None,
        }),
{
    match cell {
        Some((row, col)) => {
            if row < snapshot.rows && col < snapshot.cols {
                Some((row, col))
            } else {
                None
            }
        },
        None => None,
    }
}

/// The row of a line is the first that shows it.
pub proof fn law_lines_are_found_on_their_row(lines: Seq<TerminalRow>, line: int, at: int)
    requires
        0 <= at <= lines.len(),
        forall|j: int| 0 <= j < at ==> (#[trigger] lines[j]).absolute_line != line,
    ensures
        at < lines.len() && lines[at].absolute_line == line ==> row_of_line(lines, line) == Some(
            at as nat,
        ),
        at == lines.len() ==> row_of_line(lines, line) is None,
    decreases lines.len(),
{
    if lines.len() > 0 {
        let front = lines.drop_last();
        if at == lines.len() {
            assert(lines[at - 1].absolute_line != line);
            law_lines_are_found_on_their_row(front, line, at - 1);
        } else {
            if at < lines.len() - 1 {
                assert(front[at] == lines[at]);
            }
            law_lines_are_found_on_their_row(front, line, at);
        }
    }
}

/// A found range is marked on the row of its line, between its columns as far as the screen goes;
/// a range of a line that is not shown, or beyond the edge, is not.
pub proof fn law_found_ranges_are_marked(
    snapshot: TerminalSnapshot,
    range: TerminalSearchRange,
    row: int,
    current: bool,
)
    requires
        0 <= row <= snapshot.lines@.len(),
        forall|j: int|
            0 <= j < row ==> (#[trigger] snapshot.lines@[j]).absolute_line != range.line,
        row < snapshot.lines@.len() ==> snapshot.lines@[row].absolute_line == range.line,
    ensures
        row == snapshot.lines@.len() ==> range_highlight(snapshot, range, current) is None,
        range.start_col >= snapshot.cols || range.start_col >= range.end_col ==> range_highlight(
            snapshot,
            range,
            current,
        ) is None,
        row < snapshot.lines@.len() && range.start_col < range.end_col && range.start_col
            < snapshot.cols ==> ({
            &&& range_highlight(snapshot, range, current) matches Some(mark)
            &&& mark.row == row
            &&& mark.start_col == range.start_col
            &&& mark.end_col == if range.end_col <= snapshot.cols {
                range.end_col
            } else {
                snapshot.cols
            }
            &&& mark.current == current
        }),
{
    law_lines_are_found_on_their_row(snapshot.lines@, range.line as int, row);
    assert(snapshot.lines.len() == snapshot.lines@.len());
}

/// The marks of results come in the order of the results, and those of one in the order of its
/// ranges; only those of the current result are marked as current.
pub proof fn law_marks_come_in_order(
    snapshot: TerminalSnapshot,
    matches: Seq<TerminalSearchMatch>,
    found: TerminalSearchMatch,
    ranges: Seq<TerminalSearchRange>,
    range: TerminalSearchRange,
    current: Option<usize>,
)
    ensures
        highlights_of(snapshot, Seq::empty(), current).len() == 0,
        highlights_of(snapshot, matches.push(found), current) == highlights_of(
            snapshot,
            matches,
            current,
        ) + match_highlights(
            snapshot,
            found.ranges@,
            current matches Some(index) && index == matches.len(),
        ),
        match_highlights(snapshot, Seq::empty(), true).len() == 0,
        range_highlight(snapshot, range, true) is None ==> match_highlights(
            snapshot,
            ranges.push(range),
            true,
        ) == match_highlights(snapshot, ranges, true),
        range_highlight(snapshot, range, true) matches Some(mark) ==> match_highlights(
            snapshot,
            ranges.push(range),
            true,
        ) == match_highlights(snapshot, ranges, true).push(mark),
        range_highlight(snapshot, range, false) matches Some(mark) ==> match_highlights(
            snapshot,
            ranges.push(range),
            false,
        ) == match_highlights(snapshot, ranges, false).push(mark),
{
    assert(matches.push(found).drop_last() =~= matches);
    assert(ranges.push(range).drop_last() =~= ranges);
}

/// Dragging the thumb of the scroll bar goes where it is dragged; a click above it goes a page up
/// and one below it a page down. Without lines to scroll to nothing happens.
pub proof fn law_scroll_bars_scroll(lines: usize, offset: usize, pointer: ScrollPointer)
    requires
        lines > 0,
    ensures
        scroll_command(0, pointer) is None,
        scroll_command(lines, ScrollPointer::Idle) is None,
        scroll_command(lines, ScrollPointer::Down { on_thumb: true, offset: Some(offset) }) == Some(
            ScrollCommand::ToOffset(offset),
        ),
        scroll_command(lines, ScrollPointer::Down { on_thumb: false, offset: Some(offset) })
            is None,
        scroll_command(lines, ScrollPointer::Down { on_thumb: true, offset: None }) is None,
        scroll_command(
            lines,
            ScrollPointer::Clicked { pressed_on_thumb: false, place: TrackPlace::AboveThumb },
        ) == Some(ScrollCommand::PageUp),
        scroll_command(
            lines,
            ScrollPointer::Clicked { pressed_on_thumb: false, place: TrackPlace::BelowThumb },
        ) == Some(ScrollCommand::PageDown),
        pointer matches ScrollPointer::Clicked { pressed_on_thumb, place } ==> (pressed_on_thumb
            ==> scroll_command(lines, pointer) is None),
{
}

/// A place is selected when it does not come before both ends of the selection, nor after both of
/// them; which end was set first makes no difference. Both ends are selected.
pub proof fn law_selections_reach_from_end_to_end(s: TextSelection, row: usize, col: usize)
    ensures
        s.covers(row, col) <==> {
            let (a, b) = (s.anchor, s.active);
            let behind_a = row > a.0 || row == a.0 && col >= a.1;
            let behind_b = row > b.0 || row == b.0 && col >= b.1;
            let ahead_a = row < a.0 || row == a.0 && col <= a.1;
            let ahead_b = row < b.0 || row == b.0 && col <= b.1;
            (behind_a && ahead_b) || (behind_b && ahead_a)
        },
        s.covers(s.anchor.0, s.anchor.1),
        s.covers(s.active.0, s.active.1),
        s.covers(row, col) == (TextSelection { anchor: s.active, active: s.anchor }).covers(
            row,
            col,
        ),
{
}

/// A click selects at its own column, and behind the end of a row at the last cell of the row.
pub proof fn law_clicks_select_a_cell(cells: Seq<TerminalCell>, col: usize)
    ensures
        col < cells.len() ==> clicked_col(cells, col) == col,
        0 < cells.len() <= col ==> clicked_col(cells, col) + 1 == cells.len(),
        cells.len() == 0 ==> clicked_col(cells, col) == 0,
{
}

} // verus!
