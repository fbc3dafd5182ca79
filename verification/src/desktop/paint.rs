//! How a screen is painted: the colours of its cells, and the order in which fills, texts and lines
//! are put down.

use crate::desktop::screen::{
    least, TerminalAttrs, TerminalColor, TerminalCursorShape, TextSelection, ViewportHighlight,
};
use crate::desktop::settings::ThemeChoice;
use vstd::prelude::*;
use vstd::string::*;

verus! {

/// A colour with its opacity.
#[derive(Clone, Copy, Debug, PartialEq, Eq, Structural)]
pub struct Rgba {
    pub r: u8,
    pub g: u8,
    pub b: u8,
    pub a: u8,
}

/// The colours of a terminal.
#[derive(Clone, Copy, Debug, PartialEq, Eq, Structural)]
pub struct TerminalTheme {
    pub background: Rgba,
    pub foreground: Rgba,
    pub cursor: Rgba,
    pub cursor_text: Rgba,
    pub selection: Rgba,
    pub search: Rgba,
    pub search_current: Rgba,
}

pub open spec fn color(r: u8, g: u8, b: u8, a: u8) -> Rgba {
    Rgba { r, g, b, a }
}

/// The colours of a choice; only the background lets what is behind the window shine through.
pub open spec fn theme_of(choice: ThemeChoice, alpha: u8) -> TerminalTheme {
    match choice {
        ThemeChoice::Dark => TerminalTheme {
            background: color(0x28, 0x2a, 0x36, alpha),
            foreground: color(0xf8, 0xf8, 0xf2, 0xff),
            cursor: color(0xbd, 0x93, 0xf9, 0xff),
            cursor_text: color(0x28, 0x2a, 0x36, 0xff),
            selection: color(0x44, 0x47, 0x5a, 0x99),
            search: color(0xe5, 0xc0, 0x7b, 0xaa),
            search_current: color(0xe5, 0xa5, 0x4a, 0xee),
        },
        ThemeChoice::Light => TerminalTheme {
            background: color(0xff, 0xff, 0xff, alpha),
            foreground: color(0x1c, 0x1e, 0x21, 0xff),
            cursor: color(0x40, 0x40, 0x40, 0xff),
            cursor_text: color(0xff, 0xff, 0xff, 0xff),
            selection: color(0x8a, 0xb4, 0xe0, 0x66),
            search: color(0xc9, 0x9a, 0x2e, 0xaa),
            search_current: color(0xb0, 0x7a, 0x12, 0xee),
        },
    }
}

pub fn build_theme(choice: ThemeChoice, alpha: u8) -> (r: TerminalTheme)
    ensures
        r == theme_of(choice, alpha),
{
    match choice {
        ThemeChoice::Dark => TerminalTheme {
            background: Rgba { r: 0x28, g: 0x2a, b: 0x36, a: alpha },
            foreground: Rgba { r: 0xf8, g: 0xf8, b: 0xf2, a: 0xff },
            cursor: Rgba { r: 0xbd, g: 0x93, b: 0xf9, a: 0xff },
            cursor_text: Rgba { r: 0x28, g: 0x2a, b: 0x36, a: 0xff },
            selection: Rgba { r: 0x44, g: 0x47, b: 0x5a, a: 0x99 },
            search: Rgba { r: 0xe5, g: 0xc0, b: 0x7b, a: 0xaa },
            search_current: Rgba { r: 0xe5, g: 0xa5, b: 0x4a, a: 0xee },
        },
        ThemeChoice::Light => TerminalTheme {
            background: Rgba { r: 0xff, g: 0xff, b: 0xff, a: alpha },
            foreground: Rgba { r: 0x1c, g: 0x1e, b: 0x21, a: 0xff },
            cursor: Rgba { r: 0x40, g: 0x40, b: 0x40, a: 0xff },
            cursor_text: Rgba { r: 0xff, g: 0xff, b: 0xff, a: 0xff },
            selection: Rgba { r: 0x8a, g: 0xb4, b: 0xe0, a: 0x66 },
            search: Rgba { r: 0xc9, g: 0x9a, b: 0x2e, a: 0xaa },
            search_current: Rgba { r: 0xb0, g: 0x7a, b: 0x12, a: 0xee },
        },
    }
}

impl Default for TerminalTheme {
    fn default() -> (r: Self)
        ensures
            r == theme_of(ThemeChoice::Dark, 0xff),
    {
        build_theme(ThemeChoice::Dark, 0xff)
    }
}

pub open spec fn opaque(c: TerminalColor) -> Rgba {
    Rgba { r: c.r, g: c.g, b: c.b, a: 0xff }
}

fn solid(c: TerminalColor) -> (r: Rgba)
    ensures
        r == opaque(c),
{
    Rgba { r: c.r, g: c.g, b: c.b, a: 0xff }
}

/// The colours of a cell before they are mixed: reversed for a cell that is shown in reverse.
pub fn base_colors(fg: TerminalColor, bg: TerminalColor, attrs: TerminalAttrs) -> (r: (
    TerminalColor,
    TerminalColor,
))
    ensures
        r == (if attrs.inverse {
            (bg, fg)
        } else {
            (fg, bg)
        }),
{
    if attrs.inverse {
        (bg, fg)
    } else {
        (fg, bg)
    }
}

/// What mixing the base colours of a cell comes to: the foreground with some white, and the
/// foreground in effect with some background. Both are fractions and therefore given.
#[derive(Clone, Copy, Debug, PartialEq, Eq, Structural)]
pub struct MixedColors {
    pub brightened: TerminalColor,
    pub dimmed: TerminalColor,
}

/// The foreground of a cell before the theme has its say.
pub open spec fn mixed_foreground(fg: TerminalColor, attrs: TerminalAttrs, mixed: MixedColors) -> TerminalColor {
    if attrs.dim {
        mixed.dimmed
    } else if attrs.bold {
        mixed.brightened
    } else {
        fg
    }
}

pub fn mix_foreground(fg: TerminalColor, attrs: TerminalAttrs, mixed: MixedColors) -> (r:
    TerminalColor)
    ensures
        r == mixed_foreground(fg, attrs, mixed),
{
    if attrs.dim {
        mixed.dimmed
    } else if attrs.bold {
        mixed.brightened
    } else {
        fg
    }
}

/// The colours that a cell is painted in: colours that are the terminal's defaults, whatever its
/// preset, become those of the theme.
pub fn resolve_colors(
    fg: TerminalColor,
    bg: TerminalColor,
    default_fg: bool,
    default_bg: bool,
    theme: &TerminalTheme,
) -> (r: (Rgba, Rgba))
    ensures
        r.0 == (if default_fg {
            theme.foreground
        } else {
            opaque(fg)
        }),
        r.1 == (if default_bg {
            theme.background
        } else {
            opaque(bg)
        }),
{
    let front = if default_fg {
        theme.foreground
    } else {
        solid(fg)
    };
    let back = if default_bg {
        theme.background
    } else {
        solid(bg)
    };
    (front, back)
}

/// A cell with the colours that it is painted in.
pub struct PaintedCell {
    pub ch: char,
    pub zerowidth: String,
    pub wide: bool,
    pub cursor: bool,
    pub underline: bool,
    pub strikeout: bool,
    pub fg: Rgba,
    pub bg: Rgba,
}

/// A stroke of the brush. Places are rows and columns of cells.
pub enum PaintOp {
    /// The whole screen.
    Screen { color: Rgba },
    /// One cell, or two for a wide one.
    Fill { row: usize, col: usize, wide: bool, color: Rgba },
    Cursor { row: usize, col: usize, wide: bool, shape: TerminalCursorShape, color: Rgba },
    Text { row: usize, col: usize, text: String, color: Rgba },
    Underline { row: usize, col: usize, color: Rgba },
    Strike { row: usize, col: usize, color: Rgba },
}

/// A stroke with its text as characters.
pub ghost enum Stroke {
    Screen { color: Rgba },
    Fill { row: usize, col: usize, wide: bool, color: Rgba },
    Cursor { row: usize, col: usize, wide: bool, shape: TerminalCursorShape, color: Rgba },
    Text { row: usize, col: usize, text: Seq<char>, color: Rgba },
    Underline { row: usize, col: usize, color: Rgba },
    Strike { row: usize, col: usize, color: Rgba },
}

impl PaintOp {
    pub open spec fn stroke(self) -> Stroke {
        match self {
            PaintOp::Screen { color } => Stroke::Screen { color },
            PaintOp::Fill { row, col, wide, color } => Stroke::Fill { row, col, wide, color },
            PaintOp::Cursor { row, col, wide, shape, color } => Stroke::Cursor {
                row,
                col,
                wide,
                shape,
                color,
            },
            PaintOp::Text { row, col, text, color } => Stroke::Text { row, col, text: text@, color },
            PaintOp::Underline { row, col, color } => Stroke::Underline { row, col, color },
            PaintOp::Strike { row, col, color } => Stroke::Strike { row, col, color },
        }
    }
}

pub open spec fn strokes(ops: Seq<PaintOp>) -> Seq<Stroke> {
    Seq::new(ops.len(), |i: int| ops[i].stroke())
}

fn put(ops: &mut Vec<PaintOp>, op: PaintOp)
    ensures
        strokes(final(ops)@) == strokes(old(ops)@).push(op.stroke()),
{
    ops.push(op);
    assert(strokes(ops@) =~= strokes(old(ops)@).push(op.stroke()));
}

/// What lies on a screen besides its cells.
pub struct PaintContext<'a> {
    pub theme: TerminalTheme,
    pub cursor_visible: bool,
    pub cursor_shape: TerminalCursorShape,
    pub selection: Option<TextSelection>,
    pub search: Option<&'a Vec<ViewportHighlight>>,
}

impl PaintContext<'_> {
    pub open spec fn highlights(self) -> Seq<ViewportHighlight> {
        match self.search {
            Some(list) => list@,
            None => Seq::empty(),
        }
    }
}

/// Whether a cell is the place to the right of a wide one.
pub open spec fn is_spacer(cells: Seq<PaintedCell>, col: int) -> bool
    decreases col,
{
    col > 0 && cells[col - 1].wide && !is_spacer(cells, col - 1)
}

/// The fills of the search results that cover a cell.
pub open spec fn search_strokes(
    highlights: Seq<ViewportHighlight>,
    theme: TerminalTheme,
    row: usize,
    col: usize,
    wide: bool,
) -> Seq<Stroke>
    decreases highlights.len(),
{
    if highlights.len() == 0 {
        Seq::empty()
    } else {
        let h = highlights.last();
        let before = search_strokes(highlights.drop_last(), theme, row, col, wide);
        if h.row == row && h.start_col <= col < h.end_col {
            before.push(
                Stroke::Fill {
                    row,
                    col,
                    wide,
                    color: if h.current {
                        theme.search_current
                    } else {
                        theme.search
                    },
                },
            )
        } else {
            before
        }
    }
}

/// Whether the cursor is painted on a cell.
pub open spec fn has_cursor(cell: PaintedCell, context: PaintContext) -> bool {
    cell.cursor && context.cursor_visible
}

/// The text of a cell; a blank has none.
pub open spec fn text_strokes(cell: PaintedCell, context: PaintContext, row: usize, col: usize) -> Seq<
    Stroke,
> {
    if cell.ch != ' ' || cell.zerowidth@.len() > 0 {
        seq![
            Stroke::Text {
                row,
                col,
                text: seq![cell.ch] + cell.zerowidth@,
                color: if has_cursor(cell, context) && context.cursor_shape
                    == TerminalCursorShape::Block {
                    context.theme.cursor_text
                } else {
                    cell.fg
                },
            },
        ]
    } else {
        Seq::empty()
    }
}

pub open spec fn optional(present: bool, stroke: Stroke) -> Seq<Stroke> {
    if present {
        seq![stroke]
    } else {
        Seq::empty()
    }
}

/// What lies under the text of a cell: its background, then the selection, the search results and
/// the cursor.
pub open spec fn under_strokes(cell: PaintedCell, context: PaintContext, row: usize, col: usize) -> Seq<
    Stroke,
> {
    optional(
        cell.bg != context.theme.background,
        Stroke::Fill { row, col, wide: cell.wide, color: cell.bg },
    ) + optional(
        context.selection matches Some(selection) && selection.covers(row, col),
        Stroke::Fill { row, col, wide: cell.wide, color: context.theme.selection },
    ) + search_strokes(context.highlights(), context.theme, row, col, cell.wide) + optional(
        has_cursor(cell, context) && context.cursor_shape != TerminalCursorShape::Hidden,
        Stroke::Cursor {
            row,
            col,
            wide: cell.wide,
            shape: context.cursor_shape,
            color: context.theme.cursor,
        },
    )
}

/// The lines through and under the text of a cell.
pub open spec fn line_strokes(cell: PaintedCell, row: usize, col: usize) -> Seq<Stroke> {
    optional(cell.underline, Stroke::Underline { row, col, color: cell.fg }) + optional(
        cell.strikeout,
        Stroke::Strike { row, col, color: cell.fg },
    )
}

/// The strokes of a column. The text of a wide cell waits for the background of the place to its
/// right, which would cover half of it.
pub open spec fn column_strokes(
    cells: Seq<PaintedCell>,
    context: PaintContext,
    row: usize,
    col: int,
) -> Seq<Stroke> {
    if is_spacer(cells, col) {
        seq![Stroke::Fill { row, col: col as usize, wide: false, color: cells[col - 1].bg }]
            + text_strokes(cells[col - 1], context, row, (col - 1) as usize)
    } else {
        under_strokes(cells[col], context, row, col as usize) + (if cells[col].wide {
            Seq::empty()
        } else {
            text_strokes(cells[col], context, row, col as usize)
        }) + line_strokes(cells[col], row, col as usize)
    }
}

pub open spec fn columns_strokes(
    cells: Seq<PaintedCell>,
    context: PaintContext,
    row: usize,
    end: int,
) -> Seq<Stroke>
    decreases end,
{
    if end <= 0 {
        Seq::empty()
    } else {
        columns_strokes(cells, context, row, end - 1) + column_strokes(cells, context, row, end - 1)
    }
}

/// The strokes of a row. A wide cell at its very end has its text painted last.
pub open spec fn row_strokes(cells: Seq<PaintedCell>, context: PaintContext, row: usize) -> Seq<Stroke> {
    let n = cells.len() as int;
    columns_strokes(cells, context, row, n) + (if n > 0 && cells[n - 1].wide && !is_spacer(
        cells,
        n - 1,
    ) {
        text_strokes(cells[n - 1], context, row, (n - 1) as usize)
    } else {
        Seq::empty()
    })
}

fn paint_text(
    ops: &mut Vec<PaintOp>,
    cell: &PaintedCell,
    context: &PaintContext,
    row: usize,
    col: usize,
)
    ensures
        strokes(final(ops)@) == strokes(old(ops)@) + text_strokes(*cell, *context, row, col),
{
    if cell.ch != ' ' || !cell.zerowidth.as_str().is_empty() {
        let mut text = String::new();
        text.push(cell.ch);
        text.append(cell.zerowidth.as_str());
        let block = match context.cursor_shape {
            TerminalCursorShape::Block => true,
            _ => false,
        };
        let color = if cell.cursor && context.cursor_visible && block {
            context.theme.cursor_text
        } else {
            cell.fg
        };
        put(ops, PaintOp::Text { row, col, text, color });
        assert(text@ =~= seq![cell.ch] + cell.zerowidth@);
        assert(strokes(ops@) =~= strokes(old(ops)@) + text_strokes(*cell, *context, row, col));
    } else {
        assert(strokes(ops@) =~= strokes(old(ops)@) + text_strokes(*cell, *context, row, col));
    }
}

fn paint_under(
    ops: &mut Vec<PaintOp>,
    cell: &PaintedCell,
    context: &PaintContext,
    row: usize,
    col: usize,
)
    ensures
        strokes(final(ops)@) == strokes(old(ops)@) + under_strokes(*cell, *context, row, col),
{
    let ghost start = strokes(ops@);
    let ghost background = optional(
        cell.bg != context.theme.background,
        Stroke::Fill { row, col, wide: cell.wide, color: cell.bg },
    );
    let ghost selected = optional(
        context.selection matches Some(selection) && selection.covers(row, col),
        Stroke::Fill { row, col, wide: cell.wide, color: context.theme.selection },
    );
    if cell.bg != context.theme.background {
        put(ops, PaintOp::Fill { row, col, wide: cell.wide, color: cell.bg });
    }
    assert(strokes(ops@) =~= start + background);
    match &context.selection {
        Some(selection) => {
            if selection.contains(row, col) {
                put(
                    ops,
                    PaintOp::Fill { row, col, wide: cell.wide, color: context.theme.selection },
                );
            }
        },
        None => {},
    }
    assert(strokes(ops@) =~= start + background + selected);
    let ghost base = start + background + selected;
    match context.search {
        Some(search) => {
            let mut i: usize = 0;
            assert(strokes(ops@) =~= base + search_strokes(
                search@.take(0),
                context.theme,
                row,
                col,
                cell.wide,
            ));
            while i < search.len()
                invariant
                    i <= search.len(),
                    strokes(ops@) == base + search_strokes(
                        search@.take(i as int),
                        context.theme,
                        row,
                        col,
                        cell.wide,
                    ),
                decreases search.len() - i,
            {
                let highlight = search[i];
                assert(search@.take(i + 1).drop_last() =~= search@.take(i as int));
                let ghost before = search_strokes(
                    search@.take(i as int),
                    context.theme,
                    row,
                    col,
                    cell.wide,
                );
                if highlight.row == row && col >= highlight.start_col && col < highlight.end_col {
                    let color = if highlight.current {
                        context.theme.search_current
                    } else {
                        context.theme.search
                    };
                    put(ops, PaintOp::Fill { row, col, wide: cell.wide, color });
                    assert(strokes(ops@) =~= base + before.push(
                        Stroke::Fill { row, col, wide: cell.wide, color },
                    ));
                }
                i = i + 1;
            }
            assert(search@.take(i as int) =~= search@);
        },
        None => {
            assert(strokes(ops@) =~= base + search_strokes(
                Seq::empty(),
                context.theme,
                row,
                col,
                cell.wide,
            ));
        },
    }
    let hidden = match context.cursor_shape {
        TerminalCursorShape::Hidden => true,
        _ => false,
    };
    if cell.cursor && context.cursor_visible && !hidden {
        put(
            ops,
            PaintOp::Cursor {
                row,
                col,
                wide: cell.wide,
                shape: context.cursor_shape,
                color: context.theme.cursor,
            },
        );
    }
    assert(strokes(ops@) =~= start + under_strokes(*cell, *context, row, col));
}

/// Paints a cell that is not the place to the right of a wide one.
fn paint_cell(
    ops: &mut Vec<PaintOp>,
    cells: &Vec<PaintedCell>,
    context: &PaintContext,
    row: usize,
    col: usize,
)
    requires
        col < cells@.len(),
        !is_spacer(cells@, col as int),
    ensures
        strokes(final(ops)@) == strokes(old(ops)@) + column_strokes(
            cells@,
            *context,
            row,
            col as int,
        ),
{
    let ghost start = strokes(ops@);
    let cell = &cells[col];
    let ghost under = under_strokes(*cell, *context, row, col);
    let ghost text = if cell.wide {
        Seq::empty()
    } else {
        text_strokes(*cell, *context, row, col)
    };
    paint_under(ops, cell, context, row, col);
    if !cell.wide {
        paint_text(ops, cell, context, row, col);
    }
    assert(strokes(ops@) == start + under + text);
    paint_lines(ops, cell, row, col);
    proof {
        lemma_gathered(start, under, text, line_strokes(*cell, row, col));
    }
}

proof fn lemma_gathered(a: Seq<Stroke>, b: Seq<Stroke>, c: Seq<Stroke>, d: Seq<Stroke>)
    ensures
        a + b + c + d == a + (b + c + d),
        (a + b) + c == a + (b + c),
{
    assert(a + b + c + d =~= a + (b + c + d));
    assert((a + b) + c =~= a + (b + c));
}

fn paint_lines(ops: &mut Vec<PaintOp>, cell: &PaintedCell, row: usize, col: usize)
    ensures
        strokes(final(ops)@) == strokes(old(ops)@) + line_strokes(*cell, row, col),
{
    let ghost start = strokes(ops@);
    if cell.underline {
        put(ops, PaintOp::Underline { row, col, color: cell.fg });
    }
    if cell.strikeout {
        put(ops, PaintOp::Strike { row, col, color: cell.fg });
    }
    assert(strokes(ops@) =~= start + line_strokes(*cell, row, col));
}

/// Paints the place to the right of a wide cell, and then the text of that cell.
fn paint_spacer(
    ops: &mut Vec<PaintOp>,
    cells: &Vec<PaintedCell>,
    context: &PaintContext,
    row: usize,
    col: usize,
)
    requires
        0 < col < cells@.len(),
        is_spacer(cells@, col as int),
    ensures
        strokes(final(ops)@) == strokes(old(ops)@) + column_strokes(
            cells@,
            *context,
            row,
            col as int,
        ),
{
    let ghost start = strokes(ops@);
    let wide = &cells[col - 1];
    put(ops, PaintOp::Fill { row, col, wide: false, color: wide.bg });
    paint_text(ops, wide, context, row, (col - 1) as usize);
    assert(strokes(ops@) =~= start + column_strokes(cells@, *context, row, col as int));
}

/// Paints a row of the screen.
pub fn paint_row(ops: &mut Vec<PaintOp>, cells: &Vec<PaintedCell>, context: &PaintContext, row: usize)
    ensures
        strokes(final(ops)@) == strokes(old(ops)@) + row_strokes(cells@, *context, row),
{
    let ghost start = strokes(ops@);
    let mut pending = false;
    let mut col: usize = 0;
    assert(strokes(ops@) =~= start + columns_strokes(cells@, *context, row, 0));
    while col < cells.len()
        invariant
            col <= cells.len(),
            pending == (col > 0 && cells@[col - 1].wide && !is_spacer(cells@, col - 1)),
            strokes(ops@) == start + columns_strokes(cells@, *context, row, col as int),
        decreases cells.len() - col,
    {
        let ghost before = columns_strokes(cells@, *context, row, col as int);
        let ghost here = column_strokes(cells@, *context, row, col as int);
        if pending {
            paint_spacer(ops, cells, context, row, col);
            pending = false;
        } else {
            paint_cell(ops, cells, context, row, col);
            pending = cells[col].wide;
        }
        proof {
            lemma_gathered(start, before, here, Seq::empty());
        }
        col = col + 1;
    }
    if pending {
        paint_text(ops, &cells[col - 1], context, row, col - 1);
        assert(strokes(ops@) =~= start + row_strokes(cells@, *context, row));
    } else {
        assert(strokes(ops@) =~= start + row_strokes(cells@, *context, row));
    }
}

/// The strokes of the rows before `end`.
pub open spec fn rows_strokes(rows: Seq<Vec<PaintedCell>>, context: PaintContext, end: int) -> Seq<Stroke>
    decreases end,
{
    if end <= 0 {
        Seq::empty()
    } else {
        rows_strokes(rows, context, end - 1) + row_strokes(
            rows[end - 1]@,
            context,
            (end - 1) as usize,
        )
    }
}

/// Paints the screen: its background, then its rows.
pub fn terminal_ui(rows: &Vec<Vec<PaintedCell>>, context: &PaintContext) -> (r: Vec<PaintOp>)
    ensures
        strokes(r@) == seq![Stroke::Screen { color: context.theme.background }] + rows_strokes(
            rows@,
            *context,
            rows@.len() as int,
        ),
{
    let mut ops: Vec<PaintOp> = Vec::new();
    let ghost first = seq![Stroke::Screen { color: context.theme.background }];
    put(&mut ops, PaintOp::Screen { color: context.theme.background });
    assert(strokes(ops@) =~= first + rows_strokes(rows@, *context, 0));
    let mut row: usize = 0;
    while row < rows.len()
        invariant
            row <= rows.len(),
            strokes(ops@) == first + rows_strokes(rows@, *context, row as int),
        decreases rows.len() - row,
    {
        let ghost before = rows_strokes(rows@, *context, row as int);
        paint_row(&mut ops, &rows[row], context, row);
        assert(strokes(ops@) =~= first + (before + row_strokes(
            rows@[row as int]@,
            *context,
            row,
        )));
        row = row + 1;
    }
    ops
}

/// The text of a wide cell is painted over the background of the place to its right, and not before
/// it: the column of the cell holds no text, and that of the place holds its fill and then the text.
pub proof fn law_wide_text_is_painted_last(
    cells: Seq<PaintedCell>,
    context: PaintContext,
    row: usize,
    col: int,
)
    requires
        0 <= col,
        col + 1 < cells.len() <= usize::MAX,
        cells[col].wide,
        !is_spacer(cells, col),
    ensures
        forall|i: int|
            0 <= i < column_strokes(cells, context, row, col).len() ==> !((
            #[trigger] column_strokes(cells, context, row, col)[i]) is Text),
        column_strokes(cells, context, row, col + 1) == seq![
            Stroke::Fill { row, col: (col + 1) as usize, wide: false, color: cells[col].bg },
        ] + text_strokes(cells[col], context, row, col as usize),
{
    let cell = cells[col];
    lemma_search_has_no_text(context.highlights(), context.theme, row, col as usize, cell.wide);
    let under = under_strokes(cell, context, row, col as usize);
    let all = column_strokes(cells, context, row, col);
    assert(all =~= under + line_strokes(cell, row, col as usize));
}

proof fn lemma_search_has_no_text(
    highlights: Seq<ViewportHighlight>,
    theme: TerminalTheme,
    row: usize,
    col: usize,
    wide: bool,
)
    ensures
        forall|i: int|
            0 <= i < search_strokes(highlights, theme, row, col, wide).len() ==> !((
            #[trigger] search_strokes(highlights, theme, row, col, wide)[i]) is Text),
    decreases highlights.len(),
{
    if highlights.len() > 0 {
        lemma_search_has_no_text(highlights.drop_last(), theme, row, col, wide);
    }
}

pub const MAX_CACHED_IMAGE_TEXTURES: usize = 8;

/// The images whose textures are kept, by identifier and version; the one that was loaded last
/// comes last.
pub struct ImageTextureCache {
    pub entries: Vec<(u64, u64)>,
}

/// Whether an identifier is among the entries.
pub open spec fn holds_image(entries: Seq<(u64, u64)>, id: u64) -> bool {
    exists|i: int| 0 <= i < entries.len() && (#[trigger] entries[i]).0 == id
}

/// The entries without an identifier.
pub open spec fn without_image(entries: Seq<(u64, u64)>, id: u64) -> Seq<(u64, u64)> {
    entries.filter(other_image(id))
}

pub open spec fn other_image(id: u64) -> spec_fn((u64, u64)) -> bool {
    |entry: (u64, u64)| entry.0 != id
}

impl ImageTextureCache {
    /// No more than the limit, and each image once.
    pub open spec fn well_formed(self) -> bool {
        &&& self.entries@.len() <= MAX_CACHED_IMAGE_TEXTURES
        &&& forall|i: int, j: int|
            0 <= i < j < self.entries@.len() ==> (#[trigger] self.entries@[i]).0 != (
            #[trigger] self.entries@[j]).0
    }

    pub fn new() -> (r: Self)
        ensures
            r.well_formed(),
            r.entries@.len() == 0,
    {
        ImageTextureCache { entries: Vec::new() }
    }

    /// Whether the texture of an image is at hand in this version.
    pub fn is_fresh(&self, id: u64, version: u64) -> (r: bool)
        ensures
            r == self.entries@.contains((id, version)),
    {
        let mut i: usize = 0;
        while i < self.entries.len()
            invariant
                i <= self.entries.len(),
                forall|j: int| 0 <= j < i ==> self.entries@[j] != (id, version),
            decreases self.entries.len() - i,
        {
            let entry = self.entries[i];
            if entry.0 == id && entry.1 == version {
                assert(self.entries@[i as int] == (id, version));
                return true;
            }
            i = i + 1;
        }
        false
    }

    /// Takes up a texture that was loaded, and says whose texture is to be dropped for it.
    pub fn insert(&mut self, id: u64, version: u64) -> (dropped: Option<u64>)
        requires
            old(self).well_formed(),
        ensures
            final(self).well_formed(),
            ({
                let kept = without_image(old(self).entries@, id).push((id, version));
                if kept.len() > MAX_CACHED_IMAGE_TEXTURES {
                    final(self).entries@ == kept.skip(1) && dropped == Some(kept[0].0)
                } else {
                    final(self).entries@ == kept && dropped is None
                }
            }),
    {
        let ghost start = self.entries@;
        let ghost keep = other_image(id);
        let mut kept: Vec<(u64, u64)> = Vec::new();
        let mut i: usize = 0;
        proof {
            reveal(Seq::filter);
            assert(start.take(0).filter(keep) =~= Seq::empty());
        }
        while i < self.entries.len()
            invariant
                i <= self.entries@.len(),
                self.entries@ == start,
                self.entries@.len() <= MAX_CACHED_IMAGE_TEXTURES,
                keep == other_image(id),
                kept@ == start.take(i as int).filter(keep),
                kept@.len() <= i,
                forall|a: int, b: int|
                    0 <= a < b < start.len() ==> (#[trigger] start[a]).0 != (#[trigger] start[b]).0,
                forall|a: int|
                    0 <= a < kept@.len() ==> (#[trigger] kept@[a]).0 != id && holds_image(
                        start.take(i as int),
                        kept@[a].0,
                    ),
                forall|a: int, b: int|
                    0 <= a < b < kept@.len() ==> (#[trigger] kept@[a]).0 != (#[trigger] kept@[b]).0,
            decreases self.entries@.len() - i,
        {
            let entry = self.entries[i];
            proof {
                reveal(Seq::filter);
                let next = start.take(i + 1);
                assert(next.drop_last() =~= start.take(i as int));
                assert(next.last() == entry);
                assert(next[i as int].0 == entry.0);
                assert forall|a: int| 0 <= a < kept@.len() implies holds_image(
                    next,
                    (#[trigger] kept@[a]).0,
                ) by {
                    let k = choose|k: int|
                        0 <= k < start.take(i as int).len() && (#[trigger] start.take(
                            i as int,
                        )[k]).0 == kept@[a].0;
                    assert(next[k].0 == kept@[a].0);
                }
                assert forall|a: int| 0 <= a < kept@.len() implies (#[trigger] kept@[a]).0
                    != entry.0 by {
                    let k = choose|k: int|
                        0 <= k < start.take(i as int).len() && (#[trigger] start.take(
                            i as int,
                        )[k]).0 == kept@[a].0;
                    assert(start[k].0 != start[i as int].0);
                }
                assert(holds_image(next, entry.0));
            }
            if entry.0 != id {
                kept.push(entry);
            }
            i = i + 1;
        }
        assert(start.take(i as int) =~= start);
        kept.push((id, version));
        let ghost whole = kept@;
        let mut dropped: Option<u64> = None;
        if kept.len() > MAX_CACHED_IMAGE_TEXTURES {
            let oldest = kept.remove(0);
            dropped = Some(oldest.0);
            assert(kept@ =~= whole.skip(1));
        }
        self.entries = kept;
        dropped
    }
}

/// The frame of an animation that is shown; a still image has none.
pub fn image_frame(frames: usize, current: usize) -> (r: Option<usize>)
    ensures
        r == (if frames == 0 {
            None
        } else {
            Some(least(current as int, frames - 1) as usize)
        }),
{
    if frames == 0 {
        None
    } else if current < frames {
        Some(current)
    } else {
        Some(frames - 1)
    }
}

/// An image on the screen: the cells that it covers, the part of it that is shown, and its size.
#[derive(Clone, Copy, Debug, PartialEq, Eq, Structural)]
pub struct ImagePlacement {
    pub row: usize,
    pub col: usize,
    pub cols: usize,
    pub rows: usize,
    pub source_x: u32,
    pub source_y: u32,
    pub source_width: u32,
    pub source_height: u32,
    pub width: u32,
    pub height: u32,
}

/// The part of an image that is shown, in pixels of an image of `width` and `height`.
#[derive(Clone, Copy, Debug, PartialEq, Eq, Structural)]
pub enum ImageSource {
    Whole,
    Part { left: u32, top: u32, right: u64, bottom: u64, width: u32, height: u32 },
}

/// What is shown of an image; `None` for one that covers no cell.
pub fn image_source(image: &ImagePlacement) -> (r: Option<ImageSource>)
    ensures
        r is None <==> image.cols == 0 || image.rows == 0,
        r matches Some(source) ==> if image.source_width > 0 && image.source_height > 0 {
            source matches ImageSource::Part { left, top, right, bottom, width, height } && {
                &&& left == image.source_x && top == image.source_y
                &&& right == image.source_x + image.source_width
                &&& bottom == image.source_y + image.source_height
                &&& width == (if image.width == 0 {
                    1
                } else {
                    image.width
                })
                &&& height == (if image.height == 0 {
                    1
                } else {
                    image.height
                })
            }
        } else {
            source == ImageSource::Whole
        },
{
    if image.cols == 0 || image.rows == 0 {
        return None;
    }
    if image.source_width > 0 && image.source_height > 0 {
        Some(
            ImageSource::Part {
                left: image.source_x,
                top: image.source_y,
                right: image.source_x as u64 + image.source_width as u64,
                bottom: image.source_y as u64 + image.source_height as u64,
                width: if image.width == 0 {
                    1
                } else {
                    image.width
                },
                height: if image.height == 0 {
                    1
                } else {
                    image.height
                },
            },
        )
    } else {
        Some(ImageSource::Whole)
    }
}

/// The colours of the two themes; only the background takes the opacity that is asked for.
pub proof fn law_themes_have_their_colors(alpha: u8)
    ensures
        ({
            let dark = theme_of(ThemeChoice::Dark, alpha);
            &&& dark.background == (Rgba { r: 0x28, g: 0x2a, b: 0x36, a: alpha })
            &&& dark.foreground == (Rgba { r: 0xf8, g: 0xf8, b: 0xf2, a: 255 })
            &&& dark.cursor == (Rgba { r: 0xbd, g: 0x93, b: 0xf9, a: 255 })
            &&& dark.cursor_text == (Rgba { r: 0x28, g: 0x2a, b: 0x36, a: 255 })
            &&& dark.selection == (Rgba { r: 0x44, g: 0x47, b: 0x5a, a: 0x99 })
            &&& dark.search == (Rgba { r: 0xe5, g: 0xc0, b: 0x7b, a: 0xaa })
            &&& dark.search_current == (Rgba { r: 0xe5, g: 0xa5, b: 0x4a, a: 0xee })
        }),
        ({
            let light = theme_of(ThemeChoice::Light, alpha);
            &&& light.background == (Rgba { r: 255, g: 255, b: 255, a: alpha })
            &&& light.foreground == (Rgba { r: 0x1c, g: 0x1e, b: 0x21, a: 255 })
            &&& light.cursor == (Rgba { r: 0x40, g: 0x40, b: 0x40, a: 255 })
            &&& light.cursor_text == (Rgba { r: 255, g: 255, b: 255, a: 255 })
            &&& light.selection == (Rgba { r: 0x8a, g: 0xb4, b: 0xe0, a: 0x66 })
            &&& light.search == (Rgba { r: 0xc9, g: 0x9a, b: 0x2e, a: 0xaa })
            &&& light.search_current == (Rgba { r: 0xb0, g: 0x7a, b: 0x12, a: 0xee })
        }),
{
}

/// A colour of the terminal is painted as it is and lets nothing through; dim text is dimmed,
/// though it be bold, and bold text is brightened.
pub proof fn law_cell_colors_are_mixed(
    fg: TerminalColor,
    attrs: TerminalAttrs,
    mixed: MixedColors,
)
    ensures
        opaque(fg).r == fg.r && opaque(fg).g == fg.g && opaque(fg).b == fg.b && opaque(fg).a == 255,
        attrs.dim ==> mixed_foreground(fg, attrs, mixed) == mixed.dimmed,
        !attrs.dim && attrs.bold ==> mixed_foreground(fg, attrs, mixed) == mixed.brightened,
        !attrs.dim && !attrs.bold ==> mixed_foreground(fg, attrs, mixed) == fg,
{
}

/// Search results are filled one by one in their order: one that covers the cell fills it, in
/// its own colour where it is the current one; one that does not leaves it.
pub proof fn law_search_results_are_filled(
    a: Seq<ViewportHighlight>,
    b: Seq<ViewportHighlight>,
    theme: TerminalTheme,
    row: usize,
    col: usize,
    wide: bool,
)
    ensures
        search_strokes(a + b, theme, row, col, wide) == search_strokes(a, theme, row, col, wide)
            + search_strokes(b, theme, row, col, wide),
        b.len() == 1 && b[0].row == row && b[0].start_col <= col && col < b[0].end_col
            ==> search_strokes(b, theme, row, col, wide) == seq![
            Stroke::Fill {
                row,
                col,
                wide,
                color: if b[0].current {
                    theme.search_current
                } else {
                    theme.search
                },
            },
        ],
        b.len() == 1 && (b[0].row != row || col < b[0].start_col || col >= b[0].end_col)
            ==> search_strokes(b, theme, row, col, wide).len() == 0,
    decreases b.len(),
{
    if b.len() == 0 {
        assert(a + b =~= a);
        assert(search_strokes(a + b, theme, row, col, wide) =~= search_strokes(
            a,
            theme,
            row,
            col,
            wide,
        ) + search_strokes(b, theme, row, col, wide));
    } else {
        law_search_results_are_filled(a, b.drop_last(), theme, row, col, wide);
        assert((a + b).drop_last() =~= a + b.drop_last());
        assert(search_strokes(a + b, theme, row, col, wide) =~= search_strokes(
            a,
            theme,
            row,
            col,
            wide,
        ) + search_strokes(b, theme, row, col, wide));
        if b.len() == 1 {
            assert(b.drop_last() =~= Seq::<ViewportHighlight>::empty());
            assert(search_strokes(b.drop_last(), theme, row, col, wide) =~= Seq::<
                Stroke,
            >::empty());
        }
    }
}

/// The text of a cell is its character with what is put over it, in the colour of the cell; only
/// under a block cursor that is shown it has the colour of the text there. A blank is not painted.
pub proof fn law_cells_show_their_text(
    cell: PaintedCell,
    context: PaintContext,
    row: usize,
    col: usize,
)
    ensures
        cell.ch == ' ' && cell.zerowidth@.len() == 0 ==> text_strokes(
            cell,
            context,
            row,
            col,
        ).len() == 0,
        cell.ch != ' ' || cell.zerowidth@.len() > 0 ==> text_strokes(cell, context, row, col)
            == seq![
            Stroke::Text {
                row,
                col,
                text: seq![cell.ch] + cell.zerowidth@,
                color: if cell.cursor && context.cursor_visible && context.cursor_shape
                    == TerminalCursorShape::Block {
                    context.theme.cursor_text
                } else {
                    cell.fg
                },
            },
        ],
{
}

/// Under the text lie, from below: the background of the cell where it is not that of the
/// screen, the selection, the search results and the cursor.
pub proof fn law_layers_lie_in_order(
    cell: PaintedCell,
    context: PaintContext,
    row: usize,
    col: usize,
)
    ensures
        ({
            let under = under_strokes(cell, context, row, col);
            let found = search_strokes(context.highlights(), context.theme, row, col, cell.wide);
            let filled: int = if cell.bg != context.theme.background {
                1
            } else {
                0
            };
            let chosen: int = if context.selection matches Some(selection) && selection.covers(
                row,
                col,
            ) {
                1
            } else {
                0
            };
            let marked: int = if cell.cursor && context.cursor_visible && context.cursor_shape
                != TerminalCursorShape::Hidden {
                1
            } else {
                0
            };
            &&& under.len() == filled + chosen + found.len() + marked
            &&& filled == 1 ==> under[0] == (Stroke::Fill {
                row,
                col,
                wide: cell.wide,
                color: cell.bg,
            })
            &&& chosen == 1 ==> under[filled] == (Stroke::Fill {
                row,
                col,
                wide: cell.wide,
                color: context.theme.selection,
            })
            &&& under.subrange(filled + chosen, filled + chosen + found.len()) == found
            &&& marked == 1 ==> under.last() == (Stroke::Cursor {
                row,
                col,
                wide: cell.wide,
                shape: context.cursor_shape,
                color: context.theme.cursor,
            })
        }),
{
    let under = under_strokes(cell, context, row, col);
    let found = search_strokes(context.highlights(), context.theme, row, col, cell.wide);
    let filled: int = if cell.bg != context.theme.background {
        1
    } else {
        0
    };
    let chosen: int = if context.selection matches Some(selection) && selection.covers(row, col) {
        1
    } else {
        0
    };
    assert(under.subrange(filled + chosen, filled + chosen + found.len()) =~= found);
}

/// A line runs under or through the text where the cell says so, in the colour of the text.
pub proof fn law_lines_have_the_color_of_the_text(cell: PaintedCell, row: usize, col: usize)
    ensures
        ({
            let lines = line_strokes(cell, row, col);
            let under: int = if cell.underline {
                1
            } else {
                0
            };
            &&& cell.underline ==> lines[0] == (Stroke::Underline { row, col, color: cell.fg })
            &&& cell.strikeout ==> lines[under] == (Stroke::Strike { row, col, color: cell.fg })
            &&& lines.len() == under + if cell.strikeout {
                1int
            } else {
                0
            }
        }),
{
}

/// The place to the right of a wide cell belongs to it; the one after that does not.
pub proof fn law_wide_cells_take_two_places(cells: Seq<PaintedCell>, col: int)
    requires
        0 <= col < cells.len(),
    ensures
        !is_spacer(cells, 0),
        cells[col].wide && !is_spacer(cells, col) ==> is_spacer(cells, col + 1),
        !cells[col].wide ==> !is_spacer(cells, col + 1),
        is_spacer(cells, col) ==> !is_spacer(cells, col + 1),
{
}

/// A narrow cell that stands alone in its row is painted from below: what lies under its text,
/// the text, and the lines.
pub proof fn law_a_cell_is_painted_from_below(
    cell: PaintedCell,
    context: PaintContext,
    row: usize,
)
    requires
        !cell.wide,
    ensures
        row_strokes(seq![cell], context, row) == under_strokes(cell, context, row, 0)
            + text_strokes(cell, context, row, 0) + line_strokes(cell, row, 0),
{
    let cells = seq![cell];
    assert(!is_spacer(cells, 0));
    assert(columns_strokes(cells, context, row, 0) =~= Seq::<Stroke>::empty());
    assert(columns_strokes(cells, context, row, 1) =~= column_strokes(cells, context, row, 0));
    assert(row_strokes(cells, context, row) =~= under_strokes(cell, context, row, 0)
        + text_strokes(cell, context, row, 0) + line_strokes(cell, row, 0));
}

proof fn lemma_parts_in_order<T>(left: Seq<T>, one: Seq<T>, all: Seq<T>, whole: Seq<T>)
    requires
        all == left + one,
        all.is_prefix_of(whole),
    ensures
        left.is_prefix_of(whole),
        one.is_suffix_of(all),
        all.len() == left.len() + one.len(),
{
    assert(all.subrange(all.len() - one.len(), all.len() as int) =~= one);
    assert(all.subrange(0, left.len() as int) =~= left);
    assert(whole.subrange(0, left.len() as int) =~= whole.subrange(0, all.len() as int).subrange(
        0,
        left.len() as int,
    ));
}

#[verifier::spinoff_prover]
#[verifier::rlimit(50)]
proof fn lemma_columns_in_order(
    cells: Seq<PaintedCell>,
    context: PaintContext,
    row: usize,
    at: int,
    end: int,
)
    requires
        0 <= at <= end,
    ensures
        columns_strokes(cells, context, row, at).is_prefix_of(
            columns_strokes(cells, context, row, end),
        ),
    decreases end - at,
{
    let left = columns_strokes(cells, context, row, at);
    if at < end {
        lemma_columns_in_order(cells, context, row, at + 1, end);
        lemma_parts_in_order(
            left,
            column_strokes(cells, context, row, at),
            columns_strokes(cells, context, row, at + 1),
            columns_strokes(cells, context, row, end),
        );
    } else {
        assert(left.subrange(0, left.len() as int) =~= left);
    }
}

#[verifier::spinoff_prover]
#[verifier::rlimit(50)]
proof fn lemma_rows_in_order(rows: Seq<Vec<PaintedCell>>, context: PaintContext, at: int, end: int)
    requires
        0 <= at <= end,
    ensures
        rows_strokes(rows, context, at).is_prefix_of(rows_strokes(rows, context, end)),
    decreases end - at,
{
    let above = rows_strokes(rows, context, at);
    if at < end {
        lemma_rows_in_order(rows, context, at + 1, end);
        lemma_parts_in_order(
            above,
            row_strokes(rows[at]@, context, at as usize),
            rows_strokes(rows, context, at + 1),
            rows_strokes(rows, context, end),
        );
    } else {
        assert(above.subrange(0, above.len() as int) =~= above);
    }
}

/// Columns are painted from left to right, and rows from top to bottom.
#[verifier::spinoff_prover]
#[verifier::rlimit(50)]
pub proof fn law_the_screen_is_painted_in_order(
    cells: Seq<PaintedCell>,
    rows: Seq<Vec<PaintedCell>>,
    context: PaintContext,
    row: usize,
    at: int,
    end: int,
)
    requires
        0 <= at <= end,
    ensures
        columns_strokes(cells, context, row, at).is_prefix_of(
            columns_strokes(cells, context, row, end),
        ),
        column_strokes(cells, context, row, at).is_suffix_of(
            columns_strokes(cells, context, row, at + 1),
        ),
        columns_strokes(cells, context, row, at + 1).len() == columns_strokes(
            cells,
            context,
            row,
            at,
        ).len() + column_strokes(cells, context, row, at).len(),
        rows_strokes(rows, context, at).is_prefix_of(rows_strokes(rows, context, end)),
        row_strokes(rows[at]@, context, at as usize).is_suffix_of(
            rows_strokes(rows, context, at + 1),
        ),
        rows_strokes(rows, context, at + 1).len() == rows_strokes(rows, context, at).len()
            + row_strokes(rows[at]@, context, at as usize).len(),
{
    lemma_columns_in_order(cells, context, row, at, end);
    lemma_rows_in_order(rows, context, at, end);
    let left = columns_strokes(cells, context, row, at);
    let one = column_strokes(cells, context, row, at);
    let all = columns_strokes(cells, context, row, at + 1);
    assert(all.subrange(0, all.len() as int) =~= all);
    lemma_parts_in_order(left, one, all, all);
    let above = rows_strokes(rows, context, at);
    let line = row_strokes(rows[at]@, context, at as usize);
    let both = rows_strokes(rows, context, at + 1);
    assert(both.subrange(0, both.len() as int) =~= both);
    lemma_parts_in_order(above, line, both, both);
}

/// An image that is loaded anew is kept once, as the last; eight are kept at most.
pub proof fn law_images_are_kept_once(entries: Seq<(u64, u64)>, id: u64, i: int)
    ensures
        !holds_image(without_image(entries, id), id),
        0 <= i < entries.len() && entries[i].0 != id ==> without_image(entries, id).contains(
            entries[i],
        ),
        0 <= i < without_image(entries, id).len() ==> entries.contains(
            without_image(entries, id)[i],
        ),
        MAX_CACHED_IMAGE_TEXTURES == 8,
{
    let kept = without_image(entries, id);
    assert forall|k: int| 0 <= k < kept.len() implies (#[trigger] kept[k]).0 != id by {
        entries.lemma_filter_pred(other_image(id), k);
    }
    if 0 <= i < entries.len() && entries[i].0 != id {
        assert(other_image(id)(entries[i]));
        entries.lemma_filter_contains(other_image(id), i);
    }
    if 0 <= i < kept.len() {
        assert(kept.contains(kept[i]));
        entries.lemma_filter_contains_rev(other_image(id), kept[i]);
    }
}

} // verus!
