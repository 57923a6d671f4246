//! The terminal's screen: its size, how a cell of the grid is painted, and
//! how the pointer selects text.
use vstd::prelude::*;

use alacritty_terminal::index::{Column, Line, Point};
use alacritty_terminal::selection::SelectionRange;
use alacritty_terminal::term::cell::Flags;

use crate::color;
use crate::color::{Pixel, Rgb, TermColor};

verus! {

// ---- size ----

/// The size of a grid in cells.
#[derive(Clone, Copy, Debug, PartialEq, Eq, Structural)]
pub struct TermSize {
    pub cols: usize,
    pub rows: usize,
}

/// The size that a pseudo terminal is told.
#[derive(Clone, Copy, Debug, PartialEq, Eq, Structural)]
pub struct PtyDims {
    pub rows: u16,
    pub cols: u16,
}

impl TermSize {
    /// The size of a grid before its first frame.
    pub fn initial() -> (r: TermSize)
        ensures
            r == (TermSize { cols: 80, rows: 24 }),
    {
        TermSize { cols: 80, rows: 24 }
    }

    /// All lines, which are those on the screen.
    pub fn total_lines(&self) -> (r: usize)
        ensures
            r == self.rows,
    {
        self.rows
    }

    /// The lines on the screen.
    pub fn screen_lines(&self) -> (r: usize)
        ensures
            r == self.rows,
    {
        self.rows
    }

    /// The columns.
    pub fn columns(&self) -> (r: usize)
        ensures
            r == self.cols,
    {
        self.cols
    }

    /// The size as a pseudo terminal is told it: only the low sixteen bits of
    /// each number count.
    pub open spec fn dims(self) -> PtyDims {
        PtyDims {
            rows: (self.rows as int % 0x10000) as u16,
            cols: (self.cols as int % 0x10000) as u16,
        }
    }

    /// The size as a pseudo terminal is told it.
    pub fn pty_dims(&self) -> (r: PtyDims)
        ensures
            r == self.dims(),
    {
        let rows: usize = self.rows;
        let cols: usize = self.cols;
        assert(rows % 0x10000 <= 0xffff && cols % 0x10000 <= 0xffff);
        PtyDims { rows: (rows % 0x10000) as u16, cols: (cols % 0x10000) as u16 }
    }

    /// A grid has at least one column and one row.
    pub open spec fn at_least_one(cols: usize, rows: usize) -> TermSize {
        TermSize {
            cols: if cols < 1 { 1 } else { cols },
            rows: if rows < 1 { 1 } else { rows },
        }
    }

    /// Takes a new size over. Gives it back when it differs from the old one,
    /// for the grid and the pseudo terminal to follow.
    pub fn maybe_resize(&mut self, cols: usize, rows: usize) -> (r: Option<TermSize>)
        ensures
            *final(self) == TermSize::at_least_one(cols, rows),
            r == (if *final(self) == *old(self) {
                None
            } else {
                Some(*final(self))
            }),
    {
        let new: TermSize = TermSize {
            cols: if cols < 1 { 1 } else { cols },
            rows: if rows < 1 { 1 } else { rows },
        };
        if new == *self {
            return None;
        }
        *self = new;
        Some(new)
    }
}

// ---- attributes of a cell ----

pub const INVERSE: u16 = 0x0001;

pub const BOLD: u16 = 0x0002;

pub const WIDE_CHAR_SPACER: u16 = 0x0040;

pub const DIM: u16 = 0x0080;

pub const HIDDEN: u16 = 0x0100;

pub const STRIKEOUT: u16 = 0x0200;

/// Plain, double, curly, dotted and dashed underlines.
pub const ALL_UNDERLINES: u16 = 0x7808;

/// Every bit of `mask` is set in `flags`.
pub open spec fn all_set(flags: u16, mask: u16) -> bool {
    flags & mask == mask
}

/// Some bit of `mask` is set in `flags`.
pub open spec fn some_set(flags: u16, mask: u16) -> bool {
    flags & mask != 0
}

/// `Flags::contains` of alacritty_terminal: every bit of `mask` is set in
/// `flags`.
#[verifier::external_body]
fn flags_contain(flags: u16, mask: u16) -> (r: bool)
    ensures
        r == all_set(flags, mask),
{
    Flags::from_bits_retain(flags).contains(Flags::from_bits_retain(mask))
}

/// `Flags::intersects` of alacritty_terminal: some bit of `mask` is set in
/// `flags`.
#[verifier::external_body]
fn flags_intersect(flags: u16, mask: u16) -> (r: bool)
    ensures
        r == some_set(flags, mask),
{
    Flags::from_bits_retain(flags).intersects(Flags::from_bits_retain(mask))
}

// ---- places on the grid ----

/// A place on the grid. Lines above the screen, in the history, are negative.
#[derive(Clone, Copy, Debug, PartialEq, Eq, Structural)]
pub struct GridPoint {
    pub line: i32,
    pub column: usize,
}

/// The half of a cell that the pointer is over.
#[derive(Clone, Copy, Debug, PartialEq, Eq, Structural)]
pub enum CellSide {
    Left,
    Right,
}

/// A range of selected cells, from its top left to its bottom right.
#[derive(Clone, Copy, Debug, PartialEq, Eq, Structural)]
pub struct SelectedRange {
    pub start: GridPoint,
    pub end: GridPoint,
    pub is_block: bool,
}

/// The range holds the cell at `p`: a block holds the columns between its
/// ends on each of its lines, any other range runs on from line to line.
pub open spec fn in_range(s: SelectedRange, p: GridPoint) -> bool {
    &&& s.start.line <= p.line <= s.end.line
    &&& s.start.column <= p.column || (s.start.line != p.line && !s.is_block)
    &&& p.column <= s.end.column || (s.end.line != p.line && !s.is_block)
}

/// `SelectionRange::contains` of alacritty_terminal: whether the range holds
/// the cell at `p`.
#[verifier::external_body]
fn range_contains(s: SelectedRange, p: GridPoint) -> (r: bool)
    ensures
        r == in_range(s, p),
{
    let range = SelectionRange {
        start: Point::new(Line(s.start.line), Column(s.start.column)),
        end: Point::new(Line(s.end.line), Column(s.end.column)),
        is_block: s.is_block,
    };
    range.contains(Point::new(Line(p.line), Column(p.column)))
}

/// The row of the screen on which a line of the grid is shown when the
/// display is scrolled back by `offset` lines.
pub fn screen_row(line: i32, offset: usize) -> (r: i32)
    requires
        offset <= i32::MAX,
        line + offset <= i32::MAX,
    ensures
        r == line + offset,
{
    line + offset as i32
}

/// The place on the grid under a pointer that is over column `col` and row
/// `row` of the screen, both held within the screen.
pub open spec fn point_under(
    col: usize,
    row: i32,
    cols: usize,
    rows: usize,
    offset: usize,
) -> GridPoint {
    let last_col = if cols == 0 { 0 } else { cols - 1 };
    let last_row = if rows == 0 { 0 } else { rows - 1 };
    GridPoint {
        line: ((if row < last_row { row as int } else { last_row }) - offset) as i32,
        column: if col < last_col { col } else { last_col as usize },
    }
}

/// The place on the grid under the pointer, and the half of the cell that the
/// pointer is over.
pub fn to_point(
    col: usize,
    row: i32,
    left_half: bool,
    cols: usize,
    rows: usize,
    offset: usize,
) -> (r: (GridPoint, CellSide))
    requires
        row >= 0,
        rows <= i32::MAX,
        offset <= i32::MAX,
    ensures
        r.0 == point_under(col, row, cols, rows, offset),
        r.1 == (if left_half {
            CellSide::Left
        } else {
            CellSide::Right
        }),
{
    let last_col: usize = if cols == 0 { 0 } else { cols - 1 };
    let last_row: i32 = if rows == 0 { 0 } else { rows as i32 - 1 };
    let column: usize = if col < last_col { col } else { last_col };
    let shown: i32 = if row < last_row { row } else { last_row };
    let side: CellSide = if left_half {
        CellSide::Left
    } else {
        CellSide::Right
    };
    (GridPoint { line: shown - offset as i32, column }, side)
}

/// What becomes of the selection.
#[derive(Clone, Copy, Debug, PartialEq, Eq, Structural)]
pub enum SelectionAct {
    Keep,
    Start(GridPoint, CellSide),
    Extend(GridPoint, CellSide),
    Clear,
}

/// What a pointer does to the selection: a drag starts one where it begins
/// and extends it on its way, a click without a drag clears it.
pub open spec fn selection_after(
    started: bool,
    dragged: bool,
    clicked: bool,
    at: Option<(GridPoint, CellSide)>,
    selected: bool,
) -> SelectionAct {
    if started {
        match at {
            Some((p, side)) => SelectionAct::Start(p, side),
            None => SelectionAct::Keep,
        }
    } else if dragged {
        match at {
            Some((p, side)) => if selected {
                SelectionAct::Extend(p, side)
            } else {
                SelectionAct::Keep
            },
            None => SelectionAct::Keep,
        }
    } else if clicked {
        SelectionAct::Clear
    } else {
        SelectionAct::Keep
    }
}

/// What a pointer does to the selection.
pub fn selection_act(
    started: bool,
    dragged: bool,
    clicked: bool,
    at: Option<(GridPoint, CellSide)>,
    selected: bool,
) -> (r: SelectionAct)
    ensures
        r == selection_after(started, dragged, clicked, at, selected),
{
    if started {
        match at {
            Some((p, side)) => SelectionAct::Start(p, side),
            None => SelectionAct::Keep,
        }
    } else if dragged {
        match at {
            Some((p, side)) => if selected {
                SelectionAct::Extend(p, side)
            } else {
                SelectionAct::Keep
            },
            None => SelectionAct::Keep,
        }
    } else if clicked {
        SelectionAct::Clear
    } else {
        SelectionAct::Keep
    }
}

// ---- painting ----

/// A cell of the grid.
#[derive(Clone, Copy, Debug, PartialEq, Eq, Structural)]
pub struct Cell {
    pub at: GridPoint,
    pub ch: char,
    pub fg: TermColor,
    pub bg: TermColor,
    pub flags: u16,
}

/// How a cell is painted.
#[derive(Clone, Copy, Debug, PartialEq, Eq, Structural)]
pub struct CellPaint {
    /// The row of the screen.
    pub row: i32,
    pub column: usize,
    /// The colour of the glyph and of the lines through and under it.
    pub fg: Rgb,
    /// The background, where it is not the tab's own.
    pub fill: Option<Rgb>,
    pub highlight: bool,
    pub glyph: bool,
    pub underline: bool,
    pub strikeout: bool,
}

/// The two colours of a cell, foreground first: bold brightens the
/// foreground, faint dims it, and inverse exchanges the two.
pub open spec fn cell_colors(c: Cell, body_bg: Rgb) -> (Rgb, Rgb) {
    let plain = color::resolved(c.fg, all_set(c.flags, BOLD), body_bg);
    let fg = if all_set(c.flags, DIM) {
        color::dimmed(plain)
    } else {
        plain
    };
    let bg = color::resolved(c.bg, false, body_bg);
    if all_set(c.flags, INVERSE) {
        (bg, fg)
    } else {
        (fg, bg)
    }
}

/// The cell shows a glyph: it is not hidden, not the second half of a wide
/// character, and not blank.
pub open spec fn shows_glyph(c: Cell) -> bool {
    &&& !all_set(c.flags, HIDDEN)
    &&& !all_set(c.flags, WIDE_CHAR_SPACER)
    &&& c.ch != ' '
    &&& c.ch != '\0'
}

/// How a cell is painted on a tab with the background `body_bg`, when the
/// display is scrolled back by `offset` lines and `selection` is selected.
pub open spec fn painted(
    c: Cell,
    body_bg: Rgb,
    offset: usize,
    selection: Option<SelectedRange>,
) -> CellPaint {
    let (fg, bg) = cell_colors(c, body_bg);
    CellPaint {
        row: (c.at.line + offset) as i32,
        column: c.at.column,
        fg,
        fill: if bg == body_bg {
            None
        } else {
            Some(bg)
        },
        highlight: match selection {
            Some(s) => in_range(s, c.at),
            None => false,
        },
        glyph: shows_glyph(c),
        underline: some_set(c.flags, ALL_UNDERLINES),
        strikeout: all_set(c.flags, STRIKEOUT),
    }
}

/// How a cell is painted.
pub fn paint_cell(
    c: Cell,
    body_bg: Rgb,
    offset: usize,
    selection: Option<SelectedRange>,
) -> (r: CellPaint)
    requires
        offset <= i32::MAX,
        c.at.line + offset <= i32::MAX,
    ensures
        r == painted(c, body_bg, offset, selection),
{
    let bold: bool = flags_contain(c.flags, BOLD);
    let mut fg: Rgb = color::resolve(c.fg, bold, body_bg);
    let mut bg: Rgb = color::resolve(c.bg, false, body_bg);
    if flags_contain(c.flags, DIM) {
        fg = color::dim(fg);
    }
    if flags_contain(c.flags, INVERSE) {
        let front: Rgb = fg;
        fg = bg;
        bg = front;
    }
    let glyph: bool = !flags_contain(c.flags, HIDDEN) && !flags_contain(c.flags, WIDE_CHAR_SPACER)
        && c.ch != ' ' && c.ch != '\0';
    let highlight: bool = match selection {
        Some(s) => range_contains(s, c.at),
        None => false,
    };
    CellPaint {
        row: screen_row(c.at.line, offset),
        column: c.at.column,
        fg,
        fill: if bg == body_bg {
            None
        } else {
            Some(bg)
        },
        highlight,
        glyph,
        underline: flags_intersect(c.flags, ALL_UNDERLINES),
        strikeout: flags_contain(c.flags, STRIKEOUT),
    }
}

/// How the cursor is painted.
#[derive(Clone, Copy, Debug, PartialEq, Eq, Structural)]
pub struct CursorPaint {
    /// The row of the screen.
    pub row: i32,
    pub column: usize,
    /// The block over the cell, where the cursor is not hidden.
    pub block: Option<Pixel>,
}

/// How the cursor is painted: as a translucent white block, on the row where
/// its cell is.
pub fn paint_cursor(at: GridPoint, hidden: bool, offset: usize) -> (r: CursorPaint)
    requires
        offset <= i32::MAX,
        at.line + offset <= i32::MAX,
    ensures
        r == (CursorPaint {
            row: (at.line + offset) as i32,
            column: at.column,
            block: if hidden {
                None
            } else {
                Some(Pixel { r: 96, g: 96, b: 96, a: 96 })
            },
        }),
{
    CursorPaint {
        row: screen_row(at.line, offset),
        column: at.column,
        block: if hidden {
            None
        } else {
            Some(color::white(96))
        },
    }
}

// ---- laws ----

/// The pointer always hits a cell of the screen, and the row it hits is the
/// row on which that cell is shown.
pub proof fn law_pointer_hits_the_screen(
    col: usize,
    row: i32,
    cols: usize,
    rows: usize,
    offset: usize,
)
    requires
        row >= 0,
        0 < cols,
        0 < rows <= i32::MAX,
        offset <= i32::MAX,
    ensures
        point_under(col, row, cols, rows, offset).column < cols,
        0 <= point_under(col, row, cols, rows, offset).line + offset < rows,
        row < rows ==> point_under(col, row, cols, rows, offset).line + offset == row,
        col < cols ==> point_under(col, row, cols, rows, offset).column == col,
{
}

/// Inverse changes nothing but which of the two colours is in front.
pub proof fn law_inverse_exchanges(c: Cell, d: Cell, body_bg: Rgb)
    requires
        d == (Cell { flags: c.flags ^ INVERSE, ..c }),
    ensures
        cell_colors(d, body_bg) == (cell_colors(c, body_bg).1, cell_colors(c, body_bg).0),
        shows_glyph(d) == shows_glyph(c),
{
    let f: u16 = c.flags;
    assert((f ^ 0x0001) & 0x0001 == 0x0001 <==> f & 0x0001 != 0x0001) by (bit_vector);
    assert((f ^ 0x0001) & 0x0002 == f & 0x0002) by (bit_vector);
    assert((f ^ 0x0001) & 0x0040 == f & 0x0040) by (bit_vector);
    assert((f ^ 0x0001) & 0x0080 == f & 0x0080) by (bit_vector);
    assert((f ^ 0x0001) & 0x0100 == f & 0x0100) by (bit_vector);
}

/// A blank cell without attributes on the default background paints nothing
/// but the selection.
pub proof fn law_blank_cell_paints_nothing(
    c: Cell,
    body_bg: Rgb,
    offset: usize,
    selection: Option<SelectedRange>,
)
    requires
        c.ch == ' ',
        c.flags == 0,
        c.bg == TermColor::Named(color::NamedColor::Background),
    ensures
        ({
            let p = painted(c, body_bg, offset, selection);
            p.fill is None && !p.glyph && !p.underline && !p.strikeout
        }),
{
    assert(0u16 & 0x0001 == 0) by (bit_vector);
    assert(0u16 & 0x0080 == 0) by (bit_vector);
    assert(0u16 & 0x0200 == 0) by (bit_vector);
    assert(0u16 & 0x7808 == 0) by (bit_vector);
}

/// A grid never loses its last column or row, and a size that was taken over
/// is not a change the second time.
pub proof fn law_resize_settles(cols: usize, rows: usize)
    ensures
        TermSize::at_least_one(cols, rows).cols >= 1,
        TermSize::at_least_one(cols, rows).rows >= 1,
        TermSize::at_least_one(
            TermSize::at_least_one(cols, rows).cols,
            TermSize::at_least_one(cols, rows).rows,
        ) == TermSize::at_least_one(cols, rows),
{
}

/// A cell is painted on its own background: where that differs from the tab's
/// it is filled with it, and where the cell is inverse its glyph is in it.
pub proof fn law_cell_background(
    c: Cell,
    body_bg: Rgb,
    offset: usize,
    selection: Option<SelectedRange>,
)
    ensures
        ({
            let own = color::resolved(c.bg, false, body_bg);
            let p = painted(c, body_bg, offset, selection);
            &&& c.flags & 0x0001 == 0 && own != body_bg ==> p.fill == Some(own)
            &&& c.flags & 0x0001 == 0 && own == body_bg ==> p.fill is None
            &&& c.flags & 0x0001 != 0 ==> p.fg == own
        }),
        c.bg matches TermColor::Spec(x) ==> x != body_bg && c.flags & 0x0001 == 0 ==> painted(
            c,
            body_bg,
            offset,
            selection,
        ).fill == Some(x),
{
    let f: u16 = c.flags;
    assert(f & 0x0001 == 0 <==> f & 0x0001 != 0x0001) by (bit_vector);
}

/// A glyph is in the cell's own foreground, which is brighter where the cell
/// is bold and darker where it is faint; where the cell is inverse that is what
/// it is filled with.
pub proof fn law_cell_foreground(
    c: Cell,
    body_bg: Rgb,
    offset: usize,
    selection: Option<SelectedRange>,
)
    ensures
        ({
            let ink = color::resolved(c.fg, c.flags & 0x0002 != 0, body_bg);
            let p = painted(c, body_bg, offset, selection);
            let inverse = c.flags & 0x0001 != 0;
            let faint = c.flags & 0x0080 != 0;
            &&& !inverse && !faint ==> p.fg == ink
            &&& !inverse && faint ==> p.fg == color::dimmed(ink)
            &&& inverse && !faint && ink != body_bg ==> p.fill == Some(ink)
            &&& inverse && faint && color::dimmed(ink) != body_bg ==> p.fill == Some(
                color::dimmed(ink),
            )
            &&& inverse && !faint && ink == body_bg ==> p.fill is None
            &&& inverse && faint && color::dimmed(ink) == body_bg ==> p.fill is None
        }),
{
    let f: u16 = c.flags;
    assert(f & 0x0001 != 0 <==> f & 0x0001 == 0x0001) by (bit_vector);
    assert(f & 0x0002 != 0 <==> f & 0x0002 == 0x0002) by (bit_vector);
    assert(f & 0x0080 != 0 <==> f & 0x0080 == 0x0080) by (bit_vector);
}

/// A cell is painted in its column, as many rows down as the display is
/// scrolled back. It shows its glyph unless it is blank, hidden or the second
/// half of a wide one, a line under it for any of the five underlines, a line
/// through it where it is struck out, and the highlight where it is selected.
pub proof fn law_cell_marks(
    c: Cell,
    body_bg: Rgb,
    offset: usize,
    selection: Option<SelectedRange>,
)
    requires
        c.at.line + offset <= i32::MAX,
    ensures
        ({
            let p = painted(c, body_bg, offset, selection);
            &&& p.row - offset == c.at.line
            &&& p.column == c.at.column
            &&& c.ch == ' ' || c.ch == '\0' || c.flags & 0x0100 != 0 || c.flags & 0x0040 != 0
                ==> !p.glyph
            &&& c.ch != ' ' && c.ch != '\0' && c.flags & 0x0100 == 0 && c.flags & 0x0040 == 0
                ==> p.glyph
            &&& c.flags & 0x0008 != 0 || c.flags & 0x0800 != 0 || c.flags & 0x1000 != 0 || c.flags
                & 0x2000 != 0 || c.flags & 0x4000 != 0 ==> p.underline
            &&& c.flags & 0x0008 == 0 && c.flags & 0x0800 == 0 && c.flags & 0x1000 == 0 && c.flags
                & 0x2000 == 0 && c.flags & 0x4000 == 0 ==> !p.underline
            &&& p.strikeout <==> c.flags & 0x0200 != 0
            &&& selection is None ==> !p.highlight
            &&& selection matches Some(s) ==> (p.highlight <==> in_range(s, c.at))
        }),
{
    let f: u16 = c.flags;
    assert(f & 0x0100 != 0 <==> f & 0x0100 == 0x0100) by (bit_vector);
    assert(f & 0x0040 != 0 <==> f & 0x0040 == 0x0040) by (bit_vector);
    assert(f & 0x0200 != 0 <==> f & 0x0200 == 0x0200) by (bit_vector);
    assert(f & 0x7808 == 0 <==> (f & 0x0008 == 0 && f & 0x0800 == 0 && f & 0x1000 == 0 && f & 0x2000
        == 0 && f & 0x4000 == 0)) by (bit_vector);
}

/// The place `a` is read no later than the place `b`.
pub open spec fn reads_before(a: GridPoint, b: GridPoint) -> bool {
    a.line < b.line || (a.line == b.line && a.column <= b.column)
}

/// A selection holds what is read from its start to its end, both included;
/// a block holds the rectangle between the two.
pub proof fn law_selection_holds(s: SelectedRange, p: GridPoint)
    ensures
        !s.is_block ==> (in_range(s, p) <==> reads_before(s.start, p) && reads_before(p, s.end)),
        s.is_block ==> (in_range(s, p) <==> s.start.line <= p.line && p.line <= s.end.line
            && s.start.column <= p.column && p.column <= s.end.column),
{
}

/// Attributes are tested bit by bit: all of a mask are set where all of its
/// parts are, and some where some of a part are.
pub proof fn law_attributes(f: u16, a: u16, b: u16)
    ensures
        all_set(f, a | b) <==> all_set(f, a) && all_set(f, b),
        some_set(f, a | b) <==> some_set(f, a) || some_set(f, b),
        all_set(f, 0) && !some_set(f, 0),
        all_set(f | a, a),
        a != 0 ==> some_set(f | a, a),
        !some_set(f & !a, a),
        a != 0 ==> !all_set(f & !a, a),
{
    assert(f & (a | b) == (a | b) <==> f & a == a && f & b == b) by (bit_vector);
    assert(f & (a | b) != 0 <==> f & a != 0 || f & b != 0) by (bit_vector);
    assert(f & 0 == 0) by (bit_vector);
    assert((f | a) & a == a) by (bit_vector);
    assert((f & !a) & a == 0) by (bit_vector);
}

/// A pointer beyond the last column or row is over the last, and on a screen
/// without any it is at the corner.
pub proof fn law_pointer_is_held(col: usize, row: i32, cols: usize, rows: usize, offset: usize)
    requires
        row >= 0,
        rows <= i32::MAX,
        offset <= i32::MAX,
    ensures
        ({
            let p = point_under(col, row, cols, rows, offset);
            &&& col < cols ==> p.column == col
            &&& 0 < cols <= col ==> p.column == cols - 1
            &&& cols == 0 ==> p.column == 0
            &&& row < rows ==> p.line == row - offset
            &&& 0 < rows <= row ==> p.line == rows - 1 - offset
            &&& rows == 0 ==> p.line == 0 - offset
        }),
{
}

/// A drag starts a selection where it begins and takes its end along, a click
/// ends it, and a pointer that is nowhere or does nothing leaves it.
pub proof fn law_pointer_selects(
    dragged: bool,
    clicked: bool,
    p: GridPoint,
    side: CellSide,
    at: Option<(GridPoint, CellSide)>,
    selected: bool,
)
    ensures
        selection_after(true, dragged, clicked, Some((p, side)), selected) == SelectionAct::Start(
            p,
            side,
        ),
        selection_after(false, true, clicked, Some((p, side)), true) == SelectionAct::Extend(p, side),
        selection_after(false, true, clicked, at, false) == SelectionAct::Keep,
        selection_after(true, dragged, clicked, None, selected) == SelectionAct::Keep,
        selection_after(false, true, clicked, None, selected) == SelectionAct::Keep,
        selection_after(false, false, true, at, selected) == SelectionAct::Clear,
        selection_after(false, false, false, at, selected) == SelectionAct::Keep,
{
}

/// A size of at least one column and one row is taken over as it is, and what
/// is missing becomes one.
pub proof fn law_size_is_taken_over(cols: usize, rows: usize)
    ensures
        cols >= 1 ==> TermSize::at_least_one(cols, rows).cols == cols,
        rows >= 1 ==> TermSize::at_least_one(cols, rows).rows == rows,
        TermSize::at_least_one(0, rows).cols == 1,
        TermSize::at_least_one(cols, 0).rows == 1,
{
}

/// A pseudo terminal is told the size as it is, as far as sixteen bits go.
pub proof fn law_pty_is_told(size: TermSize)
    ensures
        size.rows < 0x10000 ==> size.dims().rows == size.rows,
        size.cols < 0x10000 ==> size.dims().cols == size.cols,
        (size.rows - size.dims().rows) % 0x10000 == 0,
        (size.cols - size.dims().cols) % 0x10000 == 0,
{
}

/// The cursor is a white block over its cell, where it is not hidden, and
/// moves down with the display.
pub proof fn law_cursor(at: GridPoint, offset: usize, shown: CursorPaint, hidden: CursorPaint)
    requires
        offset <= i32::MAX,
        at.line + offset <= i32::MAX,
        call_ensures(paint_cursor, (at, false, offset), shown),
        call_ensures(paint_cursor, (at, true, offset), hidden),
    ensures
        shown.row - offset == at.line && shown.column == at.column,
        shown.block == Some(Pixel { r: 96, g: 96, b: 96, a: 96 }),
        hidden == (CursorPaint { block: None, ..shown }),
{
}

} // verus!
