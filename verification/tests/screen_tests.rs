use alacritty_terminal::index::{Column, Line, Point};
use alacritty_terminal::selection::SelectionRange;
use alacritty_terminal::term::cell::Flags;
use lust_termina::color;
use eframe::egui::Color32;
use lust_termina::color::{NamedColor, Rgb, TermColor};
use lust_termina::screen;
use lust_termina::screen::{
    Cell, CellSide, GridPoint, PtyDims, SelectedRange, SelectionAct, TermSize,
};

fn at(line: i32, column: usize) -> GridPoint {
    GridPoint { line, column }
}

fn cell(ch: char, flags: u16) -> Cell {
    Cell {
        at: at(2, 3),
        ch,
        fg: TermColor::Named(NamedColor::Red),
        bg: TermColor::Named(NamedColor::Background),
        flags,
    }
}

fn body() -> Rgb {
    color::rgb(color::DEFAULT_BG)
}

#[test]
fn attribute_bits_are_those_of_the_grid() {
    assert_eq!(screen::INVERSE, Flags::INVERSE.bits());
    assert_eq!(screen::BOLD, Flags::BOLD.bits());
    assert_eq!(screen::WIDE_CHAR_SPACER, Flags::WIDE_CHAR_SPACER.bits());
    assert_eq!(screen::DIM, Flags::DIM.bits());
    assert_eq!(screen::HIDDEN, Flags::HIDDEN.bits());
    assert_eq!(screen::STRIKEOUT, Flags::STRIKEOUT.bits());
    assert_eq!(screen::ALL_UNDERLINES, Flags::ALL_UNDERLINES.bits());
}

#[test]
fn a_grid_starts_at_eighty_by_twenty_four() {
    let s = TermSize::initial();
    assert_eq!((s.columns(), s.screen_lines(), s.total_lines()), (80, 24, 24));
    assert_eq!(s.pty_dims(), PtyDims { rows: 24, cols: 80 });
}

#[test]
fn a_pseudo_terminal_is_told_sixteen_bits() {
    let s = TermSize { cols: 0x1_0050, rows: 0x2_0000 };
    assert_eq!(s.pty_dims(), PtyDims { rows: 0x2_0000usize as u16, cols: 0x1_0050usize as u16 });
}

#[test]
fn resizing_keeps_one_cell_and_settles() {
    let mut s = TermSize::initial();
    assert_eq!(s.maybe_resize(80, 24), None);
    assert_eq!(s.maybe_resize(0, 0), Some(TermSize { cols: 1, rows: 1 }));
    assert_eq!(s.maybe_resize(1, 1), None);
    assert_eq!(s.maybe_resize(120, 40), Some(TermSize { cols: 120, rows: 40 }));
    assert_eq!(s, TermSize { cols: 120, rows: 40 });
}

#[test]
fn pointer_is_held_within_the_screen() {
    assert_eq!(screen::to_point(5, 7, true, 80, 24, 0), (at(7, 5), CellSide::Left));
    assert_eq!(screen::to_point(500, 99, false, 80, 24, 0), (at(23, 79), CellSide::Right));
    assert_eq!(screen::to_point(0, 0, true, 80, 24, 10).0, at(-10, 0));
    assert_eq!(screen::to_point(3, 3, true, 0, 0, 0).0, at(0, 0));
    assert_eq!(screen::screen_row(-10, 10), 0);
}

#[test]
fn drags_select_and_clicks_clear() {
    let p = Some((at(1, 2), CellSide::Right));
    assert_eq!(
        screen::selection_act(true, true, false, p, true),
        SelectionAct::Start(at(1, 2), CellSide::Right)
    );
    assert_eq!(screen::selection_act(true, false, true, None, true), SelectionAct::Keep);
    assert_eq!(
        screen::selection_act(false, true, false, p, true),
        SelectionAct::Extend(at(1, 2), CellSide::Right)
    );
    assert_eq!(screen::selection_act(false, true, false, p, false), SelectionAct::Keep);
    assert_eq!(screen::selection_act(false, true, false, None, true), SelectionAct::Keep);
    assert_eq!(screen::selection_act(false, false, true, p, true), SelectionAct::Clear);
    assert_eq!(screen::selection_act(false, false, false, p, true), SelectionAct::Keep);
}

#[test]
fn paints_a_plain_glyph() {
    let p = screen::paint_cell(cell('x', 0), body(), 1, None);
    assert_eq!((p.row, p.column), (3, 3));
    assert_eq!(p.fg, Rgb { r: 0xC5, g: 0x0F, b: 0x1F });
    assert_eq!(p.fill, None);
    assert!(p.glyph && !p.highlight && !p.underline && !p.strikeout);
}

#[test]
fn blanks_and_hidden_cells_show_no_glyph() {
    for c in [
        cell(' ', 0),
        cell('\0', 0),
        cell('x', screen::HIDDEN),
        cell('x', screen::WIDE_CHAR_SPACER),
    ] {
        let p = screen::paint_cell(c, body(), 0, None);
        assert!(!p.glyph && p.fill.is_none() && !p.underline && !p.strikeout);
    }
}

#[test]
fn attributes_change_the_paint() {
    let bright = Rgb { r: 0xE7, g: 0x48, b: 0x56 };
    let p = screen::paint_cell(cell('x', screen::BOLD), body(), 0, None);
    assert_eq!(p.fg, bright);
    let p = screen::paint_cell(cell('x', screen::DIM), body(), 0, None);
    assert_eq!(p.fg, Rgb { r: 118, g: 9, b: 18 });
    let p = screen::paint_cell(cell('x', screen::DIM | screen::BOLD), body(), 0, None);
    assert_eq!(p.fg, color::dim(bright));
    let p = screen::paint_cell(cell('x', screen::STRIKEOUT), body(), 0, None);
    assert!(p.strikeout && !p.underline);
    for u in [
        Flags::UNDERLINE,
        Flags::DOUBLE_UNDERLINE,
        Flags::UNDERCURL,
        Flags::DOTTED_UNDERLINE,
        Flags::DASHED_UNDERLINE,
    ] {
        let p = screen::paint_cell(cell('x', u.bits()), body(), 0, None);
        assert!(p.underline && !p.strikeout);
    }
}

#[test]
fn inverse_exchanges_the_colors() {
    let p = screen::paint_cell(cell('x', screen::INVERSE), body(), 0, None);
    assert_eq!(p.fg, body());
    assert_eq!(p.fill, Some(Rgb { r: 0xC5, g: 0x0F, b: 0x1F }));
}

#[test]
fn highlights_what_the_grid_calls_selected() {
    for is_block in [false, true] {
        let s = SelectedRange { start: at(-1, 4), end: at(2, 6), is_block };
        let range = SelectionRange::new(
            Point::new(Line(-1), Column(4)),
            Point::new(Line(2), Column(6)),
            is_block,
        );
        for line in -3..5 {
            for column in 0..10 {
                let mut c = cell('x', 0);
                c.at = at(line, column);
                let p = screen::paint_cell(c, body(), 3, Some(s));
                assert_eq!(p.highlight, range.contains(Point::new(Line(line), Column(column))));
            }
        }
        let mut c = cell('x', 0);
        c.at = at(0, 0);
        assert_eq!(screen::paint_cell(c, body(), 0, Some(s)).highlight, !is_block);
    }
}

#[test]
fn the_cursor_is_a_translucent_block() {
    let p = screen::paint_cursor(at(-2, 7), false, 5);
    assert_eq!((p.row, p.column), (3, 7));
    let b = p.block.unwrap();
    let e = Color32::from_white_alpha(96);
    assert_eq!((b.r, b.g, b.b, b.a), (e.r(), e.g(), e.b(), e.a()));
    assert_eq!((b.r, b.a), (96, 96));
    assert_eq!(screen::paint_cursor(at(0, 0), true, 0).block, None);
}
