//! Colours: the terminal's palette, the colours of the interface, and colours
//! written as `#RRGGBB`.
use vstd::prelude::*;

use crate::text;

verus! {

/// An opaque colour.
#[derive(Clone, Copy, Debug, PartialEq, Eq, Structural)]
pub struct Rgb {
    pub r: u8,
    pub g: u8,
    pub b: u8,
}

/// A pixel whose channels are already multiplied by its alpha.
#[derive(Clone, Copy, Debug, PartialEq, Eq, Structural)]
pub struct Pixel {
    pub r: u8,
    pub g: u8,
    pub b: u8,
    pub a: u8,
}

/// The colour that `v` writes as `0xRRGGBB`.
pub open spec fn unpacked(v: u32) -> Rgb {
    Rgb { r: (v / 0x10000 % 0x100) as u8, g: (v / 0x100 % 0x100) as u8, b: (v % 0x100) as u8 }
}

/// The colour that `v` writes as `0xRRGGBB`.
pub fn rgb(v: u32) -> (c: Rgb)
    ensures
        c == unpacked(v),
{
    Rgb { r: (v / 0x10000 % 0x100) as u8, g: (v / 0x100 % 0x100) as u8, b: (v % 0x100) as u8 }
}

/// The grey with all three channels at `v`.
pub open spec fn grey_of(v: u8) -> Rgb {
    Rgb { r: v, g: v, b: v }
}

/// The grey with all three channels at `v`.
pub fn gray(v: u8) -> (c: Rgb)
    ensures
        c == grey_of(v),
{
    Rgb { r: v, g: v, b: v }
}

// ---- fixed colours, each as 0xRRGGBB ----

pub const DEFAULT_FG: u32 = 0xCCCCCC;

pub const DEFAULT_BG: u32 = 0x0C0C0C;

/// The side bar is a little brighter than the terminal.
pub const SIDEBAR_BG: u32 = 0x1A1A1A;

pub const TAB_HOVER_BG: u32 = 0x2A2A2A;

pub const TAB_TEXT: u32 = 0xE1E1E1;

pub const TAB_TEXT_ACTIVE: u32 = 0xF5F5F5;

/// The accent of a new tab.
pub const ACCENT_GREEN: u32 = 0x19C37D;

/// The accents a tab can have.
pub const ACCENT_PALETTE: [u32; 12] = [
    0xE0524A, 0xE07B39, 0xD9A82C, 0x9AC82E, 0x19C37D, 0x1FB5B5,
    0x3AA6DD, 0x4A78E0, 0x7A5CD8, 0xA95CD0, 0xD85C9E, 0x7A828C,
];

/// The swatches that stand for the backgrounds a tab can have: bright, so
/// that they are easy to tell apart.
pub const BG_DISPLAY: [u32; 12] = [
    0x3A3A3A, 0xE0524A, 0xE07B39, 0xD9A82C, 0x9AC82E, 0x19C37D,
    0x1FB5B5, 0x3AA6DD, 0x4A78E0, 0x7A5CD8, 0xA95CD0, 0xD85C9E,
];

/// The backgrounds a tab can have, in the order of their swatches.
pub const BG_APPLY: [u32; 12] = [
    0x0C0C0C, 0x221212, 0x24180E, 0x221D0E, 0x161E0E, 0x102016,
    0x0E2020, 0x0E1A24, 0x101828, 0x161226, 0x201228, 0x26121E,
];

/// The sixteen ANSI colours: eight normal ones, then their bright forms.
pub const ANSI16: [u32; 16] = [
    0x0C0C0C, 0xC50F1F, 0x13A10E, 0xC19C00, 0x0037DA, 0x881798, 0x3A96DD, 0xCCCCCC,
    0x767676, 0xE74856, 0x16C60C, 0xF9F1A5, 0x3B78FF, 0xB4009E, 0x61D6D6, 0xF2F2F2,
];

// ---- the terminal's colours ----

/// The colours that have a name.
#[derive(Clone, Copy, Debug, PartialEq, Eq, Structural)]
pub enum NamedColor {
    Black,
    Red,
    Green,
    Yellow,
    Blue,
    Magenta,
    Cyan,
    White,
    BrightBlack,
    BrightRed,
    BrightGreen,
    BrightYellow,
    BrightBlue,
    BrightMagenta,
    BrightCyan,
    BrightWhite,
    Foreground,
    Background,
    Cursor,
    DimBlack,
    DimRed,
    DimGreen,
    DimYellow,
    DimBlue,
    DimMagenta,
    DimCyan,
    DimWhite,
    BrightForeground,
    DimForeground,
}

/// A colour as the terminal's grid holds it.
#[derive(Clone, Copy, Debug, PartialEq, Eq, Structural)]
pub enum TermColor {
    Named(NamedColor),
    Spec(Rgb),
    Indexed(u8),
}

/// The brightness of one channel of the 6x6x6 colour cube.
pub open spec fn cube_level(v: int) -> int {
    if v == 0 {
        0
    } else {
        v * 40 + 55
    }
}

/// Colour `i` of the 256-colour palette: the sixteen ANSI colours, the colour
/// cube and the ramp of greys.
pub open spec fn palette_color(i: u8) -> Rgb {
    if i < 16 {
        unpacked(ANSI16@[i as int])
    } else if i < 232 {
        let x = i - 16;
        Rgb {
            r: cube_level(x / 36) as u8,
            g: cube_level(x / 6 % 6) as u8,
            b: cube_level(x % 6) as u8,
        }
    } else {
        grey_of((8 + (i - 232) * 10) as u8)
    }
}

/// The brightness of one channel of the colour cube.
fn level(v: u8) -> (r: u8)
    requires
        v < 6,
    ensures
        r == cube_level(v as int),
{
    if v == 0 {
        0
    } else {
        v * 40 + 55
    }
}

/// Colour `i` of the 256-colour palette.
pub fn palette256(i: u8) -> (c: Rgb)
    ensures
        c == palette_color(i),
{
    if i < 16 {
        rgb(ANSI16[i as usize])
    } else if i < 232 {
        let x: u8 = i - 16;
        Rgb { r: level(x / 36), g: level(x / 6 % 6), b: level(x % 6) }
    } else {
        gray(8 + (i - 232) * 10)
    }
}

/// The place of a named colour among the sixteen ANSI colours.
pub open spec fn ansi_index(n: NamedColor) -> Option<int> {
    match n {
        NamedColor::Black => Some(0),
        NamedColor::Red => Some(1),
        NamedColor::Green => Some(2),
        NamedColor::Yellow => Some(3),
        NamedColor::Blue => Some(4),
        NamedColor::Magenta => Some(5),
        NamedColor::Cyan => Some(6),
        NamedColor::White => Some(7),
        NamedColor::BrightBlack => Some(8),
        NamedColor::BrightRed => Some(9),
        NamedColor::BrightGreen => Some(10),
        NamedColor::BrightYellow => Some(11),
        NamedColor::BrightBlue => Some(12),
        NamedColor::BrightMagenta => Some(13),
        NamedColor::BrightCyan => Some(14),
        NamedColor::BrightWhite => Some(15),
        _ => None,
    }
}

/// A named colour on a background: bold brightens the eight normal colours,
/// `Background` is the background itself and every other name is the default
/// foreground.
pub open spec fn named_color(n: NamedColor, bold: bool, bg_default: Rgb) -> Rgb {
    match ansi_index(n) {
        Some(i) => unpacked(
            ANSI16@[if bold && i < 8 {
                i + 8
            } else {
                i
            }],
        ),
        None => if n == NamedColor::Background {
            bg_default
        } else {
            unpacked(DEFAULT_FG)
        },
    }
}

/// The colour behind a name, on the background `bg_default`.
pub fn named_rgb(n: NamedColor, bold: bool, bg_default: Rgb) -> (c: Rgb)
    ensures
        c == named_color(n, bold, bg_default),
{
    let base: usize = match n {
        NamedColor::Black => 0,
        NamedColor::Red => 1,
        NamedColor::Green => 2,
        NamedColor::Yellow => 3,
        NamedColor::Blue => 4,
        NamedColor::Magenta => 5,
        NamedColor::Cyan => 6,
        NamedColor::White => 7,
        NamedColor::BrightBlack => 8,
        NamedColor::BrightRed => 9,
        NamedColor::BrightGreen => 10,
        NamedColor::BrightYellow => 11,
        NamedColor::BrightBlue => 12,
        NamedColor::BrightMagenta => 13,
        NamedColor::BrightCyan => 14,
        NamedColor::BrightWhite => 15,
        NamedColor::Background => {
            return bg_default;
        },
        _ => {
            return rgb(DEFAULT_FG);
        },
    };
    let idx: usize = if bold && base < 8 {
        base + 8
    } else {
        base
    };
    rgb(ANSI16[idx])
}

/// What a grid colour looks like on the background `bg_default`.
pub open spec fn resolved(c: TermColor, bold: bool, bg_default: Rgb) -> Rgb {
    match c {
        TermColor::Named(n) => named_color(n, bold, bg_default),
        TermColor::Spec(rgb) => rgb,
        TermColor::Indexed(i) => palette_color(i),
    }
}

/// What a grid colour looks like on the background `bg_default`.
pub fn resolve(c: TermColor, bold: bool, bg_default: Rgb) -> (r: Rgb)
    ensures
        r == resolved(c, bold, bg_default),
{
    match c {
        TermColor::Named(n) => named_rgb(n, bold, bg_default),
        TermColor::Spec(rgb) => rgb,
        TermColor::Indexed(i) => palette256(i),
    }
}

/// Three fifths of a channel, rounded down.
pub open spec fn dim_level(v: u8) -> u8 {
    (v * 3 / 5) as u8
}

/// A colour at three fifths of its brightness.
pub open spec fn dimmed(c: Rgb) -> Rgb {
    Rgb { r: dim_level(c.r), g: dim_level(c.g), b: dim_level(c.b) }
}

/// A channel at three fifths of its brightness.
fn dim_channel(v: u8) -> (r: u8)
    ensures
        r == dim_level(v),
{
    (v as u16 * 3 / 5) as u8
}

/// A faint colour.
pub fn dim(c: Rgb) -> (r: Rgb)
    ensures
        r == dimmed(c),
{
    Rgb { r: dim_channel(c.r), g: dim_channel(c.g), b: dim_channel(c.b) }
}

/// `c` with `d` added to each channel, at most 255.
pub open spec fn lifted(c: Rgb, d: u8) -> Rgb {
    Rgb {
        r: if c.r + d > 255 { 255 } else { (c.r + d) as u8 },
        g: if c.g + d > 255 { 255 } else { (c.g + d) as u8 },
        b: if c.b + d > 255 { 255 } else { (c.b + d) as u8 },
    }
}

/// `c` with `d` added to each channel, at most 255.
pub fn lift(c: Rgb, d: u8) -> (r: Rgb)
    ensures
        r == lifted(c, d),
{
    Rgb { r: c.r.saturating_add(d), g: c.g.saturating_add(d), b: c.b.saturating_add(d) }
}

// ---- translucent colours ----

/// A channel multiplied by an alpha, rounded to the nearest value.
pub open spec fn scaled(v: u8, a: u8) -> u8 {
    ((v * a + 127) / 255) as u8
}

/// The pixel of a colour with the alpha `a`.
pub open spec fn premultiplied(r: u8, g: u8, b: u8, a: u8) -> Pixel {
    Pixel { r: scaled(r, a), g: scaled(g, a), b: scaled(b, a), a: a }
}

/// The pixel of a colour with the alpha `a`. The multiplication is that of
/// egui's `Color32::from_rgba_unmultiplied`: every channel is multiplied by
/// `a / 255` and rounded to the nearest whole number (no product lies half
/// way between two), and the alpha stays.
#[verifier::external_body]
fn premultiply(r: u8, g: u8, b: u8, a: u8) -> (p: Pixel)
    ensures
        p == premultiplied(r, g, b, a),
{
    let c = eframe::egui::Color32::from_rgba_unmultiplied(r, g, b, a);
    Pixel { r: c.r(), g: c.g(), b: c.b(), a: c.a() }
}

/// A colour made translucent.
pub fn translucent(c: Rgb, a: u8) -> (p: Pixel)
    ensures
        p == premultiplied(c.r, c.g, c.b, a),
{
    premultiply(c.r, c.g, c.b, a)
}

/// White with the alpha `a`, as egui's `Color32::from_white_alpha` makes it:
/// all four numbers are `a`.
#[verifier::external_body]
pub(crate) fn white(a: u8) -> (p: Pixel)
    ensures
        p == (Pixel { r: a, g: a, b: a, a }),
{
    let c = eframe::egui::Color32::from_white_alpha(a);
    Pixel { r: c.r(), g: c.g(), b: c.b(), a: c.a() }
}

/// The highlight of selected text, laid over a cell.
pub fn selection_bg() -> (p: Pixel)
    ensures
        p == (Pixel { r: 0x3A, g: 0x5A, b: 0x8C, a: 0x88 }),
{
    Pixel { r: 0x3A, g: 0x5A, b: 0x8C, a: 0x88 }
}

// ---- colours as text ----

/// The hexadecimal digit `d`, a capital from ten on.
pub open spec fn hex_digit(d: u8) -> char {
    if d < 10 {
        (48 + d) as u8 as char
    } else {
        (55 + d) as u8 as char
    }
}

/// A colour as `#RRGGBB`.
pub open spec fn hex_text(c: Rgb) -> Seq<char> {
    seq![
        '#',
        hex_digit(c.r / 16),
        hex_digit(c.r % 16),
        hex_digit(c.g / 16),
        hex_digit(c.g % 16),
        hex_digit(c.b / 16),
        hex_digit(c.b % 16),
    ]
}

/// The value of a hexadecimal digit of either case.
pub open spec fn hex_value(c: char) -> Option<int> {
    if '0' <= c <= '9' {
        Some(c as u32 - 48)
    } else if 'A' <= c <= 'F' {
        Some(c as u32 - 55)
    } else if 'a' <= c <= 'f' {
        Some(c as u32 - 87)
    } else {
        None
    }
}

/// The number that two characters write in base sixteen. A plus sign may
/// stand before a single digit.
pub open spec fn hex_pair(x: char, y: char) -> Option<u8> {
    match hex_value(y) {
        None => None,
        Some(low) => if x == '+' {
            Some(low as u8)
        } else {
            match hex_value(x) {
                None => None,
                Some(high) => Some((high * 16 + low) as u8),
            }
        },
    }
}

/// The colour that a text writes: `#` and three pairs of digits, with white
/// space round them or without.
pub open spec fn parsed_color(s: Seq<char>) -> Option<Rgb> {
    let t = text::trimmed(s);
    if t.len() != 7 || t[0] != '#' {
        None
    } else {
        match (hex_pair(t[1], t[2]), hex_pair(t[3], t[4]), hex_pair(t[5], t[6])) {
            (Some(r), Some(g), Some(b)) => Some(Rgb { r, g, b }),
            _ => None,
        }
    }
}

/// How many bytes a character takes in UTF-8.
pub open spec fn utf8_width(c: char) -> nat {
    let v = c as u32;
    if v < 0x80 {
        1
    } else if v < 0x800 {
        2
    } else if v < 0x10000 {
        3
    } else {
        4
    }
}

/// How many bytes a text takes in UTF-8.
pub open spec fn utf8_size(s: Seq<char>) -> nat
    decreases s.len(),
{
    if s.len() == 0 {
        0
    } else {
        utf8_width(s[0]) + utf8_size(s.drop_first())
    }
}

/// A character of `h` lies across the end of its first two bytes.
pub open spec fn cut_at_two(h: Seq<char>) -> bool {
    utf8_width(h[0]) >= 3 || (utf8_width(h[0]) == 1 && utf8_width(h[1]) >= 2)
}

/// The text has `#` and six bytes behind it, and reading those two by two
/// comes to the middle of a character. Such a text is no colour and no
/// missing colour either: it cannot be read at all.
pub open spec fn breaks_char(s: Seq<char>) -> bool {
    let t = text::trimmed(s);
    &&& t.len() > 0
    &&& t[0] == '#'
    &&& utf8_size(t.skip(1)) == 6
    &&& (cut_at_two(t.skip(1)) || (hex_pair(t[1], t[2]) is Some && cut_at_two(t.skip(3))))
}

/// The hexadecimal digit `d`.
fn hex_char(d: u8) -> (c: char)
    requires
        d < 16,
    ensures
        c == hex_digit(d),
{
    if d < 10 {
        (48 + d) as char
    } else {
        (55 + d) as char
    }
}

/// A colour as `#RRGGBB`.
pub fn color_to_hex(c: Rgb) -> (r: String)
    ensures
        r@ == hex_text(c),
{
    let mut s: String = String::new();
    s.push('#');
    s.push(hex_char(c.r / 16));
    s.push(hex_char(c.r % 16));
    s.push(hex_char(c.g / 16));
    s.push(hex_char(c.g % 16));
    s.push(hex_char(c.b / 16));
    s.push(hex_char(c.b % 16));
    assert(s@ =~= hex_text(c));
    s
}

/// The value of a hexadecimal digit.
fn digit_value(c: char) -> (r: Option<u8>)
    ensures
        match r {
            Some(v) => hex_value(c) == Some(v as int) && v < 16,
            None => hex_value(c) is None,
        },
{
    let v: u32 = c as u32;
    if '0' <= c && c <= '9' {
        Some((v - 48) as u8)
    } else if 'A' <= c && c <= 'F' {
        Some((v - 55) as u8)
    } else if 'a' <= c && c <= 'f' {
        Some((v - 87) as u8)
    } else {
        None
    }
}

/// The number that two characters write in base sixteen.
fn pair_value(x: char, y: char) -> (r: Option<u8>)
    ensures
        r == hex_pair(x, y),
{
    match digit_value(y) {
        None => None,
        Some(low) => {
            if x == '+' {
                Some(low)
            } else {
                match digit_value(x) {
                    None => None,
                    Some(high) => Some(high * 16 + low),
                }
            }
        },
    }
}

/// The colour that a text writes, if it writes one.
pub fn color_from_hex(s: &str) -> (r: Option<Rgb>)
    requires
        !breaks_char(s@),
    ensures
        r == parsed_color(s@),
{
    let t: String = text::trim(s);
    let cs: Vec<char> = text::chars_of(t.as_str());
    if cs.len() != 7 || cs[0] != '#' {
        return None;
    }
    match (pair_value(cs[1], cs[2]), pair_value(cs[3], cs[4]), pair_value(cs[5], cs[6])) {
        (Some(r), Some(g), Some(b)) => Some(Rgb { r, g, b }),
        _ => None,
    }
}

/// How many bytes a character takes in UTF-8.
fn width_of(c: char) -> (n: usize)
    ensures
        n == utf8_width(c),
{
    let v: u32 = c as u32;
    if v < 0x80 {
        1
    } else if v < 0x800 {
        2
    } else if v < 0x10000 {
        3
    } else {
        4
    }
}

/// Whether the characters from `from` on take `n` bytes in UTF-8.
fn size_is(cs: &Vec<char>, from: usize, n: usize) -> (r: bool)
    requires
        from <= cs@.len(),
    ensures
        r == (utf8_size(cs@.skip(from as int)) == n),
{
    let mut left: usize = n;
    let mut i: usize = from;
    while i < cs.len()
        invariant
            from <= i <= cs@.len(),
            left <= n,
            utf8_size(cs@.skip(from as int)) + left == utf8_size(cs@.skip(i as int)) + n,
        decreases cs@.len() - i,
    {
        let w: usize = width_of(cs[i]);
        assert(cs@.skip(i as int).drop_first() =~= cs@.skip(i + 1));
        if w > left {
            return false;
        }
        left = left - w;
        i = i + 1;
    }
    left == 0
}

/// Whether a text can be read as a colour, be it that it turns out to be none.
pub fn color_readable(s: &str) -> (r: bool)
    ensures
        r == !breaks_char(s@),
{
    let t: String = text::trim(s);
    let cs: Vec<char> = text::chars_of(t.as_str());
    if cs.len() == 0 || cs[0] != '#' || !size_is(&cs, 1, 6) {
        return true;
    }
    proof {
        lemma_size_first(cs@.skip(1));
    }
    let w0: usize = width_of(cs[1]);
    if w0 >= 3 {
        return false;
    }
    if w0 == 2 {
        assert(hex_value(cs@[1]) is None);
        return true;
    }
    proof {
        lemma_size_first(cs@.skip(1).drop_first());
    }
    if width_of(cs[2]) >= 2 {
        return false;
    }
    if pair_value(cs[1], cs[2]).is_none() {
        return true;
    }
    proof {
        assert(cs@.skip(1).drop_first().drop_first() =~= cs@.skip(3));
        lemma_size_first(cs@.skip(3));
    }
    let w2: usize = width_of(cs[3]);
    if w2 >= 3 {
        return false;
    }
    if w2 == 2 {
        return true;
    }
    proof {
        lemma_size_first(cs@.skip(3).drop_first());
    }
    width_of(cs[4]) < 2
}

/// A text that takes bytes has a first character.
proof fn lemma_size_first(s: Seq<char>)
    requires
        utf8_size(s) > 0,
    ensures
        s.len() > 0,
        utf8_size(s) == utf8_width(s[0]) + utf8_size(s.drop_first()),
{
}

// ---- laws ----

/// What `color_to_hex` writes, `color_from_hex` reads back.
pub proof fn law_hex_round_trip(c: Rgb)
    ensures
        parsed_color(hex_text(c)) == Some(c),
        !breaks_char(hex_text(c)),
{
    let s = hex_text(c);
    assert(text::trimmed_start(s) == s);
    assert(text::trimmed_end(s) == s);
    assert(!text::is_white_space(s.last()));
    lemma_digit_value(c.r / 16);
    lemma_digit_value(c.r % 16);
    lemma_digit_value(c.g / 16);
    lemma_digit_value(c.g % 16);
    lemma_digit_value(c.b / 16);
    lemma_digit_value(c.b % 16);
}

proof fn lemma_digit_value(d: u8)
    requires
        d < 16,
    ensures
        hex_value(hex_digit(d)) == Some(d as int),
        hex_digit(d) != '+',
        utf8_width(hex_digit(d)) == 1,
        !text::is_white_space(hex_digit(d)),
{
}

/// An empty text is no colour.
pub proof fn law_empty_is_no_color()
    ensures
        parsed_color(Seq::<char>::empty()) is None,
        !breaks_char(Seq::<char>::empty()),
{
}

/// Bold shows each of the eight normal colours as its bright form and changes
/// no other colour.
pub proof fn law_bold_brightens(c: TermColor, bg: Rgb)
    ensures
        match c {
            TermColor::Named(n) => match ansi_index(n) {
                Some(i) => resolved(c, true, bg) == palette_color(
                    (if i < 8 {
                        i + 8
                    } else {
                        i
                    }) as u8,
                ) && resolved(c, false, bg) == palette_color(i as u8),
                None => resolved(c, true, bg) == resolved(c, false, bg),
            },
            _ => resolved(c, true, bg) == resolved(c, false, bg),
        },
{
}

/// A cell that asks for the default background shows the tab's own.
pub proof fn law_background_is_the_tabs(bold: bool, bg: Rgb)
    ensures
        resolved(TermColor::Named(NamedColor::Background), bold, bg) == bg,
{
}

/// A faint colour is at no channel brighter than the colour, and black stays
/// black.
pub proof fn law_dim_darkens(c: Rgb)
    ensures
        dimmed(c).r <= c.r,
        dimmed(c).g <= c.g,
        dimmed(c).b <= c.b,
        c == grey_of(0) ==> dimmed(c) == c,
{
}

/// The ramp of greys brightens from one index to the next.
pub proof fn law_grey_ramp(i: u8, j: u8)
    requires
        232 <= i < j,
    ensures
        palette_color(i).r < palette_color(j).r,
        palette_color(i) == grey_of(palette_color(i).r),
{
}

/// An opaque colour stays as it is, and one with no alpha vanishes.
pub proof fn law_alpha_ends(c: Rgb)
    ensures
        premultiplied(c.r, c.g, c.b, 255) == (Pixel { r: c.r, g: c.g, b: c.b, a: 255 }),
        premultiplied(c.r, c.g, c.b, 0) == (Pixel { r: 0, g: 0, b: 0, a: 0 }),
{
}

/// Each named colour has its own value: a normal one a bright one too, which
/// bold text is in. The background is that of the tab, and every other name is
/// the light grey of plain text.
pub proof fn law_named_colors(n: NamedColor, bold: bool, bg: Rgb)
    ensures
        match n {
            NamedColor::Black => {
                &&& resolved(TermColor::Named(n), false, bg) == (Rgb { r: 0x0C, g: 0x0C, b: 0x0C })
                &&& resolved(TermColor::Named(n), true, bg) == (Rgb { r: 0x76, g: 0x76, b: 0x76 })
            },
            NamedColor::Red => {
                &&& resolved(TermColor::Named(n), false, bg) == (Rgb { r: 0xC5, g: 0x0F, b: 0x1F })
                &&& resolved(TermColor::Named(n), true, bg) == (Rgb { r: 0xE7, g: 0x48, b: 0x56 })
            },
            NamedColor::Green => {
                &&& resolved(TermColor::Named(n), false, bg) == (Rgb { r: 0x13, g: 0xA1, b: 0x0E })
                &&& resolved(TermColor::Named(n), true, bg) == (Rgb { r: 0x16, g: 0xC6, b: 0x0C })
            },
            NamedColor::Yellow => {
                &&& resolved(TermColor::Named(n), false, bg) == (Rgb { r: 0xC1, g: 0x9C, b: 0x00 })
                &&& resolved(TermColor::Named(n), true, bg) == (Rgb { r: 0xF9, g: 0xF1, b: 0xA5 })
            },
            NamedColor::Blue => {
                &&& resolved(TermColor::Named(n), false, bg) == (Rgb { r: 0x00, g: 0x37, b: 0xDA })
                &&& resolved(TermColor::Named(n), true, bg) == (Rgb { r: 0x3B, g: 0x78, b: 0xFF })
            },
            NamedColor::Magenta => {
                &&& resolved(TermColor::Named(n), false, bg) == (Rgb { r: 0x88, g: 0x17, b: 0x98 })
                &&& resolved(TermColor::Named(n), true, bg) == (Rgb { r: 0xB4, g: 0x00, b: 0x9E })
            },
            NamedColor::Cyan => {
                &&& resolved(TermColor::Named(n), false, bg) == (Rgb { r: 0x3A, g: 0x96, b: 0xDD })
                &&& resolved(TermColor::Named(n), true, bg) == (Rgb { r: 0x61, g: 0xD6, b: 0xD6 })
            },
            NamedColor::White => {
                &&& resolved(TermColor::Named(n), false, bg) == (Rgb { r: 0xCC, g: 0xCC, b: 0xCC })
                &&& resolved(TermColor::Named(n), true, bg) == (Rgb { r: 0xF2, g: 0xF2, b: 0xF2 })
            },
            NamedColor::BrightBlack => resolved(TermColor::Named(n), bold, bg) == (Rgb { r: 0x76, g: 0x76, b: 0x76 }),
            NamedColor::BrightRed => resolved(TermColor::Named(n), bold, bg) == (Rgb { r: 0xE7, g: 0x48, b: 0x56 }),
            NamedColor::BrightGreen => resolved(TermColor::Named(n), bold, bg) == (Rgb { r: 0x16, g: 0xC6, b: 0x0C }),
            NamedColor::BrightYellow => resolved(TermColor::Named(n), bold, bg) == (Rgb { r: 0xF9, g: 0xF1, b: 0xA5 }),
            NamedColor::BrightBlue => resolved(TermColor::Named(n), bold, bg) == (Rgb { r: 0x3B, g: 0x78, b: 0xFF }),
            NamedColor::BrightMagenta => resolved(TermColor::Named(n), bold, bg) == (Rgb { r: 0xB4, g: 0x00, b: 0x9E }),
            NamedColor::BrightCyan => resolved(TermColor::Named(n), bold, bg) == (Rgb { r: 0x61, g: 0xD6, b: 0xD6 }),
            NamedColor::BrightWhite => resolved(TermColor::Named(n), bold, bg) == (Rgb { r: 0xF2, g: 0xF2, b: 0xF2 }),
            NamedColor::Background => resolved(TermColor::Named(n), bold, bg) == bg,
            _ => resolved(TermColor::Named(n), bold, bg) == (Rgb { r: 0xCC, g: 0xCC, b: 0xCC }),
        },
{
}

/// A colour that is given outright is that colour, and a number is that entry
/// of the palette, bold or not and on any background.
pub proof fn law_other_colors(x: Rgb, i: u8, bold: bool, bg: Rgb)
    ensures
        resolved(TermColor::Spec(x), bold, bg) == x,
        resolved(TermColor::Indexed(i), bold, bg) == palette_color(i),
{
}

/// The first sixteen entries of the palette.
pub proof fn law_palette_begins(i: u8)
    ensures
        i == 0 ==> palette_color(i) == (Rgb { r: 0x0C, g: 0x0C, b: 0x0C }),
        i == 1 ==> palette_color(i) == (Rgb { r: 0xC5, g: 0x0F, b: 0x1F }),
        i == 2 ==> palette_color(i) == (Rgb { r: 0x13, g: 0xA1, b: 0x0E }),
        i == 3 ==> palette_color(i) == (Rgb { r: 0xC1, g: 0x9C, b: 0x00 }),
        i == 4 ==> palette_color(i) == (Rgb { r: 0x00, g: 0x37, b: 0xDA }),
        i == 5 ==> palette_color(i) == (Rgb { r: 0x88, g: 0x17, b: 0x98 }),
        i == 6 ==> palette_color(i) == (Rgb { r: 0x3A, g: 0x96, b: 0xDD }),
        i == 7 ==> palette_color(i) == (Rgb { r: 0xCC, g: 0xCC, b: 0xCC }),
        i == 8 ==> palette_color(i) == (Rgb { r: 0x76, g: 0x76, b: 0x76 }),
        i == 9 ==> palette_color(i) == (Rgb { r: 0xE7, g: 0x48, b: 0x56 }),
        i == 10 ==> palette_color(i) == (Rgb { r: 0x16, g: 0xC6, b: 0x0C }),
        i == 11 ==> palette_color(i) == (Rgb { r: 0xF9, g: 0xF1, b: 0xA5 }),
        i == 12 ==> palette_color(i) == (Rgb { r: 0x3B, g: 0x78, b: 0xFF }),
        i == 13 ==> palette_color(i) == (Rgb { r: 0xB4, g: 0x00, b: 0x9E }),
        i == 14 ==> palette_color(i) == (Rgb { r: 0x61, g: 0xD6, b: 0xD6 }),
        i == 15 ==> palette_color(i) == (Rgb { r: 0xF2, g: 0xF2, b: 0xF2 }),
{
}

/// The cube of the palette: the number counts red, green and blue in sixes, and
/// each goes from nothing to full in the steps 95, 135, 175, 215 and 255. Behind
/// it stand the greys, ten apart from eight on.
pub proof fn law_palette_cube(r: int, g: int, b: int, k: int)
    requires
        0 <= r < 6,
        0 <= g < 6,
        0 <= b < 6,
        0 <= k < 24,
    ensures
        ({
            let c = palette_color((16 + 36 * r + 6 * g + b) as u8);
            &&& r == 0 ==> c.r == 0
            &&& r > 0 ==> c.r == 255 - 40 * (5 - r)
            &&& g == 0 ==> c.g == 0
            &&& g > 0 ==> c.g == 255 - 40 * (5 - g)
            &&& b == 0 ==> c.b == 0
            &&& b > 0 ==> c.b == 255 - 40 * (5 - b)
        }),
        ({
            let c = palette_color((232 + k) as u8);
            c.r == 8 + 10 * k && c.g == c.r && c.b == c.r
        }),
{
    let x = 36 * r + 6 * g + b;
    assert(x / 36 == r);
    assert(x / 6 == 6 * r + g);
    assert(x / 6 % 6 == g);
    assert(x % 6 == b);
}

/// A faint channel is six tenths of the channel, rounded down.
pub proof fn law_dim_is_six_tenths(c: Rgb)
    ensures
        10 * dimmed(c).r <= 6 * c.r < 10 * (dimmed(c).r + 1),
        10 * dimmed(c).g <= 6 * c.g < 10 * (dimmed(c).g + 1),
        10 * dimmed(c).b <= 6 * c.b < 10 * (dimmed(c).b + 1),
{
}

/// Lifting raises each channel by the same amount, or to the top.
pub proof fn law_lift_raises(c: Rgb, d: u8)
    ensures
        lifted(c, d).r == 255 || lifted(c, d).r == c.r + d,
        lifted(c, d).g == 255 || lifted(c, d).g == c.g + d,
        lifted(c, d).b == 255 || lifted(c, d).b == c.b + d,
        lifted(c, d).r <= c.r + d,
        lifted(c, d).g <= c.g + d,
        lifted(c, d).b <= c.b + d,
{
}

/// A translucent channel is the channel times the alpha, to the nearest
/// 255th, and the alpha stays.
pub proof fn law_alpha_scales(r: u8, g: u8, b: u8, a: u8)
    ensures
        ({
            let p = premultiplied(r, g, b, a);
            &&& -127 <= 255 * p.r - r * a <= 127
            &&& -127 <= 255 * p.g - g * a <= 127
            &&& -127 <= 255 * p.b - b * a <= 127
            &&& p.a == a
        }),
{
    lemma_scaled(r, a);
    lemma_scaled(g, a);
    lemma_scaled(b, a);
}

proof fn lemma_scaled(v: u8, a: u8)
    ensures
        -127 <= 255 * scaled(v, a) - v * a <= 127,
{
    assert(0 <= v * a <= 255 * 255) by (nonlinear_arith)
        requires
            0 <= v <= 255,
            0 <= a <= 255,
    ;
}

/// A number of six hexadecimal digits is the colour with those channels.
pub proof fn law_unpacked(r: u8, g: u8, b: u8)
    ensures
        unpacked((r * 0x10000 + g * 0x100 + b) as u32) == (Rgb { r, g, b }),
        grey_of(r) == (Rgb { r, g: r, b: r }),
{
}

/// The fixed colours of the interface.
pub proof fn law_interface_colors()
    ensures
        unpacked(DEFAULT_FG) == (Rgb { r: 0xCC, g: 0xCC, b: 0xCC }),
        unpacked(DEFAULT_BG) == (Rgb { r: 0x0C, g: 0x0C, b: 0x0C }),
        unpacked(SIDEBAR_BG) == (Rgb { r: 26, g: 26, b: 26 }),
        unpacked(TAB_HOVER_BG) == (Rgb { r: 42, g: 42, b: 42 }),
        unpacked(TAB_TEXT) == (Rgb { r: 225, g: 225, b: 225 }),
        unpacked(TAB_TEXT_ACTIVE) == (Rgb { r: 245, g: 245, b: 245 }),
        unpacked(ACCENT_GREEN) == (Rgb { r: 0x19, g: 0xC3, b: 0x7D }),
        ACCENT_PALETTE@ == seq![
            0xE0524Au32, 0xE07B39, 0xD9A82C, 0x9AC82E, 0x19C37D, 0x1FB5B5, 0x3AA6DD, 0x4A78E0,
            0x7A5CD8, 0xA95CD0, 0xD85C9E, 0x7A828C,
        ],
        BG_DISPLAY@ == seq![
            0x3A3A3Au32, 0xE0524A, 0xE07B39, 0xD9A82C, 0x9AC82E, 0x19C37D, 0x1FB5B5, 0x3AA6DD,
            0x4A78E0, 0x7A5CD8, 0xA95CD0, 0xD85C9E,
        ],
        BG_APPLY@ == seq![
            0x0C0C0Cu32, 0x221212, 0x24180E, 0x221D0E, 0x161E0E, 0x102016, 0x0E2020, 0x0E1A24,
            0x101828, 0x161226, 0x201228, 0x26121E,
        ],
{
}

/// The character `c` is the hexadecimal digit of value `d`.
pub open spec fn writes_digit(c: char, d: int) -> bool {
    ||| 0 <= d <= 9 && c as u32 == 48 + d
    ||| 10 <= d <= 15 && c as u32 == 65 + (d - 10)
    ||| 10 <= d <= 15 && c as u32 == 97 + (d - 10)
}

/// A colour is written as `#` and two digits each for red, green and blue, the
/// higher digit first, in capitals.
pub proof fn law_hex_digits(c: Rgb)
    ensures
        hex_text(c).len() == 7,
        hex_text(c)[0] == '#',
        writes_digit(hex_text(c)[1], c.r as int / 16),
        writes_digit(hex_text(c)[2], c.r as int % 16),
        writes_digit(hex_text(c)[3], c.g as int / 16),
        writes_digit(hex_text(c)[4], c.g as int % 16),
        writes_digit(hex_text(c)[5], c.b as int / 16),
        writes_digit(hex_text(c)[6], c.b as int % 16),
        forall|i: int| 0 <= i < 7 ==> !(0x61 <= (#[trigger] hex_text(c)[i]) as u32 <= 0x7a),
{
}

/// `#` and six digits, of either case and with white space round them or not,
/// are the colour with those digits.
pub proof fn law_hex_is_read(before: Seq<char>, h: Seq<char>, after: Seq<char>, d: Seq<int>)
    requires
        forall|i: int| 0 <= i < before.len() ==> text::is_white_space(#[trigger] before[i]),
        forall|i: int| 0 <= i < after.len() ==> text::is_white_space(#[trigger] after[i]),
        h.len() == 6,
        d.len() == 6,
        forall|i: int| 0 <= i < 6 ==> writes_digit(#[trigger] h[i], d[i]),
    ensures
        parsed_color(before + (seq!['#'] + h) + after) == Some(
            Rgb {
                r: (d[0] * 16 + d[1]) as u8,
                g: (d[2] * 16 + d[3]) as u8,
                b: (d[4] * 16 + d[5]) as u8,
            },
        ),
{
    let mid = seq!['#'] + h;
    assert(writes_digit(h[0], d[0]) && writes_digit(h[1], d[1]) && writes_digit(h[2], d[2]));
    assert(writes_digit(h[3], d[3]) && writes_digit(h[4], d[4]) && writes_digit(h[5], d[5]));
    assert(mid.last() == h[5]);
    text::law_trim_keeps_the_middle(before, mid, after);
    assert(mid[0] == '#' && mid[1] == h[0] && mid[2] == h[1] && mid[3] == h[2]);
    assert(mid[4] == h[3] && mid[5] == h[4] && mid[6] == h[5]);
    lemma_pair(h[0], h[1], d[0], d[1]);
    lemma_pair(h[2], h[3], d[2], d[3]);
    lemma_pair(h[4], h[5], d[4], d[5]);
}

proof fn lemma_pair(x: char, y: char, high: int, low: int)
    requires
        writes_digit(x, high),
        writes_digit(y, low),
    ensures
        hex_pair(x, y) == Some((high * 16 + low) as u8),
{
    assert(hex_value(x) == Some(high));
    assert(hex_value(y) == Some(low));
    assert(x != '+');
}

/// Nothing else is a colour: it is `#` and six characters, where the second,
/// the fourth and the sixth are digits and each of the others is a digit or a
/// plus sign.
pub proof fn law_only_hex_is_read(s: Seq<char>)
    requires
        parsed_color(s) is Some,
    ensures
        ({
            let t = text::trimmed(s);
            &&& t.len() == 7
            &&& t[0] == '#'
            &&& exists|d: int| writes_digit(t[2], d)
            &&& exists|d: int| writes_digit(t[4], d)
            &&& exists|d: int| writes_digit(t[6], d)
            &&& t[1] == '+' || exists|d: int| writes_digit(t[1], d)
            &&& t[3] == '+' || exists|d: int| writes_digit(t[3], d)
            &&& t[5] == '+' || exists|d: int| writes_digit(t[5], d)
        }),
{
    let t = text::trimmed(s);
    lemma_value_writes(t[1]);
    lemma_value_writes(t[2]);
    lemma_value_writes(t[3]);
    lemma_value_writes(t[4]);
    lemma_value_writes(t[5]);
    lemma_value_writes(t[6]);
}

proof fn lemma_value_writes(c: char)
    ensures
        hex_value(c) matches Some(d) ==> writes_digit(c, d),
{
}

/// Every text can be read that is not `#` with six bytes behind it, and every
/// text in ASCII can.
pub proof fn law_ascii_is_readable(s: Seq<char>)
    requires
        (forall|i: int| 0 <= i < s.len() ==> (#[trigger] s[i] as u32) < 0x80) || text::trimmed(
            s,
        ).len() == 0 || text::trimmed(s)[0] != '#' || text::trimmed(s).len() > 7,
    ensures
        !breaks_char(s),
{
    let t = text::trimmed(s);
    text::lemma_trimmed(s);
    if t.len() > 7 {
        lemma_size_at_least(t.skip(1));
    } else if breaks_char(s) {
        lemma_size_at_least(t.skip(1));
        assert forall|i: int| 0 <= i < t.len() implies (#[trigger] t[i] as u32) < 0x80 by {
            assert(t.contains(t[i]));
            assert(s.contains(t[i]));
            let k = choose|k: int| 0 <= k < s.len() && s[k] == t[i];
            assert((s[k] as u32) < 0x80);
        }
        lemma_ascii_size(t.skip(1));
        assert(t.skip(1)[0] == t[1] && t.skip(1)[1] == t[2]);
        assert(t.skip(3)[0] == t[3] && t.skip(3)[1] == t[4]);
    }
}

proof fn lemma_size_at_least(s: Seq<char>)
    ensures
        utf8_size(s) >= s.len(),
    decreases s.len(),
{
    if s.len() > 0 {
        lemma_size_at_least(s.drop_first());
    }
}

proof fn lemma_ascii_size(s: Seq<char>)
    requires
        forall|i: int| 0 <= i < s.len() ==> (#[trigger] s[i] as u32) < 0x80,
    ensures
        utf8_size(s) == s.len(),
    decreases s.len(),
{
    if s.len() > 0 {
        lemma_ascii_size(s.drop_first());
    }
}

} // verus!
