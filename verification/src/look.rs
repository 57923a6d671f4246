//! How things look: the colours, margins and texts that are drawn.
use vstd::prelude::*;
use vstd::string::StringExecFns;

use crate::color;
use crate::color::{Pixel, Rgb};
use crate::settings;
use crate::settings::StartupTab;
use crate::shells;
use crate::shells::ShellSpec;
use crate::text;

verus! {

// ---- margins and corners ----

/// Distances from the four edges.
#[derive(Clone, Copy, Debug, PartialEq, Eq, Structural)]
pub struct Insets {
    pub left: i8,
    pub right: i8,
    pub top: i8,
    pub bottom: i8,
}

impl Insets {
    /// The same, seen in a mirror.
    pub open spec fn mirrored(self) -> Insets {
        Insets { left: self.right, right: self.left, ..self }
    }
}

/// How round the four corners are.
#[derive(Clone, Copy, Debug, PartialEq, Eq, Structural)]
pub struct Corners {
    pub nw: u8,
    pub ne: u8,
    pub sw: u8,
    pub se: u8,
}

impl Corners {
    /// The same, seen in a mirror.
    pub open spec fn mirrored(self) -> Corners {
        Corners { nw: self.ne, ne: self.nw, sw: self.se, se: self.sw }
    }
}

/// The margin of the panel of tabs on the left: none where it touches the
/// terminal.
pub open spec fn left_panel_margin() -> Insets {
    Insets { left: 8, right: 0, top: 8, bottom: 8 }
}

/// The margin of the panel of tabs.
pub fn panel_margin(panel_right: bool) -> (r: Insets)
    ensures
        r == (if panel_right {
            left_panel_margin().mirrored()
        } else {
            left_panel_margin()
        }),
{
    if panel_right {
        Insets { left: 0, right: 8, top: 8, bottom: 8 }
    } else {
        Insets { left: 8, right: 0, top: 8, bottom: 8 }
    }
}

/// The margin of a card with the tabs on the left: there is room for the
/// handle.
pub open spec fn left_card_margin() -> Insets {
    Insets { left: 30, right: 8, top: 8, bottom: 8 }
}

/// The margin of a card.
pub fn card_margin(panel_right: bool) -> (r: Insets)
    ensures
        r == (if panel_right {
            left_card_margin().mirrored()
        } else {
            left_card_margin()
        }),
{
    if panel_right {
        Insets { left: 8, right: 30, top: 8, bottom: 8 }
    } else {
        Insets { left: 30, right: 8, top: 8, bottom: 8 }
    }
}

/// The corners of the active tab on the left: flat where it touches the
/// terminal.
pub open spec fn left_tab_corners() -> Corners {
    Corners { nw: 7, ne: 0, sw: 7, se: 0 }
}

/// The corners of the active tab.
pub fn tab_corners(panel_right: bool) -> (r: Corners)
    ensures
        r == (if panel_right {
            left_tab_corners().mirrored()
        } else {
            left_tab_corners()
        }),
{
    if panel_right {
        Corners { nw: 0, ne: 7, sw: 0, se: 7 }
    } else {
        Corners { nw: 7, ne: 0, sw: 7, se: 0 }
    }
}

// ---- tabs and buttons ----

/// How a row of a list looks.
#[derive(Clone, Copy, Debug, PartialEq, Eq, Structural)]
pub struct RowLook {
    pub fill: Option<Rgb>,
    /// The bar at the outer edge.
    pub bar: Option<Rgb>,
    /// The text, where it is shown.
    pub text: Option<Rgb>,
}

/// A row: the selected one is filled and has a bar, another one is filled
/// only under the pointer.
pub open spec fn row_look(selected: bool, hovered: bool, fill: Rgb, bar: Rgb) -> RowLook {
    RowLook {
        fill: if selected {
            Some(fill)
        } else if hovered {
            Some(color::unpacked(color::TAB_HOVER_BG))
        } else {
            None
        },
        bar: if selected {
            Some(bar)
        } else {
            None
        },
        text: Some(
            color::unpacked(
                if selected {
                    color::TAB_TEXT_ACTIVE
                } else {
                    color::TAB_TEXT
                },
            ),
        ),
    }
}

/// How a row of a list looks.
fn row(selected: bool, hovered: bool, fill: Rgb, bar: Rgb) -> (r: RowLook)
    ensures
        r == row_look(selected, hovered, fill, bar),
{
    if selected {
        RowLook {
            fill: Some(fill),
            bar: Some(bar),
            text: Some(color::rgb(color::TAB_TEXT_ACTIVE)),
        }
    } else {
        RowLook {
            fill: if hovered {
                Some(color::rgb(color::TAB_HOVER_BG))
            } else {
                None
            },
            bar: None,
            text: Some(color::rgb(color::TAB_TEXT)),
        }
    }
}

/// How a tab looks. While it is dragged its place is a plain block.
pub fn tab_look(selected: bool, hovered: bool, dragging: bool, bg: Rgb, accent: Rgb) -> (r: RowLook)
    ensures
        r == (if dragging {
            RowLook { fill: Some(color::grey_of(34)), bar: None, text: None }
        } else {
            row_look(selected, hovered, bg, accent)
        }),
{
    if dragging {
        RowLook { fill: Some(color::gray(34)), bar: None, text: None }
    } else {
        row(selected, hovered, bg, accent)
    }
}

/// How an entry of the settings' navigation looks.
pub fn nav_look(selected: bool, hovered: bool) -> (r: RowLook)
    ensures
        r == row_look(
            selected,
            hovered,
            color::grey_of(40),
            color::unpacked(color::ACCENT_GREEN),
        ),
{
    row(selected, hovered, color::gray(40), color::rgb(color::ACCENT_GREEN))
}

/// The colour of the sign that closes a tab.
pub fn close_color(hovered: bool) -> (r: Rgb)
    ensures
        r == color::grey_of(
            if hovered {
                235
            } else {
                125
            },
        ),
{
    if hovered {
        color::gray(235)
    } else {
        color::gray(125)
    }
}

/// How a button looks.
#[derive(Clone, Copy, Debug, PartialEq, Eq, Structural)]
pub struct ButtonLook {
    pub fill: Rgb,
    pub border: Option<Rgb>,
    pub text: Rgb,
}

/// How a button of the settings looks: lighter under the pointer.
pub fn settings_button(primary: bool, hovered: bool) -> (r: ButtonLook)
    ensures
        r == ({
            let fill = color::grey_of(
                if primary {
                    50
                } else {
                    34
                },
            );
            ButtonLook {
                fill: if hovered {
                    color::lifted(fill, 14)
                } else {
                    fill
                },
                border: Some(
                    color::grey_of(
                        if primary {
                            78
                        } else {
                            60
                        },
                    ),
                ),
                text: color::unpacked(color::TAB_TEXT_ACTIVE),
            }
        }),
{
    let fill: Rgb = if primary {
        color::gray(50)
    } else {
        color::gray(34)
    };
    ButtonLook {
        fill: if hovered {
            color::lift(fill, 14)
        } else {
            fill
        },
        border: Some(
            if primary {
                color::gray(78)
            } else {
                color::gray(60)
            },
        ),
        text: color::rgb(color::TAB_TEXT_ACTIVE),
    }
}

/// How a button with a sign on it looks: one that takes something away turns
/// red under the pointer.
pub fn icon_button(danger: bool, hovered: bool) -> (r: ButtonLook)
    ensures
        r == (ButtonLook {
            fill: if !hovered {
                color::grey_of(34)
            } else if danger {
                (Rgb { r: 90, g: 40, b: 40 })
            } else {
                color::grey_of(52)
            },
            border: Some(color::grey_of(60)),
            text: if !hovered {
                color::grey_of(170)
            } else if danger {
                (Rgb { r: 0xF0, g: 0xA0, b: 0xA0 })
            } else {
                color::unpacked(color::TAB_TEXT_ACTIVE)
            },
        }),
{
    let fill: Rgb = if !hovered {
        color::gray(34)
    } else if danger {
        Rgb { r: 90, g: 40, b: 40 }
    } else {
        color::gray(52)
    };
    let text: Rgb = if !hovered {
        color::gray(170)
    } else if danger {
        Rgb { r: 0xF0, g: 0xA0, b: 0xA0 }
    } else {
        color::rgb(color::TAB_TEXT_ACTIVE)
    };
    ButtonLook { fill, border: Some(color::gray(60)), text }
}

/// How a button looks that chooses the side of the tabs.
pub fn side_button(selected: bool) -> (r: ButtonLook)
    ensures
        r == (if selected {
            ButtonLook {
                fill: color::grey_of(56),
                border: Some(color::unpacked(color::ACCENT_GREEN)),
                text: color::unpacked(color::TAB_TEXT_ACTIVE),
            }
        } else {
            ButtonLook {
                fill: color::grey_of(34),
                border: None,
                text: color::unpacked(color::TAB_TEXT),
            }
        }),
{
    if selected {
        ButtonLook {
            fill: color::gray(56),
            border: Some(color::rgb(color::ACCENT_GREEN)),
            text: color::rgb(color::TAB_TEXT_ACTIVE),
        }
    } else {
        ButtonLook { fill: color::gray(34), border: None, text: color::rgb(color::TAB_TEXT) }
    }
}

/// The border of a colour that opens a palette.
pub fn swatch_border(hovered: bool) -> (r: Rgb)
    ensures
        r == color::grey_of(
            if hovered {
                255
            } else {
                90
            },
        ),
{
    if hovered {
        color::gray(255)
    } else {
        color::gray(90)
    }
}

/// The colour of the handle of a card.
pub fn grip_color(hovered: bool, dragging: bool) -> (r: Rgb)
    ensures
        r == (if hovered || dragging {
            color::unpacked(color::TAB_TEXT_ACTIVE)
        } else {
            color::grey_of(90)
        }),
{
    if hovered || dragging {
        color::rgb(color::TAB_TEXT_ACTIVE)
    } else {
        color::gray(90)
    }
}

// ---- palettes ----

/// A colour of a palette.
#[derive(Clone, Copy, Debug, PartialEq, Eq, Structural)]
pub struct Swatch {
    /// The colour that is shown.
    pub shown: Rgb,
    /// The colour that is chosen by it.
    pub applied: Rgb,
    /// It is the colour at present.
    pub outlined: bool,
}

/// Colour `i` of the palette of accents or of backgrounds. Backgrounds are
/// dark, so they are shown lighter than they are.
pub open spec fn swatch(accent: bool, current: Rgb, i: int) -> Swatch {
    let applied = color::unpacked(
        if accent {
            color::ACCENT_PALETTE[i]
        } else {
            color::BG_APPLY[i]
        },
    );
    Swatch {
        shown: if accent {
            applied
        } else {
            color::unpacked(color::BG_DISPLAY[i])
        },
        applied,
        outlined: current == applied,
    }
}

/// The palette of accents or of backgrounds, with the colour at present.
pub fn palette(accent: bool, current: Rgb) -> (r: Vec<Swatch>)
    ensures
        r@ == Seq::new(12, |i: int| swatch(accent, current, i)),
{
    let mut out: Vec<Swatch> = Vec::new();
    let mut i: usize = 0;
    while i < 12
        invariant
            i <= 12,
            out@ == Seq::new(i as nat, |k: int| swatch(accent, current, k)),
        decreases 12 - i,
    {
        let applied: Rgb = color::rgb(
            if accent {
                color::ACCENT_PALETTE[i]
            } else {
                color::BG_APPLY[i]
            },
        );
        let shown: Rgb = if accent {
            applied
        } else {
            color::rgb(color::BG_DISPLAY[i])
        };
        let s: Swatch = Swatch { shown, applied, outlined: current == applied };
        proof {
            assert(s == swatch(accent, current, i as int));
            assert(out@.push(s) =~= Seq::new((i + 1) as nat, |k: int| swatch(accent, current, k)));
        }
        out.push(s);
        i = i + 1;
    }
    out
}

/// How a background is shown: as in the palette from entry `from` on, where
/// it is one of the palette, else as it is.
pub open spec fn background_shown(bg: Rgb, from: int) -> Rgb
    decreases 12 - from,
{
    if from >= 12 {
        bg
    } else if color::unpacked(color::BG_APPLY[from]) == bg {
        color::unpacked(color::BG_DISPLAY[from])
    } else {
        background_shown(bg, from + 1)
    }
}

/// How a background is shown.
pub fn show_background(bg: Rgb) -> (r: Rgb)
    ensures
        r == background_shown(bg, 0),
{
    let mut i: usize = 0;
    while i < 12
        invariant
            i <= 12,
            background_shown(bg, 0) == background_shown(bg, i as int),
        decreases 12 - i,
    {
        if color::rgb(color::BG_APPLY[i]) == bg {
            return color::rgb(color::BG_DISPLAY[i]);
        }
        i = i + 1;
    }
    bg
}

// ---- texts ----

/// The label of the default shell, and nothing where there is no such shell.
pub fn shell_label(shells: &Vec<ShellSpec>, k: usize) -> (r: String)
    ensures
        r@ == (if k < shells@.len() {
            shells@[k as int]@.label
        } else {
            Seq::empty()
        }),
{
    if k < shells.len() {
        shells[k].label.clone()
    } else {
        String::new()
    }
}

/// The shell that a card names, where there is one of that name.
pub open spec fn named_shell(all: Seq<shells::ShellView>, short: Seq<char>) -> Option<int> {
    if short.len() == 0 {
        None
    } else {
        settings::shell_index(all, short)
    }
}

/// The shell that a card names, where there is one of that name.
pub fn card_shell(shells: &Vec<ShellSpec>, short: &str) -> (r: Option<usize>)
    ensures
        match r {
            Some(k) => k < shells@.len() && named_shell(shells::shell_views(shells@), short@)
                == Some(k as int),
            None => named_shell(shells::shell_views(shells@), short@) is None,
        },
{
    if short.is_empty() {
        None
    } else {
        settings::find_shell(shells, short)
    }
}

/// What a card says of its shell: the name, or that it is the default.
pub open spec fn card_label(all: Seq<shells::ShellView>, short: Seq<char>) -> Seq<char> {
    match named_shell(all, short) {
        Some(k) => all[k].short,
        None => "既定"@,
    }
}

/// What a card says of its shell.
pub fn card_shell_label(shells: &Vec<ShellSpec>, short: &str) -> (r: String)
    ensures
        r@ == card_label(shells::shell_views(shells@), short@),
{
    match card_shell(shells, short) {
        Some(k) => {
            assert(shells::shell_views(shells@)[k as int] == shells@[k as int]@);
            shells[k].short.clone()
        },
        None => "既定".to_owned(),
    }
}

/// A text over a list that opens: the arrow points where a click moves the
/// list.
pub fn with_arrow(label: &str, open: bool) -> (r: String)
    ensures
        r@ == label@ + "　"@ + (if open {
            "▲"@
        } else {
            "▼"@
        }),
{
    let mut s: String = label.to_owned();
    s.append("　");
    if open {
        s.append("▲");
    } else {
        s.append("▼");
    }
    s
}

/// What is said of the number of startup tabs.
pub fn cards_status(n: usize) -> (r: String)
    ensures
        r@ == (if n == 0 {
            "未設定＝起動時は既定シェル1枚"@
        } else {
            text::decimal(n as nat) + " 枚"@
        }),
{
    if n == 0 {
        "未設定＝起動時は既定シェル1枚".to_owned()
    } else {
        let mut s: String = text::to_decimal(n as u64);
        s.append(" 枚");
        s
    }
}

/// The title of a tab in the question whether to close it.
pub fn quoted_title(title: &str) -> (r: String)
    ensures
        r@ == "「"@ + title@ + "」"@,
{
    let mut s: String = "「".to_owned();
    s.append(title);
    s.append("」");
    s
}

/// The fonts behind the standard ones: signs, and Japanese where it is
/// installed.
pub fn fallback_fonts(has_jp: bool) -> (r: Vec<String>)
    ensures
        text::texts(r@) == (if has_jp {
            seq!["icons"@, "jp"@]
        } else {
            seq!["icons"@]
        }),
{
    let mut v: Vec<String> = Vec::new();
    v.push("icons".to_owned());
    if has_jp {
        v.push("jp".to_owned());
    }
    assert(text::texts(v@) =~= (if has_jp {
        seq!["icons"@, "jp"@]
    } else {
        seq!["icons"@]
    }));
    v
}

// ---- the card that follows the pointer ----

/// How much of a dragged card shows.
pub const GHOST_ALPHA: u8 = 240;

/// A field of a dragged card.
#[derive(Debug)]
pub struct GhostField {
    pub text: String,
    pub color: Pixel,
}

/// A field shows its text, or fainter a hint where it is empty.
pub fn ghost_field(t: &str, hint: &str, alpha: u8) -> (r: GhostField)
    ensures
        r.text@ == (if t@.len() == 0 {
            hint@
        } else {
            t@
        }),
        r.color == (if t@.len() == 0 {
            color::premultiplied(120, 120, 120, alpha)
        } else {
            color::premultiplied(220, 220, 220, alpha)
        }),
{
    if t.is_empty() {
        GhostField { text: hint.to_owned(), color: color::translucent(color::gray(120), alpha) }
    } else {
        GhostField { text: t.to_owned(), color: color::translucent(color::gray(220), alpha) }
    }
}

/// A dragged card.
#[derive(Debug)]
pub struct CardGhost {
    pub fill: Pixel,
    pub name: GhostField,
    /// The shell that is named, as its place among the shells.
    pub shell: Option<usize>,
    pub shell_label: String,
    /// What the icon of the shell is multiplied by.
    pub tint: Pixel,
    pub cwd: GhostField,
    /// The first of the command lines.
    pub command: GhostField,
}

/// The first line of a text, and nothing where there is none.
pub open spec fn first_line(s: Seq<char>) -> Seq<char> {
    let all = text::line_texts(s);
    if all.len() == 0 {
        Seq::empty()
    } else {
        all[0]
    }
}

/// What a field shows.
pub open spec fn field_text(t: Seq<char>, hint: Seq<char>) -> Seq<char> {
    if t.len() == 0 {
        hint
    } else {
        t
    }
}

/// What a field is written in.
pub open spec fn field_color(t: Seq<char>) -> Pixel {
    if t.len() == 0 {
        color::premultiplied(120, 120, 120, GHOST_ALPHA)
    } else {
        color::premultiplied(220, 220, 220, GHOST_ALPHA)
    }
}

/// How a card looks that is dragged: as the card itself, but translucent, and
/// with its first command line alone.
pub fn card_ghost(tab: &StartupTab, shells: &Vec<ShellSpec>, bg: Rgb) -> (r: CardGhost)
    ensures
        r.fill == color::premultiplied(bg.r, bg.g, bg.b, GHOST_ALPHA),
        r.name.text@ == field_text(tab@.name, "名前"@),
        r.name.color == field_color(tab@.name),
        match r.shell {
            Some(k) => named_shell(shells::shell_views(shells@), tab@.shell) == Some(k as int),
            None => named_shell(shells::shell_views(shells@), tab@.shell) is None,
        },
        r.shell_label@ == card_label(shells::shell_views(shells@), tab@.shell),
        r.tint == (Pixel { r: GHOST_ALPHA, g: GHOST_ALPHA, b: GHOST_ALPHA, a: GHOST_ALPHA }),
        r.cwd.text@ == field_text(tab@.cwd, "初期ディレクトリ（空＝既定）"@),
        r.cwd.color == field_color(tab@.cwd),
        r.command.text@ == field_text(
            first_line(tab@.commands_buf),
            "起動コマンド（1行に1つ）"@,
        ),
        r.command.color == field_color(first_line(tab@.commands_buf)),
{
    let lines: Vec<String> = text::lines(tab.commands_buf.as_str());
    let first: String = if lines.len() == 0 {
        String::new()
    } else {
        lines[0].clone()
    };
    proof {
        assert(lines@.len() == text::line_texts(tab@.commands_buf).len());
        if lines@.len() > 0 {
            assert(text::texts(lines@)[0] == lines@[0]@);
        }
    }
    CardGhost {
        fill: color::translucent(bg, GHOST_ALPHA),
        name: ghost_field(tab.name.as_str(), "名前", GHOST_ALPHA),
        shell: card_shell(shells, tab.shell.as_str()),
        shell_label: card_shell_label(shells, tab.shell.as_str()),
        tint: color::white(GHOST_ALPHA),
        cwd: ghost_field(tab.cwd.as_str(), "初期ディレクトリ（空＝既定）", GHOST_ALPHA),
        command: ghost_field(first.as_str(), "起動コマンド（1行に1つ）", GHOST_ALPHA),
    }
}

// ---- laws ----

/// Mirroring twice changes nothing, so that moving the tabs to the other side
/// and back does not either.
pub proof fn law_mirror_twice(i: Insets, c: Corners)
    ensures
        i.mirrored().mirrored() == i,
        c.mirrored().mirrored() == c,
{
}

/// A colour of the palette is outlined once it was chosen.
pub proof fn law_choice_is_outlined(accent: bool, current: Rgb, i: int)
    requires
        0 <= i < 12,
    ensures
        swatch(accent, swatch(accent, current, i).applied, i).outlined,
{
}

/// A background that was chosen from the palette is shown as it was there.
pub proof fn law_background_shown_as_chosen(current: Rgb, i: int)
    requires
        0 <= i < 12,
    ensures
        background_shown(swatch(false, current, i).applied, 0) == swatch(false, current, i).shown,
{
    reveal_with_fuel(background_shown, 13);
}

/// A mirror exchanges left and right and leaves top and bottom.
pub proof fn law_mirror_exchanges(i: Insets, c: Corners)
    ensures
        i.mirrored().left == i.right && i.mirrored().right == i.left,
        i.mirrored().top == i.top && i.mirrored().bottom == i.bottom,
        c.mirrored().nw == c.ne && c.mirrored().ne == c.nw,
        c.mirrored().sw == c.se && c.mirrored().se == c.sw,
{
}

/// With the tabs on the left nothing parts them from the terminal: the panel
/// has no margin there and the active tab no round corner, while a card has
/// room for its handle on the other side.
pub proof fn law_left_side()
    ensures
        left_panel_margin() == (Insets { left: 8, right: 0, top: 8, bottom: 8 }),
        left_card_margin() == (Insets { left: 30, right: 8, top: 8, bottom: 8 }),
        left_tab_corners() == (Corners { nw: 7, ne: 0, sw: 7, se: 0 }),
{
}

/// The selected row is in its own colours with bright text, whether the
/// pointer is over it or not; another row has no bar and plain text, and is
/// filled under the pointer alone.
pub proof fn law_rows(hovered: bool, fill: Rgb, bar: Rgb)
    ensures
        ({
            let on = row_look(true, hovered, fill, bar);
            let off = row_look(false, hovered, fill, bar);
            &&& on.fill == Some(fill)
            &&& on.bar == Some(bar)
            &&& on.text == Some(Rgb { r: 245, g: 245, b: 245 })
            &&& off.bar is None
            &&& off.text == Some(Rgb { r: 225, g: 225, b: 225 })
            &&& hovered ==> off.fill == Some(Rgb { r: 42, g: 42, b: 42 })
            &&& !hovered ==> off.fill is None
        }),
{
}

/// A palette applies the colours of its table; accents are shown as they are,
/// backgrounds by brighter ones, and the one in use alone is outlined.
pub proof fn law_palettes(current: Rgb, i: int)
    requires
        0 <= i < 12,
    ensures
        swatch(true, current, i).applied == color::unpacked(color::ACCENT_PALETTE[i]),
        swatch(true, current, i).shown == swatch(true, current, i).applied,
        swatch(false, current, i).applied == color::unpacked(color::BG_APPLY[i]),
        swatch(false, current, i).shown == color::unpacked(color::BG_DISPLAY[i]),
        swatch(true, current, i).outlined <==> current == swatch(true, current, i).applied,
        swatch(false, current, i).outlined <==> current == swatch(false, current, i).applied,
{
}

/// A background that is not in the palette is shown as it is.
pub proof fn law_other_background_shown(bg: Rgb)
    requires
        forall|i: int| 0 <= i < 12 ==> bg != color::unpacked(#[trigger] color::BG_APPLY[i]),
    ensures
        background_shown(bg, 0) == bg,
{
    lemma_not_in_palette(bg, 0);
}

proof fn lemma_not_in_palette(bg: Rgb, from: int)
    requires
        0 <= from <= 12,
        forall|i: int| 0 <= i < 12 ==> bg != color::unpacked(#[trigger] color::BG_APPLY[i]),
    ensures
        background_shown(bg, from) == bg,
    decreases 12 - from,
{
    if from < 12 {
        assert(bg != color::unpacked(color::BG_APPLY[from]));
        lemma_not_in_palette(bg, from + 1);
    }
}

/// A card names the shell it was given by its short name, and says that it is
/// the default where it was given none or one that is not there.
pub proof fn law_card_names_its_shell(all: Seq<shells::ShellView>, short: Seq<char>, i: int)
    ensures
        named_shell(all, Seq::empty()) is None,
        0 <= i < all.len() && all[i].short.len() > 0 && (forall|j: int|
            0 <= j < i ==> (#[trigger] all[j]).short != all[i].short) ==> named_shell(
            all,
            all[i].short,
        ) == Some(i) && card_label(all, all[i].short) == all[i].short,
        (forall|j: int| 0 <= j < all.len() ==> (#[trigger] all[j]).short != short) ==> named_shell(
            all,
            short,
        ) is None && card_label(all, short) == "既定"@,
        short.len() == 0 ==> card_label(all, short) == "既定"@,
{
    settings::lemma_shell_index_sound(all, short);
    if 0 <= i < all.len() && (forall|j: int|
        0 <= j < i ==> (#[trigger] all[j]).short != all[i].short) {
        settings::lemma_shell_index_first(all, i);
    }
}

/// A field shows what it holds, brightly, or else its hint, fainter.
pub proof fn law_fields(t: Seq<char>, hint: Seq<char>)
    ensures
        t.len() > 0 ==> field_text(t, hint) == t && field_color(t) == color::premultiplied(
            220,
            220,
            220,
            240,
        ),
        t.len() == 0 ==> field_text(t, hint) == hint && field_color(t) == color::premultiplied(
            120,
            120,
            120,
            240,
        ),
{
}

/// The first line of a text is what stands before its first line feed.
pub proof fn law_first_line(line: Seq<char>, rest: Seq<char>)
    requires
        !line.contains('\n'),
        line.len() == 0 || line.last() != '\r',
    ensures
        first_line(line) == line,
        first_line(line + seq!['\n'] + rest) == line,
        first_line(line + seq!['\r', '\n'] + rest) == line,
{
    text::law_lines(line, rest);
    if line.len() == 0 {
        assert(first_line(line) =~= line);
    }
}

/// Margins and corners on the right are those on the left in a mirror.
pub proof fn law_sides_mirror(pl: Insets, pr: Insets, cl: Insets, cr: Insets, tl: Corners, tr: Corners)
    requires
        call_ensures(panel_margin, (false,), pl),
        call_ensures(panel_margin, (true,), pr),
        call_ensures(card_margin, (false,), cl),
        call_ensures(card_margin, (true,), cr),
        call_ensures(tab_corners, (false,), tl),
        call_ensures(tab_corners, (true,), tr),
    ensures
        pl == left_panel_margin() && pr == pl.mirrored(),
        cl == left_card_margin() && cr == cl.mirrored(),
        tl == left_tab_corners() && tr == tl.mirrored(),
{
}

/// A dragged tab leaves a plain block behind, whatever else holds of it, and
/// any other is a row in its own colours; an entry of the navigation is a row
/// in the colours of the page.
pub proof fn law_tabs_and_navigation(
    selected: bool,
    hovered: bool,
    bg: Rgb,
    accent: Rgb,
    dragged: RowLook,
    tab: RowLook,
    nav: RowLook,
)
    requires
        call_ensures(tab_look, (selected, hovered, true, bg, accent), dragged),
        call_ensures(tab_look, (selected, hovered, false, bg, accent), tab),
        call_ensures(nav_look, (selected, hovered), nav),
    ensures
        dragged.fill == Some(Rgb { r: 34, g: 34, b: 34 }),
        dragged.bar is None && dragged.text is None,
        selected ==> tab.fill == Some(bg) && tab.bar == Some(accent),
        selected ==> nav.fill == Some(Rgb { r: 40, g: 40, b: 40 }) && nav.bar == Some(
            Rgb { r: 0x19, g: 0xC3, b: 0x7D },
        ),
        !selected ==> tab == nav && tab.bar is None,
        tab.text == nav.text,
{
}

/// Under the pointer a button of the settings is fourteen steps brighter and
/// otherwise the same; the main one is brighter than the other.
pub proof fn law_buttons_brighten(
    primary: bool,
    off: ButtonLook,
    on: ButtonLook,
    main: ButtonLook,
    other: ButtonLook,
)
    requires
        call_ensures(settings_button, (primary, false), off),
        call_ensures(settings_button, (primary, true), on),
        call_ensures(settings_button, (true, false), main),
        call_ensures(settings_button, (false, false), other),
    ensures
        on.fill.r == off.fill.r + 14 && on.fill.g == off.fill.g + 14 && on.fill.b == off.fill.b + 14,
        on.border == off.border && on.text == off.text,
        main.fill == (Rgb { r: 50, g: 50, b: 50 }) && main.border == Some(
            Rgb { r: 78, g: 78, b: 78 },
        ),
        other.fill == (Rgb { r: 34, g: 34, b: 34 }) && other.border == Some(
            Rgb { r: 60, g: 60, b: 60 },
        ),
        off.text == (Rgb { r: 245, g: 245, b: 245 }),
{
}

/// A button that takes something away shows it under the pointer alone, where
/// it is redder than it is green or blue; the others stay grey.
pub proof fn law_danger_is_red(
    off: ButtonLook,
    off_danger: ButtonLook,
    on: ButtonLook,
    danger: ButtonLook,
)
    requires
        call_ensures(icon_button, (false, false), off),
        call_ensures(icon_button, (true, false), off_danger),
        call_ensures(icon_button, (false, true), on),
        call_ensures(icon_button, (true, true), danger),
    ensures
        off == off_danger,
        off.fill == (Rgb { r: 34, g: 34, b: 34 }) && off.text == (Rgb { r: 170, g: 170, b: 170 }),
        on.fill == (Rgb { r: 52, g: 52, b: 52 }) && on.text == (Rgb { r: 245, g: 245, b: 245 }),
        danger.fill == (Rgb { r: 90, g: 40, b: 40 }),
        danger.text == (Rgb { r: 240, g: 160, b: 160 }),
        off.border == on.border && on.border == danger.border && on.border == Some(
            Rgb { r: 60, g: 60, b: 60 },
        ),
{
}

/// The chosen side alone is outlined, and brighter than the other.
pub proof fn law_chosen_side(on: ButtonLook, off: ButtonLook)
    requires
        call_ensures(side_button, (true,), on),
        call_ensures(side_button, (false,), off),
    ensures
        on.border == Some(Rgb { r: 0x19, g: 0xC3, b: 0x7D }) && off.border is None,
        on.fill == (Rgb { r: 56, g: 56, b: 56 }) && off.fill == (Rgb { r: 34, g: 34, b: 34 }),
        on.text == (Rgb { r: 245, g: 245, b: 245 }) && off.text == (Rgb { r: 225, g: 225, b: 225 }),
{
}

/// Signs, swatches and handles are brighter under the pointer, and a handle
/// while its card is dragged.
pub proof fn law_pointer_brightens(
    hovered: bool,
    close_off: Rgb,
    close_on: Rgb,
    swatch_off: Rgb,
    swatch_on: Rgb,
    grip_off: Rgb,
    grip_on: Rgb,
    grip_dragged: Rgb,
)
    requires
        call_ensures(close_color, (false,), close_off),
        call_ensures(close_color, (true,), close_on),
        call_ensures(swatch_border, (false,), swatch_off),
        call_ensures(swatch_border, (true,), swatch_on),
        call_ensures(grip_color, (false, false), grip_off),
        call_ensures(grip_color, (true, false), grip_on),
        call_ensures(grip_color, (hovered, true), grip_dragged),
    ensures
        close_off == (Rgb { r: 125, g: 125, b: 125 }) && close_on == (Rgb {
            r: 235,
            g: 235,
            b: 235,
        }),
        swatch_off == (Rgb { r: 90, g: 90, b: 90 }) && swatch_on == (Rgb {
            r: 255,
            g: 255,
            b: 255,
        }),
        grip_off == (Rgb { r: 90, g: 90, b: 90 }) && grip_on == (Rgb { r: 245, g: 245, b: 245 }),
        grip_dragged == grip_on,
{
}

/// A header is its label, a wide space and an arrow that turns as the list
/// opens.
pub proof fn law_arrow_turns(label: &str, closed: String, open: String)
    requires
        call_ensures(with_arrow, (label, false), closed),
        call_ensures(with_arrow, (label, true), open),
    ensures
        closed@ == label@ + seq!['\u{3000}', '\u{25BC}'],
        open@ == label@ + seq!['\u{3000}', '\u{25B2}'],
{
    reveal_strlit("　");
    reveal_strlit("▲");
    reveal_strlit("▼");
    assert(closed@ =~= label@ + seq!['\u{3000}', '\u{25BC}']);
    assert(open@ =~= label@ + seq!['\u{3000}', '\u{25B2}']);
}

/// A dragged card shows what the card holds: its name, its shell, its
/// directory and the first of its commands, each or else its hint.
pub proof fn law_ghost_shows_the_card(
    tab: &StartupTab,
    shells: &Vec<ShellSpec>,
    bg: Rgb,
    line: Seq<char>,
    rest: Seq<char>,
    r: CardGhost,
)
    requires
        call_ensures(card_ghost, (tab, shells, bg), r),
        tab.commands_buf@ == line + seq!['\n'] + rest,
        !line.contains('\n'),
        line.len() > 0,
        line.last() != '\r',
    ensures
        r.command.text@ == line,
        tab.name@.len() > 0 ==> r.name.text@ == tab.name@,
        tab.name@.len() == 0 ==> r.name.text@ == "名前"@,
        tab.cwd@.len() > 0 ==> r.cwd.text@ == tab.cwd@,
        r.shell is Some ==> r.shell_label@ == tab.shell@,
        r.shell is None ==> r.shell_label@ == "既定"@,
        r.fill.a == 240 && r.tint.a == 240,
{
    law_first_line(line, rest);
    settings::lemma_shell_index_sound(shells::shell_views(shells@), tab.shell@);
}

} // verus!
