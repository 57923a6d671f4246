use eframe::egui::Color32;
use lust_termina::color;
use lust_termina::color::{NamedColor, Pixel, Rgb, TermColor};

fn c(r: u8, g: u8, b: u8) -> Rgb {
    Rgb { r, g, b }
}

#[test]
fn unpacks_constants() {
    assert_eq!(color::rgb(color::ACCENT_GREEN), c(0x19, 0xC3, 0x7D));
    assert_eq!(color::rgb(color::DEFAULT_BG), c(12, 12, 12));
    assert_eq!(color::rgb(color::DEFAULT_FG), c(0xCC, 0xCC, 0xCC));
    assert_eq!(color::rgb(color::SIDEBAR_BG), color::gray(26));
    assert_eq!(color::rgb(color::TAB_HOVER_BG), color::gray(42));
    assert_eq!(color::rgb(color::TAB_TEXT), color::gray(225));
    assert_eq!(color::rgb(color::TAB_TEXT_ACTIVE), color::gray(245));
    assert_eq!(color::rgb(color::ACCENT_PALETTE[4]), color::rgb(color::ACCENT_GREEN));
}

#[test]
fn palette_has_ansi_cube_and_greys() {
    assert_eq!(color::palette256(1), c(0xC5, 0x0F, 0x1F));
    assert_eq!(color::palette256(15), c(0xF2, 0xF2, 0xF2));
    assert_eq!(color::palette256(16), c(0, 0, 0));
    assert_eq!(color::palette256(17), c(0, 0, 95));
    assert_eq!(color::palette256(208), c(255, 135, 0));
    assert_eq!(color::palette256(231), c(255, 255, 255));
    assert_eq!(color::palette256(232), c(8, 8, 8));
    assert_eq!(color::palette256(255), c(238, 238, 238));
}

#[test]
fn grey_ramp_rises_evenly() {
    for i in 232..255u8 {
        let a = color::palette256(i);
        let b = color::palette256(i + 1);
        assert_eq!(b.r - a.r, 10);
        assert_eq!((a.r, a.r), (a.g, a.b));
    }
}

#[test]
fn bold_brightens_the_first_eight() {
    let bg = c(1, 2, 3);
    assert_eq!(color::named_rgb(NamedColor::Red, false, bg), color::palette256(1));
    assert_eq!(color::named_rgb(NamedColor::Red, true, bg), color::palette256(9));
    assert_eq!(color::named_rgb(NamedColor::BrightRed, true, bg), color::palette256(9));
    assert_eq!(color::resolve(TermColor::Indexed(1), true, bg), color::palette256(1));
}

#[test]
fn background_is_that_of_the_tab() {
    let bg = c(1, 2, 3);
    assert_eq!(color::named_rgb(NamedColor::Background, true, bg), bg);
    assert_eq!(color::named_rgb(NamedColor::Foreground, false, bg), c(0xCC, 0xCC, 0xCC));
    assert_eq!(color::named_rgb(NamedColor::Cursor, true, bg), c(0xCC, 0xCC, 0xCC));
    assert_eq!(color::resolve(TermColor::Spec(c(9, 8, 7)), true, bg), c(9, 8, 7));
}

#[test]
fn dim_is_six_tenths_rounded_down() {
    for v in 0..=255u8 {
        let d = color::dim(color::gray(v));
        assert_eq!(d.r, (v as f32 * 0.6) as u8);
        assert!(d.r <= v);
    }
    assert_eq!(color::dim(c(255, 100, 1)), c(153, 60, 0));
}

#[test]
fn lift_saturates() {
    assert_eq!(color::lift(c(50, 245, 255), 14), c(64, 255, 255));
}

#[test]
fn translucent_is_what_egui_makes_of_it() {
    for v in 0..=255u8 {
        for a in 0..=255u8 {
            let p = color::translucent(c(v, 255 - v, 7), a);
            let e = Color32::from_rgba_unmultiplied(v, 255 - v, 7, a);
            assert_eq!((p.r, p.g, p.b, p.a), (e.r(), e.g(), e.b(), e.a()));
            assert_eq!(p.r as u32, (v as u32 * a as u32 + 127) / 255);
            assert_eq!(p.a, a);
        }
    }
}

#[test]
fn alpha_ends_are_clear_and_solid() {
    assert_eq!(color::translucent(c(9, 8, 7), 0), Pixel { r: 0, g: 0, b: 0, a: 0 });
    assert_eq!(color::translucent(c(9, 8, 7), 255), Pixel { r: 9, g: 8, b: 7, a: 255 });
    assert_eq!(color::selection_bg(), Pixel { r: 0x3A, g: 0x5A, b: 0x8C, a: 0x88 });
}

#[test]
fn colors_are_written_in_upper_case_hex() {
    assert_eq!(color::color_to_hex(c(0x0A, 0xB0, 0xFF)), "#0AB0FF");
    assert_eq!(color::color_to_hex(c(0, 0, 0)), "#000000");
}

#[test]
fn colors_are_read_back() {
    for v in 0..=255u8 {
        let col = c(v, 255 - v, v ^ 0x5a);
        assert_eq!(color::color_from_hex(&color::color_to_hex(col)), Some(col));
    }
}

#[test]
fn reads_either_case_and_white_space_round_it() {
    assert_eq!(color::color_from_hex("  #0a0B0c\n"), Some(c(10, 11, 12)));
    assert_eq!(color::color_from_hex("#+1+2+3"), Some(c(1, 2, 3)));
}

#[test]
fn anything_else_is_no_color() {
    for s in ["", "#", "0A0B0C", "#12345", "#1234567", "#GG0000", "# 12345", "#-10000", "#1+0000"] {
        assert!(color::color_readable(s));
        assert_eq!(color::color_from_hex(s), None, "{:?}", s);
    }
    // Two bytes that are one character.
    assert!(color::color_readable("#é0000"));
    assert_eq!(color::color_from_hex("#é0000"), None);
}

#[test]
fn a_character_across_two_pairs_cannot_be_read() {
    for s in ["#あ000", "#0é000", "#00あ0", "#000é0", "#あい", "#0\u{1F600}0"] {
        assert!(!color::color_readable(s), "{:?}", s);
    }
    for s in ["#0Gあ0", "#あ", "あ000", "#0000é", "#0000\u{20}é"] {
        assert!(color::color_readable(s), "{:?}", s);
        assert_eq!(color::color_from_hex(s), None);
    }
}
