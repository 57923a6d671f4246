use eframe::egui::Color32;
use lust_termina::color;
use lust_termina::color::Rgb;
use lust_termina::look;
use lust_termina::look::{Corners, Insets, RowLook};
use lust_termina::settings::StartupTab;
use lust_termina::shells::ShellSpec;

fn shell(short: &str) -> ShellSpec {
    ShellSpec {
        label: format!("The {short}"),
        short: short.to_string(),
        program: short.to_string(),
        args: vec![],
        icon_source: None,
    }
}

#[test]
fn margins_and_corners_mirror() {
    assert_eq!(look::panel_margin(false), Insets { left: 8, right: 0, top: 8, bottom: 8 });
    assert_eq!(look::panel_margin(true), Insets { left: 0, right: 8, top: 8, bottom: 8 });
    assert_eq!(look::card_margin(false), Insets { left: 30, right: 8, top: 8, bottom: 8 });
    assert_eq!(look::card_margin(true), Insets { left: 8, right: 30, top: 8, bottom: 8 });
    assert_eq!(look::tab_corners(false), Corners { nw: 7, ne: 0, sw: 7, se: 0 });
    assert_eq!(look::tab_corners(true), Corners { nw: 0, ne: 7, sw: 0, se: 7 });
}

#[test]
fn tabs_show_their_state() {
    let (bg, accent) = (Rgb { r: 1, g: 2, b: 3 }, Rgb { r: 4, g: 5, b: 6 });
    let bright = Some(color::gray(245));
    assert_eq!(
        look::tab_look(true, true, false, bg, accent),
        RowLook { fill: Some(bg), bar: Some(accent), text: bright }
    );
    assert_eq!(
        look::tab_look(false, true, false, bg, accent),
        RowLook { fill: Some(color::gray(42)), bar: None, text: Some(color::gray(225)) }
    );
    assert_eq!(
        look::tab_look(false, false, false, bg, accent),
        RowLook { fill: None, bar: None, text: Some(color::gray(225)) }
    );
    assert_eq!(
        look::tab_look(true, true, true, bg, accent),
        RowLook { fill: Some(color::gray(34)), bar: None, text: None }
    );
    assert_eq!(
        look::nav_look(true, false),
        RowLook {
            fill: Some(color::gray(40)),
            bar: Some(color::rgb(color::ACCENT_GREEN)),
            text: bright,
        }
    );
    assert_eq!(look::close_color(true), color::gray(235));
    assert_eq!(look::close_color(false), color::gray(125));
}

#[test]
fn buttons_show_their_state() {
    assert_eq!(look::settings_button(true, false).fill, color::gray(50));
    assert_eq!(look::settings_button(true, true).fill, color::gray(64));
    assert_eq!(look::settings_button(false, true).fill, color::gray(48));
    assert_eq!(look::settings_button(true, true).border, Some(color::gray(78)));
    assert_eq!(look::settings_button(false, false).border, Some(color::gray(60)));
    assert_eq!(look::icon_button(false, false).text, color::gray(170));
    assert_eq!(look::icon_button(false, true).fill, color::gray(52));
    assert_eq!(look::icon_button(true, true).fill, Rgb { r: 90, g: 40, b: 40 });
    assert_eq!(look::icon_button(true, true).text, Rgb { r: 240, g: 160, b: 160 });
    assert_eq!(look::icon_button(true, false), look::icon_button(false, false));
    assert_eq!(look::side_button(true).border, Some(color::rgb(color::ACCENT_GREEN)));
    assert_eq!(look::side_button(false).border, None);
    assert_eq!(look::side_button(false).fill, color::gray(34));
    assert_eq!(look::swatch_border(true), color::gray(255));
    assert_eq!(look::swatch_border(false), color::gray(90));
    assert_eq!(look::grip_color(false, true), color::gray(245));
    assert_eq!(look::grip_color(false, false), color::gray(90));
}

#[test]
fn palettes_outline_the_color_at_present() {
    let green = color::rgb(color::ACCENT_GREEN);
    let p = look::palette(true, green);
    assert_eq!(p.len(), 12);
    for (i, s) in p.iter().enumerate() {
        assert_eq!(s.applied, color::rgb(color::ACCENT_PALETTE[i]));
        assert_eq!(s.shown, s.applied);
        assert_eq!(s.outlined, i == 4);
    }
    let p = look::palette(false, color::rgb(color::BG_APPLY[7]));
    for (i, s) in p.iter().enumerate() {
        assert_eq!(s.applied, color::rgb(color::BG_APPLY[i]));
        assert_eq!(s.shown, color::rgb(color::BG_DISPLAY[i]));
        assert_eq!(s.outlined, i == 7);
    }
}

#[test]
fn chosen_backgrounds_are_shown_as_in_the_palette() {
    for s in look::palette(false, color::gray(0)) {
        assert_eq!(look::show_background(s.applied), s.shown);
    }
    let other = Rgb { r: 200, g: 1, b: 99 };
    assert_eq!(look::show_background(other), other);
}

#[test]
fn texts_of_shells() {
    let all = vec![shell("pwsh"), shell("cmd")];
    assert_eq!(look::shell_label(&all, 1), "The cmd");
    assert_eq!(look::shell_label(&all, 2), "");
    assert_eq!(look::card_shell(&all, "cmd"), Some(1));
    assert_eq!(look::card_shell(&all, ""), None);
    assert_eq!(look::card_shell_label(&all, "cmd"), "cmd");
    assert_eq!(look::card_shell_label(&all, "zsh"), "既定");
    assert_eq!(look::card_shell_label(&all, ""), "既定");
    assert_eq!(look::with_arrow("cmd", false), "cmd　▼");
    assert_eq!(look::with_arrow("cmd", true), "cmd　▲");
}

#[test]
fn texts_of_the_page() {
    assert_eq!(look::cards_status(0), "未設定＝起動時は既定シェル1枚");
    assert_eq!(look::cards_status(12), "12 枚");
    assert_eq!(look::quoted_title("a"), "「a」");
    assert_eq!(look::fallback_fonts(false), vec!["icons".to_string()]);
    assert_eq!(look::fallback_fonts(true), vec!["icons".to_string(), "jp".to_string()]);
}

#[test]
fn a_dragged_card_shows_itself() {
    let all = vec![shell("pwsh"), shell("cmd")];
    let mut t = StartupTab::empty();
    t.name = "n".to_string();
    t.shell = "cmd".to_string();
    t.commands_buf = "first\r\nsecond".to_string();
    let g = look::card_ghost(&t, &all, Rgb { r: 100, g: 50, b: 0 });
    let fill = Color32::from_rgba_unmultiplied(100, 50, 0, 240);
    assert_eq!((g.fill.r, g.fill.g, g.fill.b, g.fill.a), (fill.r(), fill.g(), fill.b(), 240));
    assert_eq!((g.name.text.as_str(), g.name.color.r), ("n", 207));
    assert_eq!((g.shell, g.shell_label.as_str()), (Some(1), "cmd"));
    assert_eq!((g.tint.r, g.tint.g, g.tint.b, g.tint.a), (240, 240, 240, 240));
    assert_eq!(g.cwd.text, "初期ディレクトリ（空＝既定）");
    assert_eq!(g.cwd.color.r, 113);
    assert_eq!(g.command.text, "first");
    let g = look::card_ghost(&StartupTab::empty(), &all, Rgb { r: 0, g: 0, b: 0 });
    assert_eq!(g.name.text, "名前");
    assert_eq!((g.shell, g.shell_label.as_str()), (None, "既定"));
    assert_eq!(g.command.text, "起動コマンド（1行に1つ）");
}

#[test]
fn a_field_shows_its_text_or_a_hint() {
    let f = look::ghost_field("t", "hint", 255);
    assert_eq!((f.text.as_str(), f.color.r, f.color.a), ("t", 220, 255));
    let f = look::ghost_field("", "hint", 0);
    assert_eq!((f.text.as_str(), f.color.r, f.color.a), ("hint", 0, 0));
}
