use lust_termina::app::{App, Session, SettingsTab};
use lust_termina::cards;
use lust_termina::cards::PopupStep;
use lust_termina::color::Rgb;
use lust_termina::screen::TermSize;
use lust_termina::settings;
use lust_termina::settings::{Prefs, StartupTab};
use lust_termina::shells::ShellSpec;

fn shell(short: &str) -> ShellSpec {
    ShellSpec {
        label: short.to_string(),
        short: short.to_string(),
        program: short.to_string(),
        args: vec![],
        icon_source: None,
    }
}

fn session(title: &str, bg: u8) -> Session<()> {
    Session {
        handle: (),
        size: TermSize::initial(),
        title: title.to_string(),
        bg: Rgb { r: bg, g: bg, b: bg },
        accent: Rgb { r: 255, g: bg, b: 0 },
        shell_short: "cmd".to_string(),
        cwd: "C:\\x".to_string(),
    }
}

fn card(name: &str) -> StartupTab {
    let mut t = StartupTab::empty();
    t.name = name.to_string();
    t
}

fn page(cards: &[&str]) -> App<()> {
    let prefs = Prefs {
        default_shell: 0,
        default_cwd: String::new(),
        default_bg: Rgb { r: 1, g: 2, b: 3 },
        default_accent: Rgb { r: 4, g: 5, b: 6 },
        panel_right: false,
        startup_tabs: cards.iter().map(|n| card(n)).collect(),
    };
    App::new(prefs, vec![shell("pwsh"), shell("cmd")], vec![session("a", 10), session("b", 20)])
}

fn names(a: &App<()>) -> Vec<&str> {
    a.prefs.startup_tabs.iter().map(|t| t.name.as_str()).collect()
}

#[test]
fn settings_open_at_the_first_page_and_close_their_lists() {
    let mut a = page(&["x"]);
    a.select_page(SettingsTab::Theme);
    a.open_settings();
    assert!(a.settings_open);
    assert_eq!(a.settings_tab, SettingsTab::General);
    a.select_page(SettingsTab::Startup);
    assert_eq!(a.settings_tab, SettingsTab::Startup);
    a.toggle_shell_list();
    a.toggle_card_shell(0);
    a.toggle_card_color(0, true);
    a.close_settings();
    assert!(!a.settings_open && !a.shell_list_open);
    assert_eq!(a.startup_shell_open, None);
    assert_eq!(a.startup_color_open, Some((0, true)));
}

#[test]
fn the_default_shell_is_chosen_from_its_list() {
    let mut a = page(&[]);
    a.toggle_shell_list();
    a.shell_list_step(PopupStep::Stay);
    assert!(a.shell_list_open);
    a.shell_list_step(PopupStep::PressedOutside);
    assert!(!a.shell_list_open);
    assert_eq!(a.prefs.default_shell, 0);
    a.toggle_shell_list();
    a.shell_list_step(PopupStep::Picked(1));
    assert_eq!((a.prefs.default_shell, a.shell_list_open), (1, false));
    a.set_panel(true);
    assert!(a.prefs.panel_right);
}

#[test]
fn cards_are_added_and_taken_away() {
    let mut a = page(&["x", "y"]);
    a.add_card();
    assert_eq!(names(&a), vec!["x", "y", ""]);
    a.remove_card(0);
    a.remove_card(9);
    assert_eq!(names(&a), vec!["y", ""]);
    a.clear_cards();
    assert!(names(&a).is_empty());
}

#[test]
fn cards_shift_between_the_ends() {
    let mut a = page(&["x", "y", "z"]);
    a.shift_card(0, false);
    a.shift_card(2, true);
    a.shift_card(3, true);
    a.shift_card(usize::MAX, true);
    a.shift_card(4, false);
    assert_eq!(names(&a), vec!["x", "y", "z"]);
    a.shift_card(0, true);
    assert_eq!(names(&a), vec!["y", "x", "z"]);
    a.shift_card(1, false);
    assert_eq!(names(&a), vec!["x", "y", "z"]);
    a.shift_card(2, false);
    assert_eq!(names(&a), vec!["x", "z", "y"]);
}

#[test]
fn shifting_is_moving_past_the_neighbour() {
    for i in 0..2 {
        let mut a = page(&["x", "y", "z"]);
        let mut v = vec![card("x"), card("y"), card("z")];
        a.shift_card(i, true);
        cards::move_card(&mut v, i, i + 2);
        let moved: Vec<&str> = v.iter().map(|t| t.name.as_str()).collect();
        assert_eq!(names(&a), moved);
    }
}

#[test]
fn move_card_goes_to_the_boundary() {
    let mut v = vec![card("x"), card("y"), card("z")];
    cards::move_card(&mut v, 0, 2);
    assert_eq!(v[1].name, "x");
    cards::move_card(&mut v, 7, 0);
    assert_eq!(v[0].name, "y");
    cards::move_card(&mut v, 2, 0);
    assert_eq!(v[0].name, "z");
}

#[test]
fn dragged_cards_move_when_released() {
    let mut a = page(&["x", "y", "z"]);
    a.grab_card(2, false);
    assert_eq!(a.card_drag, None);
    a.grab_card(2, true);
    a.drag_card(false, Some(0));
    assert_eq!((names(&a), a.card_drag), (vec!["x", "y", "z"], Some(2)));
    a.drag_card(true, Some(0));
    assert_eq!((names(&a), a.card_drag), (vec!["z", "x", "y"], None));
    a.grab_card(0, true);
    a.drag_card(true, None);
    assert_eq!((names(&a), a.card_drag), (vec!["z", "x", "y"], None));
}

#[test]
fn a_card_chooses_its_shell() {
    let mut a = page(&["x", "y"]);
    a.toggle_card_shell(1);
    assert_eq!(a.startup_shell_open, Some(1));
    a.card_shell_step(1, PopupStep::Stay);
    assert_eq!(a.startup_shell_open, Some(1));
    a.card_shell_step(1, PopupStep::Picked(Some(1)));
    assert_eq!((a.prefs.startup_tabs[1].shell.as_str(), a.startup_shell_open), ("cmd", None));
    a.toggle_card_shell(1);
    a.card_shell_step(1, PopupStep::PressedOutside);
    assert_eq!((a.prefs.startup_tabs[1].shell.as_str(), a.startup_shell_open), ("cmd", None));
    a.card_shell_step(1, PopupStep::Picked(None));
    assert_eq!(a.prefs.startup_tabs[1].shell, "");
    a.toggle_card_shell(0);
    a.toggle_card_shell(1);
    a.toggle_card_shell(1);
    assert_eq!(a.startup_shell_open, None);
}

#[test]
fn a_card_chooses_its_colors() {
    let mut a = page(&["x"]);
    let c = Rgb { r: 0xAB, g: 0, b: 1 };
    a.toggle_card_color(0, false);
    a.card_color_step(0, false, PopupStep::Stay);
    assert_eq!(a.startup_color_open, Some((0, false)));
    a.card_color_step(0, false, PopupStep::Picked(Some(c)));
    assert_eq!(a.prefs.startup_tabs[0].bg, "#AB0001");
    assert_eq!(a.prefs.startup_tabs[0].accent, "");
    assert_eq!(a.startup_color_open, None);
    a.card_color_step(0, true, PopupStep::Picked(Some(c)));
    assert_eq!(a.prefs.startup_tabs[0].accent, "#AB0001");
    a.card_color_step(0, false, PopupStep::Picked(None));
    assert_eq!(a.prefs.startup_tabs[0].bg, "");
    a.toggle_card_color(0, true);
    a.toggle_card_color(0, false);
    assert_eq!(a.startup_color_open, Some((0, false)));
    a.toggle_card_color(0, false);
    assert_eq!(a.startup_color_open, None);
    a.toggle_card_color(0, true);
    a.card_color_step(0, true, PopupStep::PressedOutside);
    assert_eq!(a.startup_color_open, None);
    assert_eq!(a.prefs.startup_tabs[0].accent, "#AB0001");
}

#[test]
fn a_tab_is_put_among_the_startup_tabs_once() {
    let mut a = page(&["x"]);
    assert!(a.add_startup(1));
    assert!(!a.add_startup(1));
    a.sessions[1].bg = Rgb { r: 0, g: 0, b: 0 };
    assert!(!a.add_startup(1));
    assert!(!a.add_startup(2));
    assert_eq!(names(&a), vec!["x", "b"]);
    assert_eq!(a.prefs.startup_tabs[1].bg, "#141414");
    a.sessions[1].cwd = "D:\\".to_string();
    assert!(a.add_startup(1));
    assert_eq!(names(&a), vec!["x", "b", "b"]);
}

#[test]
fn a_snapshot_opens_the_same_tabs_again() {
    let mut a = page(&["x"]);
    assert_eq!(a.snapshot_startup_tabs().len(), 2);
    a.take_snapshot();
    assert_eq!(names(&a), vec!["a", "b"]);
    let plans = settings::startup_plans(&a.prefs, &a.shells);
    assert_eq!(plans.len(), 2);
    for (p, s) in plans.iter().zip(a.sessions.iter()) {
        assert_eq!((&p.title, &p.cwd), (&s.title, &s.cwd));
        assert_eq!(a.shells[p.shell].short, s.shell_short);
        assert_eq!((p.bg, p.accent), (s.bg, s.accent));
    }
}

#[test]
fn an_open_list_takes_a_choice_or_closes_on_a_press_outside() {
    assert!(matches!(cards::popup_step(Some(3), true, Some(false)), PopupStep::Picked(3)));
    assert!(matches!(cards::popup_step(Some(3), false, None), PopupStep::Picked(3)));
    let none: fn() -> Option<u8> = || None;
    assert!(matches!(cards::popup_step(none(), true, Some(false)), PopupStep::PressedOutside));
    assert!(matches!(cards::popup_step(none(), true, Some(true)), PopupStep::Stay));
    assert!(matches!(cards::popup_step(none(), true, None), PopupStep::Stay));
    assert!(matches!(cards::popup_step(none(), false, Some(false)), PopupStep::Stay));
}
