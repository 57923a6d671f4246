use lust_termina::app;
use lust_termina::app::{App, Session, SettingsTab, TabGesture};
use lust_termina::color;
use lust_termina::color::Rgb;
use lust_termina::input::{InputAct, InputEvent};
use lust_termina::screen::TermSize;
use lust_termina::settings::{Prefs, TabPlan};
use lust_termina::shells::ShellSpec;

fn shell(short: &str) -> ShellSpec {
    ShellSpec {
        label: format!("The {short}"),
        short: short.to_string(),
        program: format!("{short}.exe"),
        args: vec!["-i".to_string()],
        icon_source: None,
    }
}

fn prefs() -> Prefs {
    Prefs {
        default_shell: 0,
        default_cwd: "C:\\work".to_string(),
        default_bg: Rgb { r: 1, g: 2, b: 3 },
        default_accent: Rgb { r: 4, g: 5, b: 6 },
        panel_right: false,
        startup_tabs: vec![],
    }
}

fn session(title: &str) -> Session<u32> {
    Session {
        handle: title.len() as u32,
        size: TermSize::initial(),
        title: title.to_string(),
        bg: Rgb { r: 9, g: 9, b: 9 },
        accent: Rgb { r: 8, g: 8, b: 8 },
        shell_short: "pwsh".to_string(),
        cwd: "C:\\x".to_string(),
    }
}

fn program(titles: &[&str]) -> App<u32> {
    App::new(
        prefs(),
        vec![shell("pwsh"), shell("cmd")],
        titles.iter().map(|t| session(t)).collect(),
    )
}

fn titles(a: &App<u32>) -> Vec<&str> {
    a.sessions.iter().map(|s| s.title.as_str()).collect()
}

fn gesture(drag_started: bool, pointer_known: bool, double_clicked: bool, clicked: bool) -> TabGesture {
    TabGesture { drag_started, pointer_known, double_clicked, clicked }
}

#[test]
fn starts_at_the_first_tab() {
    let a = program(&["a", "b", "c"]);
    assert_eq!((a.active, a.next_id), (0, 4));
    assert_eq!((a.editing, a.confirm_close, a.drag), (None, None, None));
    assert!(!a.settings_open && !a.shell_list_open && !a.editing_init);
    assert_eq!(a.settings_tab, SettingsTab::General);
}

#[test]
fn launches_in_a_directory_or_where_the_program_is() {
    let l = app::launch(&shell("cmd"), "C:\\x");
    assert_eq!((l.program.as_str(), l.cwd), ("cmd.exe", Some("C:\\x".to_string())));
    assert_eq!(l.args, vec!["-i".to_string()]);
    assert_eq!(app::launch(&shell("cmd"), "").cwd, None);
}

#[test]
fn a_planned_tab_opens() {
    let plan = TabPlan {
        shell: 1,
        title: "t".to_string(),
        cwd: "C:\\y".to_string(),
        bg: Rgb { r: 1, g: 1, b: 1 },
        accent: Rgb { r: 2, g: 2, b: 2 },
        commands: vec![],
    };
    let s = Session::open(plan, &shell("cmd"), 7u32);
    assert_eq!((s.handle, s.title.as_str(), s.cwd.as_str()), (7, "t", "C:\\y"));
    assert_eq!(s.shell_short, "cmd");
    assert_eq!(s.size, TermSize { cols: 80, rows: 24 });
    assert_eq!((s.bg, s.accent), (Rgb { r: 1, g: 1, b: 1 }, Rgb { r: 2, g: 2, b: 2 }));
}

#[test]
fn tabs_go_round() {
    let mut a = program(&["a", "b", "c"]);
    a.cycle_tabs(true, false);
    assert_eq!(a.active, 1);
    a.cycle_tabs(true, true);
    assert_eq!(a.active, 0);
    a.cycle_tabs(true, true);
    assert_eq!(a.active, 2);
    a.cycle_tabs(true, false);
    assert_eq!(a.active, 0);
    a.cycle_tabs(false, false);
    assert_eq!(a.active, 0);
    for _ in 0..3 {
        a.cycle_tabs(true, false);
    }
    assert_eq!(a.active, 0);
}

#[test]
fn a_single_tab_stays() {
    let mut a = program(&["a"]);
    a.cycle_tabs(true, false);
    a.cycle_tabs(true, true);
    assert_eq!(a.active, 0);
}

#[test]
fn nothing_goes_to_the_terminal_meanwhile() {
    let mut a = program(&["a", "b"]);
    assert!(!a.block_input());
    a.settings_open = true;
    assert!(a.block_input());
    a.cycle_tabs(true, false);
    assert_eq!(a.active, 0);
    a.settings_open = false;
    a.request_close(0);
    assert!(a.block_input());
    a.close_cancelled();
    a.editing = Some(0);
    assert!(a.block_input());
    a.cycle_tabs(true, false);
    assert_eq!(a.active, 0);
}

#[test]
fn clicks_choose_and_double_clicks_rename() {
    let mut a = program(&["a", "b", "c"]);
    a.tab_gesture(1, gesture(false, true, false, true));
    assert_eq!((a.active, a.editing), (1, None));
    a.tab_gesture(2, gesture(false, true, true, true));
    assert_eq!((a.active, a.editing, a.editing_init), (2, Some(2), true));
    assert!(a.take_focus_request());
    assert!(!a.take_focus_request());
    a.tab_gesture(0, gesture(false, true, false, false));
    assert_eq!(a.active, 2);
}

#[test]
fn drags_start_where_the_pointer_is_known() {
    let mut a = program(&["a", "b"]);
    a.tab_gesture(1, gesture(true, false, true, true));
    assert_eq!((a.active, a.drag, a.editing), (0, None, None));
    a.tab_gesture(1, gesture(true, true, true, true));
    assert_eq!((a.active, a.drag, a.editing), (1, Some(1), None));
}

#[test]
fn a_blank_title_is_made_up() {
    let mut a = program(&["a", "b"]);
    a.editing = Some(1);
    a.sessions[1].title = " \u{3000}".to_string();
    a.finish_rename(1);
    assert_eq!(titles(&a), vec!["a", "pwsh 2"]);
    assert_eq!(a.editing, None);
    a.sessions[0].title = " mine ".to_string();
    a.finish_rename(0);
    assert_eq!(titles(&a), vec![" mine ", "pwsh 2"]);
}

#[test]
fn a_dropped_tab_moves_and_is_active() {
    let mut a = program(&["a", "b", "c"]);
    a.tab_gesture(0, gesture(true, true, false, false));
    a.drag_tab(false, Some(3));
    assert_eq!((titles(&a), a.drag), (vec!["a", "b", "c"], Some(0)));
    a.drag_tab(true, Some(3));
    assert_eq!((titles(&a), a.active, a.drag), (vec!["b", "c", "a"], 2, None));
}

#[test]
fn a_drop_nowhere_only_ends_the_drag() {
    let mut a = program(&["a", "b"]);
    a.drag = Some(1);
    a.drag_tab(true, None);
    assert_eq!((titles(&a), a.active, a.drag), (vec!["a", "b"], 0, None));
    a.drag = Some(5);
    a.drag_tab(true, Some(0));
    assert_eq!((titles(&a), a.active, a.drag), (vec!["a", "b"], 0, None));
}

#[test]
fn moving_a_missing_tab_changes_nothing() {
    let mut a = program(&["a", "b"]);
    a.move_tab(2, 0);
    assert_eq!((titles(&a), a.active), (vec!["a", "b"], 0));
    a.move_tab(1, 0);
    assert_eq!((titles(&a), a.active), (vec!["b", "a"], 0));
}

#[test]
fn new_tabs_count_up_and_take_the_defaults() {
    let mut a = program(&["a"]);
    let plan = a.plan_new_tab(1);
    assert_eq!((plan.title.as_str(), plan.shell), ("cmd 2", 1));
    assert_eq!(plan.cwd, "C:\\work");
    assert_eq!((plan.bg, plan.accent), (prefs().default_bg, prefs().default_accent));
    assert!(plan.commands.is_empty());
    let s = Session::open(plan, &shell("cmd"), 1u32);
    a.add_session(s);
    assert_eq!((titles(&a), a.active), (vec!["a", "cmd 2"], 1));
    assert_eq!(a.plan_new_tab(0).title, "pwsh 3");
    assert_eq!(a.next_id, 4);
}

#[test]
fn closing_waits_to_be_confirmed() {
    let mut a = program(&["a", "b"]);
    assert!(a.closable());
    assert_eq!(a.closing_title(), "");
    a.request_close(1);
    assert_eq!(a.closing_title(), "b");
    assert_eq!(titles(&a), vec!["a", "b"]);
    a.close_cancelled();
    assert_eq!((a.confirm_close, a.sessions.len()), (None, 2));
    assert!(a.close_confirmed().is_none());
    a.request_close(1);
    let gone = a.close_confirmed().unwrap();
    assert_eq!(gone.title, "b");
    assert_eq!((titles(&a), a.confirm_close), (vec!["a"], None));
    assert!(!a.closable());
}

#[test]
fn closing_another_tab_keeps_the_active_one() {
    for active in 0..4 {
        for closed in 0..4 {
            let mut a = program(&["a", "b", "c", "d"]);
            a.active = active;
            a.request_close(closed);
            a.close_confirmed();
            let names = ["a", "b", "c", "d"];
            if active != closed {
                assert_eq!(a.sessions[a.active].title, names[active]);
            } else if active < 3 {
                assert_eq!(a.sessions[a.active].title, names[active + 1]);
            } else {
                assert_eq!(a.sessions[a.active].title, "c");
            }
        }
    }
}

#[test]
fn the_theme_goes_onto_every_tab() {
    let mut a = program(&["a", "b"]);
    a.apply_theme();
    for s in &a.sessions {
        assert_eq!((s.bg, s.accent), (a.prefs.default_bg, a.prefs.default_accent));
    }
    a.sessions[1].reset_colors();
    assert_eq!(a.sessions[1].bg, color::rgb(color::DEFAULT_BG));
    assert_eq!(a.sessions[1].accent, color::rgb(color::ACCENT_GREEN));
    assert_eq!(titles(&a), vec!["a", "b"]);
}

#[test]
fn a_session_as_a_startup_tab() {
    let t = app::startup_tab_of(&session("a"));
    assert_eq!((t.name.as_str(), t.shell.as_str(), t.cwd.as_str()), ("a", "pwsh", "C:\\x"));
    assert_eq!((t.bg.as_str(), t.accent.as_str()), ("#090909", "#080808"));
    assert!(t.commands.is_empty() && t.commands_buf.is_empty());
}

#[test]
fn a_tab_answers_its_clicks_unless_it_is_dragged() {
    for k in 0..16u32 {
        let (dragging, closable) = (k & 1 != 0, k & 2 != 0);
        let (close, add) = (k & 4 != 0, k & 8 != 0);
        let r = app::tab_answer(dragging, closable, close, add);
        assert_eq!(r, (!dragging && closable && close, !dragging && add));
    }
    assert_eq!(app::tab_answer(false, true, true, false), (true, false));
    assert_eq!(app::tab_answer(false, false, true, true), (false, true));
    assert_eq!(app::tab_answer(true, true, true, true), (false, false));
}

#[test]
fn input_is_for_the_active_tab() {
    let mut a = program(&["a", "b"]);
    a.active = 1;
    assert_eq!(a.input_target(), Some(1));
    let f = a.frame_input(&vec![InputEvent::Text("x".to_string())], None, 7).unwrap();
    assert_eq!((f.target, f.acts.len(), f.clear_selection, f.offset), (1, 1, true, 0));
    assert!(matches!(&f.acts[0], InputAct::Send(b) if *b == vec![0x78]));
}

#[test]
fn what_sends_nothing_leaves_the_display() {
    let a = program(&["a"]);
    let f = a.frame_input(&vec![InputEvent::Other], Some("t".to_string()), 7).unwrap();
    assert_eq!((f.target, f.acts.len(), f.clear_selection, f.offset), (0, 0, false, 7));
    let f = a.frame_input(&vec![InputEvent::Copy], Some("t".to_string()), 7).unwrap();
    assert_eq!((f.acts.len(), f.clear_selection, f.offset), (1, true, 7));
    let f = a.frame_input(&vec![InputEvent::Copy], None, 7).unwrap();
    assert_eq!(f.offset, 0);
}

#[test]
fn no_tab_gets_input_meanwhile() {
    let typed = || vec![InputEvent::Text("x".to_string())];
    let mut a = program(&["a", "b"]);
    a.settings_open = true;
    assert!(a.input_target().is_none() && a.frame_input(&typed(), None, 0).is_none());
    a.settings_open = false;
    a.request_close(1);
    assert!(a.input_target().is_none() && a.frame_input(&typed(), None, 0).is_none());
    a.close_cancelled();
    a.editing = Some(0);
    assert!(a.input_target().is_none() && a.frame_input(&typed(), None, 0).is_none());
}
