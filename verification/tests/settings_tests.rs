use lust_termina::color;
use lust_termina::color::Rgb;
use lust_termina::settings;
use lust_termina::settings::{Prefs, Settings, StartupTab};
use lust_termina::shells::ShellSpec;

fn shell(short: &str) -> ShellSpec {
    ShellSpec {
        label: format!("The {short}"),
        short: short.to_string(),
        program: format!("{short}.exe"),
        args: vec![],
        icon_source: None,
    }
}

fn shells() -> Vec<ShellSpec> {
    vec![shell("pwsh"), shell("cmd"), shell("bash")]
}

fn tab(name: &str, shell: &str, cwd: &str, bg: &str, buf: &str) -> StartupTab {
    let mut t = StartupTab::empty();
    t.name = name.to_string();
    t.shell = shell.to_string();
    t.cwd = cwd.to_string();
    t.bg = bg.to_string();
    t.commands_buf = buf.to_string();
    t
}

fn prefs() -> Prefs {
    Prefs {
        default_shell: 1,
        default_cwd: "C:\\work".to_string(),
        default_bg: Rgb { r: 1, g: 2, b: 3 },
        default_accent: Rgb { r: 4, g: 5, b: 6 },
        panel_right: true,
        startup_tabs: vec![tab("one", "bash", "C:\\a", "#0A0B0C", " ls \n\n\tpwd\r\n")],
    }
}

fn saved(default_shell: &str, bg: &str, panel: &str) -> Settings {
    Settings {
        default_shell: default_shell.to_string(),
        default_cwd: None,
        default_bg: bg.to_string(),
        default_accent: String::new(),
        panel: panel.to_string(),
        startup_tabs: vec![],
    }
}

#[test]
fn without_settings_the_first_shell_starts_at_home() {
    let p = settings::load_prefs(&shells(), "C:\\home".to_string(), None);
    assert_eq!(p.default_shell, 0);
    assert_eq!(p.default_cwd, "C:\\home");
    assert_eq!(p.default_bg, color::rgb(color::DEFAULT_BG));
    assert_eq!(p.default_accent, color::rgb(color::ACCENT_GREEN));
    assert!(!p.panel_right && p.startup_tabs.is_empty());
}

#[test]
fn settings_that_name_nothing_known_keep_the_defaults() {
    let p = settings::load_prefs(
        &shells(),
        "H".to_string(),
        Some(saved("zsh", "nonsense", "middle")),
    );
    assert_eq!((p.default_shell, p.default_cwd.as_str(), p.panel_right), (0, "H", false));
    assert_eq!(p.default_bg, color::rgb(color::DEFAULT_BG));
}

#[test]
fn settings_choose_shell_color_and_side() {
    let p = settings::load_prefs(
        &shells(),
        "H".to_string(),
        Some(saved("bash", "#102030", "right")),
    );
    assert_eq!((p.default_shell, p.panel_right), (2, true));
    assert_eq!(p.default_bg, Rgb { r: 16, g: 32, b: 48 });
}

#[test]
fn saves_names_hex_and_tidied_commands() {
    let s = settings::save_settings(&prefs(), &shells());
    assert_eq!(s.default_shell, "cmd");
    assert_eq!(s.default_cwd, Some("C:\\work".to_string()));
    assert_eq!(s.default_bg, "#010203");
    assert_eq!(s.default_accent, "#040506");
    assert_eq!(s.panel, "right");
    assert_eq!(s.startup_tabs[0].commands, vec!["ls".to_string(), "pwd".to_string()]);
    assert!(s.colors_readable());
    let mut p = prefs();
    p.panel_right = false;
    p.default_shell = 9;
    let s = settings::save_settings(&p, &shells());
    assert_eq!((s.panel.as_str(), s.default_shell.as_str()), ("left", ""));
}

#[test]
fn what_was_saved_is_loaded_again() {
    let s = settings::save_settings(&prefs(), &shells());
    let p = settings::load_prefs(&shells(), "H".to_string(), Some(s));
    let before = prefs();
    assert_eq!(p.default_shell, before.default_shell);
    assert_eq!(p.default_cwd, before.default_cwd);
    assert_eq!(p.default_bg, before.default_bg);
    assert_eq!(p.default_accent, before.default_accent);
    assert_eq!(p.panel_right, before.panel_right);
    assert_eq!(p.startup_tabs[0].name, "one");
    assert_eq!(p.startup_tabs[0].commands_buf, "ls\npwd");
}

#[test]
fn an_empty_start_directory_is_kept() {
    let mut p = prefs();
    p.default_cwd = String::new();
    p.startup_tabs = vec![];
    let s = settings::save_settings(&p, &shells());
    assert_eq!(s.default_cwd, Some(String::new()));
    let back = settings::load_prefs(&shells(), "H".to_string(), Some(s));
    assert_eq!(back.default_cwd, "");
    assert_eq!(settings::startup_plans(&back, &shells())[0].cwd, "");
}

#[test]
fn a_start_directory_that_was_never_saved_is_home() {
    let back = settings::load_prefs(&shells(), "H".to_string(), Some(saved("cmd", "", "")));
    assert_eq!((back.default_shell, back.default_cwd.as_str()), (1, "H"));
}

#[test]
fn the_default_shell_is_found_by_name_on_another_machine() {
    let s = settings::save_settings(&prefs(), &shells());
    let other = vec![shell("bash"), shell("pwsh"), shell("cmd")];
    assert_eq!(settings::load_prefs(&other, String::new(), Some(s)).default_shell, 2);
    let s = settings::save_settings(&prefs(), &shells());
    let without = vec![shell("bash"), shell("pwsh")];
    assert_eq!(settings::load_prefs(&without, String::new(), Some(s)).default_shell, 0);
}

#[test]
fn command_lines_are_trimmed_and_never_blank() {
    assert_eq!(settings::split_commands(""), Vec::<String>::new());
    assert_eq!(settings::split_commands(" \n\t\n"), Vec::<String>::new());
    assert_eq!(
        settings::split_commands("a b\r\n  c\u{3000}\n\nd"),
        vec!["a b".to_string(), "c".to_string(), "d".to_string()]
    );
}

#[test]
fn command_lines_survive_editing() {
    let mut t = StartupTab::empty();
    t.commands = vec!["cd x".to_string(), "make".to_string()];
    let mut s = saved("", "", "");
    s.startup_tabs.push(t);
    let p = settings::load_prefs(&shells(), String::new(), Some(s));
    assert_eq!(p.startup_tabs[0].commands_buf, "cd x\nmake");
    let again = settings::save_settings(&p, &shells());
    assert_eq!(again.startup_tabs[0].commands, vec!["cd x".to_string(), "make".to_string()]);
}

#[test]
fn finds_shells_by_short_name() {
    assert_eq!(settings::find_shell(&shells(), "cmd"), Some(1));
    assert_eq!(settings::find_shell(&shells(), "The cmd"), None);
    assert_eq!(settings::find_shell(&vec![shell("a"), shell("a")], "a"), Some(0));
}

#[test]
fn a_start_without_tabs_opens_the_default_shell() {
    let mut p = prefs();
    p.startup_tabs = vec![];
    let plans = settings::startup_plans(&p, &shells());
    assert_eq!(plans.len(), 1);
    assert_eq!(plans[0].title, "cmd 1");
    assert_eq!((plans[0].shell, plans[0].cwd.as_str()), (1, "C:\\work"));
    assert_eq!((plans[0].bg, plans[0].accent), (p.default_bg, p.default_accent));
    assert!(plans[0].commands.is_empty());
}

#[test]
fn startup_tabs_open_with_what_they_name() {
    let mut p = prefs();
    p.startup_tabs.push(StartupTab::empty());
    p.startup_tabs.push(tab("", "zsh", "", "", ""));
    p.startup_tabs[0].commands = vec!["ls".to_string()];
    let plans = settings::startup_plans(&p, &shells());
    assert_eq!(plans.len(), 3);
    assert_eq!((plans[0].title.as_str(), plans[0].shell), ("one", 2));
    assert_eq!(plans[0].cwd, "C:\\a");
    assert_eq!(plans[0].bg, Rgb { r: 10, g: 11, b: 12 });
    assert_eq!(plans[0].accent, p.default_accent);
    assert_eq!(plans[0].commands, vec!["ls".to_string()]);
    assert_eq!((plans[1].title.as_str(), plans[1].shell), ("cmd 2", 1));
    assert_eq!(plans[1].cwd, "C:\\work");
    assert_eq!((plans[1].bg, plans[1].accent), (p.default_bg, p.default_accent));
    assert_eq!((plans[2].title.as_str(), plans[2].shell), ("cmd 3", 1));
}

#[test]
fn unreadable_colors_are_told() {
    let mut s = saved("", "", "");
    assert!(s.colors_readable());
    s.startup_tabs.push(tab("", "", "", "#あ000", ""));
    assert!(!s.colors_readable());
    assert!(!saved("", "#0é000", "").colors_readable());
    assert!(StartupTab::empty().colors_readable());
}

#[test]
fn numbers_titles() {
    assert_eq!(settings::numbered("pwsh", 12), "pwsh 12");
    let fallback = Rgb { r: 7, g: 7, b: 7 };
    assert_eq!(settings::read_color("#000001", fallback), Rgb { r: 0, g: 0, b: 1 });
    assert_eq!(settings::read_color("", fallback), fallback);
}

#[test]
fn a_copied_tab_is_the_same() {
    let mut t = tab("n", "s", "c", "#000000", "x");
    t.commands = vec!["x".to_string()];
    let c = t.copy();
    assert_eq!((c.name, c.shell, c.cwd, c.bg), ("n".to_string(), "s".to_string(), "c".to_string(), "#000000".to_string()));
    assert_eq!((c.accent, c.commands, c.commands_buf), (String::new(), vec!["x".to_string()], "x".to_string()));
}

#[test]
fn the_next_start_opens_what_the_cards_say() {
    let mut p = prefs();
    p.startup_tabs.push(tab("", "pwsh", "", "", "cls\n"));
    let s = settings::save_settings(&p, &shells());
    let back = settings::load_prefs(&shells(), "H".to_string(), Some(s));
    let plans = settings::startup_plans(&back, &shells());
    assert_eq!(plans.len(), 2);
    assert_eq!((plans[0].title.as_str(), plans[0].shell), ("one", 2));
    assert_eq!(plans[0].commands, vec!["ls".to_string(), "pwd".to_string()]);
    assert_eq!((plans[1].title.as_str(), plans[1].shell), ("pwsh 2", 0));
    assert_eq!(plans[1].commands, vec!["cls".to_string()]);
}

#[test]
fn numbers_tell_titles_apart() {
    let mut all: Vec<String> = (0..200).map(|n| settings::numbered("x", n)).collect();
    all.sort();
    all.dedup();
    assert_eq!(all.len(), 200);
}
