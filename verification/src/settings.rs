//! Settings: what is saved, what is made of it at the next start, and the
//! tabs that a start opens.
use vstd::prelude::*;
use vstd::string::StringExecFns;

use crate::color;
use crate::color::Rgb;
use crate::shells;
use crate::shells::ShellSpec;
use crate::text;

verus! {

/// A tab that a start opens. An empty text stands for the default.
#[derive(Debug)]
pub struct StartupTab {
    pub name: String,
    /// The short name of a shell.
    pub shell: String,
    pub cwd: String,
    /// A colour as `#RRGGBB`.
    pub bg: String,
    pub accent: String,
    /// Command lines for the shell.
    pub commands: Vec<String>,
    /// The command lines as one text to edit. It is not saved.
    pub commands_buf: String,
}

/// A `StartupTab` with its texts.
pub struct TabDef {
    pub name: Seq<char>,
    pub shell: Seq<char>,
    pub cwd: Seq<char>,
    pub bg: Seq<char>,
    pub accent: Seq<char>,
    pub commands: Seq<Seq<char>>,
    pub commands_buf: Seq<char>,
}

impl View for StartupTab {
    type V = TabDef;

    open spec fn view(&self) -> TabDef {
        TabDef {
            name: self.name@,
            shell: self.shell@,
            cwd: self.cwd@,
            bg: self.bg@,
            accent: self.accent@,
            commands: text::texts(self.commands@),
            commands_buf: self.commands_buf@,
        }
    }
}

impl TabDef {
    /// Both colours can be read.
    pub open spec fn wf(self) -> bool {
        !color::breaks_char(self.bg) && !color::breaks_char(self.accent)
    }

    /// The background, or the default where the tab names none.
    pub open spec fn bg_or(self, other: Rgb) -> Rgb {
        color_or(self.bg, other)
    }

    /// The accent, or the default where the tab names none.
    pub open spec fn accent_or(self, other: Rgb) -> Rgb {
        color_or(self.accent, other)
    }
}

/// A tab with nothing but defaults.
pub open spec fn empty_def() -> TabDef {
    TabDef {
        name: Seq::empty(),
        shell: Seq::empty(),
        cwd: Seq::empty(),
        bg: Seq::empty(),
        accent: Seq::empty(),
        commands: Seq::empty(),
        commands_buf: Seq::empty(),
    }
}

/// The colour that a text writes, or `other` where it writes none.
pub open spec fn color_or(s: Seq<char>, other: Rgb) -> Rgb {
    match color::parsed_color(s) {
        Some(c) => c,
        None => other,
    }
}

/// The colour that a text writes, or `other` where it writes none.
pub fn read_color(s: &str, other: Rgb) -> (r: Rgb)
    requires
        !color::breaks_char(s@),
    ensures
        r == color_or(s@, other),
{
    match color::color_from_hex(s) {
        Some(c) => c,
        None => other,
    }
}

impl StartupTab {
    /// A tab with nothing but defaults.
    pub fn empty() -> (r: StartupTab)
        ensures
            r@ == empty_def(),
            r@.wf(),
    {
        let t: StartupTab = StartupTab {
            name: String::new(),
            shell: String::new(),
            cwd: String::new(),
            bg: String::new(),
            accent: String::new(),
            commands: Vec::new(),
            commands_buf: String::new(),
        };
        proof {
            assert(text::texts(t.commands@) =~= Seq::<Seq<char>>::empty());
            color::law_empty_is_no_color();
        }
        t
    }

    /// A copy.
    pub fn copy(&self) -> (r: StartupTab)
        ensures
            r@ == self@,
    {
        StartupTab {
            name: self.name.clone(),
            shell: self.shell.clone(),
            cwd: self.cwd.clone(),
            bg: self.bg.clone(),
            accent: self.accent.clone(),
            commands: text::copy_texts(&self.commands),
            commands_buf: self.commands_buf.clone(),
        }
    }

    /// Whether both colours can be read.
    pub fn colors_readable(&self) -> (r: bool)
        ensures
            r == self@.wf(),
    {
        color::color_readable(self.bg.as_str()) && color::color_readable(self.accent.as_str())
    }
}

/// The views of a list of tabs.
pub open spec fn tab_defs(v: Seq<StartupTab>) -> Seq<TabDef> {
    v.map_values(|t: StartupTab| t@)
}

/// Adding a tab adds its view.
pub proof fn lemma_tab_defs_push(v: Seq<StartupTab>, t: StartupTab)
    ensures
        tab_defs(v.push(t)) == tab_defs(v).push(t@),
{
    assert(tab_defs(v.push(t)) =~= tab_defs(v).push(t@));
}

/// The colours of every tab can be read.
pub open spec fn all_wf(tabs: Seq<TabDef>) -> bool {
    forall|i: int| 0 <= i < tabs.len() ==> (#[trigger] tabs[i]).wf()
}

/// What is saved.
#[derive(Debug)]
pub struct Settings {
    /// The short name of a shell: which shells there are differs from one
    /// machine to the next, so that a number would not do.
    pub default_shell: String,
    /// Where new tabs start, if that was ever saved; empty is where the program
    /// itself started.
    pub default_cwd: Option<String>,
    pub default_bg: String,
    pub default_accent: String,
    /// `left` or `right`.
    pub panel: String,
    pub startup_tabs: Vec<StartupTab>,
}

/// A `Settings` with its texts.
pub struct SettingsView {
    pub default_shell: Seq<char>,
    pub default_cwd: Option<Seq<char>>,
    pub default_bg: Seq<char>,
    pub default_accent: Seq<char>,
    pub panel: Seq<char>,
    pub startup_tabs: Seq<TabDef>,
}

impl View for Settings {
    type V = SettingsView;

    open spec fn view(&self) -> SettingsView {
        SettingsView {
            default_shell: self.default_shell@,
            default_cwd: text::text_of(self.default_cwd),
            default_bg: self.default_bg@,
            default_accent: self.default_accent@,
            panel: self.panel@,
            startup_tabs: tab_defs(self.startup_tabs@),
        }
    }
}

impl SettingsView {
    /// All colours can be read.
    pub open spec fn wf(self) -> bool {
        &&& !color::breaks_char(self.default_bg)
        &&& !color::breaks_char(self.default_accent)
        &&& all_wf(self.startup_tabs)
    }
}

impl Settings {
    /// Whether all colours can be read.
    pub fn colors_readable(&self) -> (r: bool)
        ensures
            r == self@.wf(),
    {
        if !color::color_readable(self.default_bg.as_str()) || !color::color_readable(
            self.default_accent.as_str(),
        ) {
            return false;
        }
        let mut i: usize = 0;
        while i < self.startup_tabs.len()
            invariant
                i <= self.startup_tabs@.len(),
                forall|j: int| 0 <= j < i ==> (#[trigger] tab_defs(self.startup_tabs@)[j]).wf(),
            decreases self.startup_tabs@.len() - i,
        {
            let fine: bool = self.startup_tabs[i].colors_readable();
            assert(tab_defs(self.startup_tabs@)[i as int] == self.startup_tabs@[i as int]@);
            if !fine {
                return false;
            }
            i = i + 1;
        }
        true
    }
}

/// The preferences of a running program.
#[derive(Debug)]
pub struct Prefs {
    /// The shell of new tabs, as its place among the shells.
    pub default_shell: usize,
    /// Where new tabs start; empty is where the program itself started.
    pub default_cwd: String,
    pub default_bg: Rgb,
    pub default_accent: Rgb,
    /// The tabs stand on the right.
    pub panel_right: bool,
    pub startup_tabs: Vec<StartupTab>,
}

/// A `Prefs` with its texts.
pub struct PrefsView {
    pub default_shell: int,
    pub default_cwd: Seq<char>,
    pub default_bg: Rgb,
    pub default_accent: Rgb,
    pub panel_right: bool,
    pub startup_tabs: Seq<TabDef>,
}

impl View for Prefs {
    type V = PrefsView;

    open spec fn view(&self) -> PrefsView {
        PrefsView {
            default_shell: self.default_shell as int,
            default_cwd: self.default_cwd@,
            default_bg: self.default_bg,
            default_accent: self.default_accent,
            panel_right: self.panel_right,
            startup_tabs: tab_defs(self.startup_tabs@),
        }
    }
}

// ---- shells by name ----

/// The first shell with the short name `short`.
pub open spec fn shell_index(shells: Seq<shells::ShellView>, short: Seq<char>) -> Option<int>
    decreases shells.len(),
{
    if shells.len() == 0 {
        None
    } else {
        match shell_index(shells.drop_last(), short) {
            Some(i) => Some(i),
            None => if shells.last().short == short {
                Some(shells.len() - 1)
            } else {
                None
            },
        }
    }
}

/// The first shell with the short name `short`.
pub fn find_shell(shells: &Vec<ShellSpec>, short: &str) -> (r: Option<usize>)
    ensures
        match r {
            Some(i) => shell_index(shells::shell_views(shells@), short@) == Some(i as int) && i
                < shells@.len() && shells@[i as int]@.short == short@,
            None => shell_index(shells::shell_views(shells@), short@) is None,
        },
{
    let ghost all = shells::shell_views(shells@);
    let mut i: usize = 0;
    while i < shells.len()
        invariant
            i <= shells@.len(),
            all == shells::shell_views(shells@),
            shell_index(all.take(i as int), short@) is None,
        decreases shells@.len() - i,
    {
        proof {
            assert(all.take(i + 1).drop_last() =~= all.take(i as int));
            assert(all.take(i + 1).last() == shells@[i as int]@);
        }
        if text::same_text(shells[i].short.as_str(), short) {
            proof {
                lemma_shell_index_stays(all, short@, i + 1);
            }
            return Some(i);
        }
        i = i + 1;
    }
    assert(all.take(all.len() as int) =~= all);
    None
}

/// A shell that was found among the first `n` stays found.
proof fn lemma_shell_index_stays(shells: Seq<shells::ShellView>, short: Seq<char>, n: int)
    requires
        0 <= n <= shells.len(),
        shell_index(shells.take(n), short) is Some,
    ensures
        shell_index(shells, short) == shell_index(shells.take(n), short),
    decreases shells.len(),
{
    if n < shells.len() {
        assert(shells.drop_last().take(n) =~= shells.take(n));
        lemma_shell_index_stays(shells.drop_last(), short, n);
    } else {
        assert(shells.take(n) =~= shells);
    }
}

/// A shell is found by its short name, where no earlier one has that name.
pub proof fn lemma_shell_index_first(shells: Seq<shells::ShellView>, i: int)
    requires
        0 <= i < shells.len(),
        forall|j: int| 0 <= j < i ==> (#[trigger] shells[j]).short != shells[i].short,
    ensures
        shell_index(shells, shells[i].short) == Some(i),
    decreases shells.len(),
{
    let short = shells[i].short;
    if i < shells.len() - 1 {
        lemma_shell_index_first(shells.drop_last(), i);
    } else {
        lemma_shell_index_none(shells.drop_last(), short);
    }
}

proof fn lemma_shell_index_none(shells: Seq<shells::ShellView>, short: Seq<char>)
    requires
        forall|j: int| 0 <= j < shells.len() ==> (#[trigger] shells[j]).short != short,
    ensures
        shell_index(shells, short) is None,
    decreases shells.len(),
{
    if shells.len() > 0 {
        lemma_shell_index_none(shells.drop_last(), short);
    }
}

// ---- command lines ----

/// Those of `lines` that are not blank, without white space round them.
pub open spec fn non_blank(lines: Seq<Seq<char>>) -> Seq<Seq<char>>
    decreases lines.len(),
{
    if lines.len() == 0 {
        Seq::empty()
    } else {
        let before = non_blank(lines.drop_last());
        let t = text::trimmed(lines.last());
        if t.len() == 0 {
            before
        } else {
            before.push(t)
        }
    }
}

/// The command lines of an edited text: one a line, blank lines left out.
pub open spec fn command_lines(buf: Seq<char>) -> Seq<Seq<char>> {
    non_blank(text::line_texts(buf))
}

/// The command lines of an edited text.
pub fn split_commands(buf: &str) -> (r: Vec<String>)
    ensures
        text::texts(r@) == command_lines(buf@),
{
    let lines: Vec<String> = text::lines(buf);
    let ghost all = text::line_texts(buf@);
    let mut out: Vec<String> = Vec::new();
    let mut i: usize = 0;
    assert(text::texts(out@) =~= non_blank(all.take(0)));
    while i < lines.len()
        invariant
            i <= lines@.len(),
            all == text::texts(lines@),
            text::texts(out@) == non_blank(all.take(i as int)),
        decreases lines@.len() - i,
    {
        let t: String = text::trim(lines[i].as_str());
        proof {
            assert(all.take(i + 1).drop_last() =~= all.take(i as int));
            assert(all.take(i + 1).last() == lines@[i as int]@);
            text::lemma_texts_push(out@, t);
        }
        if !t.as_str().is_empty() {
            out.push(t);
        }
        i = i + 1;
    }
    assert(all.take(all.len() as int) =~= all);
    out
}

// ---- loading ----

/// A loaded tab: its command lines become the text to edit.
pub open spec fn loaded_tab(t: TabDef) -> TabDef {
    TabDef { commands_buf: text::joined(t.commands, '\n'), ..t }
}

/// The preferences before anything was saved: the first shell, the home
/// directory and the standard theme.
pub open spec fn first_prefs(home: Seq<char>) -> PrefsView {
    PrefsView {
        default_shell: 0,
        default_cwd: home,
        default_bg: color::unpacked(color::DEFAULT_BG),
        default_accent: color::unpacked(color::ACCENT_GREEN),
        panel_right: false,
        startup_tabs: Seq::empty(),
    }
}

/// The preferences that saved settings make: what they leave out, or name
/// and is not there, stays as it is before anything is saved. An empty start
/// directory is not left out: it was chosen.
pub open spec fn loaded_prefs(
    shells: Seq<shells::ShellView>,
    home: Seq<char>,
    saved: Option<SettingsView>,
) -> PrefsView {
    let first = first_prefs(home);
    match saved {
        None => first,
        Some(cfg) => PrefsView {
            default_shell: match shell_index(shells, cfg.default_shell) {
                Some(i) => i,
                None => first.default_shell,
            },
            default_cwd: match cfg.default_cwd {
                Some(d) => d,
                None => first.default_cwd,
            },
            default_bg: color_or(cfg.default_bg, first.default_bg),
            default_accent: color_or(cfg.default_accent, first.default_accent),
            panel_right: cfg.panel == "right"@,
            startup_tabs: cfg.startup_tabs.map_values(|t: TabDef| loaded_tab(t)),
        },
    }
}

/// Makes the command lines of each tab the text to edit.
fn load_tabs(tabs: Vec<StartupTab>) -> (r: Vec<StartupTab>)
    ensures
        tab_defs(r@) == tab_defs(tabs@).map_values(|t: TabDef| loaded_tab(t)),
{
    let ghost all = tab_defs(tabs@).map_values(|t: TabDef| loaded_tab(t));
    let mut out: Vec<StartupTab> = Vec::new();
    let mut i: usize = 0;
    assert(tab_defs(out@) =~= all.take(0));
    while i < tabs.len()
        invariant
            i <= tabs@.len(),
            all == tab_defs(tabs@).map_values(|t: TabDef| loaded_tab(t)),
            tab_defs(out@) == all.take(i as int),
        decreases tabs@.len() - i,
    {
        let mut t: StartupTab = tabs[i].copy();
        t.commands_buf = text::join(&t.commands, '\n');
        proof {
            assert(t@ == all[i as int]);
            lemma_tab_defs_push(out@, t);
            assert(all.take(i + 1) =~= all.take(i as int).push(t@));
        }
        out.push(t);
        i = i + 1;
    }
    assert(all.take(all.len() as int) =~= all);
    out
}

/// The preferences at the start.
pub fn load_prefs(shells: &Vec<ShellSpec>, home: String, saved: Option<Settings>) -> (r: Prefs)
    requires
        saved matches Some(cfg) ==> cfg@.wf(),
    ensures
        r@ == loaded_prefs(
            shells::shell_views(shells@),
            home@,
            (match saved {
                Some(cfg) => Some(cfg@),
                None => None,
            }),
        ),
        shells@.len() > 0 ==> r.default_shell < shells@.len(),
        all_wf(r@.startup_tabs),
{
    let first_bg: Rgb = color::rgb(color::DEFAULT_BG);
    let first_accent: Rgb = color::rgb(color::ACCENT_GREEN);
    match saved {
        None => {
            let p: Prefs = Prefs {
                default_shell: 0,
                default_cwd: home,
                default_bg: first_bg,
                default_accent: first_accent,
                panel_right: false,
                startup_tabs: Vec::new(),
            };
            assert(p@.startup_tabs =~= Seq::<TabDef>::empty());
            p
        },
        Some(cfg) => {
            let default_shell: usize = match find_shell(shells, cfg.default_shell.as_str()) {
                Some(i) => i,
                None => 0,
            };
            let default_bg: Rgb = read_color(cfg.default_bg.as_str(), first_bg);
            let default_accent: Rgb = read_color(cfg.default_accent.as_str(), first_accent);
            let panel_right: bool = text::same_text(cfg.panel.as_str(), "right");
            let default_cwd: String = match cfg.default_cwd {
                Some(d) => d,
                None => home,
            };
            let ghost tabs = tab_defs(cfg.startup_tabs@);
            let p: Prefs = Prefs {
                default_shell,
                default_cwd,
                default_bg,
                default_accent,
                panel_right,
                startup_tabs: load_tabs(cfg.startup_tabs),
            };
            proof {
                assert forall|i: int| 0 <= i < p@.startup_tabs.len() implies (
                #[trigger] p@.startup_tabs[i]).wf() by {
                    assert(p@.startup_tabs[i] == loaded_tab(tabs[i]));
                    assert(tabs[i].wf());
                }
            }
            p
        },
    }
}

// ---- saving ----

/// A tab as it is saved: the edited text becomes its command lines.
pub open spec fn saved_tab(t: TabDef) -> TabDef {
    TabDef { commands: command_lines(t.commands_buf), ..t }
}

/// The settings that preferences make.
pub open spec fn saved_settings(p: PrefsView, shells: Seq<shells::ShellView>) -> SettingsView {
    SettingsView {
        default_shell: if p.default_shell < shells.len() {
            shells[p.default_shell].short
        } else {
            Seq::empty()
        },
        default_cwd: Some(p.default_cwd),
        default_bg: color::hex_text(p.default_bg),
        default_accent: color::hex_text(p.default_accent),
        panel: if p.panel_right {
            "right"@
        } else {
            "left"@
        },
        startup_tabs: p.startup_tabs.map_values(|t: TabDef| saved_tab(t)),
    }
}

/// The settings that preferences make.
pub fn save_settings(p: &Prefs, shells: &Vec<ShellSpec>) -> (r: Settings)
    ensures
        r@ == saved_settings(p@, shells::shell_views(shells@)),
{
    let ghost all = p@.startup_tabs.map_values(|t: TabDef| saved_tab(t));
    let mut tabs: Vec<StartupTab> = Vec::new();
    let mut i: usize = 0;
    assert(tab_defs(tabs@) =~= all.take(0));
    while i < p.startup_tabs.len()
        invariant
            i <= p.startup_tabs@.len(),
            all == tab_defs(p.startup_tabs@).map_values(|t: TabDef| saved_tab(t)),
            tab_defs(tabs@) == all.take(i as int),
        decreases p.startup_tabs@.len() - i,
    {
        let mut t: StartupTab = p.startup_tabs[i].copy();
        t.commands = split_commands(t.commands_buf.as_str());
        proof {
            assert(t@ == all[i as int]);
            lemma_tab_defs_push(tabs@, t);
            assert(all.take(i + 1) =~= all.take(i as int).push(t@));
        }
        tabs.push(t);
        i = i + 1;
    }
    assert(all.take(all.len() as int) =~= all);
    let default_shell: String = if p.default_shell < shells.len() {
        shells[p.default_shell].short.clone()
    } else {
        String::new()
    };
    let panel: String = if p.panel_right {
        "right".to_owned()
    } else {
        "left".to_owned()
    };
    Settings {
        default_shell,
        default_cwd: Some(p.default_cwd.clone()),
        default_bg: color::color_to_hex(p.default_bg),
        default_accent: color::color_to_hex(p.default_accent),
        panel,
        startup_tabs: tabs,
    }
}

// ---- the tabs of a start ----

/// How a tab is opened.
#[derive(Debug)]
pub struct TabPlan {
    /// The shell, as its place among the shells.
    pub shell: usize,
    pub title: String,
    pub cwd: String,
    pub bg: Rgb,
    pub accent: Rgb,
    /// Command lines for the shell.
    pub commands: Vec<String>,
}

/// A `TabPlan` with its texts.
pub struct PlanView {
    pub shell: int,
    pub title: Seq<char>,
    pub cwd: Seq<char>,
    pub bg: Rgb,
    pub accent: Rgb,
    pub commands: Seq<Seq<char>>,
}

impl View for TabPlan {
    type V = PlanView;

    open spec fn view(&self) -> PlanView {
        PlanView {
            shell: self.shell as int,
            title: self.title@,
            cwd: self.cwd@,
            bg: self.bg,
            accent: self.accent,
            commands: text::texts(self.commands@),
        }
    }
}

/// The views of a list of plans.
pub open spec fn plan_views(v: Seq<TabPlan>) -> Seq<PlanView> {
    v.map_values(|p: TabPlan| p@)
}

/// The title of a tab that was given none: the shell's short name and a
/// number.
pub open spec fn numbered_title(short: Seq<char>, n: nat) -> Seq<char> {
    short + " "@ + text::decimal(n)
}

/// The title of a tab that was given none.
pub fn numbered(short: &str, n: u64) -> (r: String)
    ensures
        r@ == numbered_title(short@, n as nat),
{
    let mut s: String = short.to_owned();
    s.append(" ");
    s.append(text::to_decimal(n).as_str());
    s
}

/// How the tab `t` is opened as tab number `n`, counting from zero.
pub open spec fn tab_plan(p: PrefsView, shells: Seq<shells::ShellView>, t: TabDef, n: int) -> PlanView {
    let shell = match shell_index(shells, t.shell) {
        Some(i) => i,
        None => p.default_shell,
    };
    PlanView {
        shell,
        title: if t.name.len() == 0 {
            numbered_title(shells[shell].short, (n + 1) as nat)
        } else {
            t.name
        },
        cwd: if t.cwd.len() == 0 {
            p.default_cwd
        } else {
            t.cwd
        },
        bg: t.bg_or(p.default_bg),
        accent: t.accent_or(p.default_accent),
        commands: t.commands,
    }
}

/// The tab that opens where no other is asked for: the default shell.
pub open spec fn lone_plan(p: PrefsView, shells: Seq<shells::ShellView>) -> PlanView {
    PlanView {
        shell: p.default_shell,
        title: numbered_title(shells[p.default_shell].short, 1),
        cwd: p.default_cwd,
        bg: p.default_bg,
        accent: p.default_accent,
        commands: Seq::empty(),
    }
}

/// The tabs that a start opens.
pub open spec fn start_plans(p: PrefsView, shells: Seq<shells::ShellView>) -> Seq<PlanView> {
    if p.startup_tabs.len() == 0 {
        seq![lone_plan(p, shells)]
    } else {
        Seq::new(
            p.startup_tabs.len(),
            |i: int| tab_plan(p, shells, p.startup_tabs[i], i),
        )
    }
}

/// How the tab `t` is opened as tab number `n`.
fn plan_tab(p: &Prefs, shells: &Vec<ShellSpec>, t: &StartupTab, n: usize) -> (r: TabPlan)
    requires
        p.default_shell < shells@.len(),
        t@.wf(),
        n < usize::MAX,
    ensures
        r@ == tab_plan(p@, shells::shell_views(shells@), t@, n as int),
        r.shell < shells@.len(),
{
    let shell: usize = match find_shell(shells, t.shell.as_str()) {
        Some(i) => i,
        None => p.default_shell,
    };
    assert(shells::shell_views(shells@)[shell as int] == shells@[shell as int]@);
    let title: String = if t.name.as_str().is_empty() {
        numbered(shells[shell].short.as_str(), (n + 1) as u64)
    } else {
        t.name.clone()
    };
    let cwd: String = if t.cwd.as_str().is_empty() {
        p.default_cwd.clone()
    } else {
        t.cwd.clone()
    };
    TabPlan {
        shell,
        title,
        cwd,
        bg: read_color(t.bg.as_str(), p.default_bg),
        accent: read_color(t.accent.as_str(), p.default_accent),
        commands: text::copy_texts(&t.commands),
    }
}

/// The tabs that a start opens.
pub fn startup_plans(p: &Prefs, shells: &Vec<ShellSpec>) -> (r: Vec<TabPlan>)
    requires
        p.default_shell < shells@.len(),
        all_wf(p@.startup_tabs),
    ensures
        plan_views(r@) == start_plans(p@, shells::shell_views(shells@)),
        forall|i: int| 0 <= i < r@.len() ==> (#[trigger] r@[i]).shell < shells@.len(),
        r@.len() > 0,
{
    let ghost views = shells::shell_views(shells@);
    let ghost all = start_plans(p@, views);
    let mut out: Vec<TabPlan> = Vec::new();
    if p.startup_tabs.len() == 0 {
        let one: TabPlan = TabPlan {
            shell: p.default_shell,
            title: numbered(shells[p.default_shell].short.as_str(), 1),
            cwd: p.default_cwd.clone(),
            bg: p.default_bg,
            accent: p.default_accent,
            commands: Vec::new(),
        };
        proof {
            assert(views[p.default_shell as int] == shells@[p.default_shell as int]@);
            assert(text::texts(one.commands@) =~= Seq::<Seq<char>>::empty());
            assert(plan_views(out@.push(one)) =~= all);
        }
        out.push(one);
        return out;
    }
    let mut i: usize = 0;
    assert(plan_views(out@) =~= all.take(0));
    while i < p.startup_tabs.len()
        invariant
            i <= p.startup_tabs@.len(),
            p.startup_tabs@.len() > 0,
            p.default_shell < shells@.len(),
            all_wf(p@.startup_tabs),
            views == shells::shell_views(shells@),
            all == start_plans(p@, views),
            all.len() == p.startup_tabs@.len(),
            plan_views(out@) == all.take(i as int),
            out@.len() == i,
            forall|j: int| 0 <= j < out@.len() ==> (#[trigger] out@[j]).shell < shells@.len(),
        decreases p.startup_tabs@.len() - i,
    {
        let t: &StartupTab = &p.startup_tabs[i];
        assert(p@.startup_tabs[i as int] == t@);
        let plan: TabPlan = plan_tab(p, shells, t, i);
        proof {
            assert(plan@ == all[i as int]);
            assert(plan_views(out@.push(plan)) =~= plan_views(out@).push(plan@));
            assert(all.take(i + 1) =~= all.take(i as int).push(plan@));
        }
        out.push(plan);
        i = i + 1;
    }
    assert(all.take(all.len() as int) =~= all);
    out
}

// ---- laws ----

/// A command line as it is kept: one line, not blank, without white space
/// round it.
pub open spec fn is_command(c: Seq<char>) -> bool {
    c.len() > 0 && !c.contains('\n') && text::trimmed(c) == c
}

/// The command lines of a text are command lines.
pub proof fn law_commands_are_commands(buf: Seq<char>, i: int)
    requires
        0 <= i < command_lines(buf).len(),
    ensures
        is_command(command_lines(buf)[i]),
{
    text::lemma_lines_have_no_feed(buf);
    lemma_non_blank_commands(text::line_texts(buf), i);
}

proof fn lemma_non_blank_commands(lines: Seq<Seq<char>>, i: int)
    requires
        0 <= i < non_blank(lines).len(),
        forall|k: int| 0 <= k < lines.len() ==> !(#[trigger] lines[k]).contains('\n'),
    ensures
        is_command(non_blank(lines)[i]),
    decreases lines.len(),
{
    let before = non_blank(lines.drop_last());
    if i < before.len() {
        assert forall|k: int| 0 <= k < lines.drop_last().len() implies !(
        #[trigger] lines.drop_last()[k]).contains('\n') by {
            assert(lines.drop_last()[k] == lines[k]);
        }
        lemma_non_blank_commands(lines.drop_last(), i);
    } else {
        assert(!lines[lines.len() - 1].contains('\n'));
        text::lemma_trimmed(lines.last());
    }
}

/// Command lines survive being edited as one text: joined and split again
/// they are the same.
pub proof fn law_commands_round_trip(cmds: Seq<Seq<char>>)
    requires
        forall|i: int| 0 <= i < cmds.len() ==> is_command(#[trigger] cmds[i]),
    ensures
        command_lines(text::joined(cmds, '\n')) == cmds,
{
    let s = text::joined(cmds, '\n');
    if cmds.len() == 0 {
        assert(text::pieces(s, '\n') =~= seq![Seq::<char>::empty()]);
        assert(text::line_texts(s) =~= Seq::<Seq<char>>::empty());
        assert(command_lines(s) =~= cmds);
    } else {
        text::lemma_pieces_of_joined(cmds, '\n');
        let ended = cmds.drop_last().map_values(|l: Seq<char>| text::without_cr(l));
        assert forall|i: int| 0 <= i < ended.len() implies ended[i] == cmds[i] by {
            assert(is_command(cmds[i]));
            text::lemma_trimmed(cmds[i]);
        }
        assert(is_command(cmds[cmds.len() - 1]));
        assert(ended.push(cmds.last()) =~= cmds);
        assert(text::line_texts(s) =~= cmds);
        lemma_non_blank_keeps(cmds);
    }
}

proof fn lemma_non_blank_keeps(cmds: Seq<Seq<char>>)
    requires
        forall|i: int| 0 <= i < cmds.len() ==> is_command(#[trigger] cmds[i]),
    ensures
        non_blank(cmds) == cmds,
    decreases cmds.len(),
{
    if cmds.len() > 0 {
        assert forall|i: int| 0 <= i < cmds.drop_last().len() implies is_command(
            #[trigger] cmds.drop_last()[i],
        ) by {
            assert(cmds.drop_last()[i] == cmds[i]);
        }
        lemma_non_blank_keeps(cmds.drop_last());
        assert(is_command(cmds[cmds.len() - 1]));
        assert(cmds.drop_last().push(cmds.last()) =~= cmds);
    }
}

/// A tab as it is after it was saved and loaded: its text to edit is its
/// command lines, blank lines and stray white space gone.
pub open spec fn tidy_tab(t: TabDef) -> TabDef {
    TabDef {
        commands: command_lines(t.commands_buf),
        commands_buf: text::joined(command_lines(t.commands_buf), '\n'),
        ..t
    }
}

/// Saving and loading again gives the preferences back, where the shells are
/// the same and no earlier one bears the name of the default shell; only the
/// texts of command lines are tidied.
pub proof fn law_save_then_load(p: PrefsView, shells: Seq<shells::ShellView>, home: Seq<char>)
    requires
        0 <= p.default_shell < shells.len(),
        forall|i: int|
            0 <= i < p.default_shell ==> (#[trigger] shells[i]).short
                != shells[p.default_shell].short,
    ensures
        loaded_prefs(shells, home, Some(saved_settings(p, shells))) == (PrefsView {
            startup_tabs: p.startup_tabs.map_values(|t: TabDef| tidy_tab(t)),
            ..p
        }),
{
    let cfg = saved_settings(p, shells);
    let back = loaded_prefs(shells, home, Some(cfg));
    lemma_shell_index_first(shells, p.default_shell);
    color::law_hex_round_trip(p.default_bg);
    color::law_hex_round_trip(p.default_accent);
    reveal_strlit("left");
    reveal_strlit("right");
    assert("left"@.len() != "right"@.len());
    assert(back.startup_tabs =~= p.startup_tabs.map_values(|t: TabDef| tidy_tab(t)));
}

/// The next start opens what the cards say: saving and loading does not change
/// the tabs, and the lines that were typed on a card are the commands its tab
/// gets.
pub proof fn law_next_start(p: PrefsView, shells: Seq<shells::ShellView>, home: Seq<char>)
    requires
        0 <= p.default_shell < shells.len(),
        forall|i: int|
            0 <= i < p.default_shell ==> (#[trigger] shells[i]).short
                != shells[p.default_shell].short,
    ensures
        start_plans(loaded_prefs(shells, home, Some(saved_settings(p, shells))), shells)
            == start_plans(
            PrefsView { startup_tabs: p.startup_tabs.map_values(|t: TabDef| saved_tab(t)), ..p },
            shells,
        ),
        forall|k: int|
            0 <= k < p.startup_tabs.len() ==> (#[trigger] start_plans(
                loaded_prefs(shells, home, Some(saved_settings(p, shells))),
                shells,
            )[k]).commands == command_lines(p.startup_tabs[k].commands_buf),
{
    law_save_then_load(p, shells, home);
    let back = loaded_prefs(shells, home, Some(saved_settings(p, shells)));
    let kept = PrefsView {
        startup_tabs: p.startup_tabs.map_values(|t: TabDef| saved_tab(t)),
        ..p
    };
    let a = start_plans(back, shells);
    let b = start_plans(kept, shells);
    assert forall|k: int| 0 <= k < p.startup_tabs.len() implies #[trigger] a[k] == b[k]
        && a[k].commands == command_lines(p.startup_tabs[k].commands_buf) by {
        assert(back.startup_tabs[k] == tidy_tab(p.startup_tabs[k]));
        assert(kept.startup_tabs[k] == saved_tab(p.startup_tabs[k]));
    }
    assert(a =~= b);
}

/// Tabs of one shell under different numbers have different titles.
pub proof fn law_numbers_tell_apart(short: Seq<char>, m: nat, n: nat)
    requires
        m != n,
    ensures
        numbered_title(short, m) != numbered_title(short, n),
{
    if numbered_title(short, m) == numbered_title(short, n) {
        let front = short + " "@;
        assert(text::decimal(m) =~= numbered_title(short, m).skip(front.len() as int));
        assert(text::decimal(n) =~= numbered_title(short, n).skip(front.len() as int));
        text::law_decimal_tells_apart(m, n);
    }
}

/// The default shell is saved by its name: on a machine with other shells it
/// is found again wherever it stands among them, and where it is missing the
/// first shell takes its place.
pub proof fn law_shell_found_by_name(
    p: PrefsView,
    here: Seq<shells::ShellView>,
    there: Seq<shells::ShellView>,
    home: Seq<char>,
)
    requires
        0 <= p.default_shell < here.len(),
        there.len() > 0,
    ensures
        ({
            let name = here[p.default_shell].short;
            let back = loaded_prefs(there, home, Some(saved_settings(p, here))).default_shell;
            &&& 0 <= back < there.len()
            &&& (exists|i: int| 0 <= i < there.len() && (#[trigger] there[i]).short == name)
                ==> there[back].short == name
            &&& !(exists|i: int| 0 <= i < there.len() && (#[trigger] there[i]).short == name)
                ==> back == 0
        }),
{
    lemma_shell_index_sound(there, here[p.default_shell].short);
}

/// A shell that is found has the name, and where none is found none has it.
pub proof fn lemma_shell_index_sound(shells: Seq<shells::ShellView>, short: Seq<char>)
    ensures
        match shell_index(shells, short) {
            Some(i) => 0 <= i < shells.len() && shells[i].short == short,
            None => forall|i: int| 0 <= i < shells.len() ==> (#[trigger] shells[i]).short != short,
        },
    decreases shells.len(),
{
    if shells.len() > 0 {
        lemma_shell_index_sound(shells.drop_last(), short);
        if shell_index(shells, short) is None {
            assert forall|i: int| 0 <= i < shells.len() implies (#[trigger] shells[i]).short
                != short by {
                if i < shells.len() - 1 {
                    assert(shells.drop_last()[i] == shells[i]);
                }
            }
        }
    }
}

/// Saving what was just loaded changes nothing any more: the second time
/// round the command lines are tidy already.
pub proof fn law_tidy_once(t: TabDef)
    ensures
        tidy_tab(tidy_tab(t)) == tidy_tab(t),
{
    let cmds = command_lines(t.commands_buf);
    assert forall|i: int| 0 <= i < cmds.len() implies is_command(#[trigger] cmds[i]) by {
        law_commands_are_commands(t.commands_buf, i);
    }
    law_commands_round_trip(cmds);
}

/// Settings that are written can be read: every colour in them is a colour,
/// if those of the tabs could be read before.
pub proof fn law_saved_settings_are_readable(p: PrefsView, shells: Seq<shells::ShellView>)
    requires
        all_wf(p.startup_tabs),
    ensures
        saved_settings(p, shells).wf(),
        color::parsed_color(saved_settings(p, shells).default_bg) == Some(p.default_bg),
        color::parsed_color(saved_settings(p, shells).default_accent) == Some(p.default_accent),
{
    color::law_hex_round_trip(p.default_bg);
    color::law_hex_round_trip(p.default_accent);
    let tabs = saved_settings(p, shells).startup_tabs;
    assert forall|i: int| 0 <= i < tabs.len() implies (#[trigger] tabs[i]).wf() by {
        assert(tabs[i] == saved_tab(p.startup_tabs[i]));
        assert(p.startup_tabs[i].wf());
    }
}

/// A tab with nothing but defaults opens as the default shell in the default
/// directory with the default theme.
pub proof fn law_empty_tab_takes_defaults(
    p: PrefsView,
    shells: Seq<shells::ShellView>,
    t: TabDef,
    n: int,
)
    requires
        0 <= p.default_shell < shells.len(),
        forall|i: int| 0 <= i < shells.len() ==> (#[trigger] shells[i]).short.len() > 0,
        t.name.len() == 0,
        t.shell.len() == 0,
        t.cwd.len() == 0,
        t.bg.len() == 0,
        t.accent.len() == 0,
    ensures
        ({
            let plan = tab_plan(p, shells, t, n);
            &&& plan.shell == p.default_shell
            &&& plan.cwd == p.default_cwd
            &&& plan.bg == p.default_bg
            &&& plan.accent == p.default_accent
            &&& plan.title == numbered_title(shells[p.default_shell].short, (n + 1) as nat)
        }),
{
    lemma_shell_index_none(shells, t.shell);
    assert(t.bg =~= Seq::<char>::empty());
    assert(t.accent =~= Seq::<char>::empty());
    color::law_empty_is_no_color();
}

/// What a text of commands is split into: a line gives its command without the
/// white space round it, or none where it is blank, and then come those of the
/// lines behind it.
pub proof fn law_commands_by_line(line: Seq<char>, rest: Seq<char>)
    requires
        !line.contains('\n'),
        line.len() == 0 || line.last() != '\r',
    ensures
        ({
            let own = if text::trimmed(line).len() == 0 {
                Seq::<Seq<char>>::empty()
            } else {
                seq![text::trimmed(line)]
            };
            &&& command_lines(line) == own
            &&& command_lines(line + seq!['\n'] + rest) == own + command_lines(rest)
            &&& command_lines(line + seq!['\r', '\n'] + rest) == own + command_lines(rest)
        }),
{
    text::law_lines(line, rest);
    let own = if text::trimmed(line).len() == 0 {
        Seq::<Seq<char>>::empty()
    } else {
        seq![text::trimmed(line)]
    };
    reveal_with_fuel(non_blank, 2);
    assert(seq![line].drop_last() =~= Seq::<Seq<char>>::empty());
    assert(non_blank(seq![line]) =~= own);
    if line.len() == 0 {
        assert(text::trimmed(line).len() == 0);
    }
    lemma_non_blank_joins(seq![line], text::line_texts(rest));
}

proof fn lemma_non_blank_joins(a: Seq<Seq<char>>, b: Seq<Seq<char>>)
    ensures
        non_blank(a + b) == non_blank(a) + non_blank(b),
    decreases b.len(),
{
    if b.len() == 0 {
        assert(a + b =~= a);
        assert(non_blank(a) + non_blank(b) =~= non_blank(a));
    } else {
        lemma_non_blank_joins(a, b.drop_last());
        assert((a + b).drop_last() =~= a + b.drop_last());
        assert((a + b).last() == b.last());
        assert(non_blank(a + b) =~= non_blank(a) + non_blank(b));
    }
}

/// A text that writes a colour is that colour, and any other stands for the
/// default.
pub proof fn law_color_or_default(s: Seq<char>, c: Rgb, other: Rgb, t: TabDef)
    ensures
        color::parsed_color(s) == Some(c) ==> color_or(s, other) == c,
        color::parsed_color(s) is None ==> color_or(s, other) == other,
        t.bg == s ==> t.bg_or(other) == color_or(s, other),
        t.accent == s ==> t.accent_or(other) == color_or(s, other),
        t.wf() <==> !color::breaks_char(t.bg) && !color::breaks_char(t.accent),
{
}

/// Without settings a start has the first shell, the home directory, a nearly
/// black background, a green accent, the tabs on the left, and no startup
/// tabs.
pub proof fn law_first_start(shells: Seq<shells::ShellView>, home: Seq<char>)
    ensures
        ({
            let p = loaded_prefs(shells, home, None);
            &&& p.default_shell == 0
            &&& p.default_cwd == home
            &&& p.default_bg == (Rgb { r: 0x0C, g: 0x0C, b: 0x0C })
            &&& p.default_accent == (Rgb { r: 0x19, g: 0xC3, b: 0x7D })
            &&& !p.panel_right
            &&& p.startup_tabs.len() == 0
        }),
{
}

/// What settings name is taken over, each for what it is; the commands of a
/// startup tab become a text with one to a line.
pub proof fn law_settings_are_taken(
    shells: Seq<shells::ShellView>,
    home: Seq<char>,
    cfg: SettingsView,
    k: int,
)
    ensures
        ({
            let p = loaded_prefs(shells, home, Some(cfg));
            &&& shell_index(shells, cfg.default_shell) matches Some(i) ==> p.default_shell == i
            &&& shell_index(shells, cfg.default_shell) is None ==> p.default_shell == 0
            &&& cfg.default_cwd matches Some(d) ==> p.default_cwd == d
            &&& cfg.default_cwd is None ==> p.default_cwd == home
            &&& color::parsed_color(cfg.default_bg) matches Some(c) ==> p.default_bg == c
            &&& color::parsed_color(cfg.default_bg) is None ==> p.default_bg == (Rgb {
                r: 0x0C,
                g: 0x0C,
                b: 0x0C,
            })
            &&& color::parsed_color(cfg.default_accent) matches Some(c) ==> p.default_accent == c
            &&& color::parsed_color(cfg.default_accent) is None ==> p.default_accent == (Rgb {
                r: 0x19,
                g: 0xC3,
                b: 0x7D,
            })
            &&& p.panel_right <==> cfg.panel == "right"@
            &&& p.startup_tabs.len() == cfg.startup_tabs.len()
            &&& 0 <= k < cfg.startup_tabs.len() ==> {
                let t = p.startup_tabs[k];
                let saved = cfg.startup_tabs[k];
                &&& t.name == saved.name
                &&& t.shell == saved.shell
                &&& t.cwd == saved.cwd
                &&& t.bg == saved.bg
                &&& t.accent == saved.accent
                &&& t.commands == saved.commands
                &&& t.commands_buf == text::joined(saved.commands, '\n')
            }
        }),
{
}

/// What is saved: the name of the default shell, the directory, the colours as
/// `#RRGGBB`, the side of the tabs as a word, and the startup tabs with the
/// lines of their texts as commands.
pub proof fn law_settings_are_written(p: PrefsView, shells: Seq<shells::ShellView>, k: int)
    requires
        0 <= p.default_shell,
    ensures
        ({
            let s = saved_settings(p, shells);
            &&& p.default_shell < shells.len() ==> s.default_shell == shells[p.default_shell].short
            &&& p.default_shell >= shells.len() ==> s.default_shell.len() == 0
            &&& s.default_cwd == Some(p.default_cwd)
            &&& color::parsed_color(s.default_bg) == Some(p.default_bg)
            &&& color::parsed_color(s.default_accent) == Some(p.default_accent)
            &&& s.default_bg == color::hex_text(p.default_bg)
            &&& s.default_accent == color::hex_text(p.default_accent)
            &&& p.panel_right ==> s.panel == "right"@
            &&& !p.panel_right ==> s.panel == "left"@
            &&& s.startup_tabs.len() == p.startup_tabs.len()
            &&& 0 <= k < p.startup_tabs.len() ==> {
                let t = s.startup_tabs[k];
                let card = p.startup_tabs[k];
                &&& t.name == card.name
                &&& t.shell == card.shell
                &&& t.cwd == card.cwd
                &&& t.bg == card.bg
                &&& t.accent == card.accent
                &&& t.commands == command_lines(card.commands_buf)
            }
        }),
{
    color::law_hex_round_trip(p.default_bg);
    color::law_hex_round_trip(p.default_accent);
}

/// A startup tab opens with what it names, and with the default for each thing
/// it leaves empty; without a name it is called by its shell and its number,
/// counting from one.
pub proof fn law_tab_opens(p: PrefsView, shells: Seq<shells::ShellView>, t: TabDef, n: int)
    requires
        0 <= n,
    ensures
        ({
            let plan = tab_plan(p, shells, t, n);
            &&& shell_index(shells, t.shell) matches Some(i) ==> plan.shell == i
            &&& shell_index(shells, t.shell) is None ==> plan.shell == p.default_shell
            &&& t.name.len() > 0 ==> plan.title == t.name
            &&& t.name.len() == 0 ==> plan.title == shells[plan.shell].short + seq![' ']
                + text::decimal((n + 1) as nat)
            &&& t.cwd.len() > 0 ==> plan.cwd == t.cwd
            &&& t.cwd.len() == 0 ==> plan.cwd == p.default_cwd
            &&& color::parsed_color(t.bg) matches Some(c) ==> plan.bg == c
            &&& color::parsed_color(t.bg) is None ==> plan.bg == p.default_bg
            &&& color::parsed_color(t.accent) matches Some(c) ==> plan.accent == c
            &&& color::parsed_color(t.accent) is None ==> plan.accent == p.default_accent
            &&& plan.commands == t.commands
        }),
{
    reveal_strlit(" ");
    assert(" "@ =~= seq![' ']);
}

/// A start opens the startup tabs in their order, or one tab with the default
/// shell, directory and theme where there are none.
pub proof fn law_start_opens(p: PrefsView, shells: Seq<shells::ShellView>, k: int)
    ensures
        p.startup_tabs.len() > 0 ==> start_plans(p, shells).len() == p.startup_tabs.len(),
        0 <= k < p.startup_tabs.len() ==> start_plans(p, shells)[k] == tab_plan(
            p,
            shells,
            p.startup_tabs[k],
            k,
        ),
        p.startup_tabs.len() == 0 ==> {
            let plans = start_plans(p, shells);
            &&& plans.len() == 1
            &&& plans[0].shell == p.default_shell
            &&& plans[0].title == shells[p.default_shell].short + seq![' ', '1']
            &&& plans[0].cwd == p.default_cwd
            &&& plans[0].bg == p.default_bg
            &&& plans[0].accent == p.default_accent
            &&& plans[0].commands.len() == 0
        },
{
    reveal_strlit(" ");
    text::law_decimal(0, 1);
    if p.startup_tabs.len() == 0 {
        assert(start_plans(p, shells)[0].title =~= shells[p.default_shell].short + seq![' ', '1']);
    }
}

/// An empty card leaves everything to the defaults.
pub proof fn law_empty_card()
    ensures
        ({
            let t = empty_def();
            t.name.len() == 0 && t.shell.len() == 0 && t.cwd.len() == 0 && t.bg.len() == 0
                && t.accent.len() == 0 && t.commands.len() == 0 && t.commands_buf.len() == 0
        }),
{
}

/// A shell is found by its own name where no earlier one bears it, the found
/// one bears the name, and a name that none bears is not found.
pub proof fn law_shell_by_name(all: Seq<shells::ShellView>, short: Seq<char>, i: int)
    requires
        0 <= i < all.len(),
        forall|j: int| 0 <= j < i ==> (#[trigger] all[j]).short != all[i].short,
    ensures
        shell_index(all, all[i].short) == Some(i),
        shell_index(all, short) matches Some(k) ==> 0 <= k < all.len() && all[k].short == short,
        shell_index(all, short) is None ==> forall|k: int|
            0 <= k < all.len() ==> (#[trigger] all[k]).short != short,
{
    lemma_shell_index_first(all, i);
    lemma_shell_index_sound(all, short);
}

/// Tabs, settings, preferences and plans are viewed field by field.
pub proof fn law_settings_views(tabs: Seq<StartupTab>, i: int, s: Settings, p: Prefs, plan: TabPlan)
    requires
        0 <= i < tabs.len(),
    ensures
        tab_defs(tabs).len() == tabs.len(),
        ({
            let t = tab_defs(tabs)[i];
            &&& t.name == tabs[i].name@
            &&& t.shell == tabs[i].shell@
            &&& t.cwd == tabs[i].cwd@
            &&& t.bg == tabs[i].bg@
            &&& t.accent == tabs[i].accent@
            &&& t.commands == text::texts(tabs[i].commands@)
            &&& t.commands_buf == tabs[i].commands_buf@
        }),
        s@.default_shell == s.default_shell@ && s@.default_cwd == text::text_of(s.default_cwd),
        s@.default_bg == s.default_bg@ && s@.default_accent == s.default_accent@,
        s@.panel == s.panel@ && s@.startup_tabs == tab_defs(s.startup_tabs@),
        p@.default_shell == p.default_shell && p@.default_cwd == p.default_cwd@,
        p@.default_bg == p.default_bg && p@.default_accent == p.default_accent,
        p@.panel_right == p.panel_right && p@.startup_tabs == tab_defs(p.startup_tabs@),
        plan@.shell == plan.shell && plan@.title == plan.title@ && plan@.cwd == plan.cwd@,
        plan@.bg == plan.bg && plan@.accent == plan.accent,
        plan@.commands == text::texts(plan.commands@),
        plan_views(seq![plan])[0] == plan@ && plan_views(seq![plan]).len() == 1,
{
}

/// Settings can be read where each of their colours can.
pub proof fn law_settings_readable(s: SettingsView, i: int)
    ensures
        s.wf() ==> !color::breaks_char(s.default_bg) && !color::breaks_char(s.default_accent),
        s.wf() && 0 <= i < s.startup_tabs.len() ==> s.startup_tabs[i].wf(),
        !color::breaks_char(s.default_bg) && !color::breaks_char(s.default_accent) && (forall|k: int|
            0 <= k < s.startup_tabs.len() ==> (#[trigger] s.startup_tabs[k]).wf()) ==> s.wf(),
{
}

} // verus!
