//! The state of the running program: its tabs and its settings page, and
//! what the pointer and the keyboard do to them.
use vstd::prelude::*;

use crate::color;
use crate::color::Rgb;
use crate::input;
use crate::input::{InputAct, InputEvent};
use crate::order;
use crate::screen::TermSize;
use crate::settings;
use crate::settings::{Prefs, StartupTab, TabPlan};
use crate::shells;
use crate::shells::ShellSpec;
use crate::text;

verus! {

// ---- tabs ----

/// An open tab. `H` is whatever drives its shell.
#[derive(Debug)]
pub struct Session<H> {
    pub handle: H,
    pub size: TermSize,
    pub title: String,
    pub bg: Rgb,
    pub accent: Rgb,
    /// The short name of the shell.
    pub shell_short: String,
    /// Where the shell started; empty is where the program itself did.
    pub cwd: String,
}

/// What is started for a tab.
#[derive(Debug)]
pub struct Launch {
    pub program: String,
    pub args: Vec<String>,
    /// The directory to start in, where it is not that of the program.
    pub cwd: Option<String>,
}

/// What is started for a tab with the given shell and directory.
pub fn launch(shell: &ShellSpec, cwd: &str) -> (r: Launch)
    ensures
        r.program@ == shell@.program,
        text::texts(r.args@) == shell@.args,
        text::text_of(r.cwd) == (if cwd@.len() == 0 {
            None
        } else {
            Some(cwd@)
        }),
{
    Launch {
        program: shell.program.clone(),
        args: text::copy_texts(&shell.args),
        cwd: if cwd.is_empty() {
            None
        } else {
            Some(cwd.to_owned())
        },
    }
}

/// The definition of a startup tab like the session: its commands are not
/// known, so it has none.
pub open spec fn session_def<H>(s: Session<H>) -> settings::TabDef {
    settings::TabDef {
        name: s.title@,
        shell: s.shell_short@,
        cwd: s.cwd@,
        bg: color::hex_text(s.bg),
        accent: color::hex_text(s.accent),
        commands: Seq::empty(),
        commands_buf: Seq::empty(),
    }
}

/// The definition of a startup tab like the session.
pub fn startup_tab_of<H>(s: &Session<H>) -> (r: StartupTab)
    ensures
        r@ == session_def(*s),
        r@.wf(),
{
    let t: StartupTab = StartupTab {
        name: s.title.clone(),
        shell: s.shell_short.clone(),
        cwd: s.cwd.clone(),
        bg: color::color_to_hex(s.bg),
        accent: color::color_to_hex(s.accent),
        commands: Vec::new(),
        commands_buf: String::new(),
    };
    proof {
        assert(text::texts(t.commands@) =~= Seq::<Seq<char>>::empty());
        color::law_hex_round_trip(s.bg);
        color::law_hex_round_trip(s.accent);
    }
    t
}

impl<H> Session<H> {
    /// The tab that was planned, driven by `handle`.
    pub fn open(plan: TabPlan, shell: &ShellSpec, handle: H) -> (r: Session<H>)
        ensures
            r.handle == handle,
            r.size == (TermSize { cols: 80, rows: 24 }),
            r.title == plan.title,
            r.bg == plan.bg,
            r.accent == plan.accent,
            r.shell_short@ == shell@.short,
            r.cwd == plan.cwd,
    {
        Session {
            handle,
            size: TermSize::initial(),
            title: plan.title,
            bg: plan.bg,
            accent: plan.accent,
            shell_short: shell.short.clone(),
            cwd: plan.cwd,
        }
    }

    /// Gives the tab the standard colours.
    pub fn reset_colors(&mut self)
        ensures
            *final(self) == (Session {
                bg: color::unpacked(color::DEFAULT_BG),
                accent: color::unpacked(color::ACCENT_GREEN),
                ..*old(self)
            }),
    {
        self.bg = color::rgb(color::DEFAULT_BG);
        self.accent = color::rgb(color::ACCENT_GREEN);
    }
}

/// A page of the settings.
#[derive(Clone, Copy, Debug, PartialEq, Eq, Structural)]
pub enum SettingsTab {
    General,
    Theme,
    Startup,
}

/// What the pointer did to a tab.
#[derive(Clone, Copy, Debug, PartialEq, Eq, Structural)]
pub struct TabGesture {
    pub drag_started: bool,
    /// It is known where the pointer is.
    pub pointer_known: bool,
    pub double_clicked: bool,
    pub clicked: bool,
}

/// What a tab asks for: that it be closed, and that it be put among the
/// startup tabs. While it is dragged it asks for neither.
pub fn tab_answer(dragging: bool, closable: bool, close_clicked: bool, add_clicked: bool) -> (r: (
    bool,
    bool,
))
    ensures
        r.0 == (!dragging && closable && close_clicked),
        r.1 == (!dragging && add_clicked),
{
    (!dragging && closable && close_clicked, !dragging && add_clicked)
}

/// What a frame's input does to a tab.
#[derive(Debug)]
pub struct FrameInput {
    /// The tab that gets the input.
    pub target: usize,
    /// What to do, in order.
    pub acts: Vec<InputAct>,
    /// The tab's selection is over.
    pub clear_selection: bool,
    /// How many lines the tab's display is scrolled back afterwards.
    pub offset: usize,
}

/// How many lines a display is scrolled back after `acts`: sending anything
/// takes it back to the bottom.
pub open spec fn offset_after(acts: Seq<input::ActView>, offset: usize) -> usize {
    if input::any_sent(acts) {
        0
    } else {
        offset
    }
}

/// The state of the program.
#[derive(Debug)]
pub struct App<H> {
    pub sessions: Vec<Session<H>>,
    pub active: usize,
    /// The number of the next tab.
    pub next_id: u32,
    /// The tab whose title is being edited.
    pub editing: Option<usize>,
    /// The edit field is still to be given the focus.
    pub editing_init: bool,
    /// The tab whose closing waits to be confirmed.
    pub confirm_close: Option<usize>,
    /// The tab that is being dragged.
    pub drag: Option<usize>,
    pub settings_open: bool,
    pub settings_tab: SettingsTab,
    /// The list to choose the default shell from is open.
    pub shell_list_open: bool,
    pub shells: Vec<ShellSpec>,
    pub prefs: Prefs,
    /// The card whose list of shells is open.
    pub startup_shell_open: Option<usize>,
    /// The card whose palette is open: that of the accent where `true`.
    pub startup_color_open: Option<(usize, bool)>,
    /// The card that is being dragged.
    pub card_drag: Option<usize>,
}

// ---- places in the list of tabs ----

/// The place after `i` in a ring of `n`.
pub open spec fn next_place(i: int, n: int) -> int {
    if i + 1 == n {
        0
    } else {
        i + 1
    }
}

/// The place before `i` in a ring of `n`.
pub open spec fn prev_place(i: int, n: int) -> int {
    if i == 0 {
        n - 1
    } else {
        i - 1
    }
}

/// Which of the tabs that are left is active, once tab `closed` of `n` was
/// closed.
pub open spec fn active_after_close(active: int, closed: int, n: int) -> int {
    if active >= n - 1 {
        if n >= 2 {
            n - 2
        } else {
            0
        }
    } else if active > closed {
        active - 1
    } else {
        active
    }
}

/// The title that tab `i` keeps after it was edited: a blank one is made up.
pub open spec fn kept_title(title: Seq<char>, i: int) -> Seq<char> {
    if text::trimmed(title).len() == 0 {
        settings::numbered_title("pwsh"@, (i + 1) as nat)
    } else {
        title
    }
}

impl<H> App<H> {
    /// There are tabs, the active one is among them, and so is the one whose
    /// closing waits, which is not the last. The default shell is one of the
    /// shells. The colours on the cards can be read.
    pub open spec fn wf(self) -> bool {
        &&& self.active < self.sessions@.len()
        &&& self.confirm_close matches Some(i) ==> i < self.sessions@.len()
            && self.sessions@.len() > 1
        &&& self.prefs.default_shell < self.shells@.len()
        &&& settings::all_wf(self.cards())
    }

    /// The startup tabs.
    pub open spec fn cards(self) -> Seq<settings::TabDef> {
        settings::tab_defs(self.prefs.startup_tabs@)
    }

    /// The state with other startup tabs.
    pub open spec fn with_cards(self, tabs: Vec<StartupTab>) -> App<H> {
        App { prefs: Prefs { startup_tabs: tabs, ..self.prefs }, ..self }
    }

    /// The state at the start, with the tabs that were opened.
    pub fn new(prefs: Prefs, shells: Vec<ShellSpec>, sessions: Vec<Session<H>>) -> (r: App<H>)
        requires
            0 < sessions@.len() < u32::MAX,
            prefs.default_shell < shells@.len(),
            settings::all_wf(prefs@.startup_tabs),
        ensures
            r.wf(),
            r == (App {
                sessions,
                active: 0,
                next_id: (sessions@.len() + 1) as u32,
                editing: None,
                editing_init: false,
                confirm_close: None,
                drag: None,
                settings_open: false,
                settings_tab: SettingsTab::General,
                shell_list_open: false,
                shells,
                prefs,
                startup_shell_open: None,
                startup_color_open: None,
                card_drag: None,
            }),
    {
        let next_id: u32 = sessions.len() as u32 + 1;
        App {
            sessions,
            active: 0,
            next_id,
            editing: None,
            editing_init: false,
            confirm_close: None,
            drag: None,
            settings_open: false,
            settings_tab: SettingsTab::General,
            shell_list_open: false,
            shells,
            prefs,
            startup_shell_open: None,
            startup_color_open: None,
            card_drag: None,
        }
    }

    // ---- keyboard ----

    /// The terminal gets no input: a title is being edited, a closing waits,
    /// or the settings are open.
    pub open spec fn blocked(self) -> bool {
        self.editing is Some || self.confirm_close is Some || self.settings_open
    }

    /// Whether the terminal gets no input.
    pub fn block_input(&self) -> (r: bool)
        ensures
            r == self.blocked(),
    {
        self.editing.is_some() || self.confirm_close.is_some() || self.settings_open
    }

    /// The tab that the keyboard and the wheel are for: the active one, or none
    /// where the terminal gets no input.
    pub fn input_target(&self) -> (r: Option<usize>)
        requires
            self.wf(),
        ensures
            r == (if self.blocked() {
                None
            } else {
                Some(self.active)
            }),
            r matches Some(i) ==> i < self.sessions@.len(),
    {
        if self.block_input() {
            None
        } else {
            Some(self.active)
        }
    }

    /// What a frame's events do, where `selection` is the text that is selected
    /// in the active tab and `offset` is how far its display is scrolled back.
    /// They go to the active tab alone, or to none where the terminal gets no
    /// input.
    pub fn frame_input(
        &self,
        events: &Vec<InputEvent>,
        selection: Option<String>,
        offset: usize,
    ) -> (r: Option<FrameInput>)
        requires
            self.wf(),
        ensures
            self.blocked() <==> r is None,
            r matches Some(f) ==> {
                let acts = input::after_events(events@, text::text_of(selection)).acts;
                &&& f.target == self.active
                &&& input::act_views(f.acts@) == acts
                &&& f.clear_selection == (input::any_sent(acts) || input::any_copied(acts))
                &&& f.offset == offset_after(acts, offset)
            },
    {
        match self.input_target() {
            None => None,
            Some(target) => {
                let outcome: input::InputOutcome = input::handle_input(events, selection);
                Some(
                    FrameInput {
                        target,
                        acts: outcome.acts,
                        clear_selection: outcome.clear_selection,
                        offset: if outcome.sent {
                            0
                        } else {
                            offset
                        },
                    },
                )
            },
        }
    }

    /// The state after Ctrl+Tab, with Shift or without.
    pub open spec fn cycled(self, ctrl_tab: bool, shift: bool) -> App<H> {
        App {
            active: if self.blocked() || !ctrl_tab {
                self.active
            } else if shift {
                prev_place(self.active as int, self.sessions@.len() as int) as usize
            } else {
                next_place(self.active as int, self.sessions@.len() as int) as usize
            },
            ..self
        }
    }

    /// Ctrl+Tab goes to the next tab, and with Shift to the one before, round
    /// the ends. It does nothing where the terminal gets no input.
    pub fn cycle_tabs(&mut self, ctrl_tab: bool, shift: bool)
        requires
            old(self).wf(),
        ensures
            final(self).wf(),
            *final(self) == old(self).cycled(ctrl_tab, shift),
    {
        if self.block_input() || !ctrl_tab {
            return;
        }
        let n: usize = self.sessions.len();
        self.active = if shift {
            if self.active == 0 {
                n - 1
            } else {
                self.active - 1
            }
        } else if self.active + 1 == n {
            0
        } else {
            self.active + 1
        };
    }

    // ---- titles ----

    /// Whether the edit field is to be given the focus, which is asked once.
    pub fn take_focus_request(&mut self) -> (r: bool)
        ensures
            r == old(self).editing_init,
            *final(self) == (App { editing_init: false, ..*old(self) }),
    {
        let r: bool = self.editing_init;
        self.editing_init = false;
        r
    }

    /// Ends the editing of the title of tab `i`. A blank title is made up.
    pub fn finish_rename(&mut self, i: usize)
        requires
            old(self).wf(),
            i < old(self).sessions@.len(),
        ensures
            final(self).wf(),
            *final(self) == (App {
                sessions: final(self).sessions,
                editing: None,
                ..*old(self)
            }),
            final(self).sessions@ == old(self).sessions@.update(
                i as int,
                Session { title: final(self).sessions@[i as int].title, ..old(self).sessions@[i as int] },
            ),
            final(self).sessions@[i as int].title@ == kept_title(
                old(self).sessions@[i as int].title@,
                i as int,
            ),
    {
        let n: usize = self.sessions.len();
        let blank: bool = text::trim(self.sessions[i].title.as_str()).as_str().is_empty();
        if blank {
            self.sessions[i].title = settings::numbered("pwsh", i as u64 + 1);
        }
        assert(self.sessions@.len() == n);
        self.editing = None;
    }

    // ---- the pointer on the tabs ----

    /// What a gesture on tab `i` does: a drag takes hold of it, a double
    /// click edits its title, and all three make it the active one. A drag
    /// that starts with the pointer nowhere does nothing.
    pub open spec fn after_gesture(self, i: usize, g: TabGesture) -> App<H> {
        if g.drag_started {
            if g.pointer_known {
                App { active: i, drag: Some(i), ..self }
            } else {
                self
            }
        } else if g.double_clicked {
            App { active: i, editing: Some(i), editing_init: true, ..self }
        } else if g.clicked {
            App { active: i, ..self }
        } else {
            self
        }
    }

    /// Follows a gesture on tab `i`.
    pub fn tab_gesture(&mut self, i: usize, g: TabGesture)
        requires
            old(self).wf(),
            i < old(self).sessions@.len(),
        ensures
            final(self).wf(),
            *final(self) == old(self).after_gesture(i, g),
    {
        if g.drag_started {
            if g.pointer_known {
                self.active = i;
                self.drag = Some(i);
            }
        } else if g.double_clicked {
            self.active = i;
            self.editing = Some(i);
            self.editing_init = true;
        } else if g.clicked {
            self.active = i;
        }
    }

    /// Moves tab `from` to the boundary `target` and makes it the active one.
    pub fn move_tab(&mut self, from: usize, target: usize)
        requires
            old(self).wf(),
        ensures
            final(self).wf(),
            final(self).sessions@ == order::moved(
                old(self).sessions@,
                from as int,
                target as int,
            ),
            *final(self) == (App {
                sessions: final(self).sessions,
                active: if from < old(self).sessions@.len() {
                    order::landing(
                        old(self).sessions@.len() as int,
                        from as int,
                        target as int,
                    ) as usize
                } else {
                    old(self).active
                },
                ..*old(self)
            }),
    {
        match order::move_item(&mut self.sessions, from, target) {
            Some(at) => {
                self.active = at;
            },
            None => {},
        }
    }

    /// The tab that is dropped, and the boundary where: once the pointer is
    /// released over the tabs.
    pub open spec fn dropped_tab(self, released: bool, target: Option<usize>) -> Option<
        (usize, usize),
    > {
        match (self.drag, target) {
            (Some(from), Some(t)) => if released && from < self.sessions@.len() {
                Some((from, t))
            } else {
                None
            },
            _ => None,
        }
    }

    /// Follows a drag: when the pointer is released, the tab moves to the
    /// boundary `target` under it, where there is one, and the drag is over.
    pub fn drag_tab(&mut self, released: bool, target: Option<usize>)
        requires
            old(self).wf(),
        ensures
            final(self).wf(),
            final(self).drag == (if released {
                None
            } else {
                old(self).drag
            }),
            match old(self).dropped_tab(released, target) {
                Some((from, t)) => {
                    &&& final(self).sessions@ == order::moved(
                        old(self).sessions@,
                        from as int,
                        t as int,
                    )
                    &&& *final(self) == (App {
                        sessions: final(self).sessions,
                        active: order::landing(
                            old(self).sessions@.len() as int,
                            from as int,
                            t as int,
                        ) as usize,
                        drag: None,
                        ..*old(self)
                    })
                },
                None => *final(self) == (App { drag: final(self).drag, ..*old(self) }),
            },
    {
        if !released {
            return;
        }
        match (self.drag, target) {
            (Some(from), Some(t)) => {
                if from < self.sessions.len() {
                    self.move_tab(from, t);
                }
            },
            _ => {},
        }
        self.drag = None;
    }

    // ---- opening and closing ----

    /// How a new tab with shell `k` is opened.
    pub open spec fn new_plan(self, k: int) -> settings::PlanView {
        settings::PlanView {
            shell: k,
            title: settings::numbered_title(self.shells@[k]@.short, self.next_id as nat),
            cwd: self.prefs.default_cwd@,
            bg: self.prefs.default_bg,
            accent: self.prefs.default_accent,
            commands: Seq::empty(),
        }
    }

    /// Plans a new tab with shell `k`, under a number that no later tab gets.
    pub fn plan_new_tab(&mut self, k: usize) -> (r: TabPlan)
        requires
            old(self).wf(),
            k < old(self).shells@.len(),
            old(self).next_id < u32::MAX,
        ensures
            final(self).wf(),
            r@ == old(self).new_plan(k as int),
            *final(self) == (App { next_id: (old(self).next_id + 1) as u32, ..*old(self) }),
    {
        let id: u32 = self.next_id;
        self.next_id = id + 1;
        let plan: TabPlan = TabPlan {
            shell: k,
            title: settings::numbered(self.shells[k].short.as_str(), id as u64),
            cwd: self.prefs.default_cwd.clone(),
            bg: self.prefs.default_bg,
            accent: self.prefs.default_accent,
            commands: Vec::new(),
        };
        assert(text::texts(plan.commands@) =~= Seq::<Seq<char>>::empty());
        plan
    }

    /// Adds a tab behind the others and makes it the active one.
    pub fn add_session(&mut self, s: Session<H>)
        requires
            old(self).wf(),
            old(self).sessions@.len() < usize::MAX,
        ensures
            final(self).wf(),
            final(self).sessions@ == old(self).sessions@.push(s),
            *final(self) == (App {
                sessions: final(self).sessions,
                active: old(self).sessions@.len() as usize,
                ..*old(self)
            }),
    {
        self.sessions.push(s);
        self.active = self.sessions.len() - 1;
    }

    /// Whether tabs can be closed: the last one cannot.
    pub fn closable(&self) -> (r: bool)
        ensures
            r == (self.sessions@.len() > 1),
    {
        self.sessions.len() > 1
    }

    /// Asks for tab `i` to be closed, which waits to be confirmed.
    pub fn request_close(&mut self, i: usize)
        requires
            old(self).wf(),
            i < old(self).sessions@.len(),
            old(self).sessions@.len() > 1,
        ensures
            final(self).wf(),
            *final(self) == (App { confirm_close: Some(i), ..*old(self) }),
    {
        self.confirm_close = Some(i);
    }

    /// The title of the tab whose closing waits, and nothing where none does.
    pub fn closing_title(&self) -> (r: String)
        requires
            self.wf(),
        ensures
            r@ == (match self.confirm_close {
                Some(i) => self.sessions@[i as int].title@,
                None => Seq::empty(),
            }),
    {
        match self.confirm_close {
            Some(i) => self.sessions[i].title.clone(),
            None => String::new(),
        }
    }

    /// Closes the tab whose closing waited, and hands it over to be ended.
    pub fn close_confirmed(&mut self) -> (r: Option<Session<H>>)
        requires
            old(self).wf(),
        ensures
            final(self).wf(),
            match old(self).confirm_close {
                Some(i) => {
                    &&& r == Some(old(self).sessions@[i as int])
                    &&& final(self).sessions@ == old(self).sessions@.remove(i as int)
                    &&& *final(self) == (App {
                        sessions: final(self).sessions,
                        active: active_after_close(
                            old(self).active as int,
                            i as int,
                            old(self).sessions@.len() as int,
                        ) as usize,
                        confirm_close: None,
                        ..*old(self)
                    })
                },
                None => r is None && *final(self) == *old(self),
            },
    {
        match self.confirm_close {
            Some(i) => {
                let closed: Session<H> = self.sessions.remove(i);
                if self.active >= self.sessions.len() {
                    self.active = self.sessions.len() - 1;
                } else if self.active > i {
                    self.active = self.active - 1;
                }
                self.confirm_close = None;
                Some(closed)
            },
            None => None,
        }
    }

    /// Gives up a closing that waited.
    pub fn close_cancelled(&mut self)
        requires
            old(self).wf(),
        ensures
            final(self).wf(),
            *final(self) == (App { confirm_close: None, ..*old(self) }),
    {
        self.confirm_close = None;
    }

    // ---- colours of the tabs ----

    /// Gives every tab the default theme.
    pub fn apply_theme(&mut self)
        requires
            old(self).wf(),
        ensures
            final(self).wf(),
            *final(self) == (App { sessions: final(self).sessions, ..*old(self) }),
            final(self).sessions@.len() == old(self).sessions@.len(),
            forall|k: int|
                0 <= k < final(self).sessions@.len() ==> #[trigger] final(self).sessions@[k] == (
                Session {
                    bg: old(self).prefs.default_bg,
                    accent: old(self).prefs.default_accent,
                    ..old(self).sessions@[k]
                }),
    {
        let ghost before = *self;
        let bg: Rgb = self.prefs.default_bg;
        let accent: Rgb = self.prefs.default_accent;
        let mut i: usize = 0;
        while i < self.sessions.len()
            invariant
                i <= self.sessions@.len(),
                *self == (App { sessions: self.sessions, ..before }),
                self.sessions@.len() == before.sessions@.len(),
                bg == before.prefs.default_bg,
                accent == before.prefs.default_accent,
                forall|k: int|
                    0 <= k < i ==> #[trigger] self.sessions@[k] == (Session {
                        bg,
                        accent,
                        ..before.sessions@[k]
                    }),
                forall|k: int|
                    i <= k < self.sessions@.len() ==> #[trigger] self.sessions@[k]
                        == before.sessions@[k],
            decreases self.sessions@.len() - i,
        {
            self.sessions[i].bg = bg;
            self.sessions[i].accent = accent;
            i = i + 1;
        }
    }
}

// ---- laws ----

/// Going to the next tab and back, or the other way round, changes nothing.
pub proof fn law_next_and_back(i: int, n: int)
    requires
        0 <= i < n,
    ensures
        0 <= next_place(i, n) < n,
        0 <= prev_place(i, n) < n,
        prev_place(next_place(i, n), n) == i,
        next_place(prev_place(i, n), n) == i,
{
}

/// The place that is reached from `i` by going on `k` times.
pub open spec fn gone_on(i: int, n: int, k: nat) -> int
    decreases k,
{
    if k == 0 {
        i
    } else {
        next_place(gone_on(i, n, (k - 1) as nat), n)
    }
}

/// Going on reaches every tab, and after as many steps as there are tabs it
/// is back.
pub proof fn law_round_trip(i: int, j: int, n: int)
    requires
        0 <= i < n,
        0 <= j < n,
    ensures
        gone_on(i, n, n as nat) == i,
        i <= j ==> gone_on(i, n, (j - i) as nat) == j,
        j < i ==> gone_on(i, n, (n - i + j) as nat) == j,
{
    lemma_gone_on(i, n, n as nat);
    if i <= j {
        lemma_gone_on(i, n, (j - i) as nat);
    } else {
        lemma_gone_on(i, n, (n - i + j) as nat);
    }
}

proof fn lemma_gone_on(i: int, n: int, k: nat)
    requires
        0 <= i < n,
        k <= n,
    ensures
        gone_on(i, n, k) == (if i + k < n {
            i + k
        } else {
            i + k - n
        }),
    decreases k,
{
    if k > 0 {
        lemma_gone_on(i, n, (k - 1) as nat);
    }
}

/// Closing another tab leaves the active one active.
pub proof fn law_close_keeps_active<T>(tabs: Seq<T>, active: int, closed: int)
    requires
        0 <= active < tabs.len(),
        0 <= closed < tabs.len(),
        active != closed,
    ensures
        ({
            let now = active_after_close(active, closed, tabs.len() as int);
            &&& 0 <= now < tabs.len() - 1
            &&& tabs.remove(closed)[now] == tabs[active]
        }),
{
}

/// Closing the active tab makes the one after it active, or the one before it
/// where it was the last.
pub proof fn law_close_active<T>(tabs: Seq<T>, active: int)
    requires
        0 <= active < tabs.len(),
        tabs.len() > 1,
    ensures
        ({
            let now = active_after_close(active, active, tabs.len() as int);
            &&& 0 <= now < tabs.len() - 1
            &&& active + 1 < tabs.len() ==> tabs.remove(active)[now] == tabs[active + 1]
            &&& active + 1 == tabs.len() ==> tabs.remove(active)[now] == tabs[active - 1]
        }),
{
}

/// A title is never left blank, and one that was not blank is left alone.
pub proof fn law_titles_show(title: Seq<char>, i: int)
    requires
        0 <= i,
    ensures
        text::trimmed(kept_title(title, i)).len() > 0,
        text::trimmed(title).len() > 0 ==> kept_title(title, i) == title,
        kept_title(kept_title(title, i), i) == kept_title(title, i),
{
    if text::trimmed(title).len() == 0 {
        let made = settings::numbered_title("pwsh"@, (i + 1) as nat);
        reveal_strlit("pwsh");
        assert(made[0] == 'p');
        text::lemma_trimmed_shows(made);
    }
}

/// A tab that was put among the startup tabs opens again as it was: with its
/// title, shell, directory and colours. An empty title or directory stands
/// for the default there, so it is left out.
pub proof fn law_snapshot_reopens<H>(
    p: settings::PrefsView,
    all: Seq<shells::ShellView>,
    s: Session<H>,
    n: int,
)
    requires
        s.title@.len() > 0,
        s.cwd@.len() > 0 || p.default_cwd.len() == 0,
        settings::shell_index(all, s.shell_short@) is Some,
    ensures
        ({
            let plan = settings::tab_plan(p, all, session_def(s), n);
            &&& plan.title == s.title@
            &&& all[plan.shell].short == s.shell_short@
            &&& plan.cwd == s.cwd@
            &&& plan.bg == s.bg
            &&& plan.accent == s.accent
            &&& plan.commands.len() == 0
        }),
{
    settings::lemma_shell_index_sound(all, s.shell_short@);
    color::law_hex_round_trip(s.bg);
    color::law_hex_round_trip(s.accent);
    if s.cwd@.len() == 0 {
        assert(p.default_cwd =~= s.cwd@);
    }
}

/// A display that shows the bottom goes on showing it, and after anything was
/// sent every display that got it shows the bottom.
pub proof fn law_sending_shows_the_bottom(acts: Seq<input::ActView>, offset: usize)
    ensures
        offset_after(acts, 0) == 0,
        input::any_sent(acts) ==> offset_after(acts, offset) == 0,
        !input::any_sent(acts) ==> offset_after(acts, offset) == offset,
{
}

/// Input is held back exactly while a title is edited, a closing waits, or the
/// settings are open.
pub proof fn law_input_is_held_back<H>(a: App<H>)
    ensures
        a.editing is Some ==> a.blocked(),
        a.confirm_close is Some ==> a.blocked(),
        a.settings_open ==> a.blocked(),
        a.editing is None && a.confirm_close is None && !a.settings_open ==> !a.blocked(),
{
}

/// A click on a tab makes it the active one and does nothing else. A double
/// click also has its title edited, with the focus asked for, and a drag also
/// takes hold of it, if the pointer is anywhere.
pub proof fn law_gestures<H>(a: App<H>, i: usize, pointer: bool, double: bool, click: bool)
    ensures
        ({
            let g = TabGesture {
                drag_started: true,
                pointer_known: true,
                double_clicked: double,
                clicked: click,
            };
            let b = a.after_gesture(i, g);
            b.active == i && b.drag == Some(i) && b == (App {
                active: b.active,
                drag: b.drag,
                ..a
            })
        }),
        a.after_gesture(
            i,
            TabGesture {
                drag_started: true,
                pointer_known: false,
                double_clicked: double,
                clicked: click,
            },
        ) == a,
        ({
            let g = TabGesture {
                drag_started: false,
                pointer_known: pointer,
                double_clicked: true,
                clicked: click,
            };
            let b = a.after_gesture(i, g);
            b.active == i && b.editing == Some(i) && b.editing_init && b == (App {
                active: b.active,
                editing: b.editing,
                editing_init: b.editing_init,
                ..a
            })
        }),
        ({
            let g = TabGesture {
                drag_started: false,
                pointer_known: pointer,
                double_clicked: false,
                clicked: true,
            };
            let b = a.after_gesture(i, g);
            b.active == i && b == (App { active: b.active, ..a })
        }),
        a.after_gesture(
            i,
            TabGesture {
                drag_started: false,
                pointer_known: pointer,
                double_clicked: false,
                clicked: false,
            },
        ) == a,
{
}

/// The tab that is dropped is the one that is dragged, where the pointer is,
/// and only once the pointer is let go.
pub proof fn law_drop_what_is_dragged<H>(a: App<H>, from: usize, t: usize, target: Option<usize>)
    ensures
        a.drag == Some(from) && from < a.sessions@.len() ==> a.dropped_tab(true, Some(t)) == Some(
            (from, t),
        ),
        a.drag == Some(from) && from >= a.sessions@.len() ==> a.dropped_tab(true, target) is None,
        a.drag is None ==> a.dropped_tab(true, target) is None,
        a.dropped_tab(true, None) is None,
        a.dropped_tab(false, target) is None,
{
}

/// A new tab has the chosen shell and is called by it and by its number; its
/// directory and colours are the defaults, and nothing is sent to it.
pub proof fn law_new_tab<H>(a: App<H>, k: int)
    ensures
        ({
            let plan = a.new_plan(k);
            &&& plan.shell == k
            &&& plan.title == a.shells@[k].short@ + seq![' '] + text::decimal(a.next_id as nat)
            &&& plan.cwd == a.prefs.default_cwd@
            &&& plan.bg == a.prefs.default_bg
            &&& plan.accent == a.prefs.default_accent
            &&& plan.commands.len() == 0
        }),
{
    reveal_strlit(" ");
    assert(" "@ =~= seq![' ']);
}

/// A title that was left blank is made up of `pwsh` and the place of the tab,
/// counting from one.
pub proof fn law_blank_title(title: Seq<char>, i: int)
    requires
        0 <= i,
        text::trimmed(title).len() == 0,
    ensures
        kept_title(title, i) == seq!['p', 'w', 's', 'h', ' '] + text::decimal((i + 1) as nat),
{
    reveal_strlit("pwsh");
    reveal_strlit(" ");
    assert(kept_title(title, i) =~= seq!['p', 'w', 's', 'h', ' '] + text::decimal((i + 1) as nat));
}

/// A session as a startup tab keeps its title, shell, directory and colours,
/// and has no commands.
pub proof fn law_session_as_tab<H>(s: Session<H>)
    ensures
        ({
            let t = session_def(s);
            &&& t.name == s.title@
            &&& t.shell == s.shell_short@
            &&& t.cwd == s.cwd@
            &&& color::parsed_color(t.bg) == Some(s.bg)
            &&& color::parsed_color(t.accent) == Some(s.accent)
            &&& t.bg == color::hex_text(s.bg)
            &&& t.accent == color::hex_text(s.accent)
            &&& t.commands.len() == 0
            &&& t.commands_buf.len() == 0
        }),
{
    color::law_hex_round_trip(s.bg);
    color::law_hex_round_trip(s.accent);
}

/// What every state keeps: the active tab is among the tabs, a tab that waits
/// to be closed is there and is not the last, the default shell is one of the
/// shells, and the colours of the cards can be read.
pub proof fn law_state_keeps<H>(a: App<H>, i: int)
    ensures
        a.wf() ==> a.active < a.sessions@.len() && a.prefs.default_shell < a.shells@.len(),
        a.wf() && a.confirm_close is Some ==> a.confirm_close->0 < a.sessions@.len()
            && a.sessions@.len() >= 2,
        a.wf() && 0 <= i < a.prefs.startup_tabs@.len() ==> !color::breaks_char(
            a.prefs.startup_tabs@[i].bg@,
        ) && !color::breaks_char(a.prefs.startup_tabs@[i].accent@),
        a.active < a.sessions@.len() && a.confirm_close is None && a.prefs.default_shell
            < a.shells@.len() && a.prefs.startup_tabs@.len() == 0 ==> a.wf(),
{
    if a.wf() && 0 <= i < a.prefs.startup_tabs@.len() {
        assert(a.cards()[i].wf());
    }
}

/// Changing the cards changes nothing but the cards.
pub proof fn law_cards_alone<H>(a: App<H>, v: Vec<StartupTab>)
    ensures
        a.with_cards(v).prefs.startup_tabs == v,
        a.with_cards(v).cards() == settings::tab_defs(v@),
        a.with_cards(v).with_cards(a.prefs.startup_tabs) == a,
        a.with_cards(v).sessions == a.sessions && a.with_cards(v).active == a.active,
        a.with_cards(v).prefs.default_shell == a.prefs.default_shell,
        a.with_cards(v).prefs.panel_right == a.prefs.panel_right,
{
}

/// Ctrl+Tab goes on by one tab and with Shift back by one, from the last to the
/// first and from the first to the last; it changes nothing else, and nothing
/// at all while input is held back.
pub proof fn law_ctrl_tab<H>(a: App<H>, shift: bool)
    requires
        a.wf(),
    ensures
        ({
            let n = a.sessions@.len();
            let on = a.cycled(true, false);
            let back = a.cycled(true, true);
            &&& !a.blocked() && a.active + 1 < n ==> on.active == a.active + 1
            &&& !a.blocked() && a.active + 1 == n ==> on.active == 0
            &&& !a.blocked() && a.active > 0 ==> back.active == a.active - 1
            &&& !a.blocked() && a.active == 0 ==> back.active == n - 1
            &&& on == (App { active: on.active, ..a })
            &&& back == (App { active: back.active, ..a })
            &&& a.blocked() ==> a.cycled(true, shift) == a
            &&& a.cycled(false, shift) == a
        }),
{
    let n: usize = vstd::std_specs::vec::spec_vec_len(&a.sessions);
    assert(n == a.sessions@.len());
}

/// What is started is the shell's program with its arguments, in the directory
/// that was asked for, if any was.
pub proof fn law_launch(shell: &ShellSpec, cwd: &str, r: Launch)
    requires
        call_ensures(launch, (shell, cwd), r),
    ensures
        r.program@ == shell.program@,
        text::texts(r.args@) == text::texts(shell.args@),
        cwd@.len() > 0 ==> r.cwd is Some && r.cwd->0@ == cwd@,
        cwd@.len() == 0 ==> r.cwd is None,
{
}

/// An opened tab is the planned one, with the shell's short name.
pub proof fn law_opened_as_planned<H>(plan: TabPlan, shell: &ShellSpec, handle: H, s: Session<H>)
    requires
        call_ensures(Session::<H>::open, (plan, shell, handle), s),
    ensures
        s.handle == handle,
        s.title@ == plan.title@ && s.cwd@ == plan.cwd@ && s.bg == plan.bg && s.accent == plan.accent,
        s.shell_short@ == shell.short@,
        s.size.cols == 80 && s.size.rows == 24,
{
}

/// A tab is closed by a click on its sign where there is one, and put among
/// the startup tabs by the other, but a dragged tab does neither.
pub proof fn law_tab_answers(close: bool, add: bool, free: (bool, bool), only: (bool, bool), held: (
    bool,
    bool,
), closable: bool)
    requires
        call_ensures(tab_answer, (false, true, close, add), free),
        call_ensures(tab_answer, (false, false, close, add), only),
        call_ensures(tab_answer, (true, closable, close, add), held),
    ensures
        free == (close, add),
        only == (false, add),
        held == (false, false),
{
}

/// Input goes to the active tab or to none, never to another; what it does is
/// what the events ask for, and it takes the display back where it sends.
pub proof fn law_input_is_routed<H>(
    a: &App<H>,
    events: &Vec<InputEvent>,
    selection: Option<String>,
    offset: usize,
    target: Option<usize>,
    frame: Option<FrameInput>,
)
    requires
        a.wf(),
        call_ensures(App::<H>::input_target, (a,), target),
        call_ensures(App::<H>::frame_input, (a, events, selection, offset), frame),
    ensures
        target is Some <==> a.editing is None && a.confirm_close is None && !a.settings_open,
        target is Some ==> target->0 == a.active,
        frame is Some <==> target is Some,
        frame matches Some(f) ==> {
            let acts = input::after_events(events@, text::text_of(selection)).acts;
            &&& f.target == a.active
            &&& input::act_views(f.acts@) == acts
            &&& input::any_sent(acts) ==> f.offset == 0 && f.clear_selection
            &&& !input::any_sent(acts) ==> f.offset == offset
            &&& acts.len() == 0 ==> !f.clear_selection
        },
{
}

} // verus!
