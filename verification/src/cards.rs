//! The settings page: the choices on it, and the cards of the startup tabs.
use vstd::prelude::*;

use crate::app;
use crate::app::{App, SettingsTab};
use crate::color;
use crate::color::Rgb;
use crate::order;
use crate::settings;
use crate::settings::StartupTab;
use crate::shells;
use crate::text;

verus! {

// ---- cards ----

/// Both open a tab of one name with one shell in one directory.
pub open spec fn same_tab(a: settings::TabDef, b: settings::TabDef) -> bool {
    a.name == b.name && a.shell == b.shell && a.cwd == b.cwd
}

/// One of the cards opens such a tab already.
pub open spec fn has_tab(cards: Seq<settings::TabDef>, t: settings::TabDef) -> bool {
    exists|k: int| 0 <= k < cards.len() && same_tab(#[trigger] cards[k], t)
}

/// Whether one of the cards opens such a tab already.
fn opens_tab(tabs: &Vec<StartupTab>, t: &StartupTab) -> (r: bool)
    ensures
        r == has_tab(settings::tab_defs(tabs@), t@),
{
    let ghost cards = settings::tab_defs(tabs@);
    let mut k: usize = 0;
    while k < tabs.len()
        invariant
            k <= tabs@.len(),
            cards == settings::tab_defs(tabs@),
            forall|j: int| 0 <= j < k ==> !same_tab(#[trigger] cards[j], t@),
        decreases tabs@.len() - k,
    {
        let e: &StartupTab = &tabs[k];
        assert(cards[k as int] == e@);
        if text::same_text(e.name.as_str(), t.name.as_str()) && text::same_text(
            e.shell.as_str(),
            t.shell.as_str(),
        ) && text::same_text(e.cwd.as_str(), t.cwd.as_str()) {
            assert(same_tab(cards[k as int], t@));
            return true;
        }
        k = k + 1;
    }
    false
}

/// The cards with one more, unless one of them opens such a tab already.
pub open spec fn with_tab(cards: Seq<settings::TabDef>, t: settings::TabDef) -> Seq<
    settings::TabDef,
> {
    if has_tab(cards, t) {
        cards
    } else {
        cards.push(t)
    }
}

/// The cards with those at `i` and `j` exchanged.
pub open spec fn exchanged<T>(s: Seq<T>, i: int, j: int) -> Seq<T> {
    s.update(i, s[j]).update(j, s[i])
}

/// The cards after the one at `i` was shifted a place, unless it stands at
/// the end.
pub open spec fn shifted<T>(s: Seq<T>, i: int, down: bool) -> Seq<T> {
    let j = if down {
        i + 1
    } else {
        i - 1
    };
    if 0 <= j < s.len() {
        exchanged(s, i, j)
    } else {
        s
    }
}

/// Moves the card at `from` to the boundary `target`.
pub fn move_card(tabs: &mut Vec<StartupTab>, from: usize, target: usize)
    ensures
        final(tabs)@ == order::moved(old(tabs)@, from as int, target as int),
{
    let _at: Option<usize> = order::move_item(tabs, from, target);
}

/// The views of moved cards are the moved views.
proof fn lemma_moved_defs(v: Seq<StartupTab>, from: int, target: int)
    requires
        0 <= from,
        0 <= target,
    ensures
        settings::tab_defs(order::moved(v, from, target)) == order::moved(
            settings::tab_defs(v),
            from,
            target,
        ),
{
    assert(settings::tab_defs(order::moved(v, from, target)) =~= order::moved(
        settings::tab_defs(v),
        from,
        target,
    ));
}

/// Moving cards leaves their colours readable.
proof fn lemma_moved_wf(cards: Seq<settings::TabDef>, from: int, target: int)
    requires
        0 <= from,
        0 <= target,
        settings::all_wf(cards),
    ensures
        settings::all_wf(order::moved(cards, from, target)),
{
    let after = order::moved(cards, from, target);
    if from < cards.len() {
        let at = order::landing(cards.len() as int, from, target);
        assert forall|i: int| 0 <= i < after.len() implies (#[trigger] after[i]).wf() by {
            let j = if i == at {
                from
            } else {
                let k = if i < at {
                    i
                } else {
                    i - 1
                };
                if k < from {
                    k
                } else {
                    k + 1
                }
            };
            assert(after[i] == cards[j]);
            assert(cards[j].wf());
        }
    }
}


/// The colour that a card keeps for a choice: none stands for the default.
pub open spec fn picked_color(c: Option<Rgb>) -> Seq<char> {
    match c {
        Some(c) => color::hex_text(c),
        None => Seq::empty(),
    }
}

/// The colour that a card keeps for a choice.
fn color_text(c: Option<Rgb>) -> (r: String)
    ensures
        r@ == picked_color(c),
        !color::breaks_char(r@),
{
    match c {
        Some(c) => {
            proof {
                color::law_hex_round_trip(c);
            }
            color::color_to_hex(c)
        },
        None => {
            proof {
                color::law_empty_is_no_color();
            }
            String::new()
        },
    }
}

/// What an open palette or list comes to: a choice, or nothing but to be
/// closed, or to stay open.
#[derive(Debug)]
pub enum PopupStep<T> {
    Picked(T),
    PressedOutside,
    Stay,
}

/// What an open palette or list comes to: a choice goes before anything else,
/// and a press closes it where it is known to lie outside.
pub fn popup_step<T>(picked: Option<T>, pressed: bool, inside: Option<bool>) -> (r: PopupStep<T>)
    ensures
        r == (match picked {
            Some(p) => PopupStep::Picked(p),
            None => if pressed && inside == Some(false) {
                PopupStep::PressedOutside
            } else {
                PopupStep::Stay
            },
        }),
{
    match picked {
        Some(p) => PopupStep::Picked(p),
        None => match inside {
            Some(false) if pressed => PopupStep::PressedOutside,
            _ => PopupStep::Stay,
        },
    }
}

impl<H> App<H> {
    // ---- the page ----

    /// Opens the settings at their first page.
    pub fn open_settings(&mut self)
        requires
            old(self).wf(),
        ensures
            final(self).wf(),
            *final(self) == (App {
                settings_open: true,
                settings_tab: SettingsTab::General,
                ..*old(self)
            }),
    {
        self.settings_open = true;
        self.settings_tab = SettingsTab::General;
    }

    /// Turns to a page of the settings.
    pub fn select_page(&mut self, page: SettingsTab)
        requires
            old(self).wf(),
        ensures
            final(self).wf(),
            *final(self) == (App { settings_tab: page, ..*old(self) }),
    {
        self.settings_tab = page;
    }

    /// Closes the settings and the lists on them. Nothing is saved by that.
    pub fn close_settings(&mut self)
        requires
            old(self).wf(),
        ensures
            final(self).wf(),
            *final(self) == (App {
                settings_open: false,
                shell_list_open: false,
                startup_shell_open: None,
                ..*old(self)
            }),
    {
        self.settings_open = false;
        self.shell_list_open = false;
        self.startup_shell_open = None;
    }

    /// Opens or closes the list to choose the default shell from.
    pub fn toggle_shell_list(&mut self)
        requires
            old(self).wf(),
        ensures
            final(self).wf(),
            *final(self) == (App { shell_list_open: !old(self).shell_list_open, ..*old(self) }),
    {
        self.shell_list_open = !self.shell_list_open;
    }

    /// Follows the open list of shells: a choice becomes the default shell
    /// and closes it, and so does a press elsewhere.
    pub fn shell_list_step(&mut self, step: PopupStep<usize>)
        requires
            old(self).wf(),
            step matches PopupStep::Picked(k) ==> k < old(self).shells@.len(),
        ensures
            final(self).wf(),
            *final(self) == (App {
                shell_list_open: step is Stay && old(self).shell_list_open,
                prefs: settings::Prefs {
                    default_shell: match step {
                        PopupStep::Picked(k) => k,
                        _ => old(self).prefs.default_shell,
                    },
                    ..old(self).prefs
                },
                ..*old(self)
            }),
    {
        match step {
            PopupStep::Picked(k) => {
                self.prefs.default_shell = k;
                self.shell_list_open = false;
            },
            PopupStep::PressedOutside => {
                self.shell_list_open = false;
            },
            PopupStep::Stay => {},
        }
    }

    /// Puts the tabs on the right or on the left.
    pub fn set_panel(&mut self, right: bool)
        requires
            old(self).wf(),
        ensures
            final(self).wf(),
            *final(self) == (App {
                prefs: settings::Prefs { panel_right: right, ..old(self).prefs },
                ..*old(self)
            }),
    {
        self.prefs.panel_right = right;
    }

    // ---- cards ----

    /// Adds an empty card.
    pub fn add_card(&mut self)
        requires
            old(self).wf(),
        ensures
            final(self).wf(),
            *final(self) == old(self).with_cards(final(self).prefs.startup_tabs),
            final(self).cards() == old(self).cards().push(settings::empty_def()),
    {
        let t: StartupTab = StartupTab::empty();
        proof {
            settings::lemma_tab_defs_push(self.prefs.startup_tabs@, t);
        }
        self.prefs.startup_tabs.push(t);
    }

    /// The open tabs as startup tabs.
    pub open spec fn snapshot(self) -> Seq<settings::TabDef> {
        self.sessions@.map_values(|s: app::Session<H>| app::session_def(s))
    }

    /// The open tabs as startup tabs.
    pub fn snapshot_startup_tabs(&self) -> (r: Vec<StartupTab>)
        ensures
            settings::tab_defs(r@) == self.snapshot(),
            settings::all_wf(self.snapshot()),
    {
        let mut out: Vec<StartupTab> = Vec::new();
        let mut i: usize = 0;
        assert(settings::tab_defs(out@) =~= self.snapshot().take(0));
        while i < self.sessions.len()
            invariant
                i <= self.sessions@.len(),
                settings::tab_defs(out@) == self.snapshot().take(i as int),
                settings::all_wf(settings::tab_defs(out@)),
            decreases self.sessions@.len() - i,
        {
            let t: StartupTab = app::startup_tab_of(&self.sessions[i]);
            proof {
                settings::lemma_tab_defs_push(out@, t);
                assert(self.snapshot().take(i + 1) =~= self.snapshot().take(i as int).push(t@));
            }
            out.push(t);
            i = i + 1;
        }
        assert(self.snapshot().take(i as int) =~= self.snapshot());
        out
    }

    /// Makes the open tabs the startup tabs.
    pub fn take_snapshot(&mut self)
        requires
            old(self).wf(),
        ensures
            final(self).wf(),
            *final(self) == old(self).with_cards(final(self).prefs.startup_tabs),
            final(self).cards() == old(self).snapshot(),
    {
        let tabs: Vec<StartupTab> = self.snapshot_startup_tabs();
        self.prefs.startup_tabs = tabs;
    }

    /// Takes all cards away.
    pub fn clear_cards(&mut self)
        requires
            old(self).wf(),
        ensures
            final(self).wf(),
            *final(self) == old(self).with_cards(final(self).prefs.startup_tabs),
            final(self).cards() == Seq::<settings::TabDef>::empty(),
    {
        self.prefs.startup_tabs = Vec::new();
        assert(self.cards() =~= Seq::<settings::TabDef>::empty());
    }

    /// Takes card `i` away, where there is one.
    pub fn remove_card(&mut self, i: usize)
        requires
            old(self).wf(),
        ensures
            final(self).wf(),
            *final(self) == old(self).with_cards(final(self).prefs.startup_tabs),
            final(self).cards() == (if i < old(self).cards().len() {
                old(self).cards().remove(i as int)
            } else {
                old(self).cards()
            }),
    {
        let ghost before = self.cards();
        if i < self.prefs.startup_tabs.len() {
            let _gone: StartupTab = self.prefs.startup_tabs.remove(i);
            proof {
                assert(self.cards() =~= before.remove(i as int));
                assert forall|k: int| 0 <= k < self.cards().len() implies (
                #[trigger] self.cards()[k]).wf() by {
                    assert(before[if k < i { k } else { k + 1 }].wf());
                }
            }
        }
    }

    /// Shifts card `i` a place down or up, unless it stands at the end. Where
    /// there is no such card there is nothing to shift, but the place right
    /// behind the last card cannot be shifted up.
    pub fn shift_card(&mut self, i: usize, down: bool)
        requires
            old(self).wf(),
            down || i == 0 || i != old(self).cards().len(),
        ensures
            final(self).wf(),
            *final(self) == old(self).with_cards(final(self).prefs.startup_tabs),
            final(self).cards() == shifted(old(self).cards(), i as int, down),
    {
        let ghost before = self.cards();
        let n: usize = self.prefs.startup_tabs.len();
        if down {
            if n >= 1 && i < n - 1 {
                let t: StartupTab = self.prefs.startup_tabs.remove(i);
                self.prefs.startup_tabs.insert(i + 1, t);
            }
        } else if i > 0 && i - 1 < n {
            let t: StartupTab = self.prefs.startup_tabs.remove(i);
            self.prefs.startup_tabs.insert(i - 1, t);
        }
        proof {
            assert(self.cards() =~= shifted(before, i as int, down));
            assert forall|k: int| 0 <= k < self.cards().len() implies (
            #[trigger] self.cards()[k]).wf() by {
                assert(before[k].wf());
                if down && i + 1 < n {
                    assert(before[i as int].wf());
                    assert(before[i + 1].wf());
                } else if !down && 0 < i < n {
                    assert(before[i as int].wf());
                    assert(before[i - 1].wf());
                }
            }
        }
    }

    /// Takes hold of card `i`, where it is known where the pointer is.
    pub fn grab_card(&mut self, i: usize, pointer_known: bool)
        requires
            old(self).wf(),
        ensures
            final(self).wf(),
            *final(self) == (App {
                card_drag: if pointer_known {
                    Some(i)
                } else {
                    old(self).card_drag
                },
                ..*old(self)
            }),
    {
        if pointer_known {
            self.card_drag = Some(i);
        }
    }

    /// Follows a drag: when the pointer is released, the card moves to the
    /// boundary `target` under it, where there is one, and the drag is over.
    pub fn drag_card(&mut self, released: bool, target: Option<usize>)
        requires
            old(self).wf(),
        ensures
            final(self).wf(),
            *final(self) == (App {
                card_drag: if released {
                    None
                } else {
                    old(self).card_drag
                },
                ..old(self).with_cards(final(self).prefs.startup_tabs)
            }),
            final(self).cards() == (match (old(self).card_drag, target) {
                (Some(from), Some(t)) => if released {
                    order::moved(old(self).cards(), from as int, t as int)
                } else {
                    old(self).cards()
                },
                _ => old(self).cards(),
            }),
    {
        if !released {
            return;
        }
        match (self.card_drag, target) {
            (Some(from), Some(t)) => {
                proof {
                    lemma_moved_defs(self.prefs.startup_tabs@, from as int, t as int);
                    lemma_moved_wf(self.cards(), from as int, t as int);
                }
                move_card(&mut self.prefs.startup_tabs, from, t);
            },
            _ => {},
        }
        self.card_drag = None;
    }

    /// Opens the list of shells of card `i`, or closes it.
    pub fn toggle_card_shell(&mut self, i: usize)
        requires
            old(self).wf(),
        ensures
            final(self).wf(),
            *final(self) == (App {
                startup_shell_open: if old(self).startup_shell_open == Some(i) {
                    None
                } else {
                    Some(i)
                },
                ..*old(self)
            }),
    {
        let open: bool = match self.startup_shell_open {
            Some(k) => k == i,
            None => false,
        };
        self.startup_shell_open = if open {
            None
        } else {
            Some(i)
        };
    }

    /// Follows the open list of shells of card `i`: a choice, where none is
    /// the default, goes onto the card and closes it, and so does a press
    /// elsewhere.
    pub fn card_shell_step(&mut self, i: usize, step: PopupStep<Option<usize>>)
        requires
            old(self).wf(),
            i < old(self).cards().len(),
            step matches PopupStep::Picked(Some(k)) ==> k < old(self).shells@.len(),
        ensures
            final(self).wf(),
            *final(self) == (App {
                startup_shell_open: if step is Stay {
                    old(self).startup_shell_open
                } else {
                    None
                },
                ..old(self).with_cards(final(self).prefs.startup_tabs)
            }),
            final(self).cards() == (match step {
                PopupStep::Picked(c) => old(self).cards().update(
                    i as int,
                    settings::TabDef {
                        shell: match c {
                            Some(k) => old(self).shells@[k as int]@.short,
                            None => Seq::empty(),
                        },
                        ..old(self).cards()[i as int]
                    },
                ),
                _ => old(self).cards(),
            }),
    {
        let ghost before = self.cards();
        match step {
            PopupStep::Picked(c) => {
                let short: String = match c {
                    Some(k) => self.shells[k].short.clone(),
                    None => String::new(),
                };
                self.prefs.startup_tabs[i].shell = short;
                proof {
                    lemma_card_changed(
                        before,
                        self.cards(),
                        i as int,
                        settings::TabDef { shell: short@, ..before[i as int] },
                    );
                }
                self.startup_shell_open = None;
            },
            PopupStep::PressedOutside => {
                self.startup_shell_open = None;
            },
            PopupStep::Stay => {},
        }
    }

    /// Opens a palette of card `i`, or closes it.
    pub fn toggle_card_color(&mut self, i: usize, accent: bool)
        requires
            old(self).wf(),
        ensures
            final(self).wf(),
            *final(self) == (App {
                startup_color_open: if old(self).startup_color_open == Some((i, accent)) {
                    None
                } else {
                    Some((i, accent))
                },
                ..*old(self)
            }),
    {
        let open: bool = match self.startup_color_open {
            Some((k, a)) => k == i && a == accent,
            None => false,
        };
        self.startup_color_open = if open {
            None
        } else {
            Some((i, accent))
        };
    }

    /// Follows an open palette of card `i`: a choice, where none is the
    /// default, goes onto the card and closes it, and so does a press
    /// elsewhere.
    pub fn card_color_step(&mut self, i: usize, accent: bool, step: PopupStep<Option<Rgb>>)
        requires
            old(self).wf(),
            i < old(self).cards().len(),
        ensures
            final(self).wf(),
            *final(self) == (App {
                startup_color_open: if step is Stay {
                    old(self).startup_color_open
                } else {
                    None
                },
                ..old(self).with_cards(final(self).prefs.startup_tabs)
            }),
            final(self).cards() == (match step {
                PopupStep::Picked(c) => old(self).cards().update(
                    i as int,
                    if accent {
                        settings::TabDef {
                            accent: picked_color(c),
                            ..old(self).cards()[i as int]
                        }
                    } else {
                        settings::TabDef { bg: picked_color(c), ..old(self).cards()[i as int] }
                    },
                ),
                _ => old(self).cards(),
            }),
    {
        let ghost before = self.cards();
        match step {
            PopupStep::Picked(c) => {
                let t: String = color_text(c);
                assert(before[i as int].wf());
                if accent {
                    self.prefs.startup_tabs[i].accent = t;
                    proof {
                        lemma_card_changed(
                            before,
                            self.cards(),
                            i as int,
                            settings::TabDef { accent: t@, ..before[i as int] },
                        );
                    }
                } else {
                    self.prefs.startup_tabs[i].bg = t;
                    proof {
                        lemma_card_changed(
                            before,
                            self.cards(),
                            i as int,
                            settings::TabDef { bg: t@, ..before[i as int] },
                        );
                    }
                }
                self.startup_color_open = None;
            },
            PopupStep::PressedOutside => {
                self.startup_color_open = None;
            },
            PopupStep::Stay => {},
        }
    }

    /// Puts tab `i` among the startup tabs, unless one of them has its title,
    /// shell and directory already, and says whether there is something to
    /// save.
    pub fn add_startup(&mut self, i: usize) -> (r: bool)
        requires
            old(self).wf(),
        ensures
            final(self).wf(),
            *final(self) == old(self).with_cards(final(self).prefs.startup_tabs),
            r == (i < old(self).sessions@.len() && !has_tab(
                old(self).cards(),
                app::session_def(old(self).sessions@[i as int]),
            )),
            final(self).cards() == (if i < old(self).sessions@.len() {
                with_tab(old(self).cards(), app::session_def(old(self).sessions@[i as int]))
            } else {
                old(self).cards()
            }),
    {
        if i >= self.sessions.len() {
            return false;
        }
        let t: StartupTab = app::startup_tab_of(&self.sessions[i]);
        if opens_tab(&self.prefs.startup_tabs, &t) {
            return false;
        }
        proof {
            settings::lemma_tab_defs_push(self.prefs.startup_tabs@, t);
        }
        self.prefs.startup_tabs.push(t);
        true
    }
}

/// One card changed, the others kept: the colours can still be read.
proof fn lemma_card_changed(
    before: Seq<settings::TabDef>,
    after: Seq<settings::TabDef>,
    i: int,
    t: settings::TabDef,
)
    requires
        settings::all_wf(before),
        0 <= i < before.len(),
        after =~= before.update(i, t),
        t.wf() || (t.bg == before[i].bg && t.accent == before[i].accent),
    ensures
        after == before.update(i, t),
        settings::all_wf(after),
{
    assert forall|k: int| 0 <= k < after.len() implies (#[trigger] after[k]).wf() by {
        assert(before[k].wf());
    }
}

// ---- laws ----

/// Once a tab was put among the startup tabs it is there, those that were
/// there before stay, and putting it there again changes nothing.
pub proof fn law_added_once(cards: Seq<settings::TabDef>, t: settings::TabDef)
    ensures
        has_tab(with_tab(cards, t), t),
        with_tab(cards, t).take(cards.len() as int) == cards,
        with_tab(with_tab(cards, t), t) == with_tab(cards, t),
{
    let after = with_tab(cards, t);
    if !has_tab(cards, t) {
        assert(same_tab(after[cards.len() as int], t));
    }
    assert(after.take(cards.len() as int) =~= cards);
}

/// Shifting a card is moving it past its neighbour, so that the arrows and
/// the pointer agree.
pub proof fn law_shift_is_a_move<T>(s: Seq<T>, i: int)
    requires
        0 <= i < s.len(),
    ensures
        i + 1 < s.len() ==> shifted(s, i, true) == order::moved(s, i, i + 2),
        i > 0 ==> shifted(s, i, false) == order::moved(s, i, i - 1),
{
    if i + 1 < s.len() {
        assert(shifted(s, i, true) =~= order::moved(s, i, i + 2));
    }
    if i > 0 {
        assert(shifted(s, i, false) =~= order::moved(s, i, i - 1));
    }
}

/// Shifting a card up undoes shifting it down, and the other way round.
pub proof fn law_shift_back<T>(s: Seq<T>, i: int)
    requires
        0 <= i < s.len(),
    ensures
        i + 1 < s.len() ==> shifted(shifted(s, i, true), i + 1, false) == s,
        i > 0 ==> shifted(shifted(s, i, false), i - 1, true) == s,
{
    if i + 1 < s.len() {
        assert(shifted(shifted(s, i, true), i + 1, false) =~= s);
    }
    if i > 0 {
        assert(shifted(shifted(s, i, false), i - 1, true) =~= s);
    }
}

/// With the open tabs made the startup tabs, the next start opens those tabs
/// again, in their order, with their titles, shells, directories and colours.
/// An empty title or directory would stand for the default, so neither may be
/// there.
pub proof fn law_snapshot_restores<H>(a: App<H>, k: int)
    requires
        0 <= k < a.sessions@.len(),
        a.sessions@[k].title@.len() > 0,
        a.sessions@[k].cwd@.len() > 0 || a.prefs.default_cwd@.len() == 0,
        settings::shell_index(
            shells::shell_views(a.shells@),
            a.sessions@[k].shell_short@,
        ) is Some,
    ensures
        ({
            let p = settings::PrefsView { startup_tabs: a.snapshot(), ..a.prefs@ };
            let all = shells::shell_views(a.shells@);
            let plans = settings::start_plans(p, all);
            &&& plans.len() == a.sessions@.len()
            &&& plans[k].title == a.sessions@[k].title@
            &&& all[plans[k].shell].short == a.sessions@[k].shell_short@
            &&& plans[k].cwd == a.sessions@[k].cwd@
            &&& plans[k].bg == a.sessions@[k].bg
            &&& plans[k].accent == a.sessions@[k].accent
        }),
{
    let p = settings::PrefsView { startup_tabs: a.snapshot(), ..a.prefs@ };
    app::law_snapshot_reopens(p, shells::shell_views(a.shells@), a.sessions@[k], k);
}

/// A colour that was picked for a card is the colour of its tab, and where
/// none was picked the default is.
pub proof fn law_picked_color_shows(c: Option<Rgb>, other: Rgb)
    ensures
        settings::color_or(picked_color(c), other) == (match c {
            Some(c) => c,
            None => other,
        }),
{
    match c {
        Some(c) => {
            color::law_hex_round_trip(c);
        },
        None => {
            color::law_empty_is_no_color();
        },
    }
}

/// A tab is put among the startup tabs unless one of them agrees with it in
/// its name, its shell and its directory: one that differs from each of them
/// in any of the three is added behind them.
pub proof fn law_other_tabs_are_added(cards: Seq<settings::TabDef>, t: settings::TabDef)
    ensures
        (forall|k: int|
            0 <= k < cards.len() ==> (#[trigger] cards[k]).name != t.name || cards[k].shell
                != t.shell || cards[k].cwd != t.cwd) ==> with_tab(cards, t) == cards.push(t),
        (forall|k: int| 0 <= k < cards.len() ==> (#[trigger] cards[k]).name != t.name) ==> with_tab(
            cards,
            t,
        ) == cards.push(t),
        (forall|k: int| 0 <= k < cards.len() ==> (#[trigger] cards[k]).shell != t.shell)
            ==> with_tab(cards, t) == cards.push(t),
        (forall|k: int| 0 <= k < cards.len() ==> (#[trigger] cards[k]).cwd != t.cwd) ==> with_tab(
            cards,
            t,
        ) == cards.push(t),
{
}

/// A tab that agrees with a card in its name, its shell and its directory is
/// not added again, whatever its colours and commands.
pub proof fn law_same_tab_is_not_added(cards: Seq<settings::TabDef>, t: settings::TabDef, k: int)
    requires
        0 <= k < cards.len(),
        cards[k].name == t.name,
        cards[k].shell == t.shell,
        cards[k].cwd == t.cwd,
    ensures
        has_tab(cards, t),
        with_tab(cards, t) == cards,
{
    assert(same_tab(cards[k], t));
}

/// At the ends there is no place to shift a card to.
pub proof fn law_ends_do_not_shift<T>(s: Seq<T>, i: int)
    ensures
        shifted(s, 0, false) == s,
        i >= s.len() - 1 ==> shifted(s, i, true) == s,
        i > s.len() ==> shifted(s, i, false) == s,
{
}

/// A snapshot has a startup tab for each open tab, in their order.
pub proof fn law_snapshot_has_all<H>(a: App<H>, k: int)
    requires
        0 <= k < a.sessions@.len(),
    ensures
        a.snapshot().len() == a.sessions@.len(),
        a.snapshot()[k].name == a.sessions@[k].title@,
        a.snapshot()[k].shell == a.sessions@[k].shell_short@,
        a.snapshot()[k].cwd == a.sessions@[k].cwd@,
        color::parsed_color(a.snapshot()[k].bg) == Some(a.sessions@[k].bg),
        color::parsed_color(a.snapshot()[k].accent) == Some(a.sessions@[k].accent),
        a.snapshot()[k].commands.len() == 0,
{
    color::law_hex_round_trip(a.sessions@[k].bg);
    color::law_hex_round_trip(a.sessions@[k].accent);
}

/// The default colour is written as nothing, and any other as `#RRGGBB`.
pub proof fn law_picked_color_text(c: Rgb)
    ensures
        picked_color(None).len() == 0,
        picked_color(Some(c)).len() == 7,
        picked_color(Some(c))[0] == '#',
        color::parsed_color(picked_color(Some(c))) == Some(c),
{
    color::law_hex_round_trip(c);
}

/// A choice counts whatever else happens; without one a press closes the list
/// where it is known to lie outside, and nothing else does.
pub proof fn law_popup<T>(p: T, pressed: bool, inside: Option<bool>, a: PopupStep<T>, b: PopupStep<T>)
    requires
        call_ensures(popup_step::<T>, (Some(p), pressed, inside), a),
        call_ensures(popup_step::<T>, (None::<T>, pressed, inside), b),
    ensures
        a == PopupStep::Picked(p),
        pressed && inside == Some(false) ==> b is PressedOutside,
        !pressed || inside is None || inside == Some(true) ==> b is Stay,
{
}

} // verus!
