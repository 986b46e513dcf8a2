//! Choosing a section, then a level in it.
use std::sync::Arc;
use vstd::prelude::*;

use crate::audio::SFX;
use crate::gamestates::Key;
use crate::levels::base::GameLevel;
use crate::levels::config::Section;
use crate::util::nonempty::{game_levels_in, game_levels_vec, sections_in, sections_vec};
use crate::util::vec_with_cursor::{decrement_undoes_increment, increment_undoes_decrement, VecWithCursor};

verus! {

/// What the level selection asks for after a frame.
pub enum LevelSelectionEvent<'a> {
    /// Stay on this screen.
    Stay,
    /// Go back to the main menu, in place of this screen.
    MainMenu,
    /// Open the editor on this level, on top of this screen.
    OpenLevel(&'a Arc<GameLevel>),
}

/// The sections, with a cursor on one; once a section is open, a cursor on
/// one of its levels too.
pub struct LevelSelectionState<'a> {
    sections: VecWithCursor<&'a Section>,
    level_i: Option<usize>,
}

/// How many levels section `s` has.
pub open spec fn level_count(s: &Section) -> nat {
    game_levels_in(s.levels).len()
}

/// The cursors (section, level) after `key` is pressed, where section `k`
/// has `counts[k]` levels: up and down move the level cursor in an open
/// section and the section cursor otherwise, both wrapping around; right
/// opens the section at its first level, left closes it.
pub open spec fn nav_after(counts: Seq<nat>, sec: nat, lvl: Option<nat>, key: Key) -> (nat, Option<nat>) {
    match key {
        Key::Down => match lvl {
            Some(l) => if counts[sec as int] != 0 {
                (sec, Some(((l as int + 1) % (counts[sec as int] as int)) as nat))
            } else {
                (sec, lvl)
            },
            None => (((sec as int + 1) % (counts.len() as int)) as nat, None),
        },
        Key::Up => match lvl {
            Some(l) => if counts[sec as int] != 0 {
                (sec, Some(((l as int + counts[sec as int] - 1) % (counts[sec as int] as int)) as nat))
            } else {
                (sec, lvl)
            },
            None => (((sec as int + counts.len() - 1) % (counts.len() as int)) as nat, None),
        },
        Key::Right => if lvl is None {
            (sec, Some(0))
        } else {
            (sec, lvl)
        },
        Key::Left => (sec, None),
        _ => (sec, lvl),
    }
}

impl<'a> LevelSelectionState<'a> {
    /// The sections, in order.
    pub closed spec fn sections(self) -> Seq<&'a Section> {
        self.sections.items()
    }

    /// The section under the cursor.
    pub closed spec fn section_cursor(self) -> nat {
        self.sections.position()
    }

    /// The level under the cursor, when a section is open.
    pub closed spec fn level_cursor(self) -> Option<nat> {
        match self.level_i {
            Some(l) => Some(l as nat),
            None => None,
        }
    }

    /// How many levels each section has.
    pub open spec fn counts(self) -> Seq<nat> {
        self.sections().map_values(|s: &'a Section| level_count(s))
    }

    /// The section cursor is on a section, and the level cursor, if any, on a
    /// level of it (or on the start of an empty one).
    pub open spec fn wf(self) -> bool {
        &&& self.sections().len() > 0
        &&& self.section_cursor() < self.sections().len()
        &&& (self.level_cursor() matches Some(l) ==> l == 0 || l < level_count(
            self.sections()[self.section_cursor() as int],
        ))
    }

    /// The sections of `all`, the first one under the cursor, none open.
    pub fn new(all: &'a vec1::Vec1<Section>) -> (r: Self)
        ensures
            r.wf(),
            r.sections().len() == sections_in(*all).len(),
            forall|k: int|
                0 <= k < r.sections().len() ==> *r.sections()[k] == sections_in(*all)[k],
            r.section_cursor() == 0,
            r.level_cursor() is None,
    {
        let v = sections_vec(all);
        let mut refs: Vec<&'a Section> = Vec::new();
        for k in 0..v.len()
            invariant
                refs@.len() == k,
                forall|t: int| 0 <= t < k ==> *refs@[t] == v@[t],
        {
            refs.push(&v[k]);
        }
        LevelSelectionState { sections: VecWithCursor::from(refs), level_i: None }
    }

    /// The section cursor and the level cursor.
    pub fn cursors(&self) -> (r: (usize, Option<usize>))
        ensures
            r.0 == self.section_cursor(),
            match r.1 {
                Some(l) => self.level_cursor() == Some(l as nat),
                None => self.level_cursor() is None,
            },
    {
        (self.sections.cursor(), self.level_i)
    }

    /// The number of levels of the section under the cursor.
    fn current_count(&self) -> (r: usize)
        requires
            self.wf(),
        ensures
            r == self.counts()[self.section_cursor() as int],
            r > 0,
    {
        let s: &'a Section = *self.sections.get();
        game_levels_vec(&s.levels).len()
    }

    /// Moves the cursors as `nav_after` says.
    pub fn on_event(&mut self, key: Key)
        requires
            old(self).wf(),
        ensures
            final(self).wf(),
            final(self).sections() == old(self).sections(),
            (final(self).section_cursor(), final(self).level_cursor()) == nav_after(
                old(self).counts(),
                old(self).section_cursor(),
                old(self).level_cursor(),
                key,
            ),
    {
        let ghost sec = self.section_cursor();
        let ghost cnt = self.counts();
        assert(cnt.len() == self.sections().len());
        match key {
            Key::Down => match self.level_i {
                Some(li) => {
                    let len = self.current_count();
                    self.level_i = Some((li + 1) % len);
                },
                None => {
                    self.sections.cursor_increment();
                },
            },
            Key::Up => match self.level_i {
                Some(li) => {
                    let len = self.current_count();
                    proof {
                        let c = li as int;
                        if c == 0 {
                            vstd::arithmetic::div_mod::lemma_small_mod((len - 1) as nat, len as nat);
                        } else {
                            vstd::arithmetic::div_mod::lemma_mod_add_multiples_vanish(c - 1, len as int);
                            vstd::arithmetic::div_mod::lemma_small_mod((c - 1) as nat, len as nat);
                        }
                    }
                    self.level_i = Some(if li == 0 { len - 1 } else { li - 1 });
                },
                None => {
                    self.sections.cursor_decrement();
                },
            },
            Key::Right => {
                if self.level_i.is_none() {
                    self.level_i = Some(0);
                }
            },
            Key::Left => {
                self.level_i = None;
            },
            _ => {},
        }
    }

    /// What a frame with `pressed` asks for, and the sound it makes. Escape
    /// closes an open section, else goes back to the main menu; return opens
    /// the level under the cursor in an open section, else opens the section.
    pub fn tick(&mut self, pressed: Option<Key>) -> (r: (Option<SFX>, LevelSelectionEvent<'a>))
        requires
            old(self).wf(),
        ensures
            final(self).wf(),
            final(self).sections() == old(self).sections(),
            final(self).section_cursor() == old(self).section_cursor(),
            match pressed {
                Some(Key::Escape) => if old(self).level_cursor() is Some {
                    &&& final(self).level_cursor() is None
                    &&& r.0 == Some(SFX::Select)
                    &&& r.1 is Stay
                } else {
                    &&& final(self).level_cursor() is None
                    &&& r.0 == Some(SFX::Back)
                    &&& r.1 is MainMenu
                },
                Some(Key::Return) => match old(self).level_cursor() {
                    Some(l) => {
                        &&& final(self).level_cursor() == old(self).level_cursor()
                        &&& r.0 == Some(SFX::Confirm)
                        &&& r.1 matches LevelSelectionEvent::OpenLevel(lv) && *lv == game_levels_in(
                            old(self).sections()[old(self).section_cursor() as int].levels,
                        )[l as int]
                    },
                    None => {
                        &&& final(self).level_cursor() == Some(0nat)
                        &&& r.0 == Some(SFX::Select)
                        &&& r.1 is Stay
                    },
                },
                _ => {
                    &&& final(self).level_cursor() == old(self).level_cursor()
                    &&& r.0 is None
                    &&& r.1 is Stay
                },
            },
    {
        match pressed {
            Some(Key::Escape) => {
                if self.level_i.is_some() {
                    self.level_i = None;
                    (Some(SFX::Select), LevelSelectionEvent::Stay)
                } else {
                    (Some(SFX::Back), LevelSelectionEvent::MainMenu)
                }
            },
            Some(Key::Return) => match self.level_i {
                Some(l) => {
                    let s: &'a Section = *self.sections.get();
                    let levels = game_levels_vec(&s.levels);
                    (Some(SFX::Confirm), LevelSelectionEvent::OpenLevel(&levels[l]))
                },
                None => {
                    self.level_i = Some(0);
                    (Some(SFX::Select), LevelSelectionEvent::Stay)
                },
            },
            _ => (None, LevelSelectionEvent::Stay),
        }
    }
}

/// Cursors that stand on a section, and on a level of it when it is open.
pub open spec fn nav_valid(counts: Seq<nat>, sec: nat, lvl: Option<nat>) -> bool {
    &&& sec < counts.len()
    &&& (lvl matches Some(l) ==> l < counts[sec as int])
}

/// Pressing down and then up, in a section or between sections, brings the
/// cursors back where they were.
pub proof fn up_undoes_down(counts: Seq<nat>, sec: nat, lvl: Option<nat>)
    requires
        nav_valid(counts, sec, lvl),
    ensures
        ({
            let (s1, l1) = nav_after(counts, sec, lvl, Key::Down);
            nav_after(counts, s1, l1, Key::Up) == (sec, lvl)
        }),
{
    match lvl {
        Some(l) => decrement_undoes_increment(l as int, counts[sec as int] as int),
        None => decrement_undoes_increment(sec as int, counts.len() as int),
    }
}

/// Pressing up and then down brings the cursors back where they were.
pub proof fn down_undoes_up(counts: Seq<nat>, sec: nat, lvl: Option<nat>)
    requires
        nav_valid(counts, sec, lvl),
    ensures
        ({
            let (s1, l1) = nav_after(counts, sec, lvl, Key::Up);
            nav_after(counts, s1, l1, Key::Down) == (sec, lvl)
        }),
{
    match lvl {
        Some(l) => increment_undoes_decrement(l as int, counts[sec as int] as int),
        None => increment_undoes_decrement(sec as int, counts.len() as int),
    }
}

/// Opening a closed section and closing it again leaves the cursors as
/// they were.
pub proof fn left_undoes_right(counts: Seq<nat>, sec: nat)
    requires
        nav_valid(counts, sec, None),
    ensures
        ({
            let (s1, l1) = nav_after(counts, sec, None, Key::Right);
            nav_after(counts, s1, l1, Key::Left) == (sec, None::<nat>)
        }),
{
}

/// Where every section has a level, no key moves a cursor off the sections
/// and their levels.
pub proof fn nav_stays_valid(counts: Seq<nat>, sec: nat, lvl: Option<nat>, key: Key)
    requires
        nav_valid(counts, sec, lvl),
        forall|k: int| 0 <= k < counts.len() ==> counts[k] > 0,
    ensures
        ({
            let (s1, l1) = nav_after(counts, sec, lvl, key);
            nav_valid(counts, s1, l1)
        }),
{
    assert(counts[sec as int] > 0);
}

} // verus!
