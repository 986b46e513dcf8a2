//! The list of the levels this player is making.
use vstd::prelude::*;

use crate::gamestates::{GameStateEvent, Key};
use crate::util::vec_with_cursor::VecWithCursor;

verus! {

/// What the list asks for after a frame.
#[derive(Debug, Clone, Copy, PartialEq, Eq, Structural)]
pub enum LevelListAction {
    Nothing,
    /// Ask for the title of a new level.
    AskTitle,
}

/// The folders of the levels being made, with a cursor on one, if any.
pub struct LevelCreatorLevelListState {
    levels: Option<VecWithCursor<String>>,
}

impl LevelCreatorLevelListState {
    pub closed spec fn levels(self) -> Seq<String> {
        match self.levels {
            Some(v) => v.items(),
            None => Seq::empty(),
        }
    }

    pub closed spec fn cursor(self) -> nat {
        match self.levels {
            Some(v) => v.position(),
            None => 0,
        }
    }

    /// The list of the level folders `names`, the cursor on the first.
    pub fn new(names: Vec<String>) -> (r: Self)
        ensures
            r.levels() == names@,
            r.cursor() == 0,
    {
        if names.len() == 0 {
            LevelCreatorLevelListState { levels: None }
        } else {
            LevelCreatorLevelListState { levels: Some(VecWithCursor::from(names)) }
        }
    }

    /// A frame: the button or ctrl+N asks for a new level's title; escape
    /// goes back; down moves the cursor back and up moves it forward, both
    /// wrapping around. Opening a level with return is not offered.
    pub fn tick<S>(&mut self, key: Option<Key>, ctrl: bool, create_clicked: bool) -> (r: (
        LevelListAction,
        GameStateEvent<S>,
    ))
        requires
            !(create_clicked || (ctrl && key == Some(Key::N))) ==> key != Some(Key::Return),
        ensures
            final(self).levels() == old(self).levels(),
            old(self).levels().len() > 0 ==> old(self).cursor() < old(self).levels().len(),
            create_clicked || (ctrl && key == Some(Key::N)) ==> r == (LevelListAction::AskTitle, GameStateEvent::<S>::Stay)
                && final(self).cursor() == old(self).cursor(),
            !(create_clicked || (ctrl && key == Some(Key::N))) ==> r.0 == LevelListAction::Nothing && (if key == Some(
                Key::Escape,
            ) {
                r.1 == GameStateEvent::<S>::Pop(1) && final(self).cursor() == old(self).cursor()
            } else {
                &&& r.1 == GameStateEvent::<S>::Stay
                &&& old(self).levels().len() > 0 && key == Some(Key::Down) ==> final(self).cursor() == (
                old(self).cursor() as int + old(self).levels().len() - 1) % (old(self).levels().len() as int)
                &&& old(self).levels().len() > 0 && key == Some(Key::Up) ==> final(self).cursor() == (old(
                    self,
                ).cursor() as int + 1) % (old(self).levels().len() as int)
                &&& !(old(self).levels().len() > 0 && (key == Some(Key::Down) || key == Some(Key::Up)))
                    ==> final(self).cursor() == old(self).cursor()
            }),
    {
        if let Some(v) = &self.levels {
            let _ = v.cursor();
        }
        if create_clicked || (ctrl && key == Some(Key::N)) {
            return (LevelListAction::AskTitle, GameStateEvent::Stay);
        }
        if key == Some(Key::Escape) {
            (LevelListAction::Nothing, GameStateEvent::Pop(1))
        } else {
            match &mut self.levels {
                Some(v) => {
                    if key == Some(Key::Down) {
                        v.cursor_decrement();
                    } else if key == Some(Key::Up) {
                        v.cursor_increment();
                    }
                },
                None => {},
            }
            (LevelListAction::Nothing, GameStateEvent::Stay)
        }
    }
}

} // verus!
