//! The levels other players made and this player subscribed to.
use std::sync::Arc;
use vstd::prelude::*;

use crate::audio::SFX;
use crate::gamestates::Key;
use crate::levels::base::UserCreatedLevel;
use crate::util::numbers::{decimal_digits, u64_to_decimal};
use crate::util::text::push_str;
use crate::util::vec_with_cursor::VecWithCursor;

verus! {

/// Why a subscribed level could not be loaded.
#[derive(Debug, PartialEq, Eq)]
pub enum LoadLevelError {
    /// The level is not on disk yet.
    ItemNotInstalled,
    /// Reading its files failed, with this message.
    FilesystemError(String),
    /// Its file is not a level, with this message.
    Filesystem(String),
    /// The level does not pass validation, with this message.
    ValidationError(String),
}

pub open spec fn load_error_text(e: LoadLevelError) -> Seq<char> {
    match e {
        LoadLevelError::ItemNotInstalled => "Item is not installed. Steam should install it automatically."@,
        LoadLevelError::FilesystemError(m) => "Filesystem error: "@ + m@,
        LoadLevelError::Filesystem(m) => "Deserialization error: "@ + m@,
        LoadLevelError::ValidationError(m) => "Error validating config: "@ + m@,
    }
}

impl LoadLevelError {
    pub fn to_string(&self) -> (r: String)
        ensures
            r@ == load_error_text(*self),
    {
        let mut r = String::new();
        match self {
            LoadLevelError::ItemNotInstalled => push_str(
                &mut r,
                "Item is not installed. Steam should install it automatically.",
            ),
            LoadLevelError::FilesystemError(m) => {
                push_str(&mut r, "Filesystem error: ");
                push_str(&mut r, m.as_str());
            },
            LoadLevelError::Filesystem(m) => {
                push_str(&mut r, "Deserialization error: ");
                push_str(&mut r, m.as_str());
            },
            LoadLevelError::ValidationError(m) => {
                push_str(&mut r, "Error validating config: ");
                push_str(&mut r, m.as_str());
            },
        }
        r
    }
}

/// A subscribed level, or its id and why it could not be loaded.
pub type MaybeLevel = Result<Arc<UserCreatedLevel>, (u64, LoadLevelError)>;

/// The line shown for a subscribed level.
pub open spec fn description_text(lvl: MaybeLevel) -> Seq<char> {
    match lvl {
        Ok(l) => l.base.name@,
        Err((id, e)) => "Can't load level "@ + decimal_digits(id as nat) + ". "@ + load_error_text(e),
    }
}

pub fn description(lvl: &MaybeLevel) -> (r: String)
    ensures
        r@ == description_text(*lvl),
{
    match lvl {
        Ok(l) => l.base.name.clone(),
        Err((id, e)) => {
            let mut r = String::new();
            push_str(&mut r, "Can't load level ");
            let d = u64_to_decimal(*id);
            push_str(&mut r, d.as_str());
            push_str(&mut r, ". ");
            let t = e.to_string();
            push_str(&mut r, t.as_str());
            r
        },
    }
}

/// Where the screen goes after a frame.
pub enum UserLevelsEvent<'a> {
    Stay,
    Back,
    /// Play this level, on top of this screen.
    Open(&'a Arc<UserCreatedLevel>),
}

/// The subscribed levels, with a cursor on one, if there are any.
pub struct UserCreatedLevelsState {
    levels: Option<VecWithCursor<MaybeLevel>>,
}

impl UserCreatedLevelsState {
    pub closed spec fn levels(self) -> Seq<MaybeLevel> {
        match self.levels {
            Some(v) => v.items(),
            None => Seq::empty(),
        }
    }

    pub closed spec fn cursor(self) -> nat {
        match self.levels {
            Some(v) => v.position(),
            None => 0,
        }
    }

    /// The screen for `levels`, the cursor on the first.
    pub fn new(levels: Vec<MaybeLevel>) -> (r: Self)
        ensures
            r.levels() == levels@,
            r.cursor() == 0,
    {
        if levels.len() == 0 {
            UserCreatedLevelsState { levels: None }
        } else {
            UserCreatedLevelsState { levels: Some(VecWithCursor::from(levels)) }
        }
    }

    /// A frame: escape goes back; with levels, return opens the level under
    /// the cursor (a level that failed to load only sounds wrong), down and
    /// up move the cursor, wrapping around.
    pub fn tick(&mut self, key: Option<Key>) -> (r: (Option<SFX>, UserLevelsEvent<'_>))
        ensures
            final(self).levels() == old(self).levels(),
            old(self).levels().len() > 0 ==> old(self).cursor() < old(self).levels().len(),
            key == Some(Key::Escape) ==> r.0 == Some(SFX::Back) && r.1 is Back && final(self).cursor()
                == old(self).cursor(),
            key != Some(Key::Escape) && old(self).levels().len() == 0 ==> r.0 is None && r.1 is Stay,
            key == Some(Key::Return) && old(self).levels().len() > 0 ==> final(self).cursor() == old(
                self,
            ).cursor() && match old(self).levels()[old(self).cursor() as int] {
                Ok(l) => r.0 == Some(SFX::Select) && (r.1 matches UserLevelsEvent::Open(x) && *x == l),
                Err(_) => r.0 == Some(SFX::Wrong) && r.1 is Stay,
            },
            key == Some(Key::Down) && old(self).levels().len() > 0 ==> r.0 is None && r.1 is Stay
                && final(self).cursor() == (old(self).cursor() as int + 1) % (old(self).levels().len() as int),
            key == Some(Key::Up) && old(self).levels().len() > 0 ==> r.0 is None && r.1 is Stay
                && final(self).cursor() == (old(self).cursor() as int + old(self).levels().len() - 1) % (
            old(self).levels().len() as int),
            key != Some(Key::Escape) && key != Some(Key::Return) && key != Some(Key::Down) && key != Some(
                Key::Up,
            ) ==> r.0 is None && r.1 is Stay && final(self).cursor() == old(self).cursor(),
    {
        if let Some(levels) = &self.levels {
            let _ = levels.cursor();
        }
        if key == Some(Key::Escape) {
            return (Some(SFX::Back), UserLevelsEvent::Back);
        }
        match &mut self.levels {
            Some(levels) => {
                let _ = levels.cursor();
                if key == Some(Key::Return) {
                    match levels.get() {
                        Ok(l) => (Some(SFX::Select), UserLevelsEvent::Open(l)),
                        Err(_) => (Some(SFX::Wrong), UserLevelsEvent::Stay),
                    }
                } else {
                    if key == Some(Key::Down) {
                        levels.cursor_increment();
                    } else if key == Some(Key::Up) {
                        levels.cursor_decrement();
                    }
                    (None, UserLevelsEvent::Stay)
                }
            },
            None => (None, UserLevelsEvent::Stay),
        }
    }
}

} // verus!
