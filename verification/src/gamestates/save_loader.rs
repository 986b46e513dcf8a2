//! The screen shown when a profile's save cannot be loaded.
use vstd::prelude::*;

use crate::audio::SFX;
use crate::gamestates::Key;
use crate::util::text::push_str;
use crate::widgets::{options_after, options_select};

verus! {

/// The explanation before the error.
pub const ERROR_HEAD: &'static str = "Got the following error:\n";

/// The options, after the error.
pub const OPTIONS_TEXT: &'static str = "\n\n These are your options:\n\n\n                    - Reset save: Level complete/score data will be reset, but level code will not.\n\n\n                    - Go back to profile selection: Doesn't change this save, you can select another user. If you're feeling adventureous, you might want to try to fix the save yourself.";

/// What the player chose.
#[derive(Debug, Clone, Copy, PartialEq, Eq, Structural)]
pub enum SaveLoaderChoice {
    /// Reset the save and load the profile again.
    ResetSave,
    /// Forget the default profile and go back to choosing one.
    BackToProfiles,
}

/// The profile whose save failed to load, why, and the option under the
/// cursor.
#[derive(Debug)]
pub struct SaveLoaderState {
    pub user: String,
    pub err_text: String,
    pub last_selected: usize,
}

impl SaveLoaderState {
    /// The screen for `user`, whose save failed with `err`; it opens with a
    /// wrong sound.
    pub fn failed(user: String, err: &str) -> (r: (SaveLoaderState, SFX))
        ensures
            r.0.user == user,
            r.0.err_text@ == ERROR_HEAD@ + err@ + OPTIONS_TEXT@,
            r.0.last_selected == 0,
            r.1 == SFX::Wrong,
    {
        let mut err_text = String::new();
        push_str(&mut err_text, ERROR_HEAD);
        push_str(&mut err_text, err);
        push_str(&mut err_text, OPTIONS_TEXT);
        (SaveLoaderState { user, err_text, last_selected: 0 }, SFX::Wrong)
    }

    /// The title of the box.
    pub fn title(&self) -> (r: String)
        ensures
            r@ == "Loading failed for user "@ + self.user@,
    {
        let mut r = String::new();
        push_str(&mut r, "Loading failed for user ");
        push_str(&mut r, self.user.as_str());
        r
    }

    /// A frame: the two options are picked as `options_after` says; a
    /// choice comes with a confirming sound.
    pub fn tick(&mut self, key: Option<Key>, clicked: Option<usize>) -> (r: Option<(SaveLoaderChoice, SFX)>)
        ensures
            final(self).user == old(self).user,
            final(self).err_text == old(self).err_text,
            ({
                let c = match clicked {
                    Some(c) => Some(c as nat),
                    None => None,
                };
                let (l, chosen) = options_after(2, old(self).last_selected as nat, key, c);
                &&& final(self).last_selected == l
                &&& r == match chosen {
                    Some(x) => Some(
                        (
                            if x == 0 {
                                SaveLoaderChoice::ResetSave
                            } else {
                                SaveLoaderChoice::BackToProfiles
                            },
                            SFX::Confirm,
                        ),
                    ),
                    None => None,
                }
            }),
    {
        match options_select(2, &mut self.last_selected, key, clicked) {
            Some(0) => Some((SaveLoaderChoice::ResetSave, SFX::Confirm)),
            Some(_) => Some((SaveLoaderChoice::BackToProfiles, SFX::Confirm)),
            None => None,
        }
    }
}

} // verus!
