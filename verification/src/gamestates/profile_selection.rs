//! Choosing the player's profile by name.
use vstd::prelude::*;

use crate::audio::SFX;
use crate::editor::{join_lines, BasicTextEditor};
use crate::gamestates::Key;
use crate::math::{half, Rect, H, W};
use crate::util::text::chars_of;

verus! {

/// Why a profile name is refused.
#[derive(Debug, Clone, Copy, PartialEq, Eq, Structural)]
pub enum ProfileNameError {
    TooLong,
    NonASCII,
    NonAlphaNumeric,
}

/// The longest profile name, in bytes.
pub const MAX_NAME_BYTES: usize = 18;

/// How many bytes `c` takes in UTF-8.
pub open spec fn utf8_width(c: char) -> nat {
    if (c as u32) < 0x80 {
        1
    } else if (c as u32) < 0x800 {
        2
    } else if (c as u32) < 0x10000 {
        3
    } else {
        4
    }
}

/// How many bytes `s` takes in UTF-8.
pub open spec fn utf8_len(s: Seq<char>) -> nat
    decreases s.len(),
{
    if s.len() == 0 {
        0
    } else {
        utf8_len(s.drop_last()) + utf8_width(s.last())
    }
}

pub open spec fn spec_is_ascii_alphanumeric(c: char) -> bool {
    ('a' <= c && c <= 'z') || ('A' <= c && c <= 'Z') || ('0' <= c && c <= '9')
}

/// What is wrong with the profile name `name`, checked in this order: more
/// than `MAX_NAME_BYTES` bytes, a character that is not ASCII, a character
/// that is neither a letter, a digit nor `_`.
pub open spec fn name_error(name: Seq<char>) -> Option<ProfileNameError> {
    if utf8_len(name) > MAX_NAME_BYTES {
        Some(ProfileNameError::TooLong)
    } else if exists|k: int| 0 <= k < name.len() && (name[k] as u32) >= 0x80 {
        Some(ProfileNameError::NonASCII)
    } else if exists|k: int|
        0 <= k < name.len() && !spec_is_ascii_alphanumeric(#[trigger] name[k]) && name[k] != '_' {
        Some(ProfileNameError::NonAlphaNumeric)
    } else {
        None
    }
}

impl ProfileNameError {
    /// The message shown for the error.
    pub fn str(&self) -> (r: &'static str)
        ensures
            r@ == match self {
                ProfileNameError::TooLong => "Must be at most 18 digits"@,
                ProfileNameError::NonASCII => "Characters must be ASCII"@,
                ProfileNameError::NonAlphaNumeric => "Characters must be alphanumeric or _"@,
            },
    {
        match self {
            ProfileNameError::TooLong => "Must be at most 18 digits",
            ProfileNameError::NonASCII => "Characters must be ASCII",
            ProfileNameError::NonAlphaNumeric => "Characters must be alphanumeric or _",
        }
    }
}

/// Checks the profile name `name`, as `name_error` says.
pub fn validate(name: &str) -> (r: Option<ProfileNameError>)
    ensures
        r == name_error(name@),
{
    let chars = chars_of(name);
    let mut bytes: usize = 0;
    let mut ascii = true;
    let mut alnum = true;
    for k in 0..chars.len()
        invariant
            chars@ == name@,
            utf8_len(chars@.take(k as int)) <= MAX_NAME_BYTES ==> bytes == utf8_len(
                chars@.take(k as int),
            ),
            utf8_len(chars@.take(k as int)) > MAX_NAME_BYTES ==> bytes > MAX_NAME_BYTES,
            bytes <= MAX_NAME_BYTES + 4,
            k <= chars.len(),
            ascii <==> forall|t: int| 0 <= t < k ==> (chars@[t] as u32) < 0x80,
            alnum <==> forall|t: int|
                0 <= t < k ==> spec_is_ascii_alphanumeric(#[trigger] chars@[t]) || chars@[t] == '_',
    {
        let c = chars[k];
        assert(chars@.take(k + 1).drop_last() =~= chars@.take(k as int));
        let code = c as u32;
        let width: usize = if code < 0x80 {
            1
        } else if code < 0x800 {
            2
        } else if code < 0x10000 {
            3
        } else {
            4
        };
        if bytes <= MAX_NAME_BYTES {
            bytes = bytes + width;
        }
        if code >= 0x80 {
            ascii = false;
        }
        if !(('a' <= c && c <= 'z') || ('A' <= c && c <= 'Z') || ('0' <= c && c <= '9')) && c != '_' {
            alnum = false;
        }
    }
    assert(chars@.take(chars.len() as int) =~= chars@);
    if bytes > MAX_NAME_BYTES {
        Some(ProfileNameError::TooLong)
    } else if !ascii {
        Some(ProfileNameError::NonASCII)
    } else if !alnum {
        Some(ProfileNameError::NonAlphaNumeric)
    } else {
        None
    }
}

/// The profile selection screen: an editor for the name, and the names of the
/// profiles already saved.
#[derive(Debug)]
pub struct ProfileSelectionState {
    pub editor: BasicTextEditor,
    pub known_profiles: Vec<String>,
}

impl ProfileSelectionState {
    /// The screen, with an empty one-line name editor of 20 columns in the
    /// middle of the screen.
    pub fn new(known_profiles: Vec<String>) -> (r: Self)
        ensures
            r.known_profiles@ == known_profiles@,
            r.editor.wf(),
            r.editor.title_spec() == "Enter profile name:"@,
            r.editor.rect_spec().pos.i == H / 2 - half(1),
            r.editor.rect_spec().pos.j == W / 2 - half(20),
            r.editor.rect_spec().size.w == 20,
            r.editor.rect_spec().size.h == 1,
            r.editor.lines() == seq![Seq::<char>::empty()],
    {
        let editor = BasicTextEditor::new(
            String::from_str("Enter profile name:"),
            Rect::centered(20, 1),
            String::new(),
        );
        ProfileSelectionState { editor, known_profiles }
    }
}

/// What the profile selection does after a frame.
#[derive(Debug, PartialEq, Eq)]
pub enum ProfileOutcome {
    /// Nothing; the name typed so far is fine.
    Nothing,
    /// Show why the name typed so far is refused.
    ShowError(ProfileNameError),
    /// Make this profile the default one and load it, with a sound.
    Load(String, SFX),
}

impl ProfileSelectionState {
    /// A frame with `key`: a refused name shows its error; return on a good,
    /// non-empty name loads that profile.
    pub fn tick(&self, key: Option<Key>) -> (r: ProfileOutcome)
        ensures
            ({
                let name = join_lines(self.editor.lines());
                match name_error(name) {
                    Some(e) => r == ProfileOutcome::ShowError(e),
                    None => if key == Some(Key::Return) && name.len() > 0 {
                        r matches ProfileOutcome::Load(n, sfx) && n@ == name && sfx == SFX::Confirm
                    } else {
                        r == ProfileOutcome::Nothing
                    },
                }
            }),
    {
        let name = self.editor.to_string();
        match validate(name.as_str()) {
            Some(e) => ProfileOutcome::ShowError(e),
            None => {
                if key == Some(Key::Return) && !name.as_str().is_empty() {
                    ProfileOutcome::Load(name, SFX::Confirm)
                } else {
                    ProfileOutcome::Nothing
                }
            },
        }
    }
}

} // verus!
