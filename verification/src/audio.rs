//! Sound effects and the volume setting.
use vstd::prelude::*;

verus! {

/// The game's sound effects.
#[derive(Debug, Clone, Copy, PartialEq, Eq, Structural)]
pub enum SFX {
    Back,
    Confirm,
    Select,
    Win,
    Wrong,
}

/// The name of a sound effect, in snake case; its sound file is named after it.
pub open spec fn sfx_name(s: SFX) -> Seq<char> {
    match s {
        SFX::Back => "back"@,
        SFX::Confirm => "confirm"@,
        SFX::Select => "select"@,
        SFX::Win => "win"@,
        SFX::Wrong => "wrong"@,
    }
}

impl SFX {
    pub fn name(self) -> (r: &'static str)
        ensures
            r@ == sfx_name(self),
    {
        proof {
            reveal_strlit("back");
            reveal_strlit("confirm");
            reveal_strlit("select");
            reveal_strlit("win");
            reveal_strlit("wrong");
        }
        match self {
            SFX::Back => "back",
            SFX::Confirm => "confirm",
            SFX::Select => "select",
            SFX::Win => "win",
            SFX::Wrong => "wrong",
        }
    }
}

/// The loudest volume.
pub const MAX_VOLUME: u8 = 10;

/// The volume kept when `vol` is asked for: at most `MAX_VOLUME`.
pub fn set_volume(vol: u8) -> (r: u8)
    ensures
        r == if vol > MAX_VOLUME {
            MAX_VOLUME
        } else {
            vol
        },
{
    if vol > MAX_VOLUME {
        MAX_VOLUME
    } else {
        vol
    }
}

} // verus!
