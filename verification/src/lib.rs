use vstd::prelude::*;

pub mod audio;
pub mod editor;
pub mod gamestates;
pub mod interpreter;
pub mod leaderboards;
pub mod levels;
pub mod math;
pub mod text_editor;
pub mod util;
pub mod widgets;

verus! {

} // verus!
