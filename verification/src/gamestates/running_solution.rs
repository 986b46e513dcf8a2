//! The screen shown while a solution runs.
use vstd::prelude::*;

use crate::audio::SFX;
use crate::gamestates::show_results::{results_passed, spec_passed};
use crate::gamestates::Key;
use crate::levels::base::{LevelTestError, TestCaseRuns};
use crate::util::text::{push_char, push_str};

verus! {

/// What the screen shows while it waits.
pub const WAIT_TEXT: &'static str = "Running solution, please wait";

/// Where the screen goes after a frame.
#[derive(Debug, Clone, Copy, PartialEq, Eq, Structural)]
pub enum RunningOutcome {
    /// Keep waiting.
    Waiting,
    /// The results came: show them in place of this screen.
    ShowResults,
    /// The run was cancelled: go back.
    Back,
}

/// A frame: results that came are shown, with a winning sound if they solve
/// the level and a wrong one if not; else escape cancels the run.
pub fn running_tick(results: Option<&Result<TestCaseRuns, LevelTestError>>, key: Option<Key>) -> (r: (
    Option<SFX>,
    RunningOutcome,
))
    ensures
        match results {
            Some(res) => r == (
                Some(if spec_passed(*res) {
                    SFX::Win
                } else {
                    SFX::Wrong
                }),
                RunningOutcome::ShowResults,
            ),
            None => if key == Some(Key::Escape) {
                r == (Some(SFX::Back), RunningOutcome::Back)
            } else {
                r == (None::<SFX>, RunningOutcome::Waiting)
            },
        },
{
    match results {
        Some(res) => {
            let sfx = if results_passed(res) {
                SFX::Win
            } else {
                SFX::Wrong
            };
            (Some(sfx), RunningOutcome::ShowResults)
        },
        None => if key == Some(Key::Escape) {
            (Some(SFX::Back), RunningOutcome::Back)
        } else {
            (None, RunningOutcome::Waiting)
        },
    }
}

/// The waiting text after `time_ms`: `WAIT_TEXT` and up to three dots, one
/// more every half second.
pub fn wait_text(time_ms: u64) -> (r: String)
    ensures
        r@ == WAIT_TEXT@ + Seq::new(((time_ms / 500) % 4) as nat, |i: int| '.'),
{
    let dots = (time_ms / 500) % 4;
    let mut r = String::new();
    push_str(&mut r, WAIT_TEXT);
    let mut k: u64 = 0;
    while k < dots
        invariant
            k <= dots,
            r@ == WAIT_TEXT@ + Seq::new(k as nat, |i: int| '.'),
        decreases dots - k,
    {
        push_char(&mut r, '.');
        k = k + 1;
        assert(r@ =~= WAIT_TEXT@ + Seq::new(k as nat, |i: int| '.'));
    }
    r
}

} // verus!
