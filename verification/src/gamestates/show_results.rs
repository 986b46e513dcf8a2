//! The screen after a solution ran: its results, and the leaderboards.
use vstd::prelude::*;

use crate::audio::SFX;
use crate::gamestates::{GameStateEvent, Key};
use crate::levels::base::{LevelTestError, TestCaseRuns};
use crate::math::{Rect, H, W};

verus! {

/// Width of the box with the results.
pub const BOX_W: i32 = 60;

/// Width of a leaderboard.
pub const LDB_W: i32 = 40;

/// Height of the box with the results, and of a leaderboard.
pub const BOX_H: i32 = 30;

/// The box with the results: left of the leaderboards, the pair centered,
/// six columns apart.
pub fn results_box() -> (r: Rect)
    ensures
        r.pos.i == (H - BOX_H) / 2,
        r.pos.j == (W - BOX_W - LDB_W - 6) / 2,
        r.size.w == BOX_W,
        r.size.h == BOX_H,
{
    Rect::new((H - BOX_H) / 2, (W - BOX_W - LDB_W - 6) / 2, BOX_W, BOX_H)
}

/// The two leaderboards, right of the results, one above the other with a
/// row between them.
pub fn leaderboard_boxes() -> (r: (Rect, Rect))
    ensures
        r.0.pos.i == (H - 2 * BOX_H - 1) / 2,
        r.0.pos.j == (W - BOX_W - LDB_W - 6) / 2 + BOX_W + 6,
        r.0.size.w == LDB_W,
        r.0.size.h == BOX_H,
        r.1.pos.i == r.0.pos.i + BOX_H + 1,
        r.1.pos.j == r.0.pos.j,
        r.1.size == r.0.size,
{
    let ldr = Rect::new((H - 2 * BOX_H - 1) / 2, (W - BOX_W - LDB_W - 6) / 2 + BOX_W + 6, LDB_W, BOX_H);
    let second = Rect::new(ldr.pos.i + BOX_H + 1, ldr.pos.j, ldr.size.w, ldr.size.h);
    (ldr, second)
}

/// The solution was read and every test case gave its expected result.
pub open spec fn spec_passed(results: Result<TestCaseRuns, LevelTestError>) -> bool {
    match results {
        Ok(runs) => forall|k: int| 0 <= k < runs.runs@.len() ==> (#[trigger] runs.runs@[k]).spec_is_correct(),
        Err(_) => false,
    }
}

/// Whether the level was solved by these results.
pub fn results_passed(results: &Result<TestCaseRuns, LevelTestError>) -> (r: bool)
    ensures
        r == spec_passed(*results),
{
    match results {
        Ok(runs) => {
            for k in 0..runs.runs.len()
                invariant
                    *results matches Ok(x) && x == *runs,
                    forall|t: int| 0 <= t < k ==> (#[trigger] runs.runs@[t]).spec_is_correct(),
            {
                if !runs.runs[k].is_correct() {
                    assert(!runs.runs@[k as int].spec_is_correct());
                    return false;
                }
            }
            true
        },
        Err(_) => false,
    }
}

/// What a key does on the results: escape goes back to the editor, return,
/// once the level is solved, leaves the editor too.
pub open spec fn key_outcome<S>(passed: bool, pressed: Option<Key>) -> (Option<SFX>, GameStateEvent<S>) {
    if pressed == Some(Key::Escape) {
        (Some(SFX::Back), GameStateEvent::Pop(1))
    } else if pressed == Some(Key::Return) && passed {
        (Some(SFX::Confirm), GameStateEvent::Pop(2))
    } else {
        (None, GameStateEvent::Stay)
    }
}

/// A frame with `pressed` on the results, as `key_outcome` says.
pub fn results_key<S>(passed: bool, pressed: Option<Key>) -> (r: (Option<SFX>, GameStateEvent<S>))
    ensures
        r == key_outcome::<S>(passed, pressed),
{
    match pressed {
        Some(Key::Escape) => (Some(SFX::Back), GameStateEvent::Pop(1)),
        Some(Key::Return) => if passed {
            (Some(SFX::Confirm), GameStateEvent::Pop(2))
        } else {
            (None, GameStateEvent::Stay)
        },
        _ => (None, GameStateEvent::Stay),
    }
}

/// What the results screen does after a frame.
pub enum ResultsAction<S> {
    /// Explain test case number `k` step by step, on top of this screen.
    Explain(usize),
    Event(GameStateEvent<S>),
}

/// A whole frame on the results: a click on the explain button of a test
/// case that ran opens its step by step view, before any key is looked at;
/// otherwise the key decides, as `key_outcome` says.
pub fn results_frame<S>(
    results: &Result<TestCaseRuns, LevelTestError>,
    explain_clicked: Option<usize>,
    pressed: Option<Key>,
) -> (r: (Option<SFX>, ResultsAction<S>))
    ensures
        match (*results, explain_clicked) {
            (Ok(runs), Some(k)) if k < runs.runs@.len() => r.0 is None && (r.1 matches ResultsAction::Explain(x)
                && x == k),
            _ => {
                let (sfx, e) = key_outcome::<S>(spec_passed(*results), pressed);
                r.0 == sfx && (r.1 matches ResultsAction::Event(y) && y == e)
            },
        },
{
    if let Ok(runs) = results {
        if let Some(k) = explain_clicked {
            if k < runs.runs.len() {
                return (None, ResultsAction::Explain(k));
            }
        }
    }
    let passed = results_passed(results);
    let (sfx, e) = results_key(passed, pressed);
    (sfx, ResultsAction::Event(e))
}

} // verus!
