//! The screen where the solution of a level is written: which of its
//! solution slots is open, and when the code is saved.
use vstd::prelude::*;

use crate::audio::SFX;
use crate::gamestates::Key;

verus! {

/// How many solution slots a level has, numbered from 1.
pub const SOLUTIONS: u8 = 3;

/// How long the code may go unsaved, in milliseconds.
pub const AUTOSAVE_MS: u64 = 20000;

/// Something the screen does to the outside world, in order.
#[derive(Debug, Clone, Copy, PartialEq, Eq, Structural)]
pub enum EditorStep {
    /// Save the code of the editor in this slot.
    Save(u8),
    /// Load this slot into the editor.
    Load(u8),
    Sound(SFX),
}

/// Where the screen goes after a frame.
#[derive(Debug, Clone, Copy, PartialEq, Eq, Structural)]
pub enum EditorEvent {
    Stay,
    /// Run the solution, on top of this screen.
    RunSolution,
    /// Open the code on the playground, on top of this screen.
    OpenPlayground,
    /// Go back to the screen below.
    Back,
}

/// What happened during a frame.
#[derive(Debug, Clone, Copy, PartialEq, Eq, Structural)]
pub struct EditorFrame {
    /// The time the screen has been open, in milliseconds.
    pub now_ms: u64,
    /// The slot button clicked, if any.
    pub clicked_solution: Option<u8>,
    /// The hint button was clicked.
    pub hint_clicked: bool,
    pub run_clicked: bool,
    pub playground_clicked: bool,
    pub ctrl: bool,
    pub key: Option<Key>,
}

/// The open slot, when the code was last saved, and whether the hint was
/// asked for.
#[derive(Debug, Clone, Copy, PartialEq, Eq, Structural)]
pub struct EditorSession {
    pub current_solution: u8,
    pub last_save_ms: u64,
    pub pressed_hint: bool,
}

/// After a click on slot `c`: a slot other than the open one is saved into
/// and left for `c`.
pub open spec fn after_slot_click(st: EditorSession, f: EditorFrame) -> (EditorSession, Seq<EditorStep>) {
    match f.clicked_solution {
        Some(c) => if 1 <= c <= SOLUTIONS && c != st.current_solution {
            (
                EditorSession { current_solution: c, last_save_ms: f.now_ms, ..st },
                seq![EditorStep::Save(st.current_solution), EditorStep::Load(c)],
            )
        } else {
            (st, Seq::empty())
        },
        None => (st, Seq::empty()),
    }
}

/// The code is saved when it went unsaved longer than `AUTOSAVE_MS`.
pub open spec fn after_autosave(st: EditorSession, f: EditorFrame) -> (EditorSession, Seq<EditorStep>) {
    if f.now_ms - st.last_save_ms > AUTOSAVE_MS {
        (EditorSession { last_save_ms: f.now_ms, ..st }, seq![EditorStep::Save(st.current_solution)])
    } else {
        (st, Seq::empty())
    }
}

/// The end of a frame: running (by the button or ctrl+return) saves and runs
/// the solution; else the playground button opens the playground; else F10
/// saves, and escape saves and goes back.
pub open spec fn after_keys(st: EditorSession, f: EditorFrame) -> (EditorSession, Seq<EditorStep>, EditorEvent) {
    if f.run_clicked || (f.ctrl && f.key == Some(Key::Return)) {
        (
            EditorSession { last_save_ms: f.now_ms, ..st },
            seq![EditorStep::Save(st.current_solution)],
            EditorEvent::RunSolution,
        )
    } else if f.playground_clicked {
        (st, seq![EditorStep::Sound(SFX::Select)], EditorEvent::OpenPlayground)
    } else if f.key == Some(Key::F10) {
        (
            EditorSession { last_save_ms: f.now_ms, ..st },
            seq![EditorStep::Save(st.current_solution)],
            EditorEvent::Stay,
        )
    } else if f.key == Some(Key::Escape) {
        (
            EditorSession { last_save_ms: f.now_ms, ..st },
            seq![EditorStep::Sound(SFX::Back), EditorStep::Save(st.current_solution)],
            EditorEvent::Back,
        )
    } else {
        (st, Seq::empty(), EditorEvent::Stay)
    }
}

/// A whole frame: the hint, the slot buttons, the autosave, then the keys.
pub open spec fn editor_frame(st: EditorSession, f: EditorFrame) -> (EditorSession, Seq<EditorStep>, EditorEvent) {
    let s0 = EditorSession { pressed_hint: st.pressed_hint || f.hint_clicked, ..st };
    let (s1, a1) = after_slot_click(s0, f);
    let (s2, a2) = after_autosave(s1, f);
    let (s3, a3, e) = after_keys(s2, f);
    (s3, a1 + a2 + a3, e)
}

/// A session is sound when its slot is one of the level's and it was saved
/// no later than `now`.
pub open spec fn session_valid(st: EditorSession, now: u64) -> bool {
    &&& 1 <= st.current_solution <= SOLUTIONS
    &&& st.last_save_ms <= now
}

impl EditorSession {
    /// The first slot open, nothing saved yet; the first slot is loaded.
    pub fn new() -> (r: (EditorSession, EditorStep))
        ensures
            r.0 == (EditorSession { current_solution: 1, last_save_ms: 0, pressed_hint: false }),
            r.1 == EditorStep::Load(1),
    {
        (EditorSession { current_solution: 1, last_save_ms: 0, pressed_hint: false }, EditorStep::Load(1))
    }

    /// One frame, as `editor_frame` says.
    pub fn frame(&mut self, f: EditorFrame) -> (r: (Vec<EditorStep>, EditorEvent))
        requires
            session_valid(*old(self), f.now_ms),
        ensures
            session_valid(*final(self), f.now_ms),
            (*final(self), r.0@, r.1) == editor_frame(*old(self), f),
    {
        let mut steps: Vec<EditorStep> = Vec::new();
        self.pressed_hint = self.pressed_hint || f.hint_clicked;
        if let Some(c) = f.clicked_solution {
            if 1 <= c && c <= SOLUTIONS && c != self.current_solution {
                steps.push(EditorStep::Save(self.current_solution));
                steps.push(EditorStep::Load(c));
                self.current_solution = c;
                self.last_save_ms = f.now_ms;
            }
        }
        let ghost a1 = steps@;
        if f.now_ms - self.last_save_ms > AUTOSAVE_MS {
            steps.push(EditorStep::Save(self.current_solution));
            self.last_save_ms = f.now_ms;
        }
        let ghost a2 = steps@.skip(a1.len() as int);
        let ghost n2 = steps@.len();
        let event = if f.run_clicked || (f.ctrl && f.key == Some(Key::Return)) {
            steps.push(EditorStep::Save(self.current_solution));
            self.last_save_ms = f.now_ms;
            EditorEvent::RunSolution
        } else if f.playground_clicked {
            steps.push(EditorStep::Sound(SFX::Select));
            EditorEvent::OpenPlayground
        } else if f.key == Some(Key::F10) {
            steps.push(EditorStep::Save(self.current_solution));
            self.last_save_ms = f.now_ms;
            EditorEvent::Stay
        } else if f.key == Some(Key::Escape) {
            steps.push(EditorStep::Sound(SFX::Back));
            steps.push(EditorStep::Save(self.current_solution));
            self.last_save_ms = f.now_ms;
            EditorEvent::Back
        } else {
            EditorEvent::Stay
        };
        proof {
            let a3 = steps@.skip(n2 as int);
            assert(steps@ =~= a1 + a2 + a3);
        }
        (steps, event)
    }
}

/// After any frame the code was saved at most `AUTOSAVE_MS` before it, and
/// leaving the screen, or running the solution, saves the open slot last.
pub proof fn editor_keeps_code_saved(st: EditorSession, f: EditorFrame)
    requires
        session_valid(st, f.now_ms),
    ensures
        ({
            let (s, steps, e) = editor_frame(st, f);
            &&& session_valid(s, f.now_ms)
            &&& f.now_ms - s.last_save_ms <= AUTOSAVE_MS
            &&& (e == EditorEvent::Back || e == EditorEvent::RunSolution) ==> steps.len() > 0 && steps.last()
                == EditorStep::Save(s.current_solution)
        }),
{
}

/// Opening another slot saves the code into the slot left, then loads the
/// new one.
pub proof fn switch_saves_then_loads(st: EditorSession, f: EditorFrame, c: u8)
    requires
        session_valid(st, f.now_ms),
        f.clicked_solution == Some(c),
        1 <= c <= SOLUTIONS,
        c != st.current_solution,
    ensures
        ({
            let (s, steps, e) = editor_frame(st, f);
            &&& s.current_solution == c
            &&& steps.len() >= 2
            &&& steps[0] == EditorStep::Save(st.current_solution)
            &&& steps[1] == EditorStep::Load(c)
        }),
{
}

} // verus!
