use vstd::prelude::*;

pub mod debugger;
pub mod editor;
pub mod intro;
pub mod level_creator;
pub mod level_selection;
pub mod main_menu;
pub mod playground;
pub mod profile_selection;
pub mod running_solution;
pub mod save_loader;
pub mod settings;
pub mod show_results;
pub mod string_reader;
pub mod user_created_levels;

verus! {

/// What happened during a frame, besides key presses.
#[derive(Debug, Clone, Copy, PartialEq, Eq, Structural)]
pub struct EventTickData {
    pub left_click: bool,
}

impl Default for EventTickData {
    fn default() -> (r: Self)
        ensures
            !r.left_click,
    {
        EventTickData { left_click: false }
    }
}


/// The keys the screens react to.
#[derive(Debug, Clone, Copy, PartialEq, Eq, Structural)]
pub enum Key {
    Up,
    Down,
    Left,
    Right,
    Escape,
    Return,
    F10,
    N,
    U,
}

/// What a screen asks of the stack of screens after a frame.
#[derive(Debug)]
pub enum GameStateEvent<S> {
    /// Keep running the current screen.
    Stay,
    /// Put `S` in place of the current screen.
    Switch(S),
    /// Put `S` on top of the current screen; only the top screen runs.
    Push(S),
    /// Remove this many screens and go back to the one below; ignored when
    /// the stack holds no screen below the ones to remove.
    Pop(u8),
}

/// A screen on the stack, and how long it has run, in milliseconds.
#[derive(Debug)]
pub struct GSData<S> {
    pub cur: S,
    pub time_ms: u64,
}

/// A screen that has not run yet.
pub open spec fn fresh<S>(s: S) -> GSData<S> {
    GSData { cur: s, time_ms: 0 }
}

/// The stack of screens, never empty. Only the last one runs: it alone is
/// handed out to take events and ticks, and its time alone goes on.
pub struct GameStateStack<S> {
    all_gs: Vec<GSData<S>>,
}

/// The stack `st` after `e`: a screen switched in or pushed starts with no
/// time run.
pub open spec fn after_game_event<S>(st: Seq<GSData<S>>, e: GameStateEvent<S>) -> Seq<GSData<S>> {
    match e {
        GameStateEvent::Stay => st,
        GameStateEvent::Switch(s) => st.drop_last().push(fresh(s)),
        GameStateEvent::Push(s) => st.push(fresh(s)),
        GameStateEvent::Pop(n) => if n < st.len() {
            st.take(st.len() - n)
        } else {
            st
        },
    }
}

/// The stack `st` after a frame of `elapsed_ms` milliseconds in which its
/// running screen asked for `e`: the running screen's time goes on, then
/// `e` applies.
pub open spec fn after_frame<S>(st: Seq<GSData<S>>, elapsed_ms: u64, e: GameStateEvent<S>) -> Seq<GSData<S>> {
    let top = st.last();
    after_game_event(
        st.update(st.len() - 1, GSData { cur: top.cur, time_ms: (top.time_ms + elapsed_ms) as u64 }),
        e,
    )
}

impl<S> GameStateStack<S> {
    #[verifier::type_invariant]
    spec fn inv(self) -> bool {
        self.all_gs.len() > 0
    }

    /// The screens, bottom first.
    pub closed spec fn screens(self) -> Seq<GSData<S>> {
        self.all_gs@
    }

    /// A stack holding only `first`, which has not run yet.
    pub fn new(first: S) -> (r: Self)
        ensures
            r.screens() == seq![fresh(first)],
    {
        let mut all_gs = Vec::new();
        all_gs.push(GSData { cur: first, time_ms: 0 });
        assert(all_gs@ =~= seq![fresh(first)]);
        GameStateStack { all_gs }
    }

    /// The running screen.
    pub fn last(&self) -> (r: &GSData<S>)
        ensures
            self.screens().len() > 0,
            *r == self.screens().last(),
    {
        proof {
            use_type_invariant(self);
        }
        &self.all_gs[self.all_gs.len() - 1]
    }

    /// The running screen, to take the frame's events and tick; the screens
    /// below it and its time stay as they are.
    pub fn top_mut(&mut self) -> (r: &mut S)
        ensures
            old(self).screens().len() > 0,
            *r == old(self).screens().last().cur,
            final(self).screens() == old(self).screens().update(
                old(self).screens().len() - 1,
                GSData { cur: *final(r), time_ms: old(self).screens().last().time_ms },
            ),
    {
        proof {
            use_type_invariant(&*self);
        }
        let last = self.all_gs.len() - 1;
        &mut self.all_gs[last].cur
    }

    pub fn len(&self) -> (r: usize)
        ensures
            r == self.screens().len(),
            r > 0,
    {
        proof {
            use_type_invariant(self);
        }
        self.all_gs.len()
    }

    /// Ends a frame of `elapsed_ms` milliseconds in which the running screen
    /// asked for `event`, as `after_frame` says.
    pub fn frame(self, elapsed_ms: u64, event: GameStateEvent<S>) -> (r: Self)
        requires
            self.screens().len() > 0 ==> self.screens().last().time_ms + elapsed_ms <= u64::MAX,
        ensures
            r.screens() == after_frame(self.screens(), elapsed_ms, event),
    {
        proof {
            use_type_invariant(&self);
        }
        let ghost st0 = self.all_gs@;
        let GameStateStack { all_gs } = self;
        let mut all_gs = all_gs;
        let top = all_gs.pop().unwrap();
        let GSData { cur, time_ms } = top;
        all_gs.push(GSData { cur, time_ms: time_ms + elapsed_ms });
        let ghost st = all_gs@;
        assert(st =~= st0.update(st0.len() - 1, GSData { cur: st0.last().cur, time_ms: (st0.last().time_ms + elapsed_ms) as u64 }));
        match event {
            GameStateEvent::Stay => {},
            GameStateEvent::Switch(new) => {
                all_gs.pop();
                all_gs.push(GSData { cur: new, time_ms: 0 });
                assert(all_gs@ =~= st.drop_last().push(fresh(new)));
            },
            GameStateEvent::Push(new) => {
                all_gs.push(GSData { cur: new, time_ms: 0 });
            },
            GameStateEvent::Pop(n) => {
                if (n as usize) < all_gs.len() {
                    assert(st.take(st.len() as int) =~= st);
                    let mut k: u8 = 0;
                    while k < n
                        invariant
                            k <= n,
                            n < st.len(),
                            all_gs@ == st.take(st.len() - k),
                        decreases n - k,
                    {
                        all_gs.pop();
                        k = k + 1;
                        assert(st.take(st.len() - (k - 1)).drop_last() =~= st.take(st.len() - k));
                    }
                }
            },
        }
        GameStateStack { all_gs }
    }
}

/// Pushing a screen and then popping one gives back the stack as it was.
pub proof fn pop_undoes_push<S>(st: Seq<GSData<S>>, s: S)
    requires
        st.len() > 0,
    ensures
        after_game_event(after_game_event(st, GameStateEvent::Push(s)), GameStateEvent::Pop(1)) == st,
{
    assert(st.push(fresh(s)).take(st.len() as int) =~= st);
}

/// Whatever happens, a stack of screens keeps at least one screen; a switch
/// keeps its height, and a pop of as many screens as the stack holds, or
/// more, leaves it as it was.
pub proof fn stack_never_empty<S>(st: Seq<GSData<S>>, e: GameStateEvent<S>)
    requires
        st.len() > 0,
    ensures
        after_game_event(st, e).len() > 0,
        e is Switch ==> after_game_event(st, e).len() == st.len(),
        e matches GameStateEvent::Pop(n) && n >= st.len() ==> after_game_event(st, e) == st,
{
}
/// Over a frame only the running screen's time goes on, by the frame's
/// length; the screens below it keep their state and time, and a screen
/// switched in or pushed starts with no time run.
pub proof fn frame_runs_only_the_top<S>(st: Seq<GSData<S>>, elapsed_ms: u64, e: GameStateEvent<S>)
    requires
        st.len() > 0,
        st.last().time_ms + elapsed_ms <= u64::MAX,
    ensures
        ({
            let r = after_frame(st, elapsed_ms, e);
            let k = st.len() - 1;
            &&& forall|i: int| 0 <= i < k && i < r.len() ==> r[i] == st[i]
            &&& e is Stay ==> r[k] == (GSData { cur: st[k].cur, time_ms: (st[k].time_ms + elapsed_ms) as u64 })
            &&& e matches GameStateEvent::Push(s) ==> r.len() == st.len() + 1 && r[k] == (GSData {
                cur: st[k].cur,
                time_ms: (st[k].time_ms + elapsed_ms) as u64,
            }) && r[k + 1] == fresh(s)
            &&& e matches GameStateEvent::Switch(s) ==> r.len() == st.len() && r[k] == fresh(s)
        }),
{
}


} // verus!
