//! Reduction of terms.
use vstd::prelude::*;

use super::constants::ConstantProvider;
use super::parser::{well_formed, Node, Variable};
use super::tokenizer::TVariable;

verus! {

#[derive(Debug, Clone, Copy, PartialEq, Eq, Structural)]
pub enum InterpretError {
    /// The interpreter reached a state it should never reach: a depth that no
    /// `usize` holds.
    AlgorithmError,
    /// The interpretation went too deep; the term probably has no reduction.
    TooDeep,
}

impl InterpretError {
    /// The message shown for the error.
    pub fn message(&self) -> (r: &'static str)
        ensures
            r@ == match *self {
                InterpretError::AlgorithmError => "The interpreter algorithm is wrong, this shouldn't happen."@,
                InterpretError::TooDeep => "The interpretation has gone too deep, expression probably has no reduction."@,
            },
    {
        match self {
            InterpretError::AlgorithmError => "The interpreter algorithm is wrong, this shouldn't happen.",
            InterpretError::TooDeep => "The interpretation has gone too deep, expression probably has no reduction.",
        }
    }
}

/// How deep the interpretation may go before it gives up.
pub const MAX_LEVEL: usize = 100;

/// `n`, standing inside `nest` functions of the term being changed, with
/// `amount` added to the depth of every variable that no function of that term
/// binds. `None` if a depth would exceed `usize::MAX`.
pub open spec fn shift_unbound(n: Box<Node>, nest: int, amount: int) -> Option<Box<Node>>
    decreases n,
{
    match *n {
        Node::Variable(v) => {
            if v.depth >= nest {
                if v.depth + amount > usize::MAX {
                    None
                } else {
                    Some(
                        Box::new(
                            Node::Variable(
                                Variable { depth: (v.depth + amount) as usize, original: v.original },
                            ),
                        ),
                    )
                }
            } else {
                Some(n)
            }
        },
        Node::Function { variable, body } => {
            if nest + 1 > usize::MAX {
                None
            } else {
                match shift_unbound(body, nest + 1, amount) {
                    Some(b) => Some(Box::new(Node::Function { variable, body: b })),
                    None => None,
                }
            }
        },
        Node::Apply { left, right } => match shift_unbound(left, nest, amount) {
            Some(l) => match shift_unbound(right, nest, amount) {
                Some(r) => Some(Box::new(Node::Apply { left: l, right: r })),
                None => None,
            },
            None => None,
        },
        Node::Constant(_) => Some(n),
    }
}

/// `root`, the body of a function, with `value` in place of the variables bound
/// by that function, where `root` stands inside `cur` functions of that body.
/// Variables pointing beyond that function get one less depth, since the
/// function goes away; the copies of `value` get the depth of their new place.
/// `None` if a depth would exceed `usize::MAX`.
pub open spec fn replace(root: Box<Node>, cur: int, value: Box<Node>) -> Option<Box<Node>>
    decreases root,
{
    match *root {
        Node::Variable(v) => {
            if v.depth == cur {
                shift_unbound(value, 0, cur)
            } else if v.depth > cur {
                Some(
                    Box::new(
                        Node::Variable(Variable { depth: (v.depth - 1) as usize, original: v.original }),
                    ),
                )
            } else {
                Some(root)
            }
        },
        Node::Function { variable, body } => {
            if cur + 1 > usize::MAX {
                None
            } else {
                match replace(body, cur + 1, value) {
                    Some(b) => Some(Box::new(Node::Function { variable, body: b })),
                    None => None,
                }
            }
        },
        Node::Apply { left, right } => match replace(left, cur, value) {
            Some(l) => match replace(right, cur, value) {
                Some(r) => Some(Box::new(Node::Apply { left: l, right: r })),
                None => None,
            },
            None => None,
        },
        Node::Constant(_) => Some(root),
    }
}

pub open spec fn wrap_left(ys: Seq<Box<Node>>, right: Box<Node>) -> Seq<Box<Node>> {
    ys.map_values(|y: Box<Node>| Box::new(Node::Apply { left: y, right }))
}

pub open spec fn wrap_right(ys: Seq<Box<Node>>, left: Box<Node>) -> Seq<Box<Node>> {
    ys.map_values(|y: Box<Node>| Box::new(Node::Apply { left, right: y }))
}

pub open spec fn wrap_function(ys: Seq<Box<Node>>, variable: TVariable) -> Seq<Box<Node>> {
    ys.map_values(|y: Box<Node>| Box::new(Node::Function { variable, body: y }))
}

/// Interpretation of `root` at depth `level`: the intermediate terms it shows
/// (when `yields` is set), each as the whole subterm `root` has become, and its
/// result.
///
/// An application first interprets its left side, then its right side (fully
/// only if `full`); if the left side is then a function and `do_apply` holds,
/// its body with the right side in place of its variable is shown and
/// interpreted in turn. A function's body is interpreted applying only if
/// `full`. A constant becomes what the provider gives for it, if anything.
/// Going deeper than `MAX_LEVEL` fails with `TooDeep`.
pub open spec fn interp(
    p: ConstantProvider,
    full: bool,
    yields: bool,
    level: int,
    root: Box<Node>,
    do_apply: bool,
) -> (Seq<Box<Node>>, Result<Box<Node>, InterpretError>)
    decreases MAX_LEVEL + 1 - level, 2int,
{
    if level > MAX_LEVEL || level < 0 {
        (seq![], Err(InterpretError::TooDeep))
    } else {
        match *root {
            Node::Apply { left, right } => interp_apply(p, full, yields, level, left, right, do_apply),
            Node::Variable(_) => (seq![], Ok(root)),
            Node::Function { variable, body } => {
                let (y, b) = interp(p, full, yields, level + 1, body, full);
                let w = wrap_function(y, variable);
                match b {
                    Err(e) => (w, Err(e)),
                    Ok(b2) => (w, Ok(Box::new(Node::Function { variable, body: b2 }))),
                }
            },
            Node::Constant(c) => (
                seq![],
                Ok(
                    match p.get_spec(c@) {
                        Some(t) => t,
                        None => root,
                    },
                ),
            ),
        }
    }
}

/// Interpretation of the application of `left` to `right` at depth `level`.
pub open spec fn interp_apply(
    p: ConstantProvider,
    full: bool,
    yields: bool,
    level: int,
    left: Box<Node>,
    right: Box<Node>,
    do_apply: bool,
) -> (Seq<Box<Node>>, Result<Box<Node>, InterpretError>)
    decreases MAX_LEVEL + 1 - level, 1int,
{
    if level > MAX_LEVEL || level < 0 {
        (seq![], Err(InterpretError::TooDeep))
    } else {
        let (y1, l) = interp(p, full, yields, level + 1, left, do_apply);
        let w1 = wrap_left(y1, right);
        match l {
            Err(e) => (w1, Err(e)),
            Ok(l2) => {
                let (y2, r) = interp(p, full, yields, level + 1, right, full);
                let w2 = wrap_right(y2, l2);
                match r {
                    Err(e) => (w1 + w2, Err(e)),
                    Ok(r2) => {
                        let (y3, res) = interp_reduce(p, full, yields, level, l2, r2, do_apply);
                        (w1 + w2 + y3, res)
                    },
                }
            },
        }
    }
}

/// The last step of interpreting an application at depth `level`, once its
/// sides became `l2` and `r2`.
pub open spec fn interp_reduce(
    p: ConstantProvider,
    full: bool,
    yields: bool,
    level: int,
    l2: Box<Node>,
    r2: Box<Node>,
    do_apply: bool,
) -> (Seq<Box<Node>>, Result<Box<Node>, InterpretError>)
    decreases MAX_LEVEL + 1 - level, 0int,
{
    if level > MAX_LEVEL || level < 0 {
        (seq![], Err(InterpretError::TooDeep))
    } else if do_apply && (*l2 is Function) {
        match replace(l2->body, 0, r2) {
            None => (seq![], Err(InterpretError::AlgorithmError)),
            Some(b) => {
                let (y3, res) = interp(p, full, yields, level + 1, b, true);
                let shown = if yields {
                    seq![b]
                } else {
                    seq![]
                };
                (shown + y3, res)
            },
        }
    } else {
        (seq![], Ok(Box::new(Node::Apply { left: l2, right: r2 })))
    }
}

} // verus!

verus! {

/// A copy of `root` with `amount` added to the depth of every variable that no
/// function of `root` binds, where `root` stands inside `cur_depth` functions.
fn shift_unbound_copy(root: &Node, cur_depth: usize, amount: usize) -> (r: Option<Box<Node>>)
    ensures
        r == shift_unbound(Box::new(*root), cur_depth as int, amount as int),
    decreases root,
{
    match root {
        Node::Variable(v) => {
            if v.depth >= cur_depth {
                if v.depth > usize::MAX - amount {
                    None
                } else {
                    Some(
                        Box::new(
                            Node::Variable(Variable { depth: v.depth + amount, original: v.original }),
                        ),
                    )
                }
            } else {
                Some(Box::new(Node::Variable(*v)))
            }
        },
        Node::Function { variable, body } => {
            if cur_depth == usize::MAX {
                None
            } else {
                match shift_unbound_copy(&**body, cur_depth + 1, amount) {
                    Some(b) => Some(Box::new(Node::Function { variable: *variable, body: b })),
                    None => None,
                }
            }
        },
        Node::Apply { left, right } => match shift_unbound_copy(&**left, cur_depth, amount) {
            Some(l) => match shift_unbound_copy(&**right, cur_depth, amount) {
                Some(r) => Some(Box::new(Node::Apply { left: l, right: r })),
                None => None,
            },
            None => None,
        },
        Node::Constant(c) => Some(Box::new(Node::Constant(c.clone()))),
    }
}

/// `root` with `value` in place of the variables of depth `cur_depth`, as
/// `replace` says.
fn replace_req(root: Box<Node>, cur_depth: usize, value: &Node) -> (r: Option<Box<Node>>)
    ensures
        r == replace(root, cur_depth as int, Box::new(*value)),
    decreases root,
{
    match *root {
        Node::Variable(v) => {
            if v.depth == cur_depth {
                // Unbound variables of the value must stay unbound at their new place.
                shift_unbound_copy(value, 0, cur_depth)
            } else if v.depth > cur_depth {
                Some(Box::new(Node::Variable(Variable { depth: v.depth - 1, original: v.original })))
            } else {
                Some(Box::new(Node::Variable(v)))
            }
        },
        Node::Function { variable, body } => {
            if cur_depth == usize::MAX {
                None
            } else {
                match replace_req(body, cur_depth + 1, value) {
                    Some(b) => Some(Box::new(Node::Function { variable, body: b })),
                    None => None,
                }
            }
        },
        Node::Apply { left, right } => match replace_req(left, cur_depth, value) {
            Some(l) => match replace_req(right, cur_depth, value) {
                Some(r) => Some(Box::new(Node::Apply { left: l, right: r })),
                None => None,
            },
            None => None,
        },
        Node::Constant(c) => Some(Box::new(Node::Constant(c))),
    }
}

} // verus!

verus! {

/// Where a subterm being interpreted stands inside the term shown to the user.
pub enum Frame {
    /// The left side of an application whose right side is this.
    Left(Box<Node>),
    /// The right side of an application whose left side is this.
    Right(Box<Node>),
    /// The body of a function of this variable.
    Func(TVariable),
}

pub open spec fn apply_frame(f: Frame, y: Box<Node>) -> Box<Node> {
    match f {
        Frame::Left(r) => Box::new(Node::Apply { left: y, right: r }),
        Frame::Right(l) => Box::new(Node::Apply { left: l, right: y }),
        Frame::Func(v) => Box::new(Node::Function { variable: v, body: y }),
    }
}

/// `y` put in its place inside `frames`, the outermost frame first.
pub open spec fn plug(frames: Seq<Frame>, y: Box<Node>) -> Box<Node>
    decreases frames.len(),
{
    if frames.len() == 0 {
        y
    } else {
        plug(frames.drop_last(), apply_frame(frames.last(), y))
    }
}

pub open spec fn plug_all(frames: Seq<Frame>, ys: Seq<Box<Node>>) -> Seq<Box<Node>> {
    ys.map_values(|y: Box<Node>| plug(frames, y))
}

fn copy_frame(f: &Frame) -> (r: Frame)
    ensures
        r == *f,
{
    match f {
        Frame::Left(n) => Frame::Left(Box::new((**n).copy())),
        Frame::Right(n) => Frame::Right(Box::new((**n).copy())),
        Frame::Func(v) => Frame::Func(*v),
    }
}

fn plug_exec(frames: &Vec<Frame>, y: Box<Node>) -> (r: Box<Node>)
    ensures
        r == plug(frames@, y),
{
    let mut node = y;
    let mut j = frames.len();
    assert(frames@.take(j as int) =~= frames@);
    while j > 0
        invariant
            j <= frames.len(),
            plug(frames@, y) == plug(frames@.take(j as int), node),
        decreases j,
    {
        assert(frames@.take(j as int).drop_last() =~= frames@.take(j - 1));
        let f = copy_frame(&frames[j - 1]);
        node = match f {
            Frame::Left(r) => Box::new(Node::Apply { left: node, right: r }),
            Frame::Right(l) => Box::new(Node::Apply { left: l, right: node }),
            Frame::Func(v) => Box::new(Node::Function { variable: v, body: node }),
        };
        j -= 1;
    }
    node
}

proof fn lemma_plug_push(frames: Seq<Frame>, f: Frame, y: Box<Node>)
    ensures
        plug(frames.push(f), y) == plug(frames, apply_frame(f, y)),
{
    assert(frames.push(f).drop_last() =~= frames);
}


proof fn lemma_plug_all_concat(frames: Seq<Frame>, a: Seq<Box<Node>>, b: Seq<Box<Node>>)
    ensures
        plug_all(frames, a + b) == plug_all(frames, a) + plug_all(frames, b),
{
    assert(plug_all(frames, a + b) =~= plug_all(frames, a) + plug_all(frames, b));
}

proof fn lemma_plug_all_empty(frames: Seq<Frame>)
    ensures
        plug_all(frames, Seq::<Box<Node>>::empty()) == Seq::<Box<Node>>::empty(),
{
    assert(plug_all(frames, Seq::<Box<Node>>::empty()) =~= Seq::<Box<Node>>::empty());
}

proof fn lemma_plug_all_left(frames: Seq<Frame>, ys: Seq<Box<Node>>, right: Box<Node>)
    ensures
        plug_all(frames.push(Frame::Left(right)), ys) == plug_all(frames, wrap_left(ys, right)),
{
    assert forall|k: int| 0 <= k < ys.len() implies plug(frames.push(Frame::Left(right)), #[trigger] ys[k])
        == plug(frames, wrap_left(ys, right)[k]) by {
        lemma_plug_push(frames, Frame::Left(right), ys[k]);
    }
    assert(plug_all(frames.push(Frame::Left(right)), ys) =~= plug_all(frames, wrap_left(ys, right)));
}

proof fn lemma_plug_all_right(frames: Seq<Frame>, ys: Seq<Box<Node>>, left: Box<Node>)
    ensures
        plug_all(frames.push(Frame::Right(left)), ys) == plug_all(frames, wrap_right(ys, left)),
{
    assert forall|k: int| 0 <= k < ys.len() implies plug(frames.push(Frame::Right(left)), #[trigger] ys[k])
        == plug(frames, wrap_right(ys, left)[k]) by {
        lemma_plug_push(frames, Frame::Right(left), ys[k]);
    }
    assert(plug_all(frames.push(Frame::Right(left)), ys) =~= plug_all(frames, wrap_right(ys, left)));
}

proof fn lemma_plug_all_function(frames: Seq<Frame>, ys: Seq<Box<Node>>, v: TVariable)
    ensures
        plug_all(frames.push(Frame::Func(v)), ys) == plug_all(frames, wrap_function(ys, v)),
{
    assert forall|k: int| 0 <= k < ys.len() implies plug(frames.push(Frame::Func(v)), #[trigger] ys[k])
        == plug(frames, wrap_function(ys, v)[k]) by {
        lemma_plug_push(frames, Frame::Func(v), ys[k]);
    }
    assert(plug_all(frames.push(Frame::Func(v)), ys) =~= plug_all(frames, wrap_function(ys, v)));
}

/// Interpreting with `yields` off shows nothing.
proof fn lemma_no_yields(p: ConstantProvider, full: bool, level: int, root: Box<Node>, do_apply: bool)
    ensures
        interp(p, full, false, level, root, do_apply).0 == Seq::<Box<Node>>::empty(),
    decreases MAX_LEVEL + 1 - level, 2int,
{
    if !(level > MAX_LEVEL || level < 0) {
        match *root {
            Node::Apply { left, right } => lemma_no_yields_apply(p, full, level, left, right, do_apply),
            Node::Function { variable, body } => {
                lemma_no_yields(p, full, level + 1, body, full);
                let (y, b) = interp(p, full, false, level + 1, body, full);
                assert(wrap_function(y, variable) =~= Seq::<Box<Node>>::empty());
            },
            _ => {},
        }
    }
}

proof fn lemma_no_yields_apply(
    p: ConstantProvider,
    full: bool,
    level: int,
    left: Box<Node>,
    right: Box<Node>,
    do_apply: bool,
)
    ensures
        interp_apply(p, full, false, level, left, right, do_apply).0 == Seq::<Box<Node>>::empty(),
    decreases MAX_LEVEL + 1 - level, 1int,
{
    if !(level > MAX_LEVEL || level < 0) {
        lemma_no_yields(p, full, level + 1, left, do_apply);
        let (y1, l) = interp(p, full, false, level + 1, left, do_apply);
        assert(wrap_left(y1, right) =~= Seq::<Box<Node>>::empty());
        if let Ok(l2) = l {
            lemma_no_yields(p, full, level + 1, right, full);
            let (y2, r) = interp(p, full, false, level + 1, right, full);
            assert(wrap_right(y2, l2) =~= Seq::<Box<Node>>::empty());
            if let Ok(r2) = r {
                lemma_no_yields_reduce(p, full, level, l2, r2, do_apply);
                assert(Seq::<Box<Node>>::empty() + Seq::<Box<Node>>::empty() + Seq::<
                    Box<Node>,
                >::empty() =~= Seq::<Box<Node>>::empty());
            } else {
                assert(Seq::<Box<Node>>::empty() + Seq::<Box<Node>>::empty() =~= Seq::<
                    Box<Node>,
                >::empty());
            }
        }
    }
}

proof fn lemma_no_yields_reduce(
    p: ConstantProvider,
    full: bool,
    level: int,
    l2: Box<Node>,
    r2: Box<Node>,
    do_apply: bool,
)
    ensures
        interp_reduce(p, full, false, level, l2, r2, do_apply).0 == Seq::<Box<Node>>::empty(),
    decreases MAX_LEVEL + 1 - level, 0int,
{
    if !(level > MAX_LEVEL || level < 0) && do_apply && (*l2 is Function) {
        if let Some(b) = replace(l2->body, 0, r2) {
            lemma_no_yields(p, full, level + 1, b, true);
            assert(Seq::<Box<Node>>::empty() + Seq::<Box<Node>>::empty() =~= Seq::<Box<Node>>::empty());
        }
    }
}

/// If the interpretation stopped within what was shown first, it stopped within
/// all that is shown.
proof fn lemma_stopped_extend(shown: Seq<Box<Node>>, more: Seq<Box<Node>>, out: Seq<Box<Node>>, limit: int)
    requires
        shown.len() >= limit >= 0,
        out == shown.take(limit),
    ensures
        (shown + more).len() >= limit,
        out == (shown + more).take(limit),
{
    assert((shown + more).take(limit) =~= shown.take(limit));
}

enum Outcome {
    Done(Result<Box<Node>, InterpretError>),
    /// Enough intermediate terms were shown; the interpretation stopped.
    Stopped,
}

struct Interpreter<'a> {
    fully_resolve: bool,
    yield_intermediates: bool,
    /// How many intermediate terms to show at most.
    limit: usize,
    provider: &'a ConstantProvider<'a>,
}

impl<'a> Interpreter<'a> {
    /// `out` is what the interpretation showed, all of `shown` or, if it
    /// stopped, its first `limit` terms; the result is `res` unless it stopped.
    spec fn outcome_ok(
        &self,
        r: Outcome,
        res: Result<Box<Node>, InterpretError>,
        shown: Seq<Box<Node>>,
        out: Seq<Box<Node>>,
    ) -> bool {
        match r {
            Outcome::Done(x) => x == res && out == shown && (self.yield_intermediates
                ==> out.len() < self.limit),
            Outcome::Stopped => self.yield_intermediates && shown.len() >= self.limit && out
                == shown.take(self.limit as int),
        }
    }

    fn interpret(
        &self,
        level: usize,
        root: Box<Node>,
        do_apply: bool,
        frames: &mut Vec<Frame>,
        out: &mut Vec<Box<Node>>,
    ) -> (r: Outcome)
        requires
            level <= MAX_LEVEL + 1,
            self.yield_intermediates ==> old(out).len() < self.limit,
        ensures
            final(frames)@ == old(frames)@,
            self.outcome_ok(
                r,
                interp(*self.provider, self.fully_resolve, self.yield_intermediates, level as int, root, do_apply).1,
                old(out)@ + plug_all(
                    old(frames)@,
                    interp(*self.provider, self.fully_resolve, self.yield_intermediates, level as int, root, do_apply).0,
                ),
                final(out)@,
            ),
        decreases MAX_LEVEL + 1 - level, 2int,
    {
        let ghost fr = frames@;
        let ghost out0 = out@;
        let ghost root0 = root;
        let yields = self.yield_intermediates;
        if level > MAX_LEVEL {
            proof {
                lemma_plug_all_empty(fr);
                assert(out0 + Seq::<Box<Node>>::empty() =~= out0);
            }
            return Outcome::Done(Err(InterpretError::TooDeep));
        }
        match *root {
            Node::Apply { left, right } => self.interpret_apply(level, left, right, do_apply, frames, out),
            Node::Variable(v) => {
                proof {
                    lemma_plug_all_empty(fr);
                    assert(out0 + Seq::<Box<Node>>::empty() =~= out0);
                }
                Outcome::Done(Ok(Box::new(Node::Variable(v))))
            },
            Node::Function { variable, body } => {
                let ghost body0 = body;
                if yields {
                    frames.push(Frame::Func(variable));
                }
                let br = self.interpret(level + 1, body, self.fully_resolve, frames, out);
                if yields {
                    frames.pop();
                }
                assert(frames@ =~= fr);
                proof {
                    let (y, _) = interp(*self.provider, self.fully_resolve, yields, level + 1, body0, self.fully_resolve);
                    if yields {
                        lemma_plug_all_function(fr, y, variable);
                    } else {
                        lemma_no_yields(*self.provider, self.fully_resolve, level + 1, body0, self.fully_resolve);
                        assert(wrap_function(y, variable) =~= y);
                    }
                }
                match br {
                    Outcome::Stopped => Outcome::Stopped,
                    Outcome::Done(Err(e)) => Outcome::Done(Err(e)),
                    Outcome::Done(Ok(b2)) => Outcome::Done(Ok(Box::new(Node::Function { variable, body: b2 }))),
                }
            },
            Node::Constant(c) => {
                proof {
                    lemma_plug_all_empty(fr);
                    assert(out0 + Seq::<Box<Node>>::empty() =~= out0);
                }
                // Constants are given fully reduced; they are not interpreted again.
                match self.provider.get(c.as_str()) {
                    Some(t) => Outcome::Done(Ok(t)),
                    None => Outcome::Done(Ok(Box::new(Node::Constant(c)))),
                }
            },
        }
    }

    #[verifier::spinoff_prover]
    #[verifier::rlimit(40)]
    fn interpret_apply(
        &self,
        level: usize,
        left: Box<Node>,
        right: Box<Node>,
        do_apply: bool,
        frames: &mut Vec<Frame>,
        out: &mut Vec<Box<Node>>,
    ) -> (r: Outcome)
        requires
            level <= MAX_LEVEL,
            self.yield_intermediates ==> old(out).len() < self.limit,
        ensures
            final(frames)@ == old(frames)@,
            self.outcome_ok(
                r,
                interp_apply(*self.provider, self.fully_resolve, self.yield_intermediates, level as int, left, right, do_apply).1,
                old(out)@ + plug_all(
                    old(frames)@,
                    interp_apply(*self.provider, self.fully_resolve, self.yield_intermediates, level as int, left, right, do_apply).0,
                ),
                final(out)@,
            ),
        decreases MAX_LEVEL + 1 - level, 1int,
    {
        let ghost fr = frames@;
        let ghost out0 = out@;
        let ghost left0 = left;
        let ghost right0 = right;
        let ghost p = *self.provider;
        let ghost full = self.fully_resolve;
        let yields = self.yield_intermediates;
        if yields {
            frames.push(Frame::Left(Box::new((*right).copy())));
        }
        let lr = self.interpret(level + 1, left, do_apply, frames, out);
        if yields {
            frames.pop();
        }
        assert(frames@ =~= fr);
        let ghost (y1, l) = interp(p, full, yields, level + 1, left0, do_apply);
        let ghost w1 = wrap_left(y1, right0);
        proof {
            if yields {
                lemma_plug_all_left(fr, y1, right0);
            } else {
                lemma_no_yields(p, full, level + 1, left0, do_apply);
                assert(w1 =~= y1);
            }
        }
        let l2 = match lr {
            Outcome::Stopped => {
                proof {
                    let ys = interp_apply(p, full, yields, level as int, left0, right0, do_apply).0;
                    let rest = ys.skip(w1.len() as int);
                    assert(ys =~= w1 + rest);
                    lemma_plug_all_concat(fr, w1, rest);
                    lemma_stopped_extend(out0 + plug_all(fr, w1), plug_all(fr, rest), out@, self.limit as int);
                    assert(out0 + plug_all(fr, ys) =~= (out0 + plug_all(fr, w1)) + plug_all(fr, rest));
                }
                return Outcome::Stopped;
            },
            Outcome::Done(Err(e)) => {
                return Outcome::Done(Err(e));
            },
            Outcome::Done(Ok(l2)) => l2,
        };
        let ghost l2v = l2;
        let ghost out1 = out@;
        if yields {
            frames.push(Frame::Right(Box::new((*l2).copy())));
        }
        let rr = self.interpret(level + 1, right, self.fully_resolve, frames, out);
        if yields {
            frames.pop();
        }
        assert(frames@ =~= fr);
        let ghost (y2, r) = interp(p, full, yields, level + 1, right0, full);
        let ghost w2 = wrap_right(y2, l2v);
        proof {
            if yields {
                lemma_plug_all_right(fr, y2, l2v);
            } else {
                lemma_no_yields(p, full, level + 1, right0, full);
                assert(w2 =~= y2);
            }
            lemma_plug_all_concat(fr, w1, w2);
            assert(out0 + plug_all(fr, w1 + w2) =~= out1 + plug_all(fr, w2));
        }
        let r2 = match rr {
            Outcome::Stopped => {
                proof {
                    let ys = interp_apply(p, full, yields, level as int, left0, right0, do_apply).0;
                    let rest = ys.skip((w1 + w2).len() as int);
                    assert(ys =~= (w1 + w2) + rest);
                    lemma_plug_all_concat(fr, w1 + w2, rest);
                    lemma_stopped_extend(out0 + plug_all(fr, w1 + w2), plug_all(fr, rest), out@, self.limit as int);
                    assert(out0 + plug_all(fr, ys) =~= (out0 + plug_all(fr, w1 + w2)) + plug_all(fr, rest));
                }
                return Outcome::Stopped;
            },
            Outcome::Done(Err(e)) => {
                return Outcome::Done(Err(e));
            },
            Outcome::Done(Ok(r2)) => r2,
        };
        let ghost out2 = out@;
        let res = self.reduce(level, l2, r2, do_apply, frames, out);
        proof {
            let (y3, _) = interp_reduce(p, full, yields, level as int, l2v, r2, do_apply);
            lemma_plug_all_concat(fr, w1 + w2, y3);
            assert(out0 + plug_all(fr, w1 + w2 + y3) =~= out2 + plug_all(fr, y3));
        }
        res
    }

    fn reduce(
        &self,
        level: usize,
        l2: Box<Node>,
        r2: Box<Node>,
        do_apply: bool,
        frames: &mut Vec<Frame>,
        out: &mut Vec<Box<Node>>,
    ) -> (r: Outcome)
        requires
            level <= MAX_LEVEL,
            self.yield_intermediates ==> old(out).len() < self.limit,
        ensures
            final(frames)@ == old(frames)@,
            self.outcome_ok(
                r,
                interp_reduce(*self.provider, self.fully_resolve, self.yield_intermediates, level as int, l2, r2, do_apply).1,
                old(out)@ + plug_all(
                    old(frames)@,
                    interp_reduce(*self.provider, self.fully_resolve, self.yield_intermediates, level as int, l2, r2, do_apply).0,
                ),
                final(out)@,
            ),
        decreases MAX_LEVEL + 1 - level, 0int,
    {
        let ghost fr = frames@;
        let ghost out0 = out@;
        let ghost p = *self.provider;
        let ghost full = self.fully_resolve;
        let yields = self.yield_intermediates;
        proof {
            lemma_plug_all_empty(fr);
            assert(out0 + Seq::<Box<Node>>::empty() =~= out0);
        }
        let is_function = match &*l2 {
            Node::Function { .. } => true,
            _ => false,
        };
        if !(do_apply && is_function) {
            return Outcome::Done(Ok(Box::new(Node::Apply { left: l2, right: r2 })));
        }
        let ghost l2v = l2;
        match *l2 {
            Node::Function { variable, body } => {
                match replace_req(body, 0, &*r2) {
                    None => Outcome::Done(Err(InterpretError::AlgorithmError)),
                    Some(b) => {
                        let ghost shown = if yields { seq![b] } else { seq![] };
                        if yields {
                            let pb = plug_exec(frames, Box::new((*b).copy()));
                            out.push(pb);
                            proof {
                                assert(plug_all(fr, shown) =~= seq![plug(fr, b)]);
                            }
                            if out.len() >= self.limit {
                                proof {
                                    let ys = interp_reduce(p, full, yields, level as int, l2v, r2, do_apply).0;
                                    let rest = ys.skip(1);
                                    assert(ys =~= shown + rest);
                                    lemma_plug_all_concat(fr, shown, rest);
                                    assert(out@.take(self.limit as int) =~= out@);
                                    lemma_stopped_extend(out0 + plug_all(fr, shown), plug_all(fr, rest), out@, self.limit as int);
                                    assert(out0 + plug_all(fr, ys) =~= (out0 + plug_all(fr, shown)) + plug_all(fr, rest));
                                }
                                return Outcome::Stopped;
                            }
                        } else {
                            assert(plug_all(fr, shown) =~= Seq::<Box<Node>>::empty());
                        }
                        let ghost out1 = out@;
                        assert(out1 =~= out0 + plug_all(fr, shown));
                        let res3 = self.interpret(level + 1, b, true, frames, out);
                        proof {
                            let (y3, _) = interp(p, full, yields, level + 1, b, true);
                            lemma_plug_all_concat(fr, shown, y3);
                            assert(out0 + plug_all(fr, shown + y3) =~= out1 + plug_all(fr, y3));
                        }
                        res3
                    },
                }
            },
            _ => {
                proof {
                    assert(false);
                }
                Outcome::Done(Err(InterpretError::AlgorithmError))
            },
        }
    }
}


/// Interprets `root` with the constants of `provider`: applications are
/// reduced, and a function's body only if `fully_resolve`.
pub fn interpret(root: Box<Node>, fully_resolve: bool, provider: &ConstantProvider) -> (r: Result<
    Box<Node>,
    InterpretError,
>)
    ensures
        r == interp(*provider, fully_resolve, false, 0, root, true).1,
{
    let interpreter = Interpreter { fully_resolve, yield_intermediates: false, limit: 0, provider };
    let mut frames: Vec<Frame> = Vec::new();
    let mut out: Vec<Box<Node>> = Vec::new();
    match interpreter.interpret(0, root, true, &mut frames, &mut out) {
        Outcome::Done(r) => r,
        Outcome::Stopped => Err(InterpretError::AlgorithmError),
    }
}

/// The first `limit` intermediate terms that interpreting `root` goes through,
/// each a whole term, or all of them if there are fewer.
pub fn interpret_itermediates(
    root: Box<Node>,
    fully_resolve: bool,
    provider: &ConstantProvider,
    limit: usize,
) -> (r: Vec<Box<Node>>)
    ensures
        ({
            let ys = interp(*provider, fully_resolve, true, 0, root, true).0;
            r@ == if ys.len() >= limit {
                ys.take(limit as int)
            } else {
                ys
            }
        }),
{
    let ghost ys = interp(*provider, fully_resolve, true, 0, root, true).0;
    let mut out: Vec<Box<Node>> = Vec::new();
    if limit == 0 {
        assert(ys.take(0) =~= out@);
        return out;
    }
    let interpreter = Interpreter { fully_resolve, yield_intermediates: true, limit, provider };
    let mut frames: Vec<Frame> = Vec::new();
    let _ = interpreter.interpret(0, root, true, &mut frames, &mut out);
    proof {
        assert(plug_all(Seq::<Frame>::empty(), ys) =~= ys) by {
            assert forall|k: int| 0 <= k < ys.len() implies plug(Seq::<Frame>::empty(), #[trigger] ys[k])
                == ys[k] by {}
        }
        assert(Seq::<Box<Node>>::empty() + ys =~= ys);
    }
    out
}

/// A term well formed under `k` enclosing functions is also well formed under more.
pub proof fn lemma_well_formed_mono(n: Node, k: nat, k2: nat)
    requires
        well_formed(n, k),
        k <= k2,
    ensures
        well_formed(n, k2),
    decreases n,
{
    match n {
        Node::Function { variable: _, body } => lemma_well_formed_mono(*body, k + 1, k2 + 1),
        Node::Apply { left, right } => {
            lemma_well_formed_mono(*left, k, k2);
            lemma_well_formed_mono(*right, k, k2);
        },
        _ => {},
    }
}

proof fn lemma_shift_well_formed(n: Box<Node>, k: nat, nest: nat, amount: nat)
    requires
        well_formed(*n, k + nest),
    ensures
        shift_unbound(n, nest as int, amount as int) matches Some(m) ==> well_formed(*m, k + nest + amount),
    decreases n,
{
    match *n {
        Node::Function { variable: _, body } => {
            lemma_shift_well_formed(body, k, nest + 1, amount);
        },
        Node::Apply { left, right } => {
            lemma_shift_well_formed(left, k, nest, amount);
            lemma_shift_well_formed(right, k, nest, amount);
        },
        Node::Variable(_) => {},
        Node::Constant(_) => {},
    }
}

proof fn lemma_replace_well_formed(root: Box<Node>, k: nat, cur: nat, value: Box<Node>)
    requires
        well_formed(*root, k + 1 + cur),
        well_formed(*value, k),
    ensures
        replace(root, cur as int, value) matches Some(m) ==> well_formed(*m, k + cur),
    decreases root,
{
    match *root {
        Node::Variable(v) => {
            if v.depth == cur {
                lemma_shift_well_formed(value, k, 0, cur);
            }
        },
        Node::Function { variable: _, body } => {
            lemma_replace_well_formed(body, k, cur + 1, value);
        },
        Node::Apply { left, right } => {
            lemma_replace_well_formed(left, k, cur, value);
            lemma_replace_well_formed(right, k, cur, value);
        },
        Node::Constant(_) => {},
    }
}

proof fn lemma_interp_well_formed(
    p: ConstantProvider,
    full: bool,
    yields: bool,
    level: int,
    root: Box<Node>,
    do_apply: bool,
    k: nat,
)
    requires
        p.valid(),
        well_formed(*root, k),
    ensures
        interp(p, full, yields, level, root, do_apply).1 matches Ok(t) ==> well_formed(*t, k),
    decreases MAX_LEVEL + 1 - level, 2int,
{
    if !(level > MAX_LEVEL || level < 0) {
        match *root {
            Node::Apply { left, right } => {
                lemma_interp_apply_well_formed(p, full, yields, level, left, right, do_apply, k);
            },
            Node::Function { variable: _, body } => {
                lemma_interp_well_formed(p, full, yields, level + 1, body, full, k + 1);
            },
            Node::Constant(c) => {
                p.lemma_get_well_formed(c@);
                if let Some(t) = p.get_spec(c@) {
                    lemma_well_formed_mono(*t, 0, k);
                }
            },
            Node::Variable(_) => {},
        }
    }
}

proof fn lemma_interp_apply_well_formed(
    p: ConstantProvider,
    full: bool,
    yields: bool,
    level: int,
    left: Box<Node>,
    right: Box<Node>,
    do_apply: bool,
    k: nat,
)
    requires
        p.valid(),
        well_formed(*left, k),
        well_formed(*right, k),
    ensures
        interp_apply(p, full, yields, level, left, right, do_apply).1 matches Ok(t) ==> well_formed(*t, k),
    decreases MAX_LEVEL + 1 - level, 1int,
{
    if !(level > MAX_LEVEL || level < 0) {
        lemma_interp_well_formed(p, full, yields, level + 1, left, do_apply, k);
        let (_, l) = interp(p, full, yields, level + 1, left, do_apply);
        if let Ok(l2) = l {
            lemma_interp_well_formed(p, full, yields, level + 1, right, full, k);
            let (_, r) = interp(p, full, yields, level + 1, right, full);
            if let Ok(r2) = r {
                lemma_interp_reduce_well_formed(p, full, yields, level, l2, r2, do_apply, k);
            }
        }
    }
}

proof fn lemma_interp_reduce_well_formed(
    p: ConstantProvider,
    full: bool,
    yields: bool,
    level: int,
    l2: Box<Node>,
    r2: Box<Node>,
    do_apply: bool,
    k: nat,
)
    requires
        p.valid(),
        well_formed(*l2, k),
        well_formed(*r2, k),
    ensures
        interp_reduce(p, full, yields, level, l2, r2, do_apply).1 matches Ok(t) ==> well_formed(*t, k),
    decreases MAX_LEVEL + 1 - level, 0int,
{
    if !(level > MAX_LEVEL || level < 0) && do_apply && (*l2 is Function) {
        lemma_replace_well_formed(l2->body, k, 0, r2);
        if let Some(b) = replace(l2->body, 0, r2) {
            lemma_interp_well_formed(p, full, yields, level + 1, b, true, k);
        }
    }
}

/// Interpretation keeps terms well formed: with a provider whose terms are
/// well formed, a well formed term is interpreted into a well formed one.
pub proof fn interpret_keeps_well_formed(p: ConstantProvider, fully_resolve: bool, root: Box<Node>)
    requires
        p.valid(),
        well_formed(*root, 0),
    ensures
        interp(p, fully_resolve, false, 0, root, true).1 matches Ok(t) ==> well_formed(*t, 0),
{
    lemma_interp_well_formed(p, fully_resolve, false, 0, root, true, 0);
}

/// `n` is in beta normal form: no function stands applied to an argument.
pub open spec fn beta_normal(n: Node) -> bool
    decreases n,
{
    match n {
        Node::Constant(_) => true,
        Node::Variable(_) => true,
        Node::Function { variable: _, body } => beta_normal(*body),
        Node::Apply { left, right } => !(*left is Function) && beta_normal(*left) && beta_normal(*right),
    }
}

/// Every term the provider gives for a name is in beta normal form.
pub open spec fn gives_normal(p: ConstantProvider) -> bool {
    forall|name: Seq<char>| #[trigger] p.get_spec(name) matches Some(t) ==> beta_normal(*t)
}

proof fn lemma_interp_normal(p: ConstantProvider, yields: bool, level: int, root: Box<Node>)
    requires
        gives_normal(p),
    ensures
        interp(p, true, yields, level, root, true).1 matches Ok(t) ==> beta_normal(*t),
    decreases MAX_LEVEL + 1 - level, 2int,
{
    if level > MAX_LEVEL || level < 0 {
    } else {
        match *root {
            Node::Apply { left, right } => lemma_apply_normal(p, yields, level, left, right),
            Node::Function { variable, body } => lemma_interp_normal(p, yields, level + 1, body),
            Node::Constant(c) => {
                if p.get_spec(c@) is Some {
                }
            },
            _ => {},
        }
    }
}

proof fn lemma_apply_normal(p: ConstantProvider, yields: bool, level: int, left: Box<Node>, right: Box<Node>)
    requires
        gives_normal(p),
    ensures
        interp_apply(p, true, yields, level, left, right, true).1 matches Ok(t) ==> beta_normal(*t),
    decreases MAX_LEVEL + 1 - level, 1int,
{
    if level > MAX_LEVEL || level < 0 {
    } else {
        lemma_interp_normal(p, yields, level + 1, left);
        lemma_interp_normal(p, yields, level + 1, right);
        let (y1, l) = interp(p, true, yields, level + 1, left, true);
        let (y2, r) = interp(p, true, yields, level + 1, right, true);
        if let (Ok(l2), Ok(r2)) = (l, r) {
            lemma_reduce_normal(p, yields, level, l2, r2);
        }
    }
}

proof fn lemma_reduce_normal(p: ConstantProvider, yields: bool, level: int, l2: Box<Node>, r2: Box<Node>)
    requires
        gives_normal(p),
        beta_normal(*l2),
        beta_normal(*r2),
    ensures
        interp_reduce(p, true, yields, level, l2, r2, true).1 matches Ok(t) ==> beta_normal(*t),
    decreases MAX_LEVEL + 1 - level, 0int,
{
    if level > MAX_LEVEL || level < 0 {
    } else if *l2 is Function {
        if let Some(b) = replace(l2->body, 0, r2) {
            lemma_interp_normal(p, yields, level + 1, b);
        }
    }
}

/// A full interpretation (one that also reduces inside functions and on
/// the right of applications) that succeeds ends in beta normal form, when
/// whatever the provider gives for a name is already in that form.
pub proof fn full_interpretation_is_normal(p: ConstantProvider, yields: bool, root: Box<Node>)
    requires
        gives_normal(p),
    ensures
        interp(p, true, yields, 0, root, true).1 matches Ok(t) ==> beta_normal(*t),
{
    lemma_interp_normal(p, yields, 0, root);
}


/// The provider `p` knows no constant of `n`.
pub open spec fn inert(p: ConstantProvider, n: Node) -> bool
    decreases n,
{
    match n {
        Node::Constant(c) => p.get_spec(c@) is None,
        Node::Variable(_) => true,
        Node::Function { variable: _, body } => inert(p, *body),
        Node::Apply { left, right } => inert(p, *left) && inert(p, *right),
    }
}

/// `b` is `a` with exactly one redex contracted: one applied function replaced
/// by its body with the argument in its variable's place, all around it kept.
pub open spec fn beta_step(a: Node, b: Node) -> bool
    decreases a,
{
    match a {
        Node::Apply { left, right } => {
            ||| match *left {
                Node::Function { variable: _, body } => replace(body, 0, right) == Some(Box::new(b)),
                _ => false,
            }
            ||| match b {
                Node::Apply { left: l2, right: r2 } => (beta_step(*left, *l2) && r2 == right) || (l2
                    == left && beta_step(*right, *r2)),
                _ => false,
            }
        },
        Node::Function { variable, body } => match b {
            Node::Function { variable: v2, body: b2 } => v2 == variable && beta_step(*body, *b2),
            _ => false,
        },
        _ => false,
    }
}

/// The term before the `k`-th of the terms `ys` that follow `start`.
pub open spec fn before_step(start: Node, ys: Seq<Box<Node>>, k: int) -> Node {
    if k == 0 {
        start
    } else {
        *ys[k - 1]
    }
}

/// Each of `ys` is one beta step away from the term before it, the first one
/// from `start`.
pub open spec fn beta_chain(start: Node, ys: Seq<Box<Node>>) -> bool {
    forall|k: int| #![trigger ys[k]] 0 <= k < ys.len() ==> beta_step(before_step(start, ys, k), *ys[k])
}

/// The last of `ys`, or `start` if there is none.
pub open spec fn last_of(start: Node, ys: Seq<Box<Node>>) -> Node {
    if ys.len() == 0 {
        start
    } else {
        *ys.last()
    }
}

proof fn lemma_chain_concat(a: Node, xs: Seq<Box<Node>>, zs: Seq<Box<Node>>)
    requires
        beta_chain(a, xs),
        beta_chain(last_of(a, xs), zs),
    ensures
        beta_chain(a, xs + zs),
        last_of(a, xs + zs) == last_of(last_of(a, xs), zs),
{
    let s = xs + zs;
    assert forall|k: int| #![trigger s[k]] 0 <= k < s.len() implies beta_step(
        before_step(a, s, k),
        *s[k],
    ) by {
        if k < xs.len() {
            assert(s[k] == xs[k]);
            if k > 0 {
                assert(s[k - 1] == xs[k - 1]);
            }
        } else {
            let j = k - xs.len();
            assert(s[k] == zs[j]);
            assert(beta_step(before_step(last_of(a, xs), zs, j), *zs[j]));
            if j > 0 {
                assert(s[k - 1] == zs[j - 1]);
            }
        }
    }
    if zs.len() == 0 {
        assert(s =~= xs);
    }
}

proof fn lemma_wrap_left(start: Node, ys: Seq<Box<Node>>, right: Box<Node>)
    requires
        beta_chain(start, ys),
    ensures
        beta_chain((Node::Apply { left: Box::new(start), right }), wrap_left(ys, right)),
        last_of((Node::Apply { left: Box::new(start), right }), wrap_left(ys, right)) == (Node::Apply {
            left: Box::new(last_of(start, ys)),
            right,
        }),
{
    let a = Node::Apply { left: Box::new(start), right };
    let w = wrap_left(ys, right);
    assert forall|k: int| #![trigger w[k]] 0 <= k < w.len() implies beta_step(before_step(a, w, k), *w[k]) by {
        assert(beta_step(before_step(start, ys, k), *ys[k]));
        if k > 0 {
            assert(*w[k - 1] == Node::Apply { left: ys[k - 1], right });
        }
        assert(before_step(a, w, k) == Node::Apply { left: Box::new(before_step(start, ys, k)), right });
    }
}

proof fn lemma_wrap_right(start: Node, ys: Seq<Box<Node>>, left: Box<Node>)
    requires
        beta_chain(start, ys),
    ensures
        beta_chain((Node::Apply { left, right: Box::new(start) }), wrap_right(ys, left)),
        last_of((Node::Apply { left, right: Box::new(start) }), wrap_right(ys, left)) == (Node::Apply {
            left,
            right: Box::new(last_of(start, ys)),
        }),
{
    let a = Node::Apply { left, right: Box::new(start) };
    let w = wrap_right(ys, left);
    assert forall|k: int| #![trigger w[k]] 0 <= k < w.len() implies beta_step(before_step(a, w, k), *w[k]) by {
        assert(beta_step(before_step(start, ys, k), *ys[k]));
        if k > 0 {
            assert(*w[k - 1] == Node::Apply { left, right: ys[k - 1] });
        }
        assert(before_step(a, w, k) == Node::Apply { left, right: Box::new(before_step(start, ys, k)) });
    }
}

proof fn lemma_wrap_function(start: Node, ys: Seq<Box<Node>>, variable: TVariable)
    requires
        beta_chain(start, ys),
    ensures
        beta_chain((Node::Function { variable, body: Box::new(start) }), wrap_function(ys, variable)),
        last_of((Node::Function { variable, body: Box::new(start) }), wrap_function(ys, variable))
            == (Node::Function { variable, body: Box::new(last_of(start, ys)) }),
{
    let a = Node::Function { variable, body: Box::new(start) };
    let w = wrap_function(ys, variable);
    assert forall|k: int| #![trigger w[k]] 0 <= k < w.len() implies beta_step(before_step(a, w, k), *w[k]) by {
        assert(beta_step(before_step(start, ys, k), *ys[k]));
        if k > 0 {
            assert(*w[k - 1] == Node::Function { variable, body: ys[k - 1] });
        }
        assert(before_step(a, w, k) == Node::Function { variable, body: Box::new(before_step(start, ys, k)) });
    }
}

proof fn lemma_shift_inert(p: ConstantProvider, n: Box<Node>, nest: int, amount: int)
    requires
        inert(p, *n),
    ensures
        shift_unbound(n, nest, amount) matches Some(m) ==> inert(p, *m),
    decreases n,
{
    match *n {
        Node::Function { variable: _, body } => lemma_shift_inert(p, body, nest + 1, amount),
        Node::Apply { left, right } => {
            lemma_shift_inert(p, left, nest, amount);
            lemma_shift_inert(p, right, nest, amount);
        },
        _ => {},
    }
}

proof fn lemma_replace_inert(p: ConstantProvider, root: Box<Node>, cur: int, value: Box<Node>)
    requires
        inert(p, *root),
        inert(p, *value),
    ensures
        replace(root, cur, value) matches Some(m) ==> inert(p, *m),
    decreases root,
{
    match *root {
        Node::Variable(v) => {
            if v.depth == cur {
                lemma_shift_inert(p, value, 0, cur);
            }
        },
        Node::Function { variable: _, body } => lemma_replace_inert(p, body, cur + 1, value),
        Node::Apply { left, right } => {
            lemma_replace_inert(p, left, cur, value);
            lemma_replace_inert(p, right, cur, value);
        },
        _ => {},
    }
}

proof fn lemma_interp_steps(p: ConstantProvider, full: bool, level: int, root: Box<Node>, do_apply: bool)
    requires
        inert(p, *root),
    ensures
        beta_chain(*root, interp(p, full, true, level, root, do_apply).0),
        interp(p, full, true, level, root, do_apply).1 matches Ok(t) ==> *t == last_of(
            *root,
            interp(p, full, true, level, root, do_apply).0,
        ) && inert(p, *t),
    decreases MAX_LEVEL + 1 - level, 2int,
{
    if !(level > MAX_LEVEL || level < 0) {
        match *root {
            Node::Apply { left, right } => lemma_interp_apply_steps(p, full, level, left, right, do_apply),
            Node::Function { variable, body } => {
                lemma_interp_steps(p, full, level + 1, body, full);
                let (y, b) = interp(p, full, true, level + 1, body, full);
                lemma_wrap_function(*body, y, variable);
            },
            _ => {},
        }
    }
}

proof fn lemma_interp_apply_steps(
    p: ConstantProvider,
    full: bool,
    level: int,
    left: Box<Node>,
    right: Box<Node>,
    do_apply: bool,
)
    requires
        inert(p, *left),
        inert(p, *right),
    ensures
        beta_chain((Node::Apply { left, right }), interp_apply(p, full, true, level, left, right, do_apply).0),
        interp_apply(p, full, true, level, left, right, do_apply).1 matches Ok(t) ==> *t == last_of(
            (Node::Apply { left, right }),
            interp_apply(p, full, true, level, left, right, do_apply).0,
        ) && inert(p, *t),
    decreases MAX_LEVEL + 1 - level, 1int,
{
    if !(level > MAX_LEVEL || level < 0) {
        let a = Node::Apply { left, right };
        lemma_interp_steps(p, full, level + 1, left, do_apply);
        let (y1, l) = interp(p, full, true, level + 1, left, do_apply);
        lemma_wrap_left(*left, y1, right);
        let w1 = wrap_left(y1, right);
        if let Ok(l2) = l {
            lemma_interp_steps(p, full, level + 1, right, full);
            let (y2, r) = interp(p, full, true, level + 1, right, full);
            lemma_wrap_right(*right, y2, l2);
            let w2 = wrap_right(y2, l2);
            assert(last_of(a, w1) == Node::Apply { left: l2, right });
            lemma_chain_concat(a, w1, w2);
            if let Ok(r2) = r {
                lemma_interp_reduce_steps(p, full, level, l2, r2, do_apply);
                let (y3, res) = interp_reduce(p, full, true, level, l2, r2, do_apply);
                assert(last_of(a, w1 + w2) == Node::Apply { left: l2, right: r2 });
                lemma_chain_concat(a, w1 + w2, y3);
            }
        }
    }
}

proof fn lemma_interp_reduce_steps(
    p: ConstantProvider,
    full: bool,
    level: int,
    l2: Box<Node>,
    r2: Box<Node>,
    do_apply: bool,
)
    requires
        inert(p, *l2),
        inert(p, *r2),
    ensures
        beta_chain((Node::Apply { left: l2, right: r2 }), interp_reduce(p, full, true, level, l2, r2, do_apply).0),
        interp_reduce(p, full, true, level, l2, r2, do_apply).1 matches Ok(t) ==> *t == last_of(
            (Node::Apply { left: l2, right: r2 }),
            interp_reduce(p, full, true, level, l2, r2, do_apply).0,
        ) && inert(p, *t),
    decreases MAX_LEVEL + 1 - level, 0int,
{
    if !(level > MAX_LEVEL || level < 0) && do_apply && (*l2 is Function) {
        let a = Node::Apply { left: l2, right: r2 };
        lemma_replace_inert(p, l2->body, 0, r2);
        if let Some(b) = replace(l2->body, 0, r2) {
            lemma_interp_steps(p, full, level + 1, b, true);
            let (y3, res) = interp(p, full, true, level + 1, b, true);
            assert(beta_step(a, *b));
            assert(beta_chain(a, seq![b]));
            lemma_chain_concat(a, seq![b], y3);
        }
    }
}

/// Each intermediate term that interpreting `root` shows is the whole term
/// one beta step away from the one shown before it, the first one step away
/// from `root`: one applied function replaced by its body with the argument
/// in its variable's place, everything around it kept. A result is the last
/// term shown, or `root` when none is. This holds where the provider knows no
/// constant of `root`: a known constant is replaced by its term with no step
/// shown.
pub proof fn intermediates_are_beta_steps(p: ConstantProvider, fully_resolve: bool, root: Box<Node>)
    requires
        inert(p, *root),
    ensures
        beta_chain(*root, interp(p, fully_resolve, true, 0, root, true).0),
        interp(p, fully_resolve, true, 0, root, true).1 matches Ok(t) ==> *t == last_of(
            *root,
            interp(p, fully_resolve, true, 0, root, true).0,
        ),
{
    lemma_interp_steps(p, fully_resolve, 0, root, true);
}

} // verus!
