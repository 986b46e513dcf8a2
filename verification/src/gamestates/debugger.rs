//! Step by step view of how a test case reduces.
use vstd::prelude::*;

use crate::interpreter::constants::ConstantProvider;
use crate::interpreter::interpreter::{interp, interpret_itermediates};
use crate::interpreter::parser::Node;
use crate::levels::base::TestCaseRun;
use crate::util::nonempty::{terms_in, terms_vec1};
use vec1::Vec1;

verus! {

/// How many reduction steps the debugger shows at most, besides the start.
pub const MAX_STEPS: usize = 30;

/// A test case run and the terms its expression goes through.
#[derive(Debug)]
pub struct DebuggerState {
    pub run: TestCaseRun,
    /// The test expression, then its first intermediate terms.
    pub steps: Vec1<Box<Node>>,
}

impl DebuggerState {
    /// The steps of `run`: its test expression, then the first `MAX_STEPS`
    /// intermediate terms of its full interpretation with `provider`.
    pub fn new(run: TestCaseRun, provider: &ConstantProvider) -> (r: DebuggerState)
        ensures
            r.run == run,
            ({
                let ys = interp(*provider, true, true, 0, run.test_expression, true).0;
                terms_in(r.steps) == seq![run.test_expression] + if ys.len() >= MAX_STEPS {
                    ys.take(MAX_STEPS as int)
                } else {
                    ys
                }
            }),
    {
        let first = Box::new((*run.test_expression).copy());
        let rest = interpret_itermediates(Box::new((*run.test_expression).copy()), true, provider, MAX_STEPS);
        let mut steps: Vec<Box<Node>> = Vec::new();
        steps.push(first);
        let ghost s0 = steps@;
        for k in 0..rest.len()
            invariant
                steps@ == s0 + rest@.take(k as int),
        {
            steps.push(Box::new((*rest[k]).copy()));
            assert(rest@.take(k + 1) =~= rest@.take(k as int).push(rest@[k as int]));
        }
        assert(rest@.take(rest@.len() as int) =~= rest@);
        let steps = match terms_vec1(steps) {
            Ok(s) => s,
            Err(_) => vstd::pervasive::unreached(),
        };
        DebuggerState { run, steps }
    }
}

} // verus!
