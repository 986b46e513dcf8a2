//! The playground: any term, evaluated step by step.
use vstd::prelude::*;

use crate::gamestates::{GameStateEvent, Key};
use crate::interpreter::constants::ConstantProvider;
use crate::interpreter::interpreter::{interp, interpret, interpret_itermediates, InterpretError};
use crate::interpreter::parser::{parse, spec_parse, Node, ParseError};
use crate::interpreter::tokenizer::{spec_tokenize, tokenize, tokens_view, Token, TokenizeError};

verus! {

/// How many terms of a reduction the playground shows, the first included:
/// the rows of the screen but five.
pub const MAX_STEPS: usize = 75;

/// A term read on the playground: the first terms of its reduction, and
/// what it reduces to.
#[derive(Debug)]
pub struct DebugData {
    pub steps: Vec<Box<Node>>,
    pub interpreted: Result<Box<Node>, InterpretError>,
}

/// What evaluating a text gives: an error of its reading, or its reduction.
pub type EvalResult = Result<Result<DebugData, ParseError>, TokenizeError>;

/// The reduction shown for `term`: the term, then its intermediate terms,
/// `MAX_STEPS` in all at most.
pub open spec fn shown_steps(term: Box<Node>, p: ConstantProvider) -> Seq<Box<Node>> {
    let ys = interp(p, false, true, 0, term, true).0;
    seq![term] + if ys.len() >= MAX_STEPS - 1 {
        ys.take(MAX_STEPS - 1)
    } else {
        ys
    }
}

/// `r` is what evaluating the text `s` with `p` gives: the error of its
/// tokens, else the error of its parse, else the reduction of its term.
pub open spec fn evaluates_to(s: Seq<char>, p: ConstantProvider, r: EvalResult) -> bool {
    match r {
        Err(e) => spec_tokenize(s) == Err::<Seq<crate::interpreter::tokenizer::TokenView>, TokenizeError>(e),
        Ok(parsed) => spec_tokenize(s) is Ok && exists|t: Seq<Token>|
            tokens_view(t) == spec_tokenize(s)->Ok_0 && match parsed {
                Err(e) => #[trigger] spec_parse(t) == Err::<Box<Node>, ParseError>(e),
                Ok(d) => {
                    &&& d.steps@.len() >= 1
                    &&& spec_parse(t) == Ok::<Box<Node>, ParseError>(d.steps@[0])
                    &&& d.steps@ == shown_steps(d.steps@[0], p)
                    &&& d.interpreted == interp(p, false, false, 0, d.steps@[0], true).1
                },
            },
    }
}

/// Reads `code` and reduces its term with `provider`.
pub fn eval(code: &str, provider: &ConstantProvider) -> (r: EvalResult)
    ensures
        evaluates_to(code@, *provider, r),
{
    match tokenize(code) {
        Err(e) => Err(e),
        Ok(tokens) => {
            let ghost t = tokens@;
            match parse(tokens) {
                Err(e) => {
                    assert(spec_parse(t) == Err::<Box<Node>, ParseError>(e));
                    Ok(Err(e))
                },
                Ok(term) => {
                    let ghost tm = term;
                    let rest = interpret_itermediates(
                        Box::new((*term).copy()),
                        false,
                        provider,
                        MAX_STEPS - 1,
                    );
                    let interpreted = interpret(Box::new((*term).copy()), false, provider);
                    let mut steps: Vec<Box<Node>> = Vec::new();
                    steps.push(term);
                    let ghost s0 = steps@;
                    for k in 0..rest.len()
                        invariant
                            steps@ == s0 + rest@.take(k as int),
                    {
                        steps.push(Box::new((*rest[k]).copy()));
                        assert(rest@.take(k + 1) =~= rest@.take(k as int).push(rest@[k as int]));
                    }
                    assert(rest@.take(rest.len() as int) =~= rest@);
                    assert(steps@[0] == tm);
                    assert(spec_parse(t) == Ok::<Box<Node>, ParseError>(steps@[0]));
                    Ok(Ok(DebugData { steps, interpreted }))
                },
            }
        },
    }
}

/// The playground: the evaluation last asked for, if any.
pub struct PlaygroundState<'a> {
    pub data: Option<EvalResult>,
    pub provider: ConstantProvider<'a>,
}

impl<'a> PlaygroundState<'a> {
    /// Nothing evaluated yet.
    pub fn new(provider: ConstantProvider<'a>) -> (r: Self)
        ensures
            r.data is None,
            r.provider == provider,
    {
        PlaygroundState { data: None, provider }
    }

    /// A frame with the editor holding `code`: the button, or ctrl+return,
    /// evaluates it; escape goes back.
    pub fn tick<S>(&mut self, code: &str, evaluate_clicked: bool, ctrl: bool, key: Option<Key>) -> (r:
        GameStateEvent<S>)
        ensures
            final(self).provider == old(self).provider,
            if evaluate_clicked || (ctrl && key == Some(Key::Return)) {
                final(self).data matches Some(e) && evaluates_to(code@, old(self).provider, e)
            } else {
                final(self).data == old(self).data
            },
            r == if key == Some(Key::Escape) {
                GameStateEvent::<S>::Pop(1)
            } else {
                GameStateEvent::<S>::Stay
            },
    {
        if evaluate_clicked || (ctrl && key == Some(Key::Return)) {
            self.data = Some(eval(code, &self.provider));
        }
        if key == Some(Key::Escape) {
            GameStateEvent::Pop(1)
        } else {
            GameStateEvent::Stay
        }
    }
}

} // verus!
