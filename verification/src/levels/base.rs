//! Levels, their test cases, and how a solution is tested against them.
use std::sync::Arc;
use vstd::prelude::*;

use super::section::SectionName;
use crate::interpreter::constants::{all_provider, AllConstants, ConstantProvider};
use crate::interpreter::interpreter::{interp, interpret, InterpretError};
use crate::interpreter::parser::{parse, spec_parse, syn_eq, well_formed, Node, ParseError};
use crate::interpreter::traversers::{all_constants, constants_of, constants_of_are_occurrences, occurs};
use crate::interpreter::tokenizer::{spec_tokenize, tokenize, tokens_view, Token, TokenizeError};
use crate::util::nonempty::{test_cases_in, test_cases_vec};
use crate::util::numbers::{decimal_digits, u64_to_decimal};
use vec1::Vec1;

verus! {

/// One test of a level: the solution is handed to `application`, and the
/// interpretation must give `expected_result`.
#[derive(Debug)]
pub struct TestCase {
    /// Must be a function that receives the code and returns the result.
    pub application: Box<Node>,
    /// Result of the application.
    pub expected_result: Box<Node>,
}

/// What every level has, game levels and user created ones.
#[derive(Debug)]
pub struct BaseLevel {
    pub name: String,
    pub description: String,
    pub extra_info: Option<String>,
    pub extra_info_is_hint: bool,
    pub test_cases: Vec1<TestCase>,
}

/// One of the game's own levels.
#[derive(Debug)]
pub struct GameLevel {
    pub base: BaseLevel,
    pub section: SectionName,
    /// Index of the level in its section.
    pub idx: usize,
    pub solutions: Vec1<String>,
    pub wrong_solutions: Vec<String>,
    pub show_constants: bool,
}

/// A level that a user wrote.
#[derive(Debug)]
pub struct UserCreatedLevel {
    pub base: BaseLevel,
    /// Constants this level defines, as (name, term); a later entry of a name
    /// overrides an earlier one.
    pub extra_constants: Vec<(String, Box<Node>)>,
    /// The published file id, if the level was uploaded.
    pub id: Option<u64>,
}

/// A level of either kind.
#[derive(Debug)]
pub enum Level {
    GameLevel(Arc<GameLevel>),
    UserCreatedLevel(Arc<UserCreatedLevel>),
}

/// All terms of `entries` are well formed.
pub open spec fn terms_well_formed(entries: Seq<(String, Box<Node>)>) -> bool {
    forall|i: int| 0 <= i < entries.len() ==> well_formed(*(#[trigger] entries[i]).1, 0)
}

impl Level {
    /// The constants the level defines, if it is user created, are well formed.
    pub open spec fn valid(&self) -> bool {
        match self {
            Level::GameLevel(_) => true,
            Level::UserCreatedLevel(u) => terms_well_formed(u.extra_constants@),
        }
    }
}

/// The text `s` tokenizes, and whatever tokens it yields, they parse.
pub open spec fn text_parses(s: Seq<char>) -> bool {
    &&& spec_tokenize(s) is Ok
    &&& forall|t: Seq<Token>|
        tokens_view(t) == spec_tokenize(s)->Ok_0 ==> (#[trigger] spec_parse(t)) is Ok
}

/// `n` is the term that the text `s` spells.
pub open spec fn parsed_from_text(s: Seq<char>, n: Box<Node>) -> bool {
    exists|t: Seq<Token>|
        tokens_view(t) == spec_tokenize(s)->Ok_0 && #[trigger] spec_parse(t) == Ok::<
            Box<Node>,
            ParseError,
        >(n)
}

/// Reads a term that is known to be written correctly.
pub fn parse_or_fail(str: &str) -> (r: Box<Node>)
    requires
        text_parses(str@),
    ensures
        parsed_from_text(str@, r),
        well_formed(*r, 0),
{
    match tokenize(str) {
        Ok(tokens) => {
            let ghost t = tokens@;
            match parse(tokens) {
                Ok(n) => {
                    assert(spec_parse(t) == Ok::<Box<Node>, ParseError>(n));
                    n
                },
                Err(_) => {
                    assert(spec_parse(t) is Ok);
                    vstd::pervasive::unreached()
                },
            }
        },
        Err(_) => vstd::pervasive::unreached(),
    }
}


impl Level {
    pub open spec fn spec_base(&self) -> BaseLevel {
        match self {
            Level::GameLevel(gl) => gl.base,
            Level::UserCreatedLevel(u) => u.base,
        }
    }

    /// What the level has whatever its kind.
    pub fn base(&self) -> (r: &BaseLevel)
        ensures
            *r == self.spec_base(),
    {
        match self {
            Level::GameLevel(gl) => &gl.base,
            Level::UserCreatedLevel(uc) => &uc.base,
        }
    }

    /// A unique identifier of the level, for saves and leaderboards: a game
    /// level's name, or a user created level's published id in decimal; none
    /// for a user created level that was never uploaded.
    pub fn uuid(&self) -> (r: Option<String>)
        ensures
            match self {
                Level::GameLevel(gl) => r matches Some(s) && s@ == gl.base.name@,
                Level::UserCreatedLevel(u) => match u.id {
                    Some(id) => r matches Some(s) && s@ == decimal_digits(id as nat),
                    None => r is None,
                },
            },
    {
        match self {
            Level::GameLevel(gl) => Some(gl.base.name.clone()),
            Level::UserCreatedLevel(uc) => match uc.id {
                Some(id) => Some(u64_to_decimal(id)),
                None => None,
            },
        }
    }
}

/// The outcome of running one test case.
#[derive(Debug)]
pub struct TestCaseRun {
    pub test_expression: Box<Node>,
    pub result: Result<Box<Node>, InterpretError>,
    pub expected_result: Box<Node>,
}

impl TestCaseRun {
    /// The run gave a result, and it equals the expected one.
    pub open spec fn spec_is_correct(self) -> bool {
        self.result matches Ok(t) && syn_eq(*t, *self.expected_result, 0)
    }

    pub fn is_correct(&self) -> (r: bool)
        ensures
            r == self.spec_is_correct(),
    {
        match &self.result {
            Ok(t) => (**t).eq(&*self.expected_result),
            Err(_) => false,
        }
    }
}

/// The text `s` reads as a term, and that term interprets without error with
/// the provider `p`.
pub open spec fn reduces_ok(s: Seq<char>, p: ConstantProvider) -> bool {
    &&& text_parses(s)
    &&& forall|n: Box<Node>|
        parsed_from_text(s, n) ==> (#[trigger] interp(p, false, false, 0, n, true)).1 is Ok
}

/// The application of `application` to `code`.
pub open spec fn applied(application: Box<Node>, code: Box<Node>) -> Box<Node> {
    Box::new(Node::Apply { left: application, right: code })
}

/// The run of test case `t` on `code` with provider `p`.
pub open spec fn spec_run(t: TestCase, code: Box<Node>, p: ConstantProvider) -> TestCaseRun {
    TestCaseRun {
        test_expression: applied(t.application, code),
        result: interp(p, false, false, 0, applied(t.application, code), true).1,
        expected_result: t.expected_result,
    }
}

impl TestCase {
    pub fn from(application: Box<Node>, expected_result: Box<Node>) -> (r: TestCase)
        ensures
            r.application == application,
            r.expected_result == expected_result,
    {
        TestCase { application, expected_result }
    }

    /// The test case whose application is the text `application` and whose
    /// expected result is what the text `result` interprets to, with every
    /// constant of the game known.
    pub fn from_or_fail(application: &str, result: &str, all: &AllConstants) -> (r: TestCase)
        requires
            text_parses(application@),
            reduces_ok(result@, all_provider(all)),
        ensures
            parsed_from_text(application@, r.application),
            exists|n: Box<Node>|
                parsed_from_text(result@, n) && #[trigger] interp(all_provider(all), false, false, 0, n, true).1
                    == Ok::<Box<Node>, InterpretError>(r.expected_result),
    {
        let app = parse_or_fail(application);
        let res = parse_or_fail(result);
        let ghost rn = res;
        let p = ConstantProvider::all(all);
        let interpreted = interpret(res, false, &p);
        match interpreted {
            Ok(t) => {
                assert(interp(all_provider(all), false, false, 0, rn, true).1 == Ok::<
                    Box<Node>,
                    InterpretError,
                >(t));
                TestCase::from(app, t)
            },
            Err(_) => {
                assert(interp(all_provider(all), false, false, 0, rn, true).1 is Ok);
                vstd::pervasive::unreached()
            },
        }
    }

    fn test_expression(&self, expression: Box<Node>) -> (r: Box<Node>)
        ensures
            r == applied(self.application, expression),
    {
        Box::new(Node::Apply { left: Box::new((*self.application).copy()), right: expression })
    }

    /// Hands `expression` to the test case and interprets the result.
    pub fn test(&self, expression: Box<Node>, provider: &ConstantProvider) -> (r: TestCaseRun)
        ensures
            r == spec_run(*self, expression, *provider),
    {
        let test_expression = self.test_expression(expression);
        let result = interpret(Box::new((*test_expression).copy()), false, provider);
        TestCaseRun {
            test_expression,
            result,
            expected_result: Box::new((*self.expected_result).copy()),
        }
    }
}

/// Why a solution could not be tested.
#[derive(Debug)]
pub enum LevelTestError {
    TokenizeError(TokenizeError),
    ParseError(ParseError),
    /// A constant that the provider does not know.
    UnknownConstant(String),
}

/// The runs of all test cases of a level on a solution.
#[derive(Debug)]
pub struct TestCaseRuns {
    pub runs: Vec<TestCaseRun>,
    pub code: Box<Node>,
}

/// The first of `cs`, from index `i` on, that `p` does not know.
pub open spec fn first_unknown(cs: Seq<Seq<char>>, p: ConstantProvider, i: int) -> Option<Seq<char>>
    decreases cs.len() - i,
{
    if i >= cs.len() || i < 0 {
        None
    } else if p.get_spec(cs[i]) is None {
        Some(cs[i])
    } else {
        first_unknown(cs, p, i + 1)
    }
}

fn check_constants(node: &Node, provider: &ConstantProvider) -> (r: Result<(), LevelTestError>)
    ensures
        match first_unknown(constants_of(*node), *provider, 0) {
            Some(c) => r matches Err(LevelTestError::UnknownConstant(s)) && s@ == c,
            None => r is Ok,
        },
{
    let cs = all_constants(node);
    let ghost v = constants_of(*node);
    let n = cs.len();
    assert(cs@.len() == v.len());
    for i in 0..n
        invariant
            n == cs.len() == v.len(),
            v == constants_of(*node),
            cs@.map_values(|c: String| c@) == v,
            first_unknown(v, *provider, 0) == first_unknown(v, *provider, i as int),
    {
        assert(cs@[i as int]@ == v[i as int]);
        let got = provider.get(cs[i].as_str());
        if got.is_none() {
            let name = cs[i].clone();
            assert(name@ == v[i as int]);
            assert(provider.get_spec(v[i as int]) is None);
            return Err(LevelTestError::UnknownConstant(name));
        }
    }
    Ok(())
}

/// The runs of each of `cases` on `code` with `p`, in order.
pub open spec fn runs_of(cases: Seq<TestCase>, code: Box<Node>, p: ConstantProvider) -> Seq<TestCaseRun> {
    cases.map_values(|t: TestCase| spec_run(t, code, p))
}

impl Level {
    /// Reads the solution `code` and, if it reads and uses only constants that
    /// `provider` knows, runs every test case of the level on it, with all the
    /// game's constants known (test cases may use any).
    pub fn test(&self, code: &str, provider: &ConstantProvider, all: &AllConstants) -> (r: Result<
        TestCaseRuns,
        LevelTestError,
    >)
        ensures
            match spec_tokenize(code@) {
                Err(e) => r == Err::<TestCaseRuns, LevelTestError>(LevelTestError::TokenizeError(e)),
                Ok(tv) => exists|t: Seq<Token>|
                    tokens_view(t) == tv && match #[trigger] spec_parse(t) {
                        Err(e) => r == Err::<TestCaseRuns, LevelTestError>(LevelTestError::ParseError(e)),
                        Ok(node) => match first_unknown(constants_of(*node), *provider, 0) {
                            Some(c) => r matches Err(LevelTestError::UnknownConstant(s)) && s@ == c,
                            None => r matches Ok(runs) && runs.code == node && runs.runs@ == runs_of(
                                test_cases_in(self.spec_base().test_cases),
                                node,
                                all_provider(all),
                            ),
                        },
                    },
            },
    {
        let tokens = match tokenize(code) {
            Ok(t) => t,
            Err(e) => return Err(LevelTestError::TokenizeError(e)),
        };
        let ghost t = tokens@;
        let node = match parse(tokens) {
            Ok(n) => n,
            Err(e) => {
                assert(tokens_view(t) == spec_tokenize(code@)->Ok_0 && spec_parse(t) == Err::<
                    Box<Node>,
                    ParseError,
                >(e));
                return Err(LevelTestError::ParseError(e));
            },
        };
        match check_constants(&node, provider) {
            Err(e) => {
                assert(tokens_view(t) == spec_tokenize(code@)->Ok_0 && spec_parse(t) == Ok::<
                    Box<Node>,
                    ParseError,
                >(node));
                return Err(e);
            },
            Ok(()) => {},
        }
        // From here on every constant is known: test cases may use any.
        let all_known = ConstantProvider::all(all);
        let cases = test_cases_vec(&self.base().test_cases);
        let mut runs: Vec<TestCaseRun> = Vec::new();
        let m = cases.len();
        for i in 0..m
            invariant
                m == cases.len(),
                all_known == all_provider(all),
                runs@ == runs_of(cases@.take(i as int), node, all_known),
        {
            let run = cases[i].test(Box::new((*node).copy()), &all_known);
            proof {
                assert(runs_of(cases@.take(i + 1), node, all_known) =~= runs_of(
                    cases@.take(i as int),
                    node,
                    all_known,
                ).push(run));
            }
            runs.push(run);
        }
        assert(cases@.take(m as int) =~= cases@);
        assert(tokens_view(t) == spec_tokenize(code@)->Ok_0 && spec_parse(t) == Ok::<Box<Node>, ParseError>(node));
        Ok(TestCaseRuns { runs, code: node })
    }
}

proof fn lemma_first_unknown_from(cs: Seq<Seq<char>>, p: ConstantProvider, i: int, k: int)
    requires
        0 <= i <= k < cs.len(),
        p.get_spec(cs[k]) is None,
    ensures
        first_unknown(cs, p, i) matches Some(d) && exists|t: int| i <= t < cs.len() && cs[t] == d && p.get_spec(
            d,
        ) is None,
    decreases k - i,
{
    if p.get_spec(cs[i]) is None {
        assert(cs[i] == cs[i]);
    } else {
        lemma_first_unknown_from(cs, p, i + 1, k);
    }
}

/// A solution is refused as soon as any constant standing anywhere in it,
/// inside function bodies too, is unknown to the provider: checking its
/// constants then finds an unknown one, and the one it names stands in the
/// solution and is indeed unknown. `Level::test` answers such a solution
/// with `UnknownConstant` of that name.
pub proof fn unknown_constants_refused(node: Node, p: ConstantProvider, c: Seq<char>)
    requires
        occurs(c, node),
        p.get_spec(c) is None,
    ensures
        first_unknown(constants_of(node), p, 0) matches Some(d) && occurs(d, node) && p.get_spec(d) is None,
{
    constants_of_are_occurrences(c, node);
    let cs = constants_of(node);
    let k = choose|k: int| 0 <= k < cs.len() && cs[k] == c;
    lemma_first_unknown_from(cs, p, 0, k);
    let d = first_unknown(cs, p, 0)->Some_0;
    let t = choose|t: int| 0 <= t < cs.len() && cs[t] == d && p.get_spec(d) is None;
    assert(cs.contains(d));
    constants_of_are_occurrences(d, node);
}

} // verus!
