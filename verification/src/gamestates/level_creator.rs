//! Checking a level that a user wrote before it is played or published.
use vstd::prelude::*;

pub mod list;
pub mod uploading;

use crate::gamestates::Key;
use crate::interpreter::chars::{is_ascii_uppercase, spec_is_ascii_uppercase};
use crate::interpreter::parser::{parse, spec_parse, Node, ParseError};
use crate::interpreter::tokenizer::{spec_tokenize, tokenize, tokens_view, Token, TokenizeError};
use std::sync::Arc;

use crate::interpreter::constants::{AllConstants, ConstantProvider, Numerals};
use crate::levels::base::{spec_run, BaseLevel, Level, TestCase, UserCreatedLevel};
use crate::util::numbers::{decimal_digits, u64_to_decimal};
use crate::util::nonempty::{pairs_in, pairs_vec, strings_in, strings_vec, test_cases_in, test_cases_vec, test_cases_vec1};
use crate::util::text::{chars_of, push_str};
use vec1::Vec1;

verus! {

/// The level's entry in the workshop.
#[derive(Debug)]
pub struct WorkshopConfig {
    pub title: String,
    pub description: String,
    pub published_id: Option<u64>,
}

impl Default for WorkshopConfig {
    fn default() -> (r: Self)
        ensures
            r.title@ == Seq::<char>::empty(),
            r.description@ == Seq::<char>::empty(),
            r.published_id is None,
    {
        WorkshopConfig { title: String::new(), description: String::new(), published_id: None }
    }
}

/// The workshop entry must have a title and a description.
pub fn validate_workshop(workshop: &WorkshopConfig) -> (r: Result<(), ValidationError>)
    ensures
        workshop.title@.len() == 0 ==> r matches Err(ValidationError::EmptyTitle),
        workshop.title@.len() > 0 && workshop.description@.len() == 0 ==> r matches Err(
            ValidationError::EmptyDescription,
        ),
        workshop.title@.len() > 0 && workshop.description@.len() > 0 ==> r is Ok,
{
    if workshop.title.as_str().is_empty() {
        Err(ValidationError::EmptyTitle)
    } else if workshop.description.as_str().is_empty() {
        Err(ValidationError::EmptyDescription)
    } else {
        Ok(())
    }
}

/// The configuration file in which a user describes a level.
#[derive(Debug)]
pub struct UserLevelConfig {
    /// Name shown in the game; the workshop title if absent.
    pub name: Option<String>,
    /// Description shown in the game; the workshop description if absent.
    pub description: Option<String>,
    /// Shown next to the description.
    pub extra_info: Option<String>,
    /// Shown on request next to the description; not together with `extra_info`.
    pub hint: Option<String>,
    /// Pairs of (function taking the solution, expected result).
    pub test_cases: Vec1<(String, String)>,
    /// Correct solutions.
    pub solutions: Vec1<String>,
    /// Solutions that must fail some test case.
    pub wrong_solutions: Vec<String>,
    /// Constants the level defines, as (name, term).
    pub extra_constants: Vec<(String, String)>,
}

/// What is wrong with a user level.
#[derive(Debug)]
pub enum ValidationError {
    EmptyTitle,
    EmptyDescription,
    /// The configuration file could not be evaluated; the message says why.
    JsonnetError(String),
    /// The configuration is not valid JSON for a level; the message says why.
    SerdeError(String),
    HasExtraInfoAndHint,
    /// A term does not parse; the text says which.
    ParseError(ParseError, String),
    /// A term does not tokenize; the text says which.
    TokenizeError(TokenizeError, String),
    /// A solution failed to interpret on a test case; the text says which.
    InterpretError(crate::interpreter::interpreter::InterpretError, String),
    /// A solution gives another result than expected on a test case; the
    /// indices count from 1.
    WrongSolution { sol_idx: usize, test_idx: usize, expected: Box<Node>, got: Box<Node> },
    /// A wrong solution passes every test case; the index counts from 0.
    WrongSolutionIsCorrect(usize),
    /// A constant name with a character other than `A`-`Z` and `_`.
    InvalidConstantName(String),
}

/// Why a text does not read as a term.
#[derive(Debug, Clone, Copy, PartialEq, Eq, Structural)]
pub enum ReadError {
    Tokenize(TokenizeError),
    Parse(ParseError),
}

/// Reading the text `s` gives `o`: its term, or the error of tokenizing or
/// parsing it.
pub open spec fn reads(s: Seq<char>, o: Result<Box<Node>, ReadError>) -> bool {
    match spec_tokenize(s) {
        Err(e) => o == Err::<Box<Node>, ReadError>(ReadError::Tokenize(e)),
        Ok(tv) => exists|t: Seq<Token>|
            tokens_view(t) == tv && match #[trigger] spec_parse(t) {
                Ok(n) => o == Ok::<Box<Node>, ReadError>(n),
                Err(e) => o == Err::<Box<Node>, ReadError>(ReadError::Parse(e)),
            },
    }
}

/// Reads the text `term` as a term.
pub fn read_term(term: &str) -> (r: Result<Box<Node>, ReadError>)
    ensures
        reads(term@, r),
{
    match tokenize(term) {
        Err(e) => Err(ReadError::Tokenize(e)),
        Ok(tokens) => {
            let ghost t = tokens@;
            let r = match parse(tokens) {
                Ok(n) => Ok(n),
                Err(e) => Err(ReadError::Parse(e)),
            };
            assert(tokens_view(t) == spec_tokenize(term@)->Ok_0);
            assert(match spec_parse(t) {
                Ok(n) => r == Ok::<Box<Node>, ReadError>(n),
                Err(e) => r == Err::<Box<Node>, ReadError>(ReadError::Parse(e)),
            });
            r
        },
    }
}

/// `r` is what reading gives as `o` becomes, for a text described as `label`.
pub open spec fn labeled<T>(o: Result<Box<Node>, ReadError>, label: Seq<char>, r: Result<T, ValidationError>) -> bool {
    match o {
        Ok(_) => true,
        Err(ReadError::Tokenize(e)) => r matches Err(ValidationError::TokenizeError(e2, s)) && e2 == e
            && s@ == label,
        Err(ReadError::Parse(e)) => r matches Err(ValidationError::ParseError(e2, s)) && e2 == e && s@
            == label,
    }
}

/// Whether every character of `name` is `A`-`Z` or `_`.
pub open spec fn upper_name(name: Seq<char>) -> bool {
    forall|k: int| 0 <= k < name.len() ==> (#[trigger] name[k] == '_' || spec_is_ascii_uppercase(name[k]))
}

impl UserLevelConfig {
    /// Reads `term`; an error names the text by `source`.
    pub fn parse(source: &String, term: &str) -> (r: Result<Box<Node>, ValidationError>)
        ensures
            exists|o: Result<Box<Node>, ReadError>|
                #[trigger] reads(term@, o) && match o {
                    Ok(n) => r == Ok::<Box<Node>, ValidationError>(n),
                    Err(_) => labeled(o, source@, r),
                },
    {
        let o = read_term(term);
        match o {
            Ok(n) => Ok(n),
            Err(ReadError::Tokenize(e)) => Err(ValidationError::TokenizeError(e, source.clone())),
            Err(ReadError::Parse(e)) => Err(ValidationError::ParseError(e, source.clone())),
        }
    }

    /// Constant names may only hold `A`-`Z` and `_`.
    pub fn check_string_uppercase(name: &str) -> (r: Result<(), ValidationError>)
        ensures
            upper_name(name@) ==> r is Ok,
            !upper_name(name@) ==> (r matches Err(ValidationError::InvalidConstantName(s)) && s@
                == name@),
    {
        let chars = chars_of(name);
        for k in 0..chars.len()
            invariant
                chars@ == name@,
                forall|t: int| 0 <= t < k ==> (#[trigger] chars@[t] == '_' || spec_is_ascii_uppercase(chars@[t])),
        {
            if chars[k] != '_' && !is_ascii_uppercase(chars[k]) {
                assert(!(chars@[k as int] == '_' || spec_is_ascii_uppercase(chars@[k as int])));
                return Err(ValidationError::InvalidConstantName(String::from_str(name)));
            }
        }
        Ok(())
    }
}


pub open spec fn case_app_label(k: int) -> Seq<char> {
    "test case #"@ + decimal_digits((k + 1) as nat) + "'s application"@
}

pub open spec fn case_res_label(k: int) -> Seq<char> {
    "test case #"@ + decimal_digits((k + 1) as nat) + "'s result"@
}

pub open spec fn solution_label(k: int) -> Seq<char> {
    "solution #"@ + decimal_digits((k + 1) as nat)
}

pub open spec fn wrong_label(k: int) -> Seq<char> {
    "wrong solution #"@ + decimal_digits((k + 1) as nat)
}

pub open spec fn constant_label(name: Seq<char>) -> Seq<char> {
    "constant '"@ + name + "'"@
}

/// Something `validate` reads, in order: a text with the label that names it
/// in errors, or (flag set) a constant name to check.
pub type ReadItem = (Seq<char>, Seq<char>, bool);

/// The `i`-th thing read from `c`: each test case's application then result,
/// the solutions, the wrong solutions, then each constant's name and term.
pub open spec fn item_at(c: UserLevelConfig, i: int) -> ReadItem {
    let nc = pairs_in(c.test_cases).len() as int;
    let ns = strings_in(c.solutions).len() as int;
    let nw = c.wrong_solutions.len() as int;
    if i < 2 * nc {
        if i % 2 == 0 {
            (pairs_in(c.test_cases)[i / 2].0@, case_app_label(i / 2), false)
        } else {
            (pairs_in(c.test_cases)[i / 2].1@, case_res_label(i / 2), false)
        }
    } else if i < 2 * nc + ns {
        (strings_in(c.solutions)[i - 2 * nc]@, solution_label(i - 2 * nc), false)
    } else if i < 2 * nc + ns + nw {
        (c.wrong_solutions@[i - 2 * nc - ns]@, wrong_label(i - 2 * nc - ns), false)
    } else {
        let j = i - (2 * nc + ns + nw);
        if j % 2 == 0 {
            (c.extra_constants@[j / 2].0@, Seq::<char>::empty(), true)
        } else {
            (
                c.extra_constants@[j / 2].1@,
                constant_label(c.extra_constants@[j / 2].0@),
                false,
            )
        }
    }
}

pub open spec fn item_count(c: UserLevelConfig) -> int {
    2 * pairs_in(c.test_cases).len() + strings_in(c.solutions).len() + c.wrong_solutions.len() + 2 * c.extra_constants.len()
}

/// Reading `it` went wrong, as `o` tells for a text.
pub open spec fn failing(it: ReadItem, o: Result<Box<Node>, ReadError>) -> bool {
    if it.2 {
        !upper_name(it.0)
    } else {
        o is Err
    }
}

/// The first `n` results are what reading the first `n` items gives, and none
/// of them went wrong but maybe the last, at `n - 1`, if `last_may_fail`.
pub open spec fn read_prefix(c: UserLevelConfig, outs: Seq<Result<Box<Node>, ReadError>>, n: int, last_may_fail: bool) -> bool {
    &&& outs.len() == n
    &&& forall|j: int| 0 <= j < n && !item_at(c, j).2 ==> reads(item_at(c, j).0, #[trigger] outs[j])
    &&& forall|j: int|
        0 <= j < n && (!last_may_fail || j < n - 1) ==> !failing(item_at(c, j), #[trigger] outs[j])
}

/// The terms read from `c`.
#[derive(Debug)]
pub struct ReadConfig {
    pub cases: Vec<TestCase>,
    pub solutions: Vec<Box<Node>>,
    pub wrong_solutions: Vec<Box<Node>>,
    /// The constants, as (name, term).
    pub constants: Vec<(String, Box<Node>)>,
}

/// `rc` holds the terms that the results `outs` of reading every item of `c` give.
pub open spec fn read_config_from(c: UserLevelConfig, outs: Seq<Result<Box<Node>, ReadError>>, rc: ReadConfig) -> bool {
    let nc = pairs_in(c.test_cases).len() as int;
    let ns = strings_in(c.solutions).len() as int;
    let nw = c.wrong_solutions.len() as int;
    &&& rc.cases.len() == nc
    &&& forall|k: int|
        0 <= k < nc ==> (#[trigger] rc.cases@[k]).application == outs[2 * k]->Ok_0
            && rc.cases@[k].expected_result == outs[2 * k + 1]->Ok_0
    &&& rc.solutions.len() == ns
    &&& forall|k: int| 0 <= k < ns ==> #[trigger] rc.solutions@[k] == outs[2 * nc + k]->Ok_0
    &&& rc.wrong_solutions.len() == nw
    &&& forall|k: int| 0 <= k < nw ==> #[trigger] rc.wrong_solutions@[k] == outs[2 * nc + ns + k]->Ok_0
    &&& rc.constants.len() == c.extra_constants.len()
    &&& forall|k: int|
        0 <= k < c.extra_constants.len() ==> (#[trigger] rc.constants@[k]).0@ == c.extra_constants@[k].0@
            && rc.constants@[k].1 == outs[2 * nc + ns + nw + 2 * k + 1]->Ok_0
}

/// Reading the items of `c` went wrong at the last result of `outs`, and `r`
/// is that error.
pub open spec fn read_failed<T>(c: UserLevelConfig, outs: Seq<Result<Box<Node>, ReadError>>, r: Result<T, ValidationError>) -> bool {
    &&& read_prefix(c, outs, outs.len() as int, true)
    &&& outs.len() >= 1
    &&& failing(item_at(c, outs.len() - 1), outs.last())
    &&& if item_at(c, outs.len() - 1).2 {
        r matches Err(ValidationError::InvalidConstantName(s)) && s@ == item_at(c, outs.len() - 1).0
    } else {
        labeled(outs.last(), item_at(c, outs.len() - 1).1, r)
    }
}

/// `r` is the outcome of reading the items of `c` with the results `outs`:
/// the error of the first item that went wrong, the last one read, or every
/// term read.
pub open spec fn read_outcome(c: UserLevelConfig, outs: Seq<Result<Box<Node>, ReadError>>, r: Result<ReadConfig, ValidationError>) -> bool {
    ||| read_failed(c, outs, r)
    ||| read_prefix(c, outs, item_count(c), false) && (r matches Ok(rc) && read_config_from(c, outs, rc))
}

/// Appends `n + 1` in decimal to `s`.
fn push_index(s: &mut String, n: usize)
    requires
        n < usize::MAX,
    ensures
        final(s)@ == old(s)@ + decimal_digits((n + 1) as nat),
{
    let d = u64_to_decimal((n + 1) as u64);
    push_str(s, d.as_str());
}

fn error_of(o: ReadError, label: String) -> (r: ValidationError)
    ensures
        labeled(Err::<Box<Node>, ReadError>(o), label@, Err::<(), ValidationError>(r)),
{
    match o {
        ReadError::Tokenize(e) => ValidationError::TokenizeError(e, label),
        ReadError::Parse(e) => ValidationError::ParseError(e, label),
    }
}

impl UserLevelConfig {
    /// Reads every term of the configuration, in order: the test cases, the
    /// solutions, the wrong solutions, and the constants (whose names are
    /// checked first), stopping at the first that goes wrong. A configuration
    /// with both extra info and a hint is refused first.
    pub fn read(&self) -> (r: Result<ReadConfig, ValidationError>)
        ensures
            self.extra_info is Some && self.hint is Some ==> r matches Err(
                ValidationError::HasExtraInfoAndHint,
            ),
            !(self.extra_info is Some && self.hint is Some) ==> exists|
                outs: Seq<Result<Box<Node>, ReadError>>,
            | #[trigger] read_outcome(*self, outs, r),
    {
        if self.extra_info.is_some() && self.hint.is_some() {
            return Err(ValidationError::HasExtraInfoAndHint);
        }
        let ghost c = *self;
        let ghost mut outs: Seq<Result<Box<Node>, ReadError>> = Seq::empty();
        let cases_t = pairs_vec(&self.test_cases);
        let sols_t = strings_vec(&self.solutions);
        let nc = cases_t.len();
        let ns = sols_t.len();
        let nw = self.wrong_solutions.len();
        let nk = self.extra_constants.len();
        let mut cases: Vec<TestCase> = Vec::new();
        for k in 0..nc
            invariant
                c == *self,
                !(self.extra_info is Some && self.hint is Some),
                nc == cases_t.len(),
                cases_t@ == pairs_in(self.test_cases),
                read_prefix(c, outs, 2 * k, false),
                cases@.len() == k,
                forall|t: int|
                    0 <= t < k ==> (#[trigger] cases@[t]).application == outs[2 * t]->Ok_0
                        && cases@[t].expected_result == outs[2 * t + 1]->Ok_0,
        {
            let (app, res) = &cases_t[k];
            let mut label = String::new();
            push_str(&mut label, "test case #");
            push_index(&mut label, k);
            push_str(&mut label, "'s application");
            assert(item_at(c, 2 * k as int) == (app@, case_app_label(k as int), false));
            let a = read_term(app.as_str());
            proof {
                outs = outs.push(a);
            }
            let a = match a {
                Ok(n) => n,
                Err(e) => {
                    let r = Err(error_of(e, label));
                    assert(read_outcome(c, outs, r));
                    return r;
                },
            };
            let mut label = String::new();
            push_str(&mut label, "test case #");
            push_index(&mut label, k);
            push_str(&mut label, "'s result");
            assert(item_at(c, 2 * k + 1) == (res@, case_res_label(k as int), false));
            let b = read_term(res.as_str());
            proof {
                outs = outs.push(b);
            }
            let b = match b {
                Ok(n) => n,
                Err(e) => {
                    let r = Err(error_of(e, label));
                    assert(read_outcome(c, outs, r));
                    return r;
                },
            };
            cases.push(TestCase::from(a, b));
        }
        let mut solutions: Vec<Box<Node>> = Vec::new();
        for k in 0..ns
            invariant
                c == *self,
                nc == cases_t.len(),
                cases_t@ == pairs_in(self.test_cases),
                ns == sols_t.len(),
                sols_t@ == strings_in(self.solutions),
                read_prefix(c, outs, 2 * nc + k, false),
                !(self.extra_info is Some && self.hint is Some),
                cases@.len() == nc,
                forall|t: int|
                    0 <= t < nc ==> (#[trigger] cases@[t]).application == outs[2 * t]->Ok_0
                        && cases@[t].expected_result == outs[2 * t + 1]->Ok_0,
                solutions@.len() == k,
                forall|t: int| 0 <= t < k ==> #[trigger] solutions@[t] == outs[2 * nc + t]->Ok_0,
        {
            let mut label = String::new();
            push_str(&mut label, "solution #");
            push_index(&mut label, k);
            assert(item_at(c, 2 * nc + k) == (sols_t@[k as int]@, solution_label(k as int), false));
            let s = read_term(sols_t[k].as_str());
            proof {
                outs = outs.push(s);
            }
            match s {
                Ok(n) => solutions.push(n),
                Err(e) => {
                    let r = Err(error_of(e, label));
                    assert(read_outcome(c, outs, r));
                    return r;
                },
            }
        }
        let mut wrong_solutions: Vec<Box<Node>> = Vec::new();
        for k in 0..nw
            invariant
                c == *self,
                nc == cases_t.len(),
                cases_t@ == pairs_in(self.test_cases),
                ns == sols_t.len(),
                sols_t@ == strings_in(self.solutions),
                nw == self.wrong_solutions.len(),
                read_prefix(c, outs, 2 * nc + ns + k, false),
                !(self.extra_info is Some && self.hint is Some),
                cases@.len() == nc,
                forall|t: int|
                    0 <= t < nc ==> (#[trigger] cases@[t]).application == outs[2 * t]->Ok_0
                        && cases@[t].expected_result == outs[2 * t + 1]->Ok_0,
                solutions@.len() == ns,
                forall|t: int| 0 <= t < ns ==> #[trigger] solutions@[t] == outs[2 * nc + t]->Ok_0,
                wrong_solutions@.len() == k,
                forall|t: int| 0 <= t < k ==> #[trigger] wrong_solutions@[t] == outs[2 * nc + ns + t]->Ok_0,
        {
            let mut label = String::new();
            push_str(&mut label, "wrong solution #");
            push_index(&mut label, k);
            assert(item_at(c, 2 * nc + ns + k) == (
                self.wrong_solutions@[k as int]@,
                wrong_label(k as int),
                false,
            ));
            let s = read_term(self.wrong_solutions[k].as_str());
            proof {
                outs = outs.push(s);
            }
            match s {
                Ok(n) => wrong_solutions.push(n),
                Err(e) => {
                    let r = Err(error_of(e, label));
                    assert(read_outcome(c, outs, r));
                    return r;
                },
            }
        }
        let mut constants: Vec<(String, Box<Node>)> = Vec::new();
        for k in 0..nk
            invariant
                c == *self,
                nc == cases_t.len(),
                cases_t@ == pairs_in(self.test_cases),
                ns == sols_t.len(),
                sols_t@ == strings_in(self.solutions),
                nw == self.wrong_solutions.len(),
                nk == self.extra_constants.len(),
                read_prefix(c, outs, 2 * nc + ns + nw + 2 * k, false),
                !(self.extra_info is Some && self.hint is Some),
                cases@.len() == nc,
                forall|t: int|
                    0 <= t < nc ==> (#[trigger] cases@[t]).application == outs[2 * t]->Ok_0
                        && cases@[t].expected_result == outs[2 * t + 1]->Ok_0,
                solutions@.len() == ns,
                forall|t: int| 0 <= t < ns ==> #[trigger] solutions@[t] == outs[2 * nc + t]->Ok_0,
                wrong_solutions@.len() == nw,
                forall|t: int| 0 <= t < nw ==> #[trigger] wrong_solutions@[t] == outs[2 * nc + ns + t]->Ok_0,
                constants@.len() == k,
                forall|t: int|
                    0 <= t < k ==> (#[trigger] constants@[t]).0@ == self.extra_constants@[t].0@
                        && constants@[t].1 == outs[2 * nc + ns + nw + 2 * t + 1]->Ok_0,
        {
            let (name, term) = &self.extra_constants[k];
            let ghost base = 2 * nc + ns + nw;
            assert(item_at(c, base + 2 * k) == (name@, Seq::<char>::empty(), true));
            assert(item_at(c, base + 2 * k + 1) == (term@, constant_label(name@), false));
            let checked = Self::check_string_uppercase(name.as_str());
            proof {
                outs = outs.push(Err(ReadError::Tokenize(TokenizeError::UnknownCharacter(' '))));
            }
            match checked {
                Err(e) => {
                    let r = Err(e);
                    assert(read_outcome(c, outs, r));
                    return r;
                },
                Ok(()) => {},
            }
            let mut label = String::new();
            push_str(&mut label, "constant '");
            push_str(&mut label, name.as_str());
            push_str(&mut label, "'");
            let s = read_term(term.as_str());
            proof {
                outs = outs.push(s);
            }
            match s {
                Ok(n) => constants.push((name.clone(), n)),
                Err(e) => {
                    let r = Err(error_of(e, label));
                    assert(read_outcome(c, outs, r));
                    return r;
                },
            }
        }
        let rc = ReadConfig { cases, solutions, wrong_solutions, constants };
        let r = Ok(rc);
        assert(read_outcome(c, outs, r));
        r
    }
}


/// Whether `code`, given to test case `t`, gives its expected result with `p`.
pub open spec fn passes(t: TestCase, code: Box<Node>, p: ConstantProvider) -> bool {
    spec_run(t, code, p).spec_is_correct()
}

/// The first of `cases`, from `ti` on, that `code` does not pass.
pub open spec fn first_failed_case(cases: Seq<TestCase>, code: Box<Node>, p: ConstantProvider, ti: int) -> Option<int>
    decreases cases.len() - ti,
{
    if ti < 0 || ti >= cases.len() {
        None
    } else if !passes(cases[ti], code, p) {
        Some(ti)
    } else {
        first_failed_case(cases, code, p, ti + 1)
    }
}

/// The first solution, from `si` on, that fails a test case, with the first
/// test case it fails.
pub open spec fn first_failed_solution(cases: Seq<TestCase>, sols: Seq<Box<Node>>, p: ConstantProvider, si: int) -> Option<(int, int)>
    decreases sols.len() - si,
{
    if si < 0 || si >= sols.len() {
        None
    } else {
        match first_failed_case(cases, sols[si], p, 0) {
            Some(ti) => Some((si, ti)),
            None => first_failed_solution(cases, sols, p, si + 1),
        }
    }
}

/// The first wrong solution, from `wi` on, that passes every test case.
pub open spec fn first_passing_wrong(cases: Seq<TestCase>, wrongs: Seq<Box<Node>>, p: ConstantProvider, wi: int) -> Option<int>
    decreases wrongs.len() - wi,
{
    if wi < 0 || wi >= wrongs.len() {
        None
    } else if first_failed_case(cases, wrongs[wi], p, 0) is None {
        Some(wi)
    } else {
        first_passing_wrong(cases, wrongs, p, wi + 1)
    }
}

pub open spec fn run_label(si: int, ti: int) -> Seq<char> {
    "solution #"@ + decimal_digits((si + 1) as nat) + " on test case #"@ + decimal_digits((ti + 1) as nat)
}

/// `r` is the outcome of checking the solutions and wrong solutions against
/// `cases` with `p`: the first failure of a solution, in order of solutions
/// then test cases, or else the first wrong solution that passes every test
/// case, or else success.
pub open spec fn check_outcome<T>(
    cases: Seq<TestCase>,
    sols: Seq<Box<Node>>,
    wrongs: Seq<Box<Node>>,
    p: ConstantProvider,
    r: Result<T, ValidationError>,
) -> bool {
    match first_failed_solution(cases, sols, p, 0) {
        Some((si, ti)) => match spec_run(cases[ti], sols[si], p).result {
            Err(e) => r matches Err(ValidationError::InterpretError(e2, s)) && e2 == e && s@ == run_label(
                si,
                ti,
            ),
            Ok(t) => r matches Err(ValidationError::WrongSolution { sol_idx, test_idx, expected, got })
                && sol_idx == si + 1 && test_idx == ti + 1 && expected == cases[ti].expected_result
                && got == t,
        },
        None => match first_passing_wrong(cases, wrongs, p, 0) {
            Some(wi) => r matches Err(ValidationError::WrongSolutionIsCorrect(w)) && w == wi,
            None => r is Ok,
        },
    }
}

fn passes_all(cases: &Vec<TestCase>, code: &Node, provider: &ConstantProvider) -> (r: Option<usize>)
    ensures
        match first_failed_case(cases@, Box::new(*code), *provider, 0) {
            Some(ti) => 0 <= ti < cases.len() && r == Some(ti as usize),
            None => r is None,
        },
{
    for ti in 0..cases.len()
        invariant
            first_failed_case(cases@, Box::new(*code), *provider, 0) == first_failed_case(
                cases@,
                Box::new(*code),
                *provider,
                ti as int,
            ),
    {
        let run = cases[ti].test(Box::new(code.copy()), provider);
        if !run.is_correct() {
            return Some(ti);
        }
    }
    None
}

/// Checks that every solution passes every test case and that no wrong
/// solution passes them all, as `check_outcome` says.
pub fn check_solutions(
    cases: &Vec<TestCase>,
    solutions: &Vec<Box<Node>>,
    wrong_solutions: &Vec<Box<Node>>,
    provider: &ConstantProvider,
) -> (r: Result<(), ValidationError>)
    requires
        solutions.len() < usize::MAX,
        cases.len() < usize::MAX,
    ensures
        check_outcome(cases@, solutions@, wrong_solutions@, *provider, r),
{
    for si in 0..solutions.len()
        invariant
            solutions.len() < usize::MAX,
            cases.len() < usize::MAX,
            first_failed_solution(cases@, solutions@, *provider, 0) == first_failed_solution(
                cases@,
                solutions@,
                *provider,
                si as int,
            ),
    {
        assert(Box::new(*solutions@[si as int]) == solutions@[si as int]);
        match passes_all(cases, &*solutions[si], provider) {
            None => {},
            Some(ti) => {
                assert(first_failed_case(cases@, solutions@[si as int], *provider, 0) == Some(ti as int));
                assert(first_failed_solution(cases@, solutions@, *provider, si as int) == Some(
                    (si as int, ti as int),
                ));
                let run = cases[ti].test(Box::new((*solutions[si]).copy()), provider);
                assert(run == spec_run(cases@[ti as int], solutions@[si as int], *provider));
                match run.result {
                    Err(e) => {
                        let mut label = String::new();
                        push_str(&mut label, "solution #");
                        push_index(&mut label, si);
                        push_str(&mut label, " on test case #");
                        push_index(&mut label, ti);
                        return Err(ValidationError::InterpretError(e, label));
                    },
                    Ok(t) => {
                        return Err(
                            ValidationError::WrongSolution {
                                sol_idx: si + 1,
                                test_idx: ti + 1,
                                expected: run.expected_result,
                                got: t,
                            },
                        );
                    },
                }
            },
        }
    }
    for wi in 0..wrong_solutions.len()
        invariant
            first_failed_solution(cases@, solutions@, *provider, 0) is None,
            first_passing_wrong(cases@, wrong_solutions@, *provider, 0) == first_passing_wrong(
                cases@,
                wrong_solutions@,
                *provider,
                wi as int,
            ),
    {
        assert(Box::new(*wrong_solutions@[wi as int]) == wrong_solutions@[wi as int]);
        if passes_all(cases, &*wrong_solutions[wi], provider).is_none() {
            return Err(ValidationError::WrongSolutionIsCorrect(wi));
        }
    }
    Ok(())
}

/// The configuration of a user level that passed validation.
#[derive(Debug)]
pub struct ParsedUserLevelConfig {
    pub name: String,
    pub description: String,
    pub extra_info: Option<String>,
    pub extra_info_is_hint: bool,
    pub test_cases: Vec1<(String, String)>,
    pub extra_constants: Vec<(String, String)>,
}

/// The test cases whose terms `outs` holds, for the test cases of `c`.
pub open spec fn cases_of(c: UserLevelConfig, outs: Seq<Result<Box<Node>, ReadError>>) -> Seq<TestCase> {
    Seq::new(
        pairs_in(c.test_cases).len() as nat,
        |k: int| TestCase { application: outs[2 * k]->Ok_0, expected_result: outs[2 * k + 1]->Ok_0 },
    )
}

pub open spec fn solutions_of(c: UserLevelConfig, outs: Seq<Result<Box<Node>, ReadError>>) -> Seq<Box<Node>> {
    Seq::new(strings_in(c.solutions).len() as nat, |k: int| outs[2 * pairs_in(c.test_cases).len() + k]->Ok_0)
}

pub open spec fn wrongs_of(c: UserLevelConfig, outs: Seq<Result<Box<Node>, ReadError>>) -> Seq<Box<Node>> {
    Seq::new(
        c.wrong_solutions.len() as nat,
        |k: int| outs[2 * pairs_in(c.test_cases).len() + strings_in(c.solutions).len() + k]->Ok_0,
    )
}

/// `p` is the provider of a user level that defines the constants of `c`, as
/// read in `outs`: every constant of the game (`all`), the level's own, and
/// numerals.
pub open spec fn user_provider(p: ConstantProvider, all: &AllConstants, c: UserLevelConfig, outs: Seq<Result<Box<Node>, ReadError>>) -> bool {
    let base = 2 * pairs_in(c.test_cases).len() + strings_in(c.solutions).len() + c.wrong_solutions.len();
    &&& p.constants() == all.entries()
    &&& p.completion() is None
    &&& p.numerals() == Numerals::Church
    &&& p.extra() is Some
    &&& p.extra()->Some_0.len() == c.extra_constants.len()
    &&& forall|k: int|
        0 <= k < c.extra_constants.len() ==> (#[trigger] p.extra()->Some_0[k]).0@
            == c.extra_constants@[k].0@ && p.extra()->Some_0[k].1 == outs[base + 2 * k + 1]->Ok_0
}

/// `r` is the outcome of validating `c`, whose items read as `outs`, against
/// the workshop entry `ws`: the reading error, or the outcome of checking the
/// solutions with some provider of the level.
pub open spec fn validate_outcome(
    c: UserLevelConfig,
    all: &AllConstants,
    outs: Seq<Result<Box<Node>, ReadError>>,
    r: Result<ParsedUserLevelConfig, ValidationError>,
) -> bool {
    ||| read_failed(c, outs, r)
    ||| {
        &&& read_prefix(c, outs, item_count(c), false)
        &&& exists|p: ConstantProvider|
            #[trigger] user_provider(p, all, c, outs) && check_outcome(
                cases_of(c, outs),
                solutions_of(c, outs),
                wrongs_of(c, outs),
                p,
                r,
            )
    }
}

impl UserLevelConfig {
    /// Validates the configuration: reads it (see `read`), then checks its
    /// solutions and wrong solutions (see `check_solutions`) with the
    /// constants of the game and of the level. What passes keeps its texts,
    /// with the workshop's title and description where the configuration
    /// has none, and the hint shown as extra info.
    pub fn validate(self, workshop: WorkshopConfig, all: &AllConstants) -> (r: Result<
        ParsedUserLevelConfig,
        ValidationError,
    >)
        requires
            strings_in(self.solutions).len() < usize::MAX,
            pairs_in(self.test_cases).len() < usize::MAX,
        ensures
            self.extra_info is Some && self.hint is Some ==> r matches Err(
                ValidationError::HasExtraInfoAndHint,
            ),
            !(self.extra_info is Some && self.hint is Some) ==> exists|
                outs: Seq<Result<Box<Node>, ReadError>>,
            | #[trigger] validate_outcome(self, all, outs, r),
            r matches Ok(pc) ==> {
                &&& pc.name == match self.name {
                    Some(n) => n,
                    None => workshop.title,
                }
                &&& pc.description == match self.description {
                    Some(d) => d,
                    None => workshop.description,
                }
                &&& pc.extra_info_is_hint == self.hint is Some
                &&& pc.extra_info == match self.extra_info {
                    Some(x) => Some(x),
                    None => self.hint,
                }
                &&& pc.test_cases == self.test_cases
                &&& pc.extra_constants == self.extra_constants
            },
    {
        let ghost c = self;
        let rc = match self.read() {
            Err(e) => {
                let r = Err(e);
                proof {
                    if !(self.extra_info is Some && self.hint is Some) {
                        let outs = choose|outs: Seq<Result<Box<Node>, ReadError>>|
                            #[trigger] read_outcome(c, outs, Err::<ReadConfig, ValidationError>(e));
                        assert(read_failed(c, outs, Err::<ReadConfig, ValidationError>(e)));
                        assert(validate_outcome(c, all, outs, r));
                    }
                }
                return r;
            },
            Ok(rc) => rc,
        };
        let ghost outs = choose|outs: Seq<Result<Box<Node>, ReadError>>| #[trigger] read_outcome(c, outs, Ok::<ReadConfig, ValidationError>(rc));
        assert(!read_failed(c, outs, Ok::<ReadConfig, ValidationError>(rc)));
        let ReadConfig { cases, solutions, wrong_solutions, constants } = rc;
        let texts = pairs_vec(&self.test_cases);
        assert(cases@.len() == texts@.len());
        let level = Level::UserCreatedLevel(
            Arc::new(
                UserCreatedLevel {
                    base: BaseLevel {
                        name: String::new(),
                        description: String::new(),
                        extra_info: None,
                        extra_info_is_hint: false,
                        test_cases: match test_cases_vec1(cases) {
                            Ok(t) => t,
                            Err(_) => vstd::pervasive::unreached(),
                        },
                    },
                    extra_constants: constants,
                    id: None,
                },
            ),
        );
        let provider = ConstantProvider::new(&level, all);
        let base = level.base();
        let cases_v = test_cases_vec(&base.test_cases);
        assert(cases_v@ =~= cases_of(c, outs));
        assert(solutions@ =~= solutions_of(c, outs));
        assert(wrong_solutions@ =~= wrongs_of(c, outs));
        assert(user_provider(provider, all, c, outs));
        match check_solutions(cases_v, &solutions, &wrong_solutions, &provider) {
            Err(e) => {
                let r = Err(e);
                assert(validate_outcome(c, all, outs, r));
                return r;
            },
            Ok(()) => {},
        }
        let name = match self.name {
            Some(n) => n,
            None => workshop.title,
        };
        let description = match self.description {
            Some(d) => d,
            None => workshop.description,
        };
        let extra_info_is_hint = self.hint.is_some();
        let extra_info = match self.extra_info {
            Some(x) => Some(x),
            None => self.hint,
        };
        let r = Ok(
            ParsedUserLevelConfig {
                name,
                description,
                extra_info,
                extra_info_is_hint,
                test_cases: self.test_cases,
                extra_constants: self.extra_constants,
            },
        );
        assert(validate_outcome(c, all, outs, r));
        r
    }
}


pub open spec fn level_app_label(k: int) -> Seq<char> {
    "test case "@ + decimal_digits((k + 1) as nat) + "'s application"@
}

pub open spec fn level_res_label(k: int) -> Seq<char> {
    "test case "@ + decimal_digits((k + 1) as nat) + "'s result"@
}

/// The `i`-th thing read when a validated configuration becomes a level: each
/// test case's application then result, then each constant's name and term.
pub open spec fn level_item_at(c: ParsedUserLevelConfig, i: int) -> ReadItem {
    let nc = pairs_in(c.test_cases).len() as int;
    if i < 2 * nc {
        if i % 2 == 0 {
            (pairs_in(c.test_cases)[i / 2].0@, level_app_label(i / 2), false)
        } else {
            (pairs_in(c.test_cases)[i / 2].1@, level_res_label(i / 2), false)
        }
    } else {
        let j = i - 2 * nc;
        if j % 2 == 0 {
            (c.extra_constants@[j / 2].0@, Seq::<char>::empty(), true)
        } else {
            (
                c.extra_constants@[j / 2].1@,
                constant_label(c.extra_constants@[j / 2].0@),
                false,
            )
        }
    }
}

pub open spec fn level_read_prefix(
    c: ParsedUserLevelConfig,
    outs: Seq<Result<Box<Node>, ReadError>>,
    n: int,
    last_may_fail: bool,
) -> bool {
    &&& outs.len() == n
    &&& forall|j: int|
        0 <= j < n && !level_item_at(c, j).2 ==> reads(level_item_at(c, j).0, #[trigger] outs[j])
    &&& forall|j: int|
        0 <= j < n && (!last_may_fail || j < n - 1) ==> !failing(level_item_at(c, j), #[trigger] outs[j])
}

/// `r` is the outcome of turning `c` into a level when its items read as
/// `outs`: the error of the first item that went wrong, the last one read, or
/// the level of those terms, with `c`'s texts and no published id.
pub open spec fn level_outcome(
    c: ParsedUserLevelConfig,
    outs: Seq<Result<Box<Node>, ReadError>>,
    r: Result<UserCreatedLevel, ValidationError>,
) -> bool {
    let nc = pairs_in(c.test_cases).len() as int;
    ||| {
        &&& level_read_prefix(c, outs, outs.len() as int, true)
        &&& outs.len() >= 1
        &&& failing(level_item_at(c, outs.len() - 1), outs.last())
        &&& if level_item_at(c, outs.len() - 1).2 {
            r matches Err(ValidationError::InvalidConstantName(s)) && s@ == level_item_at(
                c,
                outs.len() - 1,
            ).0
        } else {
            labeled(outs.last(), level_item_at(c, outs.len() - 1).1, r)
        }
    }
    ||| {
        &&& level_read_prefix(c, outs, 2 * nc + 2 * c.extra_constants.len(), false)
        &&& r matches Ok(u)
        &&& u.base.name == c.name
        &&& u.base.description == c.description
        &&& u.base.extra_info == c.extra_info
        &&& u.base.extra_info_is_hint == c.extra_info_is_hint
        &&& test_cases_in(u.base.test_cases).len() == nc
        &&& forall|k: int|
            0 <= k < nc ==> (#[trigger] test_cases_in(u.base.test_cases)[k]).application == outs[2
                * k]->Ok_0 && test_cases_in(u.base.test_cases)[k].expected_result == outs[2 * k
                + 1]->Ok_0
        &&& u.extra_constants.len() == c.extra_constants.len()
        &&& forall|k: int|
            0 <= k < c.extra_constants.len() ==> (#[trigger] u.extra_constants@[k]).0@
                == c.extra_constants@[k].0@ && u.extra_constants@[k].1 == outs[2 * nc + 2 * k + 1]->Ok_0
        &&& u.id is None
    }
}

impl UserCreatedLevel {
    /// The level that a validated configuration describes: its test cases and
    /// constants read again, stopping at the first that goes wrong.
    pub fn try_from(config: ParsedUserLevelConfig) -> (r: Result<UserCreatedLevel, ValidationError>)
        requires
            pairs_in(config.test_cases).len() < usize::MAX,
        ensures
            exists|outs: Seq<Result<Box<Node>, ReadError>>| #[trigger] level_outcome(config, outs, r),
    {
        let ghost c = config;
        let ghost mut outs: Seq<Result<Box<Node>, ReadError>> = Seq::empty();
        let cases_t = pairs_vec(&config.test_cases);
        let nc = cases_t.len();
        let nk = config.extra_constants.len();
        let mut cases: Vec<TestCase> = Vec::new();
        for k in 0..nc
            invariant
                c == config,
                nc == cases_t.len() < usize::MAX,
                cases_t@ == pairs_in(config.test_cases),
                level_read_prefix(c, outs, 2 * k, false),
                cases@.len() == k,
                forall|t: int|
                    0 <= t < k ==> (#[trigger] cases@[t]).application == outs[2 * t]->Ok_0
                        && cases@[t].expected_result == outs[2 * t + 1]->Ok_0,
        {
            let (app, res) = &cases_t[k];
            let mut label = String::new();
            push_str(&mut label, "test case ");
            push_index(&mut label, k);
            push_str(&mut label, "'s application");
            assert(level_item_at(c, 2 * k as int) == (app@, level_app_label(k as int), false));
            let a = read_term(app.as_str());
            proof {
                outs = outs.push(a);
            }
            let a = match a {
                Ok(n) => n,
                Err(e) => {
                    let r = Err(error_of(e, label));
                    assert(level_outcome(c, outs, r));
                    return r;
                },
            };
            let mut label = String::new();
            push_str(&mut label, "test case ");
            push_index(&mut label, k);
            push_str(&mut label, "'s result");
            assert(level_item_at(c, 2 * k + 1) == (res@, level_res_label(k as int), false));
            let b = read_term(res.as_str());
            proof {
                outs = outs.push(b);
            }
            let b = match b {
                Ok(n) => n,
                Err(e) => {
                    let r = Err(error_of(e, label));
                    assert(level_outcome(c, outs, r));
                    return r;
                },
            };
            cases.push(TestCase::from(a, b));
        }
        let mut constants: Vec<(String, Box<Node>)> = Vec::new();
        for k in 0..nk
            invariant
                c == config,
                nc == cases_t.len(),
                cases_t@ == pairs_in(config.test_cases),
                nc > 0,
                nk == config.extra_constants.len(),
                level_read_prefix(c, outs, 2 * nc + 2 * k, false),
                cases@.len() == nc,
                forall|t: int|
                    0 <= t < nc ==> (#[trigger] cases@[t]).application == outs[2 * t]->Ok_0
                        && cases@[t].expected_result == outs[2 * t + 1]->Ok_0,
                constants@.len() == k,
                forall|t: int|
                    0 <= t < k ==> (#[trigger] constants@[t]).0@ == config.extra_constants@[t].0@
                        && constants@[t].1 == outs[2 * nc + 2 * t + 1]->Ok_0,
        {
            let (name, term) = &config.extra_constants[k];
            assert(level_item_at(c, 2 * nc + 2 * k) == (name@, Seq::<char>::empty(), true));
            assert(level_item_at(c, 2 * nc + 2 * k + 1) == (term@, constant_label(name@), false));
            let checked = UserLevelConfig::check_string_uppercase(name.as_str());
            proof {
                outs = outs.push(Err(ReadError::Tokenize(TokenizeError::UnknownCharacter(' '))));
            }
            match checked {
                Err(e) => {
                    let r = Err(e);
                    assert(level_outcome(c, outs, r));
                    return r;
                },
                Ok(()) => {},
            }
            let mut label = String::new();
            push_str(&mut label, "constant '");
            push_str(&mut label, name.as_str());
            push_str(&mut label, "'");
            let s = read_term(term.as_str());
            proof {
                outs = outs.push(s);
            }
            match s {
                Ok(n) => constants.push((name.clone(), n)),
                Err(e) => {
                    let r = Err(error_of(e, label));
                    assert(level_outcome(c, outs, r));
                    return r;
                },
            }
        }
        let r = Ok(
            UserCreatedLevel {
                base: BaseLevel {
                    name: config.name,
                    description: config.description,
                    extra_info: config.extra_info,
                    extra_info_is_hint: config.extra_info_is_hint,
                    test_cases: match test_cases_vec1(cases) {
                        Ok(t) => t,
                        Err(_) => vstd::pervasive::unreached(),
                    },
                },
                extra_constants: constants,
                id: None,
            },
        );
        assert(level_outcome(c, outs, r));
        r
    }
}

impl Level {
    /// The user created level that a validated configuration describes, as
    /// `UserCreatedLevel::try_from` makes it.
    pub fn try_from(value: ParsedUserLevelConfig) -> (r: Result<Level, ValidationError>)
        requires
            pairs_in(value.test_cases).len() < usize::MAX,
        ensures
            exists|u: Result<UserCreatedLevel, ValidationError>, outs: Seq<Result<Box<Node>, ReadError>>|
                #[trigger] level_outcome(value, outs, u) && match u {
                    Ok(l) => r matches Ok(Level::UserCreatedLevel(a)) && *a == l,
                    Err(e) => r == Err::<Level, ValidationError>(e),
                },
    {
        let u = UserCreatedLevel::try_from(value);
        let ghost gu = u;
        let ghost outs = choose|outs: Seq<Result<Box<Node>, ReadError>>| #[trigger] level_outcome(value, outs, gu);
        match u {
            Ok(l) => Ok(Level::UserCreatedLevel(Arc::new(l))),
            Err(e) => Err(e),
        }
    }
}

impl UserLevelConfig {
    /// `validate`, after checking that the configuration's solutions and test
    /// cases can be counted; `None`, with nothing validated, when they
    /// cannot.
    pub fn validate_checked(self, workshop: WorkshopConfig, all: &AllConstants) -> (r: Option<
        Result<ParsedUserLevelConfig, ValidationError>,
    >)
        ensures
            (r is Some) == (strings_in(self.solutions).len() < usize::MAX && pairs_in(self.test_cases).len()
                < usize::MAX),
            r matches Some(v) ==> {
                &&& self.extra_info is Some && self.hint is Some ==> (v matches Err(
                    ValidationError::HasExtraInfoAndHint,
                ))
                &&& !(self.extra_info is Some && self.hint is Some) ==> exists|
                    outs: Seq<Result<Box<Node>, ReadError>>,
                | #[trigger] validate_outcome(self, all, outs, v)
                &&& v matches Ok(pc) ==> {
                    &&& pc.name == match self.name {
                        Some(n) => n,
                        None => workshop.title,
                    }
                    &&& pc.description == match self.description {
                        Some(d) => d,
                        None => workshop.description,
                    }
                    &&& pc.extra_info_is_hint == self.hint is Some
                    &&& pc.extra_info == match self.extra_info {
                        Some(x) => Some(x),
                        None => self.hint,
                    }
                    &&& pc.test_cases == self.test_cases
                    &&& pc.extra_constants == self.extra_constants
                }
            },
    {
        let ns = strings_vec(&self.solutions).len();
        let nc = pairs_vec(&self.test_cases).len();
        if ns < usize::MAX && nc < usize::MAX {
            Some(self.validate(workshop, all))
        } else {
            None
        }
    }
}

impl UserCreatedLevel {
    /// `try_from`, after checking that the test cases can be counted; `None`
    /// when they cannot.
    pub fn try_from_checked(config: ParsedUserLevelConfig) -> (r: Option<Result<UserCreatedLevel, ValidationError>>)
        ensures
            (r is Some) == (pairs_in(config.test_cases).len() < usize::MAX),
            r matches Some(v) ==> exists|outs: Seq<Result<Box<Node>, ReadError>>| #[trigger] level_outcome(
                config,
                outs,
                v,
            ),
    {
        if pairs_vec(&config.test_cases).len() < usize::MAX {
            Some(UserCreatedLevel::try_from(config))
        } else {
            None
        }
    }
}

impl Level {
    /// `try_from`, after checking that the test cases can be counted; `None`
    /// when they cannot.
    pub fn try_from_checked(value: ParsedUserLevelConfig) -> (r: Option<Result<Level, ValidationError>>)
        ensures
            (r is Some) == (pairs_in(value.test_cases).len() < usize::MAX),
            r matches Some(v) ==> exists|
                u: Result<UserCreatedLevel, ValidationError>,
                outs: Seq<Result<Box<Node>, ReadError>>,
            |
                #[trigger] level_outcome(value, outs, u) && match u {
                    Ok(l) => v matches Ok(Level::UserCreatedLevel(a)) && *a == l,
                    Err(e) => v == Err::<Level, ValidationError>(e),
                },
    {
        if pairs_vec(&value.test_cases).len() < usize::MAX {
            Some(Level::try_from(value))
        } else {
            None
        }
    }
}

/// A constant name is accepted exactly when each of its characters is an
/// upper case letter `A` to `Z` or an underscore.
pub proof fn constant_name_rule(name: Seq<char>)
    ensures
        upper_name(name) <==> forall|k: int|
            0 <= k < name.len() ==> (#[trigger] name[k] == '_' || ('A' <= name[k] && name[k] <= 'Z')),
{
}

/// A configuration that validates has only constant names made of `A` to
/// `Z` and underscores: one with a name holding any other character is
/// refused.
pub proof fn validated_constant_names_are_upper_case(
    c: UserLevelConfig,
    all: &AllConstants,
    outs: Seq<Result<Box<Node>, ReadError>>,
    r: Result<ParsedUserLevelConfig, ValidationError>,
    k: int,
    t: int,
)
    requires
        validate_outcome(c, all, outs, r),
        0 <= k < c.extra_constants.len(),
        0 <= t < c.extra_constants@[k].0@.len(),
        !(c.extra_constants@[k].0@[t] == '_' || ('A' <= c.extra_constants@[k].0@[t]
            && c.extra_constants@[k].0@[t] <= 'Z')),
    ensures
        r is Err,
{
    if r is Ok {
        let n = outs.len() - 1;
        if read_failed(c, outs, r) {
            if item_at(c, n).2 {
            } else {
                assert(outs.last() is Err);
            }
        } else {
            let base = 2 * pairs_in(c.test_cases).len() + strings_in(c.solutions).len()
                + c.wrong_solutions.len();
            let j = base + 2 * k;
            assert(item_at(c, j) == (c.extra_constants@[k].0@, Seq::<char>::empty(), true));
            assert(!failing(item_at(c, j), outs[j]));
            assert(upper_name(c.extra_constants@[k].0@));
            assert(c.extra_constants@[k].0@[t] == '_' || spec_is_ascii_uppercase(
                c.extra_constants@[k].0@[t],
            ));
        }
    }
}

/// What the validation screen does after a frame.
#[derive(Debug, Clone, Copy, PartialEq, Eq, Structural)]
pub enum ValidationAction {
    Stay,
    /// Play the level, on top of this screen.
    Play,
    /// Upload the level, on top of this screen.
    Upload,
    Back,
}

/// A frame of the validation screen, the level having passed validation
/// when `valid` and the workshop being at hand when `steam`: a valid level is
/// played with the button or ctrl+return, and uploaded, with the workshop,
/// with the button or ctrl+U; escape goes back.
pub fn validation_tick(
    valid: bool,
    steam: bool,
    play_clicked: bool,
    upload_clicked: bool,
    ctrl: bool,
    key: Option<Key>,
) -> (r: ValidationAction)
    ensures
        r == if valid && (play_clicked || (ctrl && key == Some(Key::Return))) {
            ValidationAction::Play
        } else if valid && steam && (upload_clicked || (ctrl && key == Some(Key::U))) {
            ValidationAction::Upload
        } else if key == Some(Key::Escape) {
            ValidationAction::Back
        } else {
            ValidationAction::Stay
        },
{
    if valid && (play_clicked || (ctrl && key == Some(Key::Return))) {
        ValidationAction::Play
    } else if valid && steam && (upload_clicked || (ctrl && key == Some(Key::U))) {
        ValidationAction::Upload
    } else if key == Some(Key::Escape) {
        ValidationAction::Back
    } else {
        ValidationAction::Stay
    }
}

} // verus!
