//! Terms of the lambda calculus and how they are read from tokens.
use vstd::prelude::*;

use super::tokenizer::{Constant, TVariable, Token};

verus! {

/// A variable inside a term.
///
/// `depth` says which function bound it: `0` is the innermost enclosing
/// function, `1` the one around it, and so on. A variable that no function of
/// the term binds has a depth equal to the number of functions around it.
/// Replacing values keeps this meaningful: on `(f: f f) (x: y: x y)` one may end
/// with `(y: y: y y)`, where each `y` still points to its own function.
#[derive(PartialEq, Eq, Structural, Hash, Clone, Copy, Debug)]
pub struct Variable {
    /// How many functions above the variable is the one that binds it.
    pub depth: usize,
    /// Name the variable was written with; several variables may share it.
    pub original: TVariable,
}

impl Variable {
    pub fn new(depth: usize, var: TVariable) -> (r: Self)
        ensures
            r.depth == depth,
            r.original == var,
    {
        Self { depth, original: var }
    }
}

#[derive(Debug)]
pub enum Node {
    Constant(Constant),
    Variable(Variable),
    Function {
        /// The name the function's argument was written with.
        variable: TVariable,
        body: Box<Node>,
    },
    Apply { left: Box<Node>, right: Box<Node> },
}

impl Node {
    /// A copy of this term.
    pub fn copy(&self) -> (r: Node)
        ensures
            r == *self,
        decreases self,
    {
        match self {
            Node::Constant(c) => Node::Constant(c.clone()),
            Node::Variable(v) => Node::Variable(*v),
            Node::Function { variable, body } => Node::Function {
                variable: *variable,
                body: Box::new((**body).copy()),
            },
            Node::Apply { left, right } => Node::Apply {
                left: Box::new((**left).copy()),
                right: Box::new((**right).copy()),
            },
        }
    }
}

impl Clone for Node {
    fn clone(&self) -> (r: Self)
        ensures
            r == *self,
    {
        self.copy()
    }
}

#[derive(Debug, PartialEq, Eq, Structural, Clone, Copy)]
pub enum ParseError {
    /// A function must be the first part of an expression.
    FunctionInsideBody,
    /// A `:` that does not follow a variable.
    ExtraColon,
    /// Some subexpression is empty.
    MissingExpression,
    /// A parenthesis is not closed.
    UnclosedParenthesis,
    /// A `)` that closes nothing.
    ExtraCloseParenthesis,
}

impl ParseError {
    /// The message shown for the error.
    pub fn message(&self) -> (r: &'static str)
        ensures
            r@ == match *self {
                ParseError::FunctionInsideBody => "Function must be first part of expression!"@,
                ParseError::ExtraColon => "Extra ':' in the input"@,
                ParseError::MissingExpression => "Some subexpression '()' is empty"@,
                ParseError::UnclosedParenthesis => "Parenthesis is unclosed"@,
                ParseError::ExtraCloseParenthesis => "Extra close parenthesis"@,
            },
    {
        match self {
            ParseError::FunctionInsideBody => "Function must be first part of expression!",
            ParseError::ExtraColon => "Extra ':' in the input",
            ParseError::MissingExpression => "Some subexpression '()' is empty",
            ParseError::UnclosedParenthesis => "Parenthesis is unclosed",
            ParseError::ExtraCloseParenthesis => "Extra close parenthesis",
        }
    }
}

/// Every variable of `n` has a depth of at most the number of functions around
/// it, when `n` itself stands inside `k` functions.
pub open spec fn well_formed(n: Node, k: nat) -> bool
    decreases n,
{
    match n {
        Node::Constant(_) => true,
        Node::Variable(v) => v.depth <= k,
        Node::Function { variable: _, body } => well_formed(*body, k + 1),
        Node::Apply { left, right } => well_formed(*left, k) && well_formed(*right, k),
    }
}

/// The depth given to a variable named `name` when the functions around it bind
/// the names `ctx`, outermost first: how many functions lie between it and the
/// innermost one binding `name`, or `ctx.len()` if none does.
pub open spec fn de_bruijn(ctx: Seq<char>, name: char) -> nat
    decreases ctx.len(),
{
    if ctx.len() == 0 {
        0
    } else if ctx.last() == name {
        0
    } else {
        1 + de_bruijn(ctx.drop_last(), name)
    }
}

/// An unfinished sequence of terms: the functions written at its start
/// (`a: b: ...`) and what follows them so far.
pub struct PLevel {
    pub prev: Option<Box<Node>>,
    pub funcs: Seq<char>,
}

/// `body` inside the functions `funcs`, the first of them outermost.
pub open spec fn wrap_functions(funcs: Seq<char>, body: Box<Node>) -> Box<Node>
    decreases funcs.len(),
{
    if funcs.len() == 0 {
        body
    } else {
        wrap_functions(
            funcs.drop_last(),
            Box::new(Node::Function { variable: funcs.last() as char, body }),
        )
    }
}

/// Adds `n` to the right of the level, applying what was there to it.
pub open spec fn merge_level(l: PLevel, n: Box<Node>) -> PLevel {
    PLevel {
        prev: Some(
            match l.prev {
                Some(p) => Box::new(Node::Apply { left: p, right: n }),
                None => n,
            },
        ),
        funcs: l.funcs,
    }
}

/// The single term a finished level stands for.
pub open spec fn close_level(l: PLevel) -> Result<Box<Node>, ParseError> {
    match l.prev {
        None => Err(ParseError::MissingExpression),
        Some(n) => Ok(wrap_functions(l.funcs, n)),
    }
}

pub open spec fn empty_level() -> PLevel {
    PLevel { prev: None, funcs: Seq::empty() }
}

/// Reading `toks` from position `i` on, with the open parentheses `levels`
/// (the outermost first) and the names `ctx` bound at this point.
pub open spec fn parse_from(toks: Seq<Token>, i: int, levels: Seq<PLevel>, ctx: Seq<char>) -> Result<
    Box<Node>,
    ParseError,
>
    decreases toks.len() - i,
{
    if i < 0 || levels.len() == 0 {
        Err(ParseError::MissingExpression)
    } else if i >= toks.len() {
        if levels.len() > 1 {
            Err(ParseError::UnclosedParenthesis)
        } else {
            close_level(levels[0])
        }
    } else {
        let k = levels.len() - 1;
        let last = levels[k];
        match toks[i] {
            Token::Variable(name) => {
                let name = name as char;
                if i + 1 < toks.len() && toks[i + 1] is Colon {
                    if last.prev is Some {
                        Err(ParseError::FunctionInsideBody)
                    } else {
                        parse_from(
                            toks,
                            i + 2,
                            levels.update(k, PLevel { prev: None, funcs: last.funcs.push(name) }),
                            ctx.push(name),
                        )
                    }
                } else {
                    let v = Variable { depth: de_bruijn(ctx, name) as usize, original: name };
                    parse_from(
                        toks,
                        i + 1,
                        levels.update(k, merge_level(last, Box::new(Node::Variable(v)))),
                        ctx,
                    )
                }
            },
            Token::Constant(c) => parse_from(
                toks,
                i + 1,
                levels.update(k, merge_level(last, Box::new(Node::Constant(c)))),
                ctx,
            ),
            Token::Colon => Err(ParseError::ExtraColon),
            Token::OpenPar => parse_from(toks, i + 1, levels.push(empty_level()), ctx),
            Token::ClosePar => {
                if levels.len() <= 1 {
                    Err(ParseError::ExtraCloseParenthesis)
                } else {
                    match close_level(last) {
                        Err(e) => Err(e),
                        Ok(n) => {
                            let rest = levels.drop_last();
                            parse_from(
                                toks,
                                i + 1,
                                rest.update(k - 1, merge_level(rest[k - 1], n)),
                                ctx.subrange(0, ctx.len() - last.funcs.len()),
                            )
                        },
                    }
                }
            },
        }
    }
}

/// The term that the tokens `toks` spell, or the first error met reading them
/// from left to right.
pub open spec fn spec_parse(toks: Seq<Token>) -> Result<Box<Node>, ParseError> {
    parse_from(toks, 0, seq![empty_level()], Seq::empty())
}

/// Number of names bound by the functions of all the levels.
pub open spec fn total_funcs(levels: Seq<PLevel>) -> nat
    decreases levels.len(),
{
    if levels.len() == 0 {
        0
    } else {
        total_funcs(levels.drop_last()) + levels.last().funcs.len()
    }
}

/// A level of the parser: the functions at its start and the term that follows
/// them so far.
struct Level {
    prev_node: Option<Box<Node>>,
    enveloping_functions: Vec<TVariable>,
}

impl View for Level {
    type V = PLevel;

    closed spec fn view(&self) -> PLevel {
        PLevel { prev: self.prev_node, funcs: self.enveloping_functions@ }
    }
}

spec fn levels_view(levels: Seq<Level>) -> Seq<PLevel> {
    levels.map_values(|l: Level| l@)
}

impl Level {
    fn new() -> (r: Self)
        ensures
            r@ == empty_level(),
    {
        Level { prev_node: None, enveloping_functions: Vec::new() }
    }

    /// Adds a new term to the right of this level, applying the previous one to
    /// it if there is one.
    fn merge(&mut self, node: Box<Node>)
        ensures
            final(self)@ == merge_level(old(self)@, node),
    {
        self.prev_node = match self.prev_node.take() {
            Some(prev) => Some(Box::new(Node::Apply { left: prev, right: node })),
            None => Some(node),
        };
    }

    /// Turns this level into a single term. Fails if it holds no term.
    fn close(self) -> (r: Result<Box<Node>, ParseError>)
        ensures
            r == close_level(self@),
    {
        let ghost start = self@;
        let mut node = match self.prev_node {
            Some(n) => n,
            None => {
                return Err(ParseError::MissingExpression);
            },
        };
        let mut funcs = self.enveloping_functions;
        while funcs.len() > 0
            invariant
                wrap_functions(start.funcs, start.prev.unwrap()) == wrap_functions(funcs@, node),
            decreases funcs.len(),
        {
            let ghost before = funcs@;
            let variable = funcs.pop().unwrap();
            assert(before.drop_last() =~= funcs@);
            node = Box::new(Node::Function { variable: variable as char, body: node });
        }
        assert(funcs@ =~= Seq::<char>::empty());
        Ok(node)
    }
}

/// The depth of a variable named `name` under the bound names `bindings`.
fn get_var(bindings: &Vec<TVariable>, name: TVariable) -> (d: usize)
    ensures
        d == de_bruijn(bindings@, name),
{
    let n = bindings.len();
    let mut j = n;
    assert(bindings@.take(n as int) =~= bindings@);
    while j > 0
        invariant
            j <= n == bindings.len(),
            de_bruijn(bindings@, name) == (n - j) + de_bruijn(bindings@.take(j as int), name),
        decreases j,
    {
        assert(bindings@.take(j as int).drop_last() =~= bindings@.take(j - 1));
        if bindings[j - 1] == name {
            return n - j;
        }
        j -= 1;
    }
    n
}

proof fn lemma_total_funcs_update(levels: Seq<PLevel>, k: int, p: PLevel)
    requires
        0 <= k < levels.len(),
        p.funcs == levels[k].funcs,
    ensures
        total_funcs(levels.update(k, p)) == total_funcs(levels),
    decreases levels.len(),
{
    let u = levels.update(k, p);
    if k < levels.len() - 1 {
        assert(u.drop_last() =~= levels.drop_last().update(k, p));
        lemma_total_funcs_update(levels.drop_last(), k, p);
    } else {
        assert(u.drop_last() =~= levels.drop_last());
    }
}

/// Reads the term that `tokens` spell.
pub fn parse(tokens: Vec<Token>) -> (r: Result<Box<Node>, ParseError>)
    ensures
        r == spec_parse(tokens@),
        r matches Ok(n) ==> well_formed(*n, 0),
{
    proof {
        parse_well_formed(tokens@);
    }
    let mut levels: Vec<Level> = Vec::new();
    levels.push(Level::new());
    let mut bindings: Vec<TVariable> = Vec::new();
    let n = tokens.len();
    let mut i: usize = 0;
    assert(levels_view(levels@) =~= seq![empty_level()]);
    assert(total_funcs(levels_view(levels@)) == 0) by {
        let lv = levels_view(levels@);
        assert(lv.drop_last() =~= Seq::<PLevel>::empty());
        assert(lv.last().funcs.len() == 0);
        assert(total_funcs(lv.drop_last()) == 0);
    }
    while i < n
        invariant
            n == tokens.len(),
            i <= n,
            levels.len() >= 1,
            bindings@.len() == total_funcs(levels_view(levels@)),
            spec_parse(tokens@) == parse_from(tokens@, i as int, levels_view(levels@), bindings@),
        decreases n - i,
    {
        let ghost lv = levels_view(levels@);
        let k = levels.len() - 1;
        match &tokens[i] {
            Token::Variable(name) => {
                let name = *name as char;
                let is_fn = i + 1 < n && match &tokens[i + 1] {
                    Token::Colon => true,
                    _ => false,
                };
                if is_fn {
                    if levels[k].prev_node.is_some() {
                        return Err(ParseError::FunctionInsideBody);
                    }
                    bindings.push(name);
                    let mut last = levels.pop().unwrap();
                    last.enveloping_functions.push(name);
                    levels.push(last);
                    i += 2;
                    proof {
                        assert(levels_view(levels@) =~= lv.update(
                            k as int,
                            PLevel { prev: None, funcs: lv[k as int].funcs.push(name) },
                        ));
                        assert(levels_view(levels@).drop_last() =~= lv.drop_last());
                    }
                } else {
                    let depth = get_var(&bindings, name);
                    let node = Box::new(Node::Variable(Variable { depth, original: name }));
                    let mut last = levels.pop().unwrap();
                    last.merge(node);
                    levels.push(last);
                    i += 1;
                    proof {
                        assert(levels_view(levels@) =~= lv.update(
                            k as int,
                            merge_level(lv[k as int], node),
                        ));
                        lemma_total_funcs_update(lv, k as int, merge_level(lv[k as int], node));
                    }
                }
            },
            Token::Constant(c) => {
                let node = Box::new(Node::Constant(c.clone()));
                let mut last = levels.pop().unwrap();
                last.merge(node);
                levels.push(last);
                i += 1;
                proof {
                    assert(levels_view(levels@) =~= lv.update(
                        k as int,
                        merge_level(lv[k as int], node),
                    ));
                    lemma_total_funcs_update(lv, k as int, merge_level(lv[k as int], node));
                }
            },
            Token::Colon => {
                return Err(ParseError::ExtraColon);
            },
            Token::OpenPar => {
                levels.push(Level::new());
                i += 1;
                proof {
                    assert(levels_view(levels@) =~= lv.push(empty_level()));
                    assert(levels_view(levels@).drop_last() =~= lv);
                }
            },
            Token::ClosePar => {
                if levels.len() <= 1 {
                    return Err(ParseError::ExtraCloseParenthesis);
                }
                let last = levels.pop().unwrap();
                let ghost lastv = last@;
                assert(levels_view(levels@) =~= lv.drop_last());
                let nf = last.enveloping_functions.len();
                let closed = last.close();
                match closed {
                    Err(e) => {
                        return Err(e);
                    },
                    Ok(node) => {
                        let ghost rest = lv.drop_last();
                        let mut prev = levels.pop().unwrap();
                        prev.merge(node);
                        levels.push(prev);
                        let ghost pre_b = bindings@;
                        let new_len = bindings.len() - nf;
                        bindings.truncate(new_len);
                        i += 1;
                        proof {
                            assert(levels_view(levels@) =~= rest.update(
                                k - 1,
                                merge_level(rest[k - 1], node),
                            ));
                            lemma_total_funcs_update(rest, k - 1, merge_level(rest[k - 1], node));
                            assert(bindings@ =~= pre_b.subrange(0, pre_b.len() - lastv.funcs.len()));
                        }
                    },
                }
            },
        }
    }
    if levels.len() > 1 {
        return Err(ParseError::UnclosedParenthesis);
    }
    let last = levels.pop().unwrap();
    last.close()
}

} // verus!

verus! {

/// Every level's term is well formed under the names bound up to that level.
pub open spec fn levels_well_formed(levels: Seq<PLevel>) -> bool {
    forall|j: int|
        0 <= j < levels.len() && (#[trigger] levels[j]).prev is Some ==> well_formed(
            *levels[j].prev.unwrap(),
            total_funcs(levels.take(j + 1)),
        )
}

proof fn lemma_de_bruijn_bound(ctx: Seq<char>, name: char)
    ensures
        de_bruijn(ctx, name) <= ctx.len(),
    decreases ctx.len(),
{
    if ctx.len() > 0 {
        lemma_de_bruijn_bound(ctx.drop_last(), name);
    }
}

proof fn lemma_wrap_well_formed(funcs: Seq<char>, body: Box<Node>, m: nat)
    requires
        well_formed(*body, m + funcs.len()),
    ensures
        well_formed(*wrap_functions(funcs, body), m),
    decreases funcs.len(),
{
    if funcs.len() > 0 {
        let f = Box::new(Node::Function { variable: funcs.last() as char, body });
        assert(well_formed(*f, m + funcs.drop_last().len()));
        lemma_wrap_well_formed(funcs.drop_last(), f, m);
    }
}

proof fn lemma_well_formed_mono(n: Node, k: nat, k2: nat)
    requires
        well_formed(n, k),
        k <= k2,
    ensures
        well_formed(n, k2),
    decreases n,
{
    match n {
        Node::Function { variable: _, body } => lemma_well_formed_mono(*body, k + 1, k2 + 1),
        Node::Apply { left, right } => {
            lemma_well_formed_mono(*left, k, k2);
            lemma_well_formed_mono(*right, k, k2);
        },
        _ => {},
    }
}

proof fn lemma_total_take_step(s: Seq<PLevel>, j: int)
    requires
        0 <= j < s.len(),
    ensures
        total_funcs(s.take(j + 1)) == total_funcs(s.take(j)) + s[j].funcs.len(),
{
    assert(s.take(j + 1).drop_last() =~= s.take(j));
}

proof fn lemma_total_full(s: Seq<PLevel>)
    ensures
        total_funcs(s.take(s.len() as int)) == total_funcs(s),
{
    assert(s.take(s.len() as int) =~= s);
}

proof fn lemma_merge_well_formed(l: PLevel, n: Box<Node>, d: nat)
    requires
        l.prev is Some ==> well_formed(*l.prev.unwrap(), d),
        well_formed(*n, d),
    ensures
        well_formed(*merge_level(l, n).prev.unwrap(), d),
{
}

/// Replacing the last level by one with the same functions and a well formed
/// term keeps all levels well formed.
proof fn lemma_update_last_well_formed(levels: Seq<PLevel>, p: PLevel)
    requires
        levels.len() >= 1,
        levels_well_formed(levels),
        p.funcs == levels.last().funcs,
        p.prev is Some ==> well_formed(*p.prev.unwrap(), total_funcs(levels)),
    ensures
        levels_well_formed(levels.update(levels.len() - 1, p)),
        total_funcs(levels.update(levels.len() - 1, p)) == total_funcs(levels),
{
    let k = levels.len() - 1;
    let u = levels.update(k, p);
    lemma_total_funcs_update(levels, k, p);
    assert forall|j: int| 0 <= j < u.len() && (#[trigger] u[j]).prev is Some implies well_formed(
        *u[j].prev.unwrap(),
        total_funcs(u.take(j + 1)),
    ) by {
        if j < k {
            assert(u.take(j + 1) =~= levels.take(j + 1));
        } else {
            lemma_total_full(u);
            assert(u.take(j + 1) =~= u);
        }
    }
}

proof fn lemma_parse_from_well_formed(toks: Seq<Token>, i: int, levels: Seq<PLevel>, ctx: Seq<char>)
    requires
        0 <= i,
        levels.len() >= 1,
        ctx.len() == total_funcs(levels),
        levels_well_formed(levels),
    ensures
        parse_from(toks, i, levels, ctx) matches Ok(n) ==> well_formed(*n, 0),
    decreases toks.len() - i,
{
    let k = levels.len() - 1;
    let last = levels[k];
    lemma_total_full(levels);
    lemma_total_take_step(levels, k);
    assert(levels.take(k) =~= levels.drop_last());
    if i >= toks.len() {
        if levels.len() == 1 {
            if let Some(p) = last.prev {
                assert(levels.take(0) =~= Seq::<PLevel>::empty());
                lemma_wrap_well_formed(last.funcs, p, 0);
            }
        }
    } else {
        match toks[i] {
            Token::Variable(name) => {
                let name = name as char;
                if i + 1 < toks.len() && toks[i + 1] is Colon {
                    if last.prev is None {
                        let p = PLevel { prev: None, funcs: last.funcs.push(name) };
                        let u = levels.update(k, p);
                        assert(u.drop_last() =~= levels.drop_last());
                        assert forall|j: int|
                            0 <= j < u.len() && (#[trigger] u[j]).prev is Some implies well_formed(
                            *u[j].prev.unwrap(),
                            total_funcs(u.take(j + 1)),
                        ) by {
                            assert(u.take(j + 1) =~= levels.take(j + 1));
                        }
                        lemma_parse_from_well_formed(toks, i + 2, u, ctx.push(name));
                    }
                } else {
                    let v = Variable { depth: de_bruijn(ctx, name) as usize, original: name };
                    lemma_de_bruijn_bound(ctx, name);
                    let p = merge_level(last, Box::new(Node::Variable(v)));
                    lemma_merge_well_formed(last, Box::new(Node::Variable(v)), total_funcs(levels));
                    lemma_update_last_well_formed(levels, p);
                    lemma_parse_from_well_formed(toks, i + 1, levels.update(k, p), ctx);
                }
            },
            Token::Constant(c) => {
                let p = merge_level(last, Box::new(Node::Constant(c)));
                lemma_merge_well_formed(last, Box::new(Node::Constant(c)), total_funcs(levels));
                lemma_update_last_well_formed(levels, p);
                lemma_parse_from_well_formed(toks, i + 1, levels.update(k, p), ctx);
            },
            Token::Colon => {},
            Token::OpenPar => {
                let u = levels.push(empty_level());
                assert(u.drop_last() =~= levels);
                assert forall|j: int|
                    0 <= j < u.len() && (#[trigger] u[j]).prev is Some implies well_formed(
                    *u[j].prev.unwrap(),
                    total_funcs(u.take(j + 1)),
                ) by {
                    assert(u.take(j + 1) =~= levels.take(j + 1));
                }
                lemma_parse_from_well_formed(toks, i + 1, u, ctx);
            },
            Token::ClosePar => {
                if levels.len() > 1 {
                    if let Some(p) = last.prev {
                        let n = wrap_functions(last.funcs, p);
                        let rest = levels.drop_last();
                        lemma_wrap_well_formed(last.funcs, p, total_funcs(rest));
                        assert forall|j: int|
                            0 <= j < rest.len() && (#[trigger] rest[j]).prev is Some implies well_formed(
                            *rest[j].prev.unwrap(),
                            total_funcs(rest.take(j + 1)),
                        ) by {
                            assert(rest.take(j + 1) =~= levels.take(j + 1));
                            assert(levels[j] == rest[j]);
                        }
                        lemma_total_full(rest);
                        lemma_total_take_step(rest, k - 1);
                        assert(rest.take(k) =~= rest);
                        assert(rest[k - 1].prev is Some ==> well_formed(
                            *rest[k - 1].prev.unwrap(),
                            total_funcs(rest),
                        ));
                        let q = merge_level(rest[k - 1], n);
                        lemma_merge_well_formed(rest[k - 1], n, total_funcs(rest));
                        lemma_update_last_well_formed(rest, q);
                        lemma_parse_from_well_formed(
                            toks,
                            i + 1,
                            rest.update(k - 1, q),
                            ctx.subrange(0, ctx.len() - last.funcs.len()),
                        );
                    }
                }
            },
        }
    }
}

/// Whatever `parse` returns is well formed: every variable's depth is at most
/// the number of functions around it.
pub proof fn parse_well_formed(toks: Seq<Token>)
    ensures
        spec_parse(toks) matches Ok(n) ==> well_formed(*n, 0),
{
    let levels = seq![empty_level()];
    assert(levels.drop_last() =~= Seq::<PLevel>::empty());
    assert(levels.last().funcs.len() == 0);
    assert(total_funcs(levels.drop_last()) == 0);
    assert(total_funcs(levels) == 0);
    lemma_parse_from_well_formed(toks, 0, levels, Seq::empty());
}

} // verus!

verus! {

/// Two terms are the same up to the names of bound variables, when both stand
/// inside `cur` functions: variables are equal when they point to the same
/// function, and variables that no function binds must also share their name.
pub open spec fn syn_eq(a: Node, b: Node, cur: int) -> bool
    decreases a,
{
    match a {
        Node::Constant(c1) => match b {
            Node::Constant(c2) => c1@ == c2@,
            _ => false,
        },
        Node::Variable(v1) => match b {
            Node::Variable(v2) => v1.depth == v2.depth && (v1.depth < cur || v1.original
                == v2.original),
            _ => false,
        },
        Node::Function { variable: _, body } => match b {
            Node::Function { variable: _, body: body2 } => syn_eq(*body, *body2, cur + 1),
            _ => false,
        },
        Node::Apply { left, right } => match b {
            Node::Apply { left: left2, right: right2 } => syn_eq(*left, *left2, cur) && syn_eq(
                *right,
                *right2,
                cur,
            ),
            _ => false,
        },
    }
}

impl Node {
    /// Compares the terms as `syn_eq` does at depth `cur`; `cur_depth` holds
    /// `cur` unless `beyond` says that `cur` exceeds `usize::MAX`.
    fn synthatic_eq(&self, other: &Node, cur_depth: usize, beyond: bool, Ghost(cur): Ghost<int>) -> (r:
        bool)
        requires
            beyond ==> cur > usize::MAX,
            !beyond ==> cur == cur_depth,
        ensures
            r == syn_eq(*self, *other, cur),
        decreases self,
    {
        match self {
            Node::Constant(c1) => match other {
                Node::Constant(c2) => c1.eq(c2),
                _ => false,
            },
            Node::Variable(v1) => match other {
                Node::Variable(v2) => v1.depth == v2.depth && (beyond || v1.depth < cur_depth
                    || v1.original == v2.original),
                _ => false,
            },
            Node::Function { variable: _, body } => match other {
                Node::Function { variable: _, body: body2 } => {
                    if beyond || cur_depth == usize::MAX {
                        (**body).synthatic_eq(&**body2, cur_depth, true, Ghost(cur + 1))
                    } else {
                        (**body).synthatic_eq(&**body2, cur_depth + 1, false, Ghost(cur + 1))
                    }
                },
                _ => false,
            },
            Node::Apply { left, right } => match other {
                Node::Apply { left: left2, right: right2 } => (**left).synthatic_eq(
                    &**left2,
                    cur_depth,
                    beyond,
                    Ghost(cur),
                ) && (**right).synthatic_eq(&**right2, cur_depth, beyond, Ghost(cur)),
                _ => false,
            },
        }
    }
}

impl PartialEq for Node {
    fn eq(&self, other: &Node) -> (r: bool) {
        self.synthatic_eq(other, 0, false, Ghost(0))
    }
}

impl vstd::std_specs::cmp::PartialEqSpecImpl for Node {
    open spec fn obeys_eq_spec() -> bool {
        true
    }

    open spec fn eq_spec(&self, other: &Node) -> bool {
        syn_eq(*self, *other, 0)
    }
}

impl Eq for Node {
}

/// Every term equals itself.
pub proof fn node_eq_reflexive(a: Node, cur: int)
    ensures
        syn_eq(a, a, cur),
    decreases a,
{
    match a {
        Node::Function { variable: _, body } => node_eq_reflexive(*body, cur + 1),
        Node::Apply { left, right } => {
            node_eq_reflexive(*left, cur);
            node_eq_reflexive(*right, cur);
        },
        _ => {},
    }
}

/// Equality of terms does not depend on the order of the two terms.
pub proof fn node_eq_symmetric(a: Node, b: Node, cur: int)
    requires
        syn_eq(a, b, cur),
    ensures
        syn_eq(b, a, cur),
    decreases a,
{
    match (a, b) {
        (Node::Function { variable: _, body }, Node::Function { variable: _, body: body2 }) => {
            node_eq_symmetric(*body, *body2, cur + 1);
        },
        (Node::Apply { left, right }, Node::Apply { left: left2, right: right2 }) => {
            node_eq_symmetric(*left, *left2, cur);
            node_eq_symmetric(*right, *right2, cur);
        },
        _ => {},
    }
}

/// Two terms equal to a third are equal to each other.
pub proof fn node_eq_transitive(a: Node, b: Node, c: Node, cur: int)
    requires
        syn_eq(a, b, cur),
        syn_eq(b, c, cur),
    ensures
        syn_eq(a, c, cur),
    decreases a,
{
    match (a, b, c) {
        (
            Node::Function { variable: _, body },
            Node::Function { variable: _, body: body2 },
            Node::Function { variable: _, body: body3 },
        ) => {
            node_eq_transitive(*body, *body2, *body3, cur + 1);
        },
        (
            Node::Apply { left, right },
            Node::Apply { left: left2, right: right2 },
            Node::Apply { left: left3, right: right3 },
        ) => {
            node_eq_transitive(*left, *left2, *left3, cur);
            node_eq_transitive(*right, *right2, *right3, cur);
        },
        _ => {},
    }
}

/// `n`, standing inside `cur` functions, with every function's argument and
/// every variable bound inside `n` or around it named `name`.
pub open spec fn rename_bound(n: Node, cur: int, name: TVariable) -> Node
    decreases n,
{
    match n {
        Node::Constant(_) => n,
        Node::Variable(v) => if v.depth < cur {
            Node::Variable(Variable { depth: v.depth, original: name })
        } else {
            n
        },
        Node::Function { variable: _, body } => Node::Function {
            variable: name,
            body: Box::new(rename_bound(*body, cur + 1, name)),
        },
        Node::Apply { left, right } => Node::Apply {
            left: Box::new(rename_bound(*left, cur, name)),
            right: Box::new(rename_bound(*right, cur, name)),
        },
    }
}

proof fn lemma_rename_eq(a: Node, cur: int, name: TVariable)
    ensures
        syn_eq(a, rename_bound(a, cur, name), cur),
    decreases a,
{
    match a {
        Node::Function { variable: _, body } => lemma_rename_eq(*body, cur + 1, name),
        Node::Apply { left, right } => {
            lemma_rename_eq(*left, cur, name);
            lemma_rename_eq(*right, cur, name);
        },
        _ => {},
    }
}

/// Equality of terms does not depend on the names of functions' arguments,
/// nor on the names that bound variables were written with: renaming them
/// all leaves every comparison as it was.
pub proof fn node_eq_ignores_names(a: Node, b: Node, cur: int, name: TVariable)
    ensures
        syn_eq(rename_bound(a, cur, name), b, cur) == syn_eq(a, b, cur),
        syn_eq(b, rename_bound(a, cur, name), cur) == syn_eq(b, a, cur),
{
    let r = rename_bound(a, cur, name);
    lemma_rename_eq(a, cur, name);
    node_eq_symmetric(a, r, cur);
    if syn_eq(a, b, cur) {
        node_eq_transitive(r, a, b, cur);
    }
    if syn_eq(r, b, cur) {
        node_eq_transitive(a, r, b, cur);
    }
    if syn_eq(b, a, cur) {
        node_eq_transitive(b, a, r, cur);
    }
    if syn_eq(b, r, cur) {
        node_eq_transitive(b, r, a, cur);
    }
}

} // verus!
