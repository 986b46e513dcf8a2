//! How terms are written back as text.
use vstd::prelude::*;

use super::parser::{Node, Variable};
use super::tokenizer::TVariable;
use crate::util::numbers::{decimal_digits, u64_to_decimal};
use crate::util::text::{push_char, push_str};

verus! {

/// How many times `c` occurs in `s`.
pub open spec fn count_of(s: Seq<char>, c: char) -> nat
    decreases s.len(),
{
    if s.len() == 0 {
        0
    } else {
        count_of(s.drop_last(), c) + if s.last() == c {
            1nat
        } else {
            0nat
        }
    }
}

/// `k` primes.
pub open spec fn primes(k: nat) -> Seq<char> {
    Seq::new(k, |i: int| '\'')
}

/// The name shown for the variable bound by the `i`-th enclosing function,
/// outermost first, of `binders`: its letter, with a prime for each function
/// further out that binds the same letter.
pub open spec fn bound_name(binders: Seq<char>, i: int) -> Seq<char> {
    seq![binders[i]] + primes(count_of(binders.take(i), binders[i]))
}

/// The letters of the variables of `n` that no function of `n` binds, while a
/// function around them (among `binders`, or inside `n`) binds that letter.
pub open spec fn shadowed_set(n: Node, binders: Seq<char>) -> Set<char>
    decreases n,
{
    match n {
        Node::Constant(_) => Set::empty(),
        Node::Variable(v) => if v.depth == binders.len() && binders.contains(v.original) {
            set![v.original]
        } else {
            Set::empty()
        },
        Node::Function { variable, body } => shadowed_set(*body, binders.push(variable)),
        Node::Apply { left, right } => shadowed_set(*left, binders).union(shadowed_set(*right, binders)),
    }
}

/// The text of variable `v` under the functions `binders`: the name of the
/// function binding it; a variable no function binds is shown by its letter,
/// after `_` if its letter is shadowed.
pub open spec fn variable_text(v: Variable, binders: Seq<char>, shadowed: Set<char>) -> Seq<char> {
    let cur = binders.len();
    if v.depth >= cur {
        if shadowed.contains(v.original) {
            seq!['_', v.original]
        } else {
            seq![v.original]
        }
    } else {
        bound_name(binders, cur - v.depth - 1)
    }
}

/// `s` inside parentheses if `par`.
pub open spec fn parens(s: Seq<char>, par: bool) -> Seq<char> {
    if par {
        seq!['('] + s + seq![')']
    } else {
        s
    }
}

/// The text of `n` under the functions `binders`. A function needs
/// parentheses unless it stands where another function's body or the whole
/// term stands (`func_prefix`), and then still where an application's right
/// side stands (`needs_par`); an application needs them on an application's
/// right side. Applications group to the left.
pub open spec fn display(
    n: Node,
    binders: Seq<char>,
    shadowed: Set<char>,
    func_prefix: bool,
    needs_par: bool,
) -> Seq<char>
    decreases n,
{
    match n {
        Node::Constant(c) => c@,
        Node::Variable(v) => variable_text(v, binders, shadowed),
        Node::Function { variable, body } => parens(
            seq![variable] + primes(count_of(binders, variable)) + ": "@ + display(
                *body,
                binders.push(variable),
                shadowed,
                true,
                false,
            ),
            !func_prefix || needs_par,
        ),
        Node::Apply { left, right } => parens(
            display(*left, binders, shadowed, false, false) + seq![' '] + display(
                *right,
                binders,
                shadowed,
                false,
                true,
            ),
            needs_par,
        ),
    }
}

/// The text of the term `n`.
pub open spec fn node_text(n: Node) -> Seq<char> {
    display(n, Seq::<char>::empty(), shadowed_set(n, Seq::<char>::empty()), true, false)
}

/// The raw form of `n`: variables with their depth, and every function and
/// application inside parentheses.
pub open spec fn debug_text(n: Node) -> Seq<char>
    decreases n,
{
    match n {
        Node::Constant(c) => c@,
        Node::Variable(v) => seq![v.original, '_'] + decimal_digits(v.depth as nat),
        Node::Function { variable, body } => seq!['(', variable, ':', ' '] + debug_text(*body)
            + seq![')'],
        Node::Apply { left, right } => seq!['('] + debug_text(*left) + seq![' '] + debug_text(*right)
            + seq![')'],
    }
}

proof fn lemma_count_grows(s: Seq<char>, c: char, a: int, b: int)
    requires
        0 <= a <= b <= s.len(),
    ensures
        count_of(s.take(a), c) <= count_of(s.take(b), c),
        a < b && s[a] == c ==> count_of(s.take(a), c) < count_of(s.take(b), c),
    decreases b - a,
{
    if a < b {
        lemma_count_grows(s, c, a, b - 1);
        assert(s.take(b).drop_last() =~= s.take(b - 1));
        if a == b - 1 {
            assert(s.take(b).last() == s[a]);
        }
    }
}

/// Different functions around a place are shown under different names, even
/// when they bind the same letter.
pub proof fn bound_names_distinct(binders: Seq<char>, i: int, j: int)
    requires
        0 <= i < j < binders.len(),
    ensures
        bound_name(binders, i) != bound_name(binders, j),
{
    if binders[i] == binders[j] {
        lemma_count_grows(binders, binders[i], i, j);
        assert(bound_name(binders, i).len() != bound_name(binders, j).len());
    } else {
        assert(bound_name(binders, i)[0] != bound_name(binders, j)[0]);
    }
}

/// A function's header shows the very name under which the variables it binds
/// are shown, wherever they stand in its body (inside the further functions
/// `more`): its letter with one prime for each function further out that
/// binds the same letter.
pub proof fn function_header_names_its_variables(
    variable: char,
    body: Box<Node>,
    binders: Seq<char>,
    more: Seq<char>,
    sh: Set<char>,
    func_prefix: bool,
    needs_par: bool,
)
    requires
        more.len() <= usize::MAX,
    ensures
        display(Node::Function { variable, body }, binders, sh, func_prefix, needs_par) == parens(
            variable_text(
                Variable { depth: more.len() as usize, original: variable },
                binders.push(variable) + more,
                sh,
            ) + ": "@ + display(*body, binders.push(variable), sh, true, false),
            !func_prefix || needs_par,
        ),
        variable_text(
            Variable { depth: more.len() as usize, original: variable },
            binders.push(variable) + more,
            sh,
        ) == seq![variable] + primes(count_of(binders, variable)),
{
    let all = binders.push(variable) + more;
    assert(all.take(binders.len() as int) =~= binders);
    assert(all[binders.len() as int] == variable);
}

/// What the text of a term is written with: the letters of the functions
/// around the current place, outermost first, and the shadowed letters.
struct Data {
    bound_vars: Vec<char>,
    shadowed_unbound: Vec<char>,
}

impl Data {
    fn new(shadowed: Vec<char>) -> (r: Data)
        ensures
            r.bound_vars@ == Seq::<char>::empty(),
            r.shadowed_unbound@ == shadowed@,
    {
        Data { bound_vars: Vec::new(), shadowed_unbound: shadowed }
    }

    /// The primes after the name of a function of letter `var` standing inside
    /// the first `upto` functions.
    fn get_suffix(&self, upto: usize, var: TVariable) -> (r: String)
        requires
            upto <= self.bound_vars.len(),
        ensures
            r@ == primes(count_of(self.bound_vars@.take(upto as int), var)),
    {
        let mut r = String::new();
        for i in 0..upto
            invariant
                upto <= self.bound_vars.len(),
                r@ == primes(count_of(self.bound_vars@.take(i as int), var)),
        {
            assert(self.bound_vars@.take(i + 1).drop_last() =~= self.bound_vars@.take(i as int));
            if self.bound_vars[i] == var {
                push_char(&mut r, '\'');
            }
            assert(r@ =~= primes(count_of(self.bound_vars@.take(i + 1), var)));
        }
        r
    }

    fn get_text(&self, var: Variable) -> (r: String)
        ensures
            r@ == variable_text(var, self.bound_vars@, self.shadowed_unbound@.to_set()),
    {
        let cur_depth = self.bound_vars.len();
        let mut r = String::new();
        if var.depth >= cur_depth {
            if contains_char(&self.shadowed_unbound, var.original) {
                // Shadowed unbound variables start with _ to tell them apart.
                push_char(&mut r, '_');
            }
            push_char(&mut r, var.original);
            assert(r@ =~= variable_text(var, self.bound_vars@, self.shadowed_unbound@.to_set()));
        } else {
            let idx = cur_depth - var.depth - 1;
            push_char(&mut r, self.bound_vars[idx]);
            let suffix = self.get_suffix(idx, self.bound_vars[idx]);
            push_str(&mut r, suffix.as_str());
            assert(r@ =~= bound_name(self.bound_vars@, idx as int));
        }
        r
    }
}

fn contains_char(v: &Vec<char>, c: char) -> (r: bool)
    ensures
        r == v@.contains(c),
{
    for i in 0..v.len()
        invariant
            forall|k: int| 0 <= k < i ==> v@[k] != c,
    {
        if v[i] == c {
            return true;
        }
    }
    false
}

fn rec_display(node: &Node, data: &mut Data, out: &mut String, func_prefix: bool, needs_assoc_par: bool)
    ensures
        final(data).bound_vars@ == old(data).bound_vars@,
        final(data).shadowed_unbound@ == old(data).shadowed_unbound@,
        final(out)@ == old(out)@ + display(
            *node,
            old(data).bound_vars@,
            old(data).shadowed_unbound@.to_set(),
            func_prefix,
            needs_assoc_par,
        ),
    decreases node,
{
    let ghost out0 = out@;
    let ghost binders = data.bound_vars@;
    let ghost sh = data.shadowed_unbound@.to_set();
    match node {
        Node::Constant(c) => push_str(out, c.as_str()),
        Node::Variable(v) => {
            let t = data.get_text(*v);
            push_str(out, t.as_str());
        },
        Node::Function { variable, body } => {
            let par = !func_prefix || needs_assoc_par;
            if par {
                push_char(out, '(');
            }
            let ghost o1 = out@;
            push_char(out, *variable);
            let suffix = data.get_suffix(data.bound_vars.len(), *variable);
            assert(data.bound_vars@.take(data.bound_vars@.len() as int) =~= data.bound_vars@);
            push_str(out, suffix.as_str());
            push_str(out, ": ");
            let ghost o2 = out@;
            data.bound_vars.push(*variable);
            rec_display(&**body, data, out, true, false);
            data.bound_vars.pop();
            assert(data.bound_vars@ =~= binders);
            if par {
                push_char(out, ')');
            }
            proof {
                reveal_strlit(": ");
                let inner = seq![*variable] + primes(count_of(binders, *variable)) + ": "@ + display(
                    **body,
                    binders.push(*variable),
                    sh,
                    true,
                    false,
                );
                assert(o2 =~= o1 + seq![*variable] + primes(count_of(binders, *variable)) + ": "@);
                assert(out@ =~= out0 + parens(inner, par));
            }
        },
        Node::Apply { left, right } => {
            if needs_assoc_par {
                push_char(out, '(');
            }
            let ghost o1 = out@;
            rec_display(&**left, data, out, false, false);
            push_char(out, ' ');
            rec_display(&**right, data, out, false, true);
            if needs_assoc_par {
                push_char(out, ')');
            }
            proof {
                let inner = display(**left, binders, sh, false, false) + seq![' '] + display(
                    **right,
                    binders,
                    sh,
                    false,
                    true,
                );
                assert(out@ =~= out0 + parens(inner, needs_assoc_par));
            }
        },
    }
}

/// Adds to `shadowed` the letters that `shadowed_set` gives for `node` under
/// the functions `binders`.
fn mark_shadowed_unbound_variables(node: &Node, binders: &mut Vec<char>, shadowed: &mut Vec<char>)
    ensures
        final(binders)@ == old(binders)@,
        final(shadowed)@.to_set() == old(shadowed)@.to_set().union(shadowed_set(*node, old(binders)@)),
    decreases node,
{
    let ghost b0 = binders@;
    let ghost s0 = shadowed@.to_set();
    match node {
        Node::Constant(_) => {
            assert(shadowed@.to_set() =~= s0.union(Set::<char>::empty()));
        },
        Node::Variable(v) => {
            if v.depth == binders.len() && contains_char(binders, v.original) {
                let ghost sq0 = shadowed@;
                shadowed.push(v.original);
                assert forall|x: char| #[trigger] shadowed@.contains(x) <==> sq0.contains(x) || x
                    == v.original by {
                    if sq0.contains(x) {
                        let k = choose|k: int| 0 <= k < sq0.len() && sq0[k] == x;
                        assert(shadowed@[k] == x);
                    }
                    if x == v.original {
                        assert(shadowed@[sq0.len() as int] == x);
                    }
                }
                assert(shadowed@.to_set() =~= s0.union(set![v.original]));
            } else {
                assert(shadowed@.to_set() =~= s0.union(Set::<char>::empty()));
            }
        },
        Node::Function { variable, body } => {
            binders.push(*variable);
            mark_shadowed_unbound_variables(&**body, binders, shadowed);
            binders.pop();
            assert(binders@ =~= b0);
        },
        Node::Apply { left, right } => {
            mark_shadowed_unbound_variables(&**left, binders, shadowed);
            mark_shadowed_unbound_variables(&**right, binders, shadowed);
            assert(shadowed@.to_set() =~= s0.union(shadowed_set(*node, b0)));
        },
    }
}

impl Node {
    /// The term as text: functions as `x: body`, applications side by side,
    /// with only the parentheses needed, and names that tell apart variables
    /// of the same letter.
    pub fn to_string(&self) -> (r: String)
        ensures
            r@ == node_text(*self),
    {
        let mut binders: Vec<char> = Vec::new();
        let mut shadowed: Vec<char> = Vec::new();
        mark_shadowed_unbound_variables(self, &mut binders, &mut shadowed);
        assert(shadowed@.to_set() =~= shadowed_set(*self, Seq::<char>::empty()));
        let mut data = Data::new(shadowed);
        let mut out = String::new();
        rec_display(self, &mut data, &mut out, true, false);
        assert(out@ =~= node_text(*self));
        out
    }

    /// The raw form of the term, as `debug_text` gives it.
    pub fn debug_string(&self) -> (r: String)
        ensures
            r@ == debug_text(*self),
        decreases self,
    {
        let mut r = String::new();
        match self {
            Node::Constant(c) => push_str(&mut r, c.as_str()),
            Node::Variable(v) => {
                push_char(&mut r, v.original);
                push_char(&mut r, '_');
                let d = u64_to_decimal(v.depth as u64);
                push_str(&mut r, d.as_str());
            },
            Node::Function { variable, body } => {
                push_char(&mut r, '(');
                push_char(&mut r, *variable);
                push_char(&mut r, ':');
                push_char(&mut r, ' ');
                let b = body.debug_string();
                push_str(&mut r, b.as_str());
                push_char(&mut r, ')');
            },
            Node::Apply { left, right } => {
                push_char(&mut r, '(');
                let l = left.debug_string();
                push_str(&mut r, l.as_str());
                push_char(&mut r, ' ');
                let rr = right.debug_string();
                push_str(&mut r, rr.as_str());
                push_char(&mut r, ')');
            },
        }
        assert(r@ =~= debug_text(*self));
        r
    }
}

} // verus!
