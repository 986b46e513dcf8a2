//! Walks over terms.
use vstd::prelude::*;

use super::parser::Node;
use super::tokenizer::Constant;

verus! {

/// The constants of `n`, left to right.
pub open spec fn constants_of(n: Node) -> Seq<Seq<char>>
    decreases n,
{
    match n {
        Node::Constant(c) => seq![c@],
        Node::Variable(_) => Seq::<Seq<char>>::empty(),
        Node::Function { variable: _, body } => constants_of(*body),
        Node::Apply { left, right } => constants_of(*left) + constants_of(*right),
    }
}

fn all_constants_rec(root: &Node, vec: &mut Vec<Constant>)
    ensures
        final(vec)@.map_values(|c: Constant| c@) == old(vec)@.map_values(|c: Constant| c@)
            + constants_of(*root),
    decreases root,
{
    let ghost v0 = vec@.map_values(|c: Constant| c@);
    match root {
        Node::Constant(c) => {
            let ghost before = vec@;
            vec.push(c.clone());
            assert(vec@.map_values(|c: Constant| c@) =~= before.map_values(|c: Constant| c@).push(
                c@,
            ));
            assert(v0 + constants_of(*root) =~= v0.push(c@));
        },
        Node::Variable(_) => {
            assert(v0 + constants_of(*root) =~= v0);
        },
        Node::Function { variable: _, body } => all_constants_rec(&**body, vec),
        Node::Apply { left, right } => {
            all_constants_rec(&**left, vec);
            all_constants_rec(&**right, vec);
            assert(v0 + constants_of(*root) =~= v0 + constants_of(**left) + constants_of(**right));
        },
    }
}

/// The constants that `root` uses, left to right, each as often as it occurs.
pub fn all_constants(root: &Node) -> (r: Vec<Constant>)
    ensures
        r@.map_values(|c: Constant| c@) == constants_of(*root),
{
    let mut v: Vec<Constant> = Vec::new();
    assert(v@.map_values(|c: Constant| c@) =~= Seq::<Seq<char>>::empty());
    all_constants_rec(root, &mut v);
    assert(Seq::<Seq<char>>::empty() + constants_of(*root) =~= constants_of(*root));
    v
}

/// The constant `c` stands somewhere in `n`: as `n` itself, inside a
/// function's body, or on either side of an application.
pub open spec fn occurs(c: Seq<char>, n: Node) -> bool
    decreases n,
{
    match n {
        Node::Constant(d) => d@ == c,
        Node::Variable(_) => false,
        Node::Function { variable: _, body } => occurs(c, *body),
        Node::Apply { left, right } => occurs(c, *left) || occurs(c, *right),
    }
}

/// The constants listed for a term are exactly those that stand anywhere in
/// it, function bodies included.
pub proof fn constants_of_are_occurrences(c: Seq<char>, n: Node)
    ensures
        constants_of(n).contains(c) <==> occurs(c, n),
    decreases n,
{
    match n {
        Node::Constant(d) => {
            assert(constants_of(n) =~= seq![d@]);
            if constants_of(n).contains(c) {
                assert(constants_of(n)[0] == d@);
            }
            if occurs(c, n) {
                assert(constants_of(n)[0] == c);
            }
        },
        Node::Variable(_) => {},
        Node::Function { variable: _, body } => constants_of_are_occurrences(c, *body),
        Node::Apply { left, right } => {
            constants_of_are_occurrences(c, *left);
            constants_of_are_occurrences(c, *right);
            let a = constants_of(*left);
            let b = constants_of(*right);
            if (a + b).contains(c) {
                let k = choose|k: int| 0 <= k < (a + b).len() && (a + b)[k] == c;
                if k < a.len() {
                    assert(a[k] == c);
                } else {
                    assert(b[k - a.len()] == c);
                }
            }
            if a.contains(c) {
                let k = choose|k: int| 0 <= k < a.len() && a[k] == c;
                assert((a + b)[k] == c);
            }
            if b.contains(c) {
                let k = choose|k: int| 0 <= k < b.len() && b[k] == c;
                assert((a + b)[a.len() + k] == c);
            }
        },
    }
}

} // verus!
