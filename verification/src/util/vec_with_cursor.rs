//! A non-empty list with a cursor on one of its elements.
use vstd::prelude::*;

verus! {

/// A non-empty list with a cursor on one of its elements; moving the cursor
/// past either end wraps around to the other.
pub struct VecWithCursor<T> {
    vec: Vec<T>,
    cursor: usize,
}

impl<T> VecWithCursor<T> {
    #[verifier::type_invariant]
    spec fn inv(self) -> bool {
        self.cursor < self.vec.len()
    }

    pub closed spec fn items(self) -> Seq<T> {
        self.vec@
    }

    pub closed spec fn position(self) -> nat {
        self.cursor as nat
    }

    /// The list `vec`, which must not be empty, with the cursor on its first element.
    pub fn from(vec: Vec<T>) -> (r: Self)
        requires
            vec.len() > 0,
        ensures
            r.items() == vec@,
            r.position() == 0,
    {
        VecWithCursor { vec, cursor: 0 }
    }

    pub fn inner(&self) -> (r: &Vec<T>)
        ensures
            r@ == self.items(),
    {
        &self.vec
    }

    /// The element under the cursor.
    pub fn get(&self) -> (r: &T)
        ensures
            self.position() < self.items().len(),
            *r == self.items()[self.position() as int],
    {
        proof {
            use_type_invariant(self);
        }
        &self.vec[self.cursor]
    }

    pub fn cursor(&self) -> (r: usize)
        ensures
            r == self.position(),
            r < self.items().len(),
    {
        proof {
            use_type_invariant(self);
        }
        self.cursor
    }

    /// Moves to the next element; from the last, to the first.
    pub fn cursor_increment(&mut self)
        ensures
            final(self).items() == old(self).items(),
            final(self).position() == (old(self).position() as int + 1) % (old(self).items().len() as int),
    {
        proof {
            use_type_invariant(&*self);
        }
        self.cursor = (self.cursor + 1) % self.vec.len();
    }

    /// Moves to the previous element; from the first, to the last.
    pub fn cursor_decrement(&mut self)
        ensures
            final(self).items() == old(self).items(),
            final(self).position() == (old(self).position() as int + old(self).items().len() - 1) % (
            old(self).items().len() as int),
    {
        proof {
            use_type_invariant(&*self);
        }
        let len = self.vec.len();
        proof {
            let c = self.cursor as int;
            if c == 0 {
                vstd::arithmetic::div_mod::lemma_small_mod((len - 1) as nat, len as nat);
            } else {
                vstd::arithmetic::div_mod::lemma_mod_add_multiples_vanish(c - 1, len as int);
                vstd::arithmetic::div_mod::lemma_small_mod((c - 1) as nat, len as nat);
            }
        }
        self.cursor = if self.cursor == 0 {
            len - 1
        } else {
            self.cursor - 1
        };
    }
}

/// Moving the cursor forward and then back leaves it where it was, on a list
/// of `len` elements.
pub proof fn decrement_undoes_increment(pos: int, len: int)
    requires
        0 <= pos < len,
    ensures
        (((pos + 1) % len) + len - 1) % len == pos,
{
    if pos + 1 == len {
        vstd::arithmetic::div_mod::lemma_mod_self_0(len);
        vstd::arithmetic::div_mod::lemma_small_mod((len - 1) as nat, len as nat);
    } else {
        vstd::arithmetic::div_mod::lemma_small_mod((pos + 1) as nat, len as nat);
        vstd::arithmetic::div_mod::lemma_mod_add_multiples_vanish(pos, len);
        vstd::arithmetic::div_mod::lemma_small_mod(pos as nat, len as nat);
    }
}

/// Moving the cursor back and then forward leaves it where it was.
pub proof fn increment_undoes_decrement(pos: int, len: int)
    requires
        0 <= pos < len,
    ensures
        (((pos + len - 1) % len) + 1) % len == pos,
{
    if pos == 0 {
        vstd::arithmetic::div_mod::lemma_small_mod((len - 1) as nat, len as nat);
        vstd::arithmetic::div_mod::lemma_mod_self_0(len);
    } else {
        vstd::arithmetic::div_mod::lemma_mod_add_multiples_vanish(pos - 1, len);
        vstd::arithmetic::div_mod::lemma_small_mod((pos - 1) as nat, len as nat);
        vstd::arithmetic::div_mod::lemma_small_mod(pos as nat, len as nat);
    }
}

} // verus!
