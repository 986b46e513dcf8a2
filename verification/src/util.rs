use vstd::prelude::*;

pub mod numbers;
pub mod nonempty;
pub mod text;
pub mod vec_with_cursor;

verus! {

} // verus!
