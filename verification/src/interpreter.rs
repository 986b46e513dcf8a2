use vstd::prelude::*;

pub mod chars;
pub mod constants;
pub mod interpreter;
pub mod node_display;
pub mod parser;
pub mod tokenizer;
pub mod traversers;


verus! {

} // verus!
