//! A scanner for a C-like language: each call recognises the next token of
//! its input and says how many bytes it takes.
use vstd::prelude::*;

pub mod laws;
pub mod machine;
pub mod scanner;
pub mod token;

pub use scanner::lex;
pub use token::{FloatBase, IntegerBase, Token};

verus! {

} // verus!
