//! An interpreter for a small dice-notation expression language.

pub mod ast;
pub mod builtin;
pub mod environment;
pub mod eval;
pub mod grammar;
pub mod laws;
pub mod lexer;
pub mod object;
pub mod parser;
pub mod semantics;
pub mod token;

use vstd::prelude::*;

verus! {

/// The integer type of the language's values and literals.
pub type IntegerType = i128;

} // verus!
