//! Carlae: a small Python-like language. The library holds the error type,
//! the tokens, the scanner, the syntax tree with its parser and printer, and
//! the variable environment, each with its contract.
use vstd::prelude::*;

pub mod error;
pub mod text;
pub mod token;
pub mod scan_spec;
pub mod scanner;
pub mod scan_laws;
pub mod expr;
pub mod stmt;
pub mod parse_spec;
pub mod parser;
pub mod environment;
pub mod eval;
pub mod exec;
pub mod evaluation;

verus! {

} // verus!
