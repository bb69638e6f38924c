//! The lexical front end of a compiler: a scanner that turns source text into
//! positioned tokens, recording diagnostics without ever stopping, and the
//! syntax-tree vocabulary that a parser of those tokens builds.
//!
//! `model` states, as spec functions over the text, what one call of the
//! scanner reads; `scanner` is proved to do exactly that; `laws` proves what
//! holds of every scan.
use vstd::prelude::*;

pub mod position;
pub mod utility;
mod text;
pub mod token;
pub mod error;
pub mod compiler;
pub mod model;
pub mod scanner;
pub mod laws;
pub mod ast;

verus! {

} // verus!
