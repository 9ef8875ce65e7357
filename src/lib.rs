//! Quasiquotation substitution: splices the values of unquoted expressions
//! into quoted token templates, resolving nested quotes and escapes.
use vstd::prelude::*;

pub mod token;
pub mod unquote;
pub mod canned;
pub mod laws;

verus! {

} // verus!
