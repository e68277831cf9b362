//! Render a byte sequence as a hexadecimal array literal in one of several
//! source-code syntaxes.
use vstd::prelude::*;

pub mod config;
pub mod formatting;

verus! {

} // verus!
