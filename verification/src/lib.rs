//! Explains one line of a stack trace frame, such as
//! `pkg.sub.Class.method(File.java:123)`, as a human-readable phrase
//! describing the package, the class, and the method or lambda where the
//! frame occurred.

use vstd::prelude::*;

pub mod laws;
pub mod location;
pub mod parser;
pub mod render;
pub mod text;

verus! {

use crate::parser::parse;
use crate::render::{render, spec_explain};

/// A segment of text holds a character exactly when some index carries it.
pub open spec fn contains_char(s: Seq<char>, c: char) -> bool {
    exists|i: int| 0 <= i < s.len() && s[i] == c
}

/// Explains one raw frame line: parses it and renders the segments innermost
/// first, or yields the fixed fallback text on any malformed input.
pub fn explain(input: &str) -> (r: String)
    ensures
        r@ == spec_explain(input@),
{
    match parse(input) {
        Ok(parsed) => render(&parsed),
        Err(_) => String::from_str("Invalid input"),
    }
}

} // verus!
