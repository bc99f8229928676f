//! The typed segments of a resolved stack trace frame, and the parse error.

use vstd::prelude::*;

verus! {

/// One segment of a resolved frame: the package, the class, and the method
/// or compiler-synthesized lambda where the frame occurred.
#[derive(Debug, PartialEq)]
pub enum LocationKind {
    Package { name: String },
    Class { name: String },
    Method { name: String },
    /// `name` is the enclosing method's identifier; `id` is the lambda's
    /// synthesis index within that method.
    Lambda { name: String, id: u32 },
}

/// The single recoverable failure: frame text that does not match the
/// expected `pkg.Class.method(File:line)` shape.
#[derive(Debug, PartialEq)]
pub enum ParseError {
    InvalidInput,
}

/// A well-formed parse result: exactly one package, then one class, then one
/// method or lambda.
pub open spec fn wf_segments(v: Seq<LocationKind>) -> bool {
    &&& v.len() == 3
    &&& v[0] is Package
    &&& v[1] is Class
    &&& (v[2] is Method || v[2] is Lambda)
}

} // verus!
