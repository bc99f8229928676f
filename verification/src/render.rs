//! The explanation renderer: maps the parsed segments into a human-readable
//! phrase list, innermost first, with lambda ordinal positions.

use vstd::prelude::*;

verus! {

use crate::location::{LocationKind, wf_segments};
use crate::parser::{
    class_of, is_lambda_token, lambda_id_of, lambda_name_of, method_token_of, package_of,
    parse_ok,
};
use crate::text::{dec_str, u32_to_string};

/// The ordinal rendering of `n`: `1st`, `2nd`, `3rd`, and `{n}th` for every
/// other value — deliberately without special teen handling.
pub open spec fn spec_ordinal(n: u32) -> Seq<char> {
    if n == 1 {
        "1st"@
    } else if n == 2 {
        "2nd"@
    } else if n == 3 {
        "3rd"@
    } else {
        dec_str(n as nat) + "th"@
    }
}

pub open spec fn phrase_package(name: Seq<char>) -> Seq<char> {
    "in package "@ + name
}

pub open spec fn phrase_class(name: Seq<char>) -> Seq<char> {
    "part of class "@ + name
}

pub open spec fn phrase_method(name: Seq<char>) -> Seq<char> {
    "inside method "@ + name
}

pub open spec fn phrase_lambda(name: Seq<char>, id: u32) -> Seq<char> {
    "The "@ + spec_ordinal(id) + " lambda created inside method "@ + name
}

/// The phrase for one segment, by its kind.
pub open spec fn render_loc(l: LocationKind) -> Seq<char> {
    match l {
        LocationKind::Package { name } => phrase_package(name@),
        LocationKind::Class { name } => phrase_class(name@),
        LocationKind::Method { name } => phrase_method(name@),
        LocationKind::Lambda { name, id } => phrase_lambda(name@, id),
    }
}

/// The full explanation of a frame text: the segment phrases innermost
/// first, joined with `, `; the fixed fallback on a parse failure.
pub open spec fn spec_explain(s: Seq<char>) -> Seq<char> {
    if parse_ok(s) {
        let tok = method_token_of(s);
        let member = if is_lambda_token(tok) {
            phrase_lambda(lambda_name_of(tok), lambda_id_of(tok))
        } else {
            phrase_method(tok)
        };
        member + ", "@ + phrase_class(class_of(s)) + ", "@ + phrase_package(package_of(s))
    } else {
        "Invalid input"@
    }
}

/// Renders the ordinal position of a lambda.
pub fn ordinal(n: u32) -> (r: String)
    ensures
        r@ == spec_ordinal(n),
{
    if n == 1 {
        String::from_str("1st")
    } else if n == 2 {
        String::from_str("2nd")
    } else if n == 3 {
        String::from_str("3rd")
    } else {
        u32_to_string(n).concat("th")
    }
}

/// Renders the phrase for one segment.
pub fn explain_location(location: &LocationKind) -> (r: String)
    ensures
        r@ == render_loc(*location),
{
    match location {
        LocationKind::Package { name } => String::from_str("in package ").concat(name.as_str()),
        LocationKind::Class { name } => String::from_str("part of class ").concat(name.as_str()),
        LocationKind::Method { name } => String::from_str("inside method ").concat(name.as_str()),
        LocationKind::Lambda { name, id } => {
            let ord = ordinal(*id);
            String::from_str("The ").concat(ord.as_str()).concat(
                " lambda created inside method ",
            ).concat(name.as_str())
        },
    }
}

/// Renders a well-formed segment sequence innermost first, joined with `, `.
pub fn render(segments: &Vec<LocationKind>) -> (r: String)
    requires
        wf_segments(segments@),
    ensures
        r@ == render_loc(segments@[2]) + ", "@ + render_loc(segments@[1]) + ", "@ + render_loc(
            segments@[0],
        ),
{
    let mut out = explain_location(&segments[2]);
    out = out.concat(", ");
    let middle = explain_location(&segments[1]);
    out = out.concat(middle.as_str());
    out = out.concat(", ");
    let outer = explain_location(&segments[0]);
    out = out.concat(outer.as_str());
    out
}

} // verus!
