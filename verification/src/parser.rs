//! The frame parser: splits one raw frame string into its ordered typed
//! segments, or fails with a classified parse error.

use vstd::prelude::*;

verus! {

use crate::contains_char;
use crate::location::{LocationKind, ParseError, wf_segments};
use crate::text::{
    all_digits, digits_val, find_char, first_index, last_index, lemma_first_index,
    lemma_last_index, parse_u32, rfind_char,
};

/// The qualified path of the frame: everything before the last `(`.
pub open spec fn path_of(s: Seq<char>) -> Seq<char>
    recommends
        last_index(s, '(') >= 0,
{
    s.subrange(0, last_index(s, '('))
}

/// Index within the path of the dot separating the method token from the
/// class-qualified prefix.
pub open spec fn method_dot(s: Seq<char>) -> int {
    last_index(path_of(s), '.')
}

/// Index within the path of the dot separating the class name from the
/// package name.
pub open spec fn class_dot(s: Seq<char>) -> int {
    last_index(path_of(s).subrange(0, method_dot(s)), '.')
}

/// The package name: the whole prefix before the class dot, dots included.
pub open spec fn package_of(s: Seq<char>) -> Seq<char> {
    path_of(s).subrange(0, class_dot(s))
}

/// The simple class name, between the two last dots of the path.
pub open spec fn class_of(s: Seq<char>) -> Seq<char> {
    path_of(s).subrange(class_dot(s) + 1, method_dot(s))
}

/// The method token: everything in the path after its last dot.
pub open spec fn method_token_of(s: Seq<char>) -> Seq<char> {
    path_of(s).subrange(method_dot(s) + 1, path_of(s).len() as int)
}

/// The token encodes a synthesized lambda: it starts with `lambda$`.
pub open spec fn is_lambda_token(t: Seq<char>) -> bool {
    t.len() >= 7 && t.subrange(0, 7) == "lambda$"@
}

/// The enclosing method's name: strictly between the first and the last `$`
/// of the token, empty when the two coincide.
pub open spec fn lambda_name_of(t: Seq<char>) -> Seq<char> {
    let f = first_index(t, '$');
    let l = last_index(t, '$');
    if f + 1 <= l {
        t.subrange(f + 1, l)
    } else {
        Seq::empty()
    }
}

/// The lambda's id numeral: everything after the last `$` of the token.
pub open spec fn lambda_id_str_of(t: Seq<char>) -> Seq<char> {
    t.subrange(last_index(t, '$') + 1, t.len() as int)
}

/// The id numeral names a non-negative integer that fits in `u32`.
pub open spec fn lambda_id_ok(t: Seq<char>) -> bool {
    let d = lambda_id_str_of(t);
    d.len() > 0 && all_digits(d) && digits_val(d) <= u32::MAX
}

pub open spec fn lambda_id_of(t: Seq<char>) -> u32 {
    digits_val(lambda_id_str_of(t)) as u32
}

/// The frame text parses: it has a `(`, two dots before it, and, when the
/// method token is a lambda token, a well-formed id numeral.
pub open spec fn parse_ok(s: Seq<char>) -> bool {
    &&& last_index(s, '(') >= 0
    &&& method_dot(s) >= 0
    &&& class_dot(s) >= 0
    &&& (is_lambda_token(method_token_of(s)) ==> lambda_id_ok(method_token_of(s)))
}

/// Whether `t` starts with the literal prefix `lambda$`.
fn starts_with_lambda(t: &str) -> (r: bool)
    ensures
        r == is_lambda_token(t@),
{
    if t.unicode_len() < 7 {
        return false;
    }
    let head: &str = t.substring_char(0, 7);
    String::from_str(head) == String::from_str("lambda$")
}

/// Splits one raw frame into its ordered typed segments — package, class,
/// then method or lambda — or fails with `InvalidInput` on any frame text
/// that does not match the expected shape.
pub fn parse(input: &str) -> (r: Result<Vec<LocationKind>, ParseError>)
    ensures
        r is Ok <==> parse_ok(input@),
        r is Err ==> r == Err::<Vec<LocationKind>, ParseError>(ParseError::InvalidInput),
        r matches Ok(v) ==> {
            &&& wf_segments(v@)
            &&& (v@[0] matches LocationKind::Package { name } && name@ == package_of(input@))
            &&& (v@[1] matches LocationKind::Class { name } && name@ == class_of(input@))
            &&& (if is_lambda_token(method_token_of(input@)) {
                v@[2] matches LocationKind::Lambda { name, id } && name@ == lambda_name_of(
                    method_token_of(input@),
                ) && id == lambda_id_of(method_token_of(input@))
            } else {
                v@[2] matches LocationKind::Method { name } && name@ == method_token_of(input@)
            })
        },
{
    let file_idx: usize = match rfind_char(input, '(') {
        Some(i) => i,
        None => {
            return Err(ParseError::InvalidInput);
        },
    };
    proof {
        lemma_last_index(input@, '(');
    }
    let path: &str = input.substring_char(0, file_idx);
    let path_len: usize = path.unicode_len();

    let method_idx: usize = match rfind_char(path, '.') {
        Some(i) => i,
        None => {
            return Err(ParseError::InvalidInput);
        },
    };
    proof {
        lemma_last_index(path@, '.');
    }
    let before: &str = path.substring_char(0, method_idx);
    let class_idx: usize = match rfind_char(before, '.') {
        Some(i) => i,
        None => {
            return Err(ParseError::InvalidInput);
        },
    };
    proof {
        lemma_last_index(before@, '.');
    }

    let mut segments: Vec<LocationKind> = Vec::new();
    let pkg: &str = path.substring_char(0, class_idx);
    segments.push(LocationKind::Package { name: pkg.to_owned() });
    let cls: &str = path.substring_char(class_idx + 1, method_idx);
    segments.push(LocationKind::Class { name: cls.to_owned() });

    let tok: &str = path.substring_char(method_idx + 1, path_len);
    let tok_len: usize = tok.unicode_len();

    if starts_with_lambda(tok) {
        proof {
            reveal_strlit("lambda$");
            assert(tok@.subrange(0, 7)[6] == '$');
            assert(tok@[6] == '$');
            assert(contains_char(tok@, '$'));
            lemma_first_index(tok@, '$');
            lemma_last_index(tok@, '$');
        }
        let lambda_idx: usize = find_char(tok, '$').unwrap();
        let id_idx: usize = rfind_char(tok, '$').unwrap();
        let id_str: &str = tok.substring_char(id_idx + 1, tok_len);
        let id: u32 = match parse_u32(id_str) {
            Some(v) => v,
            None => {
                return Err(ParseError::InvalidInput);
            },
        };
        let name: &str = if lambda_idx + 1 <= id_idx {
            tok.substring_char(lambda_idx + 1, id_idx)
        } else {
            ""
        };
        proof {
            reveal_strlit("");
            if lambda_idx + 1 > id_idx {
                assert(name@ =~= Seq::<char>::empty());
            }
            assert(name@ == lambda_name_of(tok@));
        }
        segments.push(LocationKind::Lambda { name: name.to_owned(), id });
    } else {
        segments.push(LocationKind::Method { name: tok.to_owned() });
    }
    Ok(segments)
}

} // verus!
