//! Laws of the parse-and-explain pipeline, proved over the spec functions
//! that the executable contracts are stated with.

use vstd::prelude::*;

verus! {

use crate::contains_char;
use crate::parser::{
    class_dot, class_of, is_lambda_token, lambda_id_of, lambda_id_str_of, lambda_name_of,
    method_dot, method_token_of, package_of, parse_ok, path_of,
};
use crate::render::{phrase_class, phrase_lambda, phrase_method, phrase_package, spec_explain};
use crate::text::{
    all_digits, count_char, dec_str, first_index, is_digit, last_index, lemma_contains_append,
    lemma_count_append, lemma_count_zero, lemma_dec_str, lemma_first_index, lemma_last_index,
    lemma_last_index_append_char,
};

/// A frame text assembled from its parts: `{pkg}.{cls}.{tok}({rest}`.
pub open spec fn assembled_frame(
    pkg: Seq<char>,
    cls: Seq<char>,
    tok: Seq<char>,
    rest: Seq<char>,
) -> Seq<char> {
    pkg + seq!['.'] + cls + seq!['.'] + tok + seq!['('] + rest
}

/// The method token of a lambda frame: `lambda${outer}${id}`.
pub open spec fn lambda_token(outer: Seq<char>, id: u32) -> Seq<char> {
    "lambda$"@ + outer + seq!['$'] + dec_str(id as nat)
}

/// Digits are never one of the parser's separator characters.
proof fn lemma_digits_not_separator(s: Seq<char>, c: char)
    requires
        all_digits(s),
        !is_digit(c),
    ensures
        !contains_char(s, c),
{
    if contains_char(s, c) {
        let i = choose|i: int| 0 <= i < s.len() && s[i] == c;
        assert(is_digit(s[i]));
    }
}

/// When the class and token hold no dot, and nothing but the assembling `(`
/// holds a `(`, the parser's last-occurrence searches land exactly on the
/// assembling separators, recovering each part.
proof fn lemma_frame_decomposition(pkg: Seq<char>, cls: Seq<char>, tok: Seq<char>, rest: Seq<char>)
    requires
        !contains_char(pkg, '('),
        !contains_char(cls, '('),
        !contains_char(cls, '.'),
        !contains_char(tok, '('),
        !contains_char(tok, '.'),
        !contains_char(rest, '('),
    ensures
        ({
            let s = assembled_frame(pkg, cls, tok, rest);
            &&& last_index(s, '(') == pkg.len() + 1 + cls.len() + 1 + tok.len()
            &&& path_of(s) == pkg + seq!['.'] + cls + seq!['.'] + tok
            &&& method_dot(s) == pkg.len() + 1 + cls.len()
            &&& class_dot(s) == pkg.len()
            &&& package_of(s) == pkg
            &&& class_of(s) == cls
            &&& method_token_of(s) == tok
        }),
{
    let s = assembled_frame(pkg, cls, tok, rest);
    let dot = seq!['.'];
    let path = pkg + dot + cls + dot + tok;
    assert(!contains_char(dot, '(')) by {
        if contains_char(dot, '(') {
            let i = choose|i: int| 0 <= i < dot.len() && dot[i] == '(';
            assert(dot[0] == '.');
        }
    }
    assert(s == path + seq!['('] + rest);
    lemma_contains_append(pkg, dot, '(');
    lemma_contains_append(pkg + dot, cls, '(');
    lemma_contains_append(pkg + dot + cls, dot, '(');
    lemma_contains_append(pkg + dot + cls + dot, tok, '(');
    assert(!contains_char(path, '('));
    lemma_last_index_append_char(path, rest, '(');
    assert(last_index(s, '(') == path.len());
    assert(path_of(s) =~= path);

    let pc = pkg + dot + cls;
    assert(path == pc + dot + tok);
    lemma_last_index_append_char(pc, tok, '.');
    assert(method_dot(s) == pc.len());

    assert(path.subrange(0, pc.len() as int) =~= pc);
    lemma_last_index_append_char(pkg, cls, '.');
    assert(class_dot(s) == pkg.len());

    assert(package_of(s) =~= pkg);
    assert(class_of(s) =~= cls);
    assert(method_token_of(s) =~= tok);
}

/// For every well-formed method frame `{pkg}.{cls}.{method}({rest}` — the
/// package holding at least one dot, the class and method holding none, the
/// method not a lambda token, and no `(` anywhere but the assembling one —
/// the explanation names the method, the class and the package.
pub proof fn lemma_explain_method_frame(
    pkg: Seq<char>,
    cls: Seq<char>,
    method: Seq<char>,
    rest: Seq<char>,
)
    requires
        contains_char(pkg, '.'),
        !contains_char(pkg, '('),
        !contains_char(cls, '('),
        !contains_char(cls, '.'),
        !contains_char(method, '('),
        !contains_char(method, '.'),
        !contains_char(rest, '('),
        !is_lambda_token(method),
    ensures
        spec_explain(assembled_frame(pkg, cls, method, rest)) == phrase_method(method) + ", "@
            + phrase_class(cls) + ", "@ + phrase_package(pkg),
{
    lemma_frame_decomposition(pkg, cls, method, rest);
    let s = assembled_frame(pkg, cls, method, rest);
    assert(parse_ok(s));
}

/// For every well-formed lambda frame `{pkg}.{cls}.lambda${outer}${id}({rest}`
/// — the enclosing method holding no dot, no `(` anywhere but the assembling
/// one, and `id` any `u32` — the explanation names the lambda's ordinal
/// position, the enclosing method, the class and the package.
pub proof fn lemma_explain_lambda_frame(
    pkg: Seq<char>,
    cls: Seq<char>,
    outer: Seq<char>,
    id: u32,
    rest: Seq<char>,
)
    requires
        !contains_char(pkg, '('),
        !contains_char(cls, '('),
        !contains_char(cls, '.'),
        !contains_char(outer, '('),
        !contains_char(outer, '.'),
        !contains_char(rest, '('),
    ensures
        spec_explain(assembled_frame(pkg, cls, lambda_token(outer, id), rest)) == phrase_lambda(
            outer,
            id,
        ) + ", "@ + phrase_class(cls) + ", "@ + phrase_package(pkg),
{
    let t = lambda_token(outer, id);
    let digits = dec_str(id as nat);
    lemma_dec_str(id as nat);
    reveal_strlit("lambda$");

    lemma_digits_not_separator(digits, '.');
    lemma_digits_not_separator(digits, '(');
    lemma_digits_not_separator(digits, '$');
    assert(!contains_char("lambda$"@, '.')) by {
        if contains_char("lambda$"@, '.') {
            let i = choose|i: int| 0 <= i < "lambda$"@.len() && "lambda$"@[i] == '.';
        }
    }
    assert(!contains_char("lambda$"@, '(')) by {
        if contains_char("lambda$"@, '(') {
            let i = choose|i: int| 0 <= i < "lambda$"@.len() && "lambda$"@[i] == '(';
        }
    }
    assert(!contains_char(seq!['$'], '.')) by {
        if contains_char(seq!['$'], '.') {
            let i = choose|i: int| 0 <= i < 1 && seq!['$'][i] == '.';
            assert(seq!['$'][0] == '$');
        }
    }
    assert(!contains_char(seq!['$'], '(')) by {
        if contains_char(seq!['$'], '(') {
            let i = choose|i: int| 0 <= i < 1 && seq!['$'][i] == '(';
            assert(seq!['$'][0] == '$');
        }
    }
    lemma_contains_append("lambda$"@, outer, '.');
    lemma_contains_append("lambda$"@ + outer, seq!['$'], '.');
    lemma_contains_append("lambda$"@ + outer + seq!['$'], digits, '.');
    assert(!contains_char(t, '.'));
    lemma_contains_append("lambda$"@, outer, '(');
    lemma_contains_append("lambda$"@ + outer, seq!['$'], '(');
    lemma_contains_append("lambda$"@ + outer + seq!['$'], digits, '(');
    assert(!contains_char(t, '('));

    lemma_frame_decomposition(pkg, cls, t, rest);
    let s = assembled_frame(pkg, cls, t, rest);

    // `t` is a lambda token.
    assert(t.subrange(0, 7) =~= "lambda$"@);
    assert(is_lambda_token(t));

    // Its first `$` is the one after the `lambda` keyword.
    lemma_first_index(t, '$');
    assert(t[6] == '$');
    assert(contains_char(t, '$'));
    let f = first_index(t, '$');
    assert(f >= 0);
    if f < 6 {
        assert(t[f] == "lambda$"@[f]);
    }
    if f > 6 {
        assert(t[6] != '$');
    }
    assert(f == 6);

    // Its last `$` is the one before the id numeral.
    let lead = "lambda$"@ + outer;
    assert(t == lead + seq!['$'] + digits);
    lemma_last_index_append_char(lead, digits, '$');
    let l = last_index(t, '$');
    assert(l == 7 + outer.len());

    assert(lambda_name_of(t) =~= outer);
    assert(lambda_id_str_of(t) =~= digits);
    assert(parse_ok(s));
    assert(lambda_id_of(t) == id);
}

/// Any input without `(` explains to the fixed fallback text.
pub proof fn lemma_missing_paren_invalid(s: Seq<char>)
    requires
        !contains_char(s, '('),
    ensures
        spec_explain(s) == "Invalid input"@,
{
    lemma_last_index(s, '(');
}

/// Any input with a `(` but fewer than two dots before its last `(` explains
/// to the fixed fallback text.
pub proof fn lemma_too_few_dots_invalid(s: Seq<char>)
    requires
        last_index(s, '(') >= 0,
        count_char(path_of(s), '.') < 2,
    ensures
        spec_explain(s) == "Invalid input"@,
{
    let p = path_of(s);
    lemma_count_zero(p, '.');
    lemma_last_index(p, '.');
    if count_char(p, '.') == 1 {
        let m = last_index(p, '.');
        assert(m >= 0);
        let pre = p.subrange(0, m);
        let suf = p.subrange(m, p.len() as int);
        assert(p =~= pre + suf);
        lemma_count_append(pre, suf, '.');
        assert(suf[0] == '.');
        assert(contains_char(suf, '.'));
        lemma_count_zero(suf, '.');
        lemma_count_zero(pre, '.');
        lemma_last_index(pre, '.');
        assert(class_dot(s) == -1);
    }
}

/// `explain` is a pure function: its contract pins its result to
/// `spec_explain` of the input text alone, so equal inputs explain equally.
pub proof fn lemma_explain_pure(s1: Seq<char>, s2: Seq<char>)
    requires
        s1 == s2,
    ensures
        spec_explain(s1) == spec_explain(s2),
{
}

} // verus!
