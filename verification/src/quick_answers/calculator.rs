//! Arithmetic: which queries are expressions worth evaluating. The
//! evaluation and the formatting of the number are the caller's.

use vstd::prelude::*;
use crate::matchers::{regex_captures, regex_captures_of};
use crate::quick_answers::amount::is_ascii_digit;
use crate::quick_answers::QuickAnswer;
use crate::text::{opt_view, seq_trim, string_of, trimmed_chars};

verus! {

/// The pattern of an expression: digits, white space, operators,
/// parentheses, dots and commas only.
pub open spec fn math_pattern() -> Seq<char> {
    r"^[\d\s+\-*/().^%,]+$"@
}

/// The expression a query holds: the trimmed query, when it is not empty,
/// the pattern matches it and it has an ASCII digit. (The query is handed
/// on unchanged: replacing `sqrt` by `sqrt` and `^` by `^` changes nothing.)
pub open spec fn expression_of(query: Seq<char>) -> Option<Seq<char>> {
    let t = seq_trim(query);
    if t.len() == 0 || regex_captures_of(math_pattern(), t) is None {
        None
    } else if !(exists|k: int| 0 <= k < t.len() && is_ascii_digit(#[trigger] t[k])) {
        None
    } else {
        Some(t)
    }
}

/// The expression to evaluate for a query (see `expression_of`).
pub fn try_evaluate(query: &str) -> (r: Option<String>)
    ensures
        opt_view(r) == expression_of(query@),
{
    let t = trimmed_chars(query);
    if t.len() == 0 {
        return None;
    }
    let s = string_of(t.as_slice());
    match regex_captures(r"^[\d\s+\-*/().^%,]+$", s.as_str()) {
        Some(_) => {},
        None => return None,
    }
    let mut i: usize = 0;
    while i < t.len()
        invariant
            i <= t@.len(),
            s@ == t@,
            t@ == seq_trim(query@),
            t@.len() > 0,
            regex_captures_of(math_pattern(), t@) is Some,
            forall|k: int| 0 <= k < i ==> !is_ascii_digit(#[trigger] t@[k]),
        decreases t.len() - i,
    {
        if '0' <= t[i] && t[i] <= '9' {
            assert(is_ascii_digit(t@[i as int]));
            return Some(s);
        }
        i = i + 1;
    }
    None
}

/// The answer to an expression: "=" and its value, formatted by the caller.
pub fn answer(value: &str) -> (r: QuickAnswer)
    ensures
        r.kind@ == "calculator"@,
        r.label@ == "="@,
        r.value@ == value@,
        opt_view(r.hint) == Some("Enter para copiar"@),
{
    QuickAnswer {
        kind: String::from_str("calculator"),
        label: String::from_str("="),
        value: String::from_str(value),
        hint: Some(String::from_str("Enter para copiar")),
    }
}

} // verus!
