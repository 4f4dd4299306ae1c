//! Pieces of the freedesktop `.desktop` format shared by the applications
//! and settings indexes.

use vstd::prelude::*;
use crate::text::{seq_split_once, seq_trim, split_once_char, trim_bounds, slice_chars};

verus! {

/// A field code of an `Exec` line: `%f`, `%F`, `%u`, `%U`, `%i`, `%c`, `%k`.
pub open spec fn is_field_code(c: char) -> bool {
    c == 'f' || c == 'F' || c == 'u' || c == 'U' || c == 'i' || c == 'c' || c == 'k'
}

/// `s` with every field code removed, scanning left to right (what
/// replacing the pattern `%[fFuUick]` with nothing gives).
pub open spec fn strip_codes(s: Seq<char>) -> Seq<char>
    decreases s.len(),
{
    if s.len() == 0 {
        s
    } else if s.len() >= 2 && s[0] == '%' && is_field_code(s[1]) {
        strip_codes(s.subrange(2, s.len() as int))
    } else {
        seq![s[0]] + strip_codes(s.drop_first())
    }
}

/// An `Exec` value without field codes and surrounding whitespace.
pub open spec fn normalized_exec(s: Seq<char>) -> Seq<char> {
    seq_trim(strip_codes(s))
}

/// `s` without field codes.
pub fn strip_field_codes(s: &[char]) -> (r: Vec<char>)
    ensures
        r@ == strip_codes(s@),
{
    let mut out: Vec<char> = Vec::new();
    let mut i: usize = 0;
    assert(s@.subrange(0, s.len() as int) =~= s@);
    while i < s.len()
        invariant
            i <= s.len(),
            out@ + strip_codes(s@.subrange(i as int, s.len() as int)) == strip_codes(s@),
        decreases s.len() - i,
    {
        let ghost t = s@.subrange(i as int, s.len() as int);
        if i + 1 < s.len() && s[i] == '%' && (s[i + 1] == 'f' || s[i + 1] == 'F' || s[i + 1]
            == 'u' || s[i + 1] == 'U' || s[i + 1] == 'i' || s[i + 1] == 'c' || s[i + 1] == 'k') {
            assert(t.subrange(2, t.len() as int) =~= s@.subrange(i + 2, s.len() as int));
            i = i + 2;
        } else {
            let ghost before = out@;
            out.push(s[i]);
            assert(t.drop_first() =~= s@.subrange(i + 1, s.len() as int));
            assert(before.push(s@[i as int]) + strip_codes(s@.subrange(i + 1, s.len() as int))
                =~= before + (seq![t[0]] + strip_codes(t.drop_first())));
            i = i + 1;
        }
    }
    assert(s@.subrange(i as int, s.len() as int) =~= Seq::<char>::empty());
    assert(out@ + Seq::<char>::empty() =~= out@);
    out
}

/// An `Exec` value without field codes and surrounding whitespace.
pub fn normalize_exec(exec: &[char]) -> (r: Vec<char>)
    ensures
        r@ == normalized_exec(exec@),
{
    let stripped = strip_field_codes(exec);
    let (a, b) = trim_bounds(stripped.as_slice());
    slice_chars(stripped.as_slice(), a, b)
}

/// The trimmed key and value of a `key=value` line, split at the first `=`.
pub open spec fn key_value(line: Seq<char>) -> Option<(Seq<char>, Seq<char>)> {
    match seq_split_once(line, '=') {
        Some((k, v)) => Some((seq_trim(k), seq_trim(v))),
        None => None,
    }
}

/// The trimmed key and value of a `key=value` line.
pub fn split_key_value(line: &[char]) -> (r: Option<(Vec<char>, Vec<char>)>)
    ensures
        match r {
            Some((k, v)) => key_value(line@) == Some((k@, v@)),
            None => key_value(line@) is None,
        },
{
    match split_once_char(line, '=') {
        Some((k, v)) => {
            let (a, b) = trim_bounds(k.as_slice());
            let (c, d) = trim_bounds(v.as_slice());
            Some((slice_chars(k.as_slice(), a, b), slice_chars(v.as_slice(), c, d)))
        },
        None => None,
    }
}

} // verus!
