//! Decimal amounts as the quick answers read them.

use vstd::prelude::*;

verus! {

/// Whether `c` is an ASCII digit.
pub open spec fn is_ascii_digit(c: char) -> bool {
    '0' <= c && c <= '9'
}

/// Whether `s`, made of digits and dots, is a number `f64::from_str`
/// accepts: ASCII digits with at most one dot, and at least one digit.
pub open spec fn is_decimal(s: Seq<char>) -> bool {
    &&& forall|k: int| 0 <= k < s.len() ==> is_ascii_digit(#[trigger] s[k]) || s[k] == '.'
    &&& forall|i: int, j: int| 0 <= i < j < s.len() && #[trigger] s[i] == '.' ==> #[trigger] s[j] != '.'
    &&& exists|k: int| 0 <= k < s.len() && is_ascii_digit(#[trigger] s[k])
}

/// Whether `s` is a number `f64::from_str` accepts (see `is_decimal`).
pub fn decimal_ok(s: &[char]) -> (r: bool)
    ensures
        r == is_decimal(s@),
{
    let mut dot_at: Option<usize> = None;
    let mut digit_at: Option<usize> = None;
    let mut i: usize = 0;
    while i < s.len()
        invariant
            i <= s.len(),
            forall|k: int| 0 <= k < i ==> is_ascii_digit(#[trigger] s@[k]) || s@[k] == '.',
            forall|a: int, b: int| 0 <= a < b < i && #[trigger] s@[a] == '.' ==> #[trigger] s@[b] != '.',
            match dot_at {
                Some(d) => d < i && s@[d as int] == '.',
                None => forall|k: int| 0 <= k < i ==> #[trigger] s@[k] != '.',
            },
            match digit_at {
                Some(d) => d < i && is_ascii_digit(s@[d as int]),
                None => forall|k: int| 0 <= k < i ==> !is_ascii_digit(#[trigger] s@[k]),
            },
        decreases s.len() - i,
    {
        let c = s[i];
        if '0' <= c && c <= '9' {
            digit_at = Some(i);
        } else if c == '.' {
            if dot_at.is_some() {
                assert(!(forall|a: int, b: int| 0 <= a < b < s@.len() && #[trigger] s@[a] == '.' ==> #[trigger] s@[b] != '.'));
                return false;
            }
            dot_at = Some(i);
        } else {
            assert(!is_ascii_digit(s@[i as int]) && s@[i as int] != '.');
            return false;
        }
        i = i + 1;
    }
    match digit_at {
        Some(d) => {
            assert(is_ascii_digit(s@[d as int]));
            true
        },
        None => false,
    }
}

/// `s` with every `from` replaced by `to`.
pub open spec fn replace_char_spec(s: Seq<char>, from: char, to: char) -> Seq<char> {
    s.map_values(|c: char| if c == from { to } else { c })
}

/// `str::replace` of one character by another.
pub fn replace_char(s: &[char], from: char, to: char) -> (r: Vec<char>)
    ensures
        r@ == replace_char_spec(s@, from, to),
{
    let mut out: Vec<char> = Vec::new();
    let mut i: usize = 0;
    while i < s.len()
        invariant
            i <= s.len(),
            out@ == replace_char_spec(s@.take(i as int), from, to),
        decreases s.len() - i,
    {
        let c = s[i];
        out.push(if c == from { to } else { c });
        assert(replace_char_spec(s@.take(i + 1), from, to) =~= replace_char_spec(
            s@.take(i as int),
            from,
            to,
        ).push(if c == from { to } else { c }));
        i = i + 1;
    }
    assert(s@.take(i as int) =~= s@);
    out
}

} // verus!
