//! Where the query occurs in a result's title.

use vstd::prelude::*;
use vstd::string::*;
use vstd::utf8::encode_utf8;
use crate::search::types::MatchRange;
use crate::text::{chars_of, find, lowercase, occurs_at, seq_contains, seq_trim, string_of, to_lowercase, trimmed_chars};

verus! {

/// Number of UTF-8 bytes of `s`, as `str::len` counts them.
pub open spec fn byte_len(s: Seq<char>) -> int {
    encode_utf8(s).len() as int
}

/// `r` is the highlight of `query` in `text`: empty when the trimmed query
/// is empty or does not occur in the lowercased text; else one range over
/// the first occurrence of the lowercased query in the lowercased text, in
/// bytes of the lowercased text.
pub open spec fn is_match_ranges(text: Seq<char>, query: Seq<char>, r: Seq<MatchRange>) -> bool {
    let q = seq_trim(query);
    let tl = lowercase(text);
    let ql = lowercase(q);
    if q.len() == 0 || !seq_contains(tl, ql) {
        r.len() == 0
    } else {
        r.len() == 1 && exists|i: int|
            #![trigger occurs_at(tl, ql, i)]
            occurs_at(tl, ql, i) && (forall|j: int| 0 <= j < i ==> !occurs_at(tl, ql, j))
                && r[0].start == byte_len(tl.subrange(0, i)) as usize && r[0].end == r[0].start.wrapping_add(
                byte_len(ql) as usize,
            )
    }
}

/// The highlight of `query` in `text`.
pub open spec fn match_ranges_of(text: Seq<char>, query: Seq<char>) -> Seq<MatchRange> {
    choose|r: Seq<MatchRange>| is_match_ranges(text, query, r)
}

/// At most one sequence of ranges is the highlight of a query in a text.
pub proof fn lemma_match_ranges_unique(
    text: Seq<char>,
    query: Seq<char>,
    r1: Seq<MatchRange>,
    r2: Seq<MatchRange>,
)
    requires
        is_match_ranges(text, query, r1),
        is_match_ranges(text, query, r2),
    ensures
        r1 == r2,
{
    let q = seq_trim(query);
    let tl = lowercase(text);
    let ql = lowercase(q);
    if q.len() == 0 || !seq_contains(tl, ql) {
        assert(r1 =~= r2);
    } else {
        let i1 = choose|i: int|
            #![trigger occurs_at(tl, ql, i)]
            occurs_at(tl, ql, i) && (forall|j: int| 0 <= j < i ==> !occurs_at(tl, ql, j))
                && r1[0].start == byte_len(tl.subrange(0, i)) as usize && r1[0].end
                == r1[0].start.wrapping_add(byte_len(ql) as usize);
        let i2 = choose|i: int|
            #![trigger occurs_at(tl, ql, i)]
            occurs_at(tl, ql, i) && (forall|j: int| 0 <= j < i ==> !occurs_at(tl, ql, j))
                && r2[0].start == byte_len(tl.subrange(0, i)) as usize && r2[0].end
                == r2[0].start.wrapping_add(byte_len(ql) as usize);
        assert(i1 == i2);
        assert(r1 =~= r2);
    }
}

pub fn compute_match_ranges(text: &str, query: &str) -> (r: Vec<MatchRange>)
    ensures
        r@ == match_ranges_of(text@, query@),
{
    let r = compute_match_ranges_inner(text, query);
    proof {
        lemma_match_ranges_unique(text@, query@, r@, match_ranges_of(text@, query@));
    }
    r
}

fn compute_match_ranges_inner(text: &str, query: &str) -> (r: Vec<MatchRange>)
    ensures
        is_match_ranges(text@, query@, r@),
{
    let q = trimmed_chars(query);
    if q.len() == 0 {
        return Vec::new();
    }
    let qs = string_of(q.as_slice());
    let tl = to_lowercase(text);
    let ql = to_lowercase(qs.as_str());
    let tlv = chars_of(tl.as_str());
    let qlv = chars_of(ql.as_str());
    match find(tlv.as_slice(), qlv.as_slice()) {
        None => Vec::new(),
        Some(i) => {
            let start = tl.as_str().substring_char(0, i).len();
            let end = start.wrapping_add(ql.as_str().len());
            let mut out = Vec::new();
            out.push(MatchRange { start, end });
            out
        },
    }
}

} // verus!
