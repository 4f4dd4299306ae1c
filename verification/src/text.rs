//! Verified text primitives over sequences of characters: whitespace
//! trimming, substring search, prefixes, splitting and case folding.

use vstd::prelude::*;
use vstd::std_specs::iter::IteratorSpec;

verus! {

/// Unicode `White_Space`, the set that `char::is_whitespace` and
/// `str::trim` use.
pub open spec fn is_ws(c: char) -> bool {
    let u = c as u32;
    (9 <= u && u <= 13) || u == 32 || u == 0x85 || u == 0xa0 || u == 0x1680 || (0x2000 <= u
        && u <= 0x200a) || u == 0x2028 || u == 0x2029 || u == 0x202f || u == 0x205f || u
        == 0x3000
}

/// `s` without its leading whitespace.
pub open spec fn seq_trim_start(s: Seq<char>) -> Seq<char>
    decreases s.len(),
{
    if s.len() > 0 && is_ws(s[0]) {
        seq_trim_start(s.drop_first())
    } else {
        s
    }
}

/// `s` without its trailing whitespace.
pub open spec fn seq_trim_end(s: Seq<char>) -> Seq<char>
    decreases s.len(),
{
    if s.len() > 0 && is_ws(s.last()) {
        seq_trim_end(s.drop_last())
    } else {
        s
    }
}

/// `s` without leading and trailing whitespace, as `str::trim` gives it.
pub open spec fn seq_trim(s: Seq<char>) -> Seq<char> {
    seq_trim_end(seq_trim_start(s))
}

proof fn lemma_trim_start_head(s: Seq<char>)
    ensures
        seq_trim_start(s).len() == 0 || !is_ws(seq_trim_start(s)[0]),
    decreases s.len(),
{
    if s.len() > 0 && is_ws(s[0]) {
        lemma_trim_start_head(s.drop_first());
    }
}

proof fn lemma_trim_end_ends(y: Seq<char>)
    requires
        y.len() == 0 || !is_ws(y[0]),
    ensures
        seq_trim_end(y).len() == 0 || (!is_ws(seq_trim_end(y)[0]) && !is_ws(seq_trim_end(y).last())),
    decreases y.len(),
{
    if y.len() > 0 && is_ws(y.last()) {
        let d = y.drop_last();
        if d.len() > 0 {
            assert(d[0] == y[0]);
        }
        lemma_trim_end_ends(d);
    }
}

/// Neither end of a trimmed text is whitespace.
pub proof fn lemma_trim_ends(s: Seq<char>)
    ensures
        seq_trim(s).len() == 0 || (!is_ws(seq_trim(s)[0]) && !is_ws(seq_trim(s).last())),
{
    lemma_trim_start_head(s);
    lemma_trim_end_ends(seq_trim_start(s));
}

/// Trimming a trimmed text changes nothing.
pub proof fn lemma_trim_idempotent(s: Seq<char>)
    ensures
        seq_trim(seq_trim(s)) == seq_trim(s),
{
    lemma_trim_ends(s);
    let t = seq_trim(s);
    assert(seq_trim_start(t) == t);
    assert(seq_trim_end(t) == t);
}

/// `n` occurs in `h` at position `i`.
pub open spec fn occurs_at(h: Seq<char>, n: Seq<char>, i: int) -> bool {
    0 <= i && i + n.len() <= h.len() && h.subrange(i, i + n.len()) == n
}

/// `n` occurs somewhere in `h`.
pub open spec fn seq_contains(h: Seq<char>, n: Seq<char>) -> bool {
    exists|i: int| occurs_at(h, n, i)
}

/// `p` is a prefix of `s`.
pub open spec fn seq_starts_with(s: Seq<char>, p: Seq<char>) -> bool {
    occurs_at(s, p, 0)
}

/// ASCII lowercase of one character.
pub open spec fn ascii_lower(c: char) -> char {
    if 'A' <= c && c <= 'Z' {
        ((c as u32) + 32) as char
    } else {
        c
    }
}

/// ASCII lowercase of a sequence, as `str::to_ascii_lowercase` gives it.
pub open spec fn seq_ascii_lower(s: Seq<char>) -> Seq<char> {
    s.map_values(|c: char| ascii_lower(c))
}

/// What `str::to_lowercase` returns for a string: full Unicode lowercase
/// mapping, which takes tables to state.
pub uninterp spec fn lowercase(s: Seq<char>) -> Seq<char>;

/// Appends one character to a string.
#[verifier::external_body]
pub(crate) fn push_char(s: &mut String, c: char)
    ensures
        final(s)@ == old(s)@.push(c),
{
    s.push(c);
}

/// `str::to_lowercase` of std. The contract claims only that the result
/// is the one named by `lowercase`: a function of the text alone.
#[verifier::external_body]
pub(crate) fn to_lowercase(s: &str) -> (r: String)
    ensures
        r@ == lowercase(s@),
{
    s.to_lowercase()
}

/// What `str::to_uppercase` returns for a string: full Unicode uppercase
/// mapping, which takes tables to state.
pub uninterp spec fn uppercase(s: Seq<char>) -> Seq<char>;

/// `str::to_uppercase` of std. The contract claims only that the result
/// is the one named by `uppercase`: a function of the text alone.
#[verifier::external_body]
pub(crate) fn to_uppercase(s: &str) -> (r: String)
    ensures
        r@ == uppercase(s@),
{
    s.to_uppercase()
}

/// The characters of `s`, in order.
pub fn chars_of(s: &str) -> (r: Vec<char>)
    ensures
        r@ == s@,
{
    let mut out: Vec<char> = Vec::new();
    for c in it: s.chars()
        invariant
            out@ == it.seq().take(it.index() as int),
    {
        out.push(c);
    }
    out
}

/// A string holding the characters of `v`.
pub fn string_of(v: &[char]) -> (r: String)
    ensures
        r@ == v@,
{
    let mut out = String::new();
    let mut i: usize = 0;
    while i < v.len()
        invariant
            i <= v.len(),
            out@ == v@.take(i as int),
        decreases v.len() - i,
    {
        push_char(&mut out, v[i]);
        assert(v@.take(i as int).push(v@[i as int]) =~= v@.take(i + 1));
        i = i + 1;
    }
    assert(v@.take(v.len() as int) =~= v@);
    out
}

/// A string holding the characters of `v[from..to]`.
pub fn string_of_range(v: &[char], from: usize, to: usize) -> (r: String)
    requires
        from <= to <= v.len(),
    ensures
        r@ == v@.subrange(from as int, to as int),
{
    let mut out = String::new();
    let mut i: usize = from;
    while i < to
        invariant
            from <= i <= to <= v.len(),
            out@ == v@.subrange(from as int, i as int),
        decreases to - i,
    {
        push_char(&mut out, v[i]);
        assert(v@.subrange(from as int, i as int).push(v@[i as int]) =~= v@.subrange(
            from as int,
            i + 1,
        ));
        i = i + 1;
    }
    out
}

/// `char::is_whitespace`.
pub fn is_whitespace(c: char) -> (r: bool)
    ensures
        r == is_ws(c),
{
    let u = c as u32;
    (9 <= u && u <= 13) || u == 32 || u == 0x85 || u == 0xa0 || u == 0x1680 || (0x2000 <= u
        && u <= 0x200a) || u == 0x2028 || u == 0x2029 || u == 0x202f || u == 0x205f || u
        == 0x3000
}

proof fn lemma_trim_start_at(s: Seq<char>, i: int)
    requires
        0 <= i <= s.len(),
        forall|k: int| 0 <= k < i ==> is_ws(#[trigger] s[k]),
        i == s.len() || !is_ws(s[i]),
    ensures
        seq_trim_start(s) == s.subrange(i, s.len() as int),
    decreases i,
{
    if i == 0 {
        assert(s.subrange(0, s.len() as int) =~= s);
    } else {
        let t = s.drop_first();
        assert forall|k: int| 0 <= k < i - 1 implies is_ws(#[trigger] t[k]) by {
            assert(t[k] == s[k + 1]);
        }
        lemma_trim_start_at(t, i - 1);
        assert(t.subrange(i - 1, t.len() as int) =~= s.subrange(i, s.len() as int));
    }
}

proof fn lemma_trim_end_at(s: Seq<char>, j: int)
    requires
        0 <= j <= s.len(),
        forall|k: int| j <= k < s.len() ==> is_ws(#[trigger] s[k]),
        j == 0 || !is_ws(s[j - 1]),
    ensures
        seq_trim_end(s) == s.subrange(0, j),
    decreases s.len() - j,
{
    if j == s.len() {
        assert(s.subrange(0, j) =~= s);
    } else {
        let t = s.drop_last();
        assert forall|k: int| j <= k < t.len() implies is_ws(#[trigger] t[k]) by {
            assert(t[k] == s[k]);
        }
        lemma_trim_end_at(t, j);
        assert(t.subrange(0, j) =~= s.subrange(0, j));
    }
}

/// The bounds `[a, b)` of `v` once leading and trailing whitespace is cut.
pub fn trim_bounds(v: &[char]) -> (r: (usize, usize))
    ensures
        r.0 <= r.1 <= v.len(),
        v@.subrange(r.0 as int, r.1 as int) == seq_trim(v@),
{
    let mut a: usize = 0;
    while a < v.len() && is_whitespace(v[a])
        invariant
            a <= v.len(),
            forall|k: int| 0 <= k < a ==> is_ws(#[trigger] v@[k]),
        decreases v.len() - a,
    {
        a = a + 1;
    }
    proof {
        lemma_trim_start_at(v@, a as int);
    }
    let ghost t = v@.subrange(a as int, v.len() as int);
    let mut b: usize = v.len();
    while b > a && is_whitespace(v[b - 1])
        invariant
            a <= b <= v.len(),
            forall|k: int| b <= k < v.len() ==> is_ws(#[trigger] v@[k]),
        decreases b,
    {
        b = b - 1;
    }
    proof {
        assert forall|k: int| b - a <= k < t.len() implies is_ws(#[trigger] t[k]) by {
            assert(t[k] == v@[k + a]);
        }
        if b > a {
            assert(t[b - a - 1] == v@[b - 1]);
        }
        lemma_trim_end_at(t, b - a);
        assert(t.subrange(0, b - a) =~= v@.subrange(a as int, b as int));
    }
    (a, b)
}

/// `str::trim`, as a new string.
pub fn trim(s: &str) -> (r: String)
    ensures
        r@ == seq_trim(s@),
{
    let v = chars_of(s);
    let (a, b) = trim_bounds(v.as_slice());
    string_of_range(v.as_slice(), a, b)
}

/// `v[from..to]` as a new vector.
pub fn slice_chars(v: &[char], from: usize, to: usize) -> (r: Vec<char>)
    requires
        from <= to <= v.len(),
    ensures
        r@ == v@.subrange(from as int, to as int),
{
    let mut out: Vec<char> = Vec::new();
    let mut i: usize = from;
    while i < to
        invariant
            from <= i <= to <= v.len(),
            out@ == v@.subrange(from as int, i as int),
        decreases to - i,
    {
        out.push(v[i]);
        assert(v@.subrange(from as int, i as int).push(v@[i as int]) =~= v@.subrange(
            from as int,
            i + 1,
        ));
        i = i + 1;
    }
    out
}

/// The characters of `s` with surrounding whitespace cut.
pub fn trimmed_chars(s: &str) -> (r: Vec<char>)
    ensures
        r@ == seq_trim(s@),
{
    let v = chars_of(s);
    let (a, b) = trim_bounds(v.as_slice());
    slice_chars(v.as_slice(), a, b)
}

/// Whether `n` occurs in `h` at position `i`.
pub fn occurs_at_exec(h: &[char], n: &[char], i: usize) -> (r: bool)
    ensures
        r == occurs_at(h@, n@, i as int),
{
    if i > h.len() || n.len() > h.len() - i {
        return false;
    }
    let mut k: usize = 0;
    while k < n.len()
        invariant
            i + n.len() <= h.len(),
            k <= n.len(),
            forall|j: int| 0 <= j < k ==> h@[i + j] == n@[j],
        decreases n.len() - k,
    {
        if h[i + k] != n[k] {
            assert(h@.subrange(i as int, i + n.len())[k as int] != n@[k as int]);
            return false;
        }
        k = k + 1;
    }
    assert(h@.subrange(i as int, i + n.len()) =~= n@);
    true
}

/// The first position at which `n` occurs in `h`, as `str::find` gives it
/// (counted in characters).
pub fn find(h: &[char], n: &[char]) -> (r: Option<usize>)
    ensures
        match r {
            Some(i) => occurs_at(h@, n@, i as int) && forall|j: int|
                0 <= j < i ==> !occurs_at(h@, n@, j),
            None => !seq_contains(h@, n@),
        },
{
    if n.len() > h.len() {
        return None;
    }
    let last = h.len() - n.len();
    let mut i: usize = 0;
    while i < last
        invariant
            n.len() <= h.len(),
            last == h.len() - n.len(),
            i <= last,
            forall|j: int| 0 <= j < i ==> !occurs_at(h@, n@, j),
        decreases last - i,
    {
        if occurs_at_exec(h, n, i) {
            return Some(i);
        }
        i = i + 1;
    }
    if occurs_at_exec(h, n, last) {
        return Some(last);
    }
    None
}

/// Whether `n` occurs in `h` (`str::contains`).
pub fn contains(h: &[char], n: &[char]) -> (r: bool)
    ensures
        r == seq_contains(h@, n@),
{
    match find(h, n) {
        Some(_) => true,
        None => false,
    }
}

/// Whether `s` starts with `p` (`str::starts_with`).
pub fn starts_with(s: &[char], p: &[char]) -> (r: bool)
    ensures
        r == seq_starts_with(s@, p@),
{
    occurs_at_exec(s, p, 0)
}

/// Whether two character sequences are equal.
pub fn chars_eq(a: &[char], b: &[char]) -> (r: bool)
    ensures
        r == (a@ == b@),
{
    if a.len() != b.len() {
        return false;
    }
    let r = occurs_at_exec(a, b, 0);
    proof {
        if r {
            assert(a@.subrange(0, b@.len() as int) =~= a@);
        } else {
            assert(a@.subrange(0, b@.len() as int) =~= a@);
        }
    }
    r
}

/// Whether two strings are equal.
pub fn str_eq(a: &str, b: &str) -> (r: bool)
    ensures
        r == (a@ == b@),
{
    let x = chars_of(a);
    let y = chars_of(b);
    chars_eq(x.as_slice(), y.as_slice())
}

/// `char::to_ascii_lowercase`.
pub fn ascii_lower_char(c: char) -> (r: char)
    ensures
        r == ascii_lower(c),
{
    if 'A' <= c && c <= 'Z' {
        let u = (c as u32) + 32;
        assert(0x61 <= u <= 0x7a);
        proof {
            assert((u as char) == (((c as u32) + 32) as char));
        }
        char_from_ascii(u)
    } else {
        c
    }
}

/// The character of an ASCII code point.
fn char_from_ascii(u: u32) -> (r: char)
    requires
        u < 128,
    ensures
        r == u as char,
{
    let b = u as u8;
    (b as char)
}

/// ASCII lowercase of a character sequence.
pub fn ascii_lowercase_chars(v: &[char]) -> (r: Vec<char>)
    ensures
        r@ == seq_ascii_lower(v@),
{
    let mut out: Vec<char> = Vec::new();
    let mut i: usize = 0;
    while i < v.len()
        invariant
            i <= v.len(),
            out@ =~= seq_ascii_lower(v@.take(i as int)),
        decreases v.len() - i,
    {
        out.push(ascii_lower_char(v[i]));
        assert(v@.take(i + 1) =~= v@.take(i as int).push(v@[i as int]));
        i = i + 1;
    }
    assert(v@.take(v.len() as int) =~= v@);
    out
}


/// Index of the first `c` in `s`, or `s.len()` where there is none.
pub open spec fn seq_find_char(s: Seq<char>, c: char) -> int
    decreases s.len(),
{
    if s.len() == 0 {
        0
    } else if s[0] == c {
        0
    } else {
        1 + seq_find_char(s.drop_first(), c)
    }
}

/// `str::split_once` on a character.
pub open spec fn seq_split_once(s: Seq<char>, c: char) -> Option<(Seq<char>, Seq<char>)> {
    let i = seq_find_char(s, c);
    if i >= s.len() {
        None
    } else {
        Some((s.subrange(0, i), s.subrange(i + 1, s.len() as int)))
    }
}

/// `str::split` on a character: the pieces between occurrences of `c`.
pub open spec fn seq_split(s: Seq<char>, c: char) -> Seq<Seq<char>>
    decreases s.len(),
{
    let i = seq_find_char(s, c);
    if i >= s.len() {
        seq![s]
    } else {
        proof {
            lemma_find_char_bound(s, c);
        }
        seq![s.subrange(0, i)] + seq_split(s.subrange(i + 1, s.len() as int), c)
    }
}

/// A line without the carriage return that preceded its newline.
pub open spec fn strip_cr(l: Seq<char>) -> Seq<char> {
    if l.len() > 0 && l.last() == '\r' {
        l.drop_last()
    } else {
        l
    }
}

/// `str::lines`.
pub open spec fn seq_lines(s: Seq<char>) -> Seq<Seq<char>>
    decreases s.len(),
{
    if s.len() == 0 {
        Seq::empty()
    } else {
        let i = seq_find_char(s, '\n');
        if i >= s.len() {
            seq![s]
        } else {
            proof {
                lemma_find_char_bound(s, '\n');
            }
            seq![strip_cr(s.subrange(0, i))] + seq_lines(s.subrange(i + 1, s.len() as int))
        }
    }
}

/// The views of a sequence of character vectors.
pub open spec fn views(v: Seq<Vec<char>>) -> Seq<Seq<char>> {
    v.map_values(|x: Vec<char>| x@)
}

pub proof fn lemma_find_char_at(s: Seq<char>, c: char, j: int)
    requires
        0 <= j <= s.len(),
        forall|k: int| 0 <= k < j ==> #[trigger] s[k] != c,
        j == s.len() || s[j] == c,
    ensures
        seq_find_char(s, c) == j,
    decreases j,
{
    if j > 0 {
        let t = s.drop_first();
        assert forall|k: int| 0 <= k < j - 1 implies #[trigger] t[k] != c by {
            assert(t[k] == s[k + 1]);
        }
        lemma_find_char_at(t, c, j - 1);
    }
}

pub proof fn lemma_find_char_bound(s: Seq<char>, c: char)
    ensures
        0 <= seq_find_char(s, c) <= s.len(),
        seq_find_char(s, c) < s.len() ==> s[seq_find_char(s, c)] == c,
    decreases s.len(),
{
    if s.len() > 0 && s[0] != c {
        lemma_find_char_bound(s.drop_first(), c);
    }
}

/// The index of the first `c` in `v` at or after `from`, or `v.len()`.
pub fn find_char_from(v: &[char], c: char, from: usize) -> (r: usize)
    requires
        from <= v.len(),
    ensures
        from <= r <= v.len(),
        r - from == seq_find_char(v@.subrange(from as int, v.len() as int), c),
{
    let mut i = from;
    while i < v.len() && v[i] != c
        invariant
            from <= i <= v.len(),
            forall|k: int| from <= k < i ==> #[trigger] v@[k] != c,
        decreases v.len() - i,
    {
        i = i + 1;
    }
    proof {
        let t = v@.subrange(from as int, v.len() as int);
        assert forall|k: int| 0 <= k < i - from implies #[trigger] t[k] != c by {
            assert(t[k] == v@[k + from]);
        }
        if i < v.len() {
            assert(t[i - from] == v@[i as int]);
        }
        lemma_find_char_at(t, c, i - from);
    }
    i
}

/// `str::split_once` on a character.
pub fn split_once_char(v: &[char], c: char) -> (r: Option<(Vec<char>, Vec<char>)>)
    ensures
        match r {
            Some((a, b)) => seq_split_once(v@, c) == Some((a@, b@)),
            None => seq_split_once(v@, c) is None,
        },
{
    let i = find_char_from(v, c, 0);
    assert(v@.subrange(0, v.len() as int) =~= v@);
    if i >= v.len() {
        None
    } else {
        let a = slice_chars(v, 0, i);
        let b = slice_chars(v, i + 1, v.len());
        Some((a, b))
    }
}

/// `str::split` on a character.
pub fn split_char(v: &[char], c: char) -> (r: Vec<Vec<char>>)
    ensures
        views(r@) == seq_split(v@, c),
{
    let mut out: Vec<Vec<char>> = Vec::new();
    let mut p: usize = 0;
    assert(v@.subrange(0, v.len() as int) =~= v@);
    assert(views(out@) =~= Seq::<Seq<char>>::empty());
    loop
        invariant
            p <= v.len(),
            views(out@) + seq_split(v@.subrange(p as int, v.len() as int), c) == seq_split(
                v@,
                c,
            ),
        decreases v.len() - p,
    {
        let ghost t = v@.subrange(p as int, v.len() as int);
        let i = find_char_from(v, c, p);
        let piece = slice_chars(v, p, i);
        proof {
            assert(t.subrange(0, i - p) =~= piece@);
        }
        if i >= v.len() {
            let ghost before = views(out@);
            out.push(piece);
            proof {
                assert(views(out@) =~= before + seq![piece@]);
            }
            return out;
        }
        let ghost before = views(out@);
        out.push(piece);
        proof {
            assert(views(out@) =~= before + seq![piece@]);
            assert(t.subrange(i - p + 1, t.len() as int) =~= v@.subrange(i + 1, v.len() as int));
            assert(seq_split(t, c) == seq![piece@] + seq_split(
                v@.subrange(i + 1, v.len() as int),
                c,
            ));
            assert(before + seq![piece@] + seq_split(v@.subrange(i + 1, v.len() as int), c)
                =~= before + (seq![piece@] + seq_split(v@.subrange(i + 1, v.len() as int), c)));
        }
        p = i + 1;
    }
}

/// `str::lines`.
pub fn lines(v: &[char]) -> (r: Vec<Vec<char>>)
    ensures
        views(r@) == seq_lines(v@),
{
    let mut out: Vec<Vec<char>> = Vec::new();
    let mut p: usize = 0;
    assert(v@.subrange(0, v.len() as int) =~= v@);
    assert(views(out@) =~= Seq::<Seq<char>>::empty());
    while p < v.len()
        invariant
            p <= v.len(),
            views(out@) + seq_lines(v@.subrange(p as int, v.len() as int)) == seq_lines(v@),
        decreases v.len() - p,
    {
        let ghost t = v@.subrange(p as int, v.len() as int);
        let i = find_char_from(v, '\n', p);
        if i >= v.len() {
            let piece = slice_chars(v, p, i);
            let ghost before = views(out@);
            out.push(piece);
            proof {
                assert(t =~= piece@);
                assert(views(out@) =~= before + seq![piece@]);
                assert(v@.subrange(v.len() as int, v.len() as int) =~= Seq::<char>::empty());
            }
            p = v.len();
        } else {
            let mut e = i;
            if e > p && v[e - 1] == '\r' {
                e = e - 1;
            }
            let piece = slice_chars(v, p, e);
            proof {
                assert(piece@ =~= strip_cr(t.subrange(0, i - p)));
            }
            let ghost before = views(out@);
            out.push(piece);
            proof {
                assert(views(out@) =~= before + seq![piece@]);
                assert(t.subrange(i - p + 1, t.len() as int) =~= v@.subrange(
                    i + 1,
                    v.len() as int,
                ));
                assert(before + seq![piece@] + seq_lines(v@.subrange(i + 1, v.len() as int))
                    =~= before + (seq![piece@] + seq_lines(
                    v@.subrange(i + 1, v.len() as int),
                )));
            }
            p = i + 1;
        }
    }
    proof {
        assert(v@.subrange(p as int, v.len() as int) =~= Seq::<char>::empty());
        assert(views(out@) + Seq::<Seq<char>>::empty() =~= views(out@));
    }
    out
}

/// Strips `p` from the front of `s` (`str::strip_prefix`).
pub fn strip_prefix(s: &[char], p: &[char]) -> (r: Option<Vec<char>>)
    ensures
        match r {
            Some(rest) => seq_starts_with(s@, p@) && rest@ == s@.subrange(
                p@.len() as int,
                s@.len() as int,
            ),
            None => !seq_starts_with(s@, p@),
        },
{
    if starts_with(s, p) {
        Some(slice_chars(s, p.len(), s.len()))
    } else {
        None
    }
}


/// Index of the first whitespace character of `s`, or `s.len()`.
pub open spec fn seq_find_ws(s: Seq<char>) -> int
    decreases s.len(),
{
    if s.len() == 0 {
        0
    } else if is_ws(s[0]) {
        0
    } else {
        1 + seq_find_ws(s.drop_first())
    }
}

pub proof fn lemma_find_ws_bound(s: Seq<char>)
    ensures
        0 <= seq_find_ws(s) <= s.len(),
        s.len() > 0 && !is_ws(s[0]) ==> seq_find_ws(s) >= 1,
    decreases s.len(),
{
    if s.len() > 0 && !is_ws(s[0]) {
        lemma_find_ws_bound(s.drop_first());
    }
}

proof fn lemma_find_ws_at(s: Seq<char>, j: int)
    requires
        0 <= j <= s.len(),
        forall|k: int| 0 <= k < j ==> !is_ws(#[trigger] s[k]),
        j == s.len() || is_ws(s[j]),
    ensures
        seq_find_ws(s) == j,
    decreases j,
{
    if j > 0 {
        let t = s.drop_first();
        assert forall|k: int| 0 <= k < j - 1 implies !is_ws(#[trigger] t[k]) by {
            assert(t[k] == s[k + 1]);
        }
        lemma_find_ws_at(t, j - 1);
    }
}

/// `str::split_whitespace`: the maximal runs of non-whitespace characters.
pub open spec fn seq_words(s: Seq<char>) -> Seq<Seq<char>>
    decreases s.len(),
{
    if s.len() == 0 {
        Seq::empty()
    } else if is_ws(s[0]) {
        seq_words(s.drop_first())
    } else {
        let j = seq_find_ws(s);
        proof {
            lemma_find_ws_bound(s);
        }
        seq![s.subrange(0, j)] + seq_words(s.subrange(j, s.len() as int))
    }
}

/// `str::split_whitespace`.
pub fn words(v: &[char]) -> (r: Vec<Vec<char>>)
    ensures
        views(r@) == seq_words(v@),
{
    let mut out: Vec<Vec<char>> = Vec::new();
    let mut p: usize = 0;
    assert(v@.subrange(0, v.len() as int) =~= v@);
    assert(views(out@) =~= Seq::<Seq<char>>::empty());
    while p < v.len()
        invariant
            p <= v.len(),
            views(out@) + seq_words(v@.subrange(p as int, v.len() as int)) == seq_words(v@),
        decreases v.len() - p,
    {
        let ghost t = v@.subrange(p as int, v.len() as int);
        if is_whitespace(v[p]) {
            assert(t.drop_first() =~= v@.subrange(p + 1, v.len() as int));
            p = p + 1;
        } else {
            let mut e = p + 1;
            while e < v.len() && !is_whitespace(v[e])
                invariant
                    p < e <= v.len(),
                    forall|k: int| p <= k < e ==> !is_ws(#[trigger] v@[k]),
                decreases v.len() - e,
            {
                e = e + 1;
            }
            proof {
                assert forall|k: int| 0 <= k < e - p implies !is_ws(#[trigger] t[k]) by {
                    assert(t[k] == v@[k + p]);
                }
                if e < v.len() {
                    assert(t[e - p] == v@[e as int]);
                }
                lemma_find_ws_at(t, e - p);
            }
            let piece = slice_chars(v, p, e);
            let ghost before = views(out@);
            out.push(piece);
            proof {
                assert(views(out@) =~= before + seq![piece@]);
                assert(t.subrange(0, e - p) =~= piece@);
                assert(t.subrange(e - p, t.len() as int) =~= v@.subrange(e as int, v.len() as int));
                assert(before + seq![piece@] + seq_words(v@.subrange(e as int, v.len() as int))
                    =~= before + (seq![piece@] + seq_words(
                    v@.subrange(e as int, v.len() as int),
                )));
            }
            p = e;
        }
    }
    proof {
        assert(v@.subrange(p as int, v.len() as int) =~= Seq::<char>::empty());
        assert(views(out@) + Seq::<Seq<char>>::empty() =~= views(out@));
    }
    out
}

/// Number of bytes of `c` in UTF-8.
pub open spec fn char_utf8_len(c: char) -> nat {
    let u = c as u32;
    if u < 0x80 {
        1
    } else if u < 0x800 {
        2
    } else if u < 0x10000 {
        3
    } else {
        4
    }
}

/// Number of bytes of `s` in UTF-8, as `str::len` counts them.
pub open spec fn seq_utf8_len(s: Seq<char>) -> nat
    decreases s.len(),
{
    if s.len() == 0 {
        0
    } else {
        seq_utf8_len(s.drop_last()) + char_utf8_len(s.last())
    }
}

pub proof fn lemma_utf8_len_bound(s: Seq<char>)
    ensures
        seq_utf8_len(s) <= 4 * s.len(),
    decreases s.len(),
{
    if s.len() > 0 {
        lemma_utf8_len_bound(s.drop_last());
    }
}

proof fn lemma_utf8_len_prefix(s: Seq<char>, i: int)
    requires
        0 <= i <= s.len(),
    ensures
        seq_utf8_len(s.take(i)) <= seq_utf8_len(s),
    decreases s.len(),
{
    if i == s.len() {
        assert(s.take(i) =~= s);
    } else {
        lemma_utf8_len_prefix(s.drop_last(), i);
        assert(s.drop_last().take(i) =~= s.take(i));
    }
}

/// Whether `v` takes fewer than `k` bytes in UTF-8 (`str::len() < k`).
pub fn utf8_len_below(v: &[char], k: usize) -> (r: bool)
    requires
        k < usize::MAX - 4,
    ensures
        r == (seq_utf8_len(v@) < k),
{
    let mut total: usize = 0;
    let mut i: usize = 0;
    while i < v.len() && total < k
        invariant
            i <= v.len(),
            k < usize::MAX - 4,
            total == seq_utf8_len(v@.take(i as int)),
            total < k + 4,
        decreases v.len() - i,
    {
        proof {
            assert(v@.take(i + 1).drop_last() =~= v@.take(i as int));
        }
        let u = v[i] as u32;
        let w: usize = if u < 0x80 {
            1
        } else if u < 0x800 {
            2
        } else if u < 0x10000 {
            3
        } else {
            4
        };
        total = total + w;
        i = i + 1;
    }
    proof {
        lemma_utf8_len_prefix(v@, i as int);
        if i == v.len() {
            assert(v@.take(i as int) =~= v@);
        }
    }
    total < k
}

/// The UTF-8 length of `v[..n]`.
pub fn utf8_len(v: &[char], n: usize) -> (r: usize)
    requires
        n <= v.len(),
        v.len() <= usize::MAX / 4,
    ensures
        r == seq_utf8_len(v@.take(n as int)),
{
    let mut total: usize = 0;
    let mut i: usize = 0;
    while i < n
        invariant
            i <= n <= v.len() <= usize::MAX / 4,
            total == seq_utf8_len(v@.take(i as int)),
        decreases n - i,
    {
        proof {
            lemma_utf8_len_bound(v@.take(i as int));
            assert(v@.take(i + 1).drop_last() =~= v@.take(i as int));
        }
        let u = v[i] as u32;
        let w: usize = if u < 0x80 {
            1
        } else if u < 0x800 {
            2
        } else if u < 0x10000 {
            3
        } else {
            4
        };
        total = total + w;
        i = i + 1;
    }
    total
}

/// Whether two strings are equal when ASCII letters are compared without
/// case (`str::eq_ignore_ascii_case`).
pub fn eq_ignore_ascii_case(a: &[char], b: &[char]) -> (r: bool)
    ensures
        r == (seq_ascii_lower(a@) == seq_ascii_lower(b@)),
{
    let x = ascii_lowercase_chars(a);
    let y = ascii_lowercase_chars(b);
    chars_eq(x.as_slice(), y.as_slice())
}


/// Index of the first occurrence of `n` in `h`, or `h.len()` where there is
/// none.
pub open spec fn seq_find_sub(h: Seq<char>, n: Seq<char>) -> int
    decreases h.len(),
{
    if h.len() < n.len() {
        h.len() as int
    } else if occurs_at(h, n, 0) {
        0
    } else if h.len() == 0 {
        0
    } else {
        1 + seq_find_sub(h.drop_first(), n)
    }
}

proof fn lemma_occurs_shift(h: Seq<char>, n: Seq<char>, k: int)
    requires
        h.len() > 0,
        k >= 1,
    ensures
        occurs_at(h, n, k) == occurs_at(h.drop_first(), n, k - 1),
{
    if k + n.len() <= h.len() {
        assert(h.drop_first().subrange(k - 1, k - 1 + n.len()) =~= h.subrange(k, k + n.len()));
    }
}

pub proof fn lemma_find_sub_found(h: Seq<char>, n: Seq<char>, j: int)
    requires
        0 <= j,
        occurs_at(h, n, j),
        forall|k: int| 0 <= k < j ==> !occurs_at(h, n, k),
    ensures
        seq_find_sub(h, n) == j,
    decreases j,
{
    if j > 0 {
        let t = h.drop_first();
        assert(!occurs_at(h, n, 0));
        lemma_occurs_shift(h, n, j);
        assert forall|k: int| 0 <= k < j - 1 implies !occurs_at(t, n, k) by {
            lemma_occurs_shift(h, n, k + 1);
        }
        lemma_find_sub_found(t, n, j - 1);
    }
}

pub proof fn lemma_find_sub_none(h: Seq<char>, n: Seq<char>)
    requires
        n.len() > 0,
        forall|k: int| 0 <= k ==> !occurs_at(h, n, k),
    ensures
        seq_find_sub(h, n) == h.len(),
    decreases h.len(),
{
    if h.len() >= n.len() {
        let t = h.drop_first();
        assert forall|k: int| 0 <= k implies !occurs_at(t, n, k) by {
            lemma_occurs_shift(h, n, k + 1);
        }
        lemma_find_sub_none(t, n);
    }
}

pub proof fn lemma_find_sub_bound(h: Seq<char>, n: Seq<char>)
    requires
        n.len() > 0,
    ensures
        0 <= seq_find_sub(h, n) <= h.len(),
        seq_find_sub(h, n) + n.len() <= h.len() ==> occurs_at(h, n, seq_find_sub(h, n)),
        seq_find_sub(h, n) + n.len() > h.len() ==> seq_find_sub(h, n) == h.len(),
    decreases h.len(),
{
    if h.len() >= n.len() && !occurs_at(h, n, 0) {
        let t = h.drop_first();
        lemma_find_sub_bound(t, n);
        let i = seq_find_sub(t, n);
        if i + n.len() <= t.len() {
            lemma_occurs_shift(h, n, i + 1);
        }
    }
}

/// `str::replace`: every non-overlapping occurrence of `from`, left to right,
/// replaced by `to`.
pub open spec fn seq_replace(s: Seq<char>, from: Seq<char>, to: Seq<char>) -> Seq<char>
    decreases s.len(),
{
    if from.len() == 0 {
        s
    } else {
        let i = seq_find_sub(s, from);
        if i + from.len() > s.len() {
            s
        } else {
            proof {
                lemma_find_sub_bound(s, from);
            }
            s.subrange(0, i) + to + seq_replace(
                s.subrange(i + from.len(), s.len() as int),
                from,
                to,
            )
        }
    }
}

/// The position of the first occurrence of `n` in `h` at or after `start`,
/// or `h.len()`.
pub fn find_sub_from(h: &[char], n: &[char], start: usize) -> (r: usize)
    requires
        start <= h.len(),
        n.len() > 0,
    ensures
        r == start + seq_find_sub(h@.subrange(start as int, h.len() as int), n@),
{
    let ghost t = h@.subrange(start as int, h.len() as int);
    let mut i = start;
    while i < h.len() && n.len() <= h.len() - i && !occurs_at_exec(h, n, i)
        invariant
            start <= i <= h.len(),
            n.len() > 0,
            forall|k: int| start <= k < i ==> !occurs_at(h@, n@, k),
        decreases h.len() - i,
    {
        i = i + 1;
    }
    proof {
        assert forall|k: int| 0 <= k && k + start < h.len() + 1 implies occurs_at(t, n@, k)
            == occurs_at(h@, n@, k + start) by {
            if k + n@.len() <= t.len() {
                assert(t.subrange(k, k + n@.len()) =~= h@.subrange(
                    k + start,
                    k + start + n@.len(),
                ));
            }
        }
    }
    if i < h.len() && n.len() <= h.len() - i {
        proof {
            lemma_find_sub_found(t, n@, i - start);
        }
        i
    } else {
        proof {
            assert forall|k: int| 0 <= k implies !occurs_at(t, n@, k) by {
                if k + start < h.len() + 1 {
                } else {
                }
            }
            lemma_find_sub_none(t, n@);
        }
        h.len()
    }
}

/// `str::replace` for a nonempty pattern.
pub fn replace_all(s: &[char], from: &[char], to: &[char]) -> (r: Vec<char>)
    requires
        from.len() > 0,
    ensures
        r@ == seq_replace(s@, from@, to@),
{
    let mut out: Vec<char> = Vec::new();
    let mut p: usize = 0;
    assert(s@.subrange(0, s.len() as int) =~= s@);
    loop
        invariant
            p <= s.len(),
            from.len() > 0,
            out@ + seq_replace(s@.subrange(p as int, s.len() as int), from@, to@) == seq_replace(
                s@,
                from@,
                to@,
            ),
        decreases s.len() - p,
    {
        let ghost t = s@.subrange(p as int, s.len() as int);
        let i = find_sub_from(s, from, p);
        proof {
            lemma_find_sub_bound(t, from@);
        }
        if i >= s.len() || from.len() > s.len() - i {
            let mut k = p;
            let ghost before = out@;
            while k < s.len()
                invariant
                    p <= k <= s.len(),
                    out@ == before + s@.subrange(p as int, k as int),
                decreases s.len() - k,
            {
                out.push(s[k]);
                assert(s@.subrange(p as int, k as int).push(s@[k as int]) =~= s@.subrange(
                    p as int,
                    k + 1,
                ));
                k = k + 1;
            }
            return out;
        }
        let ghost before = out@;
        let mut k = p;
        while k < i
            invariant
                p <= k <= i < s.len(),
                out@ == before + s@.subrange(p as int, k as int),
            decreases i - k,
        {
            out.push(s[k]);
            assert(s@.subrange(p as int, k as int).push(s@[k as int]) =~= s@.subrange(
                p as int,
                k + 1,
            ));
            k = k + 1;
        }
        let mut m: usize = 0;
        let ghost mid = out@;
        while m < to.len()
            invariant
                m <= to.len(),
                out@ == mid + to@.take(m as int),
            decreases to.len() - m,
        {
            out.push(to[m]);
            assert(to@.take(m as int).push(to@[m as int]) =~= to@.take(m + 1));
            m = m + 1;
        }
        proof {
            assert(to@.take(to.len() as int) =~= to@);
            assert(t.subrange(0, i - p) =~= s@.subrange(p as int, i as int));
            assert(t.subrange(i - p + from@.len(), t.len() as int) =~= s@.subrange(
                i + from@.len(),
                s.len() as int,
            ));
            assert(out@ + seq_replace(s@.subrange(i + from@.len(), s.len() as int), from@, to@)
                =~= before + seq_replace(t, from@, to@));
        }
        p = i + from.len();
    }
}

/// `[T]::join` on strings: the pieces with `sep` between each two.
pub open spec fn seq_join(pieces: Seq<Seq<char>>, sep: Seq<char>) -> Seq<char>
    decreases pieces.len(),
{
    if pieces.len() == 0 {
        Seq::empty()
    } else if pieces.len() == 1 {
        pieces[0]
    } else {
        seq_join(pieces.drop_last(), sep) + sep + pieces.last()
    }
}

/// Joins pieces with a separator.
pub fn join(pieces: &Vec<Vec<char>>, sep: &[char]) -> (r: Vec<char>)
    ensures
        r@ == seq_join(views(pieces@), sep@),
{
    let mut out: Vec<char> = Vec::new();
    let mut i: usize = 0;
    while i < pieces.len()
        invariant
            i <= pieces.len(),
            out@ == seq_join(views(pieces@).take(i as int), sep@),
        decreases pieces.len() - i,
    {
        let ghost before = out@;
        proof {
            let vs = views(pieces@);
            assert(vs.take(i + 1).drop_last() =~= vs.take(i as int));
            assert(vs.take(i + 1).last() == pieces@[i as int]@);
            if i == 0 {
                assert(vs.take(1) =~= seq![pieces@[0]@]);
            }
        }
        if i > 0 {
            let mut m: usize = 0;
            while m < sep.len()
                invariant
                    m <= sep.len(),
                    out@ == before + sep@.take(m as int),
                decreases sep.len() - m,
            {
                out.push(sep[m]);
                assert(sep@.take(m as int).push(sep@[m as int]) =~= sep@.take(m + 1));
                m = m + 1;
            }
            assert(sep@.take(sep.len() as int) =~= sep@);
        }
        let ghost mid = out@;
        let piece = &pieces[i];
        let mut m: usize = 0;
        while m < piece.len()
            invariant
                m <= piece.len(),
                out@ == mid + piece@.take(m as int),
            decreases piece.len() - m,
        {
            out.push(piece[m]);
            assert(piece@.take(m as int).push(piece@[m as int]) =~= piece@.take(m + 1));
            m = m + 1;
        }
        proof {
            assert(piece@.take(piece.len() as int) =~= piece@);
        }
        i = i + 1;
    }
    proof {
        assert(views(pieces@).take(pieces.len() as int) =~= views(pieces@));
    }
    out
}


/// The text of an optional string.
pub open spec fn opt_view(o: Option<String>) -> Option<Seq<char>> {
    match o {
        Some(s) => Some(s@),
        None => None,
    }
}

/// A copy of an optional string.
pub fn clone_opt(o: &Option<String>) -> (r: Option<String>)
    ensures
        r == *o,
{
    match o {
        Some(s) => Some(s.clone()),
        None => None,
    }
}

/// The string held by `o`, or `default` (`o.clone().or(Some(default))`).
pub fn opt_or(o: &Option<String>, default: &str) -> (r: Option<String>)
    ensures
        opt_view(r) == Some(
            match o {
                Some(s) => s@,
                None => default@,
            },
        ),
{
    match o {
        Some(s) => Some(s.clone()),
        None => Some(String::from_str(default)),
    }
}

/// `a` followed by `b`.
pub fn cat(a: &str, b: &str) -> (r: String)
    ensures
        r@ == a@ + b@,
{
    let mut s = String::from_str(a);
    s.append(b);
    s
}

/// `a`, `b` and `c` one after another.
pub fn cat3(a: &str, b: &str, c: &str) -> (r: String)
    ensures
        r@ == a@ + b@ + c@,
{
    let mut s = String::from_str(a);
    s.append(b);
    s.append(c);
    s
}

/// The five strings one after another.
pub fn cat5(a: &str, b: &str, c: &str, d: &str, e: &str) -> (r: String)
    ensures
        r@ == a@ + b@ + c@ + d@ + e@,
{
    let mut s = String::from_str(a);
    s.append(b);
    s.append(c);
    s.append(d);
    s.append(e);
    s
}

/// The decimal digit of `d` (0 to 9).
pub open spec fn digit_char(d: nat) -> char {
    if d == 0 {
        '0'
    } else if d == 1 {
        '1'
    } else if d == 2 {
        '2'
    } else if d == 3 {
        '3'
    } else if d == 4 {
        '4'
    } else if d == 5 {
        '5'
    } else if d == 6 {
        '6'
    } else if d == 7 {
        '7'
    } else if d == 8 {
        '8'
    } else {
        '9'
    }
}

/// `n` written in decimal, as `format!("{n}")` writes it.
pub open spec fn decimal_text(n: nat) -> Seq<char>
    decreases n,
{
    if n < 10 {
        seq![digit_char(n)]
    } else {
        decimal_text(n / 10).push(digit_char(n % 10))
    }
}

fn digit(d: u64) -> (r: char)
    requires
        d < 10,
    ensures
        r == digit_char(d as nat),
{
    if d == 0 {
        '0'
    } else if d == 1 {
        '1'
    } else if d == 2 {
        '2'
    } else if d == 3 {
        '3'
    } else if d == 4 {
        '4'
    } else if d == 5 {
        '5'
    } else if d == 6 {
        '6'
    } else if d == 7 {
        '7'
    } else if d == 8 {
        '8'
    } else {
        '9'
    }
}

/// `n` written in decimal (see `decimal_text`).
pub fn decimal(n: u64) -> (r: String)
    ensures
        r@ == decimal_text(n as nat),
    decreases n,
{
    if n < 10 {
        let mut s = String::new();
        push_char(&mut s, digit(n));
        assert(s@ =~= seq![digit_char(n as nat)]);
        s
    } else {
        let mut s = decimal(n / 10);
        push_char(&mut s, digit(n % 10));
        s
    }
}

/// The lowercase hexadecimal digit of `d` (0 to 15).
pub open spec fn hex_digit_char(d: nat) -> char {
    if d < 10 {
        digit_char(d)
    } else if d == 10 {
        'a'
    } else if d == 11 {
        'b'
    } else if d == 12 {
        'c'
    } else if d == 13 {
        'd'
    } else if d == 14 {
        'e'
    } else {
        'f'
    }
}

/// `n` in lowercase hexadecimal, as `format!("{n:x}")` writes it.
pub open spec fn hex_text(n: nat) -> Seq<char>
    decreases n,
{
    if n < 16 {
        seq![hex_digit_char(n)]
    } else {
        hex_text(n / 16).push(hex_digit_char(n % 16))
    }
}

fn hex_digit(d: u64) -> (r: char)
    requires
        d < 16,
    ensures
        r == hex_digit_char(d as nat),
{
    if d < 10 {
        digit(d)
    } else if d == 10 {
        'a'
    } else if d == 11 {
        'b'
    } else if d == 12 {
        'c'
    } else if d == 13 {
        'd'
    } else if d == 14 {
        'e'
    } else {
        'f'
    }
}

/// `n` in lowercase hexadecimal (see `hex_text`).
pub fn hex(n: u64) -> (r: String)
    ensures
        r@ == hex_text(n as nat),
    decreases n,
{
    if n < 16 {
        let mut s = String::new();
        push_char(&mut s, hex_digit(n));
        assert(s@ =~= seq![hex_digit_char(n as nat)]);
        s
    } else {
        let mut s = hex(n / 16);
        push_char(&mut s, hex_digit(n % 16));
        s
    }
}

/// `n` written in decimal with a leading `-` when negative, as
/// `format!("{n}")` writes it.
pub open spec fn signed_decimal_text(n: int) -> Seq<char> {
    if n < 0 {
        seq!['-'] + decimal_text((-n) as nat)
    } else {
        decimal_text(n as nat)
    }
}

/// `n` written in decimal (see `signed_decimal_text`).
pub fn signed_decimal(n: i64) -> (r: String)
    ensures
        r@ == signed_decimal_text(n as int),
{
    if n < 0 {
        let m: u64 = if n == i64::MIN {
            9223372036854775808u64
        } else {
            (-n) as u64
        };
        let mut s = String::new();
        push_char(&mut s, '-');
        let d = decimal(m);
        s.append(d.as_str());
        assert(s@ =~= seq!['-'] + decimal_text((-(n as int)) as nat));
        s
    } else {
        decimal(n as u64)
    }
}

} // verus!
