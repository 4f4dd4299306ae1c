//! Searching the web: the result that offers it, and the address of the
//! search on the chosen engine.

use vstd::prelude::*;
use crate::search::match_highlight::{compute_match_ranges, match_ranges_of};
use crate::search::ranking::ResultView;
use crate::search::types::{make_id, result_id, ResultKind, SearchResult};
use crate::text::{cat, cat3, push_char, seq_trim, seq_utf8_len, str_eq, string_of, trimmed_chars, utf8_len_below};

verus! {

/// The title of the web-search result for `q`.
pub open spec fn web_title(q: Seq<char>) -> Seq<char> {
    "Pesquisar \""@ + q + "\" na web"@
}

/// The web-search result for a query: none when the trimmed query is
/// shorter than two bytes; else a result with score 1 (2000 units), the
/// engine's label as subtitle and the query highlighted in its title.
pub open spec fn web_result(query: Seq<char>, label: Seq<char>) -> Option<ResultView> {
    let q = seq_trim(query);
    if seq_utf8_len(q) < 2 {
        None
    } else {
        Some(
            ResultView {
                id: result_id(ResultKind::Web, q),
                kind: ResultKind::Web,
                title: web_title(q),
                subtitle: Some(label),
                icon: Some("web-browser"@),
                score: 2000,
                match_ranges: match_ranges_of(web_title(q), q),
            },
        )
    }
}

/// The web-search result for a query, with the label of the configured
/// engine (see `web_result`).
pub fn search_web(query: &str, engine_label: &str) -> (r: Option<SearchResult>)
    ensures
        match r {
            Some(x) => web_result(query@, engine_label@) == Some(x@),
            None => web_result(query@, engine_label@) is None,
        },
{
    let qv = trimmed_chars(query);
    if utf8_len_below(qv.as_slice(), 2) {
        return None;
    }
    let q = string_of(qv.as_slice());
    let title = cat3("Pesquisar \"", q.as_str(), "\" na web");
    let ranges = compute_match_ranges(title.as_str(), q.as_str());
    Some(
        SearchResult {
            id: make_id(ResultKind::Web, q.as_str()),
            kind: ResultKind::Web,
            title,
            subtitle: Some(String::from_str(engine_label)),
            icon: Some(String::from_str("web-browser")),
            score: 2000,
            match_ranges: ranges,
        },
    )
}

/// The uppercase hexadecimal digit of `d` (0 to 15).
pub open spec fn hex_digit(d: int) -> char {
    if d == 0 {
        '0'
    } else if d == 1 {
        '1'
    } else if d == 2 {
        '2'
    } else if d == 3 {
        '3'
    } else if d == 4 {
        '4'
    } else if d == 5 {
        '5'
    } else if d == 6 {
        '6'
    } else if d == 7 {
        '7'
    } else if d == 8 {
        '8'
    } else if d == 9 {
        '9'
    } else if d == 10 {
        'A'
    } else if d == 11 {
        'B'
    } else if d == 12 {
        'C'
    } else if d == 13 {
        'D'
    } else if d == 14 {
        'E'
    } else {
        'F'
    }
}

/// Whether `c` stays as it is in a query string: an ASCII letter or
/// digit, or one of `-._~`.
pub open spec fn unreserved(c: char) -> bool {
    ('a' <= c && c <= 'z') || ('A' <= c && c <= 'Z') || ('0' <= c && c <= '9') || c == '-' || c
        == '.' || c == '_' || c == '~'
}

/// How a character is written in the query string: a space as `+`, an
/// unreserved character as itself, anything else as `%` and two uppercase
/// hex digits of its low byte (`c as u8`).
pub open spec fn encode_char(c: char) -> Seq<char> {
    if c == ' ' {
        seq!['+']
    } else if unreserved(c) {
        seq![c]
    } else {
        let b = (c as u32) as int % 256;
        seq!['%', hex_digit(b / 16), hex_digit(b % 16)]
    }
}

/// A query written for a query string.
pub open spec fn encode_query(q: Seq<char>) -> Seq<char>
    decreases q.len(),
{
    if q.len() == 0 {
        Seq::empty()
    } else {
        encode_query(q.drop_last()) + encode_char(q.last())
    }
}

/// The address of a search: DuckDuckGo, Bing, or else Google.
pub open spec fn search_url_spec(query: Seq<char>, engine: Seq<char>) -> Seq<char> {
    let e = encode_query(query);
    if engine == "duckduckgo"@ {
        "https://duckduckgo.com/?q="@ + e
    } else if engine == "bing"@ {
        "https://www.bing.com/search?q="@ + e
    } else {
        "https://www.google.com/search?q="@ + e
    }
}

fn hex_char(d: u32) -> (r: char)
    requires
        d < 16,
    ensures
        r == hex_digit(d as int),
{
    if d == 0 {
        '0'
    } else if d == 1 {
        '1'
    } else if d == 2 {
        '2'
    } else if d == 3 {
        '3'
    } else if d == 4 {
        '4'
    } else if d == 5 {
        '5'
    } else if d == 6 {
        '6'
    } else if d == 7 {
        '7'
    } else if d == 8 {
        '8'
    } else if d == 9 {
        '9'
    } else if d == 10 {
        'A'
    } else if d == 11 {
        'B'
    } else if d == 12 {
        'C'
    } else if d == 13 {
        'D'
    } else if d == 14 {
        'E'
    } else {
        'F'
    }
}

/// The query written for a query string (see `encode_query`).
pub fn encode(query: &str) -> (r: String)
    ensures
        r@ == encode_query(query@),
{
    let cs = crate::text::chars_of(query);
    let mut out = String::new();
    let mut i: usize = 0;
    while i < cs.len()
        invariant
            i <= cs@.len(),
            cs@ == query@,
            out@ == encode_query(cs@.take(i as int)),
        decreases cs.len() - i,
    {
        let c = cs[i];
        proof {
            assert(cs@.take(i + 1).drop_last() =~= cs@.take(i as int));
            assert(cs@.take(i + 1).last() == c);
        }
        let ghost before = out@;
        if c == ' ' {
            push_char(&mut out, '+');
        } else if ('a' <= c && c <= 'z') || ('A' <= c && c <= 'Z') || ('0' <= c && c <= '9') || c
            == '-' || c == '.' || c == '_' || c == '~' {
            push_char(&mut out, c);
        } else {
            let b = (c as u32) % 256;
            push_char(&mut out, '%');
            push_char(&mut out, hex_char(b / 16));
            push_char(&mut out, hex_char(b % 16));
            assert(out@ =~= before + encode_char(c));
        }
        i = i + 1;
    }
    assert(cs@.take(i as int) =~= cs@);
    out
}

/// The address of a search for `query` on `engine` (see `search_url_spec`).
pub fn search_url(query: &str, engine: &str) -> (r: String)
    ensures
        r@ == search_url_spec(query@, engine@),
{
    let e = encode(query);
    if str_eq(engine, "duckduckgo") {
        cat("https://duckduckgo.com/?q=", e.as_str())
    } else if str_eq(engine, "bing") {
        cat("https://www.bing.com/search?q=", e.as_str())
    } else {
        cat("https://www.google.com/search?q=", e.as_str())
    }
}

/// The label of an engine.
pub open spec fn engine_label_of(engine: Seq<char>) -> Seq<char> {
    if engine == "duckduckgo"@ {
        "DuckDuckGo"@
    } else if engine == "bing"@ {
        "Bing"@
    } else {
        "Google"@
    }
}

/// The label of an engine (see `engine_label_of`).
pub fn engine_label(engine: &str) -> (r: String)
    ensures
        r@ == engine_label_of(engine@),
{
    if str_eq(engine, "duckduckgo") {
        String::from_str("DuckDuckGo")
    } else if str_eq(engine, "bing") {
        String::from_str("Bing")
    } else {
        String::from_str("Google")
    }
}

/// The characters an encoded query is made of: unreserved ones, `+` for
/// spaces and `%` before two hexadecimal digits.
pub open spec fn url_safe(c: char) -> bool {
    unreserved(c) || c == '+' || c == '%'
}

/// An encoded query is safe to put in a query string: it holds no space,
/// `&`, `=`, `#` or `?`, only characters that `url_safe` allows; and it is
/// at least as long as the query.
pub proof fn lemma_encoded_query_safe(q: Seq<char>)
    ensures
        forall|k: int| 0 <= k < encode_query(q).len() ==> url_safe(#[trigger] encode_query(q)[k]),
        encode_query(q).len() >= q.len(),
    decreases q.len(),
{
    if q.len() > 0 {
        lemma_encoded_query_safe(q.drop_last());
        let a = encode_query(q.drop_last());
        let b = encode_char(q.last());
        assert forall|k: int| 0 <= k < b.len() implies url_safe(#[trigger] b[k]) by {
            let c = q.last();
            if c != ' ' && !unreserved(c) {
                let v = (c as u32) as int % 256;
                assert(0 <= v / 16 < 16);
                assert(0 <= v % 16 < 16);
            }
        }
        assert forall|k: int| 0 <= k < (a + b).len() implies url_safe(#[trigger] (a + b)[k]) by {
            if k < a.len() {
                assert((a + b)[k] == a[k]);
            } else {
                assert((a + b)[k] == b[k - a.len()]);
            }
        }
    }
}

/// The value of a hexadecimal digit, upper or lower case.
pub open spec fn hex_value(c: char) -> Option<int> {
    if '0' <= c && c <= '9' {
        Some((c as u32) as int - ('0' as u32) as int)
    } else if 'A' <= c && c <= 'F' {
        Some((c as u32) as int - ('A' as u32) as int + 10)
    } else if 'a' <= c && c <= 'f' {
        Some((c as u32) as int - ('a' as u32) as int + 10)
    } else {
        None
    }
}

/// The byte values a search engine reads from a query string: `+` is a
/// space, `%` and two hexadecimal digits are the byte they spell, and any
/// other character stands for itself.
pub open spec fn form_decode(s: Seq<char>) -> Seq<int>
    decreases s.len(),
{
    if s.len() == 0 {
        Seq::empty()
    } else if s[0] == '+' {
        seq![(' ' as u32) as int] + form_decode(s.drop_first())
    } else if s[0] == '%' && s.len() >= 3 && hex_value(s[1]) is Some && hex_value(s[2]) is Some {
        seq![16 * hex_value(s[1]).unwrap() + hex_value(s[2]).unwrap()] + form_decode(
            s.subrange(3, s.len() as int),
        )
    } else {
        seq![(s[0] as u32) as int] + form_decode(s.drop_first())
    }
}

/// Whether every character of `q` is ASCII.
pub open spec fn is_ascii_text(q: Seq<char>) -> bool {
    forall|k: int| 0 <= k < q.len() ==> (#[trigger] q[k] as u32) < 128
}

/// The code points of `q`.
pub open spec fn code_points(q: Seq<char>) -> Seq<int> {
    q.map_values(|c: char| (c as u32) as int)
}

proof fn lemma_hex_value(d: int)
    requires
        0 <= d < 16,
    ensures
        hex_value(hex_digit(d)) == Some(d),
{
}

proof fn lemma_decode_char(c: char, s: Seq<char>)
    requires
        (c as u32) < 128,
    ensures
        form_decode(encode_char(c) + s) == seq![(c as u32) as int] + form_decode(s),
{
    let e = encode_char(c) + s;
    if c == ' ' {
        assert(e[0] == '+');
        assert(e.drop_first() =~= s);
    } else if unreserved(c) {
        assert(e[0] == c);
        assert(e.drop_first() =~= s);
    } else {
        let b = (c as u32) as int % 256;
        assert(b == (c as u32) as int);
        lemma_hex_value(b / 16);
        lemma_hex_value(b % 16);
        assert(e[0] == '%' && e[1] == hex_digit(b / 16) && e[2] == hex_digit(b % 16));
        assert(e.subrange(3, e.len() as int) =~= s);
        assert(16 * (b / 16) + b % 16 == b);
    }
}

proof fn lemma_decode_prefix(q: Seq<char>, s: Seq<char>)
    requires
        is_ascii_text(q),
    ensures
        form_decode(encode_query(q) + s) == code_points(q) + form_decode(s),
    decreases q.len(),
{
    if q.len() == 0 {
        assert(encode_query(q) + s =~= s);
        assert(code_points(q) + form_decode(s) =~= form_decode(s));
    } else {
        let p = q.drop_last();
        let c = q.last();
        assert((c as u32) < 128);
        assert(is_ascii_text(p));
        assert(encode_query(q) + s =~= encode_query(p) + (encode_char(c) + s));
        lemma_decode_prefix(p, encode_char(c) + s);
        lemma_decode_char(c, s);
        assert(code_points(q) =~= code_points(p) + seq![(c as u32) as int]);
        assert(code_points(p) + (seq![(c as u32) as int] + form_decode(s)) =~= code_points(q)
            + form_decode(s));
    }
}

/// An encoded query reads back as the query: decoded as a query string
/// (`+` a space, `%XX` a byte), the encoding of an ASCII query gives the
/// query's characters again, so no two ASCII queries share an encoding and
/// a `+` or `%` in the query is never read as a space or an escape.
pub proof fn lemma_encoded_query_decodes(q: Seq<char>)
    requires
        is_ascii_text(q),
    ensures
        form_decode(encode_query(q)) == code_points(q),
{
    lemma_decode_prefix(q, Seq::empty());
    assert(encode_query(q) + Seq::<char>::empty() =~= encode_query(q));
    assert(form_decode(Seq::<char>::empty()) =~= Seq::<int>::empty());
    assert(code_points(q) + Seq::<int>::empty() =~= code_points(q));
}

} // verus!
