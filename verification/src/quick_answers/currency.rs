//! Currency conversions: "15 usd to brl", "15 dolares para reais". The
//! query is read here; the rate and the arithmetic are the caller's.

use vstd::prelude::*;
use crate::matchers::{group, regex_captures, regex_captures_of};
use crate::quick_answers::amount::{decimal_ok, is_decimal, replace_char, replace_char_spec};
use crate::quick_answers::QuickAnswer;
use crate::text::{
    cat, cat3, chars_eq, chars_of, lowercase, opt_view, seq_trim, string_of, to_lowercase,
    to_uppercase, trimmed_chars, uppercase,
};

verus! {

/// A conversion asked for: the amount as decimal text (commas read as
/// dots) and the two currency codes.
#[derive(Clone, Debug)]
pub struct CurrencyRequest {
    pub amount: String,
    pub from: String,
    pub to: String,
}

/// The text of a request.
pub struct CurrencyView {
    pub amount: Seq<char>,
    pub from: Seq<char>,
    pub to: Seq<char>,
}

impl View for CurrencyRequest {
    type V = CurrencyView;

    open spec fn view(&self) -> CurrencyView {
        CurrencyView { amount: self.amount@, from: self.from@, to: self.to@ }
    }
}

/// The request's view, if any.
pub open spec fn opt_request(r: Option<CurrencyRequest>) -> Option<CurrencyView> {
    match r {
        Some(x) => Some(x@),
        None => None,
    }
}

/// Capture group `i`, if it took part in the match.
pub open spec fn cap(caps: Seq<Option<Seq<char>>>, i: int) -> Option<Seq<char>> {
    if 0 <= i < caps.len() {
        caps[i]
    } else {
        None
    }
}

/// The amount text of a raw amount: commas become dots; `None` when that is
/// no decimal number.
pub open spec fn amount_of(raw: Seq<char>) -> Option<Seq<char>> {
    let n = replace_char_spec(raw, ',', '.');
    if is_decimal(n) {
        Some(n)
    } else {
        None
    }
}

/// The currency names and their codes.
pub open spec fn currency_names() -> Seq<(Seq<char>, Seq<char>)> {
    seq![
        ("usd"@, "USD"@),
        ("us$"@, "USD"@),
        ("dolar"@, "USD"@),
        ("dolares"@, "USD"@),
        ("dollar"@, "USD"@),
        ("dollars"@, "USD"@),
        ("dolar americano"@, "USD"@),
        ("dolares americanos"@, "USD"@),
        ("brl"@, "BRL"@),
        ("r$"@, "BRL"@),
        ("real"@, "BRL"@),
        ("reais"@, "BRL"@),
        ("real brasileiro"@, "BRL"@),
        ("reais brasileiros"@, "BRL"@),
        ("eur"@, "EUR"@),
        ("euro"@, "EUR"@),
        ("euros"@, "EUR"@),
        ("gbp"@, "GBP"@),
        ("libra"@, "GBP"@),
        ("libras"@, "GBP"@),
        ("pound"@, "GBP"@),
        ("pounds"@, "GBP"@),
        ("libra esterlina"@, "GBP"@),
        ("jpy"@, "JPY"@),
        ("iene"@, "JPY"@),
        ("ienes"@, "JPY"@),
        ("yen"@, "JPY"@),
        ("cad"@, "CAD"@),
        ("dolar canadense"@, "CAD"@),
        ("dolares canadenses"@, "CAD"@),
        ("aud"@, "AUD"@),
        ("dolar australiano"@, "AUD"@),
        ("dolares australianes"@, "AUD"@),
        ("chf"@, "CHF"@),
        ("franco suico"@, "CHF"@),
        ("francos suicos"@, "CHF"@),
        ("cny"@, "CNY"@),
        ("yuan"@, "CNY"@),
        ("yuans"@, "CNY"@),
        ("ars"@, "ARS"@),
        ("peso argentino"@, "ARS"@),
        ("pesos argentinos"@, "ARS"@),
        ("mxn"@, "MXN"@),
        ("peso mexicano"@, "MXN"@),
        ("pesos mexicanos"@, "MXN"@)
    ]
}

/// The code of the first name equal to `t`.
pub open spec fn code_for(names: Seq<(Seq<char>, Seq<char>)>, t: Seq<char>) -> Option<Seq<char>>
    decreases names.len(),
{
    if names.len() == 0 {
        None
    } else if names[0].0 == t {
        Some(names[0].1)
    } else {
        code_for(names.drop_first(), t)
    }
}

/// `c` without its accent, for the accented letters of Portuguese currency
/// names.
pub open spec fn plain_letter(c: char) -> char {
    if c == 'ó' {
        'o'
    } else if c == 'á' {
        'a'
    } else if c == 'é' {
        'e'
    } else if c == 'í' {
        'i'
    } else if c == 'ú' {
        'u'
    } else if c == 'ç' {
        'c'
    } else {
        c
    }
}

/// `s` without the accents of `plain_letter`.
pub open spec fn plain_text(s: Seq<char>) -> Seq<char> {
    s.map_values(|c: char| plain_letter(c))
}

/// Whether `t` is three ASCII letters.
pub open spec fn is_three_letters(t: Seq<char>) -> bool {
    t.len() == 3 && forall|k: int|
        0 <= k < 3 ==> ('a' <= #[trigger] t[k] && t[k] <= 'z') || ('A' <= t[k] && t[k] <= 'Z')
}

/// The currency a token names: the trimmed, lowercase token without
/// accents is looked up among the names; three ASCII letters are taken as a
/// code, in upper case; anything else names none.
pub open spec fn resolve_currency_spec(token: Seq<char>) -> Option<Seq<char>> {
    let t = plain_text(lowercase(seq_trim(token)));
    match code_for(currency_names(), t) {
        Some(code) => Some(code),
        None => if is_three_letters(t) {
            Some(uppercase(t))
        } else {
            None
        },
    }
}

/// The request read from the captures of the pattern with currency codes.
pub open spec fn code_request(caps: Seq<Option<Seq<char>>>) -> Option<CurrencyView> {
    match (cap(caps, 1), cap(caps, 2), cap(caps, 3)) {
        (Some(a), Some(f), Some(t)) => match amount_of(a) {
            Some(amount) => Some(CurrencyView { amount, from: uppercase(f), to: uppercase(t) }),
            None => None,
        },
        _ => None,
    }
}

/// The request read from the captures of the pattern with currency names.
pub open spec fn name_request(caps: Seq<Option<Seq<char>>>) -> Option<CurrencyView> {
    match (cap(caps, 1), cap(caps, 2), cap(caps, 3)) {
        (Some(a), Some(f), Some(t)) => match (
            amount_of(a),
            resolve_currency_spec(seq_trim(f)),
            resolve_currency_spec(seq_trim(t)),
        ) {
            (Some(amount), Some(from), Some(to)) => Some(CurrencyView { amount, from, to }),
            _ => None,
        },
        _ => None,
    }
}

/// The pattern with currency codes: amount, code, `to`/`in`/`em`/`para`,
/// code.
pub open spec fn code_pattern() -> Seq<char> {
    r"(?i)^([\d.,]+)\s*([a-z]{3})\s+(?:to|in|em|para)\s+([a-z]{3})$"@
}

/// The pattern with currency names.
pub open spec fn name_pattern() -> Seq<char> {
    r"(?i)^([\d.,]+)\s+(.+?)\s+(?:to|in|em|para)\s+(.+)$"@
}

/// What `try_convert` reads from a query: nothing from an empty (trimmed)
/// query; else, when the code pattern matches, the request its captures
/// give (and nothing else); else the request the name pattern's captures
/// give, if it matches.
pub open spec fn currency_query(query: Seq<char>) -> Option<CurrencyView> {
    let q = seq_trim(query);
    if q.len() == 0 {
        None
    } else {
        match regex_captures_of(code_pattern(), q) {
            Some(caps) => code_request(caps),
            None => match regex_captures_of(name_pattern(), q) {
                Some(caps) => name_request(caps),
                None => None,
            },
        }
    }
}

fn currency_name_list() -> (r: Vec<(&'static str, &'static str)>)
    ensures
        r@.map_values(|p: (&str, &str)| (p.0@, p.1@)) == currency_names(),
{
    let mut v: Vec<(&'static str, &'static str)> = Vec::new();
    v.push(("usd", "USD"));
    v.push(("us$", "USD"));
    v.push(("dolar", "USD"));
    v.push(("dolares", "USD"));
    v.push(("dollar", "USD"));
    v.push(("dollars", "USD"));
    v.push(("dolar americano", "USD"));
    v.push(("dolares americanos", "USD"));
    v.push(("brl", "BRL"));
    v.push(("r$", "BRL"));
    v.push(("real", "BRL"));
    v.push(("reais", "BRL"));
    v.push(("real brasileiro", "BRL"));
    v.push(("reais brasileiros", "BRL"));
    v.push(("eur", "EUR"));
    v.push(("euro", "EUR"));
    v.push(("euros", "EUR"));
    v.push(("gbp", "GBP"));
    v.push(("libra", "GBP"));
    v.push(("libras", "GBP"));
    v.push(("pound", "GBP"));
    v.push(("pounds", "GBP"));
    v.push(("libra esterlina", "GBP"));
    v.push(("jpy", "JPY"));
    v.push(("iene", "JPY"));
    v.push(("ienes", "JPY"));
    v.push(("yen", "JPY"));
    v.push(("cad", "CAD"));
    v.push(("dolar canadense", "CAD"));
    v.push(("dolares canadenses", "CAD"));
    v.push(("aud", "AUD"));
    v.push(("dolar australiano", "AUD"));
    v.push(("dolares australianes", "AUD"));
    v.push(("chf", "CHF"));
    v.push(("franco suico", "CHF"));
    v.push(("francos suicos", "CHF"));
    v.push(("cny", "CNY"));
    v.push(("yuan", "CNY"));
    v.push(("yuans", "CNY"));
    v.push(("ars", "ARS"));
    v.push(("peso argentino", "ARS"));
    v.push(("pesos argentinos", "ARS"));
    v.push(("mxn", "MXN"));
    v.push(("peso mexicano", "MXN"));
    v.push(("pesos mexicanos", "MXN"));
    assert(v@.map_values(|p: (&str, &str)| (p.0@, p.1@)) =~= currency_names());
    v
}

fn plain_letters(s: &[char]) -> (r: Vec<char>)
    ensures
        r@ == plain_text(s@),
{
    let mut out: Vec<char> = Vec::new();
    let mut i: usize = 0;
    while i < s.len()
        invariant
            i <= s.len(),
            out@ == s@.take(i as int).map_values(|c: char| plain_letter(c)),
        decreases s.len() - i,
    {
        let c = s[i];
        let p = if c == 'ó' {
            'o'
        } else if c == 'á' {
            'a'
        } else if c == 'é' {
            'e'
        } else if c == 'í' {
            'i'
        } else if c == 'ú' {
            'u'
        } else if c == 'ç' {
            'c'
        } else {
            c
        };
        out.push(p);
        assert(s@.take(i + 1).map_values(|c: char| plain_letter(c)) =~= s@.take(i as int).map_values(
            |c: char| plain_letter(c),
        ).push(plain_letter(c)));
        i = i + 1;
    }
    assert(s@.take(i as int) =~= s@);
    out
}

/// The currency code a token names (see `resolve_currency_spec`).
pub fn resolve_currency(token: &str) -> (r: Option<String>)
    ensures
        opt_view(r) == resolve_currency_spec(token@),
{
    let trimmed = string_of(trimmed_chars(token).as_slice());
    let lower = to_lowercase(trimmed.as_str());
    let t = plain_letters(chars_of(lower.as_str()).as_slice());
    let names = currency_name_list();
    let ghost nv = names@.map_values(|p: (&str, &str)| (p.0@, p.1@));
    let mut i: usize = 0;
    assert(nv.subrange(0, nv.len() as int) =~= nv);
    while i < names.len()
        invariant
            i <= names@.len(),
            nv == names@.map_values(|p: (&str, &str)| (p.0@, p.1@)),
            nv == currency_names(),
            t@ == plain_text(lowercase(seq_trim(token@))),
            code_for(nv, t@) == code_for(nv.subrange(i as int, nv.len() as int), t@),
        decreases names.len() - i,
    {
        let ghost rest = nv.subrange(i as int, nv.len() as int);
        let (name, code) = names[i];
        assert(rest[0] == (name@, code@));
        if chars_eq(chars_of(name).as_slice(), t.as_slice()) {
            assert(code_for(rest, t@) == Some(code@));
            let r = String::from_str(code);
            return Some(r);
        }
        assert(rest.drop_first() =~= nv.subrange(i + 1, nv.len() as int));
        i = i + 1;
    }
    let three = t.len() == 3 && (('a' <= t[0] && t[0] <= 'z') || ('A' <= t[0] && t[0] <= 'Z')) && ((
    'a' <= t[1] && t[1] <= 'z') || ('A' <= t[1] && t[1] <= 'Z')) && (('a' <= t[2] && t[2] <= 'z')
        || ('A' <= t[2] && t[2] <= 'Z'));
    if three {
        Some(to_uppercase(string_of(t.as_slice()).as_str()))
    } else {
        None
    }
}

fn amount_text(raw: &str) -> (r: Option<String>)
    ensures
        opt_view(r) == amount_of(raw@),
{
    let n = replace_char(chars_of(raw).as_slice(), ',', '.');
    if decimal_ok(n.as_slice()) {
        Some(string_of(n.as_slice()))
    } else {
        None
    }
}

/// The request the captures of the code pattern give (see `code_request`).
pub fn from_code_captures(caps: &Vec<Option<String>>) -> (r: Option<CurrencyRequest>)
    ensures
        opt_request(r) == code_request(caps.deep_view()),
{
    let a = match group(caps, 1) {
        Some(a) => a,
        None => return None,
    };
    let f = match group(caps, 2) {
        Some(f) => f,
        None => return None,
    };
    let t = match group(caps, 3) {
        Some(t) => t,
        None => return None,
    };
    match amount_text(a.as_str()) {
        Some(amount) => Some(
            CurrencyRequest { amount, from: to_uppercase(f.as_str()), to: to_uppercase(t.as_str()) },
        ),
        None => None,
    }
}

/// The request the captures of the name pattern give (see `name_request`).
pub fn from_name_captures(caps: &Vec<Option<String>>) -> (r: Option<CurrencyRequest>)
    ensures
        opt_request(r) == name_request(caps.deep_view()),
{
    let a = match group(caps, 1) {
        Some(a) => a,
        None => return None,
    };
    let f = match group(caps, 2) {
        Some(f) => f,
        None => return None,
    };
    let t = match group(caps, 3) {
        Some(t) => t,
        None => return None,
    };
    let amount = match amount_text(a.as_str()) {
        Some(x) => x,
        None => return None,
    };
    let from = match resolve_currency(string_of(trimmed_chars(f.as_str()).as_slice()).as_str()) {
        Some(x) => x,
        None => return None,
    };
    let to = match resolve_currency(string_of(trimmed_chars(t.as_str()).as_slice()).as_str()) {
        Some(x) => x,
        None => return None,
    };
    Some(CurrencyRequest { amount, from, to })
}

/// The conversion a query asks for (see `currency_query`).
pub fn try_convert(query: &str) -> (r: Option<CurrencyRequest>)
    ensures
        opt_request(r) == currency_query(query@),
{
    let q = string_of(trimmed_chars(query).as_slice());
    if q.as_str().is_empty() {
        return None;
    }
    match regex_captures(
        r"(?i)^([\d.,]+)\s*([a-z]{3})\s+(?:to|in|em|para)\s+([a-z]{3})$",
        q.as_str(),
    ) {
        Some(caps) => return from_code_captures(&caps),
        None => {},
    }
    match regex_captures(r"(?i)^([\d.,]+)\s+(.+?)\s+(?:to|in|em|para)\s+(.+)$", q.as_str()) {
        Some(caps) => from_name_captures(&caps),
        None => None,
    }
}

/// The answer to a conversion: "amount FROM →" and the converted amount
/// with its code, or "Taxa indisponível" when no rate could be had. The
/// amount and the converted amount come formatted.
pub fn answer(amount_label: &str, from: &str, to: &str, converted: Option<&str>) -> (r: QuickAnswer)
    ensures
        r.kind@ == "currency"@,
        r.label@ == amount_label@ + " "@ + from@ + " →"@,
        match converted {
            Some(c) => r.value@ == c@ + " "@ + to@ && opt_view(r.hint) == Some("Enter para copiar"@),
            None => r.value@ == "Taxa indisponível"@ && opt_view(r.hint) == Some(
                "Sem conexão — tente novamente"@,
            ),
        },
{
    let label = cat3(amount_label, " ", cat(from, " →").as_str());
    match converted {
        Some(c) => QuickAnswer {
            kind: String::from_str("currency"),
            label,
            value: cat3(c, " ", to),
            hint: Some(String::from_str("Enter para copiar")),
        },
        None => QuickAnswer {
            kind: String::from_str("currency"),
            label,
            value: String::from_str("Taxa indisponível"),
            hint: Some(String::from_str("Sem conexão — tente novamente")),
        },
    }
}

/// The key a rate is cached under: "FROM:TO".
pub fn rate_cache_key(from: &str, to: &str) -> (r: String)
    ensures
        r@ == from@ + ":"@ + to@,
{
    cat3(from, ":", to)
}

/// Whether rates saved at `updated_at` (seconds since the epoch) are still
/// usable at `now`: at most a day old (a clock behind the save counts as no
/// time passed).
pub fn disk_rates_fresh(now: u64, updated_at: u64) -> (r: bool)
    ensures
        r == (if now >= updated_at { now - updated_at } else { 0 } <= 86400),
{
    now.saturating_sub(updated_at) <= 86400
}

/// The currency pairs whose rates are fetched ahead of time.
pub fn warm_pairs() -> (r: Vec<(&'static str, &'static str)>)
    ensures
        r@.map_values(|p: (&str, &str)| (p.0@, p.1@)) == seq![
            ("USD"@, "BRL"@),
            ("EUR"@, "BRL"@),
            ("USD"@, "EUR"@),
            ("GBP"@, "BRL"@),
        ],
{
    let mut v: Vec<(&'static str, &'static str)> = Vec::new();
    v.push(("USD", "BRL"));
    v.push(("EUR", "BRL"));
    v.push(("USD", "EUR"));
    v.push(("GBP", "BRL"));
    assert(v@.map_values(|p: (&str, &str)| (p.0@, p.1@)) =~= seq![
        ("USD"@, "BRL"@),
        ("EUR"@, "BRL"@),
        ("USD"@, "EUR"@),
        ("GBP"@, "BRL"@),
    ]);
    v
}

/// The currencies known by name, by ISO code: the code in lower case, then
/// the currency's names in Portuguese and English, unaccented.
pub open spec fn currency_words() -> Seq<(Seq<char>, Seq<Seq<char>>)> {
    seq![
        ("USD"@, seq!["usd"@, "us$"@, "dolar"@, "dolares"@, "dollar"@, "dollars"@, "dolar americano"@, "dolares americanos"@]),
        ("BRL"@, seq!["brl"@, "r$"@, "real"@, "reais"@, "real brasileiro"@, "reais brasileiros"@]),
        ("EUR"@, seq!["eur"@, "euro"@, "euros"@]),
        ("GBP"@, seq!["gbp"@, "libra"@, "libras"@, "pound"@, "pounds"@, "libra esterlina"@]),
        ("JPY"@, seq!["jpy"@, "iene"@, "ienes"@, "yen"@]),
        ("CAD"@, seq!["cad"@, "dolar canadense"@, "dolares canadenses"@]),
        ("AUD"@, seq!["aud"@, "dolar australiano"@, "dolares australianes"@]),
        ("CHF"@, seq!["chf"@, "franco suico"@, "francos suicos"@]),
        ("CNY"@, seq!["cny"@, "yuan"@, "yuans"@]),
        ("ARS"@, seq!["ars"@, "peso argentino"@, "pesos argentinos"@]),
        ("MXN"@, seq!["mxn"@, "peso mexicano"@, "pesos mexicanos"@])
    ]
}

/// No name among the first `n` of `names` is `t`.
spec fn none_before(names: Seq<(Seq<char>, Seq<char>)>, t: Seq<char>, n: int) -> bool
    decreases n,
{
    if n <= 0 {
        true
    } else {
        names[n - 1].0 != t && none_before(names, t, n - 1)
    }
}

proof fn lemma_none_before(names: Seq<(Seq<char>, Seq<char>)>, t: Seq<char>, n: int)
    requires
        none_before(names, t, n),
    ensures
        forall|k: int| 0 <= k < n ==> #[trigger] names[k].0 != t,
    decreases n,
{
    if n > 0 {
        lemma_none_before(names, t, n - 1);
    }
}

/// The code of the first entry whose name is `t`.
proof fn lemma_first_at(names: Seq<(Seq<char>, Seq<char>)>, t: Seq<char>, idx: int)
    requires
        0 <= idx < names.len(),
        names[idx].0 == t,
        forall|k: int| 0 <= k < idx ==> #[trigger] names[k].0 != t,
    ensures
        code_for(names, t) == Some(names[idx].1),
    decreases idx,
{
    if idx > 0 {
        assert(names[0].0 != t);
        assert forall|k: int| 0 <= k < idx - 1 implies #[trigger] names.drop_first()[k].0 != t by {
            assert(names.drop_first()[k] == names[k + 1]);
        }
        lemma_first_at(names.drop_first(), t, idx - 1);
    }
}

/// The name at `idx` of `currency_names`, first of its kind, gives its code.
proof fn lemma_name_at(t: Seq<char>, idx: int)
    requires
        0 <= idx < currency_names().len(),
        currency_names()[idx].0 == t,
        none_before(currency_names(), t, idx),
    ensures
        code_for(currency_names(), t) == Some(currency_names()[idx].1),
{
    lemma_none_before(currency_names(), t, idx);
    lemma_first_at(currency_names(), t, idx);
}

proof fn lemma_words_usd()
    ensures
        code_for(currency_names(), "usd"@) == Some("USD"@),
        plain_text("usd"@) == "usd"@,
        code_for(currency_names(), "us$"@) == Some("USD"@),
        plain_text("us$"@) == "us$"@,
        code_for(currency_names(), "dolar"@) == Some("USD"@),
        plain_text("dolar"@) == "dolar"@,
        code_for(currency_names(), "dolares"@) == Some("USD"@),
        plain_text("dolares"@) == "dolares"@,
        code_for(currency_names(), "dollar"@) == Some("USD"@),
        plain_text("dollar"@) == "dollar"@,
        code_for(currency_names(), "dollars"@) == Some("USD"@),
        plain_text("dollars"@) == "dollars"@,
        code_for(currency_names(), "dolar americano"@) == Some("USD"@),
        plain_text("dolar americano"@) == "dolar americano"@,
        code_for(currency_names(), "dolares americanos"@) == Some("USD"@),
        plain_text("dolares americanos"@) == "dolares americanos"@,
{
    reveal_strlit("usd");
    reveal_strlit("us$");
    reveal_strlit("dolar");
    reveal_strlit("dolares");
    reveal_strlit("dollar");
    reveal_strlit("dollars");
    reveal_strlit("dolar americano");
    reveal_strlit("dolares americanos");
    assert("usd"@.len() == 3);
    assert("us$"@.len() == 3);
    assert("dolar"@.len() == 5);
    assert("dolares"@.len() == 7);
    assert("dollar"@.len() == 6);
    assert("dollars"@.len() == 7);
    assert("dolar americano"@.len() == 15);
    assert("dolares americanos"@.len() == 18);
    reveal_with_fuel(none_before, 8);
    assert(none_before(currency_names(), "usd"@, 0));
    lemma_name_at("usd"@, 0);
    assert(plain_text("usd"@) =~= "usd"@);
    assert("usd"@[2] != "us$"@[2]);
    assert(none_before(currency_names(), "us$"@, 1));
    lemma_name_at("us$"@, 1);
    assert(plain_text("us$"@) =~= "us$"@);
    assert(none_before(currency_names(), "dolar"@, 2));
    lemma_name_at("dolar"@, 2);
    assert(plain_text("dolar"@) =~= "dolar"@);
    assert(none_before(currency_names(), "dolares"@, 3));
    lemma_name_at("dolares"@, 3);
    assert(plain_text("dolares"@) =~= "dolares"@);
    assert(none_before(currency_names(), "dollar"@, 4));
    lemma_name_at("dollar"@, 4);
    assert(plain_text("dollar"@) =~= "dollar"@);
    assert("dolares"@[3] != "dollars"@[3]);
    assert(none_before(currency_names(), "dollars"@, 5));
    lemma_name_at("dollars"@, 5);
    assert(plain_text("dollars"@) =~= "dollars"@);
    assert(none_before(currency_names(), "dolar americano"@, 6));
    lemma_name_at("dolar americano"@, 6);
    assert(plain_text("dolar americano"@) =~= "dolar americano"@);
    assert(none_before(currency_names(), "dolares americanos"@, 7));
    lemma_name_at("dolares americanos"@, 7);
    assert(plain_text("dolares americanos"@) =~= "dolares americanos"@);
}

proof fn lemma_words_brl()
    ensures
        code_for(currency_names(), "brl"@) == Some("BRL"@),
        plain_text("brl"@) == "brl"@,
        code_for(currency_names(), "r$"@) == Some("BRL"@),
        plain_text("r$"@) == "r$"@,
        code_for(currency_names(), "real"@) == Some("BRL"@),
        plain_text("real"@) == "real"@,
        code_for(currency_names(), "reais"@) == Some("BRL"@),
        plain_text("reais"@) == "reais"@,
        code_for(currency_names(), "real brasileiro"@) == Some("BRL"@),
        plain_text("real brasileiro"@) == "real brasileiro"@,
        code_for(currency_names(), "reais brasileiros"@) == Some("BRL"@),
        plain_text("reais brasileiros"@) == "reais brasileiros"@,
{
    reveal_strlit("usd");
    reveal_strlit("us$");
    reveal_strlit("dolar");
    reveal_strlit("dolares");
    reveal_strlit("dollar");
    reveal_strlit("dollars");
    reveal_strlit("dolar americano");
    reveal_strlit("dolares americanos");
    reveal_strlit("brl");
    reveal_strlit("r$");
    reveal_strlit("real");
    reveal_strlit("reais");
    reveal_strlit("real brasileiro");
    reveal_strlit("reais brasileiros");
    assert("usd"@.len() == 3);
    assert("us$"@.len() == 3);
    assert("dolar"@.len() == 5);
    assert("dolares"@.len() == 7);
    assert("dollar"@.len() == 6);
    assert("dollars"@.len() == 7);
    assert("dolar americano"@.len() == 15);
    assert("dolares americanos"@.len() == 18);
    assert("brl"@.len() == 3);
    assert("r$"@.len() == 2);
    assert("real"@.len() == 4);
    assert("reais"@.len() == 5);
    assert("real brasileiro"@.len() == 15);
    assert("reais brasileiros"@.len() == 17);
    reveal_with_fuel(none_before, 14);
    assert("usd"@[0] != "brl"@[0]);
    assert("us$"@[0] != "brl"@[0]);
    assert(none_before(currency_names(), "brl"@, 8));
    lemma_name_at("brl"@, 8);
    assert(plain_text("brl"@) =~= "brl"@);
    assert(none_before(currency_names(), "r$"@, 9));
    lemma_name_at("r$"@, 9);
    assert(plain_text("r$"@) =~= "r$"@);
    assert(none_before(currency_names(), "real"@, 10));
    lemma_name_at("real"@, 10);
    assert(plain_text("real"@) =~= "real"@);
    assert("dolar"@[0] != "reais"@[0]);
    assert(none_before(currency_names(), "reais"@, 11));
    lemma_name_at("reais"@, 11);
    assert(plain_text("reais"@) =~= "reais"@);
    assert("dolar americano"@[0] != "real brasileiro"@[0]);
    assert(none_before(currency_names(), "real brasileiro"@, 12));
    lemma_name_at("real brasileiro"@, 12);
    assert(plain_text("real brasileiro"@) =~= "real brasileiro"@);
    assert(none_before(currency_names(), "reais brasileiros"@, 13));
    lemma_name_at("reais brasileiros"@, 13);
    assert(plain_text("reais brasileiros"@) =~= "reais brasileiros"@);
}

proof fn lemma_words_eur()
    ensures
        code_for(currency_names(), "eur"@) == Some("EUR"@),
        plain_text("eur"@) == "eur"@,
        code_for(currency_names(), "euro"@) == Some("EUR"@),
        plain_text("euro"@) == "euro"@,
        code_for(currency_names(), "euros"@) == Some("EUR"@),
        plain_text("euros"@) == "euros"@,
{
    reveal_strlit("usd");
    reveal_strlit("us$");
    reveal_strlit("dolar");
    reveal_strlit("dolares");
    reveal_strlit("dollar");
    reveal_strlit("dollars");
    reveal_strlit("dolar americano");
    reveal_strlit("dolares americanos");
    reveal_strlit("brl");
    reveal_strlit("r$");
    reveal_strlit("real");
    reveal_strlit("reais");
    reveal_strlit("real brasileiro");
    reveal_strlit("reais brasileiros");
    reveal_strlit("eur");
    reveal_strlit("euro");
    reveal_strlit("euros");
    assert("usd"@.len() == 3);
    assert("us$"@.len() == 3);
    assert("dolar"@.len() == 5);
    assert("dolares"@.len() == 7);
    assert("dollar"@.len() == 6);
    assert("dollars"@.len() == 7);
    assert("dolar americano"@.len() == 15);
    assert("dolares americanos"@.len() == 18);
    assert("brl"@.len() == 3);
    assert("r$"@.len() == 2);
    assert("real"@.len() == 4);
    assert("reais"@.len() == 5);
    assert("real brasileiro"@.len() == 15);
    assert("reais brasileiros"@.len() == 17);
    assert("eur"@.len() == 3);
    assert("euro"@.len() == 4);
    assert("euros"@.len() == 5);
    reveal_with_fuel(none_before, 17);
    assert("usd"@[0] != "eur"@[0]);
    assert("us$"@[0] != "eur"@[0]);
    assert("brl"@[0] != "eur"@[0]);
    assert(none_before(currency_names(), "eur"@, 14));
    lemma_name_at("eur"@, 14);
    assert(plain_text("eur"@) =~= "eur"@);
    assert("real"@[0] != "euro"@[0]);
    assert(none_before(currency_names(), "euro"@, 15));
    lemma_name_at("euro"@, 15);
    assert(plain_text("euro"@) =~= "euro"@);
    assert("dolar"@[0] != "euros"@[0]);
    assert("reais"@[0] != "euros"@[0]);
    assert(none_before(currency_names(), "euros"@, 16));
    lemma_name_at("euros"@, 16);
    assert(plain_text("euros"@) =~= "euros"@);
}

proof fn lemma_words_gbp()
    ensures
        code_for(currency_names(), "gbp"@) == Some("GBP"@),
        plain_text("gbp"@) == "gbp"@,
        code_for(currency_names(), "libra"@) == Some("GBP"@),
        plain_text("libra"@) == "libra"@,
        code_for(currency_names(), "libras"@) == Some("GBP"@),
        plain_text("libras"@) == "libras"@,
        code_for(currency_names(), "pound"@) == Some("GBP"@),
        plain_text("pound"@) == "pound"@,
        code_for(currency_names(), "pounds"@) == Some("GBP"@),
        plain_text("pounds"@) == "pounds"@,
        code_for(currency_names(), "libra esterlina"@) == Some("GBP"@),
        plain_text("libra esterlina"@) == "libra esterlina"@,
{
    reveal_strlit("usd");
    reveal_strlit("us$");
    reveal_strlit("dolar");
    reveal_strlit("dolares");
    reveal_strlit("dollar");
    reveal_strlit("dollars");
    reveal_strlit("dolar americano");
    reveal_strlit("dolares americanos");
    reveal_strlit("brl");
    reveal_strlit("r$");
    reveal_strlit("real");
    reveal_strlit("reais");
    reveal_strlit("real brasileiro");
    reveal_strlit("reais brasileiros");
    reveal_strlit("eur");
    reveal_strlit("euro");
    reveal_strlit("euros");
    reveal_strlit("gbp");
    reveal_strlit("libra");
    reveal_strlit("libras");
    reveal_strlit("pound");
    reveal_strlit("pounds");
    reveal_strlit("libra esterlina");
    assert("usd"@.len() == 3);
    assert("us$"@.len() == 3);
    assert("dolar"@.len() == 5);
    assert("dolares"@.len() == 7);
    assert("dollar"@.len() == 6);
    assert("dollars"@.len() == 7);
    assert("dolar americano"@.len() == 15);
    assert("dolares americanos"@.len() == 18);
    assert("brl"@.len() == 3);
    assert("r$"@.len() == 2);
    assert("real"@.len() == 4);
    assert("reais"@.len() == 5);
    assert("real brasileiro"@.len() == 15);
    assert("reais brasileiros"@.len() == 17);
    assert("eur"@.len() == 3);
    assert("euro"@.len() == 4);
    assert("euros"@.len() == 5);
    assert("gbp"@.len() == 3);
    assert("libra"@.len() == 5);
    assert("libras"@.len() == 6);
    assert("pound"@.len() == 5);
    assert("pounds"@.len() == 6);
    assert("libra esterlina"@.len() == 15);
    reveal_with_fuel(none_before, 23);
    assert("usd"@[0] != "gbp"@[0]);
    assert("us$"@[0] != "gbp"@[0]);
    assert("brl"@[0] != "gbp"@[0]);
    assert("eur"@[0] != "gbp"@[0]);
    assert(none_before(currency_names(), "gbp"@, 17));
    lemma_name_at("gbp"@, 17);
    assert(plain_text("gbp"@) =~= "gbp"@);
    assert("dolar"@[0] != "libra"@[0]);
    assert("reais"@[0] != "libra"@[0]);
    assert("euros"@[0] != "libra"@[0]);
    assert(none_before(currency_names(), "libra"@, 18));
    lemma_name_at("libra"@, 18);
    assert(plain_text("libra"@) =~= "libra"@);
    assert("dollar"@[0] != "libras"@[0]);
    assert(none_before(currency_names(), "libras"@, 19));
    lemma_name_at("libras"@, 19);
    assert(plain_text("libras"@) =~= "libras"@);
    assert("dolar"@[0] != "pound"@[0]);
    assert("reais"@[0] != "pound"@[0]);
    assert("euros"@[0] != "pound"@[0]);
    assert("libra"@[0] != "pound"@[0]);
    assert(none_before(currency_names(), "pound"@, 20));
    lemma_name_at("pound"@, 20);
    assert(plain_text("pound"@) =~= "pound"@);
    assert("dollar"@[0] != "pounds"@[0]);
    assert("libras"@[0] != "pounds"@[0]);
    assert(none_before(currency_names(), "pounds"@, 21));
    lemma_name_at("pounds"@, 21);
    assert(plain_text("pounds"@) =~= "pounds"@);
    assert("dolar americano"@[0] != "libra esterlina"@[0]);
    assert("real brasileiro"@[0] != "libra esterlina"@[0]);
    assert(none_before(currency_names(), "libra esterlina"@, 22));
    lemma_name_at("libra esterlina"@, 22);
    assert(plain_text("libra esterlina"@) =~= "libra esterlina"@);
}

proof fn lemma_words_jpy()
    ensures
        code_for(currency_names(), "jpy"@) == Some("JPY"@),
        plain_text("jpy"@) == "jpy"@,
        code_for(currency_names(), "iene"@) == Some("JPY"@),
        plain_text("iene"@) == "iene"@,
        code_for(currency_names(), "ienes"@) == Some("JPY"@),
        plain_text("ienes"@) == "ienes"@,
        code_for(currency_names(), "yen"@) == Some("JPY"@),
        plain_text("yen"@) == "yen"@,
{
    reveal_strlit("usd");
    reveal_strlit("us$");
    reveal_strlit("dolar");
    reveal_strlit("dolares");
    reveal_strlit("dollar");
    reveal_strlit("dollars");
    reveal_strlit("dolar americano");
    reveal_strlit("dolares americanos");
    reveal_strlit("brl");
    reveal_strlit("r$");
    reveal_strlit("real");
    reveal_strlit("reais");
    reveal_strlit("real brasileiro");
    reveal_strlit("reais brasileiros");
    reveal_strlit("eur");
    reveal_strlit("euro");
    reveal_strlit("euros");
    reveal_strlit("gbp");
    reveal_strlit("libra");
    reveal_strlit("libras");
    reveal_strlit("pound");
    reveal_strlit("pounds");
    reveal_strlit("libra esterlina");
    reveal_strlit("jpy");
    reveal_strlit("iene");
    reveal_strlit("ienes");
    reveal_strlit("yen");
    assert("usd"@.len() == 3);
    assert("us$"@.len() == 3);
    assert("dolar"@.len() == 5);
    assert("dolares"@.len() == 7);
    assert("dollar"@.len() == 6);
    assert("dollars"@.len() == 7);
    assert("dolar americano"@.len() == 15);
    assert("dolares americanos"@.len() == 18);
    assert("brl"@.len() == 3);
    assert("r$"@.len() == 2);
    assert("real"@.len() == 4);
    assert("reais"@.len() == 5);
    assert("real brasileiro"@.len() == 15);
    assert("reais brasileiros"@.len() == 17);
    assert("eur"@.len() == 3);
    assert("euro"@.len() == 4);
    assert("euros"@.len() == 5);
    assert("gbp"@.len() == 3);
    assert("libra"@.len() == 5);
    assert("libras"@.len() == 6);
    assert("pound"@.len() == 5);
    assert("pounds"@.len() == 6);
    assert("libra esterlina"@.len() == 15);
    assert("jpy"@.len() == 3);
    assert("iene"@.len() == 4);
    assert("ienes"@.len() == 5);
    assert("yen"@.len() == 3);
    reveal_with_fuel(none_before, 27);
    assert("usd"@[0] != "jpy"@[0]);
    assert("us$"@[0] != "jpy"@[0]);
    assert("brl"@[0] != "jpy"@[0]);
    assert("eur"@[0] != "jpy"@[0]);
    assert("gbp"@[0] != "jpy"@[0]);
    assert(none_before(currency_names(), "jpy"@, 23));
    lemma_name_at("jpy"@, 23);
    assert(plain_text("jpy"@) =~= "jpy"@);
    assert("real"@[0] != "iene"@[0]);
    assert("euro"@[0] != "iene"@[0]);
    assert(none_before(currency_names(), "iene"@, 24));
    lemma_name_at("iene"@, 24);
    assert(plain_text("iene"@) =~= "iene"@);
    assert("dolar"@[0] != "ienes"@[0]);
    assert("reais"@[0] != "ienes"@[0]);
    assert("euros"@[0] != "ienes"@[0]);
    assert("libra"@[0] != "ienes"@[0]);
    assert("pound"@[0] != "ienes"@[0]);
    assert(none_before(currency_names(), "ienes"@, 25));
    lemma_name_at("ienes"@, 25);
    assert(plain_text("ienes"@) =~= "ienes"@);
    assert("usd"@[0] != "yen"@[0]);
    assert("us$"@[0] != "yen"@[0]);
    assert("brl"@[0] != "yen"@[0]);
    assert("eur"@[0] != "yen"@[0]);
    assert("gbp"@[0] != "yen"@[0]);
    assert("jpy"@[0] != "yen"@[0]);
    assert(none_before(currency_names(), "yen"@, 26));
    lemma_name_at("yen"@, 26);
    assert(plain_text("yen"@) =~= "yen"@);
}

proof fn lemma_words_cad()
    ensures
        code_for(currency_names(), "cad"@) == Some("CAD"@),
        plain_text("cad"@) == "cad"@,
        code_for(currency_names(), "dolar canadense"@) == Some("CAD"@),
        plain_text("dolar canadense"@) == "dolar canadense"@,
        code_for(currency_names(), "dolares canadenses"@) == Some("CAD"@),
        plain_text("dolares canadenses"@) == "dolares canadenses"@,
{
    reveal_strlit("usd");
    reveal_strlit("us$");
    reveal_strlit("dolar");
    reveal_strlit("dolares");
    reveal_strlit("dollar");
    reveal_strlit("dollars");
    reveal_strlit("dolar americano");
    reveal_strlit("dolares americanos");
    reveal_strlit("brl");
    reveal_strlit("r$");
    reveal_strlit("real");
    reveal_strlit("reais");
    reveal_strlit("real brasileiro");
    reveal_strlit("reais brasileiros");
    reveal_strlit("eur");
    reveal_strlit("euro");
    reveal_strlit("euros");
    reveal_strlit("gbp");
    reveal_strlit("libra");
    reveal_strlit("libras");
    reveal_strlit("pound");
    reveal_strlit("pounds");
    reveal_strlit("libra esterlina");
    reveal_strlit("jpy");
    reveal_strlit("iene");
    reveal_strlit("ienes");
    reveal_strlit("yen");
    reveal_strlit("cad");
    reveal_strlit("dolar canadense");
    reveal_strlit("dolares canadenses");
    assert("usd"@.len() == 3);
    assert("us$"@.len() == 3);
    assert("dolar"@.len() == 5);
    assert("dolares"@.len() == 7);
    assert("dollar"@.len() == 6);
    assert("dollars"@.len() == 7);
    assert("dolar americano"@.len() == 15);
    assert("dolares americanos"@.len() == 18);
    assert("brl"@.len() == 3);
    assert("r$"@.len() == 2);
    assert("real"@.len() == 4);
    assert("reais"@.len() == 5);
    assert("real brasileiro"@.len() == 15);
    assert("reais brasileiros"@.len() == 17);
    assert("eur"@.len() == 3);
    assert("euro"@.len() == 4);
    assert("euros"@.len() == 5);
    assert("gbp"@.len() == 3);
    assert("libra"@.len() == 5);
    assert("libras"@.len() == 6);
    assert("pound"@.len() == 5);
    assert("pounds"@.len() == 6);
    assert("libra esterlina"@.len() == 15);
    assert("jpy"@.len() == 3);
    assert("iene"@.len() == 4);
    assert("ienes"@.len() == 5);
    assert("yen"@.len() == 3);
    assert("cad"@.len() == 3);
    assert("dolar canadense"@.len() == 15);
    assert("dolares canadenses"@.len() == 18);
    reveal_with_fuel(none_before, 30);
    assert("usd"@[0] != "cad"@[0]);
    assert("us$"@[0] != "cad"@[0]);
    assert("brl"@[0] != "cad"@[0]);
    assert("eur"@[0] != "cad"@[0]);
    assert("gbp"@[0] != "cad"@[0]);
    assert("jpy"@[0] != "cad"@[0]);
    assert("yen"@[0] != "cad"@[0]);
    assert(none_before(currency_names(), "cad"@, 27));
    lemma_name_at("cad"@, 27);
    assert(plain_text("cad"@) =~= "cad"@);
    assert("dolar americano"@[6] != "dolar canadense"@[6]);
    assert("real brasileiro"@[0] != "dolar canadense"@[0]);
    assert("libra esterlina"@[0] != "dolar canadense"@[0]);
    assert(none_before(currency_names(), "dolar canadense"@, 28));
    lemma_name_at("dolar canadense"@, 28);
    assert(plain_text("dolar canadense"@) =~= "dolar canadense"@);
    assert("dolares americanos"@[8] != "dolares canadenses"@[8]);
    assert(none_before(currency_names(), "dolares canadenses"@, 29));
    lemma_name_at("dolares canadenses"@, 29);
    assert(plain_text("dolares canadenses"@) =~= "dolares canadenses"@);
}

proof fn lemma_words_aud()
    ensures
        code_for(currency_names(), "aud"@) == Some("AUD"@),
        plain_text("aud"@) == "aud"@,
        code_for(currency_names(), "dolar australiano"@) == Some("AUD"@),
        plain_text("dolar australiano"@) == "dolar australiano"@,
        code_for(currency_names(), "dolares australianes"@) == Some("AUD"@),
        plain_text("dolares australianes"@) == "dolares australianes"@,
{
    reveal_strlit("usd");
    reveal_strlit("us$");
    reveal_strlit("dolar");
    reveal_strlit("dolares");
    reveal_strlit("dollar");
    reveal_strlit("dollars");
    reveal_strlit("dolar americano");
    reveal_strlit("dolares americanos");
    reveal_strlit("brl");
    reveal_strlit("r$");
    reveal_strlit("real");
    reveal_strlit("reais");
    reveal_strlit("real brasileiro");
    reveal_strlit("reais brasileiros");
    reveal_strlit("eur");
    reveal_strlit("euro");
    reveal_strlit("euros");
    reveal_strlit("gbp");
    reveal_strlit("libra");
    reveal_strlit("libras");
    reveal_strlit("pound");
    reveal_strlit("pounds");
    reveal_strlit("libra esterlina");
    reveal_strlit("jpy");
    reveal_strlit("iene");
    reveal_strlit("ienes");
    reveal_strlit("yen");
    reveal_strlit("cad");
    reveal_strlit("dolar canadense");
    reveal_strlit("dolares canadenses");
    reveal_strlit("aud");
    reveal_strlit("dolar australiano");
    reveal_strlit("dolares australianes");
    assert("usd"@.len() == 3);
    assert("us$"@.len() == 3);
    assert("dolar"@.len() == 5);
    assert("dolares"@.len() == 7);
    assert("dollar"@.len() == 6);
    assert("dollars"@.len() == 7);
    assert("dolar americano"@.len() == 15);
    assert("dolares americanos"@.len() == 18);
    assert("brl"@.len() == 3);
    assert("r$"@.len() == 2);
    assert("real"@.len() == 4);
    assert("reais"@.len() == 5);
    assert("real brasileiro"@.len() == 15);
    assert("reais brasileiros"@.len() == 17);
    assert("eur"@.len() == 3);
    assert("euro"@.len() == 4);
    assert("euros"@.len() == 5);
    assert("gbp"@.len() == 3);
    assert("libra"@.len() == 5);
    assert("libras"@.len() == 6);
    assert("pound"@.len() == 5);
    assert("pounds"@.len() == 6);
    assert("libra esterlina"@.len() == 15);
    assert("jpy"@.len() == 3);
    assert("iene"@.len() == 4);
    assert("ienes"@.len() == 5);
    assert("yen"@.len() == 3);
    assert("cad"@.len() == 3);
    assert("dolar canadense"@.len() == 15);
    assert("dolares canadenses"@.len() == 18);
    assert("aud"@.len() == 3);
    assert("dolar australiano"@.len() == 17);
    assert("dolares australianes"@.len() == 20);
    reveal_with_fuel(none_before, 33);
    assert("usd"@[0] != "aud"@[0]);
    assert("us$"@[0] != "aud"@[0]);
    assert("brl"@[0] != "aud"@[0]);
    assert("eur"@[0] != "aud"@[0]);
    assert("gbp"@[0] != "aud"@[0]);
    assert("jpy"@[0] != "aud"@[0]);
    assert("yen"@[0] != "aud"@[0]);
    assert("cad"@[0] != "aud"@[0]);
    assert(none_before(currency_names(), "aud"@, 30));
    lemma_name_at("aud"@, 30);
    assert(plain_text("aud"@) =~= "aud"@);
    assert("reais brasileiros"@[0] != "dolar australiano"@[0]);
    assert(none_before(currency_names(), "dolar australiano"@, 31));
    lemma_name_at("dolar australiano"@, 31);
    assert(plain_text("dolar australiano"@) =~= "dolar australiano"@);
    assert(none_before(currency_names(), "dolares australianes"@, 32));
    lemma_name_at("dolares australianes"@, 32);
    assert(plain_text("dolares australianes"@) =~= "dolares australianes"@);
}

proof fn lemma_words_chf()
    ensures
        code_for(currency_names(), "chf"@) == Some("CHF"@),
        plain_text("chf"@) == "chf"@,
        code_for(currency_names(), "franco suico"@) == Some("CHF"@),
        plain_text("franco suico"@) == "franco suico"@,
        code_for(currency_names(), "francos suicos"@) == Some("CHF"@),
        plain_text("francos suicos"@) == "francos suicos"@,
{
    reveal_strlit("usd");
    reveal_strlit("us$");
    reveal_strlit("dolar");
    reveal_strlit("dolares");
    reveal_strlit("dollar");
    reveal_strlit("dollars");
    reveal_strlit("dolar americano");
    reveal_strlit("dolares americanos");
    reveal_strlit("brl");
    reveal_strlit("r$");
    reveal_strlit("real");
    reveal_strlit("reais");
    reveal_strlit("real brasileiro");
    reveal_strlit("reais brasileiros");
    reveal_strlit("eur");
    reveal_strlit("euro");
    reveal_strlit("euros");
    reveal_strlit("gbp");
    reveal_strlit("libra");
    reveal_strlit("libras");
    reveal_strlit("pound");
    reveal_strlit("pounds");
    reveal_strlit("libra esterlina");
    reveal_strlit("jpy");
    reveal_strlit("iene");
    reveal_strlit("ienes");
    reveal_strlit("yen");
    reveal_strlit("cad");
    reveal_strlit("dolar canadense");
    reveal_strlit("dolares canadenses");
    reveal_strlit("aud");
    reveal_strlit("dolar australiano");
    reveal_strlit("dolares australianes");
    reveal_strlit("chf");
    reveal_strlit("franco suico");
    reveal_strlit("francos suicos");
    assert("usd"@.len() == 3);
    assert("us$"@.len() == 3);
    assert("dolar"@.len() == 5);
    assert("dolares"@.len() == 7);
    assert("dollar"@.len() == 6);
    assert("dollars"@.len() == 7);
    assert("dolar americano"@.len() == 15);
    assert("dolares americanos"@.len() == 18);
    assert("brl"@.len() == 3);
    assert("r$"@.len() == 2);
    assert("real"@.len() == 4);
    assert("reais"@.len() == 5);
    assert("real brasileiro"@.len() == 15);
    assert("reais brasileiros"@.len() == 17);
    assert("eur"@.len() == 3);
    assert("euro"@.len() == 4);
    assert("euros"@.len() == 5);
    assert("gbp"@.len() == 3);
    assert("libra"@.len() == 5);
    assert("libras"@.len() == 6);
    assert("pound"@.len() == 5);
    assert("pounds"@.len() == 6);
    assert("libra esterlina"@.len() == 15);
    assert("jpy"@.len() == 3);
    assert("iene"@.len() == 4);
    assert("ienes"@.len() == 5);
    assert("yen"@.len() == 3);
    assert("cad"@.len() == 3);
    assert("dolar canadense"@.len() == 15);
    assert("dolares canadenses"@.len() == 18);
    assert("aud"@.len() == 3);
    assert("dolar australiano"@.len() == 17);
    assert("dolares australianes"@.len() == 20);
    assert("chf"@.len() == 3);
    assert("franco suico"@.len() == 12);
    assert("francos suicos"@.len() == 14);
    reveal_with_fuel(none_before, 36);
    assert("usd"@[0] != "chf"@[0]);
    assert("us$"@[0] != "chf"@[0]);
    assert("brl"@[0] != "chf"@[0]);
    assert("eur"@[0] != "chf"@[0]);
    assert("gbp"@[0] != "chf"@[0]);
    assert("jpy"@[0] != "chf"@[0]);
    assert("yen"@[0] != "chf"@[0]);
    assert("cad"@[1] != "chf"@[1]);
    assert("aud"@[0] != "chf"@[0]);
    assert(none_before(currency_names(), "chf"@, 33));
    lemma_name_at("chf"@, 33);
    assert(plain_text("chf"@) =~= "chf"@);
    assert(none_before(currency_names(), "franco suico"@, 34));
    lemma_name_at("franco suico"@, 34);
    assert(plain_text("franco suico"@) =~= "franco suico"@);
    assert(none_before(currency_names(), "francos suicos"@, 35));
    lemma_name_at("francos suicos"@, 35);
    assert(plain_text("francos suicos"@) =~= "francos suicos"@);
}

proof fn lemma_words_cny()
    ensures
        code_for(currency_names(), "cny"@) == Some("CNY"@),
        plain_text("cny"@) == "cny"@,
        code_for(currency_names(), "yuan"@) == Some("CNY"@),
        plain_text("yuan"@) == "yuan"@,
        code_for(currency_names(), "yuans"@) == Some("CNY"@),
        plain_text("yuans"@) == "yuans"@,
{
    reveal_strlit("usd");
    reveal_strlit("us$");
    reveal_strlit("dolar");
    reveal_strlit("dolares");
    reveal_strlit("dollar");
    reveal_strlit("dollars");
    reveal_strlit("dolar americano");
    reveal_strlit("dolares americanos");
    reveal_strlit("brl");
    reveal_strlit("r$");
    reveal_strlit("real");
    reveal_strlit("reais");
    reveal_strlit("real brasileiro");
    reveal_strlit("reais brasileiros");
    reveal_strlit("eur");
    reveal_strlit("euro");
    reveal_strlit("euros");
    reveal_strlit("gbp");
    reveal_strlit("libra");
    reveal_strlit("libras");
    reveal_strlit("pound");
    reveal_strlit("pounds");
    reveal_strlit("libra esterlina");
    reveal_strlit("jpy");
    reveal_strlit("iene");
    reveal_strlit("ienes");
    reveal_strlit("yen");
    reveal_strlit("cad");
    reveal_strlit("dolar canadense");
    reveal_strlit("dolares canadenses");
    reveal_strlit("aud");
    reveal_strlit("dolar australiano");
    reveal_strlit("dolares australianes");
    reveal_strlit("chf");
    reveal_strlit("franco suico");
    reveal_strlit("francos suicos");
    reveal_strlit("cny");
    reveal_strlit("yuan");
    reveal_strlit("yuans");
    assert("usd"@.len() == 3);
    assert("us$"@.len() == 3);
    assert("dolar"@.len() == 5);
    assert("dolares"@.len() == 7);
    assert("dollar"@.len() == 6);
    assert("dollars"@.len() == 7);
    assert("dolar americano"@.len() == 15);
    assert("dolares americanos"@.len() == 18);
    assert("brl"@.len() == 3);
    assert("r$"@.len() == 2);
    assert("real"@.len() == 4);
    assert("reais"@.len() == 5);
    assert("real brasileiro"@.len() == 15);
    assert("reais brasileiros"@.len() == 17);
    assert("eur"@.len() == 3);
    assert("euro"@.len() == 4);
    assert("euros"@.len() == 5);
    assert("gbp"@.len() == 3);
    assert("libra"@.len() == 5);
    assert("libras"@.len() == 6);
    assert("pound"@.len() == 5);
    assert("pounds"@.len() == 6);
    assert("libra esterlina"@.len() == 15);
    assert("jpy"@.len() == 3);
    assert("iene"@.len() == 4);
    assert("ienes"@.len() == 5);
    assert("yen"@.len() == 3);
    assert("cad"@.len() == 3);
    assert("dolar canadense"@.len() == 15);
    assert("dolares canadenses"@.len() == 18);
    assert("aud"@.len() == 3);
    assert("dolar australiano"@.len() == 17);
    assert("dolares australianes"@.len() == 20);
    assert("chf"@.len() == 3);
    assert("franco suico"@.len() == 12);
    assert("francos suicos"@.len() == 14);
    assert("cny"@.len() == 3);
    assert("yuan"@.len() == 4);
    assert("yuans"@.len() == 5);
    reveal_with_fuel(none_before, 39);
    assert("usd"@[0] != "cny"@[0]);
    assert("us$"@[0] != "cny"@[0]);
    assert("brl"@[0] != "cny"@[0]);
    assert("eur"@[0] != "cny"@[0]);
    assert("gbp"@[0] != "cny"@[0]);
    assert("jpy"@[0] != "cny"@[0]);
    assert("yen"@[0] != "cny"@[0]);
    assert("cad"@[1] != "cny"@[1]);
    assert("aud"@[0] != "cny"@[0]);
    assert("chf"@[1] != "cny"@[1]);
    assert(none_before(currency_names(), "cny"@, 36));
    lemma_name_at("cny"@, 36);
    assert(plain_text("cny"@) =~= "cny"@);
    assert("real"@[0] != "yuan"@[0]);
    assert("euro"@[0] != "yuan"@[0]);
    assert("iene"@[0] != "yuan"@[0]);
    assert(none_before(currency_names(), "yuan"@, 37));
    lemma_name_at("yuan"@, 37);
    assert(plain_text("yuan"@) =~= "yuan"@);
    assert("dolar"@[0] != "yuans"@[0]);
    assert("reais"@[0] != "yuans"@[0]);
    assert("euros"@[0] != "yuans"@[0]);
    assert("libra"@[0] != "yuans"@[0]);
    assert("pound"@[0] != "yuans"@[0]);
    assert("ienes"@[0] != "yuans"@[0]);
    assert(none_before(currency_names(), "yuans"@, 38));
    lemma_name_at("yuans"@, 38);
    assert(plain_text("yuans"@) =~= "yuans"@);
}

proof fn lemma_words_ars()
    ensures
        code_for(currency_names(), "ars"@) == Some("ARS"@),
        plain_text("ars"@) == "ars"@,
        code_for(currency_names(), "peso argentino"@) == Some("ARS"@),
        plain_text("peso argentino"@) == "peso argentino"@,
        code_for(currency_names(), "pesos argentinos"@) == Some("ARS"@),
        plain_text("pesos argentinos"@) == "pesos argentinos"@,
{
    reveal_strlit("usd");
    reveal_strlit("us$");
    reveal_strlit("dolar");
    reveal_strlit("dolares");
    reveal_strlit("dollar");
    reveal_strlit("dollars");
    reveal_strlit("dolar americano");
    reveal_strlit("dolares americanos");
    reveal_strlit("brl");
    reveal_strlit("r$");
    reveal_strlit("real");
    reveal_strlit("reais");
    reveal_strlit("real brasileiro");
    reveal_strlit("reais brasileiros");
    reveal_strlit("eur");
    reveal_strlit("euro");
    reveal_strlit("euros");
    reveal_strlit("gbp");
    reveal_strlit("libra");
    reveal_strlit("libras");
    reveal_strlit("pound");
    reveal_strlit("pounds");
    reveal_strlit("libra esterlina");
    reveal_strlit("jpy");
    reveal_strlit("iene");
    reveal_strlit("ienes");
    reveal_strlit("yen");
    reveal_strlit("cad");
    reveal_strlit("dolar canadense");
    reveal_strlit("dolares canadenses");
    reveal_strlit("aud");
    reveal_strlit("dolar australiano");
    reveal_strlit("dolares australianes");
    reveal_strlit("chf");
    reveal_strlit("franco suico");
    reveal_strlit("francos suicos");
    reveal_strlit("cny");
    reveal_strlit("yuan");
    reveal_strlit("yuans");
    reveal_strlit("ars");
    reveal_strlit("peso argentino");
    reveal_strlit("pesos argentinos");
    assert("usd"@.len() == 3);
    assert("us$"@.len() == 3);
    assert("dolar"@.len() == 5);
    assert("dolares"@.len() == 7);
    assert("dollar"@.len() == 6);
    assert("dollars"@.len() == 7);
    assert("dolar americano"@.len() == 15);
    assert("dolares americanos"@.len() == 18);
    assert("brl"@.len() == 3);
    assert("r$"@.len() == 2);
    assert("real"@.len() == 4);
    assert("reais"@.len() == 5);
    assert("real brasileiro"@.len() == 15);
    assert("reais brasileiros"@.len() == 17);
    assert("eur"@.len() == 3);
    assert("euro"@.len() == 4);
    assert("euros"@.len() == 5);
    assert("gbp"@.len() == 3);
    assert("libra"@.len() == 5);
    assert("libras"@.len() == 6);
    assert("pound"@.len() == 5);
    assert("pounds"@.len() == 6);
    assert("libra esterlina"@.len() == 15);
    assert("jpy"@.len() == 3);
    assert("iene"@.len() == 4);
    assert("ienes"@.len() == 5);
    assert("yen"@.len() == 3);
    assert("cad"@.len() == 3);
    assert("dolar canadense"@.len() == 15);
    assert("dolares canadenses"@.len() == 18);
    assert("aud"@.len() == 3);
    assert("dolar australiano"@.len() == 17);
    assert("dolares australianes"@.len() == 20);
    assert("chf"@.len() == 3);
    assert("franco suico"@.len() == 12);
    assert("francos suicos"@.len() == 14);
    assert("cny"@.len() == 3);
    assert("yuan"@.len() == 4);
    assert("yuans"@.len() == 5);
    assert("ars"@.len() == 3);
    assert("peso argentino"@.len() == 14);
    assert("pesos argentinos"@.len() == 16);
    reveal_with_fuel(none_before, 42);
    assert("usd"@[0] != "ars"@[0]);
    assert("us$"@[0] != "ars"@[0]);
    assert("brl"@[0] != "ars"@[0]);
    assert("eur"@[0] != "ars"@[0]);
    assert("gbp"@[0] != "ars"@[0]);
    assert("jpy"@[0] != "ars"@[0]);
    assert("yen"@[0] != "ars"@[0]);
    assert("cad"@[0] != "ars"@[0]);
    assert("aud"@[1] != "ars"@[1]);
    assert("chf"@[0] != "ars"@[0]);
    assert("cny"@[0] != "ars"@[0]);
    assert(none_before(currency_names(), "ars"@, 39));
    lemma_name_at("ars"@, 39);
    assert(plain_text("ars"@) =~= "ars"@);
    assert("francos suicos"@[0] != "peso argentino"@[0]);
    assert(none_before(currency_names(), "peso argentino"@, 40));
    lemma_name_at("peso argentino"@, 40);
    assert(plain_text("peso argentino"@) =~= "peso argentino"@);
    assert(none_before(currency_names(), "pesos argentinos"@, 41));
    lemma_name_at("pesos argentinos"@, 41);
    assert(plain_text("pesos argentinos"@) =~= "pesos argentinos"@);
}

proof fn lemma_words_mxn()
    ensures
        code_for(currency_names(), "mxn"@) == Some("MXN"@),
        plain_text("mxn"@) == "mxn"@,
        code_for(currency_names(), "peso mexicano"@) == Some("MXN"@),
        plain_text("peso mexicano"@) == "peso mexicano"@,
        code_for(currency_names(), "pesos mexicanos"@) == Some("MXN"@),
        plain_text("pesos mexicanos"@) == "pesos mexicanos"@,
{
    reveal_strlit("usd");
    reveal_strlit("us$");
    reveal_strlit("dolar");
    reveal_strlit("dolares");
    reveal_strlit("dollar");
    reveal_strlit("dollars");
    reveal_strlit("dolar americano");
    reveal_strlit("dolares americanos");
    reveal_strlit("brl");
    reveal_strlit("r$");
    reveal_strlit("real");
    reveal_strlit("reais");
    reveal_strlit("real brasileiro");
    reveal_strlit("reais brasileiros");
    reveal_strlit("eur");
    reveal_strlit("euro");
    reveal_strlit("euros");
    reveal_strlit("gbp");
    reveal_strlit("libra");
    reveal_strlit("libras");
    reveal_strlit("pound");
    reveal_strlit("pounds");
    reveal_strlit("libra esterlina");
    reveal_strlit("jpy");
    reveal_strlit("iene");
    reveal_strlit("ienes");
    reveal_strlit("yen");
    reveal_strlit("cad");
    reveal_strlit("dolar canadense");
    reveal_strlit("dolares canadenses");
    reveal_strlit("aud");
    reveal_strlit("dolar australiano");
    reveal_strlit("dolares australianes");
    reveal_strlit("chf");
    reveal_strlit("franco suico");
    reveal_strlit("francos suicos");
    reveal_strlit("cny");
    reveal_strlit("yuan");
    reveal_strlit("yuans");
    reveal_strlit("ars");
    reveal_strlit("peso argentino");
    reveal_strlit("pesos argentinos");
    reveal_strlit("mxn");
    reveal_strlit("peso mexicano");
    reveal_strlit("pesos mexicanos");
    assert("usd"@.len() == 3);
    assert("us$"@.len() == 3);
    assert("dolar"@.len() == 5);
    assert("dolares"@.len() == 7);
    assert("dollar"@.len() == 6);
    assert("dollars"@.len() == 7);
    assert("dolar americano"@.len() == 15);
    assert("dolares americanos"@.len() == 18);
    assert("brl"@.len() == 3);
    assert("r$"@.len() == 2);
    assert("real"@.len() == 4);
    assert("reais"@.len() == 5);
    assert("real brasileiro"@.len() == 15);
    assert("reais brasileiros"@.len() == 17);
    assert("eur"@.len() == 3);
    assert("euro"@.len() == 4);
    assert("euros"@.len() == 5);
    assert("gbp"@.len() == 3);
    assert("libra"@.len() == 5);
    assert("libras"@.len() == 6);
    assert("pound"@.len() == 5);
    assert("pounds"@.len() == 6);
    assert("libra esterlina"@.len() == 15);
    assert("jpy"@.len() == 3);
    assert("iene"@.len() == 4);
    assert("ienes"@.len() == 5);
    assert("yen"@.len() == 3);
    assert("cad"@.len() == 3);
    assert("dolar canadense"@.len() == 15);
    assert("dolares canadenses"@.len() == 18);
    assert("aud"@.len() == 3);
    assert("dolar australiano"@.len() == 17);
    assert("dolares australianes"@.len() == 20);
    assert("chf"@.len() == 3);
    assert("franco suico"@.len() == 12);
    assert("francos suicos"@.len() == 14);
    assert("cny"@.len() == 3);
    assert("yuan"@.len() == 4);
    assert("yuans"@.len() == 5);
    assert("ars"@.len() == 3);
    assert("peso argentino"@.len() == 14);
    assert("pesos argentinos"@.len() == 16);
    assert("mxn"@.len() == 3);
    assert("peso mexicano"@.len() == 13);
    assert("pesos mexicanos"@.len() == 15);
    reveal_with_fuel(none_before, 45);
    assert("usd"@[0] != "mxn"@[0]);
    assert("us$"@[0] != "mxn"@[0]);
    assert("brl"@[0] != "mxn"@[0]);
    assert("eur"@[0] != "mxn"@[0]);
    assert("gbp"@[0] != "mxn"@[0]);
    assert("jpy"@[0] != "mxn"@[0]);
    assert("yen"@[0] != "mxn"@[0]);
    assert("cad"@[0] != "mxn"@[0]);
    assert("aud"@[0] != "mxn"@[0]);
    assert("chf"@[0] != "mxn"@[0]);
    assert("cny"@[0] != "mxn"@[0]);
    assert("ars"@[0] != "mxn"@[0]);
    assert(none_before(currency_names(), "mxn"@, 42));
    lemma_name_at("mxn"@, 42);
    assert(plain_text("mxn"@) =~= "mxn"@);
    assert(none_before(currency_names(), "peso mexicano"@, 43));
    lemma_name_at("peso mexicano"@, 43);
    assert(plain_text("peso mexicano"@) =~= "peso mexicano"@);
    assert("dolar americano"@[0] != "pesos mexicanos"@[0]);
    assert("real brasileiro"@[0] != "pesos mexicanos"@[0]);
    assert("libra esterlina"@[0] != "pesos mexicanos"@[0]);
    assert("dolar canadense"@[0] != "pesos mexicanos"@[0]);
    assert(none_before(currency_names(), "pesos mexicanos"@, 44));
    lemma_name_at("pesos mexicanos"@, 44);
    assert(plain_text("pesos mexicanos"@) =~= "pesos mexicanos"@);
}

proof fn lemma_code_for_words()
    ensures
        forall|i: int, j: int|
            0 <= i < currency_words().len() && 0 <= j < currency_words()[i].1.len() ==> code_for(
                currency_names(),
                #[trigger] currency_words()[i].1[j],
            ) == Some(currency_words()[i].0) && plain_text(currency_words()[i].1[j]) == currency_words()[i].1[j],
{
    assert forall|i: int, j: int|
        0 <= i < currency_words().len() && 0 <= j < currency_words()[i].1.len() implies code_for(
            currency_names(),
            #[trigger] currency_words()[i].1[j],
        ) == Some(currency_words()[i].0) && plain_text(currency_words()[i].1[j]) == currency_words()[i].1[j] by {
        if i == 0 {
            lemma_words_usd();
            assert(currency_words()[0].1 =~= seq!["usd"@, "us$"@, "dolar"@, "dolares"@, "dollar"@, "dollars"@, "dolar americano"@, "dolares americanos"@]);
        } else if i == 1 {
            lemma_words_brl();
            assert(currency_words()[1].1 =~= seq!["brl"@, "r$"@, "real"@, "reais"@, "real brasileiro"@, "reais brasileiros"@]);
        } else if i == 2 {
            lemma_words_eur();
            assert(currency_words()[2].1 =~= seq!["eur"@, "euro"@, "euros"@]);
        } else if i == 3 {
            lemma_words_gbp();
            assert(currency_words()[3].1 =~= seq!["gbp"@, "libra"@, "libras"@, "pound"@, "pounds"@, "libra esterlina"@]);
        } else if i == 4 {
            lemma_words_jpy();
            assert(currency_words()[4].1 =~= seq!["jpy"@, "iene"@, "ienes"@, "yen"@]);
        } else if i == 5 {
            lemma_words_cad();
            assert(currency_words()[5].1 =~= seq!["cad"@, "dolar canadense"@, "dolares canadenses"@]);
        } else if i == 6 {
            lemma_words_aud();
            assert(currency_words()[6].1 =~= seq!["aud"@, "dolar australiano"@, "dolares australianes"@]);
        } else if i == 7 {
            lemma_words_chf();
            assert(currency_words()[7].1 =~= seq!["chf"@, "franco suico"@, "francos suicos"@]);
        } else if i == 8 {
            lemma_words_cny();
            assert(currency_words()[8].1 =~= seq!["cny"@, "yuan"@, "yuans"@]);
        } else if i == 9 {
            lemma_words_ars();
            assert(currency_words()[9].1 =~= seq!["ars"@, "peso argentino"@, "pesos argentinos"@]);
        } else if i == 10 {
            lemma_words_mxn();
            assert(currency_words()[10].1 =~= seq!["mxn"@, "peso mexicano"@, "pesos mexicanos"@]);
        }
    }
}

/// A currency's name gives its ISO code: a token that reads, trimmed and in
/// lower case, as one of the names `currency_words` lists for a code (the
/// code itself among them) resolves to that code; so "euro", "euros" and
/// "eur" all give "EUR".
pub proof fn lemma_name_gives_code(token: Seq<char>, i: int, j: int)
    requires
        0 <= i < currency_words().len(),
        0 <= j < currency_words()[i].1.len(),
        lowercase(seq_trim(token)) == currency_words()[i].1[j],
    ensures
        resolve_currency_spec(token) == Some(currency_words()[i].0),
{
    lemma_code_for_words();
}

proof fn lemma_code_for_entry(names: Seq<(Seq<char>, Seq<char>)>, t: Seq<char>)
    ensures
        code_for(names, t) matches Some(c) ==> exists|k: int| 0 <= k < names.len() && #[trigger] names[k] == (t, c),
    decreases names.len(),
{
    if names.len() > 0 && names[0].0 != t {
        lemma_code_for_entry(names.drop_first(), t);
        if let Some(c) = code_for(names, t) {
            let k = choose|k: int| 0 <= k < names.drop_first().len() && #[trigger] names.drop_first()[k] == (t, c);
            assert(names[k + 1] == (t, c));
        }
    } else if names.len() > 0 {
        assert(names[0] == (t, names[0].1));
    }
}

/// A token resolves either through a name `currency_words` lists, to that
/// name's code, or, being three ASCII letters, to those letters in upper
/// case: no other name has a currency.
pub proof fn lemma_known_names_only(token: Seq<char>)
    ensures
        resolve_currency_spec(token) matches Some(code) ==> (exists|i: int, j: int|
            0 <= i < currency_words().len() && 0 <= j < currency_words()[i].1.len()
                && #[trigger] currency_words()[i].1[j] == plain_text(lowercase(seq_trim(token)))
                && currency_words()[i].0 == code) || (is_three_letters(plain_text(lowercase(seq_trim(token))))
                && code == uppercase(plain_text(lowercase(seq_trim(token))))),
{
    let t = plain_text(lowercase(seq_trim(token)));
    if let Some(code) = code_for(currency_names(), t) {
        lemma_code_for_entry(currency_names(), t);
        let k = choose|k: int| 0 <= k < currency_names().len() && #[trigger] currency_names()[k] == (t, code);
        if k == 0 {
            assert(currency_words()[0].1[0] == currency_names()[k].0 && currency_words()[0].0 == currency_names()[k].1);
        } else if k == 1 {
            assert(currency_words()[0].1[1] == currency_names()[k].0 && currency_words()[0].0 == currency_names()[k].1);
        } else if k == 2 {
            assert(currency_words()[0].1[2] == currency_names()[k].0 && currency_words()[0].0 == currency_names()[k].1);
        } else if k == 3 {
            assert(currency_words()[0].1[3] == currency_names()[k].0 && currency_words()[0].0 == currency_names()[k].1);
        } else if k == 4 {
            assert(currency_words()[0].1[4] == currency_names()[k].0 && currency_words()[0].0 == currency_names()[k].1);
        } else if k == 5 {
            assert(currency_words()[0].1[5] == currency_names()[k].0 && currency_words()[0].0 == currency_names()[k].1);
        } else if k == 6 {
            assert(currency_words()[0].1[6] == currency_names()[k].0 && currency_words()[0].0 == currency_names()[k].1);
        } else if k == 7 {
            assert(currency_words()[0].1[7] == currency_names()[k].0 && currency_words()[0].0 == currency_names()[k].1);
        } else if k == 8 {
            assert(currency_words()[1].1[0] == currency_names()[k].0 && currency_words()[1].0 == currency_names()[k].1);
        } else if k == 9 {
            assert(currency_words()[1].1[1] == currency_names()[k].0 && currency_words()[1].0 == currency_names()[k].1);
        } else if k == 10 {
            assert(currency_words()[1].1[2] == currency_names()[k].0 && currency_words()[1].0 == currency_names()[k].1);
        } else if k == 11 {
            assert(currency_words()[1].1[3] == currency_names()[k].0 && currency_words()[1].0 == currency_names()[k].1);
        } else if k == 12 {
            assert(currency_words()[1].1[4] == currency_names()[k].0 && currency_words()[1].0 == currency_names()[k].1);
        } else if k == 13 {
            assert(currency_words()[1].1[5] == currency_names()[k].0 && currency_words()[1].0 == currency_names()[k].1);
        } else if k == 14 {
            assert(currency_words()[2].1[0] == currency_names()[k].0 && currency_words()[2].0 == currency_names()[k].1);
        } else if k == 15 {
            assert(currency_words()[2].1[1] == currency_names()[k].0 && currency_words()[2].0 == currency_names()[k].1);
        } else if k == 16 {
            assert(currency_words()[2].1[2] == currency_names()[k].0 && currency_words()[2].0 == currency_names()[k].1);
        } else if k == 17 {
            assert(currency_words()[3].1[0] == currency_names()[k].0 && currency_words()[3].0 == currency_names()[k].1);
        } else if k == 18 {
            assert(currency_words()[3].1[1] == currency_names()[k].0 && currency_words()[3].0 == currency_names()[k].1);
        } else if k == 19 {
            assert(currency_words()[3].1[2] == currency_names()[k].0 && currency_words()[3].0 == currency_names()[k].1);
        } else if k == 20 {
            assert(currency_words()[3].1[3] == currency_names()[k].0 && currency_words()[3].0 == currency_names()[k].1);
        } else if k == 21 {
            assert(currency_words()[3].1[4] == currency_names()[k].0 && currency_words()[3].0 == currency_names()[k].1);
        } else if k == 22 {
            assert(currency_words()[3].1[5] == currency_names()[k].0 && currency_words()[3].0 == currency_names()[k].1);
        } else if k == 23 {
            assert(currency_words()[4].1[0] == currency_names()[k].0 && currency_words()[4].0 == currency_names()[k].1);
        } else if k == 24 {
            assert(currency_words()[4].1[1] == currency_names()[k].0 && currency_words()[4].0 == currency_names()[k].1);
        } else if k == 25 {
            assert(currency_words()[4].1[2] == currency_names()[k].0 && currency_words()[4].0 == currency_names()[k].1);
        } else if k == 26 {
            assert(currency_words()[4].1[3] == currency_names()[k].0 && currency_words()[4].0 == currency_names()[k].1);
        } else if k == 27 {
            assert(currency_words()[5].1[0] == currency_names()[k].0 && currency_words()[5].0 == currency_names()[k].1);
        } else if k == 28 {
            assert(currency_words()[5].1[1] == currency_names()[k].0 && currency_words()[5].0 == currency_names()[k].1);
        } else if k == 29 {
            assert(currency_words()[5].1[2] == currency_names()[k].0 && currency_words()[5].0 == currency_names()[k].1);
        } else if k == 30 {
            assert(currency_words()[6].1[0] == currency_names()[k].0 && currency_words()[6].0 == currency_names()[k].1);
        } else if k == 31 {
            assert(currency_words()[6].1[1] == currency_names()[k].0 && currency_words()[6].0 == currency_names()[k].1);
        } else if k == 32 {
            assert(currency_words()[6].1[2] == currency_names()[k].0 && currency_words()[6].0 == currency_names()[k].1);
        } else if k == 33 {
            assert(currency_words()[7].1[0] == currency_names()[k].0 && currency_words()[7].0 == currency_names()[k].1);
        } else if k == 34 {
            assert(currency_words()[7].1[1] == currency_names()[k].0 && currency_words()[7].0 == currency_names()[k].1);
        } else if k == 35 {
            assert(currency_words()[7].1[2] == currency_names()[k].0 && currency_words()[7].0 == currency_names()[k].1);
        } else if k == 36 {
            assert(currency_words()[8].1[0] == currency_names()[k].0 && currency_words()[8].0 == currency_names()[k].1);
        } else if k == 37 {
            assert(currency_words()[8].1[1] == currency_names()[k].0 && currency_words()[8].0 == currency_names()[k].1);
        } else if k == 38 {
            assert(currency_words()[8].1[2] == currency_names()[k].0 && currency_words()[8].0 == currency_names()[k].1);
        } else if k == 39 {
            assert(currency_words()[9].1[0] == currency_names()[k].0 && currency_words()[9].0 == currency_names()[k].1);
        } else if k == 40 {
            assert(currency_words()[9].1[1] == currency_names()[k].0 && currency_words()[9].0 == currency_names()[k].1);
        } else if k == 41 {
            assert(currency_words()[9].1[2] == currency_names()[k].0 && currency_words()[9].0 == currency_names()[k].1);
        } else if k == 42 {
            assert(currency_words()[10].1[0] == currency_names()[k].0 && currency_words()[10].0 == currency_names()[k].1);
        } else if k == 43 {
            assert(currency_words()[10].1[1] == currency_names()[k].0 && currency_words()[10].0 == currency_names()[k].1);
        } else if k == 44 {
            assert(currency_words()[10].1[2] == currency_names()[k].0 && currency_words()[10].0 == currency_names()[k].1);
        }
    }
}

} // verus!
