//! Quick answers: currency and unit conversions, arithmetic, definitions
//! and the time in a city, read from the query.

pub mod amount;
pub mod calculator;
pub mod conversion;
pub mod currency;
pub mod dictionary;
pub mod local_time;
pub mod timezone;

use vstd::prelude::*;
use crate::quick_answers::calculator::{expression_of, try_evaluate};
use crate::quick_answers::conversion::{conversion_query, ConversionRequest, ConversionView};
use crate::quick_answers::currency::{currency_query, CurrencyRequest, CurrencyView};
use crate::quick_answers::dictionary::{definition_query, entry_url, try_define, DefinitionRequest};
use crate::quick_answers::timezone::{timezone_query, try_timezone, TimezoneRequest};
use crate::quick_answers::local_time::{clock_query, try_local_time, ClockAsk};
use crate::text::{lemma_trim_idempotent, seq_trim, string_of, trimmed_chars};

verus! {

/// An answer shown above the results.
#[derive(Clone, Debug)]
pub struct QuickAnswer {
    pub kind: String,
    pub label: String,
    pub value: String,
    pub hint: Option<String>,
}

/// A quick answer a query may get, once the caller has done the outside
/// part: fetched the rate, done the arithmetic, evaluated the expression,
/// looked up the definition or read the clock.
#[derive(Debug)]
pub enum AnswerRequest {
    Currency(CurrencyRequest),
    Conversion(ConversionRequest),
    Calculation(String),
    Definition(DefinitionRequest),
    Timezone(TimezoneRequest),
    /// The local time or today's date.
    LocalTime(ClockAsk),
}

/// The text of an answer request.
pub enum AnswerView {
    Currency(CurrencyView),
    Conversion(ConversionView),
    Calculation(Seq<char>),
    /// The word and the address of its entry.
    Definition(Seq<char>, Seq<char>),
    /// The city and its zone.
    Timezone(Seq<char>, Seq<char>),
    LocalTime(ClockAsk),
}

impl View for AnswerRequest {
    type V = AnswerView;

    open spec fn view(&self) -> AnswerView {
        match self {
            AnswerRequest::Currency(c) => AnswerView::Currency(c@),
            AnswerRequest::Conversion(c) => AnswerView::Conversion(c@),
            AnswerRequest::Calculation(e) => AnswerView::Calculation(e@),
            AnswerRequest::Definition(d) => AnswerView::Definition(d.word@, d.url@),
            AnswerRequest::Timezone(t) => AnswerView::Timezone(t.city@, t.zone@),
            AnswerRequest::LocalTime(a) => AnswerView::LocalTime(*a),
        }
    }
}

/// The views of a sequence of requests.
pub open spec fn answer_views(s: Seq<AnswerRequest>) -> Seq<AnswerView> {
    s.map_values(|a: AnswerRequest| a@)
}

/// The one-element sequence of `o`'s value, or the empty one.
pub open spec fn opt_seq(o: Option<AnswerView>) -> Seq<AnswerView> {
    match o {
        Some(a) => seq![a],
        None => Seq::empty(),
    }
}

/// The answers a query may get, in the order they are tried: none for an
/// empty (trimmed) query; else a currency conversion, a unit conversion, an
/// expression, a definition, the time in a city and the local time or
/// date, each where the trimmed query reads as one. The first that the caller completes is the answer.
pub open spec fn answer_requests(query: Seq<char>) -> Seq<AnswerView> {
    let t = seq_trim(query);
    if t.len() == 0 {
        Seq::empty()
    } else {
        opt_seq(
            match currency_query(t) {
                Some(c) => Some(AnswerView::Currency(c)),
                None => None,
            },
        ) + opt_seq(
            match conversion_query(t) {
                Some(c) => Some(AnswerView::Conversion(c)),
                None => None,
            },
        ) + opt_seq(
            match expression_of(t) {
                Some(e) => Some(AnswerView::Calculation(e)),
                None => None,
            },
        ) + opt_seq(
            match definition_query(t) {
                Some(w) => Some(AnswerView::Definition(w, entry_url(w))),
                None => None,
            },
        ) + opt_seq(
            match timezone_query(t) {
                Some((city, zone)) => Some(AnswerView::Timezone(city, zone)),
                None => None,
            },
        ) + opt_seq(
            match clock_query(t) {
                Some(a) => Some(AnswerView::LocalTime(a)),
                None => None,
            },
        )
    }
}

/// The answers a query may get, in the order they are tried (see
/// `answer_requests`).
#[verifier::rlimit(50)]
pub fn try_answer(query: &str) -> (r: Vec<AnswerRequest>)
    ensures
        answer_views(r@) == answer_requests(query@),
{
    let t = string_of(trimmed_chars(query).as_slice());
    let mut out: Vec<AnswerRequest> = Vec::new();
    if t.as_str().is_empty() {
        assert(answer_views(out@) =~= Seq::<AnswerView>::empty());
        return out;
    }
    let ghost s0 = answer_views(out@);
    match currency::try_convert(t.as_str()) {
        Some(c) => out.push(AnswerRequest::Currency(c)),
        None => {},
    }
    let ghost s1 = answer_views(out@);
    assert(s1 =~= s0 + opt_seq(
        match currency_query(t@) {
            Some(c) => Some(AnswerView::Currency(c)),
            None => None,
        },
    ));
    match conversion::try_convert(t.as_str()) {
        Some(c) => out.push(AnswerRequest::Conversion(c)),
        None => {},
    }
    let ghost s2 = answer_views(out@);
    assert(s2 =~= s1 + opt_seq(
        match conversion_query(t@) {
            Some(c) => Some(AnswerView::Conversion(c)),
            None => None,
        },
    ));
    match try_evaluate(t.as_str()) {
        Some(e) => out.push(AnswerRequest::Calculation(e)),
        None => {},
    }
    let ghost s3 = answer_views(out@);
    assert(s3 =~= s2 + opt_seq(
        match expression_of(t@) {
            Some(e) => Some(AnswerView::Calculation(e)),
            None => None,
        },
    ));
    match try_define(t.as_str()) {
        Some(d) => out.push(AnswerRequest::Definition(d)),
        None => {},
    }
    let ghost s4 = answer_views(out@);
    assert(s4 =~= s3 + opt_seq(
        match definition_query(t@) {
            Some(w) => Some(AnswerView::Definition(w, entry_url(w))),
            None => None,
        },
    ));
    match try_timezone(t.as_str()) {
        Some(z) => out.push(AnswerRequest::Timezone(z)),
        None => {},
    }
    let ghost s5 = answer_views(out@);
    assert(s5 =~= s4 + opt_seq(
        match timezone_query(t@) {
            Some((city, zone)) => Some(AnswerView::Timezone(city, zone)),
            None => None,
        },
    ));
    let clock = try_local_time(t.as_str());
    assert(clock == clock_query(t@)) by {
        lemma_trim_idempotent(query@);
    }
    match clock {
        Some(a) => out.push(AnswerRequest::LocalTime(a)),
        None => {},
    }
    assert(answer_views(out@) =~= s5 + opt_seq(
        match clock_query(t@) {
            Some(a) => Some(AnswerView::LocalTime(a)),
            None => None,
        },
    ));
    assert(s0 =~= Seq::<AnswerView>::empty());
    out
}

} // verus!
