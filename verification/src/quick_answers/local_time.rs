//! The local time or today's date: "hora", "time", "data", "hoje". Which
//! of the two a query asks for is read here; the clock is the caller's.

use vstd::prelude::*;
use crate::quick_answers::QuickAnswer;
use crate::text::{cat3, lowercase, opt_view, seq_trim, str_eq, to_lowercase, trimmed_chars, string_of};

verus! {

/// What a clock question asks for.
#[derive(Clone, Copy, Debug, PartialEq, Eq, Structural)]
pub enum ClockAsk {
    /// The time now.
    Time,
    /// Today's date.
    Date,
}

/// The questions for the time, in lower case.
pub open spec fn time_words() -> Seq<Seq<char>> {
    seq![
        "hora"@,
        "time"@,
        "horário"@,
        "horario"@,
        "que horas são"@,
        "que horas sao"@,
        "what time"@,
    ]
}

/// The questions for the date, in lower case.
pub open spec fn date_words() -> Seq<Seq<char>> {
    seq!["data"@, "date"@, "hoje"@, "today"@, "dia"@, "what date"@]
}

/// What the trimmed query `t` asks of the clock: the time when its lower
/// case is one of `time_words`, the date when it is one of `date_words`.
pub open spec fn clock_query(t: Seq<char>) -> Option<ClockAsk> {
    let q = lowercase(t);
    if time_words().contains(q) {
        Some(ClockAsk::Time)
    } else if date_words().contains(q) {
        Some(ClockAsk::Date)
    } else {
        None
    }
}

fn one_of(words: &Vec<&str>, q: &str) -> (r: bool)
    ensures
        r == words@.map_values(|w: &str| w@).contains(q@),
{
    let ghost ws = words@.map_values(|w: &str| w@);
    let mut i: usize = 0;
    while i < words.len()
        invariant
            i <= words@.len(),
            ws == words@.map_values(|w: &str| w@),
            forall|k: int| 0 <= k < i ==> ws[k] != q@,
        decreases words.len() - i,
    {
        if str_eq(words[i], q) {
            assert(ws[i as int] == q@);
            return true;
        }
        i = i + 1;
    }
    false
}

/// What a query asks of the clock (see `clock_query`), read from its
/// trimmed text.
pub fn try_local_time(query: &str) -> (r: Option<ClockAsk>)
    ensures
        r == clock_query(seq_trim(query@)),
{
    let t = string_of(trimmed_chars(query).as_slice());
    let q = to_lowercase(t.as_str());
    let time = vec!["hora", "time", "horário", "horario", "que horas são", "que horas sao", "what time"];
    let date = vec!["data", "date", "hoje", "today", "dia", "what date"];
    proof {
        reveal_strlit("hora");
        reveal_strlit("time");
        reveal_strlit("horário");
        reveal_strlit("horario");
        reveal_strlit("que horas são");
        reveal_strlit("que horas sao");
        reveal_strlit("what time");
        reveal_strlit("data");
        reveal_strlit("date");
        reveal_strlit("hoje");
        reveal_strlit("today");
        reveal_strlit("dia");
        reveal_strlit("what date");
    }
    assert(time@.map_values(|w: &str| w@) =~= time_words());
    assert(date@.map_values(|w: &str| w@) =~= date_words());
    if one_of(&time, q.as_str()) {
        Some(ClockAsk::Time)
    } else if one_of(&date, q.as_str()) {
        Some(ClockAsk::Date)
    } else {
        None
    }
}

/// The answer, from the clock as the caller formatted it: for the time,
/// the weekday as label, the time with seconds as value and the date as
/// hint; for the date, "Hoje" as label, the date as value and "weekday,
/// hours:minutes" as hint.
pub fn answer(ask: ClockAsk, weekday: &str, time: &str, short_time: &str, date: &str) -> (r: QuickAnswer)
    ensures
        r.kind@ == "time"@,
        match ask {
            ClockAsk::Time => r.label@ == weekday@ && r.value@ == time@ && opt_view(r.hint) == Some(date@),
            ClockAsk::Date => r.label@ == "Hoje"@ && r.value@ == date@ && opt_view(r.hint) == Some(
                weekday@ + ", "@ + short_time@,
            ),
        },
{
    match ask {
        ClockAsk::Time => QuickAnswer {
            kind: String::from_str("time"),
            label: String::from_str(weekday),
            value: String::from_str(time),
            hint: Some(String::from_str(date)),
        },
        ClockAsk::Date => QuickAnswer {
            kind: String::from_str("time"),
            label: String::from_str("Hoje"),
            value: String::from_str(date),
            hint: Some(cat3(weekday, ", ", short_time)),
        },
    }
}

} // verus!
