//! The time in a city: "time in tokyo", "hora em londres". The city and
//! its time zone are read here; the clock is the caller's.

use vstd::prelude::*;
use crate::matchers::{group, regex_captures, regex_captures_of};
use crate::quick_answers::currency::cap;
use crate::quick_answers::QuickAnswer;
use crate::text::{chars_eq, chars_of, lowercase, opt_view, seq_trim, string_of, to_lowercase, trimmed_chars};

verus! {

/// The cities known by name and their time zones.
pub open spec fn cities() -> Seq<(Seq<char>, Seq<char>)> {
    seq![
        ("tokyo"@, "Asia/Tokyo"@),
        ("toquio"@, "Asia/Tokyo"@),
        ("london"@, "Europe/London"@),
        ("londres"@, "Europe/London"@),
        ("new york"@, "America/New_York"@),
        ("nova york"@, "America/New_York"@),
        ("paris"@, "Europe/Paris"@),
        ("sao paulo"@, "America/Sao_Paulo"@),
        ("são paulo"@, "America/Sao_Paulo"@),
        ("los angeles"@, "America/Los_Angeles"@),
        ("berlin"@, "Europe/Berlin"@),
        ("sydney"@, "Australia/Sydney"@),
        ("utc"@, "UTC"@)
    ]
}

/// The zone of the first city named `t`.
pub open spec fn zone_for(names: Seq<(Seq<char>, Seq<char>)>, t: Seq<char>) -> Option<Seq<char>>
    decreases names.len(),
{
    if names.len() == 0 {
        None
    } else if names[0].0 == t {
        Some(names[0].1)
    } else {
        zone_for(names.drop_first(), t)
    }
}

/// The pattern of a question for the time in a city.
pub open spec fn time_pattern() -> Seq<char> {
    r"(?i)^(?:time in|hora em|horário em)\s+(.+)$"@
}

/// A question for the time in a city: the city, trimmed and in lower case,
/// and its time zone.
#[derive(Clone, Debug)]
pub struct TimezoneRequest {
    pub city: String,
    pub zone: String,
}

/// What `try_timezone` reads from a query: the trimmed, lowercase city of
/// the captures of the pattern on the trimmed query, when it is known.
pub open spec fn timezone_query(query: Seq<char>) -> Option<(Seq<char>, Seq<char>)> {
    match regex_captures_of(time_pattern(), seq_trim(query)) {
        Some(caps) => match cap(caps, 1) {
            Some(c) => {
                let city = lowercase(seq_trim(c));
                match zone_for(cities(), city) {
                    Some(z) => Some((city, z)),
                    None => None,
                }
            },
            None => None,
        },
        None => None,
    }
}

fn city_list() -> (r: Vec<(&'static str, &'static str)>)
    ensures
        r@.map_values(|p: (&str, &str)| (p.0@, p.1@)) == cities(),
{
    let mut v: Vec<(&'static str, &'static str)> = Vec::new();
    v.push(("tokyo", "Asia/Tokyo"));
    v.push(("toquio", "Asia/Tokyo"));
    v.push(("london", "Europe/London"));
    v.push(("londres", "Europe/London"));
    v.push(("new york", "America/New_York"));
    v.push(("nova york", "America/New_York"));
    v.push(("paris", "Europe/Paris"));
    v.push(("sao paulo", "America/Sao_Paulo"));
    v.push(("são paulo", "America/Sao_Paulo"));
    v.push(("los angeles", "America/Los_Angeles"));
    v.push(("berlin", "Europe/Berlin"));
    v.push(("sydney", "Australia/Sydney"));
    v.push(("utc", "UTC"));
    assert(v@.map_values(|p: (&str, &str)| (p.0@, p.1@)) =~= cities());
    v
}

/// The city and zone a captured city names (the tail of `timezone_query`).
pub fn from_captures(caps: &Vec<Option<String>>) -> (r: Option<TimezoneRequest>)
    ensures
        match r {
            Some(t) => match cap(caps.deep_view(), 1) {
                Some(c) => zone_for(cities(), lowercase(seq_trim(c))) == Some(t.zone@) && t.city@
                    == lowercase(seq_trim(c)),
                None => false,
            },
            None => match cap(caps.deep_view(), 1) {
                Some(c) => zone_for(cities(), lowercase(seq_trim(c))) is None,
                None => true,
            },
        },
{
    let c = match group(caps, 1) {
        Some(x) => x,
        None => return None,
    };
    let city = to_lowercase(string_of(trimmed_chars(c.as_str()).as_slice()).as_str());
    let t = chars_of(city.as_str());
    let names = city_list();
    let ghost nv = names@.map_values(|p: (&str, &str)| (p.0@, p.1@));
    let mut i: usize = 0;
    assert(nv.subrange(0, nv.len() as int) =~= nv);
    while i < names.len()
        invariant
            i <= names@.len(),
            nv == names@.map_values(|p: (&str, &str)| (p.0@, p.1@)),
            nv == cities(),
            t@ == city@,
            cap(caps.deep_view(), 1) == Some(c@),
            city@ == lowercase(seq_trim(c@)),
            zone_for(nv, t@) == zone_for(nv.subrange(i as int, nv.len() as int), t@),
        decreases names.len() - i,
    {
        let ghost rest = nv.subrange(i as int, nv.len() as int);
        let (name, zone) = names[i];
        assert(rest[0] == (name@, zone@));
        if chars_eq(chars_of(name).as_slice(), t.as_slice()) {
            assert(zone_for(rest, t@) == Some(zone@));
            return Some(TimezoneRequest { city, zone: String::from_str(zone) });
        }
        assert(rest.drop_first() =~= nv.subrange(i + 1, nv.len() as int));
        i = i + 1;
    }
    None
}

/// The city and zone a query asks about (see `timezone_query`).
pub fn try_timezone(query: &str) -> (r: Option<TimezoneRequest>)
    ensures
        match r {
            Some(t) => timezone_query(query@) == Some((t.city@, t.zone@)),
            None => timezone_query(query@) is None,
        },
{
    let q = string_of(trimmed_chars(query).as_slice());
    match regex_captures(r"(?i)^(?:time in|hora em|horário em)\s+(.+)$", q.as_str()) {
        Some(caps) => from_captures(&caps),
        None => None,
    }
}

/// The answer: the city and the time there, formatted by the caller.
pub fn answer(city: &str, time: &str) -> (r: QuickAnswer)
    ensures
        r.kind@ == "timezone"@,
        r.label@ == city@,
        r.value@ == time@,
        opt_view(r.hint) == Some("Enter para copiar"@),
{
    QuickAnswer {
        kind: String::from_str("timezone"),
        label: String::from_str(city),
        value: String::from_str(time),
        hint: Some(String::from_str("Enter para copiar")),
    }
}


/// The cities known by each time zone, in English and in Portuguese.
pub open spec fn zone_cities() -> Seq<(Seq<char>, Seq<Seq<char>>)> {
    seq![
        ("Asia/Tokyo"@, seq!["tokyo"@, "toquio"@]),
        ("Europe/London"@, seq!["london"@, "londres"@]),
        ("America/New_York"@, seq!["new york"@, "nova york"@]),
        ("Europe/Paris"@, seq!["paris"@]),
        ("America/Sao_Paulo"@, seq!["sao paulo"@, "são paulo"@]),
        ("America/Los_Angeles"@, seq!["los angeles"@]),
        ("Europe/Berlin"@, seq!["berlin"@]),
        ("Australia/Sydney"@, seq!["sydney"@]),
        ("UTC"@, seq!["utc"@])
    ]
}

proof fn lemma_zone_for_names()
    ensures
        forall|i: int, j: int|
            0 <= i < zone_cities().len() && 0 <= j < zone_cities()[i].1.len() ==> zone_for(
                cities(),
                #[trigger] zone_cities()[i].1[j],
            ) == Some(zone_cities()[i].0),
{
    reveal_strlit("tokyo");
    reveal_strlit("toquio");
    reveal_strlit("london");
    reveal_strlit("londres");
    reveal_strlit("new york");
    reveal_strlit("nova york");
    reveal_strlit("paris");
    reveal_strlit("sao paulo");
    reveal_strlit("são paulo");
    reveal_strlit("los angeles");
    reveal_strlit("berlin");
    reveal_strlit("sydney");
    reveal_strlit("utc");
    reveal_with_fuel(zone_for, 14);
    assert("tokyo"@.len() != "toquio"@.len());
    assert("tokyo"@.len() != "london"@.len());
    assert("toquio"@[0] != "london"@[0]);
    assert("tokyo"@.len() != "londres"@.len());
    assert("toquio"@.len() != "londres"@.len());
    assert("london"@.len() != "londres"@.len());
    assert("tokyo"@.len() != "new york"@.len());
    assert("toquio"@.len() != "new york"@.len());
    assert("london"@.len() != "new york"@.len());
    assert("londres"@.len() != "new york"@.len());
    assert("tokyo"@.len() != "nova york"@.len());
    assert("toquio"@.len() != "nova york"@.len());
    assert("london"@.len() != "nova york"@.len());
    assert("londres"@.len() != "nova york"@.len());
    assert("new york"@.len() != "nova york"@.len());
    assert("tokyo"@[0] != "paris"@[0]);
    assert("toquio"@.len() != "paris"@.len());
    assert("london"@.len() != "paris"@.len());
    assert("londres"@.len() != "paris"@.len());
    assert("new york"@.len() != "paris"@.len());
    assert("nova york"@.len() != "paris"@.len());
    assert("tokyo"@.len() != "sao paulo"@.len());
    assert("toquio"@.len() != "sao paulo"@.len());
    assert("london"@.len() != "sao paulo"@.len());
    assert("londres"@.len() != "sao paulo"@.len());
    assert("new york"@.len() != "sao paulo"@.len());
    assert("nova york"@[0] != "sao paulo"@[0]);
    assert("paris"@.len() != "sao paulo"@.len());
    assert("tokyo"@.len() != "são paulo"@.len());
    assert("toquio"@.len() != "são paulo"@.len());
    assert("london"@.len() != "são paulo"@.len());
    assert("londres"@.len() != "são paulo"@.len());
    assert("new york"@.len() != "são paulo"@.len());
    assert("nova york"@[0] != "são paulo"@[0]);
    assert("paris"@.len() != "são paulo"@.len());
    assert("sao paulo"@[1] != "são paulo"@[1]);
    assert("tokyo"@.len() != "los angeles"@.len());
    assert("toquio"@.len() != "los angeles"@.len());
    assert("london"@.len() != "los angeles"@.len());
    assert("londres"@.len() != "los angeles"@.len());
    assert("new york"@.len() != "los angeles"@.len());
    assert("nova york"@.len() != "los angeles"@.len());
    assert("paris"@.len() != "los angeles"@.len());
    assert("sao paulo"@.len() != "los angeles"@.len());
    assert("são paulo"@.len() != "los angeles"@.len());
    assert("tokyo"@.len() != "berlin"@.len());
    assert("toquio"@[0] != "berlin"@[0]);
    assert("london"@[0] != "berlin"@[0]);
    assert("londres"@.len() != "berlin"@.len());
    assert("new york"@.len() != "berlin"@.len());
    assert("nova york"@.len() != "berlin"@.len());
    assert("paris"@.len() != "berlin"@.len());
    assert("sao paulo"@.len() != "berlin"@.len());
    assert("são paulo"@.len() != "berlin"@.len());
    assert("los angeles"@.len() != "berlin"@.len());
    assert("tokyo"@.len() != "sydney"@.len());
    assert("toquio"@[0] != "sydney"@[0]);
    assert("london"@[0] != "sydney"@[0]);
    assert("londres"@.len() != "sydney"@.len());
    assert("new york"@.len() != "sydney"@.len());
    assert("nova york"@.len() != "sydney"@.len());
    assert("paris"@.len() != "sydney"@.len());
    assert("sao paulo"@.len() != "sydney"@.len());
    assert("são paulo"@.len() != "sydney"@.len());
    assert("los angeles"@.len() != "sydney"@.len());
    assert("berlin"@[0] != "sydney"@[0]);
    assert("tokyo"@.len() != "utc"@.len());
    assert("toquio"@.len() != "utc"@.len());
    assert("london"@.len() != "utc"@.len());
    assert("londres"@.len() != "utc"@.len());
    assert("new york"@.len() != "utc"@.len());
    assert("nova york"@.len() != "utc"@.len());
    assert("paris"@.len() != "utc"@.len());
    assert("sao paulo"@.len() != "utc"@.len());
    assert("são paulo"@.len() != "utc"@.len());
    assert("los angeles"@.len() != "utc"@.len());
    assert("berlin"@.len() != "utc"@.len());
    assert("sydney"@.len() != "utc"@.len());
    assert(zone_for(cities(), "tokyo"@) == Some("Asia/Tokyo"@));
    assert(zone_for(cities(), "toquio"@) == Some("Asia/Tokyo"@));
    assert(zone_for(cities(), "london"@) == Some("Europe/London"@));
    assert(zone_for(cities(), "londres"@) == Some("Europe/London"@));
    assert(zone_for(cities(), "new york"@) == Some("America/New_York"@));
    assert(zone_for(cities(), "nova york"@) == Some("America/New_York"@));
    assert(zone_for(cities(), "paris"@) == Some("Europe/Paris"@));
    assert(zone_for(cities(), "sao paulo"@) == Some("America/Sao_Paulo"@));
    assert(zone_for(cities(), "são paulo"@) == Some("America/Sao_Paulo"@));
    assert(zone_for(cities(), "los angeles"@) == Some("America/Los_Angeles"@));
    assert(zone_for(cities(), "berlin"@) == Some("Europe/Berlin"@));
    assert(zone_for(cities(), "sydney"@) == Some("Australia/Sydney"@));
    assert(zone_for(cities(), "utc"@) == Some("UTC"@));
    assert forall|i: int, j: int|
        0 <= i < zone_cities().len() && 0 <= j < zone_cities()[i].1.len() implies zone_for(
            cities(),
            #[trigger] zone_cities()[i].1[j],
        ) == Some(zone_cities()[i].0) by {
        if i == 0 {
            assert(zone_cities()[0].1 =~= seq!["tokyo"@, "toquio"@]);
        } else if i == 1 {
            assert(zone_cities()[1].1 =~= seq!["london"@, "londres"@]);
        } else if i == 2 {
            assert(zone_cities()[2].1 =~= seq!["new york"@, "nova york"@]);
        } else if i == 3 {
            assert(zone_cities()[3].1 =~= seq!["paris"@]);
        } else if i == 4 {
            assert(zone_cities()[4].1 =~= seq!["sao paulo"@, "são paulo"@]);
        } else if i == 5 {
            assert(zone_cities()[5].1 =~= seq!["los angeles"@]);
        } else if i == 6 {
            assert(zone_cities()[6].1 =~= seq!["berlin"@]);
        } else if i == 7 {
            assert(zone_cities()[7].1 =~= seq!["sydney"@]);
        } else if i == 8 {
            assert(zone_cities()[8].1 =~= seq!["utc"@]);
        }
    }
}

/// A question for the time in a city names that city's own zone: when the
/// city the pattern captured reads, trimmed and in lower case, as one of
/// the names of a zone's city (in English or in Portuguese), the answer is
/// that city in that zone; so a city and its Portuguese name give the same
/// zone.
pub proof fn lemma_city_zone(query: Seq<char>, i: int, j: int)
    requires
        0 <= i < zone_cities().len(),
        0 <= j < zone_cities()[i].1.len(),
        regex_captures_of(time_pattern(), seq_trim(query)) matches Some(caps) && cap(caps, 1) matches Some(
            c,
        ) && lowercase(seq_trim(c)) == zone_cities()[i].1[j],
    ensures
        timezone_query(query) == Some((zone_cities()[i].1[j], zone_cities()[i].0)),
{
    lemma_zone_for_names();
}


proof fn lemma_zone_for_entry(names: Seq<(Seq<char>, Seq<char>)>, t: Seq<char>)
    ensures
        zone_for(names, t) matches Some(z) ==> exists|k: int| 0 <= k < names.len() && #[trigger] names[k] == (t, z),
    decreases names.len(),
{
    if names.len() > 0 && names[0].0 != t {
        lemma_zone_for_entry(names.drop_first(), t);
        if let Some(z) = zone_for(names, t) {
            let k = choose|k: int| 0 <= k < names.drop_first().len() && #[trigger] names.drop_first()[k] == (t, z);
            assert(names[k + 1] == (t, z));
        }
    } else if names.len() > 0 {
        assert(names[0] == (t, names[0].1));
    }
}

/// No city outside `zone_cities` has a zone, and a city that has one has
/// the zone `zone_cities` gives it.
pub proof fn lemma_known_cities_only(query: Seq<char>)
    ensures
        timezone_query(query) matches Some((city, zone)) ==> exists|i: int, j: int|
            0 <= i < zone_cities().len() && 0 <= j < zone_cities()[i].1.len() && #[trigger] zone_cities()[i].1[j]
                == city && zone_cities()[i].0 == zone,
{
    if let Some((city, zone)) = timezone_query(query) {
        lemma_zone_for_entry(cities(), city);
        let k = choose|k: int| 0 <= k < cities().len() && #[trigger] cities()[k] == (city, zone);
        if k == 0 {
            assert(zone_cities()[0].1[0] == cities()[k].0 && zone_cities()[0].0 == cities()[k].1);
        } else if k == 1 {
            assert(zone_cities()[0].1[1] == cities()[k].0 && zone_cities()[0].0 == cities()[k].1);
        } else if k == 2 {
            assert(zone_cities()[1].1[0] == cities()[k].0 && zone_cities()[1].0 == cities()[k].1);
        } else if k == 3 {
            assert(zone_cities()[1].1[1] == cities()[k].0 && zone_cities()[1].0 == cities()[k].1);
        } else if k == 4 {
            assert(zone_cities()[2].1[0] == cities()[k].0 && zone_cities()[2].0 == cities()[k].1);
        } else if k == 5 {
            assert(zone_cities()[2].1[1] == cities()[k].0 && zone_cities()[2].0 == cities()[k].1);
        } else if k == 6 {
            assert(zone_cities()[3].1[0] == cities()[k].0 && zone_cities()[3].0 == cities()[k].1);
        } else if k == 7 {
            assert(zone_cities()[4].1[0] == cities()[k].0 && zone_cities()[4].0 == cities()[k].1);
        } else if k == 8 {
            assert(zone_cities()[4].1[1] == cities()[k].0 && zone_cities()[4].0 == cities()[k].1);
        } else if k == 9 {
            assert(zone_cities()[5].1[0] == cities()[k].0 && zone_cities()[5].0 == cities()[k].1);
        } else if k == 10 {
            assert(zone_cities()[6].1[0] == cities()[k].0 && zone_cities()[6].0 == cities()[k].1);
        } else if k == 11 {
            assert(zone_cities()[7].1[0] == cities()[k].0 && zone_cities()[7].0 == cities()[k].1);
        } else if k == 12 {
            assert(zone_cities()[8].1[0] == cities()[k].0 && zone_cities()[8].0 == cities()[k].1);
        }
    }
}

} // verus!
