//! Unit conversions: "10 km to mi", "100 f em c". The query is read here;
//! the arithmetic of the rule is the caller's.

use vstd::prelude::*;
use crate::matchers::{group, regex_captures, regex_captures_of};
use crate::quick_answers::amount::{decimal_ok, is_decimal};
use crate::quick_answers::currency::cap;
use crate::quick_answers::QuickAnswer;
use crate::text::{cat, cat3, chars_eq, chars_of, lowercase, opt_view, seq_trim, str_eq, string_of, to_lowercase, trimmed_chars};

verus! {

/// How a value converts between two units: unchanged, or by one of the
/// fixed formulas (kilometres and miles by 0.621371 and 1.60934, metres and
/// feet by 3.28084, kilograms and pounds by 2.20462, grams and kilograms by
/// 1000, Celsius and Fahrenheit by `9/5 c + 32`).
#[derive(Clone, Copy, Debug, PartialEq, Eq, Structural)]
pub enum ConversionRule {
    Identity,
    KmToMi,
    MiToKm,
    MToFt,
    FtToM,
    KgToLb,
    LbToKg,
    GToKg,
    KgToG,
    CToF,
    FToC,
}

/// A conversion asked for: the value as decimal text, the normalized units
/// and the rule between them.
#[derive(Clone, Debug)]
pub struct ConversionRequest {
    pub value: String,
    pub from: String,
    pub to: String,
    pub rule: ConversionRule,
}

/// The text of a request.
pub struct ConversionView {
    pub value: Seq<char>,
    pub from: Seq<char>,
    pub to: Seq<char>,
    pub rule: ConversionRule,
}

impl View for ConversionRequest {
    type V = ConversionView;

    open spec fn view(&self) -> ConversionView {
        ConversionView { value: self.value@, from: self.from@, to: self.to@, rule: self.rule }
    }
}

/// The unit names and the units they name.
pub open spec fn unit_names() -> Seq<(Seq<char>, Seq<char>)> {
    seq![
        ("km"@, "km"@),
        ("kilometer"@, "km"@),
        ("kilometers"@, "km"@),
        ("quilometros"@, "km"@),
        ("quilômetros"@, "km"@),
        ("mi"@, "mi"@),
        ("mile"@, "mi"@),
        ("miles"@, "mi"@),
        ("milhas"@, "mi"@),
        ("m"@, "m"@),
        ("meter"@, "m"@),
        ("meters"@, "m"@),
        ("metros"@, "m"@),
        ("ft"@, "ft"@),
        ("feet"@, "ft"@),
        ("foot"@, "ft"@),
        ("pes"@, "ft"@),
        ("kg"@, "kg"@),
        ("kilogram"@, "kg"@),
        ("kilograms"@, "kg"@),
        ("quilos"@, "kg"@),
        ("lb"@, "lb"@),
        ("lbs"@, "lb"@),
        ("pound"@, "lb"@),
        ("pounds"@, "lb"@),
        ("libras"@, "lb"@),
        ("g"@, "g"@),
        ("gram"@, "g"@),
        ("grams"@, "g"@),
        ("gramas"@, "g"@),
        ("c"@, "c"@),
        ("celsius"@, "c"@),
        ("°c"@, "c"@),
        ("f"@, "f"@),
        ("fahrenheit"@, "f"@),
        ("°f"@, "f"@)
    ]
}

/// The unit of the first name equal to `t`.
pub open spec fn unit_for(names: Seq<(Seq<char>, Seq<char>)>, t: Seq<char>) -> Option<Seq<char>>
    decreases names.len(),
{
    if names.len() == 0 {
        None
    } else if names[0].0 == t {
        Some(names[0].1)
    } else {
        unit_for(names.drop_first(), t)
    }
}

/// A unit in its normal form: the unit its lowercase name names, or the
/// lowercase name itself.
pub open spec fn normalize_unit_spec(unit: Seq<char>) -> Seq<char> {
    match unit_for(unit_names(), lowercase(unit)) {
        Some(u) => u,
        None => lowercase(unit),
    }
}

/// The rule between two normalized units, if they convert.
pub open spec fn rule_for(from: Seq<char>, to: Seq<char>) -> Option<ConversionRule> {
    if from == to {
        Some(ConversionRule::Identity)
    } else if from == "km"@ && to == "mi"@ {
        Some(ConversionRule::KmToMi)
    } else if from == "mi"@ && to == "km"@ {
        Some(ConversionRule::MiToKm)
    } else if from == "m"@ && to == "ft"@ {
        Some(ConversionRule::MToFt)
    } else if from == "ft"@ && to == "m"@ {
        Some(ConversionRule::FtToM)
    } else if from == "kg"@ && to == "lb"@ {
        Some(ConversionRule::KgToLb)
    } else if from == "lb"@ && to == "kg"@ {
        Some(ConversionRule::LbToKg)
    } else if from == "g"@ && to == "kg"@ {
        Some(ConversionRule::GToKg)
    } else if from == "kg"@ && to == "g"@ {
        Some(ConversionRule::KgToG)
    } else if from == "c"@ && to == "f"@ {
        Some(ConversionRule::CToF)
    } else if from == "f"@ && to == "c"@ {
        Some(ConversionRule::FToC)
    } else {
        None
    }
}

/// The units a rule converts between, as its name says: kilometres to
/// miles for `KmToMi`, metres to feet for `MToFt`, and so on; none for
/// `Identity`, which stands between any unit and itself.
pub open spec fn rule_units(r: ConversionRule) -> Option<(Seq<char>, Seq<char>)> {
    match r {
        ConversionRule::Identity => None,
        ConversionRule::KmToMi => Some(("km"@, "mi"@)),
        ConversionRule::MiToKm => Some(("mi"@, "km"@)),
        ConversionRule::MToFt => Some(("m"@, "ft"@)),
        ConversionRule::FtToM => Some(("ft"@, "m"@)),
        ConversionRule::KgToLb => Some(("kg"@, "lb"@)),
        ConversionRule::LbToKg => Some(("lb"@, "kg"@)),
        ConversionRule::GToKg => Some(("g"@, "kg"@)),
        ConversionRule::KgToG => Some(("kg"@, "g"@)),
        ConversionRule::CToF => Some(("c"@, "f"@)),
        ConversionRule::FToC => Some(("f"@, "c"@)),
    }
}

/// A conversion goes the way its rule is named: two equal units convert by
/// `Identity`, and two different ones by the rule that names them in that
/// order (metres to feet by `MToFt`, feet to metres by `FtToM`), if there
/// is one.
pub proof fn lemma_rule_named_by_units(from: Seq<char>, to: Seq<char>, r: ConversionRule)
    ensures
        rule_for(from, to) == Some(r) <==> (r == ConversionRule::Identity && from == to) || (from != to
            && rule_units(r) == Some((from, to))),
{
    reveal_strlit("km");
    reveal_strlit("mi");
    reveal_strlit("m");
    reveal_strlit("ft");
    reveal_strlit("kg");
    reveal_strlit("lb");
    reveal_strlit("g");
    reveal_strlit("c");
    reveal_strlit("f");
    assert("km"@[0] != "mi"@[0]);
    assert("km"@[0] != "ft"@[0]);
    assert("km"@[1] != "kg"@[1]);
    assert("km"@[0] != "lb"@[0]);
    assert("mi"@[0] != "ft"@[0]);
    assert("mi"@[0] != "kg"@[0]);
    assert("mi"@[0] != "lb"@[0]);
    assert("ft"@[0] != "kg"@[0]);
    assert("ft"@[0] != "lb"@[0]);
    assert("kg"@[0] != "lb"@[0]);
    assert("m"@[0] != "g"@[0]);
    assert("m"@[0] != "c"@[0]);
    assert("m"@[0] != "f"@[0]);
    assert("g"@[0] != "c"@[0]);
    assert("g"@[0] != "f"@[0]);
    assert("c"@[0] != "f"@[0]);
    assert("km"@.len() != "m"@.len());
}

/// The units known by name: each normal unit with the names, in English
/// and Portuguese, that read as it.
pub open spec fn unit_words() -> Seq<(Seq<char>, Seq<Seq<char>>)> {
    seq![
        ("km"@, seq!["km"@, "kilometer"@, "kilometers"@, "quilometros"@, "quilômetros"@]),
        ("mi"@, seq!["mi"@, "mile"@, "miles"@, "milhas"@]),
        ("m"@, seq!["m"@, "meter"@, "meters"@, "metros"@]),
        ("ft"@, seq!["ft"@, "feet"@, "foot"@, "pes"@]),
        ("kg"@, seq!["kg"@, "kilogram"@, "kilograms"@, "quilos"@]),
        ("lb"@, seq!["lb"@, "lbs"@, "pound"@, "pounds"@, "libras"@]),
        ("g"@, seq!["g"@, "gram"@, "grams"@, "gramas"@]),
        ("c"@, seq!["c"@, "celsius"@, "°c"@]),
        ("f"@, seq!["f"@, "fahrenheit"@, "°f"@])
    ]
}

/// No name among the first `n` of `names` is `t`.
spec fn no_unit_before(names: Seq<(Seq<char>, Seq<char>)>, t: Seq<char>, n: int) -> bool
    decreases n,
{
    if n <= 0 {
        true
    } else {
        names[n - 1].0 != t && no_unit_before(names, t, n - 1)
    }
}

proof fn lemma_no_unit_before(names: Seq<(Seq<char>, Seq<char>)>, t: Seq<char>, n: int)
    requires
        no_unit_before(names, t, n),
    ensures
        forall|k: int| 0 <= k < n ==> #[trigger] names[k].0 != t,
    decreases n,
{
    if n > 0 {
        lemma_no_unit_before(names, t, n - 1);
    }
}

/// The unit of the first entry whose name is `t`.
proof fn lemma_unit_first_at(names: Seq<(Seq<char>, Seq<char>)>, t: Seq<char>, idx: int)
    requires
        0 <= idx < names.len(),
        names[idx].0 == t,
        forall|k: int| 0 <= k < idx ==> #[trigger] names[k].0 != t,
    ensures
        unit_for(names, t) == Some(names[idx].1),
    decreases idx,
{
    if idx > 0 {
        assert(names[0].0 != t);
        assert forall|k: int| 0 <= k < idx - 1 implies #[trigger] names.drop_first()[k].0 != t by {
            assert(names.drop_first()[k] == names[k + 1]);
        }
        lemma_unit_first_at(names.drop_first(), t, idx - 1);
    }
}

/// The name at `idx` of `unit_names`, first of its kind, gives its unit.
proof fn lemma_unit_name_at(t: Seq<char>, idx: int)
    requires
        0 <= idx < unit_names().len(),
        unit_names()[idx].0 == t,
        no_unit_before(unit_names(), t, idx),
    ensures
        unit_for(unit_names(), t) == Some(unit_names()[idx].1),
{
    lemma_no_unit_before(unit_names(), t, idx);
    lemma_unit_first_at(unit_names(), t, idx);
}

proof fn lemma_unit_words_km()
    ensures
        unit_for(unit_names(), "km"@) == Some("km"@),
        unit_for(unit_names(), "kilometer"@) == Some("km"@),
        unit_for(unit_names(), "kilometers"@) == Some("km"@),
        unit_for(unit_names(), "quilometros"@) == Some("km"@),
        unit_for(unit_names(), "quilômetros"@) == Some("km"@),
{
    reveal_strlit("km");
    reveal_strlit("kilometer");
    reveal_strlit("kilometers");
    reveal_strlit("quilometros");
    reveal_strlit("quilômetros");
    assert("km"@.len() == 2);
    assert("kilometer"@.len() == 9);
    assert("kilometers"@.len() == 10);
    assert("quilometros"@.len() == 11);
    assert("quilômetros"@.len() == 11);
    reveal_with_fuel(no_unit_before, 5);
    assert(no_unit_before(unit_names(), "km"@, 0));
    lemma_unit_name_at("km"@, 0);
    assert(no_unit_before(unit_names(), "kilometer"@, 1));
    lemma_unit_name_at("kilometer"@, 1);
    assert(no_unit_before(unit_names(), "kilometers"@, 2));
    lemma_unit_name_at("kilometers"@, 2);
    assert(no_unit_before(unit_names(), "quilometros"@, 3));
    lemma_unit_name_at("quilometros"@, 3);
    assert("quilometros"@[4] != "quilômetros"@[4]);
    assert(no_unit_before(unit_names(), "quilômetros"@, 4));
    lemma_unit_name_at("quilômetros"@, 4);
}

proof fn lemma_unit_words_mi()
    ensures
        unit_for(unit_names(), "mi"@) == Some("mi"@),
        unit_for(unit_names(), "mile"@) == Some("mi"@),
        unit_for(unit_names(), "miles"@) == Some("mi"@),
        unit_for(unit_names(), "milhas"@) == Some("mi"@),
{
    reveal_strlit("km");
    reveal_strlit("kilometer");
    reveal_strlit("kilometers");
    reveal_strlit("quilometros");
    reveal_strlit("quilômetros");
    reveal_strlit("mi");
    reveal_strlit("mile");
    reveal_strlit("miles");
    reveal_strlit("milhas");
    assert("km"@.len() == 2);
    assert("kilometer"@.len() == 9);
    assert("kilometers"@.len() == 10);
    assert("quilometros"@.len() == 11);
    assert("quilômetros"@.len() == 11);
    assert("mi"@.len() == 2);
    assert("mile"@.len() == 4);
    assert("miles"@.len() == 5);
    assert("milhas"@.len() == 6);
    reveal_with_fuel(no_unit_before, 9);
    assert("km"@[0] != "mi"@[0]);
    assert(no_unit_before(unit_names(), "mi"@, 5));
    lemma_unit_name_at("mi"@, 5);
    assert(no_unit_before(unit_names(), "mile"@, 6));
    lemma_unit_name_at("mile"@, 6);
    assert(no_unit_before(unit_names(), "miles"@, 7));
    lemma_unit_name_at("miles"@, 7);
    assert(no_unit_before(unit_names(), "milhas"@, 8));
    lemma_unit_name_at("milhas"@, 8);
}

proof fn lemma_unit_words_m()
    ensures
        unit_for(unit_names(), "m"@) == Some("m"@),
        unit_for(unit_names(), "meter"@) == Some("m"@),
        unit_for(unit_names(), "meters"@) == Some("m"@),
        unit_for(unit_names(), "metros"@) == Some("m"@),
{
    reveal_strlit("km");
    reveal_strlit("kilometer");
    reveal_strlit("kilometers");
    reveal_strlit("quilometros");
    reveal_strlit("quilômetros");
    reveal_strlit("mi");
    reveal_strlit("mile");
    reveal_strlit("miles");
    reveal_strlit("milhas");
    reveal_strlit("m");
    reveal_strlit("meter");
    reveal_strlit("meters");
    reveal_strlit("metros");
    assert("km"@.len() == 2);
    assert("kilometer"@.len() == 9);
    assert("kilometers"@.len() == 10);
    assert("quilometros"@.len() == 11);
    assert("quilômetros"@.len() == 11);
    assert("mi"@.len() == 2);
    assert("mile"@.len() == 4);
    assert("miles"@.len() == 5);
    assert("milhas"@.len() == 6);
    assert("m"@.len() == 1);
    assert("meter"@.len() == 5);
    assert("meters"@.len() == 6);
    assert("metros"@.len() == 6);
    reveal_with_fuel(no_unit_before, 13);
    assert(no_unit_before(unit_names(), "m"@, 9));
    lemma_unit_name_at("m"@, 9);
    assert("miles"@[1] != "meter"@[1]);
    assert(no_unit_before(unit_names(), "meter"@, 10));
    lemma_unit_name_at("meter"@, 10);
    assert("milhas"@[1] != "meters"@[1]);
    assert(no_unit_before(unit_names(), "meters"@, 11));
    lemma_unit_name_at("meters"@, 11);
    assert("milhas"@[1] != "metros"@[1]);
    assert("meters"@[3] != "metros"@[3]);
    assert(no_unit_before(unit_names(), "metros"@, 12));
    lemma_unit_name_at("metros"@, 12);
}

proof fn lemma_unit_words_ft()
    ensures
        unit_for(unit_names(), "ft"@) == Some("ft"@),
        unit_for(unit_names(), "feet"@) == Some("ft"@),
        unit_for(unit_names(), "foot"@) == Some("ft"@),
        unit_for(unit_names(), "pes"@) == Some("ft"@),
{
    reveal_strlit("km");
    reveal_strlit("kilometer");
    reveal_strlit("kilometers");
    reveal_strlit("quilometros");
    reveal_strlit("quilômetros");
    reveal_strlit("mi");
    reveal_strlit("mile");
    reveal_strlit("miles");
    reveal_strlit("milhas");
    reveal_strlit("m");
    reveal_strlit("meter");
    reveal_strlit("meters");
    reveal_strlit("metros");
    reveal_strlit("ft");
    reveal_strlit("feet");
    reveal_strlit("foot");
    reveal_strlit("pes");
    assert("km"@.len() == 2);
    assert("kilometer"@.len() == 9);
    assert("kilometers"@.len() == 10);
    assert("quilometros"@.len() == 11);
    assert("quilômetros"@.len() == 11);
    assert("mi"@.len() == 2);
    assert("mile"@.len() == 4);
    assert("miles"@.len() == 5);
    assert("milhas"@.len() == 6);
    assert("m"@.len() == 1);
    assert("meter"@.len() == 5);
    assert("meters"@.len() == 6);
    assert("metros"@.len() == 6);
    assert("ft"@.len() == 2);
    assert("feet"@.len() == 4);
    assert("foot"@.len() == 4);
    assert("pes"@.len() == 3);
    reveal_with_fuel(no_unit_before, 17);
    assert("km"@[0] != "ft"@[0]);
    assert("mi"@[0] != "ft"@[0]);
    assert(no_unit_before(unit_names(), "ft"@, 13));
    lemma_unit_name_at("ft"@, 13);
    assert("mile"@[0] != "feet"@[0]);
    assert(no_unit_before(unit_names(), "feet"@, 14));
    lemma_unit_name_at("feet"@, 14);
    assert("mile"@[0] != "foot"@[0]);
    assert("feet"@[1] != "foot"@[1]);
    assert(no_unit_before(unit_names(), "foot"@, 15));
    lemma_unit_name_at("foot"@, 15);
    assert(no_unit_before(unit_names(), "pes"@, 16));
    lemma_unit_name_at("pes"@, 16);
}

proof fn lemma_unit_words_kg()
    ensures
        unit_for(unit_names(), "kg"@) == Some("kg"@),
        unit_for(unit_names(), "kilogram"@) == Some("kg"@),
        unit_for(unit_names(), "kilograms"@) == Some("kg"@),
        unit_for(unit_names(), "quilos"@) == Some("kg"@),
{
    reveal_strlit("km");
    reveal_strlit("kilometer");
    reveal_strlit("kilometers");
    reveal_strlit("quilometros");
    reveal_strlit("quilômetros");
    reveal_strlit("mi");
    reveal_strlit("mile");
    reveal_strlit("miles");
    reveal_strlit("milhas");
    reveal_strlit("m");
    reveal_strlit("meter");
    reveal_strlit("meters");
    reveal_strlit("metros");
    reveal_strlit("ft");
    reveal_strlit("feet");
    reveal_strlit("foot");
    reveal_strlit("pes");
    reveal_strlit("kg");
    reveal_strlit("kilogram");
    reveal_strlit("kilograms");
    reveal_strlit("quilos");
    assert("km"@.len() == 2);
    assert("kilometer"@.len() == 9);
    assert("kilometers"@.len() == 10);
    assert("quilometros"@.len() == 11);
    assert("quilômetros"@.len() == 11);
    assert("mi"@.len() == 2);
    assert("mile"@.len() == 4);
    assert("miles"@.len() == 5);
    assert("milhas"@.len() == 6);
    assert("m"@.len() == 1);
    assert("meter"@.len() == 5);
    assert("meters"@.len() == 6);
    assert("metros"@.len() == 6);
    assert("ft"@.len() == 2);
    assert("feet"@.len() == 4);
    assert("foot"@.len() == 4);
    assert("pes"@.len() == 3);
    assert("kg"@.len() == 2);
    assert("kilogram"@.len() == 8);
    assert("kilograms"@.len() == 9);
    assert("quilos"@.len() == 6);
    reveal_with_fuel(no_unit_before, 21);
    assert("km"@[1] != "kg"@[1]);
    assert("mi"@[0] != "kg"@[0]);
    assert("ft"@[0] != "kg"@[0]);
    assert(no_unit_before(unit_names(), "kg"@, 17));
    lemma_unit_name_at("kg"@, 17);
    assert(no_unit_before(unit_names(), "kilogram"@, 18));
    lemma_unit_name_at("kilogram"@, 18);
    assert("kilometer"@[4] != "kilograms"@[4]);
    assert(no_unit_before(unit_names(), "kilograms"@, 19));
    lemma_unit_name_at("kilograms"@, 19);
    assert("milhas"@[0] != "quilos"@[0]);
    assert("meters"@[0] != "quilos"@[0]);
    assert("metros"@[0] != "quilos"@[0]);
    assert(no_unit_before(unit_names(), "quilos"@, 20));
    lemma_unit_name_at("quilos"@, 20);
}

proof fn lemma_unit_words_lb()
    ensures
        unit_for(unit_names(), "lb"@) == Some("lb"@),
        unit_for(unit_names(), "lbs"@) == Some("lb"@),
        unit_for(unit_names(), "pound"@) == Some("lb"@),
        unit_for(unit_names(), "pounds"@) == Some("lb"@),
        unit_for(unit_names(), "libras"@) == Some("lb"@),
{
    reveal_strlit("km");
    reveal_strlit("kilometer");
    reveal_strlit("kilometers");
    reveal_strlit("quilometros");
    reveal_strlit("quilômetros");
    reveal_strlit("mi");
    reveal_strlit("mile");
    reveal_strlit("miles");
    reveal_strlit("milhas");
    reveal_strlit("m");
    reveal_strlit("meter");
    reveal_strlit("meters");
    reveal_strlit("metros");
    reveal_strlit("ft");
    reveal_strlit("feet");
    reveal_strlit("foot");
    reveal_strlit("pes");
    reveal_strlit("kg");
    reveal_strlit("kilogram");
    reveal_strlit("kilograms");
    reveal_strlit("quilos");
    reveal_strlit("lb");
    reveal_strlit("lbs");
    reveal_strlit("pound");
    reveal_strlit("pounds");
    reveal_strlit("libras");
    assert("km"@.len() == 2);
    assert("kilometer"@.len() == 9);
    assert("kilometers"@.len() == 10);
    assert("quilometros"@.len() == 11);
    assert("quilômetros"@.len() == 11);
    assert("mi"@.len() == 2);
    assert("mile"@.len() == 4);
    assert("miles"@.len() == 5);
    assert("milhas"@.len() == 6);
    assert("m"@.len() == 1);
    assert("meter"@.len() == 5);
    assert("meters"@.len() == 6);
    assert("metros"@.len() == 6);
    assert("ft"@.len() == 2);
    assert("feet"@.len() == 4);
    assert("foot"@.len() == 4);
    assert("pes"@.len() == 3);
    assert("kg"@.len() == 2);
    assert("kilogram"@.len() == 8);
    assert("kilograms"@.len() == 9);
    assert("quilos"@.len() == 6);
    assert("lb"@.len() == 2);
    assert("lbs"@.len() == 3);
    assert("pound"@.len() == 5);
    assert("pounds"@.len() == 6);
    assert("libras"@.len() == 6);
    reveal_with_fuel(no_unit_before, 26);
    assert("km"@[0] != "lb"@[0]);
    assert("mi"@[0] != "lb"@[0]);
    assert("ft"@[0] != "lb"@[0]);
    assert("kg"@[0] != "lb"@[0]);
    assert(no_unit_before(unit_names(), "lb"@, 21));
    lemma_unit_name_at("lb"@, 21);
    assert("pes"@[0] != "lbs"@[0]);
    assert(no_unit_before(unit_names(), "lbs"@, 22));
    lemma_unit_name_at("lbs"@, 22);
    assert("miles"@[0] != "pound"@[0]);
    assert("meter"@[0] != "pound"@[0]);
    assert(no_unit_before(unit_names(), "pound"@, 23));
    lemma_unit_name_at("pound"@, 23);
    assert("milhas"@[0] != "pounds"@[0]);
    assert("meters"@[0] != "pounds"@[0]);
    assert("metros"@[0] != "pounds"@[0]);
    assert("quilos"@[0] != "pounds"@[0]);
    assert(no_unit_before(unit_names(), "pounds"@, 24));
    lemma_unit_name_at("pounds"@, 24);
    assert("milhas"@[0] != "libras"@[0]);
    assert("meters"@[0] != "libras"@[0]);
    assert("metros"@[0] != "libras"@[0]);
    assert("quilos"@[0] != "libras"@[0]);
    assert("pounds"@[0] != "libras"@[0]);
    assert(no_unit_before(unit_names(), "libras"@, 25));
    lemma_unit_name_at("libras"@, 25);
}

proof fn lemma_unit_words_g()
    ensures
        unit_for(unit_names(), "g"@) == Some("g"@),
        unit_for(unit_names(), "gram"@) == Some("g"@),
        unit_for(unit_names(), "grams"@) == Some("g"@),
        unit_for(unit_names(), "gramas"@) == Some("g"@),
{
    reveal_strlit("km");
    reveal_strlit("kilometer");
    reveal_strlit("kilometers");
    reveal_strlit("quilometros");
    reveal_strlit("quilômetros");
    reveal_strlit("mi");
    reveal_strlit("mile");
    reveal_strlit("miles");
    reveal_strlit("milhas");
    reveal_strlit("m");
    reveal_strlit("meter");
    reveal_strlit("meters");
    reveal_strlit("metros");
    reveal_strlit("ft");
    reveal_strlit("feet");
    reveal_strlit("foot");
    reveal_strlit("pes");
    reveal_strlit("kg");
    reveal_strlit("kilogram");
    reveal_strlit("kilograms");
    reveal_strlit("quilos");
    reveal_strlit("lb");
    reveal_strlit("lbs");
    reveal_strlit("pound");
    reveal_strlit("pounds");
    reveal_strlit("libras");
    reveal_strlit("g");
    reveal_strlit("gram");
    reveal_strlit("grams");
    reveal_strlit("gramas");
    assert("km"@.len() == 2);
    assert("kilometer"@.len() == 9);
    assert("kilometers"@.len() == 10);
    assert("quilometros"@.len() == 11);
    assert("quilômetros"@.len() == 11);
    assert("mi"@.len() == 2);
    assert("mile"@.len() == 4);
    assert("miles"@.len() == 5);
    assert("milhas"@.len() == 6);
    assert("m"@.len() == 1);
    assert("meter"@.len() == 5);
    assert("meters"@.len() == 6);
    assert("metros"@.len() == 6);
    assert("ft"@.len() == 2);
    assert("feet"@.len() == 4);
    assert("foot"@.len() == 4);
    assert("pes"@.len() == 3);
    assert("kg"@.len() == 2);
    assert("kilogram"@.len() == 8);
    assert("kilograms"@.len() == 9);
    assert("quilos"@.len() == 6);
    assert("lb"@.len() == 2);
    assert("lbs"@.len() == 3);
    assert("pound"@.len() == 5);
    assert("pounds"@.len() == 6);
    assert("libras"@.len() == 6);
    assert("g"@.len() == 1);
    assert("gram"@.len() == 4);
    assert("grams"@.len() == 5);
    assert("gramas"@.len() == 6);
    reveal_with_fuel(no_unit_before, 30);
    assert("m"@[0] != "g"@[0]);
    assert(no_unit_before(unit_names(), "g"@, 26));
    lemma_unit_name_at("g"@, 26);
    assert("mile"@[0] != "gram"@[0]);
    assert("feet"@[0] != "gram"@[0]);
    assert("foot"@[0] != "gram"@[0]);
    assert(no_unit_before(unit_names(), "gram"@, 27));
    lemma_unit_name_at("gram"@, 27);
    assert("miles"@[0] != "grams"@[0]);
    assert("meter"@[0] != "grams"@[0]);
    assert("pound"@[0] != "grams"@[0]);
    assert(no_unit_before(unit_names(), "grams"@, 28));
    lemma_unit_name_at("grams"@, 28);
    assert("milhas"@[0] != "gramas"@[0]);
    assert("meters"@[0] != "gramas"@[0]);
    assert("metros"@[0] != "gramas"@[0]);
    assert("quilos"@[0] != "gramas"@[0]);
    assert("pounds"@[0] != "gramas"@[0]);
    assert("libras"@[0] != "gramas"@[0]);
    assert(no_unit_before(unit_names(), "gramas"@, 29));
    lemma_unit_name_at("gramas"@, 29);
}

proof fn lemma_unit_words_c()
    ensures
        unit_for(unit_names(), "c"@) == Some("c"@),
        unit_for(unit_names(), "celsius"@) == Some("c"@),
        unit_for(unit_names(), "°c"@) == Some("c"@),
{
    reveal_strlit("km");
    reveal_strlit("kilometer");
    reveal_strlit("kilometers");
    reveal_strlit("quilometros");
    reveal_strlit("quilômetros");
    reveal_strlit("mi");
    reveal_strlit("mile");
    reveal_strlit("miles");
    reveal_strlit("milhas");
    reveal_strlit("m");
    reveal_strlit("meter");
    reveal_strlit("meters");
    reveal_strlit("metros");
    reveal_strlit("ft");
    reveal_strlit("feet");
    reveal_strlit("foot");
    reveal_strlit("pes");
    reveal_strlit("kg");
    reveal_strlit("kilogram");
    reveal_strlit("kilograms");
    reveal_strlit("quilos");
    reveal_strlit("lb");
    reveal_strlit("lbs");
    reveal_strlit("pound");
    reveal_strlit("pounds");
    reveal_strlit("libras");
    reveal_strlit("g");
    reveal_strlit("gram");
    reveal_strlit("grams");
    reveal_strlit("gramas");
    reveal_strlit("c");
    reveal_strlit("celsius");
    reveal_strlit("°c");
    assert("km"@.len() == 2);
    assert("kilometer"@.len() == 9);
    assert("kilometers"@.len() == 10);
    assert("quilometros"@.len() == 11);
    assert("quilômetros"@.len() == 11);
    assert("mi"@.len() == 2);
    assert("mile"@.len() == 4);
    assert("miles"@.len() == 5);
    assert("milhas"@.len() == 6);
    assert("m"@.len() == 1);
    assert("meter"@.len() == 5);
    assert("meters"@.len() == 6);
    assert("metros"@.len() == 6);
    assert("ft"@.len() == 2);
    assert("feet"@.len() == 4);
    assert("foot"@.len() == 4);
    assert("pes"@.len() == 3);
    assert("kg"@.len() == 2);
    assert("kilogram"@.len() == 8);
    assert("kilograms"@.len() == 9);
    assert("quilos"@.len() == 6);
    assert("lb"@.len() == 2);
    assert("lbs"@.len() == 3);
    assert("pound"@.len() == 5);
    assert("pounds"@.len() == 6);
    assert("libras"@.len() == 6);
    assert("g"@.len() == 1);
    assert("gram"@.len() == 4);
    assert("grams"@.len() == 5);
    assert("gramas"@.len() == 6);
    assert("c"@.len() == 1);
    assert("celsius"@.len() == 7);
    assert("°c"@.len() == 2);
    reveal_with_fuel(no_unit_before, 33);
    assert("m"@[0] != "c"@[0]);
    assert("g"@[0] != "c"@[0]);
    assert(no_unit_before(unit_names(), "c"@, 30));
    lemma_unit_name_at("c"@, 30);
    assert(no_unit_before(unit_names(), "celsius"@, 31));
    lemma_unit_name_at("celsius"@, 31);
    assert("km"@[0] != "°c"@[0]);
    assert("mi"@[0] != "°c"@[0]);
    assert("ft"@[0] != "°c"@[0]);
    assert("kg"@[0] != "°c"@[0]);
    assert("lb"@[0] != "°c"@[0]);
    assert(no_unit_before(unit_names(), "°c"@, 32));
    lemma_unit_name_at("°c"@, 32);
}

proof fn lemma_unit_words_f()
    ensures
        unit_for(unit_names(), "f"@) == Some("f"@),
        unit_for(unit_names(), "fahrenheit"@) == Some("f"@),
        unit_for(unit_names(), "°f"@) == Some("f"@),
{
    reveal_strlit("km");
    reveal_strlit("kilometer");
    reveal_strlit("kilometers");
    reveal_strlit("quilometros");
    reveal_strlit("quilômetros");
    reveal_strlit("mi");
    reveal_strlit("mile");
    reveal_strlit("miles");
    reveal_strlit("milhas");
    reveal_strlit("m");
    reveal_strlit("meter");
    reveal_strlit("meters");
    reveal_strlit("metros");
    reveal_strlit("ft");
    reveal_strlit("feet");
    reveal_strlit("foot");
    reveal_strlit("pes");
    reveal_strlit("kg");
    reveal_strlit("kilogram");
    reveal_strlit("kilograms");
    reveal_strlit("quilos");
    reveal_strlit("lb");
    reveal_strlit("lbs");
    reveal_strlit("pound");
    reveal_strlit("pounds");
    reveal_strlit("libras");
    reveal_strlit("g");
    reveal_strlit("gram");
    reveal_strlit("grams");
    reveal_strlit("gramas");
    reveal_strlit("c");
    reveal_strlit("celsius");
    reveal_strlit("°c");
    reveal_strlit("f");
    reveal_strlit("fahrenheit");
    reveal_strlit("°f");
    assert("km"@.len() == 2);
    assert("kilometer"@.len() == 9);
    assert("kilometers"@.len() == 10);
    assert("quilometros"@.len() == 11);
    assert("quilômetros"@.len() == 11);
    assert("mi"@.len() == 2);
    assert("mile"@.len() == 4);
    assert("miles"@.len() == 5);
    assert("milhas"@.len() == 6);
    assert("m"@.len() == 1);
    assert("meter"@.len() == 5);
    assert("meters"@.len() == 6);
    assert("metros"@.len() == 6);
    assert("ft"@.len() == 2);
    assert("feet"@.len() == 4);
    assert("foot"@.len() == 4);
    assert("pes"@.len() == 3);
    assert("kg"@.len() == 2);
    assert("kilogram"@.len() == 8);
    assert("kilograms"@.len() == 9);
    assert("quilos"@.len() == 6);
    assert("lb"@.len() == 2);
    assert("lbs"@.len() == 3);
    assert("pound"@.len() == 5);
    assert("pounds"@.len() == 6);
    assert("libras"@.len() == 6);
    assert("g"@.len() == 1);
    assert("gram"@.len() == 4);
    assert("grams"@.len() == 5);
    assert("gramas"@.len() == 6);
    assert("c"@.len() == 1);
    assert("celsius"@.len() == 7);
    assert("°c"@.len() == 2);
    assert("f"@.len() == 1);
    assert("fahrenheit"@.len() == 10);
    assert("°f"@.len() == 2);
    reveal_with_fuel(no_unit_before, 36);
    assert("m"@[0] != "f"@[0]);
    assert("g"@[0] != "f"@[0]);
    assert("c"@[0] != "f"@[0]);
    assert(no_unit_before(unit_names(), "f"@, 33));
    lemma_unit_name_at("f"@, 33);
    assert("kilometers"@[0] != "fahrenheit"@[0]);
    assert(no_unit_before(unit_names(), "fahrenheit"@, 34));
    lemma_unit_name_at("fahrenheit"@, 34);
    assert("km"@[0] != "°f"@[0]);
    assert("mi"@[0] != "°f"@[0]);
    assert("ft"@[0] != "°f"@[0]);
    assert("kg"@[0] != "°f"@[0]);
    assert("lb"@[0] != "°f"@[0]);
    assert("°c"@[1] != "°f"@[1]);
    assert(no_unit_before(unit_names(), "°f"@, 35));
    lemma_unit_name_at("°f"@, 35);
}

proof fn lemma_unit_for_words()
    ensures
        forall|i: int, j: int|
            0 <= i < unit_words().len() && 0 <= j < unit_words()[i].1.len() ==> unit_for(
                unit_names(),
                #[trigger] unit_words()[i].1[j],
            ) == Some(unit_words()[i].0),
{
    assert forall|i: int, j: int|
        0 <= i < unit_words().len() && 0 <= j < unit_words()[i].1.len() implies unit_for(
            unit_names(),
            #[trigger] unit_words()[i].1[j],
        ) == Some(unit_words()[i].0) by {
        if i == 0 {
            lemma_unit_words_km();
            assert(unit_words()[0].1 =~= seq!["km"@, "kilometer"@, "kilometers"@, "quilometros"@, "quilômetros"@]);
        } else if i == 1 {
            lemma_unit_words_mi();
            assert(unit_words()[1].1 =~= seq!["mi"@, "mile"@, "miles"@, "milhas"@]);
        } else if i == 2 {
            lemma_unit_words_m();
            assert(unit_words()[2].1 =~= seq!["m"@, "meter"@, "meters"@, "metros"@]);
        } else if i == 3 {
            lemma_unit_words_ft();
            assert(unit_words()[3].1 =~= seq!["ft"@, "feet"@, "foot"@, "pes"@]);
        } else if i == 4 {
            lemma_unit_words_kg();
            assert(unit_words()[4].1 =~= seq!["kg"@, "kilogram"@, "kilograms"@, "quilos"@]);
        } else if i == 5 {
            lemma_unit_words_lb();
            assert(unit_words()[5].1 =~= seq!["lb"@, "lbs"@, "pound"@, "pounds"@, "libras"@]);
        } else if i == 6 {
            lemma_unit_words_g();
            assert(unit_words()[6].1 =~= seq!["g"@, "gram"@, "grams"@, "gramas"@]);
        } else if i == 7 {
            lemma_unit_words_c();
            assert(unit_words()[7].1 =~= seq!["c"@, "celsius"@, "°c"@]);
        } else if i == 8 {
            lemma_unit_words_f();
            assert(unit_words()[8].1 =~= seq!["f"@, "fahrenheit"@, "°f"@]);
        }
    }
}

/// A unit's name gives that unit: an input that reads, in lower case, as
/// one of the names `unit_words` lists for a unit normalizes to that unit;
/// so "feet", "foot" and "pes" all give "ft", and "metros" gives "m".
pub proof fn lemma_unit_name_gives_unit(unit: Seq<char>, i: int, j: int)
    requires
        0 <= i < unit_words().len(),
        0 <= j < unit_words()[i].1.len(),
        lowercase(unit) == unit_words()[i].1[j],
    ensures
        normalize_unit_spec(unit) == unit_words()[i].0,
{
    lemma_unit_for_words();
}

proof fn lemma_unit_for_entry(names: Seq<(Seq<char>, Seq<char>)>, t: Seq<char>)
    ensures
        unit_for(names, t) matches Some(u) ==> exists|k: int| 0 <= k < names.len() && #[trigger] names[k] == (t, u),
    decreases names.len(),
{
    if names.len() > 0 && names[0].0 != t {
        lemma_unit_for_entry(names.drop_first(), t);
        if let Some(u) = unit_for(names, t) {
            let k = choose|k: int| 0 <= k < names.drop_first().len() && #[trigger] names.drop_first()[k] == (t, u);
            assert(names[k + 1] == (t, u));
        }
    } else if names.len() > 0 {
        assert(names[0] == (t, names[0].1));
    }
}

/// An input normalizes either through a name `unit_words` lists, to that
/// name's unit, or, naming no unit, to itself in lower case.
pub proof fn lemma_known_units_only(unit: Seq<char>)
    ensures
        normalize_unit_spec(unit) == lowercase(unit) || exists|i: int, j: int|
            0 <= i < unit_words().len() && 0 <= j < unit_words()[i].1.len() && #[trigger] unit_words()[i].1[j]
                == lowercase(unit) && unit_words()[i].0 == normalize_unit_spec(unit),
{
    let t = lowercase(unit);
    if let Some(u) = unit_for(unit_names(), t) {
        lemma_unit_for_entry(unit_names(), t);
        let k = choose|k: int| 0 <= k < unit_names().len() && #[trigger] unit_names()[k] == (t, u);
        if k == 0 {
            assert(unit_words()[0].1[0] == unit_names()[k].0 && unit_words()[0].0 == unit_names()[k].1);
        } else if k == 1 {
            assert(unit_words()[0].1[1] == unit_names()[k].0 && unit_words()[0].0 == unit_names()[k].1);
        } else if k == 2 {
            assert(unit_words()[0].1[2] == unit_names()[k].0 && unit_words()[0].0 == unit_names()[k].1);
        } else if k == 3 {
            assert(unit_words()[0].1[3] == unit_names()[k].0 && unit_words()[0].0 == unit_names()[k].1);
        } else if k == 4 {
            assert(unit_words()[0].1[4] == unit_names()[k].0 && unit_words()[0].0 == unit_names()[k].1);
        } else if k == 5 {
            assert(unit_words()[1].1[0] == unit_names()[k].0 && unit_words()[1].0 == unit_names()[k].1);
        } else if k == 6 {
            assert(unit_words()[1].1[1] == unit_names()[k].0 && unit_words()[1].0 == unit_names()[k].1);
        } else if k == 7 {
            assert(unit_words()[1].1[2] == unit_names()[k].0 && unit_words()[1].0 == unit_names()[k].1);
        } else if k == 8 {
            assert(unit_words()[1].1[3] == unit_names()[k].0 && unit_words()[1].0 == unit_names()[k].1);
        } else if k == 9 {
            assert(unit_words()[2].1[0] == unit_names()[k].0 && unit_words()[2].0 == unit_names()[k].1);
        } else if k == 10 {
            assert(unit_words()[2].1[1] == unit_names()[k].0 && unit_words()[2].0 == unit_names()[k].1);
        } else if k == 11 {
            assert(unit_words()[2].1[2] == unit_names()[k].0 && unit_words()[2].0 == unit_names()[k].1);
        } else if k == 12 {
            assert(unit_words()[2].1[3] == unit_names()[k].0 && unit_words()[2].0 == unit_names()[k].1);
        } else if k == 13 {
            assert(unit_words()[3].1[0] == unit_names()[k].0 && unit_words()[3].0 == unit_names()[k].1);
        } else if k == 14 {
            assert(unit_words()[3].1[1] == unit_names()[k].0 && unit_words()[3].0 == unit_names()[k].1);
        } else if k == 15 {
            assert(unit_words()[3].1[2] == unit_names()[k].0 && unit_words()[3].0 == unit_names()[k].1);
        } else if k == 16 {
            assert(unit_words()[3].1[3] == unit_names()[k].0 && unit_words()[3].0 == unit_names()[k].1);
        } else if k == 17 {
            assert(unit_words()[4].1[0] == unit_names()[k].0 && unit_words()[4].0 == unit_names()[k].1);
        } else if k == 18 {
            assert(unit_words()[4].1[1] == unit_names()[k].0 && unit_words()[4].0 == unit_names()[k].1);
        } else if k == 19 {
            assert(unit_words()[4].1[2] == unit_names()[k].0 && unit_words()[4].0 == unit_names()[k].1);
        } else if k == 20 {
            assert(unit_words()[4].1[3] == unit_names()[k].0 && unit_words()[4].0 == unit_names()[k].1);
        } else if k == 21 {
            assert(unit_words()[5].1[0] == unit_names()[k].0 && unit_words()[5].0 == unit_names()[k].1);
        } else if k == 22 {
            assert(unit_words()[5].1[1] == unit_names()[k].0 && unit_words()[5].0 == unit_names()[k].1);
        } else if k == 23 {
            assert(unit_words()[5].1[2] == unit_names()[k].0 && unit_words()[5].0 == unit_names()[k].1);
        } else if k == 24 {
            assert(unit_words()[5].1[3] == unit_names()[k].0 && unit_words()[5].0 == unit_names()[k].1);
        } else if k == 25 {
            assert(unit_words()[5].1[4] == unit_names()[k].0 && unit_words()[5].0 == unit_names()[k].1);
        } else if k == 26 {
            assert(unit_words()[6].1[0] == unit_names()[k].0 && unit_words()[6].0 == unit_names()[k].1);
        } else if k == 27 {
            assert(unit_words()[6].1[1] == unit_names()[k].0 && unit_words()[6].0 == unit_names()[k].1);
        } else if k == 28 {
            assert(unit_words()[6].1[2] == unit_names()[k].0 && unit_words()[6].0 == unit_names()[k].1);
        } else if k == 29 {
            assert(unit_words()[6].1[3] == unit_names()[k].0 && unit_words()[6].0 == unit_names()[k].1);
        } else if k == 30 {
            assert(unit_words()[7].1[0] == unit_names()[k].0 && unit_words()[7].0 == unit_names()[k].1);
        } else if k == 31 {
            assert(unit_words()[7].1[1] == unit_names()[k].0 && unit_words()[7].0 == unit_names()[k].1);
        } else if k == 32 {
            assert(unit_words()[7].1[2] == unit_names()[k].0 && unit_words()[7].0 == unit_names()[k].1);
        } else if k == 33 {
            assert(unit_words()[8].1[0] == unit_names()[k].0 && unit_words()[8].0 == unit_names()[k].1);
        } else if k == 34 {
            assert(unit_words()[8].1[1] == unit_names()[k].0 && unit_words()[8].0 == unit_names()[k].1);
        } else if k == 35 {
            assert(unit_words()[8].1[2] == unit_names()[k].0 && unit_words()[8].0 == unit_names()[k].1);
        }
    }
}

/// The pattern of a conversion: value, unit, `in`/`to`/`em`/`para`, unit.
pub open spec fn conversion_pattern() -> Seq<char> {
    r"(?i)^([\d.]+)\s*([a-z°]+)\s+(?:in|to|em|para)\s+([a-z°]+)$"@
}

/// The request read from the captures of the conversion pattern: a decimal
/// value and two units with a rule between them.
pub open spec fn conversion_request(caps: Seq<Option<Seq<char>>>) -> Option<ConversionView> {
    match (cap(caps, 1), cap(caps, 2), cap(caps, 3)) {
        (Some(v), Some(f), Some(t)) => if !is_decimal(v) {
            None
        } else {
            let from = normalize_unit_spec(f);
            let to = normalize_unit_spec(t);
            match rule_for(from, to) {
                Some(rule) => Some(ConversionView { value: v, from, to, rule }),
                None => None,
            }
        },
        _ => None,
    }
}

/// What `try_convert` reads from a query: the request of the captures of
/// the conversion pattern on the trimmed query, if it matches.
pub open spec fn conversion_query(query: Seq<char>) -> Option<ConversionView> {
    match regex_captures_of(conversion_pattern(), seq_trim(query)) {
        Some(caps) => conversion_request(caps),
        None => None,
    }
}

/// The request's view, if any.
pub open spec fn opt_conversion(r: Option<ConversionRequest>) -> Option<ConversionView> {
    match r {
        Some(x) => Some(x@),
        None => None,
    }
}

fn unit_name_list() -> (r: Vec<(&'static str, &'static str)>)
    ensures
        r@.map_values(|p: (&str, &str)| (p.0@, p.1@)) == unit_names(),
{
    let mut v: Vec<(&'static str, &'static str)> = Vec::new();
    v.push(("km", "km"));
    v.push(("kilometer", "km"));
    v.push(("kilometers", "km"));
    v.push(("quilometros", "km"));
    v.push(("quilômetros", "km"));
    v.push(("mi", "mi"));
    v.push(("mile", "mi"));
    v.push(("miles", "mi"));
    v.push(("milhas", "mi"));
    v.push(("m", "m"));
    v.push(("meter", "m"));
    v.push(("meters", "m"));
    v.push(("metros", "m"));
    v.push(("ft", "ft"));
    v.push(("feet", "ft"));
    v.push(("foot", "ft"));
    v.push(("pes", "ft"));
    v.push(("kg", "kg"));
    v.push(("kilogram", "kg"));
    v.push(("kilograms", "kg"));
    v.push(("quilos", "kg"));
    v.push(("lb", "lb"));
    v.push(("lbs", "lb"));
    v.push(("pound", "lb"));
    v.push(("pounds", "lb"));
    v.push(("libras", "lb"));
    v.push(("g", "g"));
    v.push(("gram", "g"));
    v.push(("grams", "g"));
    v.push(("gramas", "g"));
    v.push(("c", "c"));
    v.push(("celsius", "c"));
    v.push(("°c", "c"));
    v.push(("f", "f"));
    v.push(("fahrenheit", "f"));
    v.push(("°f", "f"));
    assert(v@.map_values(|p: (&str, &str)| (p.0@, p.1@)) =~= unit_names());
    v
}

/// A unit in its normal form (see `normalize_unit_spec`).
pub fn normalize_unit(unit: &str) -> (r: String)
    ensures
        r@ == normalize_unit_spec(unit@),
{
    let lower = to_lowercase(unit);
    let t = chars_of(lower.as_str());
    let names = unit_name_list();
    let ghost nv = names@.map_values(|p: (&str, &str)| (p.0@, p.1@));
    let mut i: usize = 0;
    assert(nv.subrange(0, nv.len() as int) =~= nv);
    while i < names.len()
        invariant
            i <= names@.len(),
            nv == names@.map_values(|p: (&str, &str)| (p.0@, p.1@)),
            nv == unit_names(),
            t@ == lowercase(unit@),
            unit_for(nv, t@) == unit_for(nv.subrange(i as int, nv.len() as int), t@),
        decreases names.len() - i,
    {
        let ghost rest = nv.subrange(i as int, nv.len() as int);
        let (name, u) = names[i];
        assert(rest[0] == (name@, u@));
        if chars_eq(chars_of(name).as_slice(), t.as_slice()) {
            assert(unit_for(rest, t@) == Some(u@));
            return String::from_str(u);
        }
        assert(rest.drop_first() =~= nv.subrange(i + 1, nv.len() as int));
        i = i + 1;
    }
    lower
}

/// The rule between two normalized units (see `rule_for`).
pub fn convert_rule(from: &str, to: &str) -> (r: Option<ConversionRule>)
    ensures
        r == rule_for(from@, to@),
{
    if str_eq(from, to) {
        Some(ConversionRule::Identity)
    } else if str_eq(from, "km") && str_eq(to, "mi") {
        Some(ConversionRule::KmToMi)
    } else if str_eq(from, "mi") && str_eq(to, "km") {
        Some(ConversionRule::MiToKm)
    } else if str_eq(from, "m") && str_eq(to, "ft") {
        Some(ConversionRule::MToFt)
    } else if str_eq(from, "ft") && str_eq(to, "m") {
        Some(ConversionRule::FtToM)
    } else if str_eq(from, "kg") && str_eq(to, "lb") {
        Some(ConversionRule::KgToLb)
    } else if str_eq(from, "lb") && str_eq(to, "kg") {
        Some(ConversionRule::LbToKg)
    } else if str_eq(from, "g") && str_eq(to, "kg") {
        Some(ConversionRule::GToKg)
    } else if str_eq(from, "kg") && str_eq(to, "g") {
        Some(ConversionRule::KgToG)
    } else if str_eq(from, "c") && str_eq(to, "f") {
        Some(ConversionRule::CToF)
    } else if str_eq(from, "f") && str_eq(to, "c") {
        Some(ConversionRule::FToC)
    } else {
        None
    }
}

/// The request the captures of the conversion pattern give (see
/// `conversion_request`).
pub fn from_captures(caps: &Vec<Option<String>>) -> (r: Option<ConversionRequest>)
    ensures
        opt_conversion(r) == conversion_request(caps.deep_view()),
{
    let v = match group(caps, 1) {
        Some(x) => x,
        None => return None,
    };
    let f = match group(caps, 2) {
        Some(x) => x,
        None => return None,
    };
    let t = match group(caps, 3) {
        Some(x) => x,
        None => return None,
    };
    if !decimal_ok(chars_of(v.as_str()).as_slice()) {
        return None;
    }
    let from = normalize_unit(f.as_str());
    let to = normalize_unit(t.as_str());
    match convert_rule(from.as_str(), to.as_str()) {
        Some(rule) => Some(ConversionRequest { value: v, from, to, rule }),
        None => None,
    }
}

/// The conversion a query asks for (see `conversion_query`).
pub fn try_convert(query: &str) -> (r: Option<ConversionRequest>)
    ensures
        opt_conversion(r) == conversion_query(query@),
{
    let q = string_of(trimmed_chars(query).as_slice());
    match regex_captures(r"(?i)^([\d.]+)\s*([a-z°]+)\s+(?:in|to|em|para)\s+([a-z°]+)$", q.as_str()) {
        Some(caps) => from_captures(&caps),
        None => None,
    }
}

/// The answer to a conversion: "value FROM →" and "result TO", with the
/// value and the result formatted by the caller.
pub fn answer(value_label: &str, from: &str, result_label: &str, to: &str) -> (r: QuickAnswer)
    ensures
        r.kind@ == "conversion"@,
        r.label@ == value_label@ + " "@ + from@ + " →"@,
        r.value@ == result_label@ + " "@ + to@,
        opt_view(r.hint) == Some("Enter para copiar"@),
{
    QuickAnswer {
        kind: String::from_str("conversion"),
        label: cat3(value_label, " ", cat(from, " →").as_str()),
        value: cat3(result_label, " ", to),
        hint: Some(String::from_str("Enter para copiar")),
    }
}

} // verus!
