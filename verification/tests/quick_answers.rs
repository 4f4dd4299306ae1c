use spotlight::quick_answers::calculator::{answer as calc_answer, try_evaluate};
use spotlight::quick_answers::conversion::{
    answer as conversion_answer, convert_rule, normalize_unit, try_convert as try_unit, ConversionRule,
};
use spotlight::quick_answers::currency::{answer as currency_answer, disk_rates_fresh, rate_cache_key, warm_pairs};
use spotlight::quick_answers::dictionary::{answer as dictionary_answer, try_define};
use spotlight::quick_answers::timezone::{answer as time_answer, try_timezone};
use spotlight::quick_answers::local_time::{answer as clock_answer, try_local_time, ClockAsk};
use spotlight::quick_answers::{try_answer, AnswerRequest};

#[test]
fn expressions_worth_evaluating() {
    assert_eq!(try_evaluate(" 2+2 ").as_deref(), Some("2+2"));
    assert_eq!(try_evaluate("(1,5 * 3) % 2").as_deref(), Some("(1,5 * 3) % 2"));
    assert_eq!(try_evaluate("+-*"), None);
    assert_eq!(try_evaluate("2 + x"), None);
    assert_eq!(try_evaluate(""), None);
    let a = calc_answer("4");
    assert_eq!((a.kind.as_str(), a.label.as_str(), a.value.as_str()), ("calculator", "=", "4"));
    assert_eq!(a.hint.as_deref(), Some("Enter para copiar"));
}

#[test]
fn units_normalized_and_ruled() {
    assert_eq!(normalize_unit("Quilômetros"), "km");
    assert_eq!(normalize_unit("LBS"), "lb");
    assert_eq!(normalize_unit("parsec"), "parsec");
    assert_eq!(convert_rule("km", "mi"), Some(ConversionRule::KmToMi));
    assert_eq!(convert_rule("f", "c"), Some(ConversionRule::FToC));
    assert_eq!(convert_rule("g", "g"), Some(ConversionRule::Identity));
    assert_eq!(convert_rule("km", "kg"), None);
}

#[test]
fn conversion_queries() {
    let r = try_unit("10 km to miles").unwrap();
    assert_eq!((r.value.as_str(), r.from.as_str(), r.to.as_str()), ("10", "km", "mi"));
    assert_eq!(r.rule, ConversionRule::KmToMi);
    let r = try_unit("100 °F em Celsius").unwrap();
    assert_eq!(r.rule, ConversionRule::FToC);
    assert!(try_unit("10 km to kg").is_none());
    assert!(try_unit("1.2.3 km to mi").is_none());
    assert!(try_unit("ten km to mi").is_none());
    let a = conversion_answer("10", "km", "6.21", "mi");
    assert_eq!(a.kind, "conversion");
    assert_eq!(a.label, "10 km →");
    assert_eq!(a.value, "6.21 mi");
}

#[test]
fn currency_answers_and_cache() {
    let ok = currency_answer("15", "USD", "BRL", Some("81.30"));
    assert_eq!(ok.label, "15 USD →");
    assert_eq!(ok.value, "81.30 BRL");
    assert_eq!(ok.hint.as_deref(), Some("Enter para copiar"));
    let down = currency_answer("15", "USD", "BRL", None);
    assert_eq!(down.value, "Taxa indisponível");
    assert_eq!(down.hint.as_deref(), Some("Sem conexão — tente novamente"));
    assert_eq!(rate_cache_key("USD", "BRL"), "USD:BRL");
    assert!(!disk_rates_fresh(100_000, 100_000 - 86_401));
    assert!(disk_rates_fresh(5, 10));
    assert!(disk_rates_fresh(10_000, 10_000 - 3600));
    assert!(!warm_pairs().is_empty());
}

#[test]
fn definitions_and_times() {
    let d = try_define("define  hello world ").unwrap();
    assert_eq!(d.word, "hello world");
    assert_eq!(d.url, "https://api.dictionaryapi.dev/api/v2/entries/en/hello%20world");
    assert!(try_define("hello").is_none());
    let a = dictionary_answer("hello", "a greeting");
    assert_eq!(a.kind, "definition");
    assert_eq!(a.label, "hello");
    assert_eq!(a.value, "a greeting");
    let t = try_timezone("Hora em  São Paulo").unwrap();
    assert_eq!(t.city, "são paulo");
    assert_eq!(t.zone, "America/Sao_Paulo");
    assert!(try_timezone("time in atlantis").is_none());
    let a = time_answer("tokyo", "10:30");
    assert_eq!(a.kind, "timezone");
    assert_eq!(a.label, "tokyo");
    assert_eq!(a.value, "10:30");
}

#[test]
fn answers_tried_in_order() {
    assert!(try_answer("   ").is_empty());
    let r = try_answer("15 usd to brl");
    assert_eq!(r.len(), 1);
    assert!(matches!(&r[0], AnswerRequest::Currency(c) if c.from == "USD" && c.to == "BRL"));
    let r = try_answer("3 * 4");
    assert!(matches!(&r[0], AnswerRequest::Calculation(e) if e == "3 * 4"));
    let r = try_answer("time in london");
    assert!(matches!(&r[0], AnswerRequest::Timezone(t) if t.zone == "Europe/London"));
    assert!(try_answer("firefox").is_empty());
}

#[test]
fn hora_time_and_data_ask_the_clock() {
    for q in ["hora", " Time ", "HORÁRIO", "que horas são", "what time"] {
        assert_eq!(try_local_time(q), Some(ClockAsk::Time), "{q}");
        let r = try_answer(q);
        assert_eq!(r.len(), 1);
        assert!(matches!(&r[0], AnswerRequest::LocalTime(ClockAsk::Time)));
    }
    for q in ["data", "Date", " hoje", "TODAY", "dia", "what date"] {
        assert_eq!(try_local_time(q), Some(ClockAsk::Date), "{q}");
        assert!(matches!(&try_answer(q)[0], AnswerRequest::LocalTime(ClockAsk::Date)));
    }
    assert_eq!(try_local_time("horas"), None);
    assert_eq!(try_local_time("time in london"), None);
    let t = clock_answer(ClockAsk::Time, "Monday", "09:05:07", "09:05", "02/03/2025");
    assert_eq!((t.kind.as_str(), t.label.as_str(), t.value.as_str()), ("time", "Monday", "09:05:07"));
    assert_eq!(t.hint.as_deref(), Some("02/03/2025"));
    let d = clock_answer(ClockAsk::Date, "Monday", "09:05:07", "09:05", "02/03/2025");
    assert_eq!((d.kind.as_str(), d.label.as_str(), d.value.as_str()), ("time", "Hoje", "02/03/2025"));
    assert_eq!(d.hint.as_deref(), Some("Monday, 09:05"));
}
