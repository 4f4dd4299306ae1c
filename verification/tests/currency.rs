use spotlight::quick_answers::currency::{resolve_currency, try_convert};

#[test]
fn parses_iso_codes() {
    assert!(try_convert("15 usd to brl").is_some());
    assert!(try_convert("15 USD para BRL").is_some());
}

#[test]
fn parses_portuguese_names() {
    assert!(try_convert("15 dolares para reais").is_some());
    assert!(try_convert("15 dolares em reais").is_some());
    assert!(try_convert("100 reais para dolares").is_some());
}

#[test]
fn parses_mixed_pt_en() {
    assert!(try_convert("10 usd para reais").is_some());
    assert!(try_convert("10 usd to brl").is_some());
    assert!(try_convert("10 dolares para reais").is_some());
}

#[test]
fn code_query_reads_amount_and_codes() {
    let r = try_convert("15,5 usd to brl").unwrap();
    assert_eq!(r.amount, "15.5");
    assert_eq!(r.from, "USD");
    assert_eq!(r.to, "BRL");
}

#[test]
fn name_query_resolves_names() {
    let r = try_convert("100 reais para dolares").unwrap();
    assert_eq!(r.amount, "100");
    assert_eq!(r.from, "BRL");
    assert_eq!(r.to, "USD");
}

#[test]
fn bad_amount_is_refused() {
    assert!(try_convert("1.2.3 usd to brl").is_none());
    assert!(try_convert("").is_none());
    assert!(try_convert("hello world").is_none());
}

#[test]
fn currency_names_resolve() {
    assert_eq!(resolve_currency("Dólares").as_deref(), Some("USD"));
    assert_eq!(resolve_currency("  euros ").as_deref(), Some("EUR"));
    assert_eq!(resolve_currency("abc").as_deref(), Some("ABC"));
    assert_eq!(resolve_currency("abcd"), None);
    assert_eq!(resolve_currency("franco suíço").as_deref(), Some("CHF"));
}
