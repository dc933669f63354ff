use currencies::decode_grouping_rule;
use currencies::Currency;
use currencies::CurrencyError;
use currencies::Registry;

fn sample(rule: &'static str) -> Currency {
    Currency {
        digit_separator: ',',
        digit_separator_sequence: rule,
        exponent: 2,
        exponent_separator: '.',
        iso_alpha_code: "ZZZ",
        iso_numeric_code: "999",
        symbol: "z",
        symbol_first: true,
    }
}

#[test]
fn currency_known_can_be_found() {
    let c = Currency::find("USD".to_string()).unwrap();
    assert_eq!(c.iso_alpha_code, "USD");
    assert_eq!(c.exponent, 2);
}

#[test]
#[should_panic]
fn currency_unknown_raises_error() {
    Currency::find("fake".to_string()).unwrap();
}

#[test]
fn find_is_case_insensitive() {
    let upper = Currency::find("USD".to_string()).unwrap();
    let lower = Currency::find("usd".to_string()).unwrap();
    let mixed = Currency::find("Usd".to_string()).unwrap();
    assert_eq!(upper, lower);
    assert_eq!(upper, mixed);
    assert_eq!(upper.iso_alpha_code, "USD");
}

#[test]
fn unknown_code_is_reported_with_the_code() {
    let e = Currency::find("unknown_code_xyz".to_string()).unwrap_err();
    assert_eq!(
        e,
        CurrencyError::UnknownCurrency { code: "unknown_code_xyz".to_string() }
    );
}

#[test]
fn lookup_never_returns_a_placeholder() {
    assert!(Currency::find(String::new()).is_err());
    assert!(Currency::find("US".to_string()).is_err());
    assert!(Currency::find("USDX".to_string()).is_err());
    assert!(Currency::find("US Dollar".to_string()).is_err());
}

#[test]
fn digit_separator_sequence_single_group() {
    assert_eq!(sample("3").digit_separator_sequence().unwrap(), vec![3]);
    let usd = Currency::find("USD".to_string()).unwrap();
    assert_eq!(usd.digit_separator_sequence().unwrap(), vec![3]);
}

#[test]
fn digit_separator_sequence_two_groups() {
    assert_eq!(sample("3, 2").digit_separator_sequence().unwrap(), vec![3, 2]);
    let inr = Currency::find("INR".to_string()).unwrap();
    assert_eq!(inr.digit_separator_sequence().unwrap(), vec![3, 2]);
}

#[test]
fn digit_separator_sequence_is_idempotent() {
    let c = Currency::find("INR".to_string()).unwrap();
    assert_eq!(
        c.digit_separator_sequence().unwrap(),
        c.digit_separator_sequence().unwrap()
    );
    let u = Currency::find("USD".to_string()).unwrap();
    assert_eq!(
        u.digit_separator_sequence().unwrap(),
        u.digit_separator_sequence().unwrap()
    );
}

#[test]
fn malformed_grouping_rule_is_reported() {
    let e = sample("abc").digit_separator_sequence().unwrap_err();
    assert_eq!(
        e,
        CurrencyError::MalformedGroupingRule { raw: "abc".to_string() }
    );
}

#[test]
fn decode_accepts_plain_lists() {
    assert_eq!(decode_grouping_rule("3").unwrap(), vec![3]);
    assert_eq!(decode_grouping_rule("3, 2").unwrap(), vec![3, 2]);
    assert_eq!(decode_grouping_rule("10, 2, 4").unwrap(), vec![10, 2, 4]);
    assert_eq!(decode_grouping_rule("0").unwrap(), vec![0]);
    assert_eq!(decode_grouping_rule("03").unwrap(), vec![3]);
}

#[test]
fn decode_rejects_malformed_rules() {
    assert!(decode_grouping_rule("").is_err());
    assert!(decode_grouping_rule("3,2").is_err());
    assert!(decode_grouping_rule("3, ").is_err());
    assert!(decode_grouping_rule(", 3").is_err());
    assert!(decode_grouping_rule("3, -2").is_err());
    assert!(decode_grouping_rule("three").is_err());
    assert!(decode_grouping_rule("99999999999999999999999999999999").is_err());
}

#[test]
fn display_label_is_the_alphabetic_code() {
    let c = Currency::find("USD".to_string()).unwrap();
    assert_eq!(c.to_display_string(), "USD");
    assert_eq!(sample("3").to_display_string(), "ZZZ");
}

#[test]
fn registry_lookups_are_consistent() {
    let a = Registry::new();
    let b = Registry::new();
    let from_a = a.find("EUR").unwrap();
    let from_b = b.find("EUR").unwrap();
    assert_eq!(from_a, from_b);
    assert_eq!(from_a.iso_alpha_code, "EUR");
    assert_eq!(from_a.exponent, 2);
    assert!(a.find("XXX").is_err());
}

#[test]
fn usd_record_fields() {
    let c = Currency::find("usd".to_string()).unwrap();
    assert_eq!(c.digit_separator, ',');
    assert_eq!(c.digit_separator_sequence, "3");
    assert_eq!(c.exponent, 2);
    assert_eq!(c.exponent_separator, '.');
    assert_eq!(c.iso_alpha_code, "USD");
    assert_eq!(c.iso_numeric_code, "840");
    assert_eq!(c.symbol, "$");
    assert!(c.symbol_first);
}

#[test]
fn sek_symbol_follows_the_amount() {
    let c = Currency::find("SEK".to_string()).unwrap();
    assert_eq!(c.digit_separator, ' ');
    assert_eq!(c.symbol, "kr");
    assert!(!c.symbol_first);
}

#[test]
fn jpy_has_no_minor_unit() {
    let c = Currency::find("jpy".to_string()).unwrap();
    assert_eq!(c.exponent, 0);
    assert_eq!(c.iso_alpha_code, "JPY");
}

#[test]
fn returned_records_are_independent_copies() {
    let first = Currency::find("GBP".to_string()).unwrap();
    let mut second = Currency::find("GBP".to_string()).unwrap();
    second = Currency { exponent: 99, ..second };
    assert_eq!(second.exponent, 99);
    let third = Currency::find("GBP".to_string()).unwrap();
    assert_eq!(first, third);
    assert_eq!(third.exponent, 2);
}
