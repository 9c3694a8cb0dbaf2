use dex_analytics::models::amount::Amount;
use dex_analytics::models::reserve::{bigdecimal_to_str, optbigdecimal_to_str};

fn parsed(text: &str) -> Amount {
    Amount::parse(text).unwrap()
}

#[test]
fn parse_accepts_the_grammar() {
    for text in ["0", "7", "4000", "0.00025", "12.50", "007", "123456789012345678901234567890.000000000000000001"] {
        let amount = Amount::parse(text);
        assert!(amount.is_some(), "{}", text);
        assert_eq!(amount.unwrap().to_text(), text);
    }
}

#[test]
fn parse_rejects_what_is_outside_the_grammar() {
    for text in ["", ".", ".5", "5.", "1..2", "1.2.3", "-1", "+1", "1e5", "NaN", "1 ", " 1", "12a", "1,5", "١٢"] {
        assert!(Amount::parse(text).is_none(), "{:?}", text);
    }
}

#[test]
fn is_zero_looks_at_every_digit() {
    assert!(parsed("0").is_zero());
    assert!(parsed("000.000").is_zero());
    assert!(!parsed("0.001").is_zero());
    assert!(!parsed("100").is_zero());
}

#[test]
fn order_is_by_value() {
    assert!(parsed("9.999").is_less_than(&parsed("10")));
    assert!(!parsed("10").is_less_than(&parsed("9.999")));
    assert!(parsed("0.5").is_less_than(&parsed("0.50001")));
    assert!(!parsed("0.50001").is_less_than(&parsed("0.5")));
    assert!(parsed("2").is_less_than(&parsed("10")));
    assert!(parsed("099").is_less_than(&parsed("100")));
    assert!(parsed("0.09").is_less_than(&parsed("0.1")));
}

#[test]
fn equal_values_are_not_less() {
    assert!(!parsed("4000").is_less_than(&parsed("4000.0")));
    assert!(!parsed("4000.0").is_less_than(&parsed("4000")));
    assert!(!parsed("007").is_less_than(&parsed("7")));
    assert!(!parsed("7").is_less_than(&parsed("007.00")));
    assert!(!parsed("0").is_less_than(&parsed("0.000")));
}

#[test]
fn quotient_is_the_decimal_division() {
    assert_eq!(parsed("1").quotient(&parsed("4000")), "0.00025");
    assert_eq!(parsed("10").quotient(&parsed("4")), "2.5");
    assert_eq!(parsed("0").quotient(&parsed("3")), "0");
    assert_eq!(parsed("7.5").quotient(&parsed("2.5")), "3");
}

#[test]
fn clone_keeps_the_amount() {
    let amount = parsed("12.345");
    assert_eq!(amount.clone().to_text(), "12.345");
}

#[test]
fn amounts_as_text() {
    assert_eq!(bigdecimal_to_str(&parsed("1.50")), "1.50");
    assert_eq!(optbigdecimal_to_str(&Some(parsed("3"))), Some("3".to_owned()));
    assert_eq!(optbigdecimal_to_str(&None), None);
}
