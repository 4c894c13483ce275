use std::str::FromStr;

use bigdecimal::BigDecimal;
use real_bases::{pow, rounded_string, val_from_base, val_to_base, Decimal};

fn dec(s: &str) -> Decimal {
    Decimal::parse(s).unwrap()
}

fn sqrt_two() -> Decimal {
    dec(&BigDecimal::from(2).sqrt().unwrap().to_string())
}

fn rounded_to(d: &Decimal, places: i64) -> String {
    BigDecimal::from_str(&d.to_text()).unwrap().round(places).to_string()
}

#[test]
fn base10_conversion() {
    let decimal = val_from_base("12345", &Decimal::from_u64(10)).unwrap();
    assert_eq!(BigDecimal::from(12345).to_string(), decimal.to_text());
}

#[test]
fn fails_with_base1() {
    let decimal = val_from_base("12345", &Decimal::from_u64(1));
    assert!(decimal.is_err());
}

#[test]
fn fails_with_multiple_periods() {
    let decimal = val_from_base("12.34.5", &Decimal::from_u64(10));
    assert!(decimal.is_err());
}

#[test]
fn parses_1_plus_sqrt2_from_base_sqrt2() {
    let decimal = val_from_base("11", &sqrt_two());
    assert_eq!(
        (BigDecimal::from(2).sqrt().unwrap() + 1_u32)
            .round(20)
            .to_string(),
        rounded_to(&decimal.unwrap(), 20)
    );
}

#[test]
fn parses_3_from_base_sqrt2() {
    let decimal = val_from_base("101", &sqrt_two());
    assert_eq!(
        (BigDecimal::from(3)).round(20).to_string(),
        rounded_to(&decimal.unwrap(), 20)
    );
}

#[test]
fn parses_3_from_base_10_3() {
    let decimal = val_from_base("3", &dec("10.3"));
    assert_eq!((BigDecimal::from(3)).to_string(), decimal.unwrap().to_text());
}

#[test]
fn parses_from_base_100() {
    let decimal = val_from_base("[99]", &Decimal::from_u64(100));
    assert_eq!((BigDecimal::from(99)).to_string(), decimal.unwrap().to_text());
}

#[test]
fn parses_decimal() {
    let decimal = val_from_base("0.12345678", &dec("10"));
    assert_eq!("0.12345678".to_string(), decimal.unwrap().to_text());
}

#[test]
fn parses_decimal_without_leading_zero() {
    let decimal = val_from_base(".1", &dec("10"));
    assert_eq!("0.1".to_string(), decimal.unwrap().to_text());
}

#[test]
fn round_small_decimal() {
    let decimal = rounded_string(&dec("0.12345678"), None);
    assert_eq!("0.12345678".to_string(), decimal);
}

#[test]
fn round_longer_decimal() {
    let decimal = rounded_string(&dec("0.123456789"), None);
    assert_eq!("0.12345678\u{2026}".to_string(), decimal);
}

#[test]
fn round_large_integer() {
    let decimal = rounded_string(&pow(&Decimal::from_u64(10), 10).unwrap(), Some(8));
    assert_eq!("1E+10".to_string(), decimal);
}

#[test]
fn round_1234567890123_with_limit() {
    let decimal = rounded_string(&dec("1234567890123"), Some(8));
    assert_eq!("1.2345678E+12".to_string(), decimal);
}

#[test]
fn round_pi() {
    let decimal = rounded_string(
        &dec("3.14159265358979323846264338327950288419716939937510"),
        Some(8),
    );
    assert_eq!("3.1415926\u{2026}".to_string(), decimal);
}

#[test]
fn round_fake_pi() {
    let decimal = rounded_string(&dec("3.14"), Some(8));
    assert_eq!("3.14".to_string(), decimal);
}

#[test]
fn round_small_integer() {
    let decimal = rounded_string(&pow(&Decimal::from_u64(10), 8).unwrap(), Some(8));
    assert_eq!("100000000".to_string(), decimal);
}

#[test]
fn show_2_in_base_10() {
    let string = val_to_base(&Decimal::from_u64(2), &Decimal::from_u64(10));
    assert_eq!(Ok("2".to_owned()), string);
}

#[test]
fn show_small_value_in_base_10() {
    let string = val_to_base(&dec("0.00000001"), &Decimal::from_u64(10));
    assert_eq!(Ok("0.00000001".to_owned()), string);
}

#[test]
fn elide_smaller_value_in_base_10() {
    let string = val_to_base(&dec("0.000000001"), &Decimal::from_u64(10));
    assert_eq!(Ok("0.00000000\u{2026}".to_owned()), string);
}

#[test]
fn round_parsing_correctly() {
    let string = val_to_base(&Decimal::from_u64(3), &dec("10.3"));
    assert_eq!(Ok("3".to_owned()), string);
}
