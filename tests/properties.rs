use std::str::FromStr;

use real_bases::{
    base_for_lowercase_name, digit_to_string, pow, rep_to_digit_exponent_pairs, rounded_string,
    val_from_base, val_from_popular_strings, val_to_base, BaseConversion, ConversionError,
    Decimal,
};

fn dec(s: &str) -> Decimal {
    Decimal::parse(s).unwrap()
}

fn whole(n: u64) -> Decimal {
    Decimal::from_u64(n)
}

fn read(text: &str, base: &Decimal) -> String {
    val_from_base(text, base).unwrap().to_text()
}

#[test]
fn base_one_refused_when_reading_and_writing() {
    assert_eq!(val_from_base("0", &whole(1)).unwrap_err(), ConversionError::InvalidBase);
    assert_eq!(val_from_base("", &whole(1)).unwrap_err(), ConversionError::InvalidBase);
    assert_eq!(val_to_base(&whole(5), &whole(1)), Err(ConversionError::InvalidBase));
    assert_eq!(val_to_base(&dec("0.5"), &dec("0.5")), Err(ConversionError::InvalidBase));
}

#[test]
fn two_radix_points_refused() {
    assert_eq!(
        val_from_base("12.34.5", &whole(10)).unwrap_err(),
        ConversionError::MultipleRadixPoints
    );
}

#[test]
fn zero_written_as_zero_in_any_base() {
    assert_eq!(val_to_base(&whole(0), &whole(10)), Ok("0".to_string()));
    assert_eq!(val_to_base(&dec("0.000"), &dec("3.7")), Ok("0".to_string()));
    assert_eq!(val_to_base(&whole(0), &whole(100)), Ok("0".to_string()));
}

#[test]
fn base_hundred_digits() {
    assert_eq!(read("[99]", &whole(100)), "99");
    assert_eq!(val_to_base(&whole(135), &whole(100)), Ok("1Z".to_string()));
    let text = val_to_base(&whole(199), &whole(100)).unwrap();
    assert_eq!(text, "1[99]");
    assert!(text.contains('['));
}

#[test]
fn sqrt_two_base_from_its_name() {
    let base = val_from_popular_strings("sqrt2").unwrap();
    assert!(base.to_text().starts_with("1.41421356237309504880"));
    let three = val_from_base("101", &base).unwrap();
    assert!(three.to_text().starts_with("3") || three.to_text().starts_with("2.99999"));
}

#[test]
fn elision_at_the_precision_floor() {
    let elided = val_to_base(&dec("0.000000001"), &whole(10)).unwrap();
    assert!(elided.ends_with('\u{2026}'));
    let shown_digits = elided.trim_end_matches('\u{2026}');
    assert_eq!(shown_digits, "0.00000000");
    assert!(shown_digits.len() < "0.000000001".len());
    let exact = val_to_base(&dec("0.00000001"), &whole(10)).unwrap();
    assert_eq!(exact, "0.00000001");
}

#[test]
fn elided_text_does_not_read_back() {
    let elided = val_to_base(&dec("0.000000001"), &whole(10)).unwrap();
    assert_eq!(
        val_from_base(&elided, &whole(10)).unwrap_err(),
        ConversionError::UnrecognizedDigit("\u{2026}".to_string())
    );
}

#[test]
fn display_rounding_cases() {
    assert_eq!(rounded_string(&pow(&whole(10), 10).unwrap(), Some(8)), "1E+10");
    assert!(rounded_string(&val_from_popular_strings("pi").unwrap(), Some(8)).ends_with('\u{2026}'));
    assert_eq!(rounded_string(&dec("1E+8"), Some(8)), "100000000");
    assert_eq!(rounded_string(&whole(100000000), Some(8)), "1.0000000E+8");
    assert_eq!(rounded_string(&whole(5000000000), None), "5000000000");
}

#[test]
fn digit_exponent_pairs_of_a_numeral() {
    let pairs = rep_to_digit_exponent_pairs("1[35].2");
    assert_eq!(
        pairs,
        vec![("1".to_string(), 1), ("35".to_string(), 0), ("2".to_string(), -1)]
    );
    let whole = rep_to_digit_exponent_pairs("ABC");
    assert_eq!(
        whole,
        vec![("A".to_string(), 2), ("B".to_string(), 1), ("C".to_string(), 0)]
    );
    assert_eq!(rep_to_digit_exponent_pairs(""), vec![]);
    assert_eq!(rep_to_digit_exponent_pairs(".5"), vec![("5".to_string(), -1)]);
}

#[test]
fn names_resolve_regardless_of_case() {
    let upper = val_from_popular_strings("PI").unwrap();
    let greek = val_from_popular_strings("\u{3c0}").unwrap();
    assert_eq!(upper.to_text(), greek.to_text());
    assert_eq!(
        upper.to_text(),
        "3.14159265358979323846264338327950288419716939937510"
    );
    assert!(val_from_popular_strings("nonsense").is_none());
    assert_eq!(val_from_popular_strings("Hex").unwrap().to_text(), "16");
    assert_eq!(base_for_lowercase_name("dozenal").unwrap().to_text(), "12");
    assert!(base_for_lowercase_name("PI").is_none());
    assert!(val_from_popular_strings("phi").unwrap().to_text().starts_with("1.6180339887"));
    assert!(val_from_popular_strings("e").unwrap().to_text().starts_with("2.71828182845904"));
}

#[test]
fn digit_text_forms() {
    assert_eq!(digit_to_string(5), "5");
    assert_eq!(digit_to_string(10), "A");
    assert_eq!(digit_to_string(35), "Z");
    assert_eq!(digit_to_string(36), "[36]");
    assert_eq!(digit_to_string(1234), "[1234]");
}

#[test]
fn digits_not_below_the_base_rejected() {
    assert_eq!(
        val_from_base("12", &whole(2)).unwrap_err(),
        ConversionError::UnrecognizedDigit("2".to_string())
    );
    assert_eq!(
        val_from_base("9", &dec("8.5")).unwrap_err(),
        ConversionError::UnrecognizedDigit("9".to_string())
    );
    assert_eq!(read("8", &dec("8.5")), "8");
    assert_eq!(
        val_from_base("1?", &whole(10)).unwrap_err(),
        ConversionError::UnrecognizedDigit("?".to_string())
    );
}

#[test]
fn out_of_range_scale_reported() {
    let tiny = Decimal { negative: false, limbs: vec![1], scale: 1i64 << 41 };
    assert_eq!(val_to_base(&tiny, &whole(10)), Err(ConversionError::ExponentOverflow));
}

#[test]
fn signed_numerals() {
    assert_eq!(read("-12", &whole(10)), "-12");
    assert_eq!(val_to_base(&dec("-2.5"), &whole(10)), Ok("-2.5".to_string()));
}

#[test]
fn exact_values_in_small_bases() {
    assert_eq!(read("0.1", &whole(2)), "0.5");
    assert_eq!(read("11", &whole(3)), "4");
    assert_eq!(read("ff", &whole(16)), "255");
    assert_eq!(read("FF", &whole(16)), "255");
    assert_eq!(val_to_base(&whole(255), &whole(16)), Ok("FF".to_string()));
    assert_eq!(val_to_base(&whole(10), &whole(2)), Ok("1010".to_string()));
    assert_eq!(val_to_base(&dec("12.5"), &whole(10)), Ok("12.5".to_string()));
}

#[test]
fn round_trip_through_text() {
    for (value, base) in [("12.5", 10u64), ("255", 16), ("0.75", 2), ("1000", 7)] {
        let v = dec(value);
        let text = val_to_base(&v, &whole(base)).unwrap();
        let back = val_from_base(&text, &whole(base)).unwrap();
        assert_eq!(
            bigdecimal::BigDecimal::from_str(&back.to_text()).unwrap(),
            bigdecimal::BigDecimal::from_str(value).unwrap(),
            "{} in base {}",
            value,
            base
        );
    }
}

#[test]
fn powers_by_squaring() {
    assert_eq!(pow(&whole(3), 2).unwrap().to_text(), "9");
    assert_eq!(pow(&whole(3), 5).unwrap().to_text(), "243");
    let half = pow(&whole(2), -1).unwrap().to_text();
    assert_eq!(
        bigdecimal::BigDecimal::from_str(&half).unwrap(),
        bigdecimal::BigDecimal::from_str("0.5").unwrap()
    );
    assert_eq!(pow(&whole(7), 0).unwrap().to_text(), "1");
    assert_eq!(pow(&dec("1.5"), 1).unwrap().to_text(), "1.5");
}

#[test]
fn conversion_request_bases() {
    let c = BaseConversion::new_with_defaults(
        "FF".to_string(),
        "hex".to_string(),
        "2".to_string(),
        None,
    );
    assert_eq!(c.base_10_string(), Ok("255".to_string()));
    assert_eq!(c.output_string(), Ok("11111111".to_string()));
    let d = BaseConversion::new_with_defaults(
        "10".to_string(),
        "unknown".to_string(),
        "???".to_string(),
        Some(&c),
    );
    assert_eq!(d.input_base.to_text(), "16");
    assert_eq!(d.output_base.to_text(), "2");
    let e = BaseConversion::new_with_defaults(
        "10".to_string(),
        "".to_string(),
        "".to_string(),
        None,
    );
    assert_eq!(e.input_base.to_text(), "10");
    assert_eq!(e.output_string(), Ok("10".to_string()));
}
