use x402_payment::amount::{human_to_raw, raw_to_human, AmountError, RawAmount};

fn raw(s: &str, d: u8) -> String {
    human_to_raw(s, d).unwrap().to_decimal_string()
}

#[test]
fn human_to_raw_zero_and_one() {
    assert_eq!(raw("0", 6), "0");
    assert_eq!(raw("0", 18), "0");
    assert_eq!(raw("1", 6), "1000000");
}

#[test]
fn human_to_raw_truncates_extra_digits() {
    assert_eq!(raw("5.000001", 6), "5000001");
    assert_eq!(raw("5.0000015", 6), "5000001");
    assert_eq!(raw("0.9999999", 6), "999999");
}

#[test]
fn human_to_raw_rejects_malformed() {
    assert_eq!(human_to_raw("5.5.5", 6).unwrap_err(), AmountError::InvalidDecimalPart);
    assert_eq!(human_to_raw("abc", 6).unwrap_err(), AmountError::InvalidIntegerPart);
    assert_eq!(human_to_raw("-5", 6).unwrap_err(), AmountError::InvalidIntegerPart);
    assert_eq!(human_to_raw("1e3", 6).unwrap_err(), AmountError::InvalidIntegerPart);
    assert_eq!(human_to_raw("1_000", 6).unwrap_err(), AmountError::InvalidIntegerPart);
}

#[test]
fn human_to_raw_overflow_boundary() {
    let max =
        "115792089237316195423570985008687907853269984665640564039457584007913129639935";
    let over =
        "115792089237316195423570985008687907853269984665640564039457584007913129639936";
    assert_eq!(raw(max, 0), max);
    assert_eq!(human_to_raw(over, 0).unwrap_err(), AmountError::Overflow);
}

#[test]
fn raw_to_human_pads_and_trims() {
    assert_eq!(raw_to_human("1500000", 6), "1.5");
    assert_eq!(raw_to_human("123", 6), "0.000123");
    assert_eq!(raw_to_human("0", 6), "0");
    assert_eq!(raw_to_human("1000000", 6), "1");
    assert_eq!(raw_to_human("42", 0), "42");
}

#[test]
fn round_trip_within_precision() {
    for (s, canon) in [
        ("12.34", "12.34"),
        ("0.5", "0.5"),
        ("007.10", "7.1"),
        ("5.", "5"),
        (".5", "0.5"),
        ("0", "0"),
        ("1000", "1000"),
    ] {
        let r = human_to_raw(s, 6).unwrap().to_decimal_string();
        assert_eq!(raw_to_human(&r, 6), canon, "round trip of {s}");
    }
}

#[test]
fn from_decimal_str_and_to_u128() {
    let a = RawAmount::from_decimal_str("340282366920938463463374607431768211455").unwrap();
    assert_eq!(a.to_u128(), Some(u128::MAX));
    let b = RawAmount::from_decimal_str("340282366920938463463374607431768211456").unwrap();
    assert_eq!(b.to_u128(), None);
    assert!(RawAmount::from_decimal_str("12a").is_none());
    let z = RawAmount::from_decimal_str("000").unwrap();
    assert_eq!(z.to_decimal_string(), "0");
}
