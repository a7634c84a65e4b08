use simple_core::decimal::{format_u128, parse_u128};
use simple_core::ProtocolError;

#[test]
fn largest_value_round_trips() {
    let text = format_u128(u128::MAX);
    assert_eq!(text, "340282366920938463463374607431768211455");
    assert_eq!(parse_u128(&text), Ok(u128::MAX));
}

#[test]
fn values_round_trip() {
    for value in [0u128, 1, 9, 10, 11, 99, 100, 555, 1001, 1u128 << 64, (1u128 << 64) - 1, u128::MAX - 1] {
        assert_eq!(parse_u128(&format_u128(value)), Ok(value));
    }
}

#[test]
fn formatting_matches_the_usual_decimal_text() {
    assert_eq!(format_u128(0), "0");
    assert_eq!(format_u128(7), "7");
    assert_eq!(format_u128(10), "10");
    assert_eq!(format_u128(1002), "1002");
    assert_eq!(format_u128(18446744073709551616), "18446744073709551616");
    for value in [0u128, 5, 42, 1000, u128::MAX / 3, u128::MAX] {
        assert_eq!(format_u128(value), value.to_string());
    }
}

#[test]
fn parsing_reads_plain_digits() {
    assert_eq!(parse_u128("0"), Ok(0));
    assert_eq!(parse_u128("42"), Ok(42));
    assert_eq!(parse_u128("1001"), Ok(1001));
    assert_eq!(parse_u128("340282366920938463463374607431768211455"), Ok(u128::MAX));
}

#[test]
fn parsing_accepts_a_leading_plus_and_leading_zeros() {
    assert_eq!(parse_u128("+42"), Ok(42));
    assert_eq!(parse_u128("007"), Ok(7));
    assert_eq!(parse_u128("+000"), Ok(0));
    assert_eq!(parse_u128("000340282366920938463463374607431768211455"), Ok(u128::MAX));
}

#[test]
fn parsing_rejects_overflow() {
    assert_eq!(
        parse_u128("340282366920938463463374607431768211456"),
        Err(ProtocolError::InvalidNumericInput)
    );
    assert_eq!(
        parse_u128("3402823669209384634633746074317682114550"),
        Err(ProtocolError::InvalidNumericInput)
    );
    assert_eq!(
        parse_u128("999999999999999999999999999999999999999"),
        Err(ProtocolError::InvalidNumericInput)
    );
}

#[test]
fn parsing_rejects_what_is_not_a_number() {
    for text in ["", "+", "-", "-1", "-0", "++1", "+-1", "1+", " 1", "1 ", "1_000", "0x10", "12a", "a", "1.0", "١٢", "1\u{0}"] {
        assert_eq!(parse_u128(text), Err(ProtocolError::InvalidNumericInput));
    }
}

#[test]
fn parsing_agrees_with_the_standard_parser() {
    for text in ["", "+", "+0", "-0", "0", "00", "+00012", "12", "1 2", "340282366920938463463374607431768211455", "340282366920938463463374607431768211456", "é", "+é", "9é"] {
        assert_eq!(parse_u128(text).ok(), text.parse::<u128>().ok());
    }
}
