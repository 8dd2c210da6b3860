//! Tests of key-sequence parsing: quote stripping, colon splitting and
//! base-16 parsing with its failure cases.

use descrambler::error::DescrambleError;
use descrambler::keys::parse_keys;

#[test]
fn parses_hex_tokens() {
    assert_eq!(parse_keys("0:1:a:ff").unwrap(), vec![0, 1, 10, 255]);
}

#[test]
fn parses_both_cases_and_full_range() {
    assert_eq!(parse_keys("1a:2B:0:ffffffff").unwrap(), vec![26, 43, 0, u32::MAX]);
    assert_eq!(parse_keys("FFFFFFFF").unwrap(), vec![u32::MAX]);
    assert_eq!(parse_keys("00000000ff").unwrap(), vec![255]);
}

#[test]
fn strips_quote_characters() {
    assert_eq!(parse_keys("\"12:34\"").unwrap(), vec![0x12, 0x34]);
    assert_eq!(parse_keys("1\"2:3\"4").unwrap(), vec![0x12, 0x34]);
}

#[test]
fn rejects_non_hex_token() {
    match parse_keys("12:gg:34") {
        Err(DescrambleError::KeyParseError { token, raw }) => {
            assert_eq!(token, "gg");
            assert_eq!(raw, "12:gg:34");
        }
        other => panic!("expected KeyParseError, got {:?}", other),
    }
}

#[test]
fn reports_the_first_bad_token() {
    match parse_keys("0:x1:zz") {
        Err(DescrambleError::KeyParseError { token, .. }) => assert_eq!(token, "x1"),
        other => panic!("expected KeyParseError, got {:?}", other),
    }
}

#[test]
fn rejects_empty_value_and_empty_segments() {
    assert!(matches!(parse_keys(""), Err(DescrambleError::KeyParseError { .. })));
    match parse_keys("1::2") {
        Err(DescrambleError::KeyParseError { token, .. }) => assert_eq!(token, ""),
        other => panic!("expected KeyParseError, got {:?}", other),
    }
    match parse_keys("1:2:") {
        Err(DescrambleError::KeyParseError { token, .. }) => assert_eq!(token, ""),
        other => panic!("expected KeyParseError, got {:?}", other),
    }
}

#[test]
fn rejects_values_over_32_bits() {
    match parse_keys("100000000") {
        Err(DescrambleError::KeyParseError { token, .. }) => assert_eq!(token, "100000000"),
        other => panic!("expected KeyParseError, got {:?}", other),
    }
    match parse_keys(&"f".repeat(100)) {
        Err(DescrambleError::KeyParseError { token, .. }) => assert_eq!(token, "f".repeat(100)),
        other => panic!("expected KeyParseError, got {:?}", other),
    }
}

#[test]
fn rejects_sign_and_space_characters() {
    assert!(matches!(parse_keys("+1a"), Err(DescrambleError::KeyParseError { .. })));
    assert!(matches!(parse_keys(" 1a"), Err(DescrambleError::KeyParseError { .. })));
    assert!(matches!(parse_keys("-1"), Err(DescrambleError::KeyParseError { .. })));
}
