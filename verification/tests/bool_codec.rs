use nsdq_util::{
    encode_bool, encode_bool_with_chars, encode_ternary, encode_ternary_with_chars, parse_bool,
    parse_bool_with_chars, parse_ternary, parse_ternary_with_chars, ParseError,
};

#[test]
fn bool_default_mapping() {
    let bytes = b"YN";
    let (bytes, bool1) = parse_bool(bytes).unwrap();
    let (bytes, bool2) = parse_bool(bytes).unwrap();

    assert_eq!(bool1, true);
    assert_eq!(bool2, false);
    assert!(bytes.is_empty());

    assert_eq!(encode_bool(true), vec![b'Y']);
    assert_eq!(encode_bool(false), vec![b'N']);
}

#[test]
fn bool_custom_mapping() {
    let bytes = b"RX";
    let (bytes, bool1) = parse_bool_with_chars('R', 'X', bytes).unwrap();
    let (bytes, bool2) = parse_bool_with_chars('R', 'X', bytes).unwrap();

    assert_eq!(bool1, true);
    assert_eq!(bool2, false);
    assert!(bytes.is_empty());

    assert_eq!(encode_bool_with_chars('R', 'X', true), vec![b'R']);
    assert_eq!(encode_bool_with_chars('R', 'X', false), vec![b'X']);
}

#[test]
fn ternary_default_mapping() {
    let bytes = b"YN ";
    let (bytes, bool1) = parse_ternary(bytes).unwrap();
    let (bytes, bool2) = parse_ternary(bytes).unwrap();
    let (bytes, bool3) = parse_ternary(bytes).unwrap();

    assert_eq!(bool1, Some(true));
    assert_eq!(bool2, Some(false));
    assert_eq!(bool3, None);
    assert!(bytes.is_empty());

    assert_eq!(encode_ternary(Some(true)), vec![b'Y']);
    assert_eq!(encode_ternary(Some(false)), vec![b'N']);
    assert_eq!(encode_ternary(None), vec![b' ']);
}

#[test]
fn ternary_custom_mapping() {
    let bytes = b"RX ";
    let (bytes, bool1) = parse_ternary_with_chars('R', 'X', ' ', bytes).unwrap();
    let (bytes, bool2) = parse_ternary_with_chars('R', 'X', ' ', bytes).unwrap();
    let (bytes, bool3) = parse_ternary_with_chars('R', 'X', ' ', bytes).unwrap();

    assert_eq!(bool1, Some(true));
    assert_eq!(bool2, Some(false));
    assert_eq!(bool3, None);
    assert!(bytes.is_empty());

    assert_eq!(encode_ternary_with_chars('R', 'X', ' ', Some(true)), vec![b'R']);
    assert_eq!(encode_ternary_with_chars('R', 'X', ' ', Some(false)), vec![b'X']);
    assert_eq!(encode_ternary_with_chars('R', 'X', ' ', None), vec![b' ']);
}

#[test]
fn bool_unmatched_byte() {
    assert_eq!(parse_bool(b"Z").unwrap_err(), ParseError::UnknownTag(b'Z'));
    assert_eq!(parse_ternary(b"Z").unwrap_err(), ParseError::UnknownTag(b'Z'));
}

#[test]
fn bool_needs_more_data() {
    assert_eq!(parse_bool(b"").unwrap_err(), ParseError::Incomplete);
    assert_eq!(parse_ternary(b"").unwrap_err(), ParseError::Incomplete);
}
