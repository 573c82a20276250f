use nsdq_util::{
    encode_itch_time, encode_ouch_time, parse_itch_time, parse_itch_time_bold, parse_ouch_time,
    parse_ouch_time_bold, ParseError, TimeOfDay, TypeError,
};

#[test]
fn time_day_boundary() {
    // One full day of nanoseconds is invalid ...
    match TimeOfDay::from_nanos(86_400_000_000_000) {
        Err(TypeError::InvalidTime(raw)) => assert_eq!(raw, 86_400_000_000_000),
        _ => panic!("a full day must be refused"),
    }
    // ... and one nanosecond less is the maximal valid value.
    let t = TimeOfDay::from_nanos(86_399_999_999_999).unwrap();
    assert_eq!(t.secs(), 86_399);
    assert_eq!(t.nanos(), 999_999_999);
    assert_eq!(t.total_nanos(), 86_399_999_999_999);
}

#[test]
fn ouch_time_roundtrip() {
    let nanos: u64 = 3_600_000_000_123;
    let t = TimeOfDay::from_nanos(nanos).unwrap();
    let bytes = encode_ouch_time(t);
    assert_eq!(bytes, nanos.to_be_bytes().to_vec());

    let (rest, decoded) = parse_ouch_time(&bytes).unwrap();
    assert!(rest.is_empty());
    assert_eq!(decoded.unwrap(), t);

    let (rest, decoded) = parse_ouch_time_bold(&bytes).unwrap();
    assert!(rest.is_empty());
    assert_eq!(decoded, t);
}

#[test]
fn itch_time_roundtrip() {
    let nanos: u64 = 86_399_999_999_999;
    let t = TimeOfDay::from_nanos(nanos).unwrap();
    let bytes = encode_itch_time(t);
    assert_eq!(bytes, nanos.to_be_bytes()[2..].to_vec());
    assert_eq!(bytes.len(), 6);

    let (rest, decoded) = parse_itch_time(&bytes).unwrap();
    assert!(rest.is_empty());
    assert_eq!(decoded.unwrap(), t);

    let (rest, decoded) = parse_itch_time_bold(&bytes).unwrap();
    assert!(rest.is_empty());
    assert_eq!(decoded, t);
}

#[test]
fn ouch_time_out_of_range() {
    let bytes = 86_400_000_000_000u64.to_be_bytes();
    let (rest, decoded) = parse_ouch_time(&bytes).unwrap();
    assert!(rest.is_empty());
    match decoded {
        Err(TypeError::InvalidTime(raw)) => assert_eq!(raw, 86_400_000_000_000),
        _ => panic!("a full day read from the wire must be reported"),
    }
}

#[test]
fn itch_time_out_of_range() {
    let bytes = [0xFFu8; 6];
    let (_, decoded) = parse_itch_time(&bytes).unwrap();
    match decoded {
        Err(TypeError::InvalidTime(raw)) => assert_eq!(raw, 0xFFFF_FFFF_FFFF),
        _ => panic!("a count above one day must be reported"),
    }
}

#[test]
fn time_needs_more_data() {
    assert_eq!(parse_ouch_time(&[0u8; 7]).unwrap_err(), ParseError::Incomplete);
    assert_eq!(parse_itch_time(&[0u8; 5]).unwrap_err(), ParseError::Incomplete);
}

#[test]
fn time_leaves_remainder() {
    let mut bytes = 1_000_000_000u64.to_be_bytes().to_vec();
    bytes.extend_from_slice(b"tail");
    let (rest, decoded) = parse_ouch_time(&bytes).unwrap();
    assert_eq!(rest, b"tail");
    let t = decoded.unwrap();
    assert_eq!(t.secs(), 1);
    assert_eq!(t.nanos(), 0);
}
