use nsdq_util::{ParseError, Price, TypeError};

#[test]
fn price_u32_parts_and_roundtrip() {
    let price = Price::<u32, 4>::new(35000u32).unwrap();
    let (dollars, cents) = price.parts();
    assert_eq!(dollars, 3u32);
    assert_eq!(cents, 5000u32);

    let bytes = 35000u32.to_be_bytes();
    let (rest, price2) = Price::<u32, 4>::parse(&bytes).unwrap();
    assert_eq!(price, price2);
    assert!(rest.is_empty());
    assert_eq!(price.encode(), bytes.to_vec());
}

#[test]
fn price_i32_parts_and_roundtrip() {
    let price = Price::<i32, 4>::new(-35000i32).unwrap();
    let (dollars, cents) = price.parts();
    assert_eq!(dollars, -3i32);
    assert_eq!(cents, 5000u32);

    let bytes = (-35000i32).to_be_bytes();
    let (rest, price2) = Price::<i32, 4>::parse(&bytes).unwrap();
    assert_eq!(price, price2);
    assert!(rest.is_empty());
    assert_eq!(price.encode(), bytes.to_vec());
    assert_eq!(price.val(), -35000i32);
}

#[test]
fn price_u64_parts_and_roundtrip() {
    let price = Price::<u64, 4>::new(3_5000u64).unwrap();
    let (dollars, cents) = price.parts();
    assert_eq!(dollars, 3u64);
    assert_eq!(cents, 5000u64);

    let bytes = 3_5000u64.to_be_bytes();
    let (_, price2) = Price::<u64, 4>::parse(&bytes).unwrap();
    assert_eq!(price, price2);
    assert_eq!(price.encode(), bytes.to_vec());

    let price = Price::<u64, 8>::new(3_5000_0000u64).unwrap();
    let (dollars, cents) = price.parts();
    assert_eq!(dollars, 3u64);
    assert_eq!(cents, 5000_0000u64);

    let bytes = 3_5000_0000u64.to_be_bytes();
    let (_, price2) = Price::<u64, 8>::parse(&bytes).unwrap();
    assert_eq!(price, price2);
    assert_eq!(price.encode(), bytes.to_vec());
}

#[test]
fn price_ceiling_boundary() {
    // $199,999.99 at precision 4 is raw 1_999_999_900.
    let at_ceiling = Price::<u32, 4>::new(1_999_999_900u32);
    assert!(at_ceiling.is_ok());

    let above = Price::<u32, 4>::new(1_999_999_901u32);
    match above {
        Err(TypeError::InvalidPrice(text)) => assert_eq!(text, "1999999901"),
        _ => panic!("one raw unit above the ceiling must be refused"),
    }

    let at_ceiling64 = Price::<u64, 4>::new(1_999_999_900u64);
    assert!(at_ceiling64.is_ok());
    assert!(Price::<u64, 4>::new(1_999_999_901u64).is_err());
}

#[test]
fn price_precision_boundary() {
    match Price::<u32, 1>::new(0u32) {
        Err(TypeError::InvalidPrice(text)) => assert_eq!(text, "N"),
        _ => panic!("precision 1 must always be refused"),
    }
    assert!(Price::<u32, 2>::new(0u32).is_ok());
    assert!(Price::<u64, 1>::new(0u64).is_err());
    assert!(Price::<u64, 2>::new(0u64).is_ok());
    assert!(Price::<i32, 1>::new(0i32).is_err());
    assert!(Price::<i32, 2>::new(0i32).is_ok());
}

#[test]
fn price_market_sentinels() {
    let market = Price::<u64, 4>::market();
    assert_eq!(market.val(), 2_000_000_000u64);
    let cross = Price::<u64, 4>::market_cross();
    assert_eq!(cross.val(), 2_147_483_647u64);

    // The sentinels sit above the normal ceiling: `new` refuses them.
    assert!(Price::<u64, 4>::new(2_000_000_000u64).is_err());
    assert!(Price::<u64, 4>::new(2_147_483_647u64).is_err());

    // They still encode and parse like any raw value.
    let bytes = market.encode();
    let (_, back) = Price::<u64, 4>::parse(&bytes).unwrap();
    assert_eq!(back, market);
}

#[test]
fn price_parse_needs_more_data() {
    let bytes = [0u8; 3];
    assert_eq!(Price::<u32, 4>::parse(&bytes).unwrap_err(), ParseError::Incomplete);
    let bytes = [0u8; 7];
    assert_eq!(Price::<u64, 4>::parse(&bytes).unwrap_err(), ParseError::Incomplete);
}

#[test]
fn price_parse_skips_validation() {
    // Bytes above the ceiling parse without error: wire parsing only
    // reinterprets, and callers re-validate explicitly where needed.
    let bytes = u32::MAX.to_be_bytes();
    let (_, price) = Price::<u32, 4>::parse(&bytes).unwrap();
    assert_eq!(price.val(), u32::MAX);
    assert!(Price::<u32, 4>::new(price.val()).is_err());
}
