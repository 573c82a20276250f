use nsdq_util::{ParseError, StrTagMap, TagMap, TypeError};

#[test]
fn enum_test() {
    // Tag 'A' stands for the first variant, 'B' for the second.
    let tags = TagMap::new(vec![b'A', b'B']).unwrap();

    let bytes = b"AB";

    let (bytes, parsed_1) = tags.parse(bytes).unwrap();
    let (bytes, parsed_2) = tags.parse(bytes).unwrap();

    assert_eq!(parsed_1, 0);
    assert_eq!(parsed_2, 1);
    assert!(bytes.is_empty());

    let mut bytes = vec![];
    bytes.extend(tags.encode(0));
    bytes.extend(tags.encode(1));

    assert_eq!(&bytes, b"AB");
}

#[test]
fn enum_unmatched_tag() {
    let tags = TagMap::new(vec![b'A', b'B']).unwrap();
    assert_eq!(tags.parse(b"C").unwrap_err(), ParseError::UnknownTag(b'C'));
    assert_eq!(tags.parse(b"").unwrap_err(), ParseError::Incomplete);
}

#[test]
fn enum_duplicate_tags_refused() {
    match TagMap::new(vec![b'A', b'B', b'A']) {
        Err(TypeError::InvalidString(field, text)) => {
            assert_eq!(field, "Tag");
            assert_eq!(text, "65");
        },
        _ => panic!("an ambiguous declaration must be caught at construction"),
    }
}

#[test]
fn str_enum_two_byte_tags() {
    let tags = StrTagMap::new(2, vec![b"AB".to_vec(), b"XY".to_vec()]).unwrap();

    let bytes = b"ABXY";
    let (bytes, var1) = tags.parse(bytes).unwrap();
    let (bytes, var2) = tags.parse(bytes).unwrap();

    assert_eq!(var1, 0);
    assert_eq!(var2, 1);
    assert!(bytes.is_empty());

    assert_eq!(tags.encode(0), b"AB".to_vec());
    assert_eq!(tags.encode(1), b"XY".to_vec());
}

#[test]
fn str_enum_padded_tags() {
    let tags = StrTagMap::new(4, vec![b"ABCD".to_vec(), b"XY  ".to_vec()]).unwrap();

    let (_, var1) = tags.parse(b"ABCD").unwrap();
    let (_, var2) = tags.parse(b"XY  ").unwrap();

    assert_eq!(var1, 0);
    assert_eq!(var2, 1);
    assert_eq!(tags.encode(0), b"ABCD".to_vec());
    assert_eq!(tags.encode(1), b"XY  ".to_vec());
}

#[test]
fn str_enum_unmatched_tag() {
    let tags = StrTagMap::new(2, vec![b"AB".to_vec(), b"XY".to_vec()]).unwrap();
    assert_eq!(tags.parse(b"ZZ").unwrap_err(), ParseError::UnknownTag(b'Z'));
    assert_eq!(tags.parse(b"A").unwrap_err(), ParseError::Incomplete);
}

#[test]
fn str_enum_bad_declarations_refused() {
    assert!(matches!(
        StrTagMap::new(2, vec![b"AB".to_vec(), b"XYZ".to_vec()]),
        Err(TypeError::InvalidString(_, _))
    ));
    assert!(matches!(
        StrTagMap::new(2, vec![b"AB".to_vec(), b"AB".to_vec()]),
        Err(TypeError::InvalidString(_, _))
    ));
    assert!(matches!(StrTagMap::new(0, vec![]), Err(TypeError::InvalidString(_, _))));
}
