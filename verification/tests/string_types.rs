use nsdq_util::string::{fixed_str, is_alpha, is_alpha_with_suffix, is_alphanumeric, is_uppercase};
use nsdq_util::{FixStr4, FixStr8, Mpid, ParseError, StockSymbol, TypeError};

#[test]
fn str_test() {
    let bytes = b"XXXX";
    let (_, mystr) = FixStr4::parse(bytes).unwrap();

    assert_eq!(mystr.encode(), bytes.to_vec());
    assert_eq!(mystr.to_str(), "XXXX");

    assert_eq!(mystr.to_str(), String::from("XXXX"));
}

#[test]
fn fixstr_trims_padding() {
    let bytes = b"AB  ";
    let (_, s) = FixStr4::parse(bytes).unwrap();
    assert_eq!(s.encode(), bytes.to_vec());
    assert_eq!(s.to_str(), "AB");
}

#[test]
fn fixstr_leaves_remainder() {
    let bytes = b"ABCDEFGHrest";
    let (rest, s) = FixStr8::parse(bytes).unwrap();
    assert_eq!(s.encode(), b"ABCDEFGH".to_vec());
    assert_eq!(rest, b"rest");
}

#[test]
fn fixstr_needs_more_data() {
    assert_eq!(FixStr8::parse(b"ABC").unwrap_err(), ParseError::Incomplete);
}

#[test]
fn mpid_from_text() {
    assert!(Mpid::from("FIRM").is_ok());
    assert!(Mpid::from("Firm").is_err());
    assert!(Mpid::from("F1RM").is_err());

    let mpid = Mpid::from("FIRM").unwrap();
    assert_eq!(mpid.encode(), b"FIRM".to_vec());
    assert_eq!(mpid.to_str(), "FIRM");
}

#[test]
fn mpid_pads_short_text() {
    let mpid = Mpid::from("AB").unwrap();
    assert_eq!(mpid.encode(), b"AB  ".to_vec());
    assert_eq!(mpid.to_str(), "AB");
}

#[test]
fn mpid_error_names_field_and_text() {
    match Mpid::from("Firm") {
        Err(TypeError::InvalidString(field, text)) => {
            assert_eq!(field, "MPID");
            assert_eq!(text, "Firm");
        },
        _ => panic!("lowercase text must be refused"),
    }
}

#[test]
fn stock_symbol_from_text() {
    assert!(StockSymbol::from("STOCKSYM").is_ok());
    assert!(StockSymbol::from("Stonks").is_ok());
    assert!(StockSymbol::from("Stock.XX").is_ok());
    assert!(StockSymbol::from("Stonks  ").is_err());
    assert!(StockSymbol::from("St0nks").is_err());

    let symbol = StockSymbol::from("STOCK.A").unwrap();
    assert_eq!(symbol.encode(), b"STOCK.A ".to_vec());
    assert_eq!(symbol.to_str(), "STOCK.A");
}

#[test]
fn stock_symbol_error_names_field_and_text() {
    match StockSymbol::from("St0nks") {
        Err(TypeError::InvalidString(field, text)) => {
            assert_eq!(field, "StockSymbol");
            assert_eq!(text, "St0nks");
        },
        _ => panic!("a digit must be refused"),
    }
}

#[test]
fn string_defaults_are_blank() {
    assert_eq!(Mpid::default().encode(), b"    ".to_vec());
    assert_eq!(StockSymbol::default().encode(), b"        ".to_vec());
}

#[test]
fn fixed_str_pads_and_truncates() {
    assert_eq!(fixed_str::<4>("AB"), b"AB  ".to_vec());
    assert_eq!(fixed_str::<4>("ABCD"), b"ABCD".to_vec());
    assert_eq!(fixed_str::<4>("ABCDEF"), b"ABCD".to_vec());
    assert_eq!(fixed_str::<4>(""), b"    ".to_vec());
}

#[test]
fn character_classes() {
    assert!(is_uppercase("FIRM"));
    assert!(!is_uppercase("Firm"));
    assert!(!is_uppercase("F1RM"));

    assert!(is_alpha("Stonks"));
    assert!(!is_alpha("St0nks"));
    assert!(!is_alpha("Stock.A"));

    assert!(is_alpha_with_suffix("Stock.A"));
    assert!(!is_alpha_with_suffix("Stonks  "));

    assert!(is_alphanumeric("Xy 1"));
    assert!(is_alphanumeric(""));
    assert!(!is_alphanumeric("Xy 1!"));
}
