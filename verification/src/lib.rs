//! Field codecs for fixed-width NASDAQ-style wire formats.
//!
//! Every field family follows the same shape: `parse` consumes a fixed
//! number of bytes from the front of a buffer and returns the unconsumed
//! remainder next to the decoded value, and `encode` is the exact inverse.

pub mod bools;
pub mod enums;
pub mod error;
pub mod price;
pub mod string;
pub mod text;
pub mod time;
pub mod wire;

pub use bools::{
    encode_bool, encode_bool_with_chars, encode_ternary, encode_ternary_with_chars, parse_bool,
    parse_bool_with_chars, parse_ternary, parse_ternary_with_chars,
};
pub use enums::{StrTagMap, TagMap};
pub use error::{ParseError, TypeError};
pub use price::Price;
pub use string::{FixStr, FixStr14, FixStr4, FixStr8, Mpid, StockSymbol};
pub use time::{
    encode_itch_time, encode_ouch_time, parse_itch_time, parse_itch_time_bold, parse_ouch_time,
    parse_ouch_time_bold, TimeOfDay,
};
