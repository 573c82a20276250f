use vstd::prelude::*;

verus! {

/// Error returned by the validating constructors of the typed fields.
///
/// Wire-level decoding never returns this type: reinterpreting bytes is
/// total, and buffer exhaustion is reported as [`ParseError`] instead.
#[derive(Debug)]
pub enum TypeError {
    /// A raw price outside its ceiling, or an unusable precision.
    /// Carries the offending value as text.
    InvalidPrice(String),
    /// Text refused by a field's character class.
    /// Carries the field name and the offending text.
    InvalidString(String, String),
    /// A nanosecond count of at least one full day.
    /// Carries the raw nanosecond count.
    InvalidTime(u64),
}

/// Error returned when a decoder cannot produce a value from the buffer.
#[derive(Debug, Clone, Copy, PartialEq, Eq, Structural)]
pub enum ParseError {
    /// The buffer holds fewer bytes than the field needs.
    Incomplete,
    /// The next byte matches no declared marker or tag.
    UnknownTag(u8),
}

} // verus!
