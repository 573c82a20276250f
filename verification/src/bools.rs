use vstd::prelude::*;
use vstd::slice::slice_subrange;

use crate::error::ParseError;

verus! {

/// The single wire byte standing for a marker character.
pub open spec fn marker_byte(c: char) -> u8 {
    (c as u32) as u8
}

/// The wire byte of a marker character, computed.
fn char_byte(c: char) -> (r: u8)
    requires
        (c as u32) < 256,
    ensures
        r == marker_byte(c),
{
    (c as u32) as u8
}

/// Round trip: for any mapping whose two marker bytes differ, the byte
/// that `encode_bool_with_chars` writes for a value is matched by
/// `parse_bool_with_chars` back to exactly that value.
pub proof fn lemma_bool_roundtrip(yes: char, no: char, val: bool)
    requires
        marker_byte(yes) != marker_byte(no),
    ensures
        ({
            let b = if val {
                marker_byte(yes)
            } else {
                marker_byte(no)
            };
            &&& (b == marker_byte(yes) <==> val)
            &&& (!val ==> b == marker_byte(no))
        }),
{
}

/// Round trip: for any mapping whose three marker bytes are pairwise
/// distinct, the byte that `encode_ternary_with_chars` writes for a value
/// is matched by `parse_ternary_with_chars` back to exactly that value.
pub proof fn lemma_ternary_roundtrip(yes: char, no: char, maybe: char, val: Option<bool>)
    requires
        marker_byte(yes) != marker_byte(no),
        marker_byte(yes) != marker_byte(maybe),
        marker_byte(no) != marker_byte(maybe),
    ensures
        ({
            let b = match val {
                Some(true) => marker_byte(yes),
                Some(false) => marker_byte(no),
                None => marker_byte(maybe),
            };
            &&& (b == marker_byte(yes) <==> val == Some(true))
            &&& (b != marker_byte(yes) && b == marker_byte(no) <==> val == Some(false))
            &&& (val == None::<bool> ==> b == marker_byte(maybe))
        }),
{
}

/// Parse a boolean value with the standard character mapping of 'Y' and 'N'.
pub fn parse_bool<'a>(input: &'a [u8]) -> (r: Result<(&'a [u8], bool), ParseError>)
    ensures
        match r {
            Ok(p) => {
                &&& input@.len() >= 1
                &&& p.0@ == input@.skip(1)
                &&& (p.1 <==> input@[0] == marker_byte('Y'))
                &&& (!p.1 ==> input@[0] == marker_byte('N'))
            },
            Err(e) => match e {
                ParseError::Incomplete => input@.len() == 0,
                ParseError::UnknownTag(t) => input@.len() >= 1 && t == input@[0] && t
                    != marker_byte('Y') && t != marker_byte('N'),
            },
        },
{
    parse_bool_with_chars('Y', 'N', input)
}

/// Parse a boolean value by specifying the character mapping.
///
/// The byte is matched against the markers in priority order `yes`, `no`.
pub fn parse_bool_with_chars<'a>(yes: char, no: char, input: &'a [u8]) -> (r: Result<
    (&'a [u8], bool),
    ParseError,
>)
    requires
        (yes as u32) < 256,
        (no as u32) < 256,
    ensures
        match r {
            Ok(p) => {
                &&& input@.len() >= 1
                &&& p.0@ == input@.skip(1)
                &&& (p.1 <==> input@[0] == marker_byte(yes))
                &&& (!p.1 ==> input@[0] == marker_byte(no))
            },
            Err(e) => match e {
                ParseError::Incomplete => input@.len() == 0,
                ParseError::UnknownTag(t) => input@.len() >= 1 && t == input@[0] && t
                    != marker_byte(yes) && t != marker_byte(no),
            },
        },
{
    if input.len() == 0 {
        return Err(ParseError::Incomplete);
    }
    let b = input[0];
    let rest = slice_subrange(input, 1, input.len());
    if b == char_byte(yes) {
        Ok((rest, true))
    } else if b == char_byte(no) {
        Ok((rest, false))
    } else {
        Err(ParseError::UnknownTag(b))
    }
}

/// Encode a boolean value with the standard character mapping of 'Y' and 'N'.
pub fn encode_bool(val: bool) -> (r: Vec<u8>)
    ensures
        r@.len() == 1,
        r@[0] == if val {
            marker_byte('Y')
        } else {
            marker_byte('N')
        },
{
    encode_bool_with_chars('Y', 'N', val)
}

/// Encode a boolean value by specifying the character mapping.
pub fn encode_bool_with_chars(yes: char, no: char, val: bool) -> (r: Vec<u8>)
    requires
        (yes as u32) < 256,
        (no as u32) < 256,
    ensures
        r@.len() == 1,
        r@[0] == if val {
            marker_byte(yes)
        } else {
            marker_byte(no)
        },
{
    let b = if val {
        char_byte(yes)
    } else {
        char_byte(no)
    };
    let mut out: Vec<u8> = Vec::new();
    out.push(b);
    out
}

/// Parse a ternary boolean with the standard mapping of 'Y', 'N', and ' '.
///
/// "Yes", "No", "Uncertain", represented as `Option<bool>`.
pub fn parse_ternary<'a>(input: &'a [u8]) -> (r: Result<(&'a [u8], Option<bool>), ParseError>)
    ensures
        match r {
            Ok(p) => {
                &&& input@.len() >= 1
                &&& p.0@ == input@.skip(1)
                &&& (p.1 == Some(true) <==> input@[0] == marker_byte('Y'))
                &&& (p.1 == Some(false) <==> input@[0] != marker_byte('Y') && input@[0]
                    == marker_byte('N'))
                &&& (p.1 == None::<bool> ==> input@[0] == marker_byte(' '))
            },
            Err(e) => match e {
                ParseError::Incomplete => input@.len() == 0,
                ParseError::UnknownTag(t) => input@.len() >= 1 && t == input@[0] && t
                    != marker_byte('Y') && t != marker_byte('N') && t != marker_byte(' '),
            },
        },
{
    parse_ternary_with_chars('Y', 'N', ' ', input)
}

/// Parse a ternary-logic boolean value by specifying the character mapping.
///
/// The byte is matched against the markers in priority order `yes`, `no`,
/// `maybe`.
pub fn parse_ternary_with_chars<'a>(yes: char, no: char, maybe: char, input: &'a [u8]) -> (r:
    Result<(&'a [u8], Option<bool>), ParseError>)
    requires
        (yes as u32) < 256,
        (no as u32) < 256,
        (maybe as u32) < 256,
    ensures
        match r {
            Ok(p) => {
                &&& input@.len() >= 1
                &&& p.0@ == input@.skip(1)
                &&& (p.1 == Some(true) <==> input@[0] == marker_byte(yes))
                &&& (p.1 == Some(false) <==> input@[0] != marker_byte(yes) && input@[0]
                    == marker_byte(no))
                &&& (p.1 == None::<bool> ==> input@[0] == marker_byte(maybe))
            },
            Err(e) => match e {
                ParseError::Incomplete => input@.len() == 0,
                ParseError::UnknownTag(t) => input@.len() >= 1 && t == input@[0] && t
                    != marker_byte(yes) && t != marker_byte(no) && t != marker_byte(maybe),
            },
        },
{
    if input.len() == 0 {
        return Err(ParseError::Incomplete);
    }
    let b = input[0];
    let rest = slice_subrange(input, 1, input.len());
    if b == char_byte(yes) {
        Ok((rest, Some(true)))
    } else if b == char_byte(no) {
        Ok((rest, Some(false)))
    } else if b == char_byte(maybe) {
        Ok((rest, None))
    } else {
        Err(ParseError::UnknownTag(b))
    }
}

/// Encode a ternary boolean with the standard mapping of 'Y', 'N', and ' '.
pub fn encode_ternary(val: Option<bool>) -> (r: Vec<u8>)
    ensures
        r@.len() == 1,
        r@[0] == match val {
            Some(true) => marker_byte('Y'),
            Some(false) => marker_byte('N'),
            None => marker_byte(' '),
        },
{
    encode_ternary_with_chars('Y', 'N', ' ', val)
}

/// Encode a ternary-logic boolean value by specifying the character mapping.
pub fn encode_ternary_with_chars(yes: char, no: char, uncertain: char, val: Option<bool>) -> (r:
    Vec<u8>)
    requires
        (yes as u32) < 256,
        (no as u32) < 256,
        (uncertain as u32) < 256,
    ensures
        r@.len() == 1,
        r@[0] == match val {
            Some(true) => marker_byte(yes),
            Some(false) => marker_byte(no),
            None => marker_byte(uncertain),
        },
{
    let b = match val {
        Some(true) => char_byte(yes),
        Some(false) => char_byte(no),
        None => char_byte(uncertain),
    };
    let mut out: Vec<u8> = Vec::new();
    out.push(b);
    out
}

} // verus!
