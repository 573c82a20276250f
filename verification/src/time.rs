use vstd::arithmetic::div_mod::{
    lemma_fundamental_div_mod, lemma_fundamental_div_mod_converse, lemma_multiply_divide_lt,
};
use vstd::prelude::*;

use crate::error::{ParseError, TypeError};
use crate::wire::{
    be_bytes, be_read, be_val, be_write, lemma_be_bytes_len, lemma_be_roundtrip,
    lemma_pow256_values,
};

verus! {

/// Nanoseconds in one day: the exclusive upper bound of a valid timestamp.
pub const NANOS_PER_DAY: u64 = 86_400_000_000_000;

/// Nanoseconds in one second.
pub const NANOS_PER_SEC: u64 = 1_000_000_000;

/// A time of day: nanoseconds elapsed since midnight, held as whole
/// seconds and the nanosecond remainder.
#[derive(Debug, Clone, Copy, PartialEq, Eq, Structural)]
pub struct TimeOfDay {
    secs: u32,
    nanos: u32,
}

impl TimeOfDay {
    /// Whole seconds since midnight.
    pub closed spec fn spec_secs(&self) -> u32 {
        self.secs
    }

    /// Nanoseconds within the current second.
    pub closed spec fn spec_nanos(&self) -> u32 {
        self.nanos
    }

    /// Total nanoseconds since midnight: what the value means.
    pub open spec fn total(&self) -> int {
        self.spec_secs() * 1_000_000_000 + self.spec_nanos()
    }

    /// Within one day, with the nanosecond remainder under one second.
    pub open spec fn wf(&self) -> bool {
        self.spec_secs() < 86_400 && self.spec_nanos() < 1_000_000_000
    }

    /// Validating factory from a raw nanoseconds-since-midnight count:
    /// fails, carrying the raw count, when it reaches one full day.
    pub fn from_nanos(nanosec: u64) -> (r: Result<TimeOfDay, TypeError>)
        ensures
            match r {
                Ok(t) => nanosec < NANOS_PER_DAY && t.wf() && t.total() == nanosec,
                Err(e) => match e {
                    TypeError::InvalidTime(v) => nanosec >= NANOS_PER_DAY && v == nanosec,
                    _ => false,
                },
            },
    {
        if nanosec >= NANOS_PER_DAY {
            return Err(TypeError::InvalidTime(nanosec));
        }
        proof {
            lemma_multiply_divide_lt(nanosec as int, 86_400, 1_000_000_000);
            lemma_fundamental_div_mod(nanosec as int, 1_000_000_000);
        }
        let secs = (nanosec / NANOS_PER_SEC) as u32;
        let nanos = (nanosec % NANOS_PER_SEC) as u32;
        Ok(TimeOfDay { secs, nanos })
    }

    /// Whole seconds since midnight, computed.
    pub fn secs(&self) -> (r: u32)
        ensures
            r == self.spec_secs(),
    {
        self.secs
    }

    /// Nanoseconds within the current second, computed.
    pub fn nanos(&self) -> (r: u32)
        ensures
            r == self.spec_nanos(),
    {
        self.nanos
    }

    /// Total nanoseconds since midnight, computed.
    pub fn total_nanos(&self) -> (r: u64)
        ensures
            r == self.total(),
    {
        (self.secs as u64) * NANOS_PER_SEC + (self.nanos as u64)
    }
}

/// Two well-formed times of day holding the same nanosecond count are the
/// same time of day.
pub proof fn lemma_time_of_day_unique(a: TimeOfDay, b: TimeOfDay)
    requires
        a.wf(),
        b.wf(),
        a.total() == b.total(),
    ensures
        a == b,
{
    lemma_fundamental_div_mod_converse(
        a.total(),
        1_000_000_000,
        a.spec_secs() as int,
        a.spec_nanos() as int,
    );
    lemma_fundamental_div_mod_converse(
        b.total(),
        1_000_000_000,
        b.spec_secs() as int,
        b.spec_nanos() as int,
    );
}

/// Parse an OUCH-encoded timestamp: 8 big-endian bytes of nanoseconds
/// since midnight. Fallible variant: a count of one day or more is
/// reported as a typed error beside the unconsumed remainder.
pub fn parse_ouch_time<'a>(input: &'a [u8]) -> (r: Result<
    (&'a [u8], Result<TimeOfDay, TypeError>),
    ParseError,
>)
    ensures
        match r {
            Ok(p) => {
                &&& input@.len() >= 8
                &&& p.0@ == input@.skip(8)
                &&& match p.1 {
                    Ok(t) => {
                        &&& be_val(input@.take(8)) < NANOS_PER_DAY
                        &&& t.wf()
                        &&& t.total() == be_val(input@.take(8))
                    },
                    Err(e) => match e {
                        TypeError::InvalidTime(v) => v == be_val(input@.take(8)) && v
                            >= NANOS_PER_DAY,
                        _ => false,
                    },
                }
            },
            Err(e) => input@.len() < 8 && e == ParseError::Incomplete,
        },
{
    match be_read(input, 8) {
        Ok((rest, nanosec)) => Ok((rest, TimeOfDay::from_nanos(nanosec))),
        Err(e) => Err(e),
    }
}

/// Parse an OUCH-encoded timestamp, trusting the sender.
///
/// Trusted variant of [`parse_ouch_time`], sharing its arithmetic: the
/// count is assumed protocol-conformant (below one day), so the
/// out-of-range condition is ruled out up front instead of reported.
pub fn parse_ouch_time_bold<'a>(input: &'a [u8]) -> (r: Result<(&'a [u8], TimeOfDay), ParseError>)
    requires
        input@.len() >= 8 ==> be_val(input@.take(8)) < NANOS_PER_DAY,
    ensures
        match r {
            Ok(p) => {
                &&& input@.len() >= 8
                &&& p.0@ == input@.skip(8)
                &&& p.1.wf()
                &&& p.1.total() == be_val(input@.take(8))
            },
            Err(e) => input@.len() < 8 && e == ParseError::Incomplete,
        },
{
    match be_read(input, 8) {
        Ok((rest, nanosec)) => {
            proof {
                lemma_multiply_divide_lt(nanosec as int, 86_400, 1_000_000_000);
                lemma_fundamental_div_mod(nanosec as int, 1_000_000_000);
            }
            let secs = (nanosec / NANOS_PER_SEC) as u32;
            let nanos = (nanosec % NANOS_PER_SEC) as u32;
            Ok((rest, TimeOfDay { secs, nanos }))
        },
        Err(e) => Err(e),
    }
}

/// Encode a timestamp as 8 big-endian bytes of nanoseconds since
/// midnight: the exact, always-total inverse of the OUCH decoders.
pub fn encode_ouch_time(time: TimeOfDay) -> (r: Vec<u8>)
    ensures
        r@ == be_bytes(time.total() as nat, 8),
        r@.len() == 8,
{
    proof {
        lemma_be_bytes_len(time.total() as nat, 8);
    }
    be_write(time.total_nanos(), 8)
}

/// Parse an ITCH-encoded timestamp: 6 big-endian bytes of nanoseconds
/// since midnight (the top 2 bytes of the wide form, implicitly zero, are
/// reinstated before reinterpreting). Fallible variant.
pub fn parse_itch_time<'a>(input: &'a [u8]) -> (r: Result<
    (&'a [u8], Result<TimeOfDay, TypeError>),
    ParseError,
>)
    ensures
        match r {
            Ok(p) => {
                &&& input@.len() >= 6
                &&& p.0@ == input@.skip(6)
                &&& match p.1 {
                    Ok(t) => {
                        &&& be_val(input@.take(6)) < NANOS_PER_DAY
                        &&& t.wf()
                        &&& t.total() == be_val(input@.take(6))
                    },
                    Err(e) => match e {
                        TypeError::InvalidTime(v) => v == be_val(input@.take(6)) && v
                            >= NANOS_PER_DAY,
                        _ => false,
                    },
                }
            },
            Err(e) => input@.len() < 6 && e == ParseError::Incomplete,
        },
{
    match be_read(input, 6) {
        Ok((rest, nanosec)) => Ok((rest, TimeOfDay::from_nanos(nanosec))),
        Err(e) => Err(e),
    }
}

/// Parse an ITCH-encoded timestamp, trusting the sender.
///
/// Trusted variant of [`parse_itch_time`], sharing its arithmetic; see
/// [`parse_ouch_time_bold`].
pub fn parse_itch_time_bold<'a>(input: &'a [u8]) -> (r: Result<(&'a [u8], TimeOfDay), ParseError>)
    requires
        input@.len() >= 6 ==> be_val(input@.take(6)) < NANOS_PER_DAY,
    ensures
        match r {
            Ok(p) => {
                &&& input@.len() >= 6
                &&& p.0@ == input@.skip(6)
                &&& p.1.wf()
                &&& p.1.total() == be_val(input@.take(6))
            },
            Err(e) => input@.len() < 6 && e == ParseError::Incomplete,
        },
{
    match be_read(input, 6) {
        Ok((rest, nanosec)) => {
            proof {
                lemma_multiply_divide_lt(nanosec as int, 86_400, 1_000_000_000);
                lemma_fundamental_div_mod(nanosec as int, 1_000_000_000);
            }
            let secs = (nanosec / NANOS_PER_SEC) as u32;
            let nanos = (nanosec % NANOS_PER_SEC) as u32;
            Ok((rest, TimeOfDay { secs, nanos }))
        },
        Err(e) => Err(e),
    }
}

/// Encode a timestamp as 6 big-endian bytes of nanoseconds since
/// midnight. A count within one day always fits: the top 2 bytes of the
/// wide form are zero.
pub fn encode_itch_time(time: TimeOfDay) -> (r: Vec<u8>)
    requires
        time.wf(),
    ensures
        r@ == be_bytes(time.total() as nat, 6),
        r@.len() == 6,
{
    proof {
        lemma_be_bytes_len(time.total() as nat, 6);
    }
    be_write(time.total_nanos(), 6)
}

/// Round trip: for every time of day within one day, parsing the 8-byte
/// encoding reads back exactly its nanosecond count, hence (by
/// [`lemma_time_of_day_unique`]) exactly the same time of day.
pub proof fn lemma_ouch_time_roundtrip(t: TimeOfDay)
    requires
        t.wf(),
    ensures
        be_val(be_bytes(t.total() as nat, 8)) == t.total(),
        be_val(be_bytes(t.total() as nat, 8)) < NANOS_PER_DAY,
{
    lemma_pow256_values();
    lemma_be_roundtrip(t.total() as nat, 8);
}

/// Round trip: for every time of day within one day, parsing the 6-byte
/// encoding reads back exactly its nanosecond count, hence (by
/// [`lemma_time_of_day_unique`]) exactly the same time of day.
pub proof fn lemma_itch_time_roundtrip(t: TimeOfDay)
    requires
        t.wf(),
    ensures
        be_val(be_bytes(t.total() as nat, 6)) == t.total(),
        be_val(be_bytes(t.total() as nat, 6)) < NANOS_PER_DAY,
{
    lemma_pow256_values();
    lemma_be_roundtrip(t.total() as nat, 6);
}

} // verus!
