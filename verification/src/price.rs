use vstd::arithmetic::power::{lemma_pow_increases, lemma_pow_positive, pow};
use vstd::math::abs;
use vstd::prelude::*;

use crate::error::{ParseError, TypeError};
use crate::text::{dec_chars, u64_to_string};
use crate::wire::{
    be_bytes, be_read, be_val, be_write, lemma_be_roundtrip, lemma_be_val_bound,
    lemma_pow256_values,
};

verus! {

/// Prices are integer fields, supplied with an associated precision.
/// When converted to a decimal format, prices are in fixed point format,
/// where `N` defines the number of implied decimal places.
/// For example, a price with `N = 4` has an implied 4 decimal places.
#[derive(Debug, Clone, Copy, PartialEq, Eq)]
pub struct Price<I, const N: u8> {
    /// Dollars and cents together, with the decimal marked by the precision.
    val: I,
}

impl<I, const N: u8> Price<I, N> {
    /// The raw fixed-point integer behind this price.
    pub closed spec fn spec_val(&self) -> I {
        self.val
    }
}

impl<I: Copy, const N: u8> Price<I, N> {
    /// Copy the price with dollars and cents together.
    pub fn val(&self) -> (r: I)
        ensures
            r == self.spec_val(),
    {
        self.val
    }
}

/// The protocol price ceiling for precision `n`, in raw units:
/// $199,999.99 — the maximum order price for OUCH — scaled by `10^(n-2)`.
pub open spec fn price_limit(n: u8) -> int
    recommends
        n >= 2,
{
    19_999_999 * pow(10, (n - 2) as nat)
}

/// The 32-bit two's-complement image of a signed raw value.
pub open spec fn twos32(v: int) -> nat
    recommends
        -0x8000_0000 <= v < 0x8000_0000,
{
    if v >= 0 {
        v as nat
    } else {
        (v + 0x1_0000_0000) as nat
    }
}

/// The signed value read back from a 32-bit two's-complement image.
pub open spec fn untwos32(u: nat) -> int
    recommends
        u < 0x1_0000_0000,
{
    if u < 0x8000_0000 {
        u as int
    } else {
        u - 0x1_0000_0000
    }
}

/// One unfolding step of the (opaque) `pow` function at base 10.
proof fn lemma_pow10_unfold(e: nat)
    requires
        e > 0,
    ensures
        pow(10, e) == 10 * pow(10, (e - 1) as nat),
{
    reveal(pow);
}

/// Small powers of 10, spelled out once.
proof fn lemma_pow10_values()
    ensures
        pow(10, 0) == 1,
        pow(10, 9) == 1_000_000_000,
        pow(10, 11) == 100_000_000_000,
        pow(10, 12) == 1_000_000_000_000,
        pow(10, 19) == 10_000_000_000_000_000_000,
{
    reveal_with_fuel(pow, 20);
    assert(pow(10, 1) == 10);
    assert(pow(10, 2) == 100);
    assert(pow(10, 3) == 1_000);
    assert(pow(10, 4) == 10_000);
    assert(pow(10, 5) == 100_000);
    assert(pow(10, 6) == 1_000_000);
    assert(pow(10, 7) == 10_000_000);
    assert(pow(10, 8) == 100_000_000);
    assert(pow(10, 9) == 1_000_000_000);
    assert(pow(10, 10) == 10_000_000_000);
    assert(pow(10, 11) == 100_000_000_000);
    assert(pow(10, 12) == 1_000_000_000_000);
    assert(pow(10, 13) == 10_000_000_000_000);
    assert(pow(10, 14) == 100_000_000_000_000);
    assert(pow(10, 15) == 1_000_000_000_000_000);
    assert(pow(10, 16) == 10_000_000_000_000_000);
    assert(pow(10, 17) == 100_000_000_000_000_000);
    assert(pow(10, 18) == 1_000_000_000_000_000_000);
    assert(pow(10, 19) == 10_000_000_000_000_000_000);
}

/// `10^e`, computed.
fn pow10_u64(e: u32) -> (r: u64)
    requires
        e <= 19,
    ensures
        r == pow(10, e as nat),
{
    let mut acc: u64 = 1;
    let mut i: u32 = 0;
    proof {
        lemma_pow10_values();
    }
    while i < e
        invariant
            i <= e <= 19,
            acc == pow(10, i as nat),
        decreases e - i,
    {
        proof {
            lemma_pow10_values();
            lemma_pow10_unfold((i + 1) as nat);
            lemma_pow_increases(10, (i + 1) as nat, 19);
        }
        acc = acc * 10;
        i = i + 1;
    }
    acc
}

/// Whether a (widened) raw value lies within the precision-`n` ceiling.
fn within_limit(val: u64, n: u8) -> (r: bool)
    requires
        n >= 2,
    ensures
        r == (val <= price_limit(n)),
{
    let e = (n - 2) as u32;
    if e >= 12 {
        proof {
            lemma_pow10_values();
            lemma_pow_increases(10, 12, e as nat);
        }
        true
    } else {
        proof {
            lemma_pow10_values();
            lemma_pow_increases(10, e as nat, 11);
        }
        let limit = 19_999_999u64 * pow10_u64(e);
        val <= limit
    }
}

/// `Price<u32, N>` is used for added orders in ITCH.
impl<const N: u8> Price<u32, N> {
    /// The maximum price one would need to create is $199,999.9900,
    /// which is the maximum order price for OUCH.
    /// Always fails for `N < 2` (cannot express whole currency units
    /// without a hundredths digit).
    pub fn new(val: u32) -> (r: Result<Self, TypeError>)
        ensures
            match r {
                Ok(p) => N >= 2 && val <= price_limit(N) && p.spec_val() == val,
                Err(e) => match e {
                    TypeError::InvalidPrice(t) => if N < 2 {
                        t@ == seq!['N']
                    } else {
                        val > price_limit(N) && t@ == dec_chars(val as nat)
                    },
                    _ => false,
                },
            },
    {
        if N < 2 {
            let t = "N".to_owned();
            proof {
                reveal_strlit("N");
                assert(t@ =~= seq!['N']);
            }
            return Err(TypeError::InvalidPrice(t));
        }
        if within_limit(val as u64, N) {
            Ok(Price { val })
        } else {
            Err(TypeError::InvalidPrice(u64_to_string(val as u64)))
        }
    }

    /// Returns whole dollars, remainder (cents).
    pub fn parts(&self) -> (r: (u32, u32))
        requires
            N <= 9,
        ensures
            r.0 == self.spec_val() as int / pow(10, N as nat),
            r.1 == self.spec_val() as int % pow(10, N as nat),
    {
        proof {
            lemma_pow10_values();
            lemma_pow_increases(10, N as nat, 9);
            lemma_pow_positive(10, N as nat);
        }
        let denom = pow10_u64(N as u32) as u32;
        (self.val / denom, self.val % denom)
    }

    /// Encode price as big-endian bytes.
    pub fn encode(&self) -> (r: Vec<u8>)
        ensures
            r@ == be_bytes(self.spec_val() as nat, 4),
    {
        be_write(self.val as u64, 4)
    }

    /// Parse price from 4 bytes.
    ///
    /// Reinterprets the bytes without re-running the range check of `new`;
    /// callers needing a validated price must re-validate explicitly.
    pub fn parse<'a>(input: &'a [u8]) -> (r: Result<(&'a [u8], Self), ParseError>)
        ensures
            match r {
                Ok(p) => input@.len() >= 4 && p.0@ == input@.skip(4) && p.1.spec_val() == be_val(
                    input@.take(4),
                ),
                Err(e) => input@.len() < 4 && e == ParseError::Incomplete,
            },
    {
        match be_read(input, 4) {
            Ok((rest, v)) => {
                proof {
                    lemma_be_val_bound(input@.take(4));
                    lemma_pow256_values();
                }
                Ok((rest, Price { val: v as u32 }))
            },
            Err(e) => Err(e),
        }
    }
}

/// `Price<i32, N>` is used for setting peg offsets in OUCH.
impl<const N: u8> Price<i32, N> {
    /// Validating factory; negative raw values (peg offsets below the
    /// reference price) are always within range.
    pub fn new(val: i32) -> (r: Result<Self, TypeError>)
        ensures
            match r {
                Ok(p) => N >= 2 && val <= price_limit(N) && p.spec_val() == val,
                Err(e) => match e {
                    TypeError::InvalidPrice(t) => if N < 2 {
                        t@ == seq!['N']
                    } else {
                        val > price_limit(N) && t@ == dec_chars(val as nat)
                    },
                    _ => false,
                },
            },
    {
        if N < 2 {
            let t = "N".to_owned();
            proof {
                reveal_strlit("N");
                assert(t@ =~= seq!['N']);
            }
            return Err(TypeError::InvalidPrice(t));
        }
        if val < 0 {
            proof {
                lemma_pow_positive(10, (N - 2) as nat);
            }
            return Ok(Price { val });
        }
        if within_limit(val as u64, N) {
            Ok(Price { val })
        } else {
            Err(TypeError::InvalidPrice(u64_to_string(val as u64)))
        }
    }

    /// Returns whole dollars, remainder (cents).
    ///
    /// The remainder is the non-negative magnitude of the cents; the sign
    /// of the price is carried by the dollars.
    pub fn parts(&self) -> (r: (i32, u32))
        requires
            N <= 9,
        ensures
            r.1 == abs(self.spec_val() as int) as int % pow(10, N as nat),
            r.0 == if self.spec_val() >= 0 {
                abs(self.spec_val() as int) as int / pow(10, N as nat)
            } else {
                -(abs(self.spec_val() as int) as int / pow(10, N as nat))
            },
    {
        proof {
            lemma_pow10_values();
            lemma_pow_increases(10, N as nat, 9);
            lemma_pow_positive(10, N as nat);
        }
        let denom = pow10_u64(N as u32);
        let neg = self.val < 0;
        let m: u64 = if neg {
            (-(self.val as i64)) as u64
        } else {
            self.val as u64
        };
        let d = m / denom;
        let c = m % denom;
        let dollars: i32 = if neg {
            (-(d as i64)) as i32
        } else {
            d as i32
        };
        (dollars, c as u32)
    }

    /// Encode price as big-endian bytes (two's complement).
    pub fn encode(&self) -> (r: Vec<u8>)
        ensures
            r@ == be_bytes(twos32(self.spec_val() as int), 4),
    {
        let u: u64 = if self.val >= 0 {
            self.val as u64
        } else {
            ((self.val as i64) + 0x1_0000_0000i64) as u64
        };
        be_write(u, 4)
    }

    /// Parse signed price from 4 bytes.
    ///
    /// Reinterprets the bytes without re-running the range check of `new`;
    /// callers needing a validated price must re-validate explicitly.
    pub fn parse<'a>(input: &'a [u8]) -> (r: Result<(&'a [u8], Self), ParseError>)
        ensures
            match r {
                Ok(p) => input@.len() >= 4 && p.0@ == input@.skip(4) && p.1.spec_val()
                    == untwos32(be_val(input@.take(4))),
                Err(e) => input@.len() < 4 && e == ParseError::Incomplete,
            },
    {
        match be_read(input, 4) {
            Ok((rest, v)) => {
                proof {
                    lemma_be_val_bound(input@.take(4));
                    lemma_pow256_values();
                }
                let val: i32 = if v < 0x8000_0000 {
                    v as i32
                } else {
                    ((v as i64) - 0x1_0000_0000i64) as i32
                };
                Ok((rest, Price { val }))
            },
            Err(e) => Err(e),
        }
    }
}

/// `Price<u64, N>` is used for order entry in OUCH (`N = 4`),
/// and for the MWCB levels in ITCH (`N = 8`).
impl<const N: u8> Price<u64, N> {
    /// Validating factory; see the 32-bit variant.
    pub fn new(val: u64) -> (r: Result<Self, TypeError>)
        ensures
            match r {
                Ok(p) => N >= 2 && val <= price_limit(N) && p.spec_val() == val,
                Err(e) => match e {
                    TypeError::InvalidPrice(t) => if N < 2 {
                        t@ == seq!['N']
                    } else {
                        val > price_limit(N) && t@ == dec_chars(val as nat)
                    },
                    _ => false,
                },
            },
    {
        if N < 2 {
            let t = "N".to_owned();
            proof {
                reveal_strlit("N");
                assert(t@ =~= seq!['N']);
            }
            return Err(TypeError::InvalidPrice(t));
        }
        if within_limit(val, N) {
            Ok(Price { val })
        } else {
            Err(TypeError::InvalidPrice(u64_to_string(val)))
        }
    }

    /// Returns whole dollars, remainder (cents).
    pub fn parts(&self) -> (r: (u64, u64))
        requires
            N <= 19,
        ensures
            r.0 == self.spec_val() as int / pow(10, N as nat),
            r.1 == self.spec_val() as int % pow(10, N as nat),
    {
        proof {
            lemma_pow_positive(10, N as nat);
        }
        let denom = pow10_u64(N as u32);
        (self.val / denom, self.val % denom)
    }

    /// Use $200,000.0000 to flag an OUCH order as a market order.
    ///
    /// This raw value sits above the normal ceiling: it is a reserved tag,
    /// not an ordinary price, and `new` refuses it at precision 4.
    pub fn market() -> (r: Self)
        ensures
            r.spec_val() == 2_000_000_000u64,
    {
        Price { val: 2_000_000_000u64 }
    }

    /// Use $214,748.3647 to flag an OUCH cross order as a market order.
    ///
    /// Reserved in the same way as `market`.
    pub fn market_cross() -> (r: Self)
        ensures
            r.spec_val() == 2_147_483_647u64,
    {
        Price { val: 2_147_483_647u64 }
    }

    /// Encode price as big-endian bytes.
    pub fn encode(&self) -> (r: Vec<u8>)
        ensures
            r@ == be_bytes(self.spec_val() as nat, 8),
    {
        be_write(self.val, 8)
    }

    /// Parse price from 8 bytes.
    ///
    /// Reinterprets the bytes without re-running the range check of `new`;
    /// callers needing a validated price must re-validate explicitly.
    pub fn parse<'a>(input: &'a [u8]) -> (r: Result<(&'a [u8], Self), ParseError>)
        ensures
            match r {
                Ok(p) => input@.len() >= 8 && p.0@ == input@.skip(8) && p.1.spec_val() == be_val(
                    input@.take(8),
                ),
                Err(e) => input@.len() < 8 && e == ParseError::Incomplete,
            },
    {
        match be_read(input, 8) {
            Ok((rest, v)) => Ok((rest, Price { val: v })),
            Err(e) => Err(e),
        }
    }
}

/// Two prices of one backing and precision holding the same raw value
/// are the same price: reading back the raw value rebuilds the value.
pub proof fn lemma_price_eq_raw<I, const N: u8>(a: Price<I, N>, b: Price<I, N>)
    requires
        a.spec_val() == b.spec_val(),
    ensures
        a == b,
{
}

/// Round trip: parsing the 4 encoded bytes of any `Price<u32, N>` reads
/// back exactly its raw value, for every representable price.
pub proof fn lemma_price_u32_roundtrip<const N: u8>(p: Price<u32, N>)
    ensures
        be_val(be_bytes(p.spec_val() as nat, 4)) == p.spec_val(),
        be_bytes(p.spec_val() as nat, 4).len() == 4,
{
    lemma_pow256_values();
    lemma_be_roundtrip(p.spec_val() as nat, 4);
}

/// Round trip: parsing the 4 encoded bytes of any `Price<i32, N>` reads
/// back exactly its raw value, for every representable price.
pub proof fn lemma_price_i32_roundtrip<const N: u8>(p: Price<i32, N>)
    ensures
        untwos32(be_val(be_bytes(twos32(p.spec_val() as int), 4))) == p.spec_val(),
        be_bytes(twos32(p.spec_val() as int), 4).len() == 4,
{
    lemma_pow256_values();
    lemma_be_roundtrip(twos32(p.spec_val() as int), 4);
}

/// Round trip: parsing the 8 encoded bytes of any `Price<u64, N>` reads
/// back exactly its raw value, for every representable price.
pub proof fn lemma_price_u64_roundtrip<const N: u8>(p: Price<u64, N>)
    ensures
        be_val(be_bytes(p.spec_val() as nat, 8)) == p.spec_val(),
        be_bytes(p.spec_val() as nat, 8).len() == 8,
{
    lemma_pow256_values();
    lemma_be_roundtrip(p.spec_val() as nat, 8);
}

} // verus!
