use vstd::arithmetic::div_mod::{lemma_breakdown, lemma_small_mod};
use vstd::arithmetic::power::{lemma_pow_increases, lemma_pow_positive, pow};
use vstd::prelude::*;
use vstd::slice::{slice_subrange, slice_to_vec};

use crate::error::ParseError;

verus! {

/// The value of a byte sequence read as one big-endian unsigned integer.
pub open spec fn be_val(s: Seq<u8>) -> nat
    decreases s.len(),
{
    if s.len() == 0 {
        0
    } else {
        (be_val(s.take(s.len() - 1)) * 256 + s[s.len() - 1]) as nat
    }
}

/// The `w` big-endian bytes of `v % 256^w`, most significant byte first.
pub open spec fn be_bytes(v: nat, w: nat) -> Seq<u8>
    decreases w,
{
    if w == 0 {
        Seq::empty()
    } else {
        be_bytes(v / 256, (w - 1) as nat).push((v % 256) as u8)
    }
}

/// One unfolding step of the (opaque) `pow` function at base 256.
pub proof fn lemma_pow256_unfold(e: nat)
    requires
        e > 0,
    ensures
        pow(256, e) == 256 * pow(256, (e - 1) as nat),
{
    reveal(pow);
}

/// Small powers of 256, spelled out once for the byte widths in use.
pub proof fn lemma_pow256_values()
    ensures
        pow(256, 0) == 1,
        pow(256, 1) == 0x100,
        pow(256, 2) == 0x1_0000,
        pow(256, 3) == 0x100_0000,
        pow(256, 4) == 0x1_0000_0000,
        pow(256, 5) == 0x100_0000_0000,
        pow(256, 6) == 0x1_0000_0000_0000,
        pow(256, 7) == 0x100_0000_0000_0000,
        pow(256, 8) == 0x1_0000_0000_0000_0000,
{
    reveal_with_fuel(pow, 9);
    assert(pow(256, 0) == 1);
    assert(pow(256, 1) == 0x100);
    assert(pow(256, 2) == 0x1_0000);
    assert(pow(256, 3) == 0x100_0000);
    assert(pow(256, 4) == 0x1_0000_0000);
    assert(pow(256, 5) == 0x100_0000_0000);
    assert(pow(256, 6) == 0x1_0000_0000_0000);
    assert(pow(256, 7) == 0x100_0000_0000_0000);
    assert(pow(256, 8) == 0x1_0000_0000_0000_0000);
}

pub proof fn lemma_be_bytes_len(v: nat, w: nat)
    ensures
        be_bytes(v, w).len() == w,
    decreases w,
{
    if w > 0 {
        lemma_be_bytes_len(v / 256, (w - 1) as nat);
    }
}

/// A sequence of `w` bytes always reads back below `256^w`.
pub proof fn lemma_be_val_bound(s: Seq<u8>)
    ensures
        be_val(s) < pow(256, s.len()),
    decreases s.len(),
{
    if s.len() == 0 {
        lemma_pow256_values();
    } else {
        let t = s.take(s.len() - 1);
        lemma_be_val_bound(t);
        lemma_pow256_unfold(s.len());
    }
}

/// Reading back the big-endian bytes of `v` recovers `v` modulo `256^w`.
pub proof fn lemma_be_val_of_be_bytes(v: nat, w: nat)
    ensures
        be_val(be_bytes(v, w)) == v % (pow(256, w) as nat),
    decreases w,
{
    lemma_pow_positive(256, w);
    if w == 0 {
        lemma_pow256_values();
        assert(v % (pow(256, 0) as nat) == 0);
    } else {
        let w1 = (w - 1) as nat;
        let tail = be_bytes(v / 256, w1);
        let s = be_bytes(v, w);
        lemma_be_val_of_be_bytes(v / 256, w1);
        lemma_be_bytes_len(v / 256, w1);
        assert(s.take(s.len() - 1) =~= tail);
        assert(s[s.len() - 1] == (v % 256) as u8);
        lemma_pow_positive(256, w1);
        lemma_breakdown(v as int, 256, pow(256, w1));
        lemma_pow256_unfold(w);
    }
}

/// Round trip at the level of the wire model: parsing the encoding of a
/// value below `256^w` yields the value back.
pub proof fn lemma_be_roundtrip(v: nat, w: nat)
    requires
        v < pow(256, w),
    ensures
        be_bytes(v, w).len() == w,
        be_val(be_bytes(v, w)) == v,
{
    lemma_be_bytes_len(v, w);
    lemma_be_val_of_be_bytes(v, w);
    lemma_pow_positive(256, w);
    lemma_small_mod(v, pow(256, w) as nat);
}

/// Read `w` bytes from the front of `input` as one big-endian integer,
/// returning the unconsumed remainder beside the value.
pub fn be_read<'a>(input: &'a [u8], w: usize) -> (r: Result<(&'a [u8], u64), ParseError>)
    requires
        w <= 8,
    ensures
        match r {
            Ok(p) => input@.len() >= w && p.0@ == input@.skip(w as int) && p.1 as nat == be_val(
                input@.take(w as int),
            ),
            Err(e) => input@.len() < w && e == ParseError::Incomplete,
        },
{
    if input.len() < w {
        return Err(ParseError::Incomplete);
    }
    let mut acc: u64 = 0;
    let mut i: usize = 0;
    proof {
        lemma_pow256_values();
        assert(input@.take(0) =~= Seq::<u8>::empty());
    }
    while i < w
        invariant
            i <= w <= 8,
            w <= input@.len(),
            acc as nat == be_val(input@.take(i as int)),
            acc < pow(256, i as nat),
        decreases w - i,
    {
        let b = input[i];
        proof {
            lemma_pow256_values();
            lemma_pow_increases(256, (i + 1) as nat, 8);
            lemma_pow256_unfold((i + 1) as nat);
            let t = input@.take(i + 1);
            assert(t.take(i as int) =~= input@.take(i as int));
            assert(be_val(t) == be_val(input@.take(i as int)) * 256 + input@[i as int]);
        }
        acc = acc * 256 + (b as u64);
        i = i + 1;
    }
    let rest = slice_subrange(input, w, input.len());
    assert(rest@ =~= input@.skip(w as int));
    Ok((rest, acc))
}

/// Write the low `w` bytes of `v` in big-endian order.
pub fn be_write(v: u64, w: usize) -> (r: Vec<u8>)
    requires
        w <= 8,
    ensures
        r@ == be_bytes(v as nat, w as nat),
    decreases w,
{
    if w == 0 {
        let r: Vec<u8> = Vec::new();
        assert(r@ =~= be_bytes(v as nat, 0));
        r
    } else {
        let mut r = be_write(v / 256, w - 1);
        r.push((v % 256) as u8);
        assert(r@ =~= be_bytes(v as nat, w as nat));
        r
    }
}

/// Take exactly `n` raw bytes from the front of `input`.
pub fn take_bytes<'a>(input: &'a [u8], n: usize) -> (r: Result<(&'a [u8], Vec<u8>), ParseError>)
    ensures
        match r {
            Ok(p) => input@.len() >= n && p.0@ == input@.skip(n as int) && p.1@ == input@.take(
                n as int,
            ),
            Err(e) => input@.len() < n && e == ParseError::Incomplete,
        },
{
    if input.len() < n {
        return Err(ParseError::Incomplete);
    }
    let taken = slice_to_vec(slice_subrange(input, 0, n));
    let rest = slice_subrange(input, n, input.len());
    assert(taken@ =~= input@.take(n as int));
    assert(rest@ =~= input@.skip(n as int));
    Ok((rest, taken))
}

} // verus!
