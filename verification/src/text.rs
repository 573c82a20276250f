use vstd::prelude::*;

verus! {

/// The ASCII byte of a single decimal digit.
pub open spec fn dec_digit(d: nat) -> u8
    recommends
        d < 10,
{
    (0x30 + d) as u8
}

/// The ASCII bytes of `n` written in decimal, most significant digit first.
pub open spec fn dec_bytes(n: nat) -> Seq<u8>
    decreases n,
{
    if n < 10 {
        seq![dec_digit(n)]
    } else {
        dec_bytes(n / 10).push(dec_digit(n % 10))
    }
}

/// The characters that a sequence of ASCII bytes reads as.
pub open spec fn ascii_chars(bytes: Seq<u8>) -> Seq<char> {
    bytes.map_values(|b: u8| b as char)
}

/// The characters of `n` written in decimal.
pub open spec fn dec_chars(n: nat) -> Seq<char> {
    ascii_chars(dec_bytes(n))
}

/// Every byte of a decimal rendering is an ASCII digit.
pub proof fn lemma_dec_bytes_ascii(n: nat)
    ensures
        forall|i: int| 0 <= i < dec_bytes(n).len() ==> 0x30 <= #[trigger] dec_bytes(n)[i] <= 0x39,
    decreases n,
{
    if n < 10 {
        assert(dec_bytes(n)[0] == dec_digit(n));
    } else {
        lemma_dec_bytes_ascii(n / 10);
        let s = dec_bytes(n);
        assert forall|i: int| 0 <= i < s.len() implies 0x30 <= #[trigger] s[i] <= 0x39 by {
            if i < s.len() - 1 {
                assert(s[i] == dec_bytes(n / 10)[i]);
            } else {
                assert(s[i] == dec_digit(n % 10));
            }
        }
    }
}

/// Append the decimal digits of `v` to `out`.
fn push_dec_digits(v: u64, out: &mut Vec<u8>)
    ensures
        final(out)@ == old(out)@ + dec_bytes(v as nat),
    decreases v,
{
    if v >= 10 {
        push_dec_digits(v / 10, out);
    }
    out.push(0x30u8 + (v % 10) as u8);
    proof {
        assert(final(out)@ =~= old(out)@ + dec_bytes(v as nat));
    }
}

/// Relies on `core::str::from_utf8`: bytes below 0x80 are valid UTF-8 and
/// decode to exactly those characters, one character per byte.
#[verifier::external_body]
pub(crate) fn ascii_from_utf8<'a>(bytes: &'a [u8]) -> (r: &'a str)
    requires
        forall|i: int| 0 <= i < bytes@.len() ==> bytes@[i] < 0x80,
    ensures
        r@.len() == bytes@.len(),
        forall|i: int| 0 <= i < bytes@.len() ==> r@[i] == bytes@[i] as char,
{
    match core::str::from_utf8(bytes) {
        Ok(s) => s,
        Err(_) => "",
    }
}

/// Render `v` in decimal, as text.
pub fn u64_to_string(v: u64) -> (r: String)
    ensures
        r@ == dec_chars(v as nat),
{
    let mut buf: Vec<u8> = Vec::new();
    push_dec_digits(v, &mut buf);
    proof {
        assert(buf@ =~= dec_bytes(v as nat));
        lemma_dec_bytes_ascii(v as nat);
    }
    let s = ascii_from_utf8(buf.as_slice());
    let r = s.to_owned();
    proof {
        assert(r@ =~= dec_chars(v as nat));
    }
    r
}

} // verus!
