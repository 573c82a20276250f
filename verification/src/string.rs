use vstd::prelude::*;
use vstd::slice::slice_to_vec;
use vstd::string::StringSliceAdditionalSpecFns;

use crate::error::{ParseError, TypeError};
use crate::text::{ascii_chars, ascii_from_utf8};
use crate::wire::take_bytes;

verus! {

/// The bytes of `s` truncated, or right-padded with spaces, to length `n`.
pub open spec fn pad_to(bytes: Seq<u8>, n: nat) -> Seq<u8> {
    if bytes.len() >= n {
        bytes.take(n as int)
    } else {
        bytes + Seq::new((n - bytes.len()) as nat, |i: int| 32u8)
    }
}

/// `bytes` with trailing pad spaces removed.
pub open spec fn trim_spaces(bytes: Seq<u8>) -> Seq<u8>
    decreases bytes.len(),
{
    if bytes.len() > 0 && bytes[bytes.len() - 1] == 32 {
        trim_spaces(bytes.take(bytes.len() - 1))
    } else {
        bytes
    }
}

/// All bytes are uppercase ASCII letters.
pub open spec fn spec_is_uppercase(bytes: Seq<u8>) -> bool {
    forall|i: int| 0 <= i < bytes.len() ==> 0x41 <= #[trigger] bytes[i] <= 0x5a
}

/// All bytes are ASCII letters.
pub open spec fn spec_is_alpha(bytes: Seq<u8>) -> bool {
    forall|i: int|
        0 <= i < bytes.len() ==> (0x41 <= #[trigger] bytes[i] <= 0x5a || 0x61 <= bytes[i] <= 0x7a)
}

/// All bytes are ASCII letters or a period.
pub open spec fn spec_is_alpha_with_suffix(bytes: Seq<u8>) -> bool {
    forall|i: int|
        0 <= i < bytes.len() ==> (0x41 <= #[trigger] bytes[i] <= 0x5a || 0x61 <= bytes[i] <= 0x7a
            || bytes[i] == 0x2e)
}

/// All bytes are ASCII letters, digits or spaces.
pub open spec fn spec_is_alphanumeric(bytes: Seq<u8>) -> bool {
    forall|i: int|
        0 <= i < bytes.len() ==> (0x41 <= #[trigger] bytes[i] <= 0x5a || 0x61 <= bytes[i] <= 0x7a
            || 0x30 <= bytes[i] <= 0x39 || bytes[i] == 0x20)
}

/// Wrappable string type with a fixed byte length `L`.
///
/// Content restrictions belong to the typed constructors of the wrapping
/// field types; the wire operations reinterpret bytes unchecked.
#[derive(Debug, Clone, PartialEq, Eq)]
pub struct FixStr<const L: usize> {
    bytes: Vec<u8>,
}

impl<const L: usize> View for FixStr<L> {
    type V = Seq<u8>;

    closed spec fn view(&self) -> Seq<u8> {
        self.bytes@
    }
}

impl<const L: usize> FixStr<L> {
    /// Exactly `L` bytes are held.
    pub open spec fn wf(&self) -> bool {
        self@.len() == L
    }

    /// Wrap exactly `L` raw bytes.
    pub fn from_bytes(bytes: Vec<u8>) -> (r: Self)
        requires
            bytes@.len() == L,
        ensures
            r@ == bytes@,
            r.wf(),
    {
        FixStr { bytes }
    }

    /// Consume exactly `L` bytes unconditionally; insufficient remaining
    /// bytes is a buffer error, never a content error.
    ///
    /// Assumes the sender only puts valid characters on the wire, and
    /// therefore does not check for compliance.
    pub fn parse<'a>(input: &'a [u8]) -> (r: Result<(&'a [u8], Self), ParseError>)
        ensures
            match r {
                Ok(p) => {
                    &&& input@.len() >= L
                    &&& p.0@ == input@.skip(L as int)
                    &&& p.1@ == input@.take(L as int)
                    &&& p.1.wf()
                },
                Err(e) => input@.len() < L && e == ParseError::Incomplete,
            },
    {
        match take_bytes(input, L) {
            Ok((rest, v)) => Ok((rest, FixStr { bytes: v })),
            Err(e) => Err(e),
        }
    }

    /// Extract the data for inclusion in a message.
    pub fn encode(&self) -> (r: Vec<u8>)
        ensures
            r@ == self@,
    {
        slice_to_vec(self.bytes.as_slice())
    }

    /// The held text with trailing pad spaces stripped.
    ///
    /// Character compliance should be checked when created: the result is
    /// only meaningful for 7-bit-clean content, which is required here
    /// rather than re-checked at run time.
    pub fn to_str(&self) -> (r: String)
        requires
            forall|i: int| 0 <= i < self@.len() ==> self@[i] < 0x80,
        ensures
            r@ == ascii_chars(trim_spaces(self@)),
    {
        let mut end: usize = self.bytes.len();
        proof {
            assert(self@.take(self@.len() as int) =~= self@);
        }
        while end > 0 && self.bytes[end - 1] == 32u8
            invariant
                end <= self@.len(),
                trim_spaces(self@) == trim_spaces(self@.take(end as int)),
            decreases end,
        {
            proof {
                let t = self@.take(end as int);
                assert(t.take(end - 1) =~= self@.take(end - 1));
            }
            end = end - 1;
        }
        proof {
            let t = self@.take(end as int);
            assert(trim_spaces(t) == t);
            assert(forall|i: int| 0 <= i < t.len() ==> #[trigger] t[i] == self@[i]);
        }
        let trimmed = vstd::slice::slice_subrange(self.bytes.as_slice(), 0, end);
        let s = ascii_from_utf8(trimmed);
        let r = s.to_owned();
        proof {
            assert(r@ =~= ascii_chars(trim_spaces(self@)));
        }
        r
    }
}

/// Round trip: re-parsing the encoded bytes of any well-formed fixed-width
/// string yields exactly the same bytes, consuming the whole encoding.
///
/// `encode` returns the held `L` bytes, and `parse` returns the first `L`
/// bytes of its input; on the encoding of `s` that prefix is `s` itself.
pub proof fn lemma_fixstr_roundtrip<const L: usize>(s: FixStr<L>)
    requires
        s.wf(),
    ensures
        s@.take(L as int) == s@,
{
    assert(s@.take(L as int) =~= s@);
}

/// Wrappable string type with fixed length 4.
pub type FixStr4 = FixStr<4>;

/// Wrappable string type with fixed length 8.
pub type FixStr8 = FixStr<8>;

/// Wrappable string type with fixed length 14.
pub type FixStr14 = FixStr<14>;

/// Creates a fixed-length byte string, truncating or padding up to length
/// `N` with spaces.
pub fn fixed_str<const N: usize>(s: &str) -> (r: Vec<u8>)
    ensures
        r@ == pad_to(s.spec_bytes(), N as nat),
{
    let b = s.as_bytes();
    let mut out: Vec<u8> = Vec::new();
    let mut i: usize = 0;
    while i < N
        invariant
            i <= N,
            out@.len() == i,
            b@ == s.spec_bytes(),
            forall|j: int| 0 <= j < i ==> #[trigger] out@[j] == pad_to(s.spec_bytes(), N as nat)[j],
        decreases N - i,
    {
        if i < b.len() {
            let x = b[i];
            out.push(x);
        } else {
            out.push(32u8);
        }
        i = i + 1;
    }
    proof {
        assert(out@ =~= pad_to(s.spec_bytes(), N as nat));
    }
    out
}

/// Market Participant Identifier (MPID).
/// Used for identifying firms registered with FINRA.
#[derive(Debug, Clone, PartialEq, Eq)]
pub struct Mpid {
    s: FixStr<4>,
}

impl View for Mpid {
    type V = Seq<u8>;

    closed spec fn view(&self) -> Seq<u8> {
        self.s@
    }
}

impl Mpid {
    /// Exactly 4 bytes are held.
    pub open spec fn wf(&self) -> bool {
        self@.len() == 4
    }

    /// Generate a new Mpid from a protocol-compliant string.
    /// Must be uppercase ASCII characters, space-padded to four bytes.
    pub fn from(s: &str) -> (r: Result<Self, TypeError>)
        ensures
            match r {
                Ok(m) => {
                    &&& spec_is_uppercase(s.spec_bytes())
                    &&& m@ == pad_to(s.spec_bytes(), 4)
                    &&& m.wf()
                },
                Err(e) => match e {
                    TypeError::InvalidString(k, v) => {
                        &&& !spec_is_uppercase(s.spec_bytes())
                        &&& k@ == "MPID"@
                        &&& v@ == s@
                    },
                    _ => false,
                },
            },
    {
        if is_uppercase(s) {
            let fs = fixed_str::<4>(s);
            Ok(Mpid { s: FixStr::from_bytes(fs) })
        } else {
            Err(TypeError::InvalidString("MPID".to_owned(), s.to_owned()))
        }
    }

    /// Consume exactly 4 bytes unconditionally; no compliance check.
    pub fn parse<'a>(input: &'a [u8]) -> (r: Result<(&'a [u8], Self), ParseError>)
        ensures
            match r {
                Ok(p) => {
                    &&& input@.len() >= 4
                    &&& p.0@ == input@.skip(4)
                    &&& p.1@ == input@.take(4)
                    &&& p.1.wf()
                },
                Err(e) => input@.len() < 4 && e == ParseError::Incomplete,
            },
    {
        match FixStr::<4>::parse(input) {
            Ok((rest, s)) => Ok((rest, Mpid { s })),
            Err(e) => Err(e),
        }
    }

    /// Extract the data for inclusion in a message.
    pub fn encode(&self) -> (r: Vec<u8>)
        ensures
            r@ == self@,
    {
        self.s.encode()
    }

    /// The held text with trailing pad spaces stripped; 7-bit-clean
    /// content is required rather than re-checked.
    pub fn to_str(&self) -> (r: String)
        requires
            forall|i: int| 0 <= i < self@.len() ==> self@[i] < 0x80,
        ensures
            r@ == ascii_chars(trim_spaces(self@)),
    {
        self.s.to_str()
    }
}

impl Default for Mpid {
    /// Four pad spaces: no participant named.
    fn default() -> (r: Self)
        ensures
            r@ == seq![32u8, 32u8, 32u8, 32u8],
    {
        let mut v: Vec<u8> = Vec::new();
        v.push(32u8);
        v.push(32u8);
        v.push(32u8);
        v.push(32u8);
        proof {
            assert(v@ =~= seq![32u8, 32u8, 32u8, 32u8]);
        }
        Mpid { s: FixStr::from_bytes(v) }
    }
}

/// Strong type for stock symbols that ensures protocol compliance.
/// Nasdaq currently restricts its symbol length to a maximum of 8
/// characters: a root symbol with an optional suffix, where a dot
/// delimiter may be applied between the root and the suffix,
/// e.g. `XXXX.A`.
#[derive(Debug, Clone, PartialEq, Eq)]
pub struct StockSymbol {
    s: FixStr<8>,
}

impl View for StockSymbol {
    type V = Seq<u8>;

    closed spec fn view(&self) -> Seq<u8> {
        self.s@
    }
}

impl StockSymbol {
    /// Exactly 8 bytes are held.
    pub open spec fn wf(&self) -> bool {
        self@.len() == 8
    }

    /// Generate a new StockSymbol from a protocol-compliant string.
    /// Must be ASCII letters with an optional dot-delimited suffix,
    /// space-padded to eight bytes.
    pub fn from(s: &str) -> (r: Result<Self, TypeError>)
        ensures
            match r {
                Ok(m) => {
                    &&& spec_is_alpha_with_suffix(s.spec_bytes())
                    &&& m@ == pad_to(s.spec_bytes(), 8)
                    &&& m.wf()
                },
                Err(e) => match e {
                    TypeError::InvalidString(k, v) => {
                        &&& !spec_is_alpha_with_suffix(s.spec_bytes())
                        &&& k@ == "StockSymbol"@
                        &&& v@ == s@
                    },
                    _ => false,
                },
            },
    {
        if is_alpha_with_suffix(s) {
            let fs = fixed_str::<8>(s);
            Ok(StockSymbol { s: FixStr::from_bytes(fs) })
        } else {
            Err(TypeError::InvalidString("StockSymbol".to_owned(), s.to_owned()))
        }
    }

    /// Consume exactly 8 bytes unconditionally; no compliance check.
    pub fn parse<'a>(input: &'a [u8]) -> (r: Result<(&'a [u8], Self), ParseError>)
        ensures
            match r {
                Ok(p) => {
                    &&& input@.len() >= 8
                    &&& p.0@ == input@.skip(8)
                    &&& p.1@ == input@.take(8)
                    &&& p.1.wf()
                },
                Err(e) => input@.len() < 8 && e == ParseError::Incomplete,
            },
    {
        match FixStr::<8>::parse(input) {
            Ok((rest, s)) => Ok((rest, StockSymbol { s })),
            Err(e) => Err(e),
        }
    }

    /// Extract the data for inclusion in a message.
    pub fn encode(&self) -> (r: Vec<u8>)
        ensures
            r@ == self@,
    {
        self.s.encode()
    }

    /// The held text with trailing pad spaces stripped; 7-bit-clean
    /// content is required rather than re-checked.
    pub fn to_str(&self) -> (r: String)
        requires
            forall|i: int| 0 <= i < self@.len() ==> self@[i] < 0x80,
        ensures
            r@ == ascii_chars(trim_spaces(self@)),
    {
        self.s.to_str()
    }
}

impl Default for StockSymbol {
    /// Eight pad spaces: no symbol named.
    fn default() -> (r: Self)
        ensures
            r@ == seq![32u8, 32u8, 32u8, 32u8, 32u8, 32u8, 32u8, 32u8],
    {
        let mut v: Vec<u8> = Vec::new();
        v.push(32u8);
        v.push(32u8);
        v.push(32u8);
        v.push(32u8);
        v.push(32u8);
        v.push(32u8);
        v.push(32u8);
        v.push(32u8);
        proof {
            assert(v@ =~= seq![32u8, 32u8, 32u8, 32u8, 32u8, 32u8, 32u8, 32u8]);
        }
        StockSymbol { s: FixStr::from_bytes(v) }
    }
}

/// Checks if all characters are uppercase ASCII letters. (e.g. for Mpid)
pub fn is_uppercase(s: &str) -> (r: bool)
    ensures
        r == spec_is_uppercase(s.spec_bytes()),
{
    let b = s.as_bytes();
    let mut i: usize = 0;
    while i < b.len()
        invariant
            i <= b@.len(),
            b@ == s.spec_bytes(),
            forall|j: int| 0 <= j < i ==> 0x41 <= #[trigger] b@[j] <= 0x5a,
        decreases b@.len() - i,
    {
        let x = b[i];
        if !(0x41 <= x && x <= 0x5a) {
            return false;
        }
        i = i + 1;
    }
    true
}

/// Checks if all characters are ASCII letters.
pub fn is_alpha(s: &str) -> (r: bool)
    ensures
        r == spec_is_alpha(s.spec_bytes()),
{
    let b = s.as_bytes();
    let mut i: usize = 0;
    while i < b.len()
        invariant
            i <= b@.len(),
            b@ == s.spec_bytes(),
            forall|j: int|
                0 <= j < i ==> (0x41 <= #[trigger] b@[j] <= 0x5a || 0x61 <= b@[j] <= 0x7a),
        decreases b@.len() - i,
    {
        let x = b[i];
        if !((0x41 <= x && x <= 0x5a) || (0x61 <= x && x <= 0x7a)) {
            return false;
        }
        i = i + 1;
    }
    true
}

/// Checks if all characters are ASCII letters or a period.
/// (e.g. for StockSymbol)
pub fn is_alpha_with_suffix(s: &str) -> (r: bool)
    ensures
        r == spec_is_alpha_with_suffix(s.spec_bytes()),
{
    let b = s.as_bytes();
    let mut i: usize = 0;
    while i < b.len()
        invariant
            i <= b@.len(),
            b@ == s.spec_bytes(),
            forall|j: int|
                0 <= j < i ==> (0x41 <= #[trigger] b@[j] <= 0x5a || 0x61 <= b@[j] <= 0x7a || b@[j]
                    == 0x2e),
        decreases b@.len() - i,
    {
        let x = b[i];
        if !((0x41 <= x && x <= 0x5a) || (0x61 <= x && x <= 0x7a) || x == 0x2e) {
            return false;
        }
        i = i + 1;
    }
    true
}

/// Checks if all characters are ASCII letters, digits or spaces.
/// (e.g. for an order token)
pub fn is_alphanumeric(s: &str) -> (r: bool)
    ensures
        r == spec_is_alphanumeric(s.spec_bytes()),
{
    let b = s.as_bytes();
    let mut i: usize = 0;
    while i < b.len()
        invariant
            i <= b@.len(),
            b@ == s.spec_bytes(),
            forall|j: int|
                0 <= j < i ==> (0x41 <= #[trigger] b@[j] <= 0x5a || 0x61 <= b@[j] <= 0x7a || 0x30
                    <= b@[j] <= 0x39 || b@[j] == 0x20),
        decreases b@.len() - i,
    {
        let x = b[i];
        if !((0x41 <= x && x <= 0x5a) || (0x61 <= x && x <= 0x7a) || (0x30 <= x && x <= 0x39) || x
            == 0x20) {
            return false;
        }
        i = i + 1;
    }
    true
}

} // verus!
