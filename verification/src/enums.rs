use vstd::prelude::*;
use vstd::slice::{slice_subrange, slice_to_vec};

use crate::error::{ParseError, TypeError};
use crate::text::dec_chars;

verus! {

/// Pairwise distinct tag bytes.
pub open spec fn distinct_tags(tags: Seq<u8>) -> bool {
    forall|i: int, j: int| 0 <= i < j < tags.len() ==> tags[i] != tags[j]
}

/// Declarative codec for single-byte tagged enums: an ordered list of tag
/// bytes, one per variant. Variants are identified by their index in the
/// declaration order.
#[derive(Debug, Clone, PartialEq, Eq)]
pub struct TagMap {
    tags: Vec<u8>,
}

impl View for TagMap {
    type V = Seq<u8>;

    closed spec fn view(&self) -> Seq<u8> {
        self.tags@
    }
}

impl TagMap {
    /// The declared tags are pairwise distinct.
    pub open spec fn wf(&self) -> bool {
        distinct_tags(self@)
    }

    /// Declare the tag set, one byte per variant, in variant order.
    ///
    /// An ambiguous declaration — two variants sharing a tag — is caught
    /// here, at construction time.
    pub fn new(tags: Vec<u8>) -> (r: Result<TagMap, TypeError>)
        ensures
            match r {
                Ok(m) => distinct_tags(tags@) && m@ == tags@ && m.wf(),
                Err(e) => match e {
                    TypeError::InvalidString(k, v) => {
                        &&& !distinct_tags(tags@)
                        &&& k@ == "Tag"@
                        &&& exists|i: int, j: int|
                            #![trigger tags@[i], tags@[j]]
                            {
                                0 <= i < j < tags@.len() && tags@[i] == tags@[j] && v@ == dec_chars(
                                    tags@[i] as nat,
                                )
                            }
                    },
                    _ => false,
                },
            },
    {
        let n = tags.len();
        let mut i: usize = 0;
        while i < n
            invariant
                i <= n,
                n == tags@.len(),
                forall|a: int, b: int| 0 <= a < b < tags@.len() && a < i ==> tags@[a] != tags@[b],
            decreases n - i,
        {
            let mut j: usize = i + 1;
            while j < n
                invariant
                    i < j <= n,
                    n == tags@.len(),
                    forall|b: int| i < b < j ==> tags@[i as int] != tags@[b],
                decreases n - j,
            {
                if tags[i] == tags[j] {
                    let v = crate::text::u64_to_string(tags[i] as u64);
                    return Err(TypeError::InvalidString("Tag".to_owned(), v));
                }
                j = j + 1;
            }
            i = i + 1;
        }
        Ok(TagMap { tags })
    }

    /// Number of declared variants.
    pub fn len(&self) -> (r: usize)
        ensures
            r == self@.len(),
    {
        self.tags.len()
    }

    /// Parse one byte and return the index of the variant whose tag
    /// matches it, trying declared tags in declaration order.
    pub fn parse<'a>(&self, input: &'a [u8]) -> (r: Result<(&'a [u8], usize), ParseError>)
        ensures
            match r {
                Ok(p) => {
                    &&& input@.len() >= 1
                    &&& p.0@ == input@.skip(1)
                    &&& p.1 < self@.len()
                    &&& self@[p.1 as int] == input@[0]
                    &&& forall|j: int| 0 <= j < p.1 ==> self@[j] != input@[0]
                },
                Err(e) => match e {
                    ParseError::Incomplete => input@.len() == 0,
                    ParseError::UnknownTag(t) => {
                        &&& input@.len() >= 1
                        &&& t == input@[0]
                        &&& forall|j: int| 0 <= j < self@.len() ==> self@[j] != t
                    },
                },
            },
    {
        if input.len() == 0 {
            return Err(ParseError::Incomplete);
        }
        let b = input[0];
        let rest = slice_subrange(input, 1, input.len());
        proof {
            assert(rest@ =~= input@.skip(1));
        }
        let n = self.tags.len();
        let mut k: usize = 0;
        while k < n
            invariant
                k <= n,
                n == self@.len(),
                input@.len() >= 1,
                b == input@[0],
                rest@ == input@.skip(1),
                forall|j: int| 0 <= j < k ==> self@[j] != b,
            decreases n - k,
        {
            if self.tags[k] == b {
                return Ok((rest, k));
            }
            k = k + 1;
        }
        Err(ParseError::UnknownTag(b))
    }

    /// Encode a declared variant back to its tag byte: a total,
    /// exhaustive mapping over the declared variants.
    pub fn encode(&self, variant: usize) -> (r: Vec<u8>)
        requires
            variant < self@.len(),
        ensures
            r@.len() == 1,
            r@[0] == self@[variant as int],
    {
        let mut out: Vec<u8> = Vec::new();
        out.push(self.tags[variant]);
        out
    }
}

/// Round trip: with a well-formed (distinct) declaration, the tag byte
/// that `encode` writes for a variant is matched by `parse` back to
/// exactly that variant — no earlier declaration captures it.
pub proof fn lemma_tagmap_roundtrip(m: &TagMap, variant: int)
    requires
        m.wf(),
        0 <= variant < m@.len(),
    ensures
        forall|j: int| 0 <= j < variant ==> m@[j] != m@[variant],
{
}

/// Pairwise distinct multi-byte tags.
pub open spec fn distinct_str_tags(tags: Seq<Seq<u8>>) -> bool {
    forall|i: int, j: int| 0 <= i < j < tags.len() ==> tags[i] !~= tags[j]
}

/// Declarative codec for tagged enums whose tags are a fixed number of
/// bytes; patterns may embed pad characters. Variants are identified by
/// their index in the declaration order.
#[derive(Debug, Clone, PartialEq, Eq)]
pub struct StrTagMap {
    width: usize,
    tags: Vec<Vec<u8>>,
}

impl View for StrTagMap {
    type V = Seq<Seq<u8>>;

    closed spec fn view(&self) -> Seq<Seq<u8>> {
        Seq::new(self.tags@.len(), |i: int| self.tags@[i]@)
    }
}

impl StrTagMap {
    /// The declared tag width.
    pub closed spec fn spec_width(&self) -> nat {
        self.width as nat
    }

    /// At least one byte wide, every tag exactly that wide, and the
    /// declared tags pairwise distinct.
    pub open spec fn wf(&self) -> bool {
        &&& self.spec_width() >= 1
        &&& forall|i: int| 0 <= i < self@.len() ==> (#[trigger] self@[i]).len() == self.spec_width()
        &&& distinct_str_tags(self@)
    }

    /// The declared tag width, computed.
    pub fn width(&self) -> (r: usize)
        ensures
            r == self.spec_width(),
    {
        self.width
    }

    /// Number of declared variants.
    pub fn len(&self) -> (r: usize)
        ensures
            r == self@.len(),
    {
        self.tags.len()
    }

    /// Declare the tag set, one `width`-byte pattern per variant, in
    /// variant order. A pattern of the wrong width, or two variants
    /// sharing a pattern, is caught here, at construction time.
    pub fn new(width: usize, tags: Vec<Vec<u8>>) -> (r: Result<StrTagMap, TypeError>)
        ensures
            match r {
                Ok(m) => {
                    &&& m.wf()
                    &&& m.spec_width() == width
                    &&& m@.len() == tags@.len()
                    &&& forall|i: int| 0 <= i < tags@.len() ==> m@[i] == #[trigger] tags@[i]@
                },
                Err(e) => match e {
                    TypeError::InvalidString(k, _) => {
                        &&& k@ == "Tag"@
                        &&& !({
                            &&& width >= 1
                            &&& forall|i: int|
                                0 <= i < tags@.len() ==> (#[trigger] tags@[i]@).len() == width
                            &&& forall|i: int, j: int|
                                0 <= i < j < tags@.len() ==> tags@[i]@ !~= tags@[j]@
                        })
                    },
                    _ => false,
                },
            },
    {
        if width == 0 {
            return Err(TypeError::InvalidString("Tag".to_owned(), String::new()));
        }
        let n = tags.len();
        let mut i: usize = 0;
        while i < n
            invariant
                i <= n,
                n == tags@.len(),
                width >= 1,
                forall|a: int| 0 <= a < i ==> (#[trigger] tags@[a]@).len() == width,
                forall|a: int, b: int| 0 <= a < b < tags@.len() && a < i ==> tags@[a]@ !~= tags@[b]@,
            decreases n - i,
        {
            let ti: &Vec<u8> = &tags[i];
            if ti.len() != width {
                return Err(TypeError::InvalidString("Tag".to_owned(), String::new()));
            }
            let mut j: usize = i + 1;
            while j < n
                invariant
                    i < j <= n,
                    n == tags@.len(),
                    forall|b: int| i < b < j ==> tags@[i as int]@ !~= tags@[b]@,
                decreases n - j,
            {
                if bytes_eq(tags[i].as_slice(), tags[j].as_slice()) {
                    return Err(TypeError::InvalidString("Tag".to_owned(), String::new()));
                }
                j = j + 1;
            }
            i = i + 1;
        }
        Ok(StrTagMap { width, tags })
    }

    /// Parse `width` bytes and return the index of the variant whose tag
    /// matches them exactly, trying declared tags in declaration order.
    pub fn parse<'a>(&self, input: &'a [u8]) -> (r: Result<(&'a [u8], usize), ParseError>)
        requires
            self.spec_width() >= 1,
        ensures
            match r {
                Ok(p) => {
                    &&& input@.len() >= self.spec_width()
                    &&& p.0@ == input@.skip(self.spec_width() as int)
                    &&& p.1 < self@.len()
                    &&& self@[p.1 as int] =~= input@.take(self.spec_width() as int)
                    &&& forall|j: int|
                        0 <= j < p.1 ==> self@[j] !~= input@.take(self.spec_width() as int)
                },
                Err(e) => match e {
                    ParseError::Incomplete => input@.len() < self.spec_width(),
                    ParseError::UnknownTag(t) => {
                        &&& input@.len() >= self.spec_width()
                        &&& t == input@[0]
                        &&& forall|j: int|
                            0 <= j < self@.len() ==> self@[j] !~= input@.take(
                                self.spec_width() as int,
                            )
                    },
                },
            },
    {
        if input.len() < self.width {
            return Err(ParseError::Incomplete);
        }
        let prefix = slice_subrange(input, 0, self.width);
        let rest = slice_subrange(input, self.width, input.len());
        proof {
            assert(prefix@ =~= input@.take(self.spec_width() as int));
            assert(rest@ =~= input@.skip(self.spec_width() as int));
        }
        let n = self.tags.len();
        let mut k: usize = 0;
        while k < n
            invariant
                k <= n,
                n == self@.len(),
                input@.len() >= self.spec_width(),
                prefix@ == input@.take(self.spec_width() as int),
                rest@ == input@.skip(self.spec_width() as int),
                forall|j: int| 0 <= j < k ==> self@[j] !~= prefix@,
            decreases n - k,
        {
            if bytes_eq(self.tags[k].as_slice(), prefix) {
                return Ok((rest, k));
            }
            k = k + 1;
        }
        Err(ParseError::UnknownTag(input[0]))
    }

    /// Encode a declared variant back to its tag bytes: a total,
    /// exhaustive mapping over the declared variants.
    pub fn encode(&self, variant: usize) -> (r: Vec<u8>)
        requires
            variant < self@.len(),
        ensures
            r@ == self@[variant as int],
    {
        slice_to_vec(self.tags[variant].as_slice())
    }
}

/// Round trip: with a well-formed (distinct) declaration, the tag bytes
/// that `encode` writes for a variant are matched by `parse` back to
/// exactly that variant — no earlier declaration captures them.
pub proof fn lemma_strtagmap_roundtrip(m: &StrTagMap, variant: int)
    requires
        m.wf(),
        0 <= variant < m@.len(),
    ensures
        forall|j: int| 0 <= j < variant ==> m@[j] !~= m@[variant],
{
}

/// Whether two byte strings hold the same bytes.
fn bytes_eq(a: &[u8], b: &[u8]) -> (r: bool)
    ensures
        r <==> a@ =~= b@,
{
    if a.len() != b.len() {
        return false;
    }
    let n = a.len();
    let mut i: usize = 0;
    while i < n
        invariant
            i <= n,
            n == a@.len() == b@.len(),
            forall|j: int| 0 <= j < i ==> a@[j] == b@[j],
        decreases n - i,
    {
        if a[i] != b[i] {
            return false;
        }
        i = i + 1;
    }
    true
}

} // verus!
