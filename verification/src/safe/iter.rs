//! Splitting a string at each occurrence of a delimiter.
//!
//! Positions are byte offsets into the string's UTF-8 encoding, and an
//! occurrence is one that starts and ends between two characters.
use vstd::prelude::*;
use vstd::string::StringSliceAdditionalSpecFns;
use vstd::utf8::encode_scalar;
use vstd::utf8::is_char_boundary;

verus! {

/// The needle stands in the haystack at offset `i`, between two characters.
pub open spec fn occurs_at(haystack: Seq<u8>, needle: Seq<u8>, i: int) -> bool {
    &&& 0 <= i
    &&& i + needle.len() <= haystack.len()
    &&& haystack.subrange(i, i + needle.len()) == needle
    &&& is_char_boundary(haystack, i)
    &&& is_char_boundary(haystack, i + needle.len())
}

/// The needle stands at offset `i` and nowhere before it.
pub open spec fn first_occurrence(haystack: Seq<u8>, needle: Seq<u8>, i: int) -> bool {
    occurs_at(haystack, needle, i) && forall|j: int| 0 <= j < i ==> !occurs_at(haystack, needle, j)
}

/// The needle stands nowhere in the haystack.
pub open spec fn absent(haystack: Seq<u8>, needle: Seq<u8>) -> bool {
    forall|j: int| !occurs_at(haystack, needle, j)
}

/// The offset of the first occurrence, where there is one.
pub open spec fn first_index(haystack: Seq<u8>, needle: Seq<u8>) -> int {
    choose|i: int| first_occurrence(haystack, needle, i)
}

/// There is only one first occurrence.
pub proof fn lemma_first_occurrence_unique(haystack: Seq<u8>, needle: Seq<u8>, i: int)
    requires
        first_occurrence(haystack, needle, i),
    ensures
        first_index(haystack, needle) == i,
        !absent(haystack, needle),
{
    let k = first_index(haystack, needle);
    assert(first_occurrence(haystack, needle, k));
    if k < i {
        assert(!occurs_at(haystack, needle, k));
    }
    if i < k {
        assert(!occurs_at(haystack, needle, i));
    }
}

/// `char::encode_utf8`: the character's UTF-8 encoding, one to four bytes.
#[verifier::external_body]
pub(crate) fn char_bytes(c: char) -> (bytes: Vec<u8>)
    ensures
        bytes@ == encode_scalar(c as u32),
{
    let mut buffer = [0u8;4];
    c.encode_utf8(&mut buffer).as_bytes().to_vec()
}

/// Whether the needle's bytes stand in `bytes` at offset `at`.
pub fn matches_at(bytes: &[u8], needle: &[u8], at: usize) -> (same: bool)
    requires
        at + needle@.len() <= bytes@.len(),
    ensures
        same == (bytes@.subrange(at as int, at + needle@.len()) == needle@),
{
    let n: usize = needle.len();
    let h: usize = bytes.len();
    let mut k: usize = 0;
    while k < n
        invariant
            n == needle@.len(),
            h == bytes@.len(),
            at + n <= bytes@.len(),
            k <= n,
            forall|j: int| 0 <= j < k ==> bytes@[at + j] == needle@[j],
        decreases n - k,
    {
        if bytes[at + k] != needle[k] {
            proof {
                let part = bytes@.subrange(at as int, at + n);
                assert(part[k as int] == bytes@[at + k]);
            }
            return false;
        }
        k = k + 1;
    }
    proof {
        assert(bytes@.subrange(at as int, at + n) =~= needle@);
    }
    true
}

/// The first occurrence of the needle in the haystack, as the offsets at
/// which it starts and ends.
pub fn find_bytes(haystack: &str, needle: &[u8]) -> (found: Option<(usize, usize)>)
    ensures
        match found {
            Some((start, end)) => first_occurrence(
                haystack.spec_bytes(),
                needle@,
                start as int,
            ) && end == start + needle@.len(),
            None => absent(haystack.spec_bytes(), needle@),
        },
{
    let bytes = haystack.as_bytes();
    let h: usize = bytes.len();
    let n: usize = needle.len();
    if n > h {
        return None;
    }
    let mut i: usize = 0;
    loop
        invariant
            bytes@ == haystack.spec_bytes(),
            h == bytes@.len(),
            n == needle@.len(),
            n <= h,
            i <= h - n,
            forall|j: int| 0 <= j < i ==> !occurs_at(haystack.spec_bytes(), needle@, j),
        decreases h - n - i,
    {
        if haystack.is_char_boundary(i) && haystack.is_char_boundary(i + n) && matches_at(
            bytes,
            needle,
            i,
        ) {
            return Some((i, i + n));
        }
        if i == h - n {
            return None;
        }
        i = i + 1;
    }
}

/// What a string can be split at.
pub trait Delimiter {
    /// The bytes that are looked for.
    spec fn needle(&self) -> Seq<u8>;

    /// The first occurrence of the delimiter in the haystack, as the offsets
    /// at which it starts and ends.
    fn find_next(&self, haystack: &str) -> (found: Option<(usize, usize)>)
        ensures
            match found {
                Some((start, end)) => first_occurrence(
                    haystack.spec_bytes(),
                    self.needle(),
                    start as int,
                ) && end == start + self.needle().len(),
                None => absent(haystack.spec_bytes(), self.needle()),
            },
    ;
}

impl<'a> Delimiter for &'a str {
    open spec fn needle(&self) -> Seq<u8> {
        self.spec_bytes()
    }

    fn find_next(&self, haystack: &str) -> (found: Option<(usize, usize)>) {
        find_bytes(haystack, self.as_bytes())
    }
}

impl Delimiter for char {
    open spec fn needle(&self) -> Seq<u8> {
        encode_scalar(*self as u32)
    }

    fn find_next(&self, haystack: &str) -> (found: Option<(usize, usize)>) {
        let bytes = char_bytes(*self);
        find_bytes(haystack, bytes.as_slice())
    }
}

/// What is left of a string that is being split, and what it is split at.
pub struct StrSplit<'haystack, D> {
    pub remainder: Option<&'haystack str>,
    pub delimiter: D,
}

/// The haystack in front of the first occurrence.
pub open spec fn token_before(haystack: Seq<u8>, needle: Seq<u8>) -> Seq<u8> {
    haystack.subrange(0, first_index(haystack, needle))
}

/// The haystack behind the first occurrence.
pub open spec fn rest_behind(haystack: Seq<u8>, needle: Seq<u8>) -> Seq<u8> {
    haystack.subrange(first_index(haystack, needle) + needle.len(), haystack.len() as int)
}

/// Cuts the haystack at the first occurrence of the delimiter into what
/// stands in front of it and what stands behind it.
pub fn split_first<'h, D: Delimiter>(haystack: &'h str, delimiter: &D) -> (cut: Option<
    (&'h str, &'h str),
>)
    ensures
        match cut {
            Some((token, rest)) => {
                &&& !absent(haystack.spec_bytes(), delimiter.needle())
                &&& token.spec_bytes() == token_before(haystack.spec_bytes(), delimiter.needle())
                &&& rest.spec_bytes() == rest_behind(haystack.spec_bytes(), delimiter.needle())
            },
            None => absent(haystack.spec_bytes(), delimiter.needle()),
        },
{
    match delimiter.find_next(haystack) {
        Some((start, end)) => {
            proof {
                lemma_first_occurrence_unique(
                    haystack.spec_bytes(),
                    delimiter.needle(),
                    start as int,
                );
            }
            let (token, _) = haystack.split_at(start);
            let (_, rest) = haystack.split_at(end);
            Some((token, rest))
        },
        None => None,
    }
}

impl<'haystack, D: Delimiter> StrSplit<'haystack, D> {
    /// The next token: what stands in front of the first delimiter of the
    /// remainder, or all of the remainder where it holds no delimiter. After
    /// the token that ends the string there is none.
    pub fn next(&mut self) -> (token: Option<&'haystack str>)
        ensures
            final(self).delimiter == old(self).delimiter,
            match old(self).remainder {
                None => token is None && final(self).remainder is None,
                Some(haystack) => {
                    let needle = old(self).delimiter.needle();
                    if absent(haystack.spec_bytes(), needle) {
                        token == Some(haystack) && final(self).remainder is None
                    } else {
                        &&& token is Some
                        &&& token->0.spec_bytes() == token_before(haystack.spec_bytes(), needle)
                        &&& final(self).remainder is Some
                        &&& final(self).remainder->0.spec_bytes() == rest_behind(
                            haystack.spec_bytes(),
                            needle,
                        )
                    }
                },
            },
    {
        match self.remainder {
            Some(remainder) => {
                match split_first(remainder, &self.delimiter) {
                    None => self.remainder.take(),
                    Some((token, rest)) => {
                        self.remainder = Some(rest);
                        Some(token)
                    },
                }
            },
            None => None,
        }
    }
}

} // verus!
