//! Byte searches, and the few facts about byte sequences that the parsers share.

use vstd::prelude::*;
use vstd::string::StringSliceAdditionalSpecFns;
use vstd::utf8::{decode_utf8, encode_utf8_decode_utf8, valid_utf8};

verus! {

/// `needle` stands in `hay` at offset `at`.
pub open spec fn occurs_at(hay: Seq<u8>, needle: Seq<u8>, at: int) -> bool {
    0 <= at && at + needle.len() <= hay.len() && hay.subrange(at, at + needle.len()) == needle
}

/// The offset of the first occurrence of `needle` in `hay` at or after `from`.
pub open spec fn find_from(hay: Seq<u8>, needle: Seq<u8>, from: int) -> Option<int>
    decreases hay.len() + 1 - from,
{
    if from < 0 || from + needle.len() > hay.len() {
        None
    } else if occurs_at(hay, needle, from) {
        Some(from)
    } else {
        find_from(hay, needle, from + 1)
    }
}

/// The offset of the first occurrence of `needle` in `hay`.
pub open spec fn first_occurrence(hay: Seq<u8>, needle: Seq<u8>) -> Option<int> {
    find_from(hay, needle, 0)
}

/// The offset of the first byte equal to `byte` in `hay`, or the length of
/// `hay` where there is none.
pub open spec fn position(hay: Seq<u8>, byte: u8) -> int
    decreases hay.len(),
{
    if hay.len() == 0 {
        0
    } else if hay[0] == byte {
        0
    } else {
        1 + position(hay.skip(1), byte)
    }
}

/// `position` is the least offset that holds `byte`, and never past the end.
pub proof fn lemma_position(hay: Seq<u8>, byte: u8)
    ensures
        0 <= position(hay, byte) <= hay.len(),
        position(hay, byte) < hay.len() ==> hay[position(hay, byte)] == byte,
        forall|j: int| 0 <= j < position(hay, byte) ==> hay[j] != byte,
    decreases hay.len(),
{
    if hay.len() != 0 && hay[0] != byte {
        let rest = hay.skip(1);
        lemma_position(rest, byte);
        assert forall|j: int| 0 <= j < position(hay, byte) implies hay[j] != byte by {
            if j > 0 {
                assert(rest[j - 1] == hay[j]);
            }
        }
    }
}

/// An offset that holds `byte` with none before it is `position`.
pub proof fn lemma_position_unique(hay: Seq<u8>, byte: u8, at: int)
    requires
        0 <= at <= hay.len(),
        at < hay.len() ==> hay[at] == byte,
        forall|j: int| 0 <= j < at ==> hay[j] != byte,
    ensures
        position(hay, byte) == at,
{
    lemma_position(hay, byte);
    let p = position(hay, byte);
    if p < at {
        assert(hay[p] != byte);
    }
}

/// `find_from` gives the least offset at or after `from` where `needle` stands.
pub proof fn lemma_find_from(hay: Seq<u8>, needle: Seq<u8>, from: int)
    requires
        0 <= from,
    ensures
        match find_from(hay, needle, from) {
            Some(at) => from <= at && occurs_at(hay, needle, at) && forall|j: int|
                from <= j < at ==> !occurs_at(hay, needle, j),
            None => forall|j: int| from <= j ==> !occurs_at(hay, needle, j),
        },
    decreases hay.len() + 1 - from,
{
    if from + needle.len() <= hay.len() && !occurs_at(hay, needle, from) {
        lemma_find_from(hay, needle, from + 1);
    }
}

/// Calls `memchr::memchr`, which returns the offset of the first byte of
/// `hay` that equals `needle`, or `None` where no byte does.
#[verifier::external_body]
fn memchr_first(needle: u8, hay: &[u8]) -> (found: Option<usize>)
    ensures
        match found {
            Some(at) => at < hay@.len() && hay@[at as int] == needle && forall|j: int|
                0 <= j < at ==> hay@[j] != needle,
            None => forall|j: int| 0 <= j < hay@.len() ==> hay@[j] != needle,
        },
{
    memchr::memchr(needle, hay)
}

/// Calls `memchr::memmem::find`, which returns the offset of the first
/// occurrence of `needle` in `hay`, or `None` where it does not occur.
#[verifier::external_body]
fn memmem_first(hay: &[u8], needle: &[u8]) -> (found: Option<usize>)
    ensures
        match found {
            Some(at) => occurs_at(hay@, needle@, at as int) && forall|j: int|
                0 <= j < at ==> !occurs_at(hay@, needle@, j),
            None => forall|j: int| 0 <= j ==> !occurs_at(hay@, needle@, j),
        },
{
    memchr::memmem::find(hay, needle)
}

/// Calls `core::str::from_utf8`, which hands the bytes back as text where
/// they are valid UTF-8, and fails where they are not.
#[verifier::external_body]
fn utf8_checked<'a>(bytes: &'a [u8]) -> (text: Option<&'a str>)
    ensures
        text.is_some() == valid_utf8(bytes@),
        text.is_some() ==> text.unwrap().spec_bytes() == bytes@,
{
    core::str::from_utf8(bytes).ok()
}

/// Reads `bytes` as text, without copying them, where they are valid UTF-8.
pub fn as_text<'a>(bytes: &'a [u8]) -> (text: Option<&'a str>)
    ensures
        text.is_some() == valid_utf8(bytes@),
        text.is_some() ==> text.unwrap().spec_bytes() == bytes@ && text.unwrap()@ == decode_utf8(
            bytes@,
        ),
{
    let text = utf8_checked(bytes);
    proof {
        if text.is_some() {
            encode_utf8_decode_utf8(text.unwrap()@);
        }
    }
    text
}

/// Tests whether two byte slices hold the same bytes.
pub fn same_bytes(left: &[u8], right: &[u8]) -> (same: bool)
    ensures
        same == (left@ == right@),
{
    if left.len() != right.len() {
        return false;
    }
    let mut at: usize = 0;
    while at < left.len()
        invariant
            at <= left@.len(),
            left@.len() == right@.len(),
            forall|j: int| 0 <= j < at ==> left@[j] == right@[j],
        decreases left@.len() - at,
    {
        if left[at] != right[at] {
            return false;
        }
        at += 1;
    }
    assert(left@ =~= right@);
    true
}

/// Tests whether `hay` holds `needle` at offset `at`.
pub fn holds_at(hay: &[u8], at: usize, needle: &[u8]) -> (holds: bool)
    ensures
        holds == occurs_at(hay@, needle@, at as int),
{
    if at > hay.len() || needle.len() > hay.len() - at {
        return false;
    }
    let mut k: usize = 0;
    while k < needle.len()
        invariant
            k <= needle@.len(),
            at + needle@.len() <= hay@.len() <= usize::MAX,
            forall|j: int| 0 <= j < k ==> hay@[at + j] == needle@[j],
        decreases needle@.len() - k,
    {
        if hay[at + k] != needle[k] {
            assert(hay@.subrange(at as int, at + needle@.len())[k as int] != needle@[k as int]);
            return false;
        }
        k += 1;
    }
    assert(hay@.subrange(at as int, at + needle@.len()) =~= needle@);
    true
}

/// The offset of the first byte of `hay` equal to `needle`.
pub fn find_byte(needle: u8, hay: &[u8]) -> (found: Option<usize>)
    ensures
        match found {
            Some(at) => at == position(hay@, needle) && at < hay@.len(),
            None => position(hay@, needle) == hay@.len(),
        },
{
    let found = memchr_first(needle, hay);
    proof {
        match found {
            Some(at) => lemma_position_unique(hay@, needle, at as int),
            None => lemma_position_unique(hay@, needle, hay@.len() as int),
        }
    }
    found
}

/// The offset of the first occurrence of `needle` in `hay`.
pub fn find_bytes(hay: &[u8], needle: &[u8]) -> (found: Option<usize>)
    ensures
        match found {
            Some(at) => first_occurrence(hay@, needle@) == Some(at as int) && occurs_at(
                hay@,
                needle@,
                at as int,
            ),
            None => first_occurrence(hay@, needle@).is_none(),
        },
{
    let found = memmem_first(hay, needle);
    proof {
        lemma_find_from(hay@, needle@, 0);
    }
    found
}

} // verus!
