//! Text as bytes: UTF-8, ASCII, and comparison without regard to ASCII case.

use vstd::prelude::*;
use vstd::utf8::{
    decode_utf8, encode_utf8, encode_utf8_decode_utf8, encode_utf8_valid_utf8, is_ascii_chars,
    is_ascii_chars_encode_utf8, valid_utf8,
};

verus! {

/// Whether every byte is an ASCII character.
pub open spec fn is_ascii_bytes(bytes: Seq<u8>) -> bool {
    forall|k: int| 0 <= k < bytes.len() ==> #[trigger] bytes[k] < 0x80
}

/// ASCII bytes as the characters they stand for.
pub open spec fn ascii_text(bytes: Seq<u8>) -> Seq<char> {
    Seq::new(bytes.len(), |k: int| bytes[k] as char)
}

/// ASCII bytes are the UTF-8 encoding of the characters they stand for.
pub proof fn lemma_ascii_text_encodes(bytes: Seq<u8>)
    requires
        is_ascii_bytes(bytes),
    ensures
        encode_utf8(ascii_text(bytes)) == bytes,
        valid_utf8(bytes),
        decode_utf8(bytes) == ascii_text(bytes),
{
    let chars = ascii_text(bytes);
    assert(is_ascii_chars(chars)) by {
        assert forall|k: int| 0 <= k < chars.len() implies '\0' <= #[trigger] chars[k]
            <= '\u{7f}' by {
            assert(bytes[k] < 0x80);
        }
    }
    is_ascii_chars_encode_utf8(chars);
    assert(encode_utf8(chars) =~= bytes) by {
        assert forall|k: int| 0 <= k < bytes.len() implies encode_utf8(chars)[k] == bytes[k] by {
            assert(chars[k] as u8 == encode_utf8(chars)[k]);
            assert(bytes[k] < 0x80);
        }
    }
    encode_utf8_valid_utf8(chars);
    encode_utf8_decode_utf8(chars);
}

/// Calls `std::str::from_utf8`. The contract claims what its documentation
/// says: the bytes come back as text exactly when they are valid UTF-8, and
/// the text is what they encode.
#[verifier::external_body]
pub(crate) fn utf8_text(bytes: &[u8]) -> (r: Option<&str>)
    ensures
        r is Some <==> valid_utf8(bytes@),
        r matches Some(text) ==> text@ == decode_utf8(bytes@),
{
    std::str::from_utf8(bytes).ok()
}

/// Turns ASCII bytes into the string they spell.
pub(crate) fn ascii_string(bytes: &[u8]) -> (r: String)
    requires
        is_ascii_bytes(bytes@),
    ensures
        r@ == ascii_text(bytes@),
{
    proof {
        lemma_ascii_text_encodes(bytes@);
    }
    match utf8_text(bytes) {
        Some(text) => text.to_owned(),
        None => String::new(),
    }
}

/// A byte with an ASCII capital letter turned into its small letter.
pub open spec fn ascii_lower(b: u8) -> u8 {
    if 0x41 <= b <= 0x5a {
        (b + 32) as u8
    } else {
        b
    }
}

/// Whether `needle` stands in `hay` at position `at`, capital ASCII letters
/// of `hay` counting as their small letters.
pub open spec fn matches_ignoring_case_at(hay: Seq<u8>, at: int, needle: Seq<u8>) -> bool {
    &&& 0 <= at
    &&& at + needle.len() <= hay.len()
    &&& forall|k: int| 0 <= k < needle.len() ==> ascii_lower(#[trigger] hay[at + k]) == needle[k]
}

/// Whether `needle` stands somewhere in `hay`, capital ASCII letters of `hay`
/// counting as their small letters.
pub open spec fn contains_ignoring_case(hay: Seq<u8>, needle: Seq<u8>) -> bool {
    exists|at: int| matches_ignoring_case_at(hay, at, needle)
}

/// Whether `hay` is `needle`, capital ASCII letters of `hay` counting as
/// their small letters.
pub open spec fn equals_ignoring_case(hay: Seq<u8>, needle: Seq<u8>) -> bool {
    hay.len() == needle.len() && matches_ignoring_case_at(hay, 0, needle)
}

/// A byte with an ASCII capital letter turned into its small letter.
pub(crate) fn lower(b: u8) -> (r: u8)
    ensures
        r == ascii_lower(b),
{
    if 0x41 <= b && b <= 0x5a {
        b + 32
    } else {
        b
    }
}

/// Tells whether `needle` stands in `hay` at `at`, ignoring ASCII case in `hay`.
pub(crate) fn matches_at(hay: &[u8], at: usize, needle: &[u8]) -> (r: bool)
    requires
        at + needle@.len() <= hay@.len(),
    ensures
        r == matches_ignoring_case_at(hay@, at as int, needle@),
{
    let n: usize = hay.len();
    let mut k: usize = 0;
    while k < needle.len()
        invariant
            k <= needle@.len(),
            at + needle@.len() <= hay@.len() == n,
            forall|j: int| 0 <= j < k ==> ascii_lower(#[trigger] hay@[at + j]) == needle@[j],
        decreases needle@.len() - k,
    {
        if lower(hay[at + k]) != needle[k] {
            return false;
        }
        k = k + 1;
    }
    true
}

/// Tells whether `needle` stands somewhere in `hay`, ignoring ASCII case in
/// `hay`.
pub fn contains(hay: &[u8], needle: &[u8]) -> (r: bool)
    ensures
        r == contains_ignoring_case(hay@, needle@),
{
    if needle.len() > hay.len() {
        return false;
    }
    let last: usize = hay.len() - needle.len();
    let mut at: usize = 0;
    loop
        invariant
            at <= last,
            last == hay@.len() - needle@.len(),
            forall|j: int| 0 <= j < at ==> !matches_ignoring_case_at(hay@, j, needle@),
        decreases last - at,
    {
        if matches_at(hay, at, needle) {
            return true;
        }
        if at == last {
            return false;
        }
        at = at + 1;
    }
}

/// Tells whether `hay` is `needle`, ignoring ASCII case in `hay`.
pub fn equals(hay: &[u8], needle: &[u8]) -> (r: bool)
    ensures
        r == equals_ignoring_case(hay@, needle@),
{
    hay.len() == needle.len() && matches_at(hay, 0, needle)
}

} // verus!
