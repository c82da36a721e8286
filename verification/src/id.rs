//! Transaction ids and inscription ids, and their text.
//!
//! An inscription id is written as the transaction id, the letter `i` and
//! an index in decimal: `<txid>i<index>`.

use vstd::prelude::*;
use vstd::slice::slice_subrange;
use vstd::string::StringExecFns;
use vstd::string::StringSliceAdditionalSpecFns;
use vstd::utf8::{
    encode_utf8, encode_utf8_valid_utf8, is_char_boundary_iff_not_is_continuation_byte,
};

use crate::error::ParseError;
use crate::text::{ascii_string, ascii_text, is_ascii_bytes, lemma_ascii_text_encodes};

verus! {

/// The ASCII letter `i`, which parts the transaction id from the index.
pub const SEPARATOR: u8 = 0x69;

/// The ASCII byte of the small hexadecimal digit for `n`.
pub open spec fn hex_digit(n: int) -> u8 {
    if n < 10 {
        (0x30 + n) as u8
    } else {
        (0x57 + n) as u8
    }
}

/// Bytes in small hexadecimal digits, two for each byte.
pub open spec fn hex_text(bytes: Seq<u8>) -> Seq<u8> {
    Seq::new(
        2 * bytes.len(),
        |k: int|
            if k % 2 == 0 {
                hex_digit(bytes[k / 2] as int / 16)
            } else {
                hex_digit(bytes[k / 2] as int % 16)
            },
    )
}

/// The value of a hexadecimal digit, small or capital.
pub open spec fn hex_value(c: u8) -> Option<int> {
    if 0x30 <= c <= 0x39 {
        Some(c - 0x30)
    } else if 0x61 <= c <= 0x66 {
        Some(c - 0x57)
    } else if 0x41 <= c <= 0x46 {
        Some(c - 0x37)
    } else {
        None
    }
}

/// Whether a text is hexadecimal digits, two for each of `n` bytes.
pub open spec fn is_hex_of(text: Seq<u8>, n: nat) -> bool {
    &&& text.len() == 2 * n
    &&& forall|k: int| 0 <= k < text.len() ==> hex_value(#[trigger] text[k]) is Some
}

/// The bytes that a text of hexadecimal digits stands for.
pub open spec fn hex_bytes(text: Seq<u8>) -> Seq<u8> {
    Seq::new(
        text.len() / 2,
        |k: int| (hex_value(text[2 * k])->0 * 16 + hex_value(text[2 * k + 1])->0) as u8,
    )
}

/// The text of a transaction id: its bytes in hexadecimal digits, the last
/// byte first.
pub open spec fn txid_text(txid: Seq<u8>) -> Seq<u8> {
    hex_text(txid.reverse())
}

/// The transaction id that a text stands for: 64 hexadecimal digits give
/// its 32 bytes, the last byte first. Any other text gives none.
pub open spec fn txid_from_text(text: Seq<u8>) -> Option<Seq<u8>> {
    if is_hex_of(text, 32) {
        Some(hex_bytes(text).reverse())
    } else {
        None
    }
}

/// A number in decimal digits, without leading zeros.
pub open spec fn decimal_text(n: nat) -> Seq<u8>
    decreases n,
{
    if n < 10 {
        seq![(0x30 + n) as u8]
    } else {
        decimal_text(n / 10).push((0x30 + n % 10) as u8)
    }
}

/// Whether a text is one or more decimal digits.
pub open spec fn is_digits(text: Seq<u8>) -> bool {
    &&& text.len() > 0
    &&& forall|k: int| 0 <= k < text.len() ==> 0x30 <= #[trigger] text[k] <= 0x39
}

/// The number that decimal digits stand for.
pub open spec fn decimal_value(text: Seq<u8>) -> nat
    decreases text.len(),
{
    if text.len() == 0 {
        0
    } else {
        (decimal_value(text.drop_last()) * 10 + (text.last() - 0x30)) as nat
    }
}

/// A text without the plus sign that may stand in front of a number.
pub open spec fn unsigned_part(text: Seq<u8>) -> Seq<u8> {
    if text.len() > 0 && text[0] == 0x2b {
        text.subrange(1, text.len() as int)
    } else {
        text
    }
}

/// The index that a text stands for: decimal digits, with or without a plus
/// sign in front, whose value fits the machine word. Any other text gives
/// none.
pub open spec fn index_from_text(text: Seq<u8>) -> Option<usize> {
    let digits = unsigned_part(text);
    if is_digits(digits) && decimal_value(digits) <= usize::MAX {
        Some(decimal_value(digits) as usize)
    } else {
        None
    }
}

/// The first position at or after `from` that holds the separator, or the
/// length of the text if there is none.
pub open spec fn separator_from(text: Seq<u8>, from: int) -> int
    decreases text.len() - from,
{
    if from < 0 || from >= text.len() {
        text.len() as int
    } else if text[from] == SEPARATOR {
        from
    } else {
        separator_from(text, from + 1)
    }
}

/// The text of an inscription id.
pub open spec fn id_text(txid: Seq<u8>, index: usize) -> Seq<u8> {
    txid_text(txid) + seq![SEPARATOR] + decimal_text(index as nat)
}

/// The inscription id that a text stands for. The text is parted at each
/// separator. The first part must be a transaction id and the second an
/// index; there must be a second part, and further parts are not looked at.
pub open spec fn id_from_text(text: Seq<u8>) -> Option<(Seq<u8>, usize)> {
    let first = separator_from(text, 0);
    let second = separator_from(text, first + 1);
    if first >= text.len() {
        None
    } else {
        match (
            txid_from_text(text.subrange(0, first)),
            index_from_text(text.subrange(first + 1, second)),
        ) {
            (Some(txid), Some(index)) => Some((txid, index)),
            _ => None,
        }
    }
}

/// The id of a transaction: 32 bytes, in the order in which the hash gives
/// them.
#[derive(Debug, Clone, Copy, PartialEq, Eq)]
pub struct Txid(pub [u8; 32]);

impl View for Txid {
    type V = Seq<u8>;

    open spec fn view(&self) -> Seq<u8> {
        self.0@
    }
}

/// The id of an inscription: its transaction and its number among the
/// inscriptions of its input, counting from zero.
#[derive(Debug, Clone, Copy, PartialEq, Eq)]
pub struct InscriptionId(pub Txid, pub usize);

impl View for InscriptionId {
    type V = (Seq<u8>, usize);

    open spec fn view(&self) -> (Seq<u8>, usize) {
        (self.0@, self.1)
    }
}

/// Makes a `bitcoin::Txid` of the bytes with `Hash::from_byte_array` and
/// calls `to_string` on it. The contract claims what the crate documents of
/// such hashes: the text is the bytes in small hexadecimal digits, in reverse
/// order.
#[verifier::external_body]
fn format_txid(bytes: &[u8; 32]) -> (r: String)
    ensures
        r@ == ascii_text(txid_text(bytes@)),
{
    let txid: bitcoin::Txid = bitcoin::hashes::Hash::from_byte_array(*bytes);
    txid.to_string()
}

/// Calls `bitcoin::Txid::from_str` and hands out the bytes of the id with
/// `Hash::to_byte_array`. The contract claims what the crate's source shows:
/// the text must be 64 hexadecimal digits, small or capital, and they give
/// the bytes in reverse order.
#[verifier::external_body]
fn parse_txid(text: &str) -> (r: Option<[u8; 32]>)
    ensures
        match r {
            Some(bytes) => txid_from_text(text.spec_bytes()) == Some(bytes@),
            None => txid_from_text(text.spec_bytes()) is None,
        },
{
    <bitcoin::Txid as std::str::FromStr>::from_str(text).ok().map(
        |txid| bitcoin::hashes::Hash::to_byte_array(txid),
    )
}

impl Txid {
    /// Tells whether two ids are the same.
    pub fn same_as(&self, other: &Txid) -> (r: bool)
        ensures
            r == (self@ == other@),
    {
        let mut k: usize = 0;
        while k < 32
            invariant
                k <= 32,
                forall|j: int| 0 <= j < k ==> self@[j] == other@[j],
            decreases 32 - k,
        {
            if self.0[k] != other.0[k] {
                return false;
            }
            k = k + 1;
        }
        assert(self@ =~= other@);
        true
    }

    /// The id as text: 64 small hexadecimal digits.
    pub fn to_hex(&self) -> (r: String)
        ensures
            r@ == ascii_text(txid_text(self@)),
    {
        format_txid(&self.0)
    }

    /// Reads an id from text: 64 hexadecimal digits.
    pub fn from_hex(text: &str) -> (r: Option<Txid>)
        ensures
            match r {
                Some(txid) => txid_from_text(text.spec_bytes()) == Some(txid@),
                None => txid_from_text(text.spec_bytes()) is None,
            },
    {
        match parse_txid(text) {
            Some(bytes) => Some(Txid(bytes)),
            None => None,
        }
    }
}

/// A decimal digit text is made of digits, and the digit text of a number
/// stands for that number.
pub proof fn lemma_decimal_text(n: nat)
    ensures
        is_digits(decimal_text(n)),
        decimal_value(decimal_text(n)) == n,
    decreases n,
{
    if n < 10 {
        let text = decimal_text(n);
        assert(text.drop_last() =~= Seq::<u8>::empty());
        assert(decimal_value(text.drop_last()) == 0);
    } else {
        lemma_decimal_text(n / 10);
        let shorter = decimal_text(n / 10);
        let text = decimal_text(n);
        assert(text.drop_last() =~= shorter);
        assert(text.last() == (0x30 + n % 10) as u8);
    }
}

fn decimal_digits(n: u64) -> (r: Vec<u8>)
    ensures
        r@ == decimal_text(n as nat),
    decreases n,
{
    if n < 10 {
        let mut digits: Vec<u8> = Vec::new();
        digits.push(0x30 + (n as u8));
        assert(digits@ =~= decimal_text(n as nat));
        digits
    } else {
        let mut digits = decimal_digits(n / 10);
        digits.push(0x30 + ((n % 10) as u8));
        digits
    }
}

/// A number in decimal digits, without leading zeros.
pub fn decimal_string(n: u64) -> (r: String)
    ensures
        r@ == ascii_text(decimal_text(n as nat)),
{
    let digits = decimal_digits(n);
    proof {
        lemma_decimal_text(n as nat);
    }
    ascii_string(digits.as_slice())
}

proof fn lemma_decimal_value_grows(text: Seq<u8>, k: int)
    requires
        0 <= k <= text.len(),
        forall|j: int| 0 <= j < text.len() ==> 0x30 <= #[trigger] text[j] <= 0x39,
    ensures
        decimal_value(text.subrange(0, k)) <= decimal_value(text),
    decreases text.len() - k,
{
    if k < text.len() {
        let longer = text.subrange(0, k + 1);
        assert(longer.drop_last() =~= text.subrange(0, k));
        lemma_decimal_value_grows(text, k + 1);
    } else {
        assert(text.subrange(0, k) =~= text);
    }
}

/// Reads an index from text: decimal digits, with or without a plus sign in
/// front. A value that does not fit the machine word gives none.
pub fn parse_index(text: &[u8]) -> (r: Option<usize>)
    ensures
        r == index_from_text(text@),
{
    let n = text.len();
    let start: usize = if n > 0 && text[0] == 0x2b {
        1
    } else {
        0
    };
    let ghost digits = unsigned_part(text@);
    assert(digits =~= text@.subrange(start as int, n as int));
    if start >= n {
        return None;
    }
    let mut value: usize = 0;
    let mut k: usize = start;
    while k < n
        invariant
            start <= k <= n,
            n == text@.len(),
            digits == unsigned_part(text@),
            digits == text@.subrange(start as int, n as int),
            forall|j: int| 0 <= j < k - start ==> 0x30 <= #[trigger] digits[j] <= 0x39,
            value == decimal_value(digits.subrange(0, k - start)),
        decreases n - k,
    {
        let c = text[k];
        assert(digits[k - start] == c);
        if c < 0x30 || c > 0x39 {
            return None;
        }
        let d: usize = (c - 0x30) as usize;
        let ghost longer = digits.subrange(0, k - start + 1);
        assert(longer.drop_last() =~= digits.subrange(0, k - start));
        assert(longer.last() == c);
        if value > (usize::MAX - d) / 10 {
            proof {
                assert(value * 10 + d > usize::MAX) by (nonlinear_arith)
                    requires
                        value > (usize::MAX - d) / 10,
                        d <= usize::MAX,
                ;
                if is_digits(digits) {
                    lemma_decimal_value_grows(digits, k - start + 1);
                }
            }
            return None;
        }
        assert(value * 10 + d <= usize::MAX) by (nonlinear_arith)
            requires
                value <= (usize::MAX - d) / 10,
                d <= usize::MAX,
        ;
        value = value * 10 + d;
        k = k + 1;
    }
    assert(digits.subrange(0, n - start) =~= digits);
    Some(value)
}

fn find_separator(text: &[u8], from: usize) -> (r: usize)
    requires
        from <= text@.len(),
    ensures
        r == separator_from(text@, from as int),
        from <= r <= text@.len(),
        r < text@.len() ==> text@[r as int] == SEPARATOR,
{
    let n = text.len();
    let mut at: usize = from;
    while at < n && text[at] != SEPARATOR
        invariant
            from <= at <= n,
            n == text@.len(),
            separator_from(text@, at as int) == separator_from(text@, from as int),
        decreases n - at,
    {
        at = at + 1;
    }
    at
}

/// Where the separator is found: at the first `i`, or not at all.
pub proof fn lemma_separator_from(text: Seq<u8>, from: int, at: int)
    requires
        0 <= from <= at <= text.len(),
        forall|k: int| from <= k < at ==> #[trigger] text[k] != SEPARATOR,
        at < text.len() ==> text[at] == SEPARATOR,
    ensures
        separator_from(text, from) == at,
    decreases at - from,
{
    if from < at {
        lemma_separator_from(text, from + 1, at);
    }
}

/// Hexadecimal text reads back as the bytes it was made from, and holds
/// nothing but ASCII digits and the letters `a` to `f`.
pub proof fn lemma_hex_round_trip(bytes: Seq<u8>)
    ensures
        is_hex_of(hex_text(bytes), bytes.len()),
        hex_bytes(hex_text(bytes)) == bytes,
        is_ascii_bytes(hex_text(bytes)),
        forall|k: int| 0 <= k < hex_text(bytes).len() ==> #[trigger] hex_text(bytes)[k] != SEPARATOR,
{
    let text = hex_text(bytes);
    assert forall|k: int| 0 <= k < text.len() implies {
        &&& hex_value(#[trigger] text[k]) == Some(
            if k % 2 == 0 {
                bytes[k / 2] as int / 16
            } else {
                bytes[k / 2] as int % 16
            },
        )
        &&& text[k] != SEPARATOR
        &&& text[k] < 0x80
    } by {
        let b = bytes[k / 2] as int;
        assert(0 <= b / 16 < 16 && 0 <= b % 16 < 16);
    }
    assert(hex_bytes(text) =~= bytes) by {
        assert forall|j: int| 0 <= j < bytes.len() implies hex_bytes(text)[j] == bytes[j] by {
            let b = bytes[j] as int;
            assert((2 * j) % 2 == 0 && (2 * j) / 2 == j);
            assert((2 * j + 1) % 2 == 1 && (2 * j + 1) / 2 == j);
            assert(hex_value(text[2 * j]) == Some(b / 16));
            assert(hex_value(text[2 * j + 1]) == Some(b % 16));
            assert((b / 16) * 16 + b % 16 == b);
        }
    }
}

/// The text of a transaction id reads back as that id.
pub proof fn lemma_txid_round_trip(txid: Seq<u8>)
    requires
        txid.len() == 32,
    ensures
        txid_from_text(txid_text(txid)) == Some(txid),
{
    lemma_hex_round_trip(txid.reverse());
    assert(txid.reverse().reverse() =~= txid);
}

/// The decimal text of an index reads back as that index.
pub proof fn lemma_index_round_trip(index: usize)
    ensures
        index_from_text(decimal_text(index as nat)) == Some(index),
{
    lemma_decimal_text(index as nat);
    let text = decimal_text(index as nat);
    assert(0x30 <= text[0] <= 0x39);
}

/// The text of an inscription id reads back as that id: first the
/// transaction id, then the index.
pub proof fn lemma_id_round_trip(txid: Seq<u8>, index: usize)
    requires
        txid.len() == 32,
    ensures
        id_from_text(id_text(txid, index)) == Some((txid, index)),
        is_ascii_bytes(id_text(txid, index)),
{
    let head = txid_text(txid);
    let tail = decimal_text(index as nat);
    let text = id_text(txid, index);
    lemma_hex_round_trip(txid.reverse());
    lemma_txid_round_trip(txid);
    lemma_decimal_text(index as nat);
    lemma_index_round_trip(index);
    assert(head.len() == 64);
    assert(text.len() == 65 + tail.len());
    assert forall|k: int| 0 <= k < 64 implies #[trigger] text[k] != SEPARATOR by {
        assert(text[k] == head[k]);
    }
    assert(text[64] == SEPARATOR);
    assert forall|k: int| 65 <= k < text.len() implies #[trigger] text[k] != SEPARATOR by {
        assert(text[k] == tail[k - 65]);
    }
    lemma_separator_from(text, 0, 64);
    lemma_separator_from(text, 65, text.len() as int);
    assert(text.subrange(0, 64) =~= head);
    assert(text.subrange(65, text.len() as int) =~= tail);
    assert forall|k: int| 0 <= k < text.len() implies #[trigger] text[k] < 0x80 by {
        if k < 64 {
            assert(text[k] == head[k]);
        } else if k > 64 {
            assert(text[k] == tail[k - 65]);
        }
    }
}

/// An inscription id round-trips: the string that `to_string` gives is
/// read by `from_str` as the same transaction id and index.
pub proof fn lemma_inscription_id_round_trips(id: InscriptionId)
    ensures
        id_from_text(encode_utf8(ascii_text(id_text(id@.0, id@.1)))) == Some(id@),
{
    assert(id@.0.len() == 32);
    lemma_id_round_trip(id@.0, id@.1);
    lemma_ascii_text_encodes(id_text(id@.0, id@.1));
}

impl InscriptionId {
    /// Reads an inscription id from text of the form `<txid>i<index>`.
    pub fn from_str(s: &str) -> (r: Result<InscriptionId, ParseError>)
        ensures
            match r {
                Ok(id) => id_from_text(s.spec_bytes()) == Some(id@),
                Err(e) => e == ParseError::InscriptionId && id_from_text(s.spec_bytes()) is None,
            },
    {
        let bytes = s.as_bytes();
        let n = bytes.len();
        let first = find_separator(bytes, 0);
        if first >= n {
            return Err(ParseError::InscriptionId);
        }
        let second = find_separator(bytes, first + 1);
        proof {
            encode_utf8_valid_utf8(s@);
            is_char_boundary_iff_not_is_continuation_byte(s.spec_bytes(), first as int);
        }
        let (head, _) = s.split_at(first);
        let txid = match Txid::from_hex(head) {
            Some(txid) => txid,
            None => {
                return Err(ParseError::InscriptionId);
            },
        };
        let index = match parse_index(slice_subrange(bytes, first + 1, second)) {
            Some(index) => index,
            None => {
                return Err(ParseError::InscriptionId);
            },
        };
        Ok(InscriptionId(txid, index))
    }

    /// The id as text: `<txid>i<index>`.
    pub fn to_string(&self) -> (r: String)
        ensures
            r@ == ascii_text(id_text(self@.0, self@.1)),
    {
        let mut text = self.0.to_hex();
        proof {
            reveal_strlit("i");
        }
        text.append("i");
        let digits = decimal_string(self.1 as u64);
        text.append(digits.as_str());
        assert(text@ =~= ascii_text(id_text(self@.0, self@.1)));
        text
    }
}

} // verus!
