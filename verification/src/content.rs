//! What a payload is: text, JSON, HTML, an image or opaque bytes.

use vstd::prelude::*;
use vstd::string::StringExecFns;
use vstd::utf8::{decode_utf8, encode_utf8, valid_utf8};

use crate::text::{contains, contains_ignoring_case, utf8_text};

verus! {

/// A JSON text, with what is read from the value it stands for.
#[derive(Debug, Clone, PartialEq, Eq)]
pub struct JsonDocument {
    /// The text as it stands in the payload.
    pub text: String,
    /// The member `p` of the top-level object, where the value is an object
    /// and the member is a string.
    pub protocol: Option<String>,
}

/// A classified payload.
#[derive(Debug, Clone, PartialEq, Eq)]
pub enum ParsedData {
    Binary,
    Html(String),
    Image,
    Json(JsonDocument),
    Text(String),
}

/// The mathematical value of a [`ParsedData`].
pub enum ParsedDataView {
    Binary,
    Html(Seq<char>),
    Image,
    Json { text: Seq<char>, protocol: Option<Seq<char>> },
    Text(Seq<char>),
}

/// The characters of an optional string.
pub open spec fn optional_text(text: Option<String>) -> Option<Seq<char>> {
    match text {
        Some(t) => Some(t@),
        None => None,
    }
}

impl View for ParsedData {
    type V = ParsedDataView;

    open spec fn view(&self) -> ParsedDataView {
        match *self {
            ParsedData::Binary => ParsedDataView::Binary,
            ParsedData::Html(text) => ParsedDataView::Html(text@),
            ParsedData::Image => ParsedDataView::Image,
            ParsedData::Json(document) => ParsedDataView::Json {
                text: document.text@,
                protocol: optional_text(document.protocol),
            },
            ParsedData::Text(text) => ParsedDataView::Text(text@),
        }
    }
}

impl ParsedDataView {
    /// Whether this is JSON that declares itself part of the `brc-20`
    /// protocol: an object whose member `p` is that string.
    pub open spec fn is_brc20(self) -> bool {
        self matches ParsedDataView::Json { protocol, .. } && protocol == Some("brc-20"@)
    }

    /// Whether this is text of any kind: HTML, JSON or plain.
    pub open spec fn is_text(self) -> bool {
        self is Html || self is Json || self is Text
    }
}

/// The member of a JSON object that names the protocol.
pub open spec fn protocol_key() -> Seq<char> {
    "p"@
}

/// The bytes of the ASCII text `html`.
pub open spec fn html_word() -> Seq<u8> {
    seq![0x68u8, 0x74u8, 0x6du8, 0x6cu8]
}

/// Whether a declared tag says that the payload is HTML: its UTF-8 bytes
/// hold the word `html`, in capital or small ASCII letters.
pub open spec fn mentions_html(tag: Seq<char>) -> bool {
    contains_ignoring_case(encode_utf8(tag), html_word())
}

/// What `serde_json` makes of `text` and its member `key`: `None` where the
/// text is no JSON; else the string that the top-level object holds under
/// `key`, or `None` where the value is no object, has no such member, or the
/// member is no string.
pub uninterp spec fn json_string_member(text: Seq<char>, key: Seq<char>) -> Option<
    Option<Seq<char>>,
>;

/// The payloads that an image decoder was found to decode.
///
/// The library asks no decoder itself. Whoever calls it tries a decoder on
/// the payloads that are no text (see `inscription::unread_payloads`) and
/// notes here those that it decodes; the library classifies by what is
/// noted.
#[derive(Debug, Clone, PartialEq, Eq)]
pub struct ImageProbe {
    pub images: Vec<Vec<u8>>,
}

impl View for ImageProbe {
    type V = Set<Seq<u8>>;

    open spec fn view(&self) -> Set<Seq<u8>> {
        Set::new(
            |payload: Seq<u8>|
                exists|k: int| 0 <= k < self.images@.len() && (#[trigger] self.images@[k])@ == payload,
        )
    }
}

/// How a payload under a declared tag is classified, given the payloads
/// that are known to decode as images. Text comes first: a payload that is
/// UTF-8 is HTML where the tag says so, else JSON where it parses, else plain
/// text. Only a payload that is no UTF-8 is looked up among the images, and
/// is opaque bytes if it is none of them.
pub open spec fn classified(
    tag: Seq<char>,
    payload: Seq<u8>,
    images: Set<Seq<u8>>,
) -> ParsedDataView {
    if valid_utf8(payload) {
        let text = decode_utf8(payload);
        if mentions_html(tag) {
            ParsedDataView::Html(text)
        } else {
            match json_string_member(text, protocol_key()) {
                Some(protocol) => ParsedDataView::Json { text, protocol },
                None => ParsedDataView::Text(text),
            }
        }
    } else if images.contains(payload) {
        ParsedDataView::Image
    } else {
        ParsedDataView::Binary
    }
}

/// Every payload has exactly one classification, and which one it is
/// follows from four things alone: whether the payload is UTF-8, whether
/// the tag mentions HTML, what the JSON parser makes of it, and whether it
/// is known to decode as an image. The text kinds carry the text that the
/// payload encodes.
pub proof fn lemma_classification_is_exclusive(
    tag: Seq<char>,
    payload: Seq<u8>,
    images: Set<Seq<u8>>,
)
    ensures
        classified(tag, payload, images) is Html <==> valid_utf8(payload) && mentions_html(tag),
        classified(tag, payload, images) is Json <==> valid_utf8(payload) && !mentions_html(tag)
            && json_string_member(decode_utf8(payload), protocol_key()) is Some,
        classified(tag, payload, images) is Text <==> valid_utf8(payload) && !mentions_html(tag)
            && json_string_member(decode_utf8(payload), protocol_key()) is None,
        classified(tag, payload, images) is Image <==> !valid_utf8(payload) && images.contains(
            payload,
        ),
        classified(tag, payload, images) is Binary <==> !valid_utf8(payload) && !images.contains(
            payload,
        ),
        classified(tag, payload, images).is_text() <==> valid_utf8(payload),
        classified(tag, payload, images) matches ParsedDataView::Html(text) ==> text
            == decode_utf8(payload),
        classified(tag, payload, images) matches ParsedDataView::Text(text) ==> text
            == decode_utf8(payload),
        classified(tag, payload, images) matches ParsedDataView::Json { text, .. } ==> text
            == decode_utf8(payload),
{
}

/// Classifying the same tag and payload again, with the same images known,
/// gives the same result.
pub proof fn lemma_classification_repeats(
    first: ParsedData,
    second: ParsedData,
    tag: Seq<char>,
    payload: Seq<u8>,
    images: Set<Seq<u8>>,
)
    requires
        first@ == classified(tag, payload, images),
        second@ == classified(tag, payload, images),
    ensures
        first@ == second@,
{
}

/// What is known of images has no bearing on text: a payload that is
/// UTF-8 is classified the same whatever images are known.
pub proof fn lemma_text_needs_no_probe(
    tag: Seq<char>,
    payload: Seq<u8>,
    images: Set<Seq<u8>>,
    others: Set<Seq<u8>>,
)
    ensures
        classified(tag, payload, images).is_text() == classified(tag, payload, others).is_text(),
        valid_utf8(payload) ==> classified(tag, payload, images) == classified(
            tag,
            payload,
            others,
        ),
{
}

/// A classified payload is `brc-20` only where it is JSON whose top-level
/// object holds the string `brc-20` under `p`: never where the JSON is an
/// array or a scalar or lacks the member, and never where the payload is
/// anything but JSON.
pub proof fn lemma_brc20_is_json_with_protocol(
    tag: Seq<char>,
    payload: Seq<u8>,
    images: Set<Seq<u8>>,
)
    ensures
        classified(tag, payload, images).is_brc20() <==> classified(tag, payload, images) is Json
            && json_string_member(decode_utf8(payload), protocol_key()) == Some(
            Some("brc-20"@),
        ),
        !(classified(tag, payload, images) is Json) ==> !classified(
            tag,
            payload,
            images,
        ).is_brc20(),
{
}

/// Parses `text` with `serde_json::from_str` and reads the member `key` of
/// the value with `Value::get` and `Value::as_str`. The contract claims only
/// that the outcome is a function of the text and the key.
#[verifier::external_body]
fn read_json_member(text: &str, key: &str) -> (r: Option<Option<String>>)
    ensures
        match r {
            Some(member) => json_string_member(text@, key@) == Some(optional_text(member)),
            None => json_string_member(text@, key@) is None,
        },
{
    serde_json::from_str::<serde_json::Value>(text).ok().map(
        |value| value.get(key).and_then(|member| member.as_str()).map(|s| s.to_string()),
    )
}

/// Tells whether a declared tag says that the payload is HTML.
pub fn tag_mentions_html(tag: &str) -> (r: bool)
    ensures
        r == mentions_html(tag@),
{
    let word: [u8; 4] = [0x68, 0x74, 0x6d, 0x6c];
    assert(word@ =~= html_word());
    contains(tag.as_bytes(), word.as_slice())
}

/// Classifies text that its tag does not declare as HTML, given what the
/// JSON parser made of it: JSON where it parsed, plain text where it did not.
pub fn classify_text(text: String, parsed: Option<Option<String>>) -> (r: ParsedData)
    ensures
        r@ == match parsed {
            Some(protocol) => ParsedDataView::Json {
                text: text@,
                protocol: optional_text(protocol),
            },
            None => ParsedDataView::Text(text@),
        },
{
    match parsed {
        Some(protocol) => ParsedData::Json(JsonDocument { text, protocol }),
        None => ParsedData::Text(text),
    }
}

/// Classifies a payload that is no text, given whether it decodes as an
/// image.
pub fn classify_bytes(is_image: bool) -> (r: ParsedData)
    ensures
        r@ == if is_image {
            ParsedDataView::Image
        } else {
            ParsedDataView::Binary
        },
{
    if is_image {
        ParsedData::Image
    } else {
        ParsedData::Binary
    }
}

/// Tells whether two byte strings are the same.
pub fn same_bytes(a: &[u8], b: &[u8]) -> (r: bool)
    ensures
        r == (a@ == b@),
{
    if a.len() != b.len() {
        return false;
    }
    let n = a.len();
    let mut k: usize = 0;
    while k < n
        invariant
            k <= n,
            n == a@.len(),
            n == b@.len(),
            forall|j: int| 0 <= j < k ==> a@[j] == b@[j],
        decreases n - k,
    {
        if a[k] != b[k] {
            return false;
        }
        k = k + 1;
    }
    assert(a@ =~= b@);
    true
}

impl ImageProbe {
    /// A probe with no image noted.
    pub fn new() -> (r: ImageProbe)
        ensures
            r@ == Set::<Seq<u8>>::empty(),
    {
        let probe = ImageProbe { images: Vec::new() };
        assert(probe@ =~= Set::<Seq<u8>>::empty());
        probe
    }

    /// Notes that a payload decodes as an image.
    pub fn note(&mut self, payload: Vec<u8>)
        ensures
            final(self)@ == old(self)@.insert(payload@),
    {
        let ghost before = self.images@;
        self.images.push(payload);
        assert(self@ =~= old(self)@.insert(payload@)) by {
            assert forall|p: Seq<u8>| self@.contains(p) <==> old(self)@.insert(payload@).contains(
                p,
            ) by {
                if old(self)@.contains(p) {
                    let k = choose|k: int| 0 <= k < before.len() && (#[trigger] before[k])@ == p;
                    assert(self.images@[k]@ == p);
                }
                if p == payload@ {
                    assert(self.images@[before.len() as int]@ == p);
                }
                if self@.contains(p) {
                    let k = choose|k: int|
                        0 <= k < self.images@.len() && (#[trigger] self.images@[k])@ == p;
                    if k < before.len() {
                        assert(before[k]@ == p);
                    }
                }
            }
        }
    }

    /// Tells whether a payload is noted as an image.
    pub fn holds(&self, payload: &[u8]) -> (r: bool)
        ensures
            r == self@.contains(payload@),
    {
        let n = self.images.len();
        let mut k: usize = 0;
        while k < n
            invariant
                k <= n,
                n == self.images@.len(),
                forall|j: int| 0 <= j < k ==> (#[trigger] self.images@[j])@ != payload@,
            decreases n - k,
        {
            if same_bytes(self.images[k].as_slice(), payload) {
                return true;
            }
            k = k + 1;
        }
        false
    }
}

/// Classifies a payload under its declared tag, given the payloads that
/// are known to decode as images. Every payload has exactly one
/// classification; none is an error.
pub fn parse_data(data: &[u8], mime: &str, probe: &ImageProbe) -> (r: ParsedData)
    ensures
        r@ == classified(mime@, data@, probe@),
{
    match utf8_text(data) {
        Some(text) => {
            if tag_mentions_html(mime) {
                ParsedData::Html(text.to_owned())
            } else {
                let parsed = read_json_member(text, "p");
                classify_text(text.to_owned(), parsed)
            }
        },
        None => classify_bytes(probe.holds(data)),
    }
}

impl ParsedData {
    /// Whether this is JSON that declares itself part of the `brc-20`
    /// protocol.
    pub fn is_brc20(&self) -> (r: bool)
        ensures
            r == self@.is_brc20(),
    {
        match self {
            ParsedData::Json(document) => match &document.protocol {
                Some(protocol) => {
                    let expected = String::from_str("brc-20");
                    *protocol == expected
                },
                None => false,
            },
            _ => false,
        }
    }

    /// Whether this is text of any kind: HTML, JSON or plain.
    pub fn is_text(&self) -> (r: bool)
        ensures
            r == self@.is_text(),
    {
        match self {
            ParsedData::Html(_) | ParsedData::Json(_) | ParsedData::Text(_) => true,
            _ => false,
        }
    }

    pub fn is_json(&self) -> (r: bool)
        ensures
            r == (self@ is Json),
    {
        match self {
            ParsedData::Json(_) => true,
            _ => false,
        }
    }

    pub fn is_html(&self) -> (r: bool)
        ensures
            r == (self@ is Html),
    {
        match self {
            ParsedData::Html(_) => true,
            _ => false,
        }
    }

    pub fn is_image(&self) -> (r: bool)
        ensures
            r == (self@ is Image),
    {
        match self {
            ParsedData::Image => true,
            _ => false,
        }
    }
}

} // verus!
