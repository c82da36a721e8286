//! Inscriptions: classified payloads with the transaction and the place in
//! it that they come from.

use std::sync::Arc;
use vstd::prelude::*;
use vstd::slice::slice_to_vec;
use vstd::string::StringExecFns;
use vstd::utf8::{decode_utf8, valid_utf8};

use crate::content::{
    classified, optional_text, parse_data, ImageProbe, ParsedData, ParsedDataView,
};
use crate::envelope::{envelopes, extract_envelopes, RawEnvelope, RawEnvelopeView};
use crate::error::ExtractError;
use crate::id::{hex_text, id_text, InscriptionId, Txid};
use crate::script::{decode_script, script_instructions};
use crate::text::{ascii_text, utf8_text};

verus! {

/// The first byte of an annex, the witness element that BIP 341 sets apart.
pub const ANNEX_PREFIX: u8 = 0x50;

/// An input of a transaction, as far as inscriptions go: its witness stack.
#[derive(Debug, Clone, PartialEq, Eq)]
pub struct TxIn {
    pub witness: Vec<Vec<u8>>,
}

/// A transaction, as far as inscriptions go: its id and its inputs.
#[derive(Debug, Clone, PartialEq, Eq)]
pub struct Transaction {
    pub txid: Txid,
    pub input: Vec<TxIn>,
}

/// An inscription: a payload with its declared tag, what it was classified
/// as, and where it comes from: the transaction, the number of the input,
/// and its number among the inscriptions of that input.
#[derive(Debug, Clone, PartialEq, Eq)]
pub struct Inscription {
    pub txid: Txid,
    /// The number of the input that carries the inscription.
    pub input: usize,
    /// The number of the inscription among those of its input, from zero.
    pub index: usize,
    pub mime: String,
    pub data: Vec<u8>,
    pub parsed: ParsedData,
}

/// The mathematical value of an [`Inscription`].
pub struct InscriptionView {
    pub txid: Seq<u8>,
    pub input: usize,
    pub index: usize,
    pub mime: Seq<char>,
    pub data: Seq<u8>,
    pub parsed: ParsedDataView,
}

impl View for Inscription {
    type V = InscriptionView;

    open spec fn view(&self) -> InscriptionView {
        InscriptionView {
            txid: self.txid@,
            input: self.input,
            index: self.index,
            mime: self.mime@,
            data: self.data@,
            parsed: self.parsed@,
        }
    }
}

/// The elements of a witness stack as byte sequences.
pub open spec fn witness_view(witness: Seq<Vec<u8>>) -> Seq<Seq<u8>> {
    Seq::new(witness.len(), |k: int| witness[k]@)
}

/// The values of a list of shared inscriptions.
pub open spec fn inscriptions_view(list: Seq<Arc<Inscription>>) -> Seq<InscriptionView> {
    Seq::new(list.len(), |k: int| list[k]@)
}

/// The values of a list of tags with their payloads.
pub open spec fn pairs_view(list: Seq<(String, Vec<u8>)>) -> Seq<(Seq<char>, Seq<u8>)> {
    Seq::new(list.len(), |k: int| (list[k].0@, list[k].1@))
}

/// Whether the last element of a witness stack is an annex: there are at
/// least two elements, and the last begins with the annex prefix.
pub open spec fn has_annex(witness: Seq<Seq<u8>>) -> bool {
    &&& witness.len() >= 2
    &&& witness.last().len() > 0
    &&& witness.last()[0] == ANNEX_PREFIX
}

/// The leaf script of a witness stack by the rules of BIP 341: the element
/// before the control block, which is the last element once an annex is set
/// apart. A stack that is too short for a script has none.
pub open spec fn leaf_script(witness: Seq<Seq<u8>>) -> Option<Seq<u8>> {
    let n = witness.len() as int;
    if has_annex(witness) {
        if n >= 3 {
            Some(witness[n - 3])
        } else {
            None
        }
    } else if n >= 2 {
        Some(witness[n - 2])
    } else {
        None
    }
}

/// The declared tag as text: what its bytes spell in UTF-8. A tag that is
/// no UTF-8, like a missing one, counts as the empty tag.
pub open spec fn tag_text(declared_tag: Option<Seq<u8>>) -> Seq<char> {
    match declared_tag {
        Some(bytes) => if valid_utf8(bytes) {
            decode_utf8(bytes)
        } else {
            Seq::empty()
        },
        None => Seq::empty(),
    }
}

/// The inscription made from the envelope that is number `index` in input
/// number `input`, given the payloads that are known to decode as images.
pub open spec fn record(
    txid: Seq<u8>,
    input: usize,
    index: usize,
    envelope: RawEnvelopeView,
    images: Set<Seq<u8>>,
) -> InscriptionView {
    InscriptionView {
        txid,
        input,
        index,
        mime: tag_text(envelope.declared_tag),
        data: envelope.payload,
        parsed: classified(tag_text(envelope.declared_tag), envelope.payload, images),
    }
}

/// The inscriptions made from the envelopes of one input, numbered from
/// zero in the order in which they stand.
pub open spec fn records(
    txid: Seq<u8>,
    input: usize,
    found: Seq<RawEnvelopeView>,
    images: Set<Seq<u8>>,
) -> Seq<InscriptionView> {
    Seq::new(found.len(), |k: int| record(txid, input, k as usize, found[k], images))
}

impl InscriptionView {
    /// Whether `id` is the id of the record.
    pub open spec fn has_id(self, id: (Seq<u8>, usize)) -> bool {
        self.txid == id.0 && self.index == id.1
    }

    /// Whether the record is in itself consistent: what it is classified as
    /// is what its payload is under its tag, with these images known.
    pub open spec fn is_consistent(self, images: Set<Seq<u8>>) -> bool {
        self.parsed == classified(self.mime, self.data, images)
    }
}

/// The records made from the envelopes of one input are as many as the
/// envelopes, each is consistent, carries the transaction id and the number
/// of the input, and is numbered by the place of its envelope, counting from
/// zero.
pub proof fn lemma_records_are_numbered(
    txid: Seq<u8>,
    input: usize,
    found: Seq<RawEnvelopeView>,
    images: Set<Seq<u8>>,
)
    requires
        found.len() <= usize::MAX,
    ensures
        records(txid, input, found, images).len() == found.len(),
        forall|k: int|
            0 <= k < found.len() ==> {
                &&& (#[trigger] records(txid, input, found, images)[k]).is_consistent(images)
                &&& records(txid, input, found, images)[k].txid == txid
                &&& records(txid, input, found, images)[k].input == input
                &&& records(txid, input, found, images)[k].index == k
                &&& records(txid, input, found, images)[k].data == found[k].payload
                &&& records(txid, input, found, images)[k].mime == tag_text(found[k].declared_tag)
            },
{
}

/// The records of a list that have the id `id`, in their order.
pub open spec fn with_id(list: Seq<InscriptionView>, id: (Seq<u8>, usize)) -> Seq<InscriptionView>
    decreases list.len(),
{
    if list.len() == 0 {
        Seq::empty()
    } else {
        let before = with_id(list.drop_last(), id);
        if list.last().has_id(id) {
            before.push(list.last())
        } else {
            before
        }
    }
}

/// The tags and payloads of the envelopes in a script, or the error where
/// the script does not decode.
pub open spec fn script_pairs(script: Seq<u8>) -> Result<
    Seq<(Seq<char>, Seq<u8>)>,
    ExtractError,
> {
    match script_instructions(script) {
        Some(instructions) => {
            let found = envelopes(instructions);
            Ok(Seq::new(found.len(), |k: int| (tag_text(found[k].declared_tag), found[k].payload)))
        },
        None => Err(ExtractError::MalformedScript),
    }
}

/// The payloads of the records of a list that are not classified as text,
/// in their order: those of which only a decoder can tell whether they are
/// images.
pub open spec fn unread(list: Seq<InscriptionView>) -> Seq<Seq<u8>>
    decreases list.len(),
{
    if list.len() == 0 {
        Seq::empty()
    } else {
        let before = unread(list.drop_last());
        if list.last().parsed.is_text() {
            before
        } else {
            before.push(list.last().data)
        }
    }
}

/// The payloads that are no text in two lists, one after the other, are
/// those of the first and then those of the second.
pub proof fn lemma_unread_of_parts(first: Seq<InscriptionView>, second: Seq<InscriptionView>)
    ensures
        unread(first + second) == unread(first) + unread(second),
    decreases second.len(),
{
    if second.len() == 0 {
        assert(first + second =~= first);
        assert(unread(first) + unread(second) =~= unread(first));
    } else {
        let whole = first + second;
        assert(whole.drop_last() =~= first + second.drop_last());
        assert(whole.last() == second.last());
        lemma_unread_of_parts(first, second.drop_last());
        assert(unread(whole) =~= unread(first) + unread(second));
    }
}

proof fn lemma_unread_alike(first: Seq<InscriptionView>, second: Seq<InscriptionView>)
    requires
        first.len() == second.len(),
        forall|k: int|
            0 <= k < first.len() ==> (#[trigger] first[k]).data == second[k].data
                && first[k].parsed.is_text() == second[k].parsed.is_text(),
    ensures
        unread(first) == unread(second),
    decreases first.len(),
{
    if first.len() > 0 {
        assert(first.last().data == second.last().data) by {
            assert(first[first.len() - 1].data == second[first.len() - 1].data);
        }
        assert forall|k: int| 0 <= k < first.drop_last().len() implies (#[trigger] first.drop_last()[k]).data
            == second.drop_last()[k].data && first.drop_last()[k].parsed.is_text()
            == second.drop_last()[k].parsed.is_text() by {
            assert(first[k].data == second[k].data);
        }
        lemma_unread_alike(first.drop_last(), second.drop_last());
    }
}

/// Which payloads of a transaction are no text does not depend on what is
/// known of images. So the payloads to try a decoder on can be found before
/// any image is known.
pub proof fn lemma_unread_needs_no_probe(
    tx: Transaction,
    n: int,
    images: Set<Seq<u8>>,
    others: Set<Seq<u8>>,
)
    ensures
        unread(tx.records_of_first(n, images)) == unread(tx.records_of_first(n, others)),
    decreases n,
{
    if n > 0 {
        lemma_unread_needs_no_probe(tx, n - 1, images, others);
        let input = (n - 1) as usize;
        let with_images = match witness_records(tx.txid@, input, tx.witness(n - 1), images) {
            Ok(list) => list,
            Err(_) => Seq::empty(),
        };
        let with_others = match witness_records(tx.txid@, input, tx.witness(n - 1), others) {
            Ok(list) => list,
            Err(_) => Seq::empty(),
        };
        lemma_unread_alike(with_images, with_others);
        lemma_unread_of_parts(tx.records_of_first(n - 1, images), with_images);
        lemma_unread_of_parts(tx.records_of_first(n - 1, others), with_others);
    }
}

/// The text that an inscription is shown as: its id in square brackets,
/// after the word `Inscription`.
pub open spec fn display_text(inscription: InscriptionView) -> Seq<char> {
    "[Inscription "@ + ascii_text(id_text(inscription.txid, inscription.index)) + "]"@
}

/// What the scan of one witness stack gives: no inscriptions where the
/// stack has no leaf script, an error where the script does not decode, and
/// else the inscriptions of its envelopes.
pub open spec fn witness_records(
    txid: Seq<u8>,
    input: usize,
    witness: Seq<Seq<u8>>,
    images: Set<Seq<u8>>,
) -> Result<Seq<InscriptionView>, ExtractError> {
    match leaf_script(witness) {
        None => Ok(Seq::empty()),
        Some(script) => match script_instructions(script) {
            None => Err(ExtractError::MalformedScript),
            Some(instructions) => Ok(records(txid, input, envelopes(instructions), images)),
        },
    }
}

impl Transaction {
    /// The witness stack of input `k`.
    pub open spec fn witness(&self, k: int) -> Seq<Seq<u8>> {
        witness_view(self.input@[k].witness@)
    }

    /// The inscriptions of the first `n` inputs, input by input, given the
    /// payloads that are known to decode as images. An input whose script
    /// does not decode adds none.
    pub open spec fn records_of_first(&self, n: int, images: Set<Seq<u8>>) -> Seq<InscriptionView>
        decreases n,
    {
        if n <= 0 {
            Seq::empty()
        } else {
            self.records_of_first(n - 1, images) + match witness_records(
                self.txid@,
                (n - 1) as usize,
                self.witness(n - 1),
                images,
            ) {
                Ok(list) => list,
                Err(_) => Seq::empty(),
            }
        }
    }
}

/// The file extensions that the `image` crate knows for the format that it
/// guesses from the first bytes of `payload`, in the order in which it lists
/// them, or `None` where it guesses no format.
pub uninterp spec fn image_extensions(payload: Seq<u8>) -> Option<Seq<Seq<char>>>;

/// The characters of each string of a list.
pub open spec fn texts(list: Seq<String>) -> Seq<Seq<char>> {
    Seq::new(list.len(), |k: int| list[k]@)
}

/// The characters of each string of an optional list.
pub open spec fn optional_texts(list: Option<Vec<String>>) -> Option<Seq<Seq<char>>> {
    match list {
        Some(found) => Some(texts(found@)),
        None => None,
    }
}

/// The file extension for a classified payload, given the extensions that
/// were sniffed from an image: the first of them for an image, and `dat` for
/// opaque bytes and for an image for which none is known.
pub open spec fn extension(parsed: ParsedDataView, sniffed: Option<Seq<Seq<char>>>) -> Seq<char> {
    match parsed {
        ParsedDataView::Binary => "dat"@,
        ParsedDataView::Html(_) => "html"@,
        ParsedDataView::Image => match sniffed {
            Some(found) => if found.len() > 0 {
                found[0]
            } else {
                "dat"@
            },
            None => "dat"@,
        },
        ParsedDataView::Json { .. } => "json"@,
        ParsedDataView::Text(_) => "txt"@,
    }
}

/// The file name for the payload of an inscription: its id, a dot and the
/// file extension for its content.
pub open spec fn file_name_of(inscription: InscriptionView) -> Seq<char> {
    ascii_text(id_text(inscription.txid, inscription.index)) + "."@ + extension(
        inscription.parsed,
        image_extensions(inscription.data),
    )
}

/// What there is to print of an inscription as plain text: opaque bytes in
/// hexadecimal digits, and HTML and plain text as they are. JSON and images
/// are for the caller to render.
pub open spec fn plain_text_of(inscription: InscriptionView) -> Option<Seq<char>> {
    match inscription.parsed {
        ParsedDataView::Binary => Some(ascii_text(hex_text(inscription.data))),
        ParsedDataView::Html(text) => Some(text),
        ParsedDataView::Text(text) => Some(text),
        ParsedDataView::Image => None,
        ParsedDataView::Json { .. } => None,
    }
}

/// Calls `image::guess_format` and hands out the entries of
/// `ImageFormat::extensions_str` for the format it returns. The contract
/// claims only that the outcome is a function of the bytes. The first
/// function compares the start of the bytes with a table of signatures, the
/// second is a table of its own: neither decodes anything.
#[verifier::external_body]
fn sniff_extensions(payload: &[u8]) -> (r: Option<Vec<String>>)
    ensures
        optional_texts(r) == image_extensions(payload@),
{
    image::guess_format(payload).ok().map(
        |format| format.extensions_str().iter().map(|found| found.to_string()).collect(),
    )
}

/// Calls `hex::encode`. The contract claims what its documentation says:
/// the text holds two small hexadecimal digits for each byte, in order.
#[verifier::external_body]
fn hex_encode(data: &[u8]) -> (r: String)
    ensures
        r@ == ascii_text(hex_text(data@)),
{
    hex::encode(data)
}

/// Picks the leaf script out of a witness stack by the rules of BIP 341.
pub fn tapscript(witness: &Vec<Vec<u8>>) -> (r: Option<&Vec<u8>>)
    ensures
        match r {
            Some(script) => leaf_script(witness_view(witness@)) == Some(script@),
            None => leaf_script(witness_view(witness@)) is None,
        },
{
    let n = witness.len();
    if n < 2 {
        return None;
    }
    let last = &witness[n - 1];
    assert(witness_view(witness@).last() == last@);
    if last.len() > 0 && last[0] == ANNEX_PREFIX {
        if n >= 3 {
            assert(witness_view(witness@)[n - 3] == witness[n - 3]@);
            Some(&witness[n - 3])
        } else {
            None
        }
    } else {
        assert(witness_view(witness@)[n - 2] == witness[n - 2]@);
        Some(&witness[n - 2])
    }
}

/// The declared tag of an envelope as a string.
pub fn tag_string(envelope: &RawEnvelope) -> (r: String)
    ensures
        r@ == tag_text(envelope.deep_view().declared_tag),
{
    match &envelope.declared_tag {
        Some(bytes) => match utf8_text(bytes.as_slice()) {
            Some(text) => text.to_owned(),
            None => String::new(),
        },
        None => String::new(),
    }
}

/// Scans a script for envelopes and returns the tag and the payload of each.
/// Fails where the script does not decode.
pub fn extract_script(script: &[u8]) -> (r: Result<Vec<(String, Vec<u8>)>, ExtractError>)
    ensures
        match r {
            Ok(pairs) => script_pairs(script@) == Ok::<Seq<(Seq<char>, Seq<u8>)>, ExtractError>(
                pairs_view(pairs@),
            ),
            Err(e) => script_pairs(script@) == Err::<Seq<(Seq<char>, Seq<u8>)>, ExtractError>(e),
        },
{
    let mut pairs: Vec<(String, Vec<u8>)> = Vec::new();
    let instructions = match decode_script(script) {
        Ok(instructions) => instructions,
        Err(e) => {
            return Err(e);
        },
    };
    let found = extract_envelopes(&instructions);
    let ghost model = envelopes(instructions.deep_view());
    let n = found.len();
    let mut k: usize = 0;
    while k < n
        invariant
            k <= n,
            n == found.len(),
            found.deep_view() == model,
            pairs.len() == k,
            forall|j: int|
                0 <= j < k ==> (#[trigger] pairs[j]).0@ == tag_text(model[j].declared_tag)
                    && pairs[j].1@ == model[j].payload,
        decreases n - k,
    {
        let envelope = &found[k];
        assert(found.deep_view()[k as int] == envelope.deep_view());
        let tag = tag_string(envelope);
        let payload = slice_to_vec(envelope.payload.as_slice());
        pairs.push((tag, payload));
        k = k + 1;
    }
    assert(pairs_view(pairs@) =~= Seq::new(
        model.len(),
        |k: int| (tag_text(model[k].declared_tag), model[k].payload),
    ));
    Ok(pairs)
}

/// Classifies each envelope of one input and puts it with the transaction
/// id, the number of the input and its number among the envelopes of that
/// input.
pub fn assemble(
    txid: Txid,
    input: usize,
    found: &Vec<RawEnvelope>,
    probe: &ImageProbe,
) -> (r: Vec<Arc<Inscription>>)
    ensures
        inscriptions_view(r@) == records(txid@, input, found.deep_view(), probe@),
{
    let ghost model = found.deep_view();
    let mut list: Vec<Arc<Inscription>> = Vec::new();
    let n = found.len();
    let mut k: usize = 0;
    while k < n
        invariant
            k <= n,
            n == found.len(),
            found.deep_view() == model,
            list.len() == k,
            forall|j: int|
                0 <= j < k ==> (#[trigger] list[j])@ == record(
                    txid@,
                    input,
                    j as usize,
                    model[j],
                    probe@,
                ),
        decreases n - k,
    {
        let envelope = &found[k];
        assert(found.deep_view()[k as int] == envelope.deep_view());
        list.push(Arc::new(Inscription::from_envelope(txid, input, k, envelope, probe)));
        k = k + 1;
    }
    assert(inscriptions_view(list@) =~= records(txid@, input, model, probe@));
    list
}

/// The file extension for a classified payload, given the extensions that
/// were sniffed from its bytes.
pub fn extension_for(parsed: &ParsedData, sniffed: Option<Vec<String>>) -> (r: String)
    ensures
        r@ == extension(parsed@, optional_texts(sniffed)),
{
    match parsed {
        ParsedData::Binary => String::from_str("dat"),
        ParsedData::Html(_) => String::from_str("html"),
        ParsedData::Image => match sniffed {
            Some(found) => {
                if found.len() > 0 {
                    found[0].clone()
                } else {
                    String::from_str("dat")
                }
            },
            None => String::from_str("dat"),
        },
        ParsedData::Json(_) => String::from_str("json"),
        ParsedData::Text(_) => String::from_str("txt"),
    }
}

/// The byte sequences of a list of payloads.
pub open spec fn payloads_view(list: Seq<Vec<u8>>) -> Seq<Seq<u8>> {
    Seq::new(list.len(), |k: int| list[k]@)
}

/// Picks out of a list of inscriptions the payloads that are not classified
/// as text, in their order. These are the payloads to try an image decoder
/// on: what is known of images has no bearing on the others.
pub fn unread_payloads(list: &Vec<Arc<Inscription>>) -> (r: Vec<Vec<u8>>)
    ensures
        payloads_view(r@) == unread(inscriptions_view(list@)),
{
    let ghost model = inscriptions_view(list@);
    let mut out: Vec<Vec<u8>> = Vec::new();
    let n = list.len();
    let mut k: usize = 0;
    assert(model.subrange(0, 0) =~= Seq::<InscriptionView>::empty());
    assert(payloads_view(out@) =~= Seq::<Seq<u8>>::empty());
    while k < n
        invariant
            k <= n,
            n == list@.len(),
            model == inscriptions_view(list@),
            payloads_view(out@) == unread(model.subrange(0, k as int)),
        decreases n - k,
    {
        let ghost before = payloads_view(out@);
        let ghost longer = model.subrange(0, k + 1);
        assert(longer.drop_last() =~= model.subrange(0, k as int));
        assert(longer.last() == list@[k as int]@);
        if !list[k].parsed.is_text() {
            out.push(slice_to_vec(list[k].data.as_slice()));
            assert(payloads_view(out@) =~= before.push(list@[k as int]@.data));
        }
        k = k + 1;
    }
    assert(model.subrange(0, n as int) =~= model);
    out
}

impl Inscription {
    /// Makes the inscription of an envelope: the payload is classified under
    /// the declared tag, and the transaction id, the number of the input and
    /// the number of the envelope in that input are put with it.
    pub fn from_envelope(
        txid: Txid,
        input: usize,
        index: usize,
        envelope: &RawEnvelope,
        probe: &ImageProbe,
    ) -> (r: Inscription)
        ensures
            r@ == record(txid@, input, index, envelope.deep_view(), probe@),
    {
        let mime = tag_string(envelope);
        let data = slice_to_vec(envelope.payload.as_slice());
        let parsed = parse_data(data.as_slice(), mime.as_str(), probe);
        Inscription { txid, input, index, mime, data, parsed }
    }

    /// Extracts the inscriptions of every input, in the order of the inputs
    /// and, within an input, in the order of its envelopes. An input whose
    /// script does not decode is passed over.
    pub fn extract_all(tx: &Transaction, probe: &ImageProbe) -> (r: Vec<Arc<Inscription>>)
        ensures
            inscriptions_view(r@) == tx.records_of_first(tx.input@.len() as int, probe@),
            r@.len() == tx.records_of_first(tx.input@.len() as int, probe@).len(),
    {
        let mut all: Vec<Arc<Inscription>> = Vec::new();
        let n = tx.input.len();
        let mut k: usize = 0;
        assert(inscriptions_view(all@) =~= tx.records_of_first(0, probe@));
        while k < n
            invariant
                k <= n,
                n == tx.input@.len(),
                inscriptions_view(all@) == tx.records_of_first(k as int, probe@),
            decreases n - k,
        {
            let ghost before = all@;
            match Inscription::extract_witness(tx, k, probe) {
                Ok(mut list) => {
                    let ghost added = list@;
                    all.append(&mut list);
                    assert(inscriptions_view(all@) =~= inscriptions_view(before)
                        + inscriptions_view(added));
                },
                Err(_) => {
                    assert(inscriptions_view(all@) =~= inscriptions_view(before)
                        + Seq::<InscriptionView>::empty());
                },
            }
            k = k + 1;
        }
        assert(inscriptions_view(all@).len() == all@.len());
        all
    }

    /// Extracts the inscriptions of one input, in the order of its
    /// envelopes. Fails where the transaction has no such input, and where
    /// the input's leaf script does not decode.
    pub fn extract_witness(tx: &Transaction, input: usize, probe: &ImageProbe) -> (r: Result<
        Vec<Arc<Inscription>>,
        ExtractError,
    >)
        ensures
            input >= tx.input@.len() ==> r == Err::<Vec<Arc<Inscription>>, ExtractError>(
                ExtractError::InputNotFound,
            ),
            input < tx.input@.len() ==> match r {
                Ok(list) => witness_records(
                    tx.txid@,
                    input,
                    tx.witness(input as int),
                    probe@,
                ) == Ok::<
                    Seq<InscriptionView>,
                    ExtractError,
                >(inscriptions_view(list@)),
                Err(e) => witness_records(
                    tx.txid@,
                    input,
                    tx.witness(input as int),
                    probe@,
                ) == Err::<
                    Seq<InscriptionView>,
                    ExtractError,
                >(e),
            },
    {
        if input >= tx.input.len() {
            return Err(ExtractError::InputNotFound);
        }
        let txin = &tx.input[input];
        match tapscript(&txin.witness) {
            None => {
                let list: Vec<Arc<Inscription>> = Vec::new();
                assert(inscriptions_view(list@) =~= Seq::<InscriptionView>::empty());
                Ok(list)
            },
            Some(script) => match decode_script(script.as_slice()) {
                Err(e) => Err(e),
                Ok(instructions) => {
                    let found = extract_envelopes(&instructions);
                    Ok(assemble(tx.txid, input, &found, probe))
                },
            },
        }
    }

    /// Finds the inscriptions of a transaction that have the id `id`: those
    /// that are number `id.1` among the inscriptions of their input, if the
    /// transaction is the one that the id names.
    pub fn find_by_id(tx: &Transaction, id: &InscriptionId, probe: &ImageProbe) -> (r: Vec<
        Arc<Inscription>,
    >)
        ensures
            inscriptions_view(r@) == with_id(
                tx.records_of_first(tx.input@.len() as int, probe@),
                id@,
            ),
    {
        let all = Inscription::extract_all(tx, probe);
        let ghost model = inscriptions_view(all@);
        let mut found: Vec<Arc<Inscription>> = Vec::new();
        let n = all.len();
        let mut k: usize = 0;
        assert(model.subrange(0, 0) =~= Seq::<InscriptionView>::empty());
        assert(inscriptions_view(found@) =~= Seq::<InscriptionView>::empty());
        while k < n
            invariant
                k <= n,
                n == all@.len(),
                model == inscriptions_view(all@),
                inscriptions_view(found@) == with_id(model.subrange(0, k as int), id@),
            decreases n - k,
        {
            let ghost before = inscriptions_view(found@);
            let ghost longer = model.subrange(0, k + 1);
            assert(longer.drop_last() =~= model.subrange(0, k as int));
            assert(longer.last() == all@[k as int]@);
            if all[k].txid.same_as(&id.0) && all[k].index == id.1 {
                found.push(all[k].clone());
                assert(inscriptions_view(found@) =~= before.push(all@[k as int]@));
            }
            k = k + 1;
        }
        assert(model.subrange(0, n as int) =~= model);
        found
    }

    /// The text that the inscription is shown as: its id in square brackets,
    /// after the word `Inscription`.
    pub fn to_string(&self) -> (r: String)
        ensures
            r@ == display_text(self@),
    {
        let mut text = String::from_str("[Inscription ");
        let id = self.inscription_id();
        text.append(id.as_str());
        text.append("]");
        text
    }

    /// The id of the inscription as text: the transaction id, the letter
    /// `i` and the number of the inscription among those of its input.
    pub fn inscription_id(&self) -> (r: String)
        ensures
            r@ == ascii_text(id_text(self@.txid, self@.index)),
    {
        InscriptionId(self.txid, self.index).to_string()
    }

    /// The address of the inscription at the default indexer.
    pub fn web_url(&self) -> (r: String)
        ensures
            r@ == "https://ordinals.com/inscription/"@ + ascii_text(
                id_text(self@.txid, self@.index),
            ),
    {
        let mut url = String::from_str("https://ordinals.com/inscription/");
        let id = self.inscription_id();
        url.append(id.as_str());
        url
    }

    /// A file extension that fits the content. For an image it is sniffed
    /// from the first bytes of the payload.
    pub fn file_extension(&self) -> (r: String)
        ensures
            r@ == extension(self@.parsed, image_extensions(self@.data)),
    {
        match &self.parsed {
            ParsedData::Image => extension_for(
                &self.parsed,
                sniff_extensions(self.data.as_slice()),
            ),
            _ => extension_for(&self.parsed, None),
        }
    }

    /// A file name for the payload: the id, a dot and the extension.
    pub fn file_name(&self) -> (r: String)
        ensures
            r@ == file_name_of(self@),
    {
        let mut name = self.inscription_id();
        name.append(".");
        let extension = self.file_extension();
        name.append(extension.as_str());
        name
    }

    /// What there is to print of the inscription as plain text, if it is
    /// printed as text at all.
    pub fn plain_text(&self) -> (r: Option<String>)
        ensures
            optional_text(r) == plain_text_of(self@),
    {
        match &self.parsed {
            ParsedData::Binary => Some(hex_encode(self.data.as_slice())),
            ParsedData::Html(text) => Some(text.clone()),
            ParsedData::Text(text) => Some(text.clone()),
            ParsedData::Image => None,
            ParsedData::Json(_) => None,
        }
    }
}

} // verus!
