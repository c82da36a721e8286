//! What holds of the scanner on every stream: it skips what is no envelope,
//! finds a well-formed envelope where the scan comes to it, returns nothing
//! but well-formed envelopes, and drops one that is not closed.

use vstd::prelude::*;

use crate::envelope::{
    attempt_at, envelopes, envelopes_from, format_marker, lemma_attempt_advances,
    lemma_payload_end_bounds, lemma_separator_bounds, payload_between, payload_end, protocol_tag,
    pushed_bytes, separator_at, starts_envelope, RawEnvelopeView,
};
use crate::script::{InstructionView, OP_ENDIF, OP_IF};

verus! {

/// The chunks of a payload as one push each.
pub open spec fn pushes(chunks: Seq<Seq<u8>>) -> Seq<InstructionView> {
    Seq::new(chunks.len(), |k: int| InstructionView::PushBytes(chunks[k]))
}

/// The chunks of a payload, one after the other.
pub open spec fn joined(chunks: Seq<Seq<u8>>) -> Seq<u8>
    decreases chunks.len(),
{
    if chunks.len() == 0 {
        Seq::empty()
    } else {
        joined(chunks.drop_last()) + chunks.last()
    }
}

/// The instructions that open an envelope, up to its declared tag.
pub open spec fn envelope_header(declared_tag: Option<Seq<u8>>) -> Seq<InstructionView> {
    let start = seq![
        InstructionView::PushBytes(Seq::empty()),
        InstructionView::Op(OP_IF),
        InstructionView::PushBytes(protocol_tag()),
    ];
    match declared_tag {
        Some(tag) => start + seq![
            InstructionView::PushBytes(format_marker()),
            InstructionView::PushBytes(tag),
        ],
        None => start,
    }
}

/// Whether `fields` can stand between the header and the separator: none of
/// them is an empty push, and in an envelope without a tag the first is not
/// the format marker.
pub open spec fn passable_fields(
    declared_tag: Option<Seq<u8>>,
    fields: Seq<InstructionView>,
) -> bool {
    &&& forall|k: int| 0 <= k < fields.len() ==> !(#[trigger] fields[k]).is_empty_push()
    &&& declared_tag is None && fields.len() > 0 ==> !fields[0].is_push_of(format_marker())
}

/// An envelope without its closing `OP_ENDIF`: header, further fields, the
/// separator and the payload in chunks.
pub open spec fn open_envelope(
    declared_tag: Option<Seq<u8>>,
    fields: Seq<InstructionView>,
    chunks: Seq<Seq<u8>>,
) -> Seq<InstructionView> {
    envelope_header(declared_tag) + fields + seq![InstructionView::PushBytes(Seq::empty())]
        + pushes(chunks)
}

/// A well-formed envelope.
pub open spec fn envelope_script(
    declared_tag: Option<Seq<u8>>,
    fields: Seq<InstructionView>,
    chunks: Seq<Seq<u8>>,
) -> Seq<InstructionView> {
    open_envelope(declared_tag, fields, chunks) + seq![InstructionView::Op(OP_ENDIF)]
}

/// Where the separator is found: at the first empty push.
pub proof fn lemma_separator_found(s: Seq<InstructionView>, from: int, at: int)
    requires
        0 <= from <= at < s.len(),
        forall|k: int| from <= k < at ==> !(#[trigger] s[k]).is_empty_push(),
        s[at].is_empty_push(),
    ensures
        separator_at(s, from) == at,
    decreases at - from,
{
    if from < at {
        lemma_separator_found(s, from + 1, at);
    }
}

/// Where the payload ends: at the first opcode, or with the stream.
pub proof fn lemma_payload_end_found(s: Seq<InstructionView>, from: int, at: int)
    requires
        0 <= from <= at <= s.len(),
        forall|k: int| from <= k < at ==> (#[trigger] s[k]) is PushBytes,
        at < s.len() ==> s[at] is Op,
    ensures
        payload_end(s, from) == at,
    decreases at - from,
{
    if from < at {
        lemma_payload_end_found(s, from + 1, at);
    }
}

/// Pushes of the chunks, one per instruction, give the chunks joined.
pub proof fn lemma_payload_joined(s: Seq<InstructionView>, from: int, chunks: Seq<Seq<u8>>)
    requires
        0 <= from,
        from + chunks.len() <= s.len(),
        forall|k: int|
            0 <= k < chunks.len() ==> #[trigger] s[from + k] == InstructionView::PushBytes(
                chunks[k],
            ),
    ensures
        payload_between(s, from, from + chunks.len()) == joined(chunks),
    decreases chunks.len(),
{
    if chunks.len() > 0 {
        let shorter = chunks.drop_last();
        assert forall|k: int| 0 <= k < shorter.len() implies #[trigger] s[from + k]
            == InstructionView::PushBytes(shorter[k]) by {
            assert(shorter[k] == chunks[k]);
        }
        lemma_payload_joined(s, from, shorter);
        let last = chunks.len() - 1;
        assert(s[from + last] == InstructionView::PushBytes(chunks[last]));
        assert(pushed_bytes(s[from + chunks.len() - 1]) == chunks.last());
    }
}

/// The separator search does not depend on what stands before it.
pub proof fn lemma_separator_shift(a: Seq<InstructionView>, b: Seq<InstructionView>, k: int)
    requires
        0 <= k <= b.len(),
    ensures
        separator_at(a + b, a.len() + k) == a.len() + separator_at(b, k),
    decreases b.len() - k,
{
    let s = a + b;
    if k < b.len() {
        assert(s[a.len() + k] == b[k]);
        if !b[k].is_empty_push() {
            lemma_separator_shift(a, b, k + 1);
        }
    }
}

/// The end of a payload does not depend on what stands before it.
pub proof fn lemma_payload_end_shift(a: Seq<InstructionView>, b: Seq<InstructionView>, k: int)
    requires
        0 <= k <= b.len(),
    ensures
        payload_end(a + b, a.len() + k) == a.len() + payload_end(b, k),
    decreases b.len() - k,
{
    let s = a + b;
    if k < b.len() {
        assert(s[a.len() + k] == b[k]);
        if !(b[k] is Op) {
            lemma_payload_end_shift(a, b, k + 1);
        }
    }
}

/// A payload does not depend on what stands before it.
pub proof fn lemma_payload_shift(
    a: Seq<InstructionView>,
    b: Seq<InstructionView>,
    from: int,
    to: int,
)
    requires
        0 <= from,
        to <= b.len(),
    ensures
        payload_between(a + b, a.len() + from, a.len() + to) == payload_between(b, from, to),
    decreases to - from,
{
    let s = a + b;
    if from < to {
        assert(s[a.len() + to - 1] == b[to - 1]);
        lemma_payload_shift(a, b, from, to - 1);
    }
}

/// A start marker is one whatever stands before it.
pub proof fn lemma_start_shift(a: Seq<InstructionView>, b: Seq<InstructionView>, k: int)
    requires
        0 <= k,
    ensures
        starts_envelope(a + b, a.len() + k) == starts_envelope(b, k),
{
    let s = a + b;
    if k + 1 < b.len() {
        assert(s[a.len() + k] == b[k]);
        assert(s[a.len() + k + 1] == b[k + 1]);
    }
}

/// An attempt finds the same, and goes on from the same instruction,
/// whatever stands before the start marker.
pub proof fn lemma_attempt_shift(a: Seq<InstructionView>, b: Seq<InstructionView>, k: int)
    requires
        starts_envelope(b, k),
    ensures
        attempt_at(a + b, a.len() + k).found == attempt_at(b, k).found,
        attempt_at(a + b, a.len() + k).resume == a.len() + attempt_at(b, k).resume,
{
    let s = a + b;
    let i = a.len() + k;
    assert(forall|j: int| 0 <= j < b.len() ==> s[a.len() + j] == b[j]);
    if k + 2 < b.len() {
        assert(s[i + 2] == b[k + 2]);
    }
    if k + 3 < b.len() {
        assert(s[i + 3] == b[k + 3]);
    }
    if k + 4 < b.len() {
        assert(s[i + 4] == b[k + 4]);
    }
    if k + 2 < b.len() && b[k + 2].is_push_of(protocol_tag()) {
        let tagged = k + 3 < b.len() && b[k + 3].is_push_of(format_marker());
        if !(tagged && !(k + 4 < b.len() && b[k + 4] is PushBytes)) {
            let body = if tagged {
                k + 5
            } else {
                k + 3
            };
            lemma_separator_shift(a, b, body);
            lemma_separator_bounds(b, body);
            let separator = separator_at(b, body);
            if separator < b.len() {
                lemma_payload_end_shift(a, b, separator + 1);
                lemma_payload_end_bounds(b, separator + 1);
                let end = payload_end(b, separator + 1);
                if end < b.len() {
                    assert(s[a.len() + end] == b[end]);
                    lemma_payload_shift(a, b, separator + 1, end);
                }
            }
        }
    }
}

/// The scan of a stream from some position finds what the scan of the rest
/// alone finds: what has been passed has no influence.
pub proof fn lemma_scan_shift(a: Seq<InstructionView>, b: Seq<InstructionView>, k: int)
    requires
        0 <= k,
    ensures
        envelopes_from(a + b, a.len() + k) == envelopes_from(b, k),
    decreases b.len() - k,
{
    if k < b.len() {
        lemma_start_shift(a, b, k);
        if !starts_envelope(b, k) {
            lemma_scan_shift(a, b, k + 1);
        } else {
            lemma_attempt_shift(a, b, k);
            lemma_attempt_advances(b, k);
            let resume = attempt_at(b, k).resume;
            lemma_scan_shift(a, b, resume);
        }
    }
}

proof fn lemma_skip_to(s: Seq<InstructionView>, from: int, to: int)
    requires
        0 <= from <= to <= s.len(),
        forall|j: int| from <= j < to ==> !starts_envelope(s, j),
    ensures
        envelopes_from(s, from) == envelopes_from(s, to),
    decreases to - from,
{
    if from < to {
        lemma_skip_to(s, from + 1, to);
    }
}

/// Instructions in front of a stream that hold no start marker change
/// nothing: the scan finds what it finds in the stream without them.
pub proof fn lemma_leading_noise_is_skipped(
    noise: Seq<InstructionView>,
    rest: Seq<InstructionView>,
)
    requires
        forall|j: int| 0 <= j < noise.len() ==> !starts_envelope(noise + rest, j),
    ensures
        envelopes(noise + rest) == envelopes(rest),
{
    lemma_skip_to(noise + rest, 0, noise.len() as int);
    lemma_scan_shift(noise, rest, 0);
}

/// A stream in which no start marker stands holds no envelope: the scan
/// returns the empty list.
pub proof fn lemma_no_start_marker_no_envelope(s: Seq<InstructionView>)
    requires
        forall|j: int| 0 <= j < s.len() ==> !starts_envelope(s, j),
    ensures
        envelopes(s) == Seq::<RawEnvelopeView>::empty(),
{
    lemma_skip_to(s, 0, s.len() as int);
}

/// A well-formed envelope at the front of a stream is found with its
/// declared tag and its payload, and the scan goes on behind it.
pub proof fn lemma_envelope_is_found(
    declared_tag: Option<Seq<u8>>,
    fields: Seq<InstructionView>,
    chunks: Seq<Seq<u8>>,
    rest: Seq<InstructionView>,
)
    requires
        passable_fields(declared_tag, fields),
    ensures
        envelopes(envelope_script(declared_tag, fields, chunks) + rest) == seq![
            RawEnvelopeView { declared_tag, payload: joined(chunks) },
        ] + envelopes(rest),
{
    let script = envelope_script(declared_tag, fields, chunks);
    let s = script + rest;
    let header = envelope_header(declared_tag);
    let h = header.len() as int;
    let f = fields.len() as int;
    let m = chunks.len() as int;
    let separator = h + f;
    let end = separator + 1 + m;
    assert(h == if declared_tag is Some {
        5int
    } else {
        3int
    });
    assert(script.len() == end + 1);
    assert forall|k: int| 0 <= k < h implies s[k] == header[k] by {}
    assert forall|k: int| 0 <= k < f implies #[trigger] s[h + k] == fields[k] by {}
    assert(s[separator] == InstructionView::PushBytes(Seq::empty()));
    assert forall|k: int| 0 <= k < m implies #[trigger] s[separator + 1 + k]
        == InstructionView::PushBytes(chunks[k]) by {
        assert(pushes(chunks)[k] == InstructionView::PushBytes(chunks[k]));
    }
    assert(s[end] == InstructionView::Op(OP_ENDIF));
    assert(starts_envelope(s, 0));
    assert(s[2].is_push_of(protocol_tag()));
    let tagged = 3 < s.len() && s[3].is_push_of(format_marker());
    assert(tagged == (declared_tag is Some)) by {
        if declared_tag is None {
            if f > 0 {
                assert(s[h + 0] == fields[0]);
            } else {
                assert(format_marker().len() == 1);
            }
        }
    }
    assert forall|k: int| h <= k < separator implies !(#[trigger] s[k]).is_empty_push() by {
        assert(s[h + (k - h)] == fields[k - h]);
    }
    lemma_separator_found(s, h, separator);
    assert forall|k: int| separator + 1 <= k < end implies (#[trigger] s[k]) is PushBytes by {
        assert(s[separator + 1 + (k - separator - 1)] == InstructionView::PushBytes(
            chunks[k - separator - 1],
        ));
    }
    lemma_payload_end_found(s, separator + 1, end);
    lemma_payload_joined(s, separator + 1, chunks);
    if declared_tag is Some {
        assert(pushed_bytes(s[4]) == declared_tag->0);
    }
    assert(attempt_at(s, 0).resume == end + 1);
    assert(attempt_at(s, 0).found == Some(
        RawEnvelopeView { declared_tag, payload: joined(chunks) },
    ));
    lemma_scan_shift(script, rest, 0);
}

/// An envelope that is not closed gives no record. Where the stream ends in
/// the payload, or an opcode other than `OP_ENDIF` ends the payload, the scan
/// finds what it finds from that opcode on, and the payload is dropped.
pub proof fn lemma_unclosed_envelope_is_dropped(
    declared_tag: Option<Seq<u8>>,
    fields: Seq<InstructionView>,
    chunks: Seq<Seq<u8>>,
    rest: Seq<InstructionView>,
)
    requires
        passable_fields(declared_tag, fields),
        rest.len() > 0 ==> rest[0] is Op && !rest[0].is_op(OP_ENDIF),
    ensures
        envelopes(open_envelope(declared_tag, fields, chunks) + rest) == envelopes(rest),
{
    let script = open_envelope(declared_tag, fields, chunks);
    let s = script + rest;
    let header = envelope_header(declared_tag);
    let h = header.len() as int;
    let f = fields.len() as int;
    let m = chunks.len() as int;
    let separator = h + f;
    let end = separator + 1 + m;
    assert(h == if declared_tag is Some {
        5int
    } else {
        3int
    });
    assert(script.len() == end);
    assert forall|k: int| 0 <= k < h implies s[k] == header[k] by {}
    assert forall|k: int| 0 <= k < f implies #[trigger] s[h + k] == fields[k] by {}
    assert(s[separator] == InstructionView::PushBytes(Seq::empty()));
    assert forall|k: int| 0 <= k < m implies #[trigger] s[separator + 1 + k]
        == InstructionView::PushBytes(chunks[k]) by {
        assert(pushes(chunks)[k] == InstructionView::PushBytes(chunks[k]));
    }
    if rest.len() > 0 {
        assert(s[end] == rest[0]);
    }
    assert(starts_envelope(s, 0));
    assert(s[2].is_push_of(protocol_tag()));
    let tagged = 3 < s.len() && s[3].is_push_of(format_marker());
    assert(tagged == (declared_tag is Some)) by {
        if declared_tag is None {
            if f > 0 {
                assert(s[h + 0] == fields[0]);
            } else {
                assert(format_marker().len() == 1);
            }
        }
    }
    assert forall|k: int| h <= k < separator implies !(#[trigger] s[k]).is_empty_push() by {
        assert(s[h + (k - h)] == fields[k - h]);
    }
    lemma_separator_found(s, h, separator);
    assert forall|k: int| separator + 1 <= k < end implies (#[trigger] s[k]) is PushBytes by {
        assert(s[separator + 1 + (k - separator - 1)] == InstructionView::PushBytes(
            chunks[k - separator - 1],
        ));
    }
    lemma_payload_end_found(s, separator + 1, end);
    assert(attempt_at(s, 0).found is None);
    assert(attempt_at(s, 0).resume == end);
    lemma_scan_shift(script, rest, 0);
}

/// Whether a well-formed envelope with this tag, these fields and these
/// chunks stands in the stream at position `i`.
pub open spec fn envelope_stands_at(
    s: Seq<InstructionView>,
    i: int,
    declared_tag: Option<Seq<u8>>,
    fields: Seq<InstructionView>,
    chunks: Seq<Seq<u8>>,
) -> bool {
    let script = envelope_script(declared_tag, fields, chunks);
    &&& passable_fields(declared_tag, fields)
    &&& 0 <= i
    &&& i + script.len() <= s.len()
    &&& s.subrange(i, i + script.len()) == script
}

/// Whether a record is that of a well-formed envelope that stands somewhere
/// in the stream: the envelope has the record's tag, and its chunks make up
/// the record's payload.
pub open spec fn is_record_of(s: Seq<InstructionView>, record: RawEnvelopeView) -> bool {
    exists|i: int, fields: Seq<InstructionView>, chunks: Seq<Seq<u8>>|
        #[trigger] envelope_stands_at(s, i, record.declared_tag, fields, chunks) && joined(chunks)
            == record.payload
}

/// Whether a well-formed envelope stands somewhere in the stream.
pub open spec fn holds_envelope(s: Seq<InstructionView>) -> bool {
    exists|
        i: int,
        declared_tag: Option<Seq<u8>>,
        fields: Seq<InstructionView>,
        chunks: Seq<Seq<u8>>,
    | #[trigger]
        envelope_stands_at(s, i, declared_tag, fields, chunks)
}

/// What an attempt finds is a well-formed envelope that stands at the start
/// marker.
pub proof fn lemma_attempt_finds_an_envelope(s: Seq<InstructionView>, i: int)
    requires
        starts_envelope(s, i),
        attempt_at(s, i).found is Some,
    ensures
        is_record_of(s, attempt_at(s, i).found->0),
{
    let record = attempt_at(s, i).found->0;
    let tagged = i + 3 < s.len() && s[i + 3].is_push_of(format_marker());
    let body = if tagged {
        i + 5
    } else {
        i + 3
    };
    lemma_separator_bounds(s, body);
    let separator = separator_at(s, body);
    lemma_payload_end_bounds(s, separator + 1);
    let end = payload_end(s, separator + 1);
    let declared_tag = record.declared_tag;
    let fields = s.subrange(body, separator);
    let chunks = Seq::new((end - separator - 1) as nat, |k: int| pushed_bytes(s[separator + 1 + k]));
    let script = envelope_script(declared_tag, fields, chunks);
    let h = body - i;
    assert(envelope_header(declared_tag).len() == h);
    assert(script.len() == end + 1 - i);
    assert forall|k: int| 0 <= k < chunks.len() implies #[trigger] s[separator + 1 + k]
        == InstructionView::PushBytes(chunks[k]) by {
        assert(s[separator + 1 + k] is PushBytes);
    }
    lemma_payload_joined(s, separator + 1, chunks);
    let empty = InstructionView::PushBytes(Seq::<u8>::empty());
    assert(s[i] == empty) by {
        assert(pushed_bytes(s[i]) =~= Seq::<u8>::empty());
    }
    assert(s[separator] == empty) by {
        assert(pushed_bytes(s[separator]) =~= Seq::<u8>::empty());
    }
    assert(s.subrange(i, i + script.len()) =~= script) by {
        assert forall|k: int| 0 <= k < script.len() implies s[i + k] == script[k] by {
            if k < h {
                assert(script[k] == envelope_header(declared_tag)[k]);
            } else if k < separator - i {
                assert(script[k] == fields[k - h]);
            } else if k == separator - i {
            } else if k < end - i {
                assert(script[k] == pushes(chunks)[k - (separator - i) - 1]);
                assert(s[separator + 1 + (k - (separator - i) - 1)] == InstructionView::PushBytes(
                    chunks[k - (separator - i) - 1],
                ));
            } else {
            }
        }
    }
    assert(passable_fields(declared_tag, fields)) by {
        assert forall|k: int| 0 <= k < fields.len() implies !(#[trigger] fields[k]).is_empty_push() by {
            assert(fields[k] == s[body + k]);
        }
        if declared_tag is None && fields.len() > 0 {
            assert(fields[0] == s[i + 3]);
        }
    }
    assert(envelope_stands_at(s, i, declared_tag, fields, chunks));
}

/// Every record that the scan returns is that of a well-formed envelope
/// that stands in the stream.
pub proof fn lemma_records_are_envelopes(s: Seq<InstructionView>, i: int)
    requires
        0 <= i,
    ensures
        forall|k: int|
            0 <= k < envelopes_from(s, i).len() ==> is_record_of(
                s,
                #[trigger] envelopes_from(s, i)[k],
            ),
    decreases s.len() - i,
{
    if i < s.len() {
        if !starts_envelope(s, i) {
            lemma_records_are_envelopes(s, i + 1);
            assert(envelopes_from(s, i) == envelopes_from(s, i + 1));
        } else {
            lemma_attempt_advances(s, i);
            let attempt = attempt_at(s, i);
            let rest = envelopes_from(s, attempt.resume);
            lemma_records_are_envelopes(s, attempt.resume);
            if attempt.found is None {
                assert(envelopes_from(s, i) == rest);
            }
            if attempt.found is Some {
                lemma_attempt_finds_an_envelope(s, i);
                let all = envelopes_from(s, i);
                assert(all == seq![attempt.found->0] + rest);
                assert forall|k: int| 0 <= k < all.len() implies is_record_of(
                    s,
                    #[trigger] all[k],
                ) by {
                    if k > 0 {
                        assert(all[k] == rest[k - 1]);
                    }
                }
            }
        }
    }
}

/// A stream in which no well-formed envelope stands gives no record: the
/// scan returns the empty list.
pub proof fn lemma_no_envelope_nothing_found(s: Seq<InstructionView>)
    requires
        !holds_envelope(s),
    ensures
        envelopes(s) == Seq::<RawEnvelopeView>::empty(),
{
    lemma_records_are_envelopes(s, 0);
    if envelopes(s).len() > 0 {
        assert(is_record_of(s, envelopes(s)[0]));
    }
    assert(envelopes(s) =~= Seq::<RawEnvelopeView>::empty());
}

/// A stream that is one well-formed envelope gives exactly one record, with
/// the declared tag and the payload that were put in.
pub proof fn lemma_single_envelope(
    declared_tag: Option<Seq<u8>>,
    fields: Seq<InstructionView>,
    chunks: Seq<Seq<u8>>,
)
    requires
        passable_fields(declared_tag, fields),
    ensures
        envelopes(envelope_script(declared_tag, fields, chunks)) == seq![
            RawEnvelopeView { declared_tag, payload: joined(chunks) },
        ],
{
    let script = envelope_script(declared_tag, fields, chunks);
    let none = Seq::<InstructionView>::empty();
    lemma_envelope_is_found(declared_tag, fields, chunks, none);
    assert(script + none =~= script);
    assert(envelopes(none) =~= Seq::<RawEnvelopeView>::empty());
    assert(seq![RawEnvelopeView { declared_tag, payload: joined(chunks) }] + envelopes(none)
        =~= seq![RawEnvelopeView { declared_tag, payload: joined(chunks) }]);
}

/// Two well-formed envelopes back to back give exactly two records, in the
/// order in which they stand, each with its own tag and payload.
pub proof fn lemma_two_envelopes(
    first_tag: Option<Seq<u8>>,
    first_fields: Seq<InstructionView>,
    first_chunks: Seq<Seq<u8>>,
    second_tag: Option<Seq<u8>>,
    second_fields: Seq<InstructionView>,
    second_chunks: Seq<Seq<u8>>,
)
    requires
        passable_fields(first_tag, first_fields),
        passable_fields(second_tag, second_fields),
    ensures
        envelopes(
            envelope_script(first_tag, first_fields, first_chunks) + envelope_script(
                second_tag,
                second_fields,
                second_chunks,
            ),
        ) == seq![
            RawEnvelopeView { declared_tag: first_tag, payload: joined(first_chunks) },
            RawEnvelopeView { declared_tag: second_tag, payload: joined(second_chunks) },
        ],
{
    let second = envelope_script(second_tag, second_fields, second_chunks);
    lemma_envelope_is_found(first_tag, first_fields, first_chunks, second);
    lemma_single_envelope(second_tag, second_fields, second_chunks);
    assert(seq![RawEnvelopeView { declared_tag: first_tag, payload: joined(first_chunks) }]
        + seq![RawEnvelopeView { declared_tag: second_tag, payload: joined(second_chunks) }]
        =~= seq![
        RawEnvelopeView { declared_tag: first_tag, payload: joined(first_chunks) },
        RawEnvelopeView { declared_tag: second_tag, payload: joined(second_chunks) },
    ]);
}

/// Instructions that hold no start marker, in front of a well-formed
/// envelope, do not keep the envelope from being found.
pub proof fn lemma_envelope_after_noise(
    noise: Seq<InstructionView>,
    declared_tag: Option<Seq<u8>>,
    fields: Seq<InstructionView>,
    chunks: Seq<Seq<u8>>,
)
    requires
        passable_fields(declared_tag, fields),
        forall|j: int|
            0 <= j < noise.len() ==> !starts_envelope(
                noise + envelope_script(declared_tag, fields, chunks),
                j,
            ),
    ensures
        envelopes(noise + envelope_script(declared_tag, fields, chunks)) == seq![
            RawEnvelopeView { declared_tag, payload: joined(chunks) },
        ],
{
    lemma_leading_noise_is_skipped(noise, envelope_script(declared_tag, fields, chunks));
    lemma_single_envelope(declared_tag, fields, chunks);
}

} // verus!
