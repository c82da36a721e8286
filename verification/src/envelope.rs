//! The envelope grammar and the scanner that finds envelopes in a stream of
//! instructions.
//!
//! An envelope is the fragment
//!
//! ```text
//! <empty push> OP_IF "ord" [ <push of 0x01> <tag> ] ... <empty push> <chunk>* OP_ENDIF
//! ```
//!
//! The scanner walks the stream from the front. Where the next two
//! instructions are not a start marker it moves on by one instruction; where
//! they are, it tries the rest of the grammar and then goes on from the first
//! instruction that the attempt did not consume. An attempt consumes the
//! instruction at which it fails, but for the opcode that ends a payload
//! without being `OP_ENDIF`.

use vstd::prelude::*;
use vstd::slice::slice_to_vec;

use crate::script::{Instruction, InstructionView, OP_ENDIF, OP_IF};

verus! {

/// An envelope as it stands in the script: the declared tag, if the envelope
/// has one, and the payload, both as raw bytes.
#[derive(Debug, Clone, PartialEq, Eq)]
pub struct RawEnvelope {
    pub declared_tag: Option<Vec<u8>>,
    pub payload: Vec<u8>,
}

/// The mathematical value of a [`RawEnvelope`].
pub struct RawEnvelopeView {
    pub declared_tag: Option<Seq<u8>>,
    pub payload: Seq<u8>,
}

impl DeepView for RawEnvelope {
    type V = RawEnvelopeView;

    open spec fn deep_view(&self) -> RawEnvelopeView {
        RawEnvelopeView {
            declared_tag: match self.declared_tag {
                Some(tag) => Some(tag@),
                None => None,
            },
            payload: self.payload@,
        }
    }
}

/// The bytes of the protocol tag, the ASCII text `ord`.
pub open spec fn protocol_tag() -> Seq<u8> {
    seq![0x6fu8, 0x72u8, 0x64u8]
}

/// The bytes of the format marker: the number one as a one-byte push.
pub open spec fn format_marker() -> Seq<u8> {
    seq![1u8]
}

/// The bytes that an instruction adds to a payload: what it pushes.
pub open spec fn pushed_bytes(instruction: InstructionView) -> Seq<u8> {
    match instruction {
        InstructionView::PushBytes(bytes) => bytes,
        InstructionView::Op(_) => Seq::empty(),
    }
}

/// Whether the two instructions at `i` are a start marker: an empty push and
/// then `OP_IF`.
pub open spec fn starts_envelope(s: Seq<InstructionView>, i: int) -> bool {
    &&& 0 <= i
    &&& i + 1 < s.len()
    &&& s[i].is_empty_push()
    &&& s[i + 1].is_op(OP_IF)
}

/// The first position at or after `from` that holds an empty push, or the
/// length of the stream if there is none.
pub open spec fn separator_at(s: Seq<InstructionView>, from: int) -> int
    decreases s.len() - from,
{
    if from < 0 || from >= s.len() {
        s.len() as int
    } else if s[from].is_empty_push() {
        from
    } else {
        separator_at(s, from + 1)
    }
}

/// The first position at or after `from` that holds an opcode, or the length
/// of the stream if there is none.
pub open spec fn payload_end(s: Seq<InstructionView>, from: int) -> int
    decreases s.len() - from,
{
    if from < 0 || from >= s.len() {
        s.len() as int
    } else if s[from] is Op {
        from
    } else {
        payload_end(s, from + 1)
    }
}

/// What the instructions at `from`, ..., `to - 1` push, one after the other.
pub open spec fn payload_between(s: Seq<InstructionView>, from: int, to: int) -> Seq<u8>
    decreases to - from,
{
    if to <= from {
        Seq::empty()
    } else {
        payload_between(s, from, to - 1) + pushed_bytes(s[to - 1])
    }
}

/// The position after the instruction at `at`, or the end of the stream
/// where there is no such instruction.
pub open spec fn after(s: Seq<InstructionView>, at: int) -> int {
    if at < s.len() {
        at + 1
    } else {
        s.len() as int
    }
}

/// The outcome of trying the grammar at a start marker.
pub struct Attempt {
    /// The envelope, where the attempt succeeded.
    pub found: Option<RawEnvelopeView>,
    /// The position from which the scan goes on.
    pub resume: int,
}

/// Tries the grammar at the start marker that stands at `i`.
///
/// The instruction after the marker must push the protocol tag; if it does
/// not, the attempt ends and the scan goes on after that instruction. A push
/// of the format marker announces the declared tag, which must be a push; if
/// it is none, the scan goes on after it. Without the format marker the
/// envelope has no tag. Then everything up to the next empty push is passed
/// over, the pushes after it make up the payload, and the opcode that ends
/// them must be `OP_ENDIF`; any other opcode is where the scan goes on. An
/// attempt that runs out of instructions fails and leaves nothing to scan.
pub open spec fn attempt_at(s: Seq<InstructionView>, i: int) -> Attempt {
    if !(i + 2 < s.len() && s[i + 2].is_push_of(protocol_tag())) {
        Attempt { found: None, resume: after(s, i + 2) }
    } else {
        let tagged = i + 3 < s.len() && s[i + 3].is_push_of(format_marker());
        if tagged && !(i + 4 < s.len() && s[i + 4] is PushBytes) {
            Attempt { found: None, resume: after(s, i + 4) }
        } else {
            let declared_tag = if tagged {
                Some(pushed_bytes(s[i + 4]))
            } else {
                None
            };
            let body = if tagged {
                i + 5
            } else {
                i + 3
            };
            let separator = separator_at(s, body);
            let end = payload_end(s, separator + 1);
            if separator >= s.len() || end >= s.len() {
                Attempt { found: None, resume: s.len() as int }
            } else if !s[end].is_op(OP_ENDIF) {
                Attempt { found: None, resume: end }
            } else {
                Attempt {
                    found: Some(
                        RawEnvelopeView {
                            declared_tag,
                            payload: payload_between(s, separator + 1, end),
                        },
                    ),
                    resume: end + 1,
                }
            }
        }
    }
}

/// The envelopes that a scan of `s` from position `i` finds, in the order in
/// which it meets them.
pub open spec fn envelopes_from(s: Seq<InstructionView>, i: int) -> Seq<RawEnvelopeView>
    decreases s.len() - i,
{
    if i < 0 || i >= s.len() {
        Seq::empty()
    } else if !starts_envelope(s, i) {
        envelopes_from(s, i + 1)
    } else {
        let attempt = attempt_at(s, i);
        let rest = if attempt.resume > i {
            envelopes_from(s, attempt.resume)
        } else {
            Seq::empty()
        };
        match attempt.found {
            Some(envelope) => seq![envelope] + rest,
            None => rest,
        }
    }
}

/// The envelopes that a scan of the whole stream finds.
pub open spec fn envelopes(s: Seq<InstructionView>) -> Seq<RawEnvelopeView> {
    envelopes_from(s, 0)
}

/// The separator lies between the position the search starts from and the
/// end of the stream.
pub proof fn lemma_separator_bounds(s: Seq<InstructionView>, from: int)
    requires
        0 <= from <= s.len(),
    ensures
        from <= separator_at(s, from) <= s.len(),
        separator_at(s, from) < s.len() ==> s[separator_at(s, from)].is_empty_push(),
        forall|k: int| from <= k < separator_at(s, from) ==> !(#[trigger] s[k]).is_empty_push(),
    decreases s.len() - from,
{
    if from < s.len() && !s[from].is_empty_push() {
        lemma_separator_bounds(s, from + 1);
    }
}

/// The payload ends between the position it starts from and the end of the
/// stream, and everything before its end is a push.
pub proof fn lemma_payload_end_bounds(s: Seq<InstructionView>, from: int)
    requires
        0 <= from <= s.len(),
    ensures
        from <= payload_end(s, from) <= s.len(),
        payload_end(s, from) < s.len() ==> s[payload_end(s, from)] is Op,
        forall|k: int| from <= k < payload_end(s, from) ==> (#[trigger] s[k]) is PushBytes,
    decreases s.len() - from,
{
    if from < s.len() && !(s[from] is Op) {
        lemma_payload_end_bounds(s, from + 1);
    }
}

/// An attempt always moves the scan forward, and never past the end.
pub proof fn lemma_attempt_advances(s: Seq<InstructionView>, i: int)
    requires
        starts_envelope(s, i),
    ensures
        i + 2 <= attempt_at(s, i).resume <= s.len(),
{
    let tagged = i + 3 < s.len() && s[i + 3].is_push_of(format_marker());
    let body = if tagged {
        i + 5
    } else {
        i + 3
    };
    if body <= s.len() {
        lemma_separator_bounds(s, body);
        let separator = separator_at(s, body);
        if separator < s.len() {
            lemma_payload_end_bounds(s, separator + 1);
        }
    }
}

fn is_empty_push(instruction: &Instruction) -> (r: bool)
    ensures
        r == instruction.deep_view().is_empty_push(),
{
    match instruction {
        Instruction::PushBytes(bytes) => bytes.len() == 0,
        Instruction::Op(_) => false,
    }
}

fn is_op(instruction: &Instruction, code: u8) -> (r: bool)
    ensures
        r == instruction.deep_view().is_op(code),
{
    match instruction {
        Instruction::Op(found) => *found == code,
        Instruction::PushBytes(_) => false,
    }
}

fn is_protocol_tag(instruction: &Instruction) -> (r: bool)
    ensures
        r == instruction.deep_view().is_push_of(protocol_tag()),
{
    match instruction {
        Instruction::PushBytes(bytes) => {
            let r = bytes.len() == 3 && bytes[0] == 0x6f && bytes[1] == 0x72 && bytes[2] == 0x64;
            assert(r == (bytes@ =~= protocol_tag()));
            r
        },
        Instruction::Op(_) => false,
    }
}

fn is_format_marker(instruction: &Instruction) -> (r: bool)
    ensures
        r == instruction.deep_view().is_push_of(format_marker()),
{
    match instruction {
        Instruction::PushBytes(bytes) => {
            let r = bytes.len() == 1 && bytes[0] == 1;
            assert(r == (bytes@ =~= format_marker()));
            r
        },
        Instruction::Op(_) => false,
    }
}

/// Looks for the empty push that separates the header from the payload.
fn find_separator(instructions: &Vec<Instruction>, from: usize) -> (r: usize)
    requires
        from <= instructions.len(),
    ensures
        r == separator_at(instructions.deep_view(), from as int),
        from <= r <= instructions.len(),
{
    let ghost s = instructions.deep_view();
    let mut at: usize = from;
    while at < instructions.len() && !is_empty_push(&instructions[at])
        invariant
            from <= at <= instructions.len(),
            s == instructions.deep_view(),
            separator_at(s, at as int) == separator_at(s, from as int),
        decreases instructions.len() - at,
    {
        at = at + 1;
    }
    at
}

/// Gathers the pushes that follow the separator, up to the first opcode.
fn collect_payload(instructions: &Vec<Instruction>, from: usize) -> (r: (Vec<u8>, usize))
    requires
        from <= instructions.len(),
    ensures
        r.1 == payload_end(instructions.deep_view(), from as int),
        from <= r.1 <= instructions.len(),
        r.0@ == payload_between(instructions.deep_view(), from as int, r.1 as int),
{
    let ghost s = instructions.deep_view();
    let mut payload: Vec<u8> = Vec::new();
    let mut at: usize = from;
    while at < instructions.len()
        invariant
            from <= at <= instructions.len(),
            s == instructions.deep_view(),
            payload_end(s, at as int) == payload_end(s, from as int),
            payload@ == payload_between(s, from as int, at as int),
        ensures
            from <= at <= instructions.len(),
            at == payload_end(s, from as int),
            payload@ == payload_between(s, from as int, at as int),
        decreases instructions.len() - at,
    {
        match &instructions[at] {
            Instruction::PushBytes(bytes) => {
                let mut chunk = slice_to_vec(bytes.as_slice());
                payload.append(&mut chunk);
            },
            Instruction::Op(_) => {
                break ;
            },
        }
        at = at + 1;
    }
    (payload, at)
}

/// The position after `at` in a stream of `n` instructions, or `n` where
/// the stream ends before.
fn step_over(n: usize, at: usize) -> (r: usize)
    requires
        at <= n,
    ensures
        r == if at < n {
            at + 1
        } else {
            n as int
        },
{
    if at < n {
        at + 1
    } else {
        n
    }
}

/// Tries the grammar at the start marker that stands at `i`, and says what
/// was found and where the scan goes on.
fn attempt(instructions: &Vec<Instruction>, i: usize) -> (r: (Option<RawEnvelope>, usize))
    requires
        starts_envelope(instructions.deep_view(), i as int),
    ensures
        r.0.deep_view() == attempt_at(instructions.deep_view(), i as int).found,
        r.1 == attempt_at(instructions.deep_view(), i as int).resume,
        i < r.1 <= instructions.len(),
{
    let ghost s = instructions.deep_view();
    let n = instructions.len();
    proof {
        lemma_attempt_advances(s, i as int);
    }
    if !(i + 2 < n && is_protocol_tag(&instructions[i + 2])) {
        return (None, step_over(n, i + 2));
    }
    let tagged = i + 3 < n && is_format_marker(&instructions[i + 3]);
    let mut declared_tag: Option<Vec<u8>> = None;
    let mut body: usize = i + 3;
    if tagged {
        if i + 4 >= n {
            return (None, n);
        }
        match &instructions[i + 4] {
            Instruction::PushBytes(bytes) => {
                declared_tag = Some(slice_to_vec(bytes.as_slice()));
            },
            Instruction::Op(_) => {
                return (None, i + 5);
            },
        }
        body = i + 5;
    }
    let separator = find_separator(instructions, body);
    if separator >= n {
        return (None, n);
    }
    let (payload, end) = collect_payload(instructions, separator + 1);
    if end >= n {
        return (None, n);
    }
    if !is_op(&instructions[end], OP_ENDIF) {
        return (None, end);
    }
    (Some(RawEnvelope { declared_tag, payload }), end + 1)
}

/// Scans a stream of instructions and returns every envelope in it, in the
/// order in which they stand. A stream without envelopes gives an empty list:
/// that an instruction fits no envelope is never an error.
pub fn extract_envelopes(instructions: &Vec<Instruction>) -> (r: Vec<RawEnvelope>)
    ensures
        r.deep_view() == envelopes(instructions.deep_view()),
        r@.len() == envelopes(instructions.deep_view()).len(),
{
    let ghost s = instructions.deep_view();
    let n = instructions.len();
    let mut found: Vec<RawEnvelope> = Vec::new();
    let mut i: usize = 0;
    while i < n
        invariant
            i <= n,
            n == instructions.len(),
            s == instructions.deep_view(),
            found.deep_view() + envelopes_from(s, i as int) == envelopes(s),
        decreases n - i,
    {
        if i + 1 < n && is_empty_push(&instructions[i]) && is_op(&instructions[i + 1], OP_IF) {
            let ghost before = found.deep_view();
            let (envelope, resume) = attempt(instructions, i);
            match envelope {
                Some(envelope) => {
                    found.push(envelope);
                    assert(found.deep_view() =~= before + seq![envelope.deep_view()]);
                    assert(before + (seq![envelope.deep_view()] + envelopes_from(s, resume as int))
                        =~= found.deep_view() + envelopes_from(s, resume as int));
                },
                None => {},
            }
            i = resume;
        } else {
            i = i + 1;
        }
    }
    assert(found.deep_view() + envelopes_from(s, i as int) =~= found.deep_view());
    assert(found.deep_view().len() == found@.len());
    found
}

} // verus!
