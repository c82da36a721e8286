//! Scripts as sequences of instructions: opcodes and data pushes.

use vstd::prelude::*;
use vstd::slice::slice_to_vec;

use crate::error::ExtractError;

verus! {

/// Opcode byte of `OP_IF`, which opens a conditional branch.
pub const OP_IF: u8 = 0x63;

/// Opcode byte of `OP_ENDIF`, which closes a conditional branch.
pub const OP_ENDIF: u8 = 0x68;

/// One decoded element of a script.
#[derive(Debug, Clone, PartialEq, Eq)]
pub enum Instruction {
    /// A non-push opcode, by its byte.
    Op(u8),
    /// A data push, with the bytes it pushes.
    PushBytes(Vec<u8>),
}

/// The mathematical value of an [`Instruction`].
pub enum InstructionView {
    Op(u8),
    PushBytes(Seq<u8>),
}

impl DeepView for Instruction {
    type V = InstructionView;

    open spec fn deep_view(&self) -> InstructionView {
        match *self {
            Instruction::Op(code) => InstructionView::Op(code),
            Instruction::PushBytes(bytes) => InstructionView::PushBytes(bytes@),
        }
    }
}

impl InstructionView {
    /// A push of no bytes at all.
    pub open spec fn is_empty_push(self) -> bool {
        self matches InstructionView::PushBytes(bytes) && bytes.len() == 0
    }

    /// A push of exactly the bytes `expected`.
    pub open spec fn is_push_of(self, expected: Seq<u8>) -> bool {
        self matches InstructionView::PushBytes(bytes) && bytes == expected
    }

    /// The opcode `code`.
    pub open spec fn is_op(self, code: u8) -> bool {
        self == InstructionView::Op(code)
    }
}

/// What `bitcoin::Script::instructions` yields for the script bytes
/// `script`, item by item: an instruction, or `None` where the iterator
/// reports an error.
pub uninterp spec fn script_items(script: Seq<u8>) -> Seq<Option<InstructionView>>;

/// The instructions of decoded items, if every item is one. One item that
/// did not decode leaves none.
pub open spec fn all_items(items: Seq<Option<InstructionView>>) -> Option<Seq<InstructionView>> {
    if forall|k: int| 0 <= k < items.len() ==> (#[trigger] items[k]) is Some {
        Some(Seq::new(items.len(), |k: int| items[k]->0))
    } else {
        None
    }
}

/// The instructions of a script, if every item of it decodes. One item
/// that does not makes the whole script invalid.
pub open spec fn script_instructions(script: Seq<u8>) -> Option<Seq<InstructionView>> {
    all_items(script_items(script))
}

/// Runs `bitcoin::Script::instructions` over `script` and hands out what it
/// yields, item by item. The contract claims only that the items are a
/// function of the script bytes.
#[verifier::external_body]
fn read_items(script: &[u8]) -> (r: Vec<Option<Instruction>>)
    ensures
        r.deep_view() == script_items(script@),
{
    bitcoin::Script::from_bytes(script)
        .instructions()
        .map(|item| match item {
            Ok(bitcoin::script::Instruction::Op(op)) => Some(Instruction::Op(op.to_u8())),
            Ok(bitcoin::script::Instruction::PushBytes(bytes)) => {
                Some(Instruction::PushBytes(bytes.as_bytes().to_vec()))
            },
            Err(_) => None,
        })
        .collect()
}

/// Takes the instructions out of decoded items, all or nothing: one item
/// that did not decode makes the whole script malformed.
pub fn instructions_of(items: &Vec<Option<Instruction>>) -> (r: Result<
    Vec<Instruction>,
    ExtractError,
>)
    ensures
        match r {
            Ok(instructions) => all_items(items.deep_view()) == Some(instructions.deep_view()),
            Err(e) => e == ExtractError::MalformedScript && all_items(items.deep_view()) is None,
        },
{
    let ghost model = items.deep_view();
    let mut instructions: Vec<Instruction> = Vec::new();
    let n = items.len();
    let mut k: usize = 0;
    while k < n
        invariant
            k <= n,
            n == items.len(),
            items.deep_view() == model,
            instructions.len() == k,
            forall|j: int| 0 <= j < k ==> (#[trigger] model[j]) == Some(instructions[j].deep_view()),
        decreases n - k,
    {
        assert(items.deep_view()[k as int] == items[k as int].deep_view());
        match &items[k] {
            Some(Instruction::Op(code)) => {
                instructions.push(Instruction::Op(*code));
            },
            Some(Instruction::PushBytes(bytes)) => {
                instructions.push(Instruction::PushBytes(slice_to_vec(bytes.as_slice())));
            },
            None => {
                assert(model[k as int] is None);
                return Err(ExtractError::MalformedScript);
            },
        }
        k = k + 1;
    }
    assert(instructions.deep_view() =~= Seq::new(model.len(), |j: int| model[j]->0));
    Ok(instructions)
}

/// Decodes raw script bytes into instructions, all or nothing.
pub fn decode_script(script: &[u8]) -> (r: Result<Vec<Instruction>, ExtractError>)
    ensures
        match r {
            Ok(instructions) => script_instructions(script@) == Some(instructions.deep_view()),
            Err(e) => e == ExtractError::MalformedScript && script_instructions(script@) is None,
        },
{
    let items = read_items(script);
    instructions_of(&items)
}

} // verus!
