//! Requests as they arrive: one opcode byte, then the payload.
//!
//! | opcode | operation | payload                                 |
//! |--------|-----------|-----------------------------------------|
//! | 0      | create    | title, body, id                         |
//! | 1      | update    | title, body, id                         |
//! | 2      | delete    | the id alone, eight little-endian bytes |
//!
//! Title and body are length-prefixed UTF-8. A payload must end where its
//! last field ends.

use crate::errors::NoteErrors;
use crate::wire::{
    encodable, fields_bytes, lemma_fields_bytes_of_parse, lemma_parse_fields_bytes, parse_fields,
    push_all, read_fields, write_fields, Fields,
};
use vstd::bytes::*;
use vstd::prelude::*;
use vstd::slice::*;

verus! {

/// A decoded request.
#[derive(Clone, Debug, PartialEq, Eq)]
pub enum NoteInstructions {
    CreateNote { title: String, body: String, id: u64 },
    UpdateNote { title: String, body: String, id: u64 },
    DeleteNode { id: u64 },
}

/// A request as plain values.
pub enum InstructionView {
    Create { title: Seq<char>, body: Seq<char>, id: u64 },
    Update { title: Seq<char>, body: Seq<char>, id: u64 },
    Delete { id: u64 },
}

impl View for NoteInstructions {
    type V = InstructionView;

    open spec fn view(&self) -> InstructionView {
        match self {
            NoteInstructions::CreateNote { title, body, id } => InstructionView::Create {
                title: title@,
                body: body@,
                id: *id,
            },
            NoteInstructions::UpdateNote { title, body, id } => InstructionView::Update {
                title: title@,
                body: body@,
                id: *id,
            },
            NoteInstructions::DeleteNode { id } => InstructionView::Delete { id: *id },
        }
    }
}

impl InstructionView {
    /// Both texts of the request, if it has any, fit their length prefixes.
    pub open spec fn encodable(self) -> bool {
        match self {
            InstructionView::Create { title, body, id } => encodable(title) && encodable(body),
            InstructionView::Update { title, body, id } => encodable(title) && encodable(body),
            InstructionView::Delete { id } => true,
        }
    }
}

/// A request on the wire: its opcode, then its payload.
pub open spec fn instruction_bytes(v: InstructionView) -> Seq<u8> {
    match v {
        InstructionView::Create { title, body, id } => seq![0u8] + fields_bytes(
            Fields { title, body, id },
        ),
        InstructionView::Update { title, body, id } => seq![1u8] + fields_bytes(
            Fields { title, body, id },
        ),
        InstructionView::Delete { id } => seq![2u8] + spec_u64_to_le_bytes(id),
    }
}

/// What a request's bytes mean.
///
/// A request without an opcode, or with one other than 0, 1 and 2, is
/// `InvalidOpcode`; a known opcode with a payload that is cut short, is not
/// UTF-8 where text is due, or is followed by more bytes, is
/// `MalformedPayload`.
pub open spec fn parse_instruction(b: Seq<u8>) -> Result<InstructionView, NoteErrors> {
    if b.len() == 0 || b[0] > 2 {
        Err(NoteErrors::InvalidOpcode)
    } else if b[0] == 2 {
        if b.len() == 9 {
            Ok(InstructionView::Delete { id: spec_u64_from_le_bytes(b.skip(1)) })
        } else {
            Err(NoteErrors::MalformedPayload)
        }
    } else {
        match parse_fields(b.skip(1)) {
            Some((f, n)) => if n != b.len() - 1 {
                Err(NoteErrors::MalformedPayload)
            } else if b[0] == 0 {
                Ok(InstructionView::Create { title: f.title, body: f.body, id: f.id })
            } else {
                Ok(InstructionView::Update { title: f.title, body: f.body, id: f.id })
            },
            None => Err(NoteErrors::MalformedPayload),
        }
    }
}

impl NoteInstructions {
    /// Encodes the request as `unpack` reads it. Fails with `InvalidLength`
    /// exactly where a text is too long for its four-byte length prefix.
    pub fn pack(&self) -> (r: Result<Vec<u8>, NoteErrors>)
        ensures
            self@.encodable() ==> (r matches Ok(bytes) && bytes@ == instruction_bytes(self@)),
            !self@.encodable() ==> r == Err::<Vec<u8>, NoteErrors>(NoteErrors::InvalidLength),
    {
        let mut out: Vec<u8> = Vec::new();
        match self {
            NoteInstructions::CreateNote { title, body, id } => {
                out.push(0u8);
                if !write_fields(&mut out, title, body, *id) {
                    return Err(NoteErrors::InvalidLength);
                }
            },
            NoteInstructions::UpdateNote { title, body, id } => {
                out.push(1u8);
                if !write_fields(&mut out, title, body, *id) {
                    return Err(NoteErrors::InvalidLength);
                }
            },
            NoteInstructions::DeleteNode { id } => {
                out.push(2u8);
                let word = u64_to_le_bytes(*id);
                push_all(&mut out, word.as_slice());
            },
        }
        assert(out@ =~= instruction_bytes(self@));
        Ok(out)
    }

    /// Decodes a request. Nothing but the syntax is looked at.
    pub fn unpack(instruction_data: &[u8]) -> (r: Result<NoteInstructions, NoteErrors>)
        ensures
            match parse_instruction(instruction_data@) {
                Ok(v) => r matches Ok(i) && i@ == v,
                Err(e) => r == Err::<NoteInstructions, NoteErrors>(e),
            },
    {
        if instruction_data.len() == 0 {
            return Err(NoteErrors::InvalidOpcode);
        }
        let variant = instruction_data[0];
        if variant > 2 {
            return Err(NoteErrors::InvalidOpcode);
        }
        if variant == 2 {
            if instruction_data.len() != 9 {
                return Err(NoteErrors::MalformedPayload);
            }
            let word = slice_subrange(instruction_data, 1, 9);
            assert(word@ =~= instruction_data@.skip(1));
            return Ok(NoteInstructions::DeleteNode { id: u64_from_le_bytes(word) });
        }
        match read_fields(instruction_data, 1) {
            Some((title, body, id, next)) => {
                if next != instruction_data.len() {
                    Err(NoteErrors::MalformedPayload)
                } else if variant == 0 {
                    Ok(NoteInstructions::CreateNote { title, body, id })
                } else {
                    Ok(NoteInstructions::UpdateNote { title, body, id })
                }
            },
            None => Err(NoteErrors::MalformedPayload),
        }
    }
}

/// A request that was encoded decodes to itself.
pub proof fn lemma_parse_instruction_bytes(v: InstructionView)
    requires
        v.encodable(),
    ensures
        parse_instruction(instruction_bytes(v)) == Ok::<InstructionView, NoteErrors>(v),
{
    let b = instruction_bytes(v);
    match v {
        InstructionView::Create { title, body, id } => {
            let f = Fields { title, body, id };
            lemma_parse_fields_bytes(f, Seq::empty());
            assert(b.skip(1) =~= fields_bytes(f) + Seq::<u8>::empty());
        },
        InstructionView::Update { title, body, id } => {
            let f = Fields { title, body, id };
            lemma_parse_fields_bytes(f, Seq::empty());
            assert(b.skip(1) =~= fields_bytes(f) + Seq::<u8>::empty());
        },
        InstructionView::Delete { id } => {
            lemma_auto_spec_u64_to_from_le_bytes();
            assert(b.skip(1) =~= spec_u64_to_le_bytes(id));
        },
    }
}

/// A request that decodes is, byte for byte, the encoding of what it decodes
/// to: no request has two spellings.
pub proof fn lemma_instruction_bytes_of_parse(b: Seq<u8>)
    requires
        parse_instruction(b) is Ok,
    ensures
        parse_instruction(b)->Ok_0.encodable(),
        instruction_bytes(parse_instruction(b)->Ok_0) == b,
{
    let v = parse_instruction(b)->Ok_0;
    if b[0] == 2 {
        lemma_auto_spec_u64_to_from_le_bytes();
        let word = b.skip(1);
        assert(spec_u64_to_le_bytes(spec_u64_from_le_bytes(word)) == word);
        assert(instruction_bytes(v) =~= b);
    } else {
        lemma_fields_bytes_of_parse(b.skip(1));
        assert(b.skip(1).subrange(0, b.len() - 1) =~= b.skip(1));
        assert(instruction_bytes(v) =~= b);
    }
}

} // verus!
