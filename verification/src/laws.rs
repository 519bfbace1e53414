//! What holds of the rules and the formats as a whole, proved from their
//! definitions.

use crate::address::{bound_to, derivation_view, note_address, Address};
use crate::errors::NoteErrors;
use crate::instructions::{
    instruction_bytes, lemma_instruction_bytes_of_parse, lemma_parse_instruction_bytes,
    parse_instruction, InstructionView,
};
use crate::processor::{
    access_denied, create_outcome, delete_outcome, store_outcome, update_outcome, AccountView,
    Allocation,
};
use crate::state::{
    lemma_note_bytes_of_parse, lemma_parse_note_bytes, note_bytes, parse_note, parse_note_exact,
    NoteView, NOTE_SPACE,
};
use crate::wire::{
    fields_bytes, lemma_encoded_len, lemma_fields_bytes_of_parse, lemma_parse_fields_bytes,
    parse_fields, Fields,
};
use vstd::prelude::*;
use vstd::utf8::{is_ascii_chars, is_ascii_chars_encode_utf8};

verus! {

/// Deriving is deterministic: any two results that `find_note_address` gives
/// for the same owner, id and program hold the same address and the same
/// salt.
pub proof fn law_derivation_deterministic(
    first: Option<(Address, u8)>,
    second: Option<(Address, u8)>,
    owner: Seq<u8>,
    id: u64,
    program: Seq<u8>,
)
    requires
        derivation_view(first) == note_address(owner, id, program),
        derivation_view(second) == note_address(owner, id, program),
    ensures
        derivation_view(first) == derivation_view(second),
        first matches Some((a, s)) ==> (second matches Some((b, t)) && a@ == b@ && s == t),
{
}

/// Without the authority's signature, update and delete are refused with
/// `MissingAuthorization`, whatever else holds of the request.
pub proof fn law_signature_required(
    program: Seq<u8>,
    derived: Option<(Seq<u8>, u8)>,
    authority: AccountView,
    slot: AccountView,
    title: Seq<char>,
    body: Seq<char>,
    id: u64,
)
    requires
        !authority.is_signer,
    ensures
        update_outcome(program, derived, authority, slot, title, body, id) == Err::<
            AccountView,
            NoteErrors,
        >(NoteErrors::MissingAuthorization),
        delete_outcome(program, derived, authority, slot) == Err::<
            (AccountView, AccountView),
            NoteErrors,
        >(NoteErrors::MissingAuthorization),
{
}

/// A signed update or delete on a slot that is tagged with another program
/// is refused with `InvalidNoteAccount`, whatever the slot's address.
pub proof fn law_foreign_slot_rejected(
    program: Seq<u8>,
    derived: Option<(Seq<u8>, u8)>,
    authority: AccountView,
    slot: AccountView,
    title: Seq<char>,
    body: Seq<char>,
    id: u64,
)
    requires
        authority.is_signer,
        slot.owner != program,
    ensures
        update_outcome(program, derived, authority, slot, title, body, id) == Err::<
            AccountView,
            NoteErrors,
        >(NoteErrors::InvalidNoteAccount),
        delete_outcome(program, derived, authority, slot) == Err::<
            (AccountView, AccountView),
            NoteErrors,
        >(NoteErrors::InvalidNoteAccount),
{
}

/// A create request for a slot other than the derived one is refused with
/// `AddressMismatch`, whatever else holds of the request.
pub proof fn law_create_bound_to_address(
    derived: Option<(Seq<u8>, u8)>,
    slot: AccountView,
    title: Seq<char>,
    body: Seq<char>,
)
    requires
        !bound_to(derived, slot.key),
    ensures
        create_outcome(derived, slot, title, body) == Err::<Allocation, NoteErrors>(
            NoteErrors::AddressMismatch,
        ),
{
}

/// An update or delete that passes the checks of signature and owner tag,
/// for a slot other than the derived one, is refused with `AddressMismatch`.
pub proof fn law_change_bound_to_address(
    program: Seq<u8>,
    derived: Option<(Seq<u8>, u8)>,
    authority: AccountView,
    slot: AccountView,
    title: Seq<char>,
    body: Seq<char>,
    id: u64,
)
    requires
        access_denied(program, authority, slot) is None,
        !bound_to(derived, slot.key),
    ensures
        update_outcome(program, derived, authority, slot, title, body, id) == Err::<
            AccountView,
            NoteErrors,
        >(NoteErrors::AddressMismatch),
        delete_outcome(program, derived, authority, slot) == Err::<
            (AccountView, AccountView),
            NoteErrors,
        >(NoteErrors::AddressMismatch),
{
}

/// Two addresses that differ in a single byte are not the same address, so
/// a derivation is bound to at most one of them.
pub proof fn law_binding_is_exact(derived: Option<(Seq<u8>, u8)>, a: Seq<u8>, b: Seq<u8>, i: int)
    requires
        a.len() == b.len(),
        0 <= i < a.len(),
        a[i] != b[i],
    ensures
        !(bound_to(derived, a) && bound_to(derived, b)),
{
}

/// A note that is written and read back is the same note, field by field,
/// for every id and for all texts within the schema's bounds (and beyond
/// them, as long as a text's length fits its prefix).
pub proof fn law_note_round_trip(n: NoteView)
    requires
        n.within_bounds() || n.encodable(),
    ensures
        n.encodable(),
        parse_note_exact(note_bytes(n)) == Some(n),
{
    lemma_encoded_len(n.title);
    lemma_encoded_len(n.body);
    lemma_parse_note_bytes(n, Seq::empty());
    assert(note_bytes(n) + Seq::<u8>::empty() =~= note_bytes(n));
}

/// Bytes that read as a note are the bytes that writing this note gives: a
/// note has one spelling only, so reading and writing agree in both
/// directions.
pub proof fn law_note_has_one_spelling(b: Seq<u8>)
    requires
        parse_note_exact(b) is Some,
    ensures
        parse_note_exact(b)->Some_0.encodable(),
        note_bytes(parse_note_exact(b)->Some_0) == b,
{
    lemma_note_bytes_of_parse(b);
    assert(b.subrange(0, b.len() as int) =~= b);
}

/// A request that is encoded and decoded is the same request.
pub proof fn law_instruction_round_trip(v: InstructionView)
    requires
        v.encodable(),
    ensures
        parse_instruction(instruction_bytes(v)) == Ok::<InstructionView, NoteErrors>(v),
{
    lemma_parse_instruction_bytes(v);
}

/// Bytes that decode as a request are the bytes that encoding this request
/// gives.
pub proof fn law_instruction_has_one_spelling(b: Seq<u8>)
    requires
        parse_instruction(b) is Ok,
    ensures
        instruction_bytes(parse_instruction(b)->Ok_0) == b,
{
    lemma_instruction_bytes_of_parse(b);
}

/// A request whose first byte is no opcode is refused with `InvalidOpcode`,
/// whatever follows.
pub proof fn law_unknown_opcode_rejected(b: Seq<u8>)
    requires
        b.len() > 0,
        b[0] > 2,
    ensures
        parse_instruction(b) == Err::<InstructionView, NoteErrors>(NoteErrors::InvalidOpcode),
{
}

/// The three fields are self-delimiting: where they read back from a cut of
/// their own wire form, nothing was cut off.
proof fn lemma_fields_cut(f: Fields, k: int)
    requires
        f.encodable(),
        0 <= k <= fields_bytes(f).len(),
        parse_fields(fields_bytes(f).subrange(0, k)) matches Some((g, n)) && n == k,
    ensures
        k == fields_bytes(f).len(),
{
    let full = fields_bytes(f);
    let cut = full.subrange(0, k);
    let (g, n) = parse_fields(cut)->Some_0;
    lemma_fields_bytes_of_parse(cut);
    assert(cut.subrange(0, n) =~= cut);
    let rest = full.skip(k);
    lemma_parse_fields_bytes(g, rest);
    assert(fields_bytes(g) + rest =~= full);
    lemma_parse_fields_bytes(f, Seq::empty());
    assert(full + Seq::<u8>::empty() =~= full);
}

/// A request that was cut short after its opcode is refused with
/// `MalformedPayload`, wherever the cut falls.
pub proof fn law_truncated_request_rejected(v: InstructionView, k: int)
    requires
        v.encodable(),
        1 <= k < instruction_bytes(v).len(),
    ensures
        parse_instruction(instruction_bytes(v).subrange(0, k)) == Err::<
            InstructionView,
            NoteErrors,
        >(NoteErrors::MalformedPayload),
{
    let b = instruction_bytes(v);
    let cut = b.subrange(0, k);
    match v {
        InstructionView::Create { title, body, id } => {
            let f = Fields { title, body, id };
            assert(cut.skip(1) =~= fields_bytes(f).subrange(0, k - 1));
            if parse_fields(cut.skip(1)) matches Some((g, n)) && n == k - 1 {
                lemma_fields_cut(f, k - 1);
            }
        },
        InstructionView::Update { title, body, id } => {
            let f = Fields { title, body, id };
            assert(cut.skip(1) =~= fields_bytes(f).subrange(0, k - 1));
            if parse_fields(cut.skip(1)) matches Some((g, n)) && n == k - 1 {
                lemma_fields_cut(f, k - 1);
            }
        },
        InstructionView::Delete { id } => {
            vstd::bytes::lemma_auto_spec_u64_to_from_le_bytes();
        },
    }
}

/// After a note was stored, the slot reads back as that note, initialized,
/// whatever the slot held before and however long it is; owner, address and
/// balance of the slot are untouched and its size is the same.
pub proof fn law_stored_note_reads_back(
    slot: AccountView,
    title: Seq<char>,
    body: Seq<char>,
    id: u64,
)
    requires
        store_outcome(slot, title, body, id) is Ok,
    ensures
        ({
            let after = store_outcome(slot, title, body, id)->Ok_0;
            let note = NoteView::written(title, body, id);
            &&& parse_note(after.data) == Some((note, note_bytes(note).len() as int))
            &&& after.data.len() == slot.data.len()
            &&& after.key == slot.key
            &&& after.owner == slot.owner
            &&& after.lamports == slot.lamports
        }),
{
    let note = NoteView::written(title, body, id);
    lemma_encoded_len(title);
    lemma_encoded_len(body);
    lemma_parse_note_bytes(note, slot.data.skip(note_bytes(note).len() as int));
}

/// A note within the bounds whose characters take one byte each fits a slot
/// of `NOTE_SPACE` bytes: storing it there is never refused.
pub proof fn law_plain_note_fits(slot: AccountView, title: Seq<char>, body: Seq<char>, id: u64)
    requires
        NoteView::written(title, body, id).within_bounds(),
        is_ascii_chars(title),
        is_ascii_chars(body),
        slot.data.len() >= NOTE_SPACE,
    ensures
        note_bytes(NoteView::written(title, body, id)).len() <= NOTE_SPACE,
        store_outcome(slot, title, body, id) is Ok,
{
    is_ascii_chars_encode_utf8(title);
    is_ascii_chars_encode_utf8(body);
    lemma_parse_note_bytes(NoteView::written(title, body, id), Seq::empty());
}

/// A delete by the rightful owner empties the slot's balance and raises the
/// owner's by exactly what the slot held; nothing else changes.
pub proof fn law_delete_reclaims_balance(
    program: Seq<u8>,
    derived: Option<(Seq<u8>, u8)>,
    authority: AccountView,
    slot: AccountView,
)
    requires
        authority.is_signer,
        slot.owner == program,
        bound_to(derived, slot.key),
        authority.lamports + slot.lamports <= u64::MAX,
    ensures
        delete_outcome(program, derived, authority, slot) matches Ok((authority_after, slot_after))
            && slot_after.lamports == 0 && authority_after.lamports == authority.lamports
            + slot.lamports && slot_after.data == slot.data && slot_after.key == slot.key
            && slot_after.owner == slot.owner && authority_after.key == authority.key
            && authority_after.data == authority.data,
{
}

/// No balance is made or lost by a delete, accepted or not.
pub proof fn law_delete_conserves_balance(
    program: Seq<u8>,
    derived: Option<(Seq<u8>, u8)>,
    authority: AccountView,
    slot: AccountView,
)
    ensures
        delete_outcome(program, derived, authority, slot) matches Ok((authority_after, slot_after))
            ==> authority_after.lamports + slot_after.lamports == authority.lamports
            + slot.lamports,
{
}

} // verus!
