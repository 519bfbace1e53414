//! The rules that guard a note's slot.
//!
//! A request names an authority (the owner of the note, who pays for a new
//! slot and receives the balance of a deleted one) and a slot. Update and
//! delete look at the request in a fixed order: the authority must have
//! signed, the slot must be tagged with this program, and the slot's address
//! must be the one derived from authority and id. Create binds the address,
//! checks the lengths and then asks for the slot to be allocated; the note is
//! written once the runtime has done so.
//!
//! A request that is turned down changes nothing.

use crate::address::{bound_to, derivation_view, find_note_address, note_address, Address};
use crate::errors::NoteErrors;
use crate::instructions::{parse_instruction, InstructionView, NoteInstructions};
use crate::state::{note_bytes, NoteState, NoteView, NOTE_SPACE};
use crate::wire::lemma_encoded_len;
use vstd::prelude::*;

verus! {

/// What the rules see of an account of the runtime.
#[derive(Clone, Debug, PartialEq, Eq)]
pub struct Account {
    /// The account's address.
    pub key: Address,
    /// The program that may write to the account.
    pub owner: Address,
    /// Whether the account signed the request.
    pub is_signer: bool,
    /// The balance the account holds.
    pub lamports: u64,
    /// The account's bytes.
    pub data: Vec<u8>,
}

/// An account as plain values.
pub struct AccountView {
    pub key: Seq<u8>,
    pub owner: Seq<u8>,
    pub is_signer: bool,
    pub lamports: u64,
    pub data: Seq<u8>,
}

impl View for Account {
    type V = AccountView;

    open spec fn view(&self) -> AccountView {
        AccountView {
            key: self.key@,
            owner: self.owner@,
            is_signer: self.is_signer,
            lamports: self.lamports,
            data: self.data@,
        }
    }
}

/// What the runtime is asked to allocate for a new note.
#[derive(Clone, Copy, Debug, PartialEq, Eq)]
pub struct Allocation {
    /// The size of the slot in bytes.
    pub space: u64,
    /// The salt with which the slot's address was derived; the runtime needs
    /// it to sign for the slot.
    pub bump_seed: u8,
}

/// What a request that was accepted leaves to do.
#[derive(Clone, Debug, PartialEq, Eq)]
pub enum Outcome {
    /// The slot is to be allocated, and `note` stored in it with
    /// [`finish_create`] afterwards.
    Allocate { allocation: Allocation, note: NoteState },
    /// The note was rewritten.
    Updated,
    /// The slot was emptied of its balance.
    Deleted,
}

/// The first reason, if any, for which `authority` may not touch `slot`.
pub open spec fn access_denied(program: Seq<u8>, authority: AccountView, slot: AccountView) -> Option<
    NoteErrors,
> {
    if !authority.is_signer {
        Some(NoteErrors::MissingAuthorization)
    } else if slot.owner != program {
        Some(NoteErrors::InvalidNoteAccount)
    } else {
        None
    }
}

/// The slot's bytes after `bytes` were written over their front.
pub open spec fn overwritten(data: Seq<u8>, bytes: Seq<u8>) -> Seq<u8> {
    bytes + data.skip(bytes.len() as int)
}

/// Storing a note in a slot: the slot afterwards, or why the note is refused.
pub open spec fn store_outcome(slot: AccountView, title: Seq<char>, body: Seq<char>, id: u64) -> Result<
    AccountView,
    NoteErrors,
> {
    let note = NoteView::written(title, body, id);
    if !note.within_bounds() {
        Err(NoteErrors::InvalidLength)
    } else if note_bytes(note).len() > slot.data.len() {
        Err(NoteErrors::AccountDataTooSmall)
    } else {
        Ok(AccountView { data: overwritten(slot.data, note_bytes(note)), ..slot })
    }
}

/// A create request, given the derivation `derived` for its authority and
/// id: what is to be allocated, or why the request is refused.
pub open spec fn create_outcome(
    derived: Option<(Seq<u8>, u8)>,
    slot: AccountView,
    title: Seq<char>,
    body: Seq<char>,
) -> Result<Allocation, NoteErrors> {
    if !bound_to(derived, slot.key) {
        Err(NoteErrors::AddressMismatch)
    } else if !NoteView::written(title, body, 0).within_bounds() {
        Err(NoteErrors::InvalidLength)
    } else {
        Ok(Allocation { space: NOTE_SPACE as u64, bump_seed: derived->Some_0.1 })
    }
}

/// The second half of a create request: `allocated` says whether the
/// runtime has made the slot. Where it has, the note is stored; where it has
/// not, the request ends with `AllocationFailure` and the slot as it was.
pub open spec fn finish_outcome(slot: AccountView, note: NoteView, allocated: bool) -> Result<
    AccountView,
    NoteErrors,
> {
    if !allocated {
        Err(NoteErrors::AllocationFailure)
    } else {
        store_outcome(slot, note.title, note.body, note.id)
    }
}

/// An update request, given the derivation `derived` for its authority and
/// id: the slot afterwards, or why the request is refused.
pub open spec fn update_outcome(
    program: Seq<u8>,
    derived: Option<(Seq<u8>, u8)>,
    authority: AccountView,
    slot: AccountView,
    title: Seq<char>,
    body: Seq<char>,
    id: u64,
) -> Result<AccountView, NoteErrors> {
    match access_denied(program, authority, slot) {
        Some(e) => Err(e),
        None => if !bound_to(derived, slot.key) {
            Err(NoteErrors::AddressMismatch)
        } else {
            store_outcome(slot, title, body, id)
        },
    }
}

/// A delete request, given the derivation `derived` for its authority and
/// id: authority and slot afterwards, or why the request is refused.
pub open spec fn delete_outcome(
    program: Seq<u8>,
    derived: Option<(Seq<u8>, u8)>,
    authority: AccountView,
    slot: AccountView,
) -> Result<(AccountView, AccountView), NoteErrors> {
    match access_denied(program, authority, slot) {
        Some(e) => Err(e),
        None => if !bound_to(derived, slot.key) {
            Err(NoteErrors::AddressMismatch)
        } else if authority.lamports + slot.lamports > u64::MAX {
            Err(NoteErrors::BalanceOverflow)
        } else {
            Ok(
                (
                    AccountView {
                        lamports: (authority.lamports + slot.lamports) as u64,
                        ..authority
                    },
                    AccountView { lamports: 0, ..slot },
                ),
            )
        },
    }
}

/// Checks signature and owner tag, in this order.
pub fn check_access(program_id: &Address, authority: &Account, slot: &Account) -> (r: Result<
    (),
    NoteErrors,
>)
    ensures
        match access_denied(program_id@, authority@, slot@) {
            Some(e) => r == Err::<(), NoteErrors>(e),
            None => r is Ok,
        },
{
    if !authority.is_signer {
        Err(NoteErrors::MissingAuthorization)
    } else if !slot.owner.same_as(program_id) {
        Err(NoteErrors::InvalidNoteAccount)
    } else {
        Ok(())
    }
}

/// The salt of the derivation, where it found the address `claimed`.
pub fn check_binding(derived: &Option<(Address, u8)>, claimed: &Address) -> (r: Result<
    u8,
    NoteErrors,
>)
    ensures
        bound_to(derivation_view(*derived), claimed@) ==> r == Ok::<u8, NoteErrors>(
            derivation_view(*derived)->Some_0.1,
        ),
        !bound_to(derivation_view(*derived), claimed@) ==> r == Err::<u8, NoteErrors>(
            NoteErrors::AddressMismatch,
        ),
{
    match derived {
        Some((found, salt)) => {
            if found.same_as(claimed) {
                Ok(*salt)
            } else {
                Err(NoteErrors::AddressMismatch)
            }
        },
        None => Err(NoteErrors::AddressMismatch),
    }
}

/// Writes the note over the front of the slot's bytes and marks it as
/// initialized. The slot keeps its size: bytes behind the note stay as they
/// were, and a note that does not fit is refused.
pub fn store_note(slot: &mut Account, title: String, body: String, id: u64) -> (r: Result<
    (),
    NoteErrors,
>)
    ensures
        match store_outcome(old(slot)@, title@, body@, id) {
            Ok(after) => r is Ok && final(slot)@ == after,
            Err(e) => r == Err::<(), NoteErrors>(e) && final(slot)@ == old(slot)@,
        },
{
    if !NoteState::within_bounds(&title, &body) {
        return Err(NoteErrors::InvalidLength);
    }
    proof {
        lemma_encoded_len(title@);
        lemma_encoded_len(body@);
    }
    // What the slot holds is the base of the new note; a slot that holds no
    // note starts from the empty one.
    let mut note = match NoteState::try_from_slice(slot.data.as_slice()) {
        Ok(stored) => stored,
        Err(_) => NoteState::default(),
    };
    note.title = title;
    note.body = body;
    note.id = id;
    note.is_initialized = true;
    let mut bytes = match note.serialize() {
        Ok(bytes) => bytes,
        Err(e) => { return Err(e); },
    };
    if bytes.len() > slot.data.len() {
        return Err(NoteErrors::AccountDataTooSmall);
    }
    let ghost encoded = bytes@;
    let mut i: usize = bytes.len();
    while i < slot.data.len()
        invariant
            encoded.len() <= i <= slot.data@.len(),
            bytes@ == encoded + slot.data@.subrange(encoded.len() as int, i as int),
            *slot == *old(slot),
        decreases slot.data@.len() - i,
    {
        bytes.push(slot.data[i]);
        i += 1;
        assert(bytes@ =~= encoded + slot.data@.subrange(encoded.len() as int, i as int));
    }
    assert(bytes@ =~= overwritten(slot.data@, encoded));
    slot.data = bytes;
    Ok(())
}

/// Ends a create request after the runtime was asked to allocate the slot.
pub fn finish_create(slot: &mut Account, note: NoteState, allocated: bool) -> (r: Result<
    (),
    NoteErrors,
>)
    ensures
        match finish_outcome(old(slot)@, note@, allocated) {
            Ok(after) => r is Ok && final(slot)@ == after,
            Err(e) => r == Err::<(), NoteErrors>(e) && final(slot)@ == old(slot)@,
        },
{
    if !allocated {
        return Err(NoteErrors::AllocationFailure);
    }
    store_note(slot, note.title, note.body, note.id)
}

/// Decides a create request once the address has been derived.
pub fn create_with(derived: &Option<(Address, u8)>, slot: &Account, title: &String, body: &String) -> (r:
    Result<Allocation, NoteErrors>)
    ensures
        r == create_outcome(derivation_view(*derived), slot@, title@, body@),
{
    let bump_seed = match check_binding(derived, &slot.key) {
        Ok(salt) => salt,
        Err(e) => { return Err(e); },
    };
    if !NoteState::within_bounds(title, body) {
        return Err(NoteErrors::InvalidLength);
    }
    Ok(Allocation { space: NOTE_SPACE as u64, bump_seed })
}

/// Carries out an update request once the address has been derived.
pub fn update_with(
    program_id: &Address,
    derived: &Option<(Address, u8)>,
    authority: &Account,
    slot: &mut Account,
    title: String,
    body: String,
    id: u64,
) -> (r: Result<(), NoteErrors>)
    ensures
        match update_outcome(
            program_id@,
            derivation_view(*derived),
            authority@,
            old(slot)@,
            title@,
            body@,
            id,
        ) {
            Ok(after) => r is Ok && final(slot)@ == after,
            Err(e) => r == Err::<(), NoteErrors>(e) && final(slot)@ == old(slot)@,
        },
{
    match check_access(program_id, authority, slot) {
        Ok(_) => {},
        Err(e) => { return Err(e); },
    }
    match check_binding(derived, &slot.key) {
        Ok(_) => {},
        Err(e) => { return Err(e); },
    }
    store_note(slot, title, body, id)
}

/// Carries out a delete request once the address has been derived: the
/// slot's whole balance goes to the authority.
pub fn delete_with(
    program_id: &Address,
    derived: &Option<(Address, u8)>,
    authority: &mut Account,
    slot: &mut Account,
) -> (r: Result<(), NoteErrors>)
    ensures
        match delete_outcome(program_id@, derivation_view(*derived), old(authority)@, old(slot)@) {
            Ok((authority_after, slot_after)) => r is Ok && final(authority)@ == authority_after
                && final(slot)@ == slot_after,
            Err(e) => r == Err::<(), NoteErrors>(e) && final(authority)@ == old(authority)@
                && final(slot)@ == old(slot)@,
        },
{
    match check_access(program_id, authority, slot) {
        Ok(_) => {},
        Err(e) => { return Err(e); },
    }
    match check_binding(derived, &slot.key) {
        Ok(_) => {},
        Err(e) => { return Err(e); },
    }
    match authority.lamports.checked_add(slot.lamports) {
        Some(total) => {
            authority.lamports = total;
            slot.lamports = 0;
            Ok(())
        },
        None => Err(NoteErrors::BalanceOverflow),
    }
}

/// Decides a create request: derives the address for `authority` and `id`
/// and says what is to be allocated.
pub fn create_note(
    program_id: &Address,
    authority: &Account,
    slot: &Account,
    title: &String,
    body: &String,
    id: u64,
) -> (r: Result<Allocation, NoteErrors>)
    ensures
        r == create_outcome(note_address(authority@.key, id, program_id@), slot@, title@, body@),
{
    let derived = find_note_address(&authority.key, id, program_id);
    create_with(&derived, slot, title, body)
}

/// Carries out an update request.
pub fn update_note(
    program_id: &Address,
    authority: &Account,
    slot: &mut Account,
    title: String,
    body: String,
    id: u64,
) -> (r: Result<(), NoteErrors>)
    ensures
        match update_outcome(
            program_id@,
            note_address(authority@.key, id, program_id@),
            authority@,
            old(slot)@,
            title@,
            body@,
            id,
        ) {
            Ok(after) => r is Ok && final(slot)@ == after,
            Err(e) => r == Err::<(), NoteErrors>(e) && final(slot)@ == old(slot)@,
        },
{
    let derived = find_note_address(&authority.key, id, program_id);
    update_with(program_id, &derived, authority, slot, title, body, id)
}

/// Carries out a delete request.
pub fn delete_note(program_id: &Address, authority: &mut Account, slot: &mut Account, id: u64) -> (r:
    Result<(), NoteErrors>)
    ensures
        match delete_outcome(
            program_id@,
            note_address(old(authority)@.key, id, program_id@),
            old(authority)@,
            old(slot)@,
        ) {
            Ok((authority_after, slot_after)) => r is Ok && final(authority)@ == authority_after
                && final(slot)@ == slot_after,
            Err(e) => r == Err::<(), NoteErrors>(e) && final(authority)@ == old(authority)@
                && final(slot)@ == old(slot)@,
        },
{
    let derived = find_note_address(&authority.key, id, program_id);
    delete_with(program_id, &derived, authority, slot)
}

/// What the request `v` does to authority and slot, and what it answers.
pub open spec fn handled(
    program: Seq<u8>,
    v: InstructionView,
    authority: AccountView,
    slot: AccountView,
    r: Result<Outcome, NoteErrors>,
    authority_after: AccountView,
    slot_after: AccountView,
) -> bool {
    match v {
        InstructionView::Create { title, body, id } => {
            &&& authority_after == authority
            &&& slot_after == slot
            &&& match create_outcome(note_address(authority.key, id, program), slot, title, body) {
                Ok(a) => r matches Ok(Outcome::Allocate { allocation, note }) && allocation == a
                    && note@ == NoteView::written(title, body, id),
                Err(e) => r == Err::<Outcome, NoteErrors>(e),
            }
        },
        InstructionView::Update { title, body, id } => {
            &&& authority_after == authority
            &&& match update_outcome(
                program,
                note_address(authority.key, id, program),
                authority,
                slot,
                title,
                body,
                id,
            ) {
                Ok(after) => r == Ok::<Outcome, NoteErrors>(Outcome::Updated) && slot_after == after,
                Err(e) => r == Err::<Outcome, NoteErrors>(e) && slot_after == slot,
            }
        },
        InstructionView::Delete { id } => match delete_outcome(
            program,
            note_address(authority.key, id, program),
            authority,
            slot,
        ) {
            Ok((a, s)) => r == Ok::<Outcome, NoteErrors>(Outcome::Deleted) && authority_after == a
                && slot_after == s,
            Err(e) => r == Err::<Outcome, NoteErrors>(e) && authority_after == authority
                && slot_after == slot,
        },
    }
}

/// Decodes a request and carries it out on `authority` and `slot`.
///
/// A create request is only decided here: the answer says what to allocate
/// and which note to store in the slot afterwards.
pub fn processor(
    program_id: &Address,
    authority: &mut Account,
    slot: &mut Account,
    instruction_data: &[u8],
) -> (r: Result<Outcome, NoteErrors>)
    ensures
        match parse_instruction(instruction_data@) {
            Ok(v) => handled(
                program_id@,
                v,
                old(authority)@,
                old(slot)@,
                r,
                final(authority)@,
                final(slot)@,
            ),
            Err(e) => r == Err::<Outcome, NoteErrors>(e) && final(authority)@ == old(authority)@
                && final(slot)@ == old(slot)@,
        },
{
    let client_request = match NoteInstructions::unpack(instruction_data) {
        Ok(request) => request,
        Err(e) => { return Err(e); },
    };
    match client_request {
        NoteInstructions::CreateNote { title, body, id } => {
            match create_note(program_id, authority, slot, &title, &body, id) {
                Ok(allocation) => Ok(
                    Outcome::Allocate {
                        allocation,
                        note: NoteState { is_initialized: true, title, body, id },
                    },
                ),
                Err(e) => Err(e),
            }
        },
        NoteInstructions::UpdateNote { title, body, id } => {
            match update_note(program_id, authority, slot, title, body, id) {
                Ok(_) => Ok(Outcome::Updated),
                Err(e) => Err(e),
            }
        },
        NoteInstructions::DeleteNode { id } => {
            match delete_note(program_id, authority, slot, id) {
                Ok(_) => Ok(Outcome::Deleted),
                Err(e) => Err(e),
            }
        },
    }
}

} // verus!
