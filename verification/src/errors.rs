//! The ways in which a request can be turned down.

use vstd::prelude::*;

verus! {

/// Why a request was rejected.
///
/// The first three variants keep their positions, since `code` hands their
/// position to clients as a number.
#[derive(Clone, Copy, Debug, PartialEq, Eq, Structural)]
pub enum NoteErrors {
    /// The caller is not the owner of the note.
    Forbidden,
    /// Title or body is longer than the schema allows.
    InvalidLength,
    /// The slot is not managed by this program.
    InvalidNoteAccount,
    /// The first byte of a request names no operation.
    InvalidOpcode,
    /// The bytes after the opcode are not a well-formed payload.
    MalformedPayload,
    /// The slot that was handed in is not the one derived from owner and id.
    AddressMismatch,
    /// The authorizing identity did not sign the request.
    MissingAuthorization,
    /// The encoded note does not fit into the slot.
    AccountDataTooSmall,
    /// Returning the slot's balance would exceed what a balance can hold.
    BalanceOverflow,
    /// The runtime could not allocate the slot.
    AllocationFailure,
}

impl NoteErrors {
    /// The number of the variant, counted from zero in declaration order.
    pub open spec fn spec_code(self) -> u32 {
        match self {
            NoteErrors::Forbidden => 0,
            NoteErrors::InvalidLength => 1,
            NoteErrors::InvalidNoteAccount => 2,
            NoteErrors::InvalidOpcode => 3,
            NoteErrors::MalformedPayload => 4,
            NoteErrors::AddressMismatch => 5,
            NoteErrors::MissingAuthorization => 6,
            NoteErrors::AccountDataTooSmall => 7,
            NoteErrors::BalanceOverflow => 8,
            NoteErrors::AllocationFailure => 9,
        }
    }

    /// The custom error code under which the runtime reports this error.
    pub fn code(&self) -> (c: u32)
        ensures
            c == self.spec_code(),
    {
        match self {
            NoteErrors::Forbidden => 0,
            NoteErrors::InvalidLength => 1,
            NoteErrors::InvalidNoteAccount => 2,
            NoteErrors::InvalidOpcode => 3,
            NoteErrors::MalformedPayload => 4,
            NoteErrors::AddressMismatch => 5,
            NoteErrors::MissingAuthorization => 6,
            NoteErrors::AccountDataTooSmall => 7,
            NoteErrors::BalanceOverflow => 8,
            NoteErrors::AllocationFailure => 9,
        }
    }
}

} // verus!
