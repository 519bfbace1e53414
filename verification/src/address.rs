//! Identities and the addresses derived from them.

use solana_program::pubkey::Pubkey;
use vstd::bytes::spec_u64_to_le_bytes;
use vstd::bytes::u64_to_le_bytes;
use vstd::prelude::*;

verus! {

/// A 32-byte identity: a user, a program or a storage slot.
#[derive(Clone, Copy, Debug, PartialEq, Eq)]
pub struct Address {
    pub bytes: [u8; 32],
}

impl View for Address {
    type V = Seq<u8>;

    open spec fn view(&self) -> Seq<u8> {
        self.bytes@
    }
}

impl Address {
    pub fn new(bytes: [u8; 32]) -> (a: Address)
        ensures
            a@ == bytes@,
    {
        Address { bytes }
    }

    /// Whether the two addresses agree in every byte.
    pub fn same_as(&self, other: &Address) -> (same: bool)
        ensures
            same == (self@ == other@),
    {
        let mut i: usize = 0;
        while i < 32
            invariant
                i <= 32,
                forall|j: int| 0 <= j < i ==> self.bytes@[j] == other.bytes@[j],
            decreases 32 - i,
        {
            if self.bytes[i] != other.bytes[i] {
                return false;
            }
            i += 1;
        }
        assert(self.bytes@ =~= other.bytes@);
        true
    }
}

/// What the runtime's search for a program address yields for the two seeds
/// `owner` and `id_seed` under `program`: the address and the salt with which
/// it was found, or `None` where no salt leads off the curve.
pub uninterp spec fn derived_address(owner: Seq<u8>, id_seed: Seq<u8>, program: Seq<u8>) -> Option<
    (Seq<u8>, u8),
>;

/// A derivation result as plain values.
pub open spec fn derivation_view(d: Option<(Address, u8)>) -> Option<(Seq<u8>, u8)> {
    match d {
        Some((a, salt)) => Some((a@, salt)),
        None => None,
    }
}

/// The address and salt that belong to note `id` of `owner` under `program`.
/// The id enters the derivation as its eight little-endian bytes.
pub open spec fn note_address(owner: Seq<u8>, id: u64, program: Seq<u8>) -> Option<(Seq<u8>, u8)> {
    derived_address(owner, spec_u64_to_le_bytes(id), program)
}

/// Calls `Pubkey::try_find_program_address` with the seeds `owner` and
/// `id_seed`. Nothing is proved of it; the contract only says that the outcome
/// is a function of the three byte strings, which the search (a hash of the
/// seeds, the salt and the program, tried from salt 255 downwards) is.
#[verifier::external_body]
fn try_find_program_address(owner: &Address, id_seed: &[u8], program: &Address) -> (r: Option<
    (Address, u8),
>)
    ensures
        derivation_view(r) == derived_address(owner@, id_seed@, program@),
{
    let program_key = Pubkey::new_from_array(program.bytes);
    Pubkey::try_find_program_address(&[&owner.bytes, id_seed], &program_key).map(
        |found| (Address { bytes: found.0.to_bytes() }, found.1),
    )
}

/// Derives the slot address of note `id` of `owner`, with its salt.
///
/// The result depends on the three arguments alone: two calls with the same
/// arguments give the same address and the same salt.
pub fn find_note_address(owner: &Address, id: u64, program_id: &Address) -> (r: Option<
    (Address, u8),
>)
    ensures
        derivation_view(r) == note_address(owner@, id, program_id@),
{
    let id_seed = u64_to_le_bytes(id);
    try_find_program_address(owner, id_seed.as_slice(), program_id)
}

/// The seeds with which the runtime signs for the slot of note `id` of
/// `owner`: the two seeds of the derivation, then the salt it found.
pub fn signer_seeds(owner: &Address, id: u64, bump_seed: u8) -> (seeds: Vec<Vec<u8>>)
    ensures
        seeds@.len() == 3,
        seeds@[0]@ == owner@,
        seeds@[1]@ == spec_u64_to_le_bytes(id),
        seeds@[2]@ == seq![bump_seed],
{
    let mut owner_seed: Vec<u8> = Vec::new();
    let mut i: usize = 0;
    while i < 32
        invariant
            i <= 32,
            owner_seed@ == owner.bytes@.subrange(0, i as int),
        decreases 32 - i,
    {
        owner_seed.push(owner.bytes[i]);
        i += 1;
        assert(owner_seed@ =~= owner.bytes@.subrange(0, i as int));
    }
    assert(owner_seed@ =~= owner@);
    let mut salt: Vec<u8> = Vec::new();
    salt.push(bump_seed);
    assert(salt@ =~= seq![bump_seed]);
    let mut seeds: Vec<Vec<u8>> = Vec::new();
    seeds.push(owner_seed);
    seeds.push(u64_to_le_bytes(id));
    seeds.push(salt);
    seeds
}

/// `claimed` is the address that the derivation `d` found.
pub open spec fn bound_to(d: Option<(Seq<u8>, u8)>, claimed: Seq<u8>) -> bool {
    match d {
        Some((a, _)) => a == claimed,
        None => false,
    }
}

} // verus!
