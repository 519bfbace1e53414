use note_program::address::{find_note_address, Address};
use note_program::errors::NoteErrors;
use note_program::processor::{
    check_access, check_binding, create_note, create_with, delete_note, delete_with, finish_create,
    processor, store_note, update_note, update_with, Account, Allocation, Outcome,
};
use note_program::state::{NoteState, NOTE_SPACE};

fn program() -> Address {
    Address::new([42; 32])
}

fn user(signed: bool, lamports: u64) -> Account {
    Account {
        key: Address::new([7; 32]),
        owner: Address::new([0; 32]),
        is_signer: signed,
        lamports,
        data: Vec::new(),
    }
}

fn slot_for(owner: &Account, id: u64, lamports: u64) -> Account {
    let (key, _) = find_note_address(&owner.key, id, &program()).unwrap();
    Account { key, owner: program(), is_signer: false, lamports, data: vec![0; NOTE_SPACE] }
}

fn request(opcode: u8, title: &str, body: &str, id: u64) -> Vec<u8> {
    let mut bytes = vec![opcode];
    bytes.extend_from_slice(&borsh::to_vec(&(title.to_string(), body.to_string(), id)).unwrap());
    bytes
}

fn delete_request(id: u64) -> Vec<u8> {
    let mut bytes = vec![2];
    bytes.extend_from_slice(&id.to_le_bytes());
    bytes
}

fn stored(slot: &Account) -> NoteState {
    NoteState::from_prefix(&slot.data).unwrap().0
}

#[test]
fn create_then_update_keeps_id_and_takes_new_text() {
    let mut owner = user(true, 1_000);
    let mut slot = slot_for(&owner, 7, 0);
    slot.owner = Address::new([0; 32]);
    slot.data = Vec::new();

    let outcome = processor(&program(), &mut owner, &mut slot, &request(0, "A", "B", 7)).unwrap();
    let (allocation, note) = match outcome {
        Outcome::Allocate { allocation, note } => (allocation, note),
        other => panic!("unexpected outcome {:?}", other),
    };
    let (_, bump) = find_note_address(&owner.key, 7, &program()).unwrap();
    assert_eq!(allocation, Allocation { space: 267, bump_seed: bump });
    assert_eq!(
        note,
        NoteState { is_initialized: true, title: "A".to_string(), body: "B".to_string(), id: 7 }
    );
    assert_eq!(slot.data, Vec::<u8>::new());

    slot.owner = program();
    slot.data = vec![0; allocation.space as usize];
    slot.lamports = 500;
    assert_eq!(finish_create(&mut slot, note.clone(), true), Ok(()));
    assert_eq!(stored(&slot), note);
    assert_eq!(slot.data.len(), 267);

    let outcome = processor(&program(), &mut owner, &mut slot, &request(1, "C", "D", 7));
    assert_eq!(outcome, Ok(Outcome::Updated));
    assert_eq!(
        stored(&slot),
        NoteState { is_initialized: true, title: "C".to_string(), body: "D".to_string(), id: 7 }
    );
    assert_eq!(slot.data.len(), 267);
    assert_eq!(slot.lamports, 500);
    assert_eq!(owner.lamports, 1_000);
}

#[test]
fn store_writes_over_the_front_only() {
    let owner = user(true, 0);
    let mut slot = slot_for(&owner, 1, 0);
    slot.data = vec![0xAA; 30];
    assert_eq!(store_note(&mut slot, "A".to_string(), "B".to_string(), 7), Ok(()));
    let mut expected = vec![1, 1, 0, 0, 0, b'A', 1, 0, 0, 0, b'B', 7, 0, 0, 0, 0, 0, 0, 0];
    expected.extend_from_slice(&[0xAA; 11]);
    assert_eq!(slot.data, expected);
}

#[test]
fn store_refuses_a_note_that_does_not_fit() {
    let owner = user(true, 0);
    let mut slot = slot_for(&owner, 1, 0);
    slot.data = vec![3; 18];
    let before = slot.clone();
    assert_eq!(
        store_note(&mut slot, "A".to_string(), "B".to_string(), 7),
        Err(NoteErrors::AccountDataTooSmall)
    );
    assert_eq!(slot, before);
    slot.data = vec![3; 19];
    assert_eq!(store_note(&mut slot, "A".to_string(), "B".to_string(), 7), Ok(()));
}

#[test]
fn store_refuses_wide_text_that_outgrows_the_slot() {
    let owner = user(true, 0);
    let mut slot = slot_for(&owner, 1, 0);
    let before = slot.clone();
    let title = "\u{1F600}".repeat(50);
    let body = "\u{1F600}".repeat(200);
    assert_eq!(store_note(&mut slot, title, body, 7), Err(NoteErrors::AccountDataTooSmall));
    assert_eq!(slot, before);
}

#[test]
fn store_accepts_text_at_the_bounds() {
    let owner = user(true, 0);
    let mut slot = slot_for(&owner, 1, 0);
    assert_eq!(store_note(&mut slot, "t".repeat(50), "b".repeat(200), 1), Ok(()));
    assert_eq!(
        NoteState::try_from_slice(&slot.data),
        Ok(NoteState { is_initialized: true, title: "t".repeat(50), body: "b".repeat(200), id: 1 })
    );
}

#[test]
fn store_refuses_text_beyond_the_bounds() {
    let owner = user(true, 0);
    let mut slot = slot_for(&owner, 1, 0);
    slot.data = vec![0; 1000];
    let before = slot.clone();
    assert_eq!(
        store_note(&mut slot, "t".repeat(51), "b".to_string(), 1),
        Err(NoteErrors::InvalidLength)
    );
    assert_eq!(
        store_note(&mut slot, "t".to_string(), "b".repeat(201), 1),
        Err(NoteErrors::InvalidLength)
    );
    assert_eq!(slot, before);
}

#[test]
fn finish_create_reports_failed_allocation() {
    let owner = user(true, 0);
    let mut slot = slot_for(&owner, 1, 0);
    let before = slot.clone();
    let note = NoteState { is_initialized: true, title: "A".to_string(), body: "B".to_string(), id: 1 };
    assert_eq!(finish_create(&mut slot, note, false), Err(NoteErrors::AllocationFailure));
    assert_eq!(slot, before);
}

#[test]
fn create_refuses_wrong_slot() {
    let owner = user(true, 0);
    let mut slot = slot_for(&owner, 7, 0);
    slot.key.bytes[31] ^= 1;
    assert_eq!(
        create_note(&program(), &owner, &slot, &"A".to_string(), &"B".to_string(), 7),
        Err(NoteErrors::AddressMismatch)
    );
    let right = slot_for(&owner, 7, 0);
    assert_eq!(
        create_note(&program(), &owner, &right, &"A".to_string(), &"B".to_string(), 8),
        Err(NoteErrors::AddressMismatch)
    );
    assert_eq!(
        create_note(&program(), &owner, &right, &"A".repeat(51), &"B".to_string(), 8),
        Err(NoteErrors::AddressMismatch)
    );
}

#[test]
fn create_refuses_long_text() {
    let owner = user(false, 0);
    let slot = slot_for(&owner, 7, 0);
    assert_eq!(
        create_note(&program(), &owner, &slot, &"A".repeat(51), &"B".to_string(), 7),
        Err(NoteErrors::InvalidLength)
    );
    assert_eq!(
        create_note(&program(), &owner, &slot, &"A".to_string(), &"B".repeat(201), 7),
        Err(NoteErrors::InvalidLength)
    );
    assert!(create_note(&program(), &owner, &slot, &"A".repeat(50), &"B".repeat(200), 7).is_ok());
}

#[test]
fn create_with_takes_the_salt_of_the_derivation() {
    let owner = user(true, 0);
    let slot = slot_for(&owner, 7, 0);
    let derived = Some((slot.key, 250));
    assert_eq!(
        create_with(&derived, &slot, &"A".to_string(), &"B".to_string()),
        Ok(Allocation { space: 267, bump_seed: 250 })
    );
    assert_eq!(
        create_with(&None, &slot, &"A".to_string(), &"B".to_string()),
        Err(NoteErrors::AddressMismatch)
    );
}

#[test]
fn update_needs_signature() {
    let owner = user(false, 0);
    let mut slot = slot_for(&owner, 7, 0);
    let before = slot.clone();
    assert_eq!(
        update_note(&program(), &owner, &mut slot, "C".to_string(), "D".to_string(), 7),
        Err(NoteErrors::MissingAuthorization)
    );
    assert_eq!(slot, before);
}

#[test]
fn delete_needs_signature() {
    let mut owner = user(false, 5);
    let mut slot = slot_for(&owner, 7, 100);
    assert_eq!(
        delete_note(&program(), &mut owner, &mut slot, 7),
        Err(NoteErrors::MissingAuthorization)
    );
    assert_eq!(owner.lamports, 5);
    assert_eq!(slot.lamports, 100);
}

#[test]
fn update_and_delete_refuse_foreign_slot() {
    let mut owner = user(true, 5);
    let mut slot = slot_for(&owner, 7, 100);
    slot.owner = Address::new([1; 32]);
    let before = slot.clone();
    assert_eq!(
        update_note(&program(), &owner, &mut slot, "C".to_string(), "D".to_string(), 7),
        Err(NoteErrors::InvalidNoteAccount)
    );
    assert_eq!(delete_note(&program(), &mut owner, &mut slot, 7), Err(NoteErrors::InvalidNoteAccount));
    assert_eq!(slot, before);
    assert_eq!(owner.lamports, 5);
}

#[test]
fn missing_signature_is_reported_before_foreign_slot() {
    let mut owner = user(false, 5);
    let mut slot = slot_for(&owner, 7, 100);
    slot.owner = Address::new([1; 32]);
    assert_eq!(check_access(&program(), &owner, &slot), Err(NoteErrors::MissingAuthorization));
    assert_eq!(
        delete_note(&program(), &mut owner, &mut slot, 7),
        Err(NoteErrors::MissingAuthorization)
    );
}

#[test]
fn update_and_delete_refuse_wrong_slot() {
    let mut owner = user(true, 5);
    for bit in [0usize, 100, 255] {
        let mut slot = slot_for(&owner, 7, 100);
        slot.key.bytes[bit / 8] ^= 1 << (bit % 8);
        let before = slot.clone();
        assert_eq!(
            update_note(&program(), &owner, &mut slot, "C".to_string(), "D".to_string(), 7),
            Err(NoteErrors::AddressMismatch)
        );
        assert_eq!(delete_note(&program(), &mut owner, &mut slot, 7), Err(NoteErrors::AddressMismatch));
        assert_eq!(slot, before);
    }
    let mut slot = slot_for(&owner, 7, 100);
    assert_eq!(delete_note(&program(), &mut owner, &mut slot, 8), Err(NoteErrors::AddressMismatch));
    let mut stranger = user(true, 0);
    stranger.key = Address::new([9; 32]);
    assert_eq!(delete_note(&program(), &mut stranger, &mut slot, 7), Err(NoteErrors::AddressMismatch));
    assert_eq!(slot.lamports, 100);
}

#[test]
fn delete_returns_the_whole_balance() {
    let mut owner = user(true, 1_000);
    let mut slot = slot_for(&owner, 7, 2_749);
    store_note(&mut slot, "A".to_string(), "B".to_string(), 7).unwrap();
    let data = slot.data.clone();
    let outcome = processor(&program(), &mut owner, &mut slot, &delete_request(7));
    assert_eq!(outcome, Ok(Outcome::Deleted));
    assert_eq!(slot.lamports, 0);
    assert_eq!(owner.lamports, 3_749);
    assert_eq!(slot.data, data);
}

#[test]
fn delete_refuses_balance_overflow() {
    let mut owner = user(true, u64::MAX);
    let mut slot = slot_for(&owner, 7, 1);
    assert_eq!(delete_note(&program(), &mut owner, &mut slot, 7), Err(NoteErrors::BalanceOverflow));
    assert_eq!(owner.lamports, u64::MAX);
    assert_eq!(slot.lamports, 1);
    owner.lamports = u64::MAX - 1;
    assert_eq!(delete_note(&program(), &mut owner, &mut slot, 7), Ok(()));
    assert_eq!(owner.lamports, u64::MAX);
    assert_eq!(slot.lamports, 0);
}

#[test]
fn with_functions_take_the_derivation_as_given() {
    let mut owner = user(true, 10);
    let mut slot = slot_for(&owner, 7, 20);
    slot.key = Address::new([3; 32]);
    let derived = Some((Address::new([3; 32]), 1));
    assert_eq!(
        update_with(&program(), &derived, &owner, &mut slot, "C".to_string(), "D".to_string(), 7),
        Ok(())
    );
    assert_eq!(stored(&slot).title, "C");
    assert_eq!(delete_with(&program(), &derived, &mut owner, &mut slot), Ok(()));
    assert_eq!((owner.lamports, slot.lamports), (30, 0));
    assert_eq!(
        delete_with(&program(), &None, &mut owner, &mut slot),
        Err(NoteErrors::AddressMismatch)
    );
}

#[test]
fn check_binding_gives_the_salt() {
    let a = Address::new([3; 32]);
    let b = Address::new([4; 32]);
    assert_eq!(check_binding(&Some((a, 9)), &a), Ok(9));
    assert_eq!(check_binding(&Some((a, 9)), &b), Err(NoteErrors::AddressMismatch));
    assert_eq!(check_binding(&None, &a), Err(NoteErrors::AddressMismatch));
}

#[test]
fn processor_passes_decode_errors_on() {
    let mut owner = user(true, 10);
    let mut slot = slot_for(&owner, 7, 20);
    let before = (owner.clone(), slot.clone());
    assert_eq!(processor(&program(), &mut owner, &mut slot, &[99, 0]), Err(NoteErrors::InvalidOpcode));
    assert_eq!(processor(&program(), &mut owner, &mut slot, &[0, 1]), Err(NoteErrors::MalformedPayload));
    assert_eq!(processor(&program(), &mut owner, &mut slot, &[]), Err(NoteErrors::InvalidOpcode));
    assert_eq!((owner, slot), before);
}

#[test]
fn processor_create_needs_no_signature_check_but_the_right_slot() {
    let mut owner = user(true, 10);
    let mut slot = slot_for(&owner, 7, 0);
    assert_eq!(
        processor(&program(), &mut owner, &mut slot, &request(0, "A", "B", 8)),
        Err(NoteErrors::AddressMismatch)
    );
    assert_eq!(
        processor(&program(), &mut owner, &mut slot, &request(0, &"A".repeat(51), "B", 7)),
        Err(NoteErrors::InvalidLength)
    );
}

#[test]
fn processor_update_refuses_long_text() {
    let mut owner = user(true, 10);
    let mut slot = slot_for(&owner, 7, 0);
    let before = slot.clone();
    assert_eq!(
        processor(&program(), &mut owner, &mut slot, &request(1, "A", &"B".repeat(201), 7)),
        Err(NoteErrors::InvalidLength)
    );
    assert_eq!(slot, before);
}
