use note_program::errors::NoteErrors;
use note_program::instructions::NoteInstructions;

fn request(opcode: u8, title: &str, body: &str, id: u64) -> Vec<u8> {
    let mut bytes = vec![opcode];
    bytes.extend_from_slice(&borsh::to_vec(&(title.to_string(), body.to_string(), id)).unwrap());
    bytes
}

#[test]
fn unpack_create() {
    let bytes = [0, 1, 0, 0, 0, b'A', 1, 0, 0, 0, b'B', 7, 0, 0, 0, 0, 0, 0, 0];
    assert_eq!(
        NoteInstructions::unpack(&bytes),
        Ok(NoteInstructions::CreateNote { title: "A".to_string(), body: "B".to_string(), id: 7 })
    );
}

#[test]
fn unpack_update() {
    let bytes = request(1, "caf\u{e9}", "D", u64::MAX);
    assert_eq!(
        NoteInstructions::unpack(&bytes),
        Ok(NoteInstructions::UpdateNote {
            title: "caf\u{e9}".to_string(),
            body: "D".to_string(),
            id: u64::MAX
        })
    );
}

#[test]
fn unpack_delete_takes_bare_id() {
    let bytes = [2, 7, 1, 0, 0, 0, 0, 0, 0];
    assert_eq!(NoteInstructions::unpack(&bytes), Ok(NoteInstructions::DeleteNode { id: 263 }));
}

#[test]
fn unpack_delete_rejects_other_lengths() {
    assert_eq!(NoteInstructions::unpack(&[2]), Err(NoteErrors::MalformedPayload));
    assert_eq!(NoteInstructions::unpack(&[2, 7, 0, 0, 0, 0, 0, 0]), Err(NoteErrors::MalformedPayload));
    assert_eq!(
        NoteInstructions::unpack(&[2, 7, 0, 0, 0, 0, 0, 0, 0, 0]),
        Err(NoteErrors::MalformedPayload)
    );
    assert_eq!(NoteInstructions::unpack(&request(2, "A", "B", 7)), Err(NoteErrors::MalformedPayload));
}

#[test]
fn unpack_rejects_unknown_opcode() {
    assert_eq!(NoteInstructions::unpack(&[99, 1, 2, 3]), Err(NoteErrors::InvalidOpcode));
    assert_eq!(NoteInstructions::unpack(&[3]), Err(NoteErrors::InvalidOpcode));
    assert_eq!(NoteInstructions::unpack(&[255, 0, 0, 0, 0, 0, 0, 0, 0]), Err(NoteErrors::InvalidOpcode));
    let mut bytes = request(0, "A", "B", 7);
    bytes[0] = 99;
    assert_eq!(NoteInstructions::unpack(&bytes), Err(NoteErrors::InvalidOpcode));
}

#[test]
fn unpack_rejects_empty_request() {
    assert_eq!(NoteInstructions::unpack(&[]), Err(NoteErrors::InvalidOpcode));
}

#[test]
fn unpack_rejects_truncated_payload() {
    assert_eq!(NoteInstructions::unpack(&[0, 0x01]), Err(NoteErrors::MalformedPayload));
    assert_eq!(NoteInstructions::unpack(&[1, 0x01]), Err(NoteErrors::MalformedPayload));
    assert_eq!(NoteInstructions::unpack(&[0]), Err(NoteErrors::MalformedPayload));
    let bytes = request(0, "title", "body", 7);
    for cut in 1..bytes.len() {
        assert_eq!(NoteInstructions::unpack(&bytes[..cut]), Err(NoteErrors::MalformedPayload));
    }
}

#[test]
fn unpack_rejects_trailing_bytes() {
    let mut bytes = request(1, "A", "B", 7);
    bytes.push(0);
    assert_eq!(NoteInstructions::unpack(&bytes), Err(NoteErrors::MalformedPayload));
}

#[test]
fn unpack_rejects_invalid_utf8() {
    let bytes = [0, 1, 0, 0, 0, 0x80, 0, 0, 0, 0, 7, 0, 0, 0, 0, 0, 0, 0];
    assert_eq!(NoteInstructions::unpack(&bytes), Err(NoteErrors::MalformedPayload));
}

#[test]
fn unpack_checks_no_bounds() {
    let long = "x".repeat(1000);
    assert_eq!(
        NoteInstructions::unpack(&request(0, &long, &long, 1)),
        Ok(NoteInstructions::CreateNote { title: long.clone(), body: long, id: 1 })
    );
}

#[test]
fn error_codes_follow_declaration_order() {
    assert_eq!(NoteErrors::Forbidden.code(), 0);
    assert_eq!(NoteErrors::InvalidLength.code(), 1);
    assert_eq!(NoteErrors::InvalidNoteAccount.code(), 2);
    assert_eq!(NoteErrors::InvalidOpcode.code(), 3);
    assert_eq!(NoteErrors::MalformedPayload.code(), 4);
    assert_eq!(NoteErrors::AddressMismatch.code(), 5);
    assert_eq!(NoteErrors::MissingAuthorization.code(), 6);
    assert_eq!(NoteErrors::AccountDataTooSmall.code(), 7);
    assert_eq!(NoteErrors::BalanceOverflow.code(), 8);
    assert_eq!(NoteErrors::AllocationFailure.code(), 9);
}

#[test]
fn pack_writes_opcode_and_payload() {
    let create = NoteInstructions::CreateNote { title: "A".to_string(), body: "B".to_string(), id: 7 };
    assert_eq!(
        create.pack(),
        Ok(vec![0, 1, 0, 0, 0, b'A', 1, 0, 0, 0, b'B', 7, 0, 0, 0, 0, 0, 0, 0])
    );
    let update = NoteInstructions::UpdateNote { title: String::new(), body: "xy".to_string(), id: 256 };
    assert_eq!(update.pack(), Ok(vec![1, 0, 0, 0, 0, 2, 0, 0, 0, b'x', b'y', 0, 1, 0, 0, 0, 0, 0, 0]));
    let delete = NoteInstructions::DeleteNode { id: 1 << 56 };
    assert_eq!(delete.pack(), Ok(vec![2, 0, 0, 0, 0, 0, 0, 0, 1]));
}

#[test]
fn pack_then_unpack_is_identity() {
    let requests = vec![
        NoteInstructions::CreateNote { title: "caf\u{e9}".to_string(), body: "\u{1F600}".to_string(), id: 0 },
        NoteInstructions::UpdateNote { title: "t".repeat(300), body: String::new(), id: u64::MAX },
        NoteInstructions::DeleteNode { id: 0x0102_0304_0506_0708 },
    ];
    for request in requests {
        let bytes = request.pack().unwrap();
        assert_eq!(NoteInstructions::unpack(&bytes), Ok(request));
    }
}

#[test]
fn pack_agrees_with_borsh() {
    let create = NoteInstructions::CreateNote { title: "gr\u{fc}n".to_string(), body: "B".to_string(), id: 9 };
    assert_eq!(create.pack().unwrap(), request(0, "gr\u{fc}n", "B", 9));
    let delete = NoteInstructions::DeleteNode { id: 9 };
    assert_eq!(delete.pack().unwrap(), borsh::to_vec(&(2u8, 9u64)).unwrap());
}
