use chat_ledger::addressing::{generate_group_id, group_address, message_address};
use chat_ledger::codec::{decode_group, decode_message, encode_group, encode_message};
use chat_ledger::error::ChatError;
use chat_ledger::instruction::{
    create_group, decode_instruction, encode_instruction, send_message, update_message_status,
    ChatInstruction,
};
use chat_ledger::ledger::{required_funding, CostSchedule, Ledger};
use chat_ledger::processor::{
    process_create_group, process_instruction, process_send_message,
    process_update_message_status, CreateGroupRequest, OperationAccounts, SendMessageRequest,
    UpdateStatusRequest,
};
use chat_ledger::state::{GroupAccount, MessageAccount, MessageStatus};

fn key(b: u8) -> Vec<u8> {
    vec![b; 32]
}

fn schedule() -> CostSchedule {
    CostSchedule { cost_per_byte: 1, base_cost: 10 }
}

fn send_request(sender: u8, recipient: u8, timestamp: u64, content: &[u8]) -> SendMessageRequest {
    let program_id = key(9);
    let (target, _nonce) = message_address(&program_id, &key(sender), &key(recipient), timestamp);
    SendMessageRequest {
        sender: key(sender),
        sender_signed: true,
        recipient: key(recipient),
        target,
        content: content.to_vec(),
        timestamp,
        is_encrypted: false,
        group_id: None,
    }
}

fn funded_ledger(payer: u8, lamports: u64) -> Ledger {
    let mut ledger = Ledger::new();
    ledger.insert_account(key(payer), lamports, Vec::new());
    ledger
}

#[test]
fn message_round_trip_keeps_every_field() {
    let m = MessageAccount {
        is_initialized: true,
        sender: key(1),
        recipient: key(2),
        content: b"hello there".to_vec(),
        timestamp: 123_456_789,
        is_encrypted: true,
        status: MessageStatus::Delivered,
        group_id: Some(b"group_77_abcdefgh".to_vec()),
    };
    let bytes = encode_message(&m);
    let d = decode_message(&bytes).expect("round trip");
    assert_eq!(d.is_initialized, m.is_initialized);
    assert_eq!(d.sender, m.sender);
    assert_eq!(d.recipient, m.recipient);
    assert_eq!(d.content, m.content);
    assert_eq!(d.timestamp, m.timestamp);
    assert_eq!(d.is_encrypted, m.is_encrypted);
    assert_eq!(d.status, m.status);
    assert_eq!(d.group_id, m.group_id);
}

#[test]
fn group_round_trip_keeps_every_field() {
    let g = GroupAccount {
        is_initialized: true,
        id: b"group_1000_abcdefgh".to_vec(),
        name: b"weekend plans".to_vec(),
        participants: vec![key(1), key(2), key(3)],
        created_at: 1000,
        creator: key(1),
    };
    let bytes = encode_group(&g);
    let d = decode_group(&bytes).expect("round trip");
    assert_eq!(d.is_initialized, g.is_initialized);
    assert_eq!(d.id, g.id);
    assert_eq!(d.name, g.name);
    assert_eq!(d.participants, g.participants);
    assert_eq!(d.created_at, g.created_at);
    assert_eq!(d.creator, g.creator);
}

#[test]
fn message_decode_rejects_truncated_and_trailing_bytes() {
    let m = MessageAccount {
        is_initialized: true,
        sender: key(1),
        recipient: key(2),
        content: b"hi".to_vec(),
        timestamp: 7,
        is_encrypted: false,
        status: MessageStatus::Sent,
        group_id: None,
    };
    let mut bytes = encode_message(&m);
    let last = bytes.pop().unwrap();
    assert!(decode_message(&bytes).is_none());
    bytes.push(last);
    bytes.push(0);
    assert!(decode_message(&bytes).is_none());
}

#[test]
fn message_decode_rejects_bad_status_tag() {
    let m = MessageAccount {
        is_initialized: true,
        sender: key(1),
        recipient: key(2),
        content: Vec::new(),
        timestamp: 7,
        is_encrypted: false,
        status: MessageStatus::Read,
        group_id: None,
    };
    let mut bytes = encode_message(&m);
    // The status byte sits just before the one-byte absent group tag.
    let status_pos = bytes.len() - 2;
    bytes[status_pos] = 9;
    assert!(decode_message(&bytes).is_none());
}

#[test]
fn instruction_round_trips_for_all_variants() {
    let send = ChatInstruction::SendMessage {
        content: b"hello".to_vec(),
        timestamp: 1000,
        is_encrypted: false,
        group_id: Some(b"g1".to_vec()),
    };
    let bytes = encode_instruction(&send);
    match decode_instruction(&bytes).expect("send round trip") {
        ChatInstruction::SendMessage { content, timestamp, is_encrypted, group_id } => {
            assert_eq!(content, b"hello".to_vec());
            assert_eq!(timestamp, 1000);
            assert!(!is_encrypted);
            assert_eq!(group_id, Some(b"g1".to_vec()));
        }
        _ => panic!("wrong variant"),
    }
    let create = ChatInstruction::CreateGroup {
        name: b"team".to_vec(),
        participants: vec![key(4), key(5)],
    };
    let bytes = encode_instruction(&create);
    match decode_instruction(&bytes).expect("create round trip") {
        ChatInstruction::CreateGroup { name, participants } => {
            assert_eq!(name, b"team".to_vec());
            assert_eq!(participants, vec![key(4), key(5)]);
        }
        _ => panic!("wrong variant"),
    }
    let update = ChatInstruction::UpdateMessageStatus { status: b"read".to_vec() };
    let bytes = encode_instruction(&update);
    match decode_instruction(&bytes).expect("update round trip") {
        ChatInstruction::UpdateMessageStatus { status } => {
            assert_eq!(status, b"read".to_vec());
        }
        _ => panic!("wrong variant"),
    }
}

#[test]
fn instruction_decode_rejects_unknown_tag_and_empty_buffer() {
    assert_eq!(decode_instruction(&vec![9u8, 0, 0]), Err(ChatError::InvalidInstruction));
    assert_eq!(decode_instruction(&Vec::new()), Err(ChatError::InvalidInstruction));
}

#[test]
fn derive_is_deterministic_and_distinguishes_seeds() {
    let program_id = key(9);
    let a = message_address(&program_id, &key(1), &key(2), 1000);
    let b = message_address(&program_id, &key(1), &key(2), 1000);
    assert_eq!(a, b);
    assert_eq!(a.0.len(), 32);
    let c = message_address(&program_id, &key(1), &key(2), 1001);
    assert_ne!(a.0, c.0);
    let d = message_address(&program_id, &key(2), &key(1), 1000);
    assert_ne!(a.0, d.0);
}

#[test]
fn group_id_of_zero_key_uses_base58_ones() {
    // The base58 text of the all-zero key is 32 "1" characters.
    let gid = generate_group_id(0, &key(0));
    assert_eq!(gid, b"group_0_11111111".to_vec());
}

#[test]
fn required_funding_follows_the_cost_schedule() {
    assert_eq!(required_funding(5, &CostSchedule { cost_per_byte: 2, base_cost: 10 }), Ok(20));
    assert_eq!(
        required_funding(2, &CostSchedule { cost_per_byte: u64::MAX, base_cost: 1 }),
        Err(ChatError::AmountOverflow)
    );
}

#[test]
fn send_message_creates_record_with_status_sent() {
    let program_id = key(9);
    let mut ledger = funded_ledger(1, 10_000);
    let req = send_request(1, 2, 1000, b"hello");
    let r = process_send_message(&mut ledger, &program_id, &req, &schedule());
    assert_eq!(r, Ok(()));
    let stored = ledger.fetch(&req.target).expect("record exists");
    let m = decode_message(&stored).expect("record decodes");
    assert!(m.is_initialized);
    assert_eq!(m.sender, key(1));
    assert_eq!(m.recipient, key(2));
    assert_eq!(m.content, b"hello".to_vec());
    assert_eq!(m.timestamp, 1000);
    assert!(!m.is_encrypted);
    assert_eq!(m.status, MessageStatus::Sent);
    assert_eq!(m.group_id, None);
    // Record bytes: 1 + 32 + 32 + (4 + 5) + 8 + 1 + 1 + 1 = 85; funding 85 + 10.
    assert_eq!(ledger.lamports_of(&req.target), Some(95));
    assert_eq!(ledger.lamports_of(&key(1)), Some(10_000 - 95));
}

#[test]
fn resend_with_same_tuple_fails_and_keeps_first_record() {
    let program_id = key(9);
    let mut ledger = funded_ledger(1, 10_000);
    let req = send_request(1, 2, 1000, b"hello");
    assert_eq!(process_send_message(&mut ledger, &program_id, &req, &schedule()), Ok(()));
    let first = ledger.fetch(&req.target).unwrap();
    let again = send_request(1, 2, 1000, b"different text");
    assert_eq!(
        process_send_message(&mut ledger, &program_id, &again, &schedule()),
        Err(ChatError::AddressOccupied)
    );
    assert_eq!(ledger.fetch(&req.target).unwrap(), first);
    assert_eq!(ledger.lamports_of(&key(1)), Some(10_000 - 95));
}

#[test]
fn send_message_boundary_at_max_length() {
    let program_id = key(9);
    let mut ledger = funded_ledger(1, 100_000);
    let at_limit = send_request(1, 2, 1000, &vec![b'x'; 1024]);
    assert_eq!(process_send_message(&mut ledger, &program_id, &at_limit, &schedule()), Ok(()));
    let over = send_request(1, 2, 2000, &vec![b'x'; 1025]);
    assert_eq!(
        process_send_message(&mut ledger, &program_id, &over, &schedule()),
        Err(ChatError::MessageTooLong)
    );
}

#[test]
fn send_message_without_signer_is_unauthorized() {
    let program_id = key(9);
    let mut ledger = funded_ledger(1, 10_000);
    let mut req = send_request(1, 2, 1000, b"hello");
    req.sender_signed = false;
    assert_eq!(
        process_send_message(&mut ledger, &program_id, &req, &schedule()),
        Err(ChatError::Unauthorized)
    );
    assert!(ledger.fetch(&req.target).is_none());
}

#[test]
fn send_message_with_forged_address_is_rejected() {
    let program_id = key(9);
    let mut ledger = funded_ledger(1, 10_000);
    let mut req = send_request(1, 2, 1000, b"hello");
    req.target = key(7);
    assert_eq!(
        process_send_message(&mut ledger, &program_id, &req, &schedule()),
        Err(ChatError::InvalidAddress)
    );
}

#[test]
fn send_message_with_poor_or_unknown_payer_is_rejected() {
    let program_id = key(9);
    let mut ledger = funded_ledger(1, 3);
    let req = send_request(1, 2, 1000, b"hello");
    assert_eq!(
        process_send_message(&mut ledger, &program_id, &req, &schedule()),
        Err(ChatError::NotRentExempt)
    );
    let mut empty = Ledger::new();
    assert_eq!(
        process_send_message(&mut empty, &program_id, &req, &schedule()),
        Err(ChatError::NotRentExempt)
    );
}

#[test]
fn send_message_funding_overflow_is_reported() {
    let program_id = key(9);
    let mut ledger = funded_ledger(1, 10_000);
    let req = send_request(1, 2, 1000, b"hello");
    let sched = CostSchedule { cost_per_byte: u64::MAX, base_cost: u64::MAX };
    assert_eq!(
        process_send_message(&mut ledger, &program_id, &req, &sched),
        Err(ChatError::AmountOverflow)
    );
}

fn ledger_with_message(sender: u8, recipient: u8, timestamp: u64) -> (Ledger, Vec<u8>) {
    let program_id = key(9);
    let mut ledger = funded_ledger(sender, 10_000);
    let req = send_request(sender, recipient, timestamp, b"hello");
    assert_eq!(process_send_message(&mut ledger, &program_id, &req, &schedule()), Ok(()));
    let target = req.target;
    (ledger, target)
}

#[test]
fn update_status_forward_by_recipient_succeeds() {
    let (mut ledger, target) = ledger_with_message(1, 2, 1000);
    let req = UpdateStatusRequest {
        caller: key(2),
        caller_signed: true,
        target: target.clone(),
        status_text: b"delivered".to_vec(),
    };
    assert_eq!(process_update_message_status(&mut ledger, &req), Ok(()));
    let m = decode_message(&ledger.fetch(&target).unwrap()).unwrap();
    assert_eq!(m.status, MessageStatus::Delivered);
    assert_eq!(m.content, b"hello".to_vec());
    let read = UpdateStatusRequest {
        caller: key(1),
        caller_signed: true,
        target: target.clone(),
        status_text: b"read".to_vec(),
    };
    assert_eq!(process_update_message_status(&mut ledger, &read), Ok(()));
    let m = decode_message(&ledger.fetch(&target).unwrap()).unwrap();
    assert_eq!(m.status, MessageStatus::Read);
}

#[test]
fn update_status_backward_or_same_is_rejected() {
    let (mut ledger, target) = ledger_with_message(1, 2, 1000);
    let same = UpdateStatusRequest {
        caller: key(2),
        caller_signed: true,
        target: target.clone(),
        status_text: b"sent".to_vec(),
    };
    assert_eq!(process_update_message_status(&mut ledger, &same), Err(ChatError::InvalidStatus));
    let read = UpdateStatusRequest {
        caller: key(2),
        caller_signed: true,
        target: target.clone(),
        status_text: b"read".to_vec(),
    };
    assert_eq!(process_update_message_status(&mut ledger, &read), Ok(()));
    let back = UpdateStatusRequest {
        caller: key(2),
        caller_signed: true,
        target: target.clone(),
        status_text: b"sent".to_vec(),
    };
    assert_eq!(process_update_message_status(&mut ledger, &back), Err(ChatError::InvalidStatus));
    let m = decode_message(&ledger.fetch(&target).unwrap()).unwrap();
    assert_eq!(m.status, MessageStatus::Read);
}

#[test]
fn update_status_authorization_and_lookup_errors() {
    let (mut ledger, target) = ledger_with_message(1, 2, 1000);
    let unsigned = UpdateStatusRequest {
        caller: key(2),
        caller_signed: false,
        target: target.clone(),
        status_text: b"delivered".to_vec(),
    };
    assert_eq!(
        process_update_message_status(&mut ledger, &unsigned),
        Err(ChatError::Unauthorized)
    );
    let stranger = UpdateStatusRequest {
        caller: key(3),
        caller_signed: true,
        target: target.clone(),
        status_text: b"delivered".to_vec(),
    };
    assert_eq!(
        process_update_message_status(&mut ledger, &stranger),
        Err(ChatError::Unauthorized)
    );
    let unknown = UpdateStatusRequest {
        caller: key(2),
        caller_signed: true,
        target: target.clone(),
        status_text: b"archived".to_vec(),
    };
    assert_eq!(
        process_update_message_status(&mut ledger, &unknown),
        Err(ChatError::InvalidStatus)
    );
    let missing = UpdateStatusRequest {
        caller: key(2),
        caller_signed: true,
        target: key(8),
        status_text: b"delivered".to_vec(),
    };
    assert_eq!(
        process_update_message_status(&mut ledger, &missing),
        Err(ChatError::MessageNotFound)
    );
}

#[test]
fn update_status_on_malformed_or_uninitialized_record_is_not_found() {
    let mut ledger = Ledger::new();
    ledger.insert_account(key(5), 1, vec![7, 7, 7]);
    let req = UpdateStatusRequest {
        caller: key(2),
        caller_signed: true,
        target: key(5),
        status_text: b"delivered".to_vec(),
    };
    assert_eq!(process_update_message_status(&mut ledger, &req), Err(ChatError::MessageNotFound));
    let uninit = MessageAccount {
        is_initialized: false,
        sender: key(1),
        recipient: key(2),
        content: Vec::new(),
        timestamp: 1,
        is_encrypted: false,
        status: MessageStatus::Sent,
        group_id: None,
    };
    ledger.insert_account(key(6), 1, encode_message(&uninit));
    let req = UpdateStatusRequest {
        caller: key(2),
        caller_signed: true,
        target: key(6),
        status_text: b"delivered".to_vec(),
    };
    assert_eq!(process_update_message_status(&mut ledger, &req), Err(ChatError::MessageNotFound));
}

#[test]
fn create_group_writes_initialized_record() {
    let program_id = key(9);
    let mut ledger = funded_ledger(1, 100_000);
    let gid = generate_group_id(1000, &key(1));
    let (target, _nonce) = group_address(&program_id, &gid);
    let req = CreateGroupRequest {
        creator: key(1),
        creator_signed: true,
        target: target.clone(),
        name: b"team".to_vec(),
        participants: vec![key(2), key(3)],
    };
    assert_eq!(process_create_group(&mut ledger, &program_id, &req, &schedule(), 1000), Ok(()));
    let g = decode_group(&ledger.fetch(&target).unwrap()).expect("group decodes");
    assert!(g.is_initialized);
    assert_eq!(g.id, gid);
    assert_eq!(g.name, b"team".to_vec());
    assert_eq!(g.participants, vec![key(2), key(3)]);
    assert_eq!(g.created_at, 1000);
    assert_eq!(g.creator, key(1));
}

#[test]
fn create_group_rejections() {
    let program_id = key(9);
    let mut ledger = funded_ledger(1, 100_000);
    let gid = generate_group_id(1000, &key(1));
    let (target, _nonce) = group_address(&program_id, &gid);
    let unsigned = CreateGroupRequest {
        creator: key(1),
        creator_signed: false,
        target: target.clone(),
        name: b"team".to_vec(),
        participants: vec![key(2)],
    };
    assert_eq!(
        process_create_group(&mut ledger, &program_id, &unsigned, &schedule(), 1000),
        Err(ChatError::Unauthorized)
    );
    let forged = CreateGroupRequest {
        creator: key(1),
        creator_signed: true,
        target: key(7),
        name: b"team".to_vec(),
        participants: vec![key(2)],
    };
    assert_eq!(
        process_create_group(&mut ledger, &program_id, &forged, &schedule(), 1000),
        Err(ChatError::InvalidAddress)
    );
    // A ledger time of 20 decimal digits makes the identifier too long for
    // one 32-byte seed.
    let long = CreateGroupRequest {
        creator: key(1),
        creator_signed: true,
        target: target.clone(),
        name: b"team".to_vec(),
        participants: vec![key(2)],
    };
    assert_eq!(
        process_create_group(&mut ledger, &program_id, &long, &schedule(), u64::MAX),
        Err(ChatError::InvalidGroup)
    );
    let ok = CreateGroupRequest {
        creator: key(1),
        creator_signed: true,
        target: target.clone(),
        name: b"team".to_vec(),
        participants: vec![key(2)],
    };
    assert_eq!(process_create_group(&mut ledger, &program_id, &ok, &schedule(), 1000), Ok(()));
    let duplicate = CreateGroupRequest {
        creator: key(1),
        creator_signed: true,
        target: target.clone(),
        name: b"other".to_vec(),
        participants: vec![key(3)],
    };
    assert_eq!(
        process_create_group(&mut ledger, &program_id, &duplicate, &schedule(), 1000),
        Err(ChatError::AddressOccupied)
    );
}

#[test]
fn dispatcher_routes_send_message() {
    let program_id = key(9);
    let mut ledger = funded_ledger(1, 10_000);
    let (target, _nonce) = message_address(&program_id, &key(1), &key(2), 1000);
    let built = send_message(
        &program_id,
        &key(1),
        &key(2),
        &target,
        b"hello".to_vec(),
        1000,
        false,
        None,
    );
    assert_eq!(built.program_id, program_id);
    assert_eq!(built.accounts.len(), 5);
    assert!(built.accounts[0].is_signer);
    assert!(built.accounts[1].is_writable);
    let acc = OperationAccounts {
        signer: key(1),
        signer_is_signer: true,
        target: target.clone(),
        recipient: Some(key(2)),
    };
    let r = process_instruction(&mut ledger, &program_id, &acc, &built.data, &schedule(), 1000);
    assert_eq!(r, Ok(()));
    let m = decode_message(&ledger.fetch(&target).unwrap()).unwrap();
    assert_eq!(m.status, MessageStatus::Sent);
}

#[test]
fn dispatcher_requires_recipient_and_valid_payload() {
    let program_id = key(9);
    let mut ledger = funded_ledger(1, 10_000);
    let (target, _nonce) = message_address(&program_id, &key(1), &key(2), 1000);
    let built = send_message(
        &program_id,
        &key(1),
        &key(2),
        &target,
        b"hello".to_vec(),
        1000,
        false,
        None,
    );
    let no_recipient = OperationAccounts {
        signer: key(1),
        signer_is_signer: true,
        target: target.clone(),
        recipient: None,
    };
    assert_eq!(
        process_instruction(&mut ledger, &program_id, &no_recipient, &built.data, &schedule(), 0),
        Err(ChatError::InvalidRecipient)
    );
    let acc = OperationAccounts {
        signer: key(1),
        signer_is_signer: true,
        target: target.clone(),
        recipient: Some(key(2)),
    };
    assert_eq!(
        process_instruction(&mut ledger, &program_id, &acc, &vec![42u8], &schedule(), 0),
        Err(ChatError::InvalidInstruction)
    );
}

#[test]
fn dispatcher_routes_group_and_status_operations() {
    let program_id = key(9);
    let mut ledger = funded_ledger(1, 100_000);
    let gid = generate_group_id(1000, &key(1));
    let (group_target, _nonce) = group_address(&program_id, &gid);
    let built = create_group(
        &program_id,
        &key(1),
        &group_target,
        b"team".to_vec(),
        vec![key(2)],
    );
    assert_eq!(built.accounts.len(), 4);
    let acc = OperationAccounts {
        signer: key(1),
        signer_is_signer: true,
        target: group_target.clone(),
        recipient: None,
    };
    assert_eq!(
        process_instruction(&mut ledger, &program_id, &acc, &built.data, &schedule(), 1000),
        Ok(())
    );
    assert!(ledger.fetch(&group_target).is_some());

    let (msg_target, _nonce) = message_address(&program_id, &key(1), &key(2), 77);
    let send = send_message(
        &program_id,
        &key(1),
        &key(2),
        &msg_target,
        b"hi".to_vec(),
        77,
        false,
        None,
    );
    let send_acc = OperationAccounts {
        signer: key(1),
        signer_is_signer: true,
        target: msg_target.clone(),
        recipient: Some(key(2)),
    };
    assert_eq!(
        process_instruction(&mut ledger, &program_id, &send_acc, &send.data, &schedule(), 0),
        Ok(())
    );
    let update = update_message_status(&program_id, &key(2), &msg_target, b"read".to_vec());
    assert_eq!(update.accounts.len(), 2);
    let update_acc = OperationAccounts {
        signer: key(2),
        signer_is_signer: true,
        target: msg_target.clone(),
        recipient: None,
    };
    assert_eq!(
        process_instruction(&mut ledger, &program_id, &update_acc, &update.data, &schedule(), 0),
        Ok(())
    );
    let m = decode_message(&ledger.fetch(&msg_target).unwrap()).unwrap();
    assert_eq!(m.status, MessageStatus::Read);
}

#[test]
fn status_names_parse_and_print() {
    assert_eq!(MessageStatus::from_text(&b"sent".to_vec()), Some(MessageStatus::Sent));
    assert_eq!(MessageStatus::from_text(&b"delivered".to_vec()), Some(MessageStatus::Delivered));
    assert_eq!(MessageStatus::from_text(&b"read".to_vec()), Some(MessageStatus::Read));
    assert_eq!(MessageStatus::from_text(&b"Sent".to_vec()), None);
    assert_eq!(MessageStatus::Sent.name_bytes(), b"sent".to_vec());
    assert_eq!(MessageStatus::Delivered.name_bytes(), b"delivered".to_vec());
    assert_eq!(MessageStatus::Read.name_bytes(), b"read".to_vec());
}

#[test]
fn error_codes_are_distinct() {
    let all = [
        ChatError::InvalidInstruction,
        ChatError::NotRentExempt,
        ChatError::ExpectedAmountMismatch,
        ChatError::AmountOverflow,
        ChatError::Unauthorized,
        ChatError::MessageTooLong,
        ChatError::InvalidRecipient,
        ChatError::InvalidGroup,
        ChatError::MessageNotFound,
        ChatError::InvalidStatus,
        ChatError::AddressOccupied,
        ChatError::InvalidAddress,
    ];
    for (i, a) in all.iter().enumerate() {
        for (j, b) in all.iter().enumerate() {
            assert_eq!(i == j, a.code() == b.code());
        }
    }
}
