use zkl_inbox::crypto::derive_address;
use zkl_inbox::error::ErrorCode;
use zkl_inbox::inbox::{add_message, get_messages, initialize_inbox, FileTxRecord, InboxAccount, MAX_LINK_LEN, MAX_MESSAGES};
use zkl_inbox::inbox_layout::{push_record, INBOX_ACCOUNT_LEN};
use zkl_inbox::inbox_program::{inbox_tag_bytes, process_instruction, InboxInstruction};

fn program_id() -> Vec<u8> {
    vec![7u8; 32]
}

fn owner() -> Vec<u8> {
    vec![9u8; 32]
}

fn key_of(seed: u8) -> Vec<u8> {
    let sk = libsecp256k1::SecretKey::parse(&[seed; 32]).unwrap();
    libsecp256k1::PublicKey::from_secret_key(&sk).serialize_compressed().to_vec()
}

fn record(link_len: usize, timestamp: i64) -> FileTxRecord {
    FileTxRecord {
        sender_ec_pubkey: key_of(3),
        encrypted_link: vec![0xabu8; link_len],
        ephemeral_pubkey: key_of(4),
        timestamp,
        signature: vec![0x11u8; 64],
    }
}

fn active_inbox() -> InboxAccount {
    let mut a = InboxAccount::empty();
    initialize_inbox(&mut a, &key_of(1), &owner(), 254).unwrap();
    a
}

fn slot_key(index: u32) -> Vec<u8> {
    derive_address(&inbox_tag_bytes(), &owner(), index, &program_id()).unwrap().0
}

fn init_ix(index: u32) -> Vec<u8> {
    let mut ix = vec![0u8];
    ix.extend_from_slice(&key_of(1));
    ix.extend_from_slice(&index.to_le_bytes());
    ix
}

fn append_ix(index: u32, r: &FileTxRecord) -> Vec<u8> {
    let mut ix = vec![1u8];
    ix.extend_from_slice(&owner());
    ix.extend_from_slice(&index.to_le_bytes());
    push_record(&mut ix, r);
    ix
}

fn initialized_slot(index: u32) -> Vec<u8> {
    let empty = InboxAccount::empty().pack();
    process_instruction(&program_id(), &slot_key(index), &owner(), true, &empty, &init_ix(index)).unwrap()
}

#[test]
fn end_to_end_read_is_timestamp_ordered() {
    let key = slot_key(0);
    let mut slot = initialized_slot(0);
    for ts in [100i64, 50] {
        let ix = append_ix(0, &record(10, ts));
        slot = process_instruction(&program_id(), &key, &owner(), true, &slot, &ix).unwrap();
        assert_eq!(slot.len(), INBOX_ACCOUNT_LEN);
    }
    let inbox = InboxAccount::unpack_from_slice(&slot).unwrap();
    assert!(inbox.is_initialized);
    assert_eq!(inbox.recipient_ec_pubkey, key_of(1));
    assert_eq!(inbox.recipient_wallet, owner());
    let read = get_messages(&inbox);
    let stamps: Vec<i64> = read.iter().map(|r| r.timestamp).collect();
    assert_eq!(stamps, vec![50, 100]);
    assert_eq!(read[0].encrypted_link, vec![0xabu8; 10]);
    let again: Vec<i64> = get_messages(&inbox).iter().map(|r| r.timestamp).collect();
    assert_eq!(again, stamps);
    let stored: Vec<i64> = inbox.messages.iter().map(|r| r.timestamp).collect();
    assert_eq!(stored, vec![100, 50]);
}

#[test]
fn read_is_stable_on_equal_timestamps() {
    let mut a = active_inbox();
    for (i, ts) in [5i64, 3, 5, 3, -1].iter().enumerate() {
        let mut r = record(i + 1, *ts);
        r.encrypted_link = vec![i as u8; 1];
        a.append_record(r, true, true).unwrap();
    }
    let read = get_messages(&a);
    let seen: Vec<(i64, u8)> = read.iter().map(|r| (r.timestamp, r.encrypted_link[0])).collect();
    assert_eq!(seen, vec![(-1, 4), (3, 1), (3, 3), (5, 0), (5, 2)]);
}

#[test]
fn hundred_and_first_append_is_refused() {
    let mut a = active_inbox();
    for i in 0..MAX_MESSAGES {
        a.append_record(record(1, i as i64), true, true).unwrap();
    }
    let before = a.pack();
    assert_eq!(a.append_record(record(1, 0), true, true), Err(ErrorCode::InboxFull));
    assert_eq!(a.pack(), before);
    let slot = before.clone();
    let ix = append_ix(0, &record(1, 0));
    let res = process_instruction(&program_id(), &slot_key(0), &owner(), true, &slot, &ix);
    assert_eq!(res, Err(ErrorCode::InboxFull));
    let reread = InboxAccount::unpack_from_slice(&slot).unwrap();
    assert_eq!(reread.pack(), before);
}

#[test]
fn link_bound_is_inclusive() {
    let key = slot_key(0);
    let slot = initialized_slot(0);
    let too_long = append_ix(0, &record(MAX_LINK_LEN + 1, 1));
    assert_eq!(
        process_instruction(&program_id(), &key, &owner(), true, &slot, &too_long),
        Err(ErrorCode::PayloadTooLarge)
    );
    let longest = append_ix(0, &record(MAX_LINK_LEN, 1));
    let out = process_instruction(&program_id(), &key, &owner(), true, &slot, &longest).unwrap();
    let inbox = InboxAccount::unpack_from_slice(&out).unwrap();
    assert_eq!(inbox.messages.len(), 1);
    assert_eq!(inbox.messages[0].encrypted_link.len(), MAX_LINK_LEN);
}

#[test]
fn invalid_keys_are_refused() {
    let mut a = active_inbox();
    let mut bad = key_of(4);
    bad[0] = 0x05;
    let res = add_message(&mut a, key_of(3), vec![1, 2, 3], bad, 1, vec![0u8; 64], true);
    assert_eq!(res, Err(ErrorCode::InvalidKey));
    let off_curve = vec![0x02u8; 1].into_iter().chain(vec![0xffu8; 32]).collect::<Vec<u8>>();
    let res = add_message(&mut a, off_curve, vec![1, 2, 3], key_of(4), 1, vec![0u8; 64], true);
    assert_eq!(res, Err(ErrorCode::InvalidKey));
    let res = add_message(&mut a, key_of(3), vec![1, 2, 3], vec![2u8; 32], 1, vec![0u8; 64], true);
    assert_eq!(res, Err(ErrorCode::InvalidKey));
    assert_eq!(a.messages.len(), 0);
    assert_eq!(add_message(&mut a, key_of(3), vec![1, 2, 3], key_of(4), 1, vec![0u8; 64], true), Ok(()));
    assert_eq!(a.messages.len(), 1);
}

#[test]
fn other_append_errors() {
    let mut fresh = InboxAccount::empty();
    assert_eq!(fresh.append_record(record(1, 1), true, true), Err(ErrorCode::UninitializedAccount));
    let mut a = active_inbox();
    assert_eq!(a.append_record(record(1, 1), true, false), Err(ErrorCode::Unauthorized));
    let mut r = record(1, 1);
    r.signature = vec![0u8; 63];
    assert_eq!(a.append_record(r, true, true), Err(ErrorCode::MalformedSignature));
    assert_eq!(a.messages.len(), 0);
}

#[test]
fn initialize_only_once() {
    let mut a = active_inbox();
    assert_eq!(initialize_inbox(&mut a, &key_of(2), &owner(), 1), Err(ErrorCode::AlreadyInitialized));
    assert_eq!(a.recipient_ec_pubkey, key_of(1));
    let slot = initialized_slot(3);
    let res = process_instruction(&program_id(), &slot_key(3), &owner(), true, &slot, &init_ix(3));
    assert_eq!(res, Err(ErrorCode::AlreadyInitialized));
}

#[test]
fn wrong_slot_address_is_refused() {
    let empty = InboxAccount::empty().pack();
    let res = process_instruction(&program_id(), &slot_key(1), &owner(), true, &empty, &init_ix(0));
    assert_eq!(res, Err(ErrorCode::AddressMismatch));
    let slot = initialized_slot(0);
    let res = process_instruction(&program_id(), &slot_key(1), &owner(), true, &slot, &append_ix(0, &record(1, 1)));
    assert_eq!(res, Err(ErrorCode::AddressMismatch));
}

#[test]
fn initialize_needs_the_payer_signature() {
    let empty = InboxAccount::empty().pack();
    let res = process_instruction(&program_id(), &slot_key(0), &owner(), false, &empty, &init_ix(0));
    assert_eq!(res, Err(ErrorCode::Unauthorized));
}

#[test]
fn malformed_slot_and_instruction() {
    let short = vec![0u8; INBOX_ACCOUNT_LEN - 1];
    let res = process_instruction(&program_id(), &slot_key(0), &owner(), true, &short, &init_ix(0));
    assert_eq!(res, Err(ErrorCode::InvalidAccountData));
    let mut dirty = InboxAccount::empty().pack();
    dirty[INBOX_ACCOUNT_LEN - 1] = 1;
    assert_eq!(InboxAccount::unpack_from_slice(&dirty).err(), Some(ErrorCode::InvalidAccountData));
    let empty = InboxAccount::empty().pack();
    let res = process_instruction(&program_id(), &slot_key(0), &owner(), true, &empty, &vec![2u8, 0, 0]);
    assert_eq!(res, Err(ErrorCode::InvalidInstructionData));
    let mut ix = append_ix(0, &record(3, 1));
    ix.push(0);
    assert_eq!(InboxInstruction::decode(&ix).err(), Some(ErrorCode::InvalidInstructionData));
}

#[test]
fn record_layout_matches_borsh() {
    let r = record(10, -2);
    let mut mine = Vec::new();
    push_record(&mut mine, &r);
    let sender: [u8; 33] = r.sender_ec_pubkey.clone().try_into().unwrap();
    let eph: [u8; 33] = r.ephemeral_pubkey.clone().try_into().unwrap();
    let sig: [u8; 64] = r.signature.clone().try_into().unwrap();
    let theirs = borsh::to_vec(&(sender, r.encrypted_link.clone(), eph, r.timestamp, sig)).unwrap();
    assert_eq!(mine, theirs);
    assert_eq!(mine.len(), 142 + 10);
}

#[test]
fn empty_slot_is_all_zero_and_round_trips() {
    let bytes = InboxAccount::empty().pack();
    assert_eq!(bytes.len(), INBOX_ACCOUNT_LEN);
    assert!(bytes.iter().all(|b| *b == 0));
    let a = InboxAccount::unpack_from_slice(&bytes).unwrap();
    assert!(!a.is_initialized);
    assert_eq!(a.pack(), bytes);
}

#[test]
fn unpack_requires_an_active_inbox() {
    let empty = InboxAccount::empty().pack();
    assert_eq!(InboxAccount::unpack(&empty).err(), Some(ErrorCode::UninitializedAccount));
    assert_eq!(InboxAccount::unpack(&vec![0u8; 3]).err(), Some(ErrorCode::InvalidAccountData));
    let slot = initialized_slot(0);
    let a = InboxAccount::unpack(&slot).unwrap();
    assert!(a.is_initialized);
    assert_eq!(InboxAccount::get_packed_len(), INBOX_ACCOUNT_LEN);
    let mut dst = vec![0u8; INBOX_ACCOUNT_LEN];
    a.pack_into_slice(&mut dst);
    assert_eq!(dst, slot);
}
