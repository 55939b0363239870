use zkl_inbox::crypto::{compress_key, derive_address};
use zkl_inbox::error::ErrorCode;
use zkl_inbox::registry::{
    binding_message_bytes, binding_message_hash, check_binding, ed25519_instruction_data, process_instruction, registry_tag_bytes,
    verify_ec_signature, BindRequest, ZklAccount, ZKL_ACCOUNT_LEN,
};

fn program_id() -> Vec<u8> {
    vec![3u8; 32]
}

fn payer() -> Vec<u8> {
    vec![8u8; 32]
}

fn secret() -> libsecp256k1::SecretKey {
    libsecp256k1::SecretKey::parse(&[42u8; 32]).unwrap()
}

fn ec_key() -> Vec<u8> {
    libsecp256k1::PublicKey::from_secret_key(&secret()).serialize_compressed().to_vec()
}

fn sign_digest(digest: &[u8]) -> Vec<u8> {
    let msg = libsecp256k1::Message::parse_slice(digest).unwrap();
    let (sig, recid) = libsecp256k1::sign(&msg, &secret());
    let mut out = sig.serialize().to_vec();
    out.push(recid.serialize());
    out
}

fn slot_key(index: u32) -> Vec<u8> {
    derive_address(&registry_tag_bytes(), &payer(), index, &program_id()).unwrap().0
}

fn request(index: u32) -> BindRequest {
    let digest = binding_message_hash(&slot_key(index));
    BindRequest { ec_pubkey: ec_key(), zkl_sig: sign_digest(&digest), solana_sig: vec![5u8; 64], index }
}

#[test]
fn bind_succeeds_once() {
    let key = slot_key(0);
    let slot = ZklAccount::empty().pack();
    let ix = request(0).encode();
    let written = process_instruction(&program_id(), &key, &payer(), &slot, &ix, true).unwrap();
    assert_eq!(written.len(), ZKL_ACCOUNT_LEN);
    let bound = ZklAccount::unpack_from_slice(&written).unwrap();
    assert!(bound.is_initialized);
    assert_eq!(bound.ec_pubkey, ec_key());
    assert_eq!(bound.solana_sig, vec![5u8; 64]);
    let again = process_instruction(&program_id(), &key, &payer(), &written, &ix, true);
    assert_eq!(again, Err(ErrorCode::AlreadyInitialized));
}

#[test]
fn host_rejection_leaves_slot_unbound() {
    let key = slot_key(0);
    let slot = ZklAccount::empty().pack();
    let ix = request(0).encode();
    let res = process_instruction(&program_id(), &key, &payer(), &slot, &ix, false);
    assert_eq!(res, Err(ErrorCode::Unauthorized));
    assert!(!ZklAccount::unpack_from_slice(&slot).unwrap().is_initialized);
}

#[test]
fn signature_for_another_slot_is_refused() {
    let slot = ZklAccount::empty().pack();
    let mut req = request(0);
    req.index = 1;
    let res = process_instruction(&program_id(), &slot_key(1), &payer(), &slot, &req.encode(), true);
    assert_eq!(res, Err(ErrorCode::SignatureInvalid));
}

#[test]
fn bind_errors() {
    let slot = ZklAccount::empty().pack();
    let ix = request(0).encode();
    let res = process_instruction(&program_id(), &slot_key(1), &payer(), &slot, &ix, true);
    assert_eq!(res, Err(ErrorCode::AddressMismatch));
    let mut req = request(0);
    req.zkl_sig.pop();
    let res = process_instruction(&program_id(), &slot_key(0), &payer(), &slot, &req.encode(), true);
    assert_eq!(res, Err(ErrorCode::MalformedSignature));
    let res = process_instruction(&program_id(), &slot_key(0), &payer(), &slot, &vec![0u8; 100], true);
    assert_eq!(res, Err(ErrorCode::InvalidInstructionData));
    let res = process_instruction(&program_id(), &slot_key(0), &payer(), &vec![0u8; 197], &ix, true);
    assert_eq!(res, Err(ErrorCode::InvalidAccountData));
    let mut bad_flag = slot.clone();
    bad_flag[0] = 2;
    assert!(ZklAccount::unpack_from_slice(&bad_flag).is_err());
}

#[test]
fn flipped_message_bit_fails_verification() {
    let message = binding_message_bytes(&slot_key(0));
    let digest = binding_message_hash(&slot_key(0));
    let sig = sign_digest(&digest);
    assert_eq!(verify_ec_signature(&message, &sig, &ec_key()), Ok(()));
    let mut flipped = message.clone();
    flipped[3] ^= 1;
    assert_eq!(verify_ec_signature(&flipped, &sig, &ec_key()), Err(ErrorCode::SignatureInvalid));
    assert_eq!(verify_ec_signature(&message, &sig[..64].to_vec(), &ec_key()), Err(ErrorCode::MalformedSignature));
}

#[test]
fn binding_message_is_tag_and_base58_address() {
    let address = slot_key(0);
    let message = binding_message_bytes(&address);
    let expected = format!("ZKLAccount:{}", bs58::encode(&address).into_string());
    assert_eq!(message, expected.into_bytes());
    let digest = binding_message_hash(&address);
    assert_eq!(digest.len(), 32);
    assert_ne!(digest, binding_message_hash(&slot_key(1)));
}

#[test]
fn compressed_key_matches_curve_library() {
    let pk = libsecp256k1::PublicKey::from_secret_key(&secret());
    let full = pk.serialize();
    assert_eq!(compress_key(&full[1..65].to_vec()), pk.serialize_compressed().to_vec());
}

#[test]
fn zkl_layout_matches_borsh() {
    let a = ZklAccount {
        is_initialized: true,
        ec_pubkey: ec_key(),
        zkl_sig: vec![6u8; 65],
        solana_sig: vec![7u8; 64],
        index: 0x01020304,
    };
    let bytes = a.pack();
    assert_eq!(bytes.len(), ZKL_ACCOUNT_LEN);
    let mut padded = [0u8; 64];
    padded[..33].copy_from_slice(&ec_key());
    let theirs = borsh::to_vec(&(true, padded, [6u8; 65], [7u8; 64], 0x01020304u32)).unwrap();
    assert_eq!(bytes, theirs);
    let back = ZklAccount::unpack_from_slice(&bytes).unwrap();
    assert_eq!(back.index, 0x01020304);
    let mut dst = vec![0u8; ZKL_ACCOUNT_LEN];
    back.pack_into_slice(&mut dst);
    assert_eq!(dst, bytes);
}

#[test]
fn ed25519_instruction_layout() {
    let data = ed25519_instruction_data(&vec![1u8; 64], &payer(), &vec![2u8; 32]);
    assert_eq!(data.len(), 16 + 64 + 32 + 32);
    assert_eq!(&data[..2], &[1u8, 0u8]);
    let offsets: [u16; 7] = [16, u16::MAX, 80, u16::MAX, 112, 32, u16::MAX];
    assert_eq!(&data[2..16], bytemuck::bytes_of(&offsets));
    assert_eq!(&data[2..16], &[16, 0, 255, 255, 80, 0, 255, 255, 112, 0, 32, 0, 255, 255]);
    assert_eq!(&data[16..80], &[1u8; 64][..]);
    assert_eq!(&data[80..112], &payer()[..]);
    assert_eq!(&data[112..], &[2u8; 32][..]);
}

#[test]
fn derivation_is_deterministic_and_index_sensitive() {
    let a = derive_address(&registry_tag_bytes(), &payer(), 0, &program_id()).unwrap();
    let b = derive_address(&registry_tag_bytes(), &payer(), 0, &program_id()).unwrap();
    let c = derive_address(&registry_tag_bytes(), &payer(), 1, &program_id()).unwrap();
    assert_eq!(a, b);
    assert_ne!(a.0, c.0);
    assert_eq!(a.0.len(), 32);
    let seeds: [&[u8]; 3] = [b"zkl_account", &payer(), &0u32.to_le_bytes()];
    let program = solana_program::pubkey::Pubkey::new_from_array([3u8; 32]);
    let (pda, bump) = solana_program::pubkey::Pubkey::find_program_address(&seeds, &program);
    assert_eq!(a.0, pda.to_bytes().to_vec());
    assert_eq!(a.1, bump);
}

#[test]
fn error_messages() {
    assert_eq!(ErrorCode::InboxFull.message(), "inbox is full");
    assert_eq!(ErrorCode::SignatureInvalid.message(), "EC public key mismatch");
}

#[test]
fn bind_decision_on_given_verdicts() {
    let slot = ZklAccount::empty();
    let req = request(0);
    let ok = check_binding(&slot, &req, true, Ok(()), true).unwrap();
    assert!(ok.is_initialized);
    assert_eq!(ok.index, 0);
    assert_eq!(ok.zkl_sig, req.zkl_sig);
    assert_eq!(check_binding(&slot, &req, true, Ok(()), false).err(), Some(ErrorCode::Unauthorized));
    assert_eq!(
        check_binding(&slot, &req, true, Err(ErrorCode::SignatureInvalid), true).err(),
        Some(ErrorCode::SignatureInvalid)
    );
    assert_eq!(check_binding(&slot, &req, false, Ok(()), true).err(), Some(ErrorCode::AddressMismatch));
    assert_eq!(check_binding(&ok, &req, true, Ok(()), true).err(), Some(ErrorCode::AlreadyInitialized));
}
