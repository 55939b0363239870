//! The identity registry: a one-time binding of a secp256k1 identity to a host
//! identity, guarded by an EC signature and a host signature over one message.
use vstd::prelude::*;
use crate::codec::{u32_round_trip, push_all, push_u16, push_u32, push_zeros, read_bytes, read_u32, u16_le, u32_le, u32_of, zeros};
use crate::crypto::{address_matches, base58, base58_of, compress_key, compressed_key, derived_address, secp256k1_recover, secp256k1_recovered, sha256, sha256_of};
use crate::error::ErrorCode;

verus! {

/// Width of a stored registry slot: flag, padded key, EC signature with its
/// recovery byte, host signature, index.
pub const ZKL_ACCOUNT_LEN: usize = 1 + 64 + 65 + 64 + 4;

/// The view of a registry slot.
pub struct ZklModel {
    pub is_initialized: bool,
    pub ec_pubkey: Seq<u8>,
    pub zkl_sig: Seq<u8>,
    pub solana_sig: Seq<u8>,
    pub index: u32,
}

/// A registry slot. `ec_pubkey` is a 33-byte compressed key, stored padded to
/// 64 bytes; `zkl_sig` is a 64-byte signature followed by its recovery byte;
/// `solana_sig` is the 64-byte host signature.
pub struct ZklAccount {
    pub is_initialized: bool,
    pub ec_pubkey: Vec<u8>,
    pub zkl_sig: Vec<u8>,
    pub solana_sig: Vec<u8>,
    pub index: u32,
}

impl View for ZklAccount {
    type V = ZklModel;

    open spec fn view(&self) -> ZklModel {
        ZklModel {
            is_initialized: self.is_initialized,
            ec_pubkey: self.ec_pubkey@,
            zkl_sig: self.zkl_sig@,
            solana_sig: self.solana_sig@,
            index: self.index,
        }
    }
}

impl ZklModel {
    /// Every field has its fixed width.
    pub open spec fn wf(self) -> bool {
        &&& self.ec_pubkey.len() == 33
        &&& self.zkl_sig.len() == 65
        &&& self.solana_sig.len() == 64
    }
}

/// The stored bytes of a registry slot.
pub open spec fn zkl_bytes(m: ZklModel) -> Seq<u8> {
    seq![if m.is_initialized { 1u8 } else { 0u8 }] + m.ec_pubkey + zeros(31) + m.zkl_sig + m.solana_sig
        + u32_le(m.index)
}

/// Whether `b` is the stored form of some registry slot.
pub open spec fn zkl_decodable(b: Seq<u8>) -> bool {
    &&& b.len() == ZKL_ACCOUNT_LEN
    &&& b[0] <= 1
    &&& b.subrange(34, 65) == zeros(31)
}

/// The registry slot stored in `b`, read field by field.
pub open spec fn zkl_decoded(b: Seq<u8>) -> ZklModel {
    ZklModel {
        is_initialized: b[0] == 1,
        ec_pubkey: b.subrange(1, 34),
        zkl_sig: b.subrange(65, 130),
        solana_sig: b.subrange(130, 194),
        index: u32_of(b.subrange(194, 198)),
    }
}

impl ZklAccount {
    /// The slot as freshly allocated storage holds it: all zero, not initialized.
    pub fn empty() -> (r: ZklAccount)
        ensures
            r@.wf(),
            !r@.is_initialized,
            zkl_bytes(r@) == zeros(ZKL_ACCOUNT_LEN as nat),
    {
        let mut ec_pubkey: Vec<u8> = Vec::new();
        push_zeros(&mut ec_pubkey, 33);
        let mut zkl_sig: Vec<u8> = Vec::new();
        push_zeros(&mut zkl_sig, 65);
        let mut solana_sig: Vec<u8> = Vec::new();
        push_zeros(&mut solana_sig, 64);
        let r = ZklAccount { is_initialized: false, ec_pubkey, zkl_sig, solana_sig, index: 0 };
        let z: u32 = 0;
        assert((z & 0xff) == 0 && ((z >> 8u32) & 0xff) == 0 && ((z >> 16u32) & 0xff) == 0 && (z >> 24u32) == 0) by (bit_vector)
            requires
                z == 0,
        ;
        assert(u32_le(0) =~= zeros(4));
        assert(zkl_bytes(r@) =~= zeros(ZKL_ACCOUNT_LEN as nat));
        r
    }

    /// The stored bytes of this slot.
    pub fn pack(&self) -> (r: Vec<u8>)
        requires
            self@.wf(),
        ensures
            r@ == zkl_bytes(self@),
            r@.len() == ZKL_ACCOUNT_LEN,
    {
        let mut out: Vec<u8> = Vec::new();
        out.push(if self.is_initialized { 1u8 } else { 0u8 });
        push_all(&mut out, &self.ec_pubkey);
        push_zeros(&mut out, 31);
        push_all(&mut out, &self.zkl_sig);
        push_all(&mut out, &self.solana_sig);
        push_u32(&mut out, self.index);
        assert(out@ =~= zkl_bytes(self@));
        out
    }

    /// Writes this slot over `dst`, which has the slot's fixed width.
    pub fn pack_into_slice(&self, dst: &mut Vec<u8>)
        requires
            self@.wf(),
            old(dst)@.len() == ZKL_ACCOUNT_LEN,
        ensures
            final(dst)@ == zkl_bytes(self@),
    {
        *dst = self.pack();
    }

    /// Reads a slot from its stored bytes.
    pub fn unpack_from_slice(src: &Vec<u8>) -> (r: Result<ZklAccount, ErrorCode>)
        ensures
            zkl_decodable(src@) <==> r is Ok,
            r is Err ==> r == Err::<ZklAccount, ErrorCode>(ErrorCode::InvalidAccountData),
            r matches Ok(a) ==> a@ == zkl_decoded(src@) && a@.wf() && zkl_bytes(a@) == src@,
    {
        if src.len() != ZKL_ACCOUNT_LEN || src[0] > 1 {
            return Err(ErrorCode::InvalidAccountData);
        }
        let padding = read_bytes(src, 34, 31);
        if !crate::codec::bytes_equal(&padding, &zero_bytes(31)) {
            return Err(ErrorCode::InvalidAccountData);
        }
        let ec_pubkey = read_bytes(src, 1, 33);
        let zkl_sig = read_bytes(src, 65, 65);
        let solana_sig = read_bytes(src, 130, 64);
        let index = read_u32(src, 194);
        let a = ZklAccount { is_initialized: src[0] == 1, ec_pubkey, zkl_sig, solana_sig, index };
        proof {
            let b = src@;
            assert(zkl_bytes(a@) =~= b);
            assert(index == u32_of(b.subrange(194, 198)));
        }
        Ok(a)
    }
}

/// `n` zero bytes.
fn zero_bytes(n: usize) -> (r: Vec<u8>)
    ensures
        r@ == zeros(n as nat),
{
    let mut r: Vec<u8> = Vec::new();
    push_zeros(&mut r, n);
    r
}

/// Decoding the stored bytes of a well-formed slot gives the slot back.
pub proof fn zkl_round_trip(m: ZklModel)
    requires
        m.wf(),
    ensures
        zkl_decodable(zkl_bytes(m)),
        zkl_decoded(zkl_bytes(m)) == m,
{
    let b = zkl_bytes(m);
    assert(b.subrange(34, 65) =~= zeros(31));
    assert(b.subrange(1, 34) =~= m.ec_pubkey);
    assert(b.subrange(65, 130) =~= m.zkl_sig);
    assert(b.subrange(130, 194) =~= m.solana_sig);
    assert(b.subrange(194, 198) =~= u32_le(m.index));
    u32_round_trip(m.index);
}

/// A request to bind `ec_pubkey` (33 bytes) to the caller's host identity.
/// `zkl_sig` should be a 64-byte signature followed by its recovery byte;
/// `solana_sig` is the caller's 64-byte host signature.
pub struct BindRequest {
    pub ec_pubkey: Vec<u8>,
    pub zkl_sig: Vec<u8>,
    pub solana_sig: Vec<u8>,
    pub index: u32,
}

/// The view of a bind request.
pub struct BindModel {
    pub ec_pubkey: Seq<u8>,
    pub zkl_sig: Seq<u8>,
    pub solana_sig: Seq<u8>,
    pub index: u32,
}

impl View for BindRequest {
    type V = BindModel;

    open spec fn view(&self) -> BindModel {
        BindModel {
            ec_pubkey: self.ec_pubkey@,
            zkl_sig: self.zkl_sig@,
            solana_sig: self.solana_sig@,
            index: self.index,
        }
    }
}

impl BindModel {
    /// The key and the host signature have their fixed widths.
    pub open spec fn wf(self) -> bool {
        &&& self.ec_pubkey.len() == 33
        &&& self.solana_sig.len() == 64
    }
}

/// Width of the fixed part of a bind instruction: key, host signature, index.
pub const BIND_FIXED_LEN: usize = 33 + 64 + 4;

/// The instruction bytes of a bind request: key, host signature, index, then
/// the EC signature with its recovery byte.
pub open spec fn bind_request_bytes(q: BindModel) -> Seq<u8> {
    q.ec_pubkey + q.solana_sig + u32_le(q.index) + q.zkl_sig
}

/// The bind request held in instruction bytes of at least the fixed width.
pub open spec fn bind_request_decoded(b: Seq<u8>) -> BindModel {
    BindModel {
        ec_pubkey: b.subrange(0, 33),
        solana_sig: b.subrange(33, 97),
        index: u32_of(b.subrange(97, 101)),
        zkl_sig: b.subrange(101, b.len() as int),
    }
}

impl BindRequest {
    /// Reads a bind request from instruction bytes.
    pub fn decode(b: &Vec<u8>) -> (r: Result<BindRequest, ErrorCode>)
        ensures
            b@.len() >= BIND_FIXED_LEN <==> r is Ok,
            r is Err ==> r == Err::<BindRequest, ErrorCode>(ErrorCode::InvalidInstructionData),
            r matches Ok(q) ==> q@ == bind_request_decoded(b@) && q@.wf() && bind_request_bytes(q@) == b@,
    {
        if b.len() < BIND_FIXED_LEN {
            return Err(ErrorCode::InvalidInstructionData);
        }
        let ec_pubkey = read_bytes(b, 0, 33);
        let solana_sig = read_bytes(b, 33, 64);
        let index = read_u32(b, 97);
        let zkl_sig = read_bytes(b, 101, b.len() - 101);
        let q = BindRequest { ec_pubkey, zkl_sig, solana_sig, index };
        assert(bind_request_bytes(q@) =~= b@);
        Ok(q)
    }

    /// The instruction bytes of this request.
    pub fn encode(&self) -> (r: Vec<u8>)
        ensures
            r@ == bind_request_bytes(self@),
    {
        let mut out: Vec<u8> = Vec::new();
        push_all(&mut out, &self.ec_pubkey);
        push_all(&mut out, &self.solana_sig);
        push_u32(&mut out, self.index);
        push_all(&mut out, &self.zkl_sig);
        assert(out@ =~= bind_request_bytes(self@));
        out
    }
}

/// The domain tag of registry slot addresses, `zkl_account`.
pub open spec fn registry_tag() -> Seq<u8> {
    seq![0x7au8, 0x6bu8, 0x6cu8, 0x5fu8, 0x61u8, 0x63u8, 0x63u8, 0x6fu8, 0x75u8, 0x6eu8, 0x74u8]
}

/// The domain tag of the binding message, `ZKLAccount:`.
pub open spec fn binding_tag() -> Seq<u8> {
    seq![0x5au8, 0x4bu8, 0x4cu8, 0x41u8, 0x63u8, 0x63u8, 0x6fu8, 0x75u8, 0x6eu8, 0x74u8, 0x3au8]
}

/// The message both signatures sign: the tag, then the slot address in Base58.
pub open spec fn binding_message(address: Seq<u8>) -> Seq<u8> {
    binding_tag() + base58_of(address)
}

/// The digest that the host signature is made over; the EC signature check
/// hashes the message the same way.
pub open spec fn binding_hash(address: Seq<u8>) -> Seq<u8> {
    sha256_of(binding_message(address))
}

/// The domain tag of registry slot addresses.
pub fn registry_tag_bytes() -> (r: Vec<u8>)
    ensures
        r@ == registry_tag(),
{
    let r: Vec<u8> = vec![0x7au8, 0x6bu8, 0x6cu8, 0x5fu8, 0x61u8, 0x63u8, 0x63u8, 0x6fu8, 0x75u8, 0x6eu8, 0x74u8];
    assert(r@ =~= registry_tag());
    r
}

/// The message that binds an identity to the slot at `address`.
pub fn binding_message_bytes(address: &Vec<u8>) -> (r: Vec<u8>)
    ensures
        r@ == binding_message(address@),
{
    let mut r: Vec<u8> = vec![0x5au8, 0x4bu8, 0x4cu8, 0x41u8, 0x63u8, 0x63u8, 0x6fu8, 0x75u8, 0x6eu8, 0x74u8, 0x3au8];
    assert(r@ =~= binding_tag());
    let text = base58(address);
    push_all(&mut r, &text);
    r
}

/// The digest that the EC and host signatures of a binding sign.
pub fn binding_message_hash(address: &Vec<u8>) -> (r: Vec<u8>)
    ensures
        r@ == binding_hash(address@),
        r@.len() == 32,
{
    sha256(&binding_message_bytes(address))
}

/// The outcome of checking `signature` (64 bytes, then the recovery byte)
/// over the SHA-256 digest of `message` against the compressed key `key`.
pub open spec fn ec_signature_check(message: Seq<u8>, signature: Seq<u8>, key: Seq<u8>) -> Result<(), ErrorCode> {
    if signature.len() != 65 {
        Err(ErrorCode::MalformedSignature)
    } else if !(secp256k1_recovered(sha256_of(message), signature[64], signature.subrange(0, 64)) matches Some(k)
        && k.len() == 64 && compressed_key(k) == key) {
        Err(ErrorCode::SignatureInvalid)
    } else {
        Ok(())
    }
}

/// Checks that `signature` over the digest of `message` was made by `key`:
/// the key recovered from it, compressed, must equal `key`.
pub fn verify_ec_signature(message: &Vec<u8>, signature: &Vec<u8>, key: &Vec<u8>) -> (r: Result<(), ErrorCode>)
    ensures
        r == ec_signature_check(message@, signature@, key@),
{
    if signature.len() != 65 {
        return Err(ErrorCode::MalformedSignature);
    }
    let hash = sha256(message);
    let sig = read_bytes(signature, 0, 64);
    match secp256k1_recover(&hash, signature[64], &sig) {
        Some(k) => {
            if crate::codec::bytes_equal(&compress_key(&k), key) {
                Ok(())
            } else {
                Err(ErrorCode::SignatureInvalid)
            }
        },
        None => Err(ErrorCode::SignatureInvalid),
    }
}

/// What binding does to a slot, given whether the slot address matched, the
/// outcome of the EC signature check and the host's verdict on the host
/// signature.
pub open spec fn binding_result(
    slot: ZklModel,
    q: BindModel,
    address_ok: bool,
    ec_check: Result<(), ErrorCode>,
    host_ok: bool,
) -> Result<ZklModel, ErrorCode> {
    if slot.is_initialized {
        Err(ErrorCode::AlreadyInitialized)
    } else if !address_ok {
        Err(ErrorCode::AddressMismatch)
    } else if ec_check is Err {
        Err(ec_check->Err_0)
    } else if !host_ok {
        Err(ErrorCode::Unauthorized)
    } else {
        Ok(
            ZklModel {
                is_initialized: true,
                ec_pubkey: q.ec_pubkey,
                zkl_sig: q.zkl_sig,
                solana_sig: q.solana_sig,
                index: q.index,
            },
        )
    }
}

/// Decides a binding from the slot, the request, whether the slot address
/// matched, the outcome of the EC signature check, and the host's verdict.
pub fn check_binding(
    slot: &ZklAccount,
    q: &BindRequest,
    address_ok: bool,
    ec_check: Result<(), ErrorCode>,
    host_ok: bool,
) -> (r: Result<ZklAccount, ErrorCode>)
    requires
        slot@.wf(),
        q@.wf(),
        !slot@.is_initialized && address_ok && ec_check is Ok ==> q@.zkl_sig.len() == 65,
    ensures
        r matches Ok(a) ==> a@.wf() && binding_result(slot@, q@, address_ok, ec_check, host_ok) == Ok::<ZklModel, ErrorCode>(a@),
        r matches Err(e) ==> binding_result(slot@, q@, address_ok, ec_check, host_ok) == Err::<ZklModel, ErrorCode>(e),
{
    if slot.is_initialized {
        return Err(ErrorCode::AlreadyInitialized);
    }
    if !address_ok {
        return Err(ErrorCode::AddressMismatch);
    }
    if let Err(e) = ec_check {
        return Err(e);
    }
    if !host_ok {
        return Err(ErrorCode::Unauthorized);
    }
    Ok(
        ZklAccount {
            is_initialized: true,
            ec_pubkey: q.ec_pubkey.clone(),
            zkl_sig: q.zkl_sig.clone(),
            solana_sig: q.solana_sig.clone(),
            index: q.index,
        },
    )
}

/// The outcome of a bind call: the new slot bytes, or the failure.
pub open spec fn registry_outcome(
    program_id: Seq<u8>,
    slot_key: Seq<u8>,
    payer: Seq<u8>,
    slot_data: Seq<u8>,
    instruction_data: Seq<u8>,
    host_ok: bool,
) -> Result<Seq<u8>, ErrorCode> {
    if !zkl_decodable(slot_data) {
        Err(ErrorCode::InvalidAccountData)
    } else if instruction_data.len() < BIND_FIXED_LEN {
        Err(ErrorCode::InvalidInstructionData)
    } else {
        let q = bind_request_decoded(instruction_data);
        let address_ok = derived_address(registry_tag(), payer, q.index, program_id) matches Some(p)
            && p.0 == slot_key;
        let ec_check = ec_signature_check(binding_message(slot_key), q.zkl_sig, q.ec_pubkey);
        match binding_result(zkl_decoded(slot_data), q, address_ok, ec_check, host_ok) {
            Ok(m) => Ok(zkl_bytes(m)),
            Err(e) => Err(e),
        }
    }
}

/// Binds an EC identity to the payer's host identity in the registry slot
/// `slot_key`, whose stored bytes are `slot_data`. `host_ok` is the host's
/// verdict on the host signature over the binding digest (see
/// `ed25519_instruction_data`). Returns the slot's new bytes; on failure the
/// slot is to be left as it is.
pub fn process_instruction(
    program_id: &Vec<u8>,
    slot_key: &Vec<u8>,
    payer: &Vec<u8>,
    slot_data: &Vec<u8>,
    instruction_data: &Vec<u8>,
    host_ok: bool,
) -> (r: Result<Vec<u8>, ErrorCode>)
    requires
        program_id@.len() == 32,
    ensures
        r matches Ok(b) ==> registry_outcome(program_id@, slot_key@, payer@, slot_data@, instruction_data@, host_ok) == Ok::<Seq<u8>, ErrorCode>(b@),
        r matches Err(e) ==> registry_outcome(program_id@, slot_key@, payer@, slot_data@, instruction_data@, host_ok) == Err::<Seq<u8>, ErrorCode>(e),
        r matches Ok(b) ==> b@.len() == slot_data@.len(),
{
    let slot = ZklAccount::unpack_from_slice(slot_data)?;
    let q = BindRequest::decode(instruction_data)?;
    let tag = registry_tag_bytes();
    let address_ok = address_matches(slot_key, &tag, payer, q.index, program_id);
    let ec_check = if !slot.is_initialized && address_ok {
        verify_ec_signature(&binding_message_bytes(slot_key), &q.zkl_sig, &q.ec_pubkey)
    } else {
        Ok(())
    };
    let updated = check_binding(&slot, &q, address_ok, ec_check, host_ok)?;
    Ok(updated.pack())
}

/// The data of a host signature-verification instruction: one signature, a
/// padding byte, the offsets table (each entry two little-endian bytes,
/// `0xFFFF` for "this instruction"), then the signature, the public key and
/// the message.
pub open spec fn ed25519_data(signature: Seq<u8>, public_key: Seq<u8>, message: Seq<u8>) -> Seq<u8> {
    seq![1u8, 0u8] + u16_le(16) + u16_le(0xffff) + u16_le(80) + u16_le(0xffff) + u16_le(112)
        + u16_le(message.len() as u16) + u16_le(0xffff) + signature + public_key + message
}

/// Lays out the host signature-verification instruction over `message`.
pub fn ed25519_instruction_data(signature: &Vec<u8>, public_key: &Vec<u8>, message: &Vec<u8>) -> (r: Vec<u8>)
    requires
        signature@.len() == 64,
        public_key@.len() == 32,
        message@.len() <= 0xffff,
    ensures
        r@ == ed25519_data(signature@, public_key@, message@),
{
    let mut out: Vec<u8> = Vec::new();
    out.push(1u8);
    out.push(0u8);
    push_u16(&mut out, 16);
    push_u16(&mut out, 0xffff);
    push_u16(&mut out, 80);
    push_u16(&mut out, 0xffff);
    push_u16(&mut out, 112);
    push_u16(&mut out, message.len() as u16);
    push_u16(&mut out, 0xffff);
    push_all(&mut out, signature);
    push_all(&mut out, public_key);
    push_all(&mut out, message);
    assert(out@ =~= ed25519_data(signature@, public_key@, message@));
    out
}

/// Binding happens once: after a bind succeeds, every later bind on the bytes
/// it wrote fails with `AlreadyInitialized`, whatever its request or verdicts.
pub proof fn bind_succeeds_once(
    program_id: Seq<u8>,
    slot_key: Seq<u8>,
    payer: Seq<u8>,
    slot_data: Seq<u8>,
    instruction_data: Seq<u8>,
    host_ok: bool,
    written: Seq<u8>,
    program_id2: Seq<u8>,
    slot_key2: Seq<u8>,
    payer2: Seq<u8>,
    instruction_data2: Seq<u8>,
    host_ok2: bool,
)
    requires
        registry_outcome(program_id, slot_key, payer, slot_data, instruction_data, host_ok) == Ok::<Seq<u8>, ErrorCode>(written),
        instruction_data2.len() >= BIND_FIXED_LEN,
    ensures
        registry_outcome(program_id2, slot_key2, payer2, written, instruction_data2, host_ok2) == Err::<Seq<u8>, ErrorCode>(ErrorCode::AlreadyInitialized),
{
    let q = bind_request_decoded(instruction_data);
    let m = ZklModel {
        is_initialized: true,
        ec_pubkey: q.ec_pubkey,
        zkl_sig: q.zkl_sig,
        solana_sig: q.solana_sig,
        index: q.index,
    };
    assert(written == zkl_bytes(m));
    zkl_round_trip(m);
}

/// A bind whose host signature the host rejects changes nothing.
pub proof fn host_rejection_binds_nothing(
    program_id: Seq<u8>,
    slot_key: Seq<u8>,
    payer: Seq<u8>,
    slot_data: Seq<u8>,
    instruction_data: Seq<u8>,
)
    ensures
        registry_outcome(program_id, slot_key, payer, slot_data, instruction_data, false) is Err,
{
}

} // verus!
