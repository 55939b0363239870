//! The inbox's entry point: decodes a tagged instruction, checks that the
//! presented slot is the derived address, applies the operation to the slot's
//! decoded inbox and hands back the slot's new bytes.
use vstd::prelude::*;
use crate::codec::{read_bytes, read_u32, u32_le, u32_round_trip};
use crate::crypto::{derive_address, derived_address};
use crate::error::ErrorCode;
use crate::inbox::{append_result, initialize_inbox, keys_on_curve, record_keys_valid, FileTxRecord, InboxAccount, InboxModel, RecordModel};
use crate::inbox_layout::{inbox_decodable, inbox_decoded, inbox_packed, parse_record, record_bytes, record_shaped};

verus! {

/// An operation on an inbox slot.
pub enum InboxInstruction {
    /// Binds the slot of the caller at `index` to `recipient_ec_pubkey`.
    Initialize { recipient_ec_pubkey: Vec<u8>, index: u32 },
    /// Appends `record` to the slot of `owner` at `index`.
    Append { owner: Vec<u8>, index: u32, record: FileTxRecord },
}

/// The view of an inbox instruction.
pub enum InstructionModel {
    Initialize { recipient_ec_pubkey: Seq<u8>, index: u32 },
    Append { owner: Seq<u8>, index: u32, record: RecordModel },
}

impl View for InboxInstruction {
    type V = InstructionModel;

    open spec fn view(&self) -> InstructionModel {
        match self {
            InboxInstruction::Initialize { recipient_ec_pubkey, index } => InstructionModel::Initialize {
                recipient_ec_pubkey: recipient_ec_pubkey@,
                index: *index,
            },
            InboxInstruction::Append { owner, index, record } => InstructionModel::Append {
                owner: owner@,
                index: *index,
                record: record@,
            },
        }
    }
}

/// The bytes of an instruction: a tag byte, then for `Initialize` the key and
/// the index, for `Append` the owner, the index and the stored record.
pub open spec fn instruction_bytes(ix: InstructionModel) -> Seq<u8> {
    match ix {
        InstructionModel::Initialize { recipient_ec_pubkey, index } => seq![0u8] + recipient_ec_pubkey + u32_le(index),
        InstructionModel::Append { owner, index, record } => seq![1u8] + owner + u32_le(index) + record_bytes(record),
    }
}

/// The widths that the instruction bytes fix.
pub open spec fn instruction_shaped(ix: InstructionModel) -> bool {
    match ix {
        InstructionModel::Initialize { recipient_ec_pubkey, .. } => recipient_ec_pubkey.len() == 33,
        InstructionModel::Append { owner, record, .. } => owner.len() == 32 && record_shaped(record),
    }
}

impl InboxInstruction {
    /// Reads an instruction from its bytes: the one instruction whose bytes
    /// they are, or `InvalidInstructionData` if there is none.
    pub fn decode(b: &Vec<u8>) -> (r: Result<InboxInstruction, ErrorCode>)
        ensures
            r matches Ok(ix) ==> instruction_shaped(ix@) && instruction_bytes(ix@) == b@,
            r is Err ==> r == Err::<InboxInstruction, ErrorCode>(ErrorCode::InvalidInstructionData),
            forall|ix: InstructionModel|
                #![trigger instruction_bytes(ix)]
                instruction_shaped(ix) && instruction_bytes(ix) == b@ ==> (r matches Ok(x) && x@ == ix),
    {
        proof {
            assert forall|ix: InstructionModel| instruction_shaped(ix) && #[trigger] instruction_bytes(ix) == b@ implies
                (ix is Initialize ==> b@.len() == 38 && b@[0] == 0) && (ix is Append ==> b@.len() >= 37 && b@[0] == 1) by {
                assert(instruction_bytes(ix)[0] == b@[0]);
            }
        }
        if b.len() == 38 && b[0] == 0 {
            let recipient_ec_pubkey = read_bytes(b, 1, 33);
            let index = read_u32(b, 34);
            let ix = InboxInstruction::Initialize { recipient_ec_pubkey, index };
            assert(instruction_bytes(ix@) =~= b@);
            proof {
                assert forall|m: InstructionModel| instruction_shaped(m) && #[trigger] instruction_bytes(m) == b@ implies ix@
                    == m by {
                    if let InstructionModel::Initialize { recipient_ec_pubkey: k, index: j } = m {
                        assert(b@.subrange(1, 34) =~= k);
                        assert(b@.subrange(34, 38) =~= u32_le(j));
                        u32_round_trip(j);
                    }
                }
            }
            Ok(ix)
        } else if b.len() >= 37 && b[0] == 1 {
            let owner = read_bytes(b, 1, 32);
            let index = read_u32(b, 33);
            let parsed = parse_record(b, 37);
            proof {
                assert forall|m: InstructionModel| instruction_shaped(m) && #[trigger] instruction_bytes(m) == b@ implies (
                parsed matches Some(p) && m is Append && p.1 == b@.len() && p.0@ == m->record && owner@ == m->owner
                    && index == m->Append_index) by {
                    if let InstructionModel::Append { owner: o, index: j, record: rec } = m {
                        assert(b@.subrange(1, 33) =~= o);
                        assert(b@.subrange(33, 37) =~= u32_le(j));
                        u32_round_trip(j);
                        assert(b@.subrange(37, 37 + record_bytes(rec).len() as int) =~= record_bytes(rec));
                    }
                }
            }
            match parsed {
                Some((record, end)) => {
                    if end != b.len() {
                        return Err(ErrorCode::InvalidInstructionData);
                    }
                    let ix = InboxInstruction::Append { owner, index, record };
                    assert(instruction_bytes(ix@) =~= b@);
                    Ok(ix)
                },
                None => Err(ErrorCode::InvalidInstructionData),
            }
        } else {
            Err(ErrorCode::InvalidInstructionData)
        }
    }
}

/// Whether `b` holds the bytes of some instruction.
pub open spec fn instruction_decodable(b: Seq<u8>) -> bool {
    exists|ix: InstructionModel| instruction_shaped(ix) && #[trigger] instruction_bytes(ix) == b
}

/// The instruction whose bytes `b` holds (there is at most one).
pub open spec fn instruction_decoded(b: Seq<u8>) -> InstructionModel {
    choose|ix: InstructionModel| instruction_shaped(ix) && #[trigger] instruction_bytes(ix) == b
}

/// The domain tag of inbox slot addresses, `inbox`.
pub open spec fn inbox_tag() -> Seq<u8> {
    seq![0x69u8, 0x6eu8, 0x62u8, 0x6fu8, 0x78u8]
}

/// The domain tag of inbox slot addresses.
pub fn inbox_tag_bytes() -> (r: Vec<u8>)
    ensures
        r@ == inbox_tag(),
{
    let r: Vec<u8> = vec![0x69u8, 0x6eu8, 0x62u8, 0x6fu8, 0x78u8];
    assert(r@ =~= inbox_tag());
    r
}

/// What an instruction does to the inbox `m` held in the slot `slot_key`, sent
/// by `payer`; `payer_signed` is the host's verdict that the payer signed.
pub open spec fn inbox_step(
    m: InboxModel,
    ix: InstructionModel,
    program_id: Seq<u8>,
    slot_key: Seq<u8>,
    payer: Seq<u8>,
    payer_signed: bool,
) -> Result<InboxModel, ErrorCode> {
    match ix {
        InstructionModel::Initialize { recipient_ec_pubkey, index } => {
            let d = derived_address(inbox_tag(), payer, index, program_id);
            if !(d matches Some(p) && p.0 == slot_key) {
                Err(ErrorCode::AddressMismatch)
            } else if m.is_initialized {
                Err(ErrorCode::AlreadyInitialized)
            } else if !payer_signed {
                Err(ErrorCode::Unauthorized)
            } else {
                Ok(
                    InboxModel {
                        is_initialized: true,
                        recipient_ec_pubkey,
                        recipient_wallet: payer,
                        messages: Seq::empty(),
                        bump: d->Some_0.1,
                    },
                )
            }
        },
        InstructionModel::Append { owner, index, record } => {
            if !(derived_address(inbox_tag(), owner, index, program_id) matches Some(p) && p.0 == slot_key) {
                Err(ErrorCode::AddressMismatch)
            } else {
                append_result(m, record, keys_on_curve(record), payer_signed)
            }
        },
    }
}

/// The outcome of an inbox call: the slot's new bytes, or the failure.
pub open spec fn inbox_outcome(
    program_id: Seq<u8>,
    slot_key: Seq<u8>,
    payer: Seq<u8>,
    payer_signed: bool,
    slot_data: Seq<u8>,
    instruction_data: Seq<u8>,
) -> Result<Seq<u8>, ErrorCode> {
    if !inbox_decodable(slot_data) {
        Err(ErrorCode::InvalidAccountData)
    } else if !instruction_decodable(instruction_data) {
        Err(ErrorCode::InvalidInstructionData)
    } else {
        match inbox_step(
            inbox_decoded(slot_data),
            instruction_decoded(instruction_data),
            program_id,
            slot_key,
            payer,
            payer_signed,
        ) {
            Ok(m) => Ok(inbox_packed(m)),
            Err(e) => Err(e),
        }
    }
}

/// Applies the instruction in `instruction_data` to the inbox slot `slot_key`,
/// whose stored bytes are `slot_data`, on behalf of `payer`. Returns the slot's
/// new bytes, of the same width; on failure the slot is to be left as it is.
pub fn process_instruction(
    program_id: &Vec<u8>,
    slot_key: &Vec<u8>,
    payer: &Vec<u8>,
    payer_signed: bool,
    slot_data: &Vec<u8>,
    instruction_data: &Vec<u8>,
) -> (r: Result<Vec<u8>, ErrorCode>)
    requires
        program_id@.len() == 32,
        payer@.len() == 32,
    ensures
        r matches Ok(out) ==> inbox_outcome(program_id@, slot_key@, payer@, payer_signed, slot_data@, instruction_data@)
            == Ok::<Seq<u8>, ErrorCode>(out@) && out@.len() == slot_data@.len(),
        r matches Err(e) ==> inbox_outcome(program_id@, slot_key@, payer@, payer_signed, slot_data@, instruction_data@)
            == Err::<Seq<u8>, ErrorCode>(e),
{
    let mut slot = InboxAccount::unpack_from_slice(slot_data)?;
    let ix = InboxInstruction::decode(instruction_data)?;
    let ghost m = slot@;
    let ghost ixm = ix@;
    proof {
        crate::inbox_layout::inbox_fits(m);
        assert(inbox_decodable(slot_data@));
        assert(inbox_decoded(slot_data@) == m);
        assert(instruction_decodable(instruction_data@));
        assert(instruction_decoded(instruction_data@) == ixm);
    }
    let tag = inbox_tag_bytes();
    match ix {
        InboxInstruction::Initialize { recipient_ec_pubkey, index } => {
            let bump = match derive_address(&tag, payer, index, program_id) {
                Some(p) => {
                    if !crate::codec::bytes_equal(&p.0, slot_key) {
                        return Err(ErrorCode::AddressMismatch);
                    }
                    p.1
                },
                None => {
                    return Err(ErrorCode::AddressMismatch);
                },
            };
            if slot.is_initialized {
                return Err(ErrorCode::AlreadyInitialized);
            }
            if !payer_signed {
                return Err(ErrorCode::Unauthorized);
            }
            let res = initialize_inbox(&mut slot, &recipient_ec_pubkey, payer, bump);
            assert(res is Ok);
        },
        InboxInstruction::Append { owner, index, record } => {
            if !crate::crypto::address_matches(slot_key, &tag, &owner, index, program_id) {
                return Err(ErrorCode::AddressMismatch);
            }
            let keys_valid = record_keys_valid(&record);
            slot.append_record(record, keys_valid, payer_signed)?;
        },
    }
    let out = slot.pack();
    assert(inbox_step(m, ixm, program_id@, slot_key@, payer@, payer_signed) == Ok::<InboxModel, ErrorCode>(slot@));
    Ok(out)
}

/// An append to a slot holding a full, active inbox never succeeds: it fails
/// with `InboxFull` unless the slot address is already wrong, and the call
/// writes nothing.
pub proof fn full_slot_rejects_append(
    program_id: Seq<u8>,
    slot_key: Seq<u8>,
    payer: Seq<u8>,
    payer_signed: bool,
    slot_data: Seq<u8>,
    instruction_data: Seq<u8>,
)
    requires
        inbox_decodable(slot_data),
        inbox_decoded(slot_data).is_initialized,
        inbox_decoded(slot_data).messages.len() == crate::inbox::MAX_MESSAGES,
        instruction_decodable(instruction_data),
        instruction_decoded(instruction_data) is Append,
    ensures
        inbox_outcome(program_id, slot_key, payer, payer_signed, slot_data, instruction_data) == Err::<Seq<u8>, ErrorCode>(ErrorCode::InboxFull)
            || inbox_outcome(program_id, slot_key, payer, payer_signed, slot_data, instruction_data) == Err::<Seq<u8>, ErrorCode>(ErrorCode::AddressMismatch),
{
}

} // verus!
