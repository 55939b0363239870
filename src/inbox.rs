//! The per-owner inbox: a bounded, append-only sequence of records that
//! reference encrypted payloads, read back in timestamp order.
use vstd::prelude::*;
use crate::crypto::{is_curve_point, parse_compressed_point};
use crate::error::ErrorCode;

verus! {

/// Most records an inbox holds.
pub const MAX_MESSAGES: usize = 100;

/// Longest encrypted link a record may carry, in bytes.
pub const MAX_LINK_LEN: usize = 1024;

/// The view of a record.
pub struct RecordModel {
    pub sender_ec_pubkey: Seq<u8>,
    pub encrypted_link: Seq<u8>,
    pub ephemeral_pubkey: Seq<u8>,
    pub timestamp: i64,
    pub signature: Seq<u8>,
}

/// One message: the sender's compressed key (33 bytes), the link to the
/// encrypted payload, the sender's one-time compressed key (33 bytes), the
/// sender's timestamp and a 64-byte signature.
pub struct FileTxRecord {
    pub sender_ec_pubkey: Vec<u8>,
    pub encrypted_link: Vec<u8>,
    pub ephemeral_pubkey: Vec<u8>,
    pub timestamp: i64,
    pub signature: Vec<u8>,
}

impl View for FileTxRecord {
    type V = RecordModel;

    open spec fn view(&self) -> RecordModel {
        RecordModel {
            sender_ec_pubkey: self.sender_ec_pubkey@,
            encrypted_link: self.encrypted_link@,
            ephemeral_pubkey: self.ephemeral_pubkey@,
            timestamp: self.timestamp,
            signature: self.signature@,
        }
    }
}

impl RecordModel {
    /// The keys and the signature have their widths and the link its bound.
    pub open spec fn wf(self) -> bool {
        &&& self.sender_ec_pubkey.len() == 33
        &&& self.encrypted_link.len() <= MAX_LINK_LEN
        &&& self.ephemeral_pubkey.len() == 33
        &&& self.signature.len() == 64
    }
}

impl FileTxRecord {
    /// A copy of this record.
    pub fn copy(&self) -> (r: FileTxRecord)
        ensures
            r@ == self@,
    {
        FileTxRecord {
            sender_ec_pubkey: self.sender_ec_pubkey.clone(),
            encrypted_link: self.encrypted_link.clone(),
            ephemeral_pubkey: self.ephemeral_pubkey.clone(),
            timestamp: self.timestamp,
            signature: self.signature.clone(),
        }
    }
}

/// The view of an inbox.
pub struct InboxModel {
    pub is_initialized: bool,
    pub recipient_ec_pubkey: Seq<u8>,
    pub recipient_wallet: Seq<u8>,
    pub messages: Seq<RecordModel>,
    pub bump: u8,
}

/// An inbox: the recipient's compressed key (33 bytes), the host identity
/// that owns it (32 bytes), its records in append order, and the bump seed of
/// its address.
pub struct InboxAccount {
    pub is_initialized: bool,
    pub recipient_ec_pubkey: Vec<u8>,
    pub recipient_wallet: Vec<u8>,
    pub messages: Vec<FileTxRecord>,
    pub bump: u8,
}

impl View for InboxAccount {
    type V = InboxModel;

    open spec fn view(&self) -> InboxModel {
        InboxModel {
            is_initialized: self.is_initialized,
            recipient_ec_pubkey: self.recipient_ec_pubkey@,
            recipient_wallet: self.recipient_wallet@,
            messages: self.messages@.map_values(|r: FileTxRecord| r@),
            bump: self.bump,
        }
    }
}

impl InboxModel {
    /// Fixed widths, at most `MAX_MESSAGES` records, each well formed.
    pub open spec fn wf(self) -> bool {
        &&& self.recipient_ec_pubkey.len() == 33
        &&& self.recipient_wallet.len() == 32
        &&& self.messages.len() <= MAX_MESSAGES
        &&& forall|i: int| 0 <= i < self.messages.len() ==> (#[trigger] self.messages[i]).wf()
    }
}

/// What appending `r` does to the inbox `m`, given whether both of the
/// record's keys are valid curve points and whether the sender signed.
pub open spec fn append_result(m: InboxModel, r: RecordModel, keys_valid: bool, sender_signed: bool) -> Result<InboxModel, ErrorCode> {
    if !m.is_initialized {
        Err(ErrorCode::UninitializedAccount)
    } else if m.messages.len() >= MAX_MESSAGES {
        Err(ErrorCode::InboxFull)
    } else if r.encrypted_link.len() > MAX_LINK_LEN {
        Err(ErrorCode::PayloadTooLarge)
    } else if r.sender_ec_pubkey.len() != 33 || r.ephemeral_pubkey.len() != 33 || !keys_valid {
        Err(ErrorCode::InvalidKey)
    } else if r.signature.len() != 64 {
        Err(ErrorCode::MalformedSignature)
    } else if !sender_signed {
        Err(ErrorCode::Unauthorized)
    } else {
        Ok(InboxModel { messages: m.messages.push(r), ..m })
    }
}

/// Whether both keys of `r` are 33-byte compressed points on the curve.
pub open spec fn keys_on_curve(r: RecordModel) -> bool {
    &&& r.sender_ec_pubkey.len() == 33
    &&& r.ephemeral_pubkey.len() == 33
    &&& is_curve_point(r.sender_ec_pubkey)
    &&& is_curve_point(r.ephemeral_pubkey)
}

impl InboxAccount {
    /// An inbox as freshly allocated storage holds it: not initialized, empty.
    pub fn empty() -> (r: InboxAccount)
        ensures
            r@.wf(),
            !r@.is_initialized,
            r@.messages.len() == 0,
    {
        let mut key: Vec<u8> = Vec::new();
        crate::codec::push_zeros(&mut key, 33);
        let mut wallet: Vec<u8> = Vec::new();
        crate::codec::push_zeros(&mut wallet, 32);
        InboxAccount {
            is_initialized: false,
            recipient_ec_pubkey: key,
            recipient_wallet: wallet,
            messages: Vec::new(),
            bump: 0,
        }
    }

    /// Appends `record` if the inbox is active, has room, the link is within
    /// its bound, the keys are valid (`keys_valid`), the signature has its
    /// width and the sender signed (`sender_signed`). On failure nothing changes.
    pub fn append_record(&mut self, record: FileTxRecord, keys_valid: bool, sender_signed: bool) -> (r: Result<(), ErrorCode>)
        requires
            old(self)@.wf(),
        ensures
            final(self)@.wf(),
            r is Ok ==> append_result(old(self)@, record@, keys_valid, sender_signed) == Ok::<InboxModel, ErrorCode>(final(self)@),
            r matches Err(e) ==> append_result(old(self)@, record@, keys_valid, sender_signed) == Err::<InboxModel, ErrorCode>(e)
                && final(self)@ == old(self)@,
    {
        if !self.is_initialized {
            return Err(ErrorCode::UninitializedAccount);
        }
        if self.messages.len() >= MAX_MESSAGES {
            return Err(ErrorCode::InboxFull);
        }
        if record.encrypted_link.len() > MAX_LINK_LEN {
            return Err(ErrorCode::PayloadTooLarge);
        }
        if record.sender_ec_pubkey.len() != 33 || record.ephemeral_pubkey.len() != 33 || !keys_valid {
            return Err(ErrorCode::InvalidKey);
        }
        if record.signature.len() != 64 {
            return Err(ErrorCode::MalformedSignature);
        }
        if !sender_signed {
            return Err(ErrorCode::Unauthorized);
        }
        let ghost before = self@;
        self.messages.push(record);
        assert(self@.messages =~= before.messages.push(record@));
        Ok(())
    }
}

/// Whether both keys of `record` are compressed points on the curve.
pub fn record_keys_valid(record: &FileTxRecord) -> (r: bool)
    ensures
        r == keys_on_curve(record@),
{
    record.sender_ec_pubkey.len() == 33 && record.ephemeral_pubkey.len() == 33
        && parse_compressed_point(&record.sender_ec_pubkey) && parse_compressed_point(&record.ephemeral_pubkey)
}

/// Binds the inactive inbox `account` to its recipient, with no records.
pub fn initialize_inbox(account: &mut InboxAccount, recipient_ec_pubkey: &Vec<u8>, recipient_wallet: &Vec<u8>, bump: u8) -> (r: Result<(), ErrorCode>)
    requires
        old(account)@.wf(),
        recipient_ec_pubkey@.len() == 33,
        recipient_wallet@.len() == 32,
    ensures
        final(account)@.wf(),
        r is Ok <==> !old(account)@.is_initialized,
        r is Err ==> r == Err::<(), ErrorCode>(ErrorCode::AlreadyInitialized) && final(account)@ == old(account)@,
        r is Ok ==> final(account)@ == (InboxModel {
            is_initialized: true,
            recipient_ec_pubkey: recipient_ec_pubkey@,
            recipient_wallet: recipient_wallet@,
            messages: Seq::empty(),
            bump,
        }),
{
    if account.is_initialized {
        return Err(ErrorCode::AlreadyInitialized);
    }
    account.is_initialized = true;
    account.recipient_ec_pubkey = recipient_ec_pubkey.clone();
    account.recipient_wallet = recipient_wallet.clone();
    account.messages = Vec::new();
    account.bump = bump;
    assert(account@.messages =~= Seq::<RecordModel>::empty());
    Ok(())
}

/// Appends a message built from its parts, after checking both keys on the
/// curve. `sender_signed` is the host's verdict that the sender signed the call.
pub fn add_message(
    account: &mut InboxAccount,
    sender_ec_pubkey: Vec<u8>,
    encrypted_link: Vec<u8>,
    ephemeral_pubkey: Vec<u8>,
    timestamp: i64,
    signature: Vec<u8>,
    sender_signed: bool,
) -> (r: Result<(), ErrorCode>)
    requires
        old(account)@.wf(),
    ensures
        final(account)@.wf(),
        ({
            let rec = RecordModel {
                sender_ec_pubkey: sender_ec_pubkey@,
                encrypted_link: encrypted_link@,
                ephemeral_pubkey: ephemeral_pubkey@,
                timestamp,
                signature: signature@,
            };
            &&& r is Ok ==> append_result(old(account)@, rec, keys_on_curve(rec), sender_signed) == Ok::<InboxModel, ErrorCode>(final(account)@)
            &&& r matches Err(e) ==> append_result(old(account)@, rec, keys_on_curve(rec), sender_signed) == Err::<InboxModel, ErrorCode>(e)
                && final(account)@ == old(account)@
        }),
{
    let record = FileTxRecord { sender_ec_pubkey, encrypted_link, ephemeral_pubkey, timestamp, signature };
    let keys_valid = record_keys_valid(&record);
    account.append_record(record, keys_valid, sender_signed)
}

/// `ms[i]` comes before `ms[j]` in a read: an earlier timestamp, or the same
/// timestamp and an earlier append.
pub open spec fn read_before(ms: Seq<RecordModel>, i: int, j: int) -> bool {
    ms[i].timestamp < ms[j].timestamp || (ms[i].timestamp == ms[j].timestamp && i < j)
}

/// `order` lists every position of `ms` once, in read order.
pub open spec fn is_read_order(ms: Seq<RecordModel>, order: Seq<usize>) -> bool {
    &&& order.len() == ms.len()
    &&& forall|k: int| 0 <= k < order.len() ==> order[k] < ms.len()
    &&& forall|i: usize| i < ms.len() ==> #[trigger] order.contains(i)
    &&& forall|k: int, l: int| 0 <= k < l < order.len() ==> read_before(ms, order[k] as int, order[l] as int)
}

/// `out` is `ms` sorted by timestamp, records with equal timestamps in append
/// order.
pub open spec fn is_ordered_read(ms: Seq<RecordModel>, out: Seq<RecordModel>) -> bool {
    exists|order: Seq<usize>|
        is_read_order(ms, order) && out.len() == ms.len()
            && forall|k: int| 0 <= k < out.len() ==> out[k] == ms[order[k] as int]
}

/// The read order of `ms`: positions sorted by timestamp, ties in append order.
fn read_order(ms: &Vec<FileTxRecord>) -> (order: Vec<usize>)
    ensures
        is_read_order(ms@.map_values(|r: FileTxRecord| r@), order@),
{
    let ghost v = ms@.map_values(|r: FileTxRecord| r@);
    let mut order: Vec<usize> = Vec::new();
    let mut i: usize = 0;
    while i < ms.len()
        invariant
            i <= ms@.len(),
            v == ms@.map_values(|r: FileTxRecord| r@),
            order@.len() == i,
            forall|k: int| 0 <= k < order@.len() ==> order@[k] < i,
            forall|j: usize| j < i ==> #[trigger] order@.contains(j),
            forall|k: int, l: int| 0 <= k < l < order@.len() ==> read_before(v, order@[k] as int, order@[l] as int),
        decreases ms@.len() - i,
    {
        let t = ms[i].timestamp;
        let mut pos: usize = 0;
        while pos < order.len() && ms[order[pos]].timestamp <= t
            invariant
                pos <= order@.len(),
                order@.len() == i,
                i < ms@.len(),
                t == v[i as int].timestamp,
                v == ms@.map_values(|r: FileTxRecord| r@),
                forall|k: int| 0 <= k < order@.len() ==> order@[k] < i,
                forall|k: int| 0 <= k < pos ==> v[order@[k] as int].timestamp <= t,
            decreases order@.len() - pos,
        {
            pos = pos + 1;
        }
        let ghost old_order = order@;
        assert(forall|k: int| pos <= k < old_order.len() ==> v[old_order[k] as int].timestamp > t) by {
            assert forall|k: int| pos <= k < old_order.len() implies v[old_order[k] as int].timestamp > t by {
                if k > pos {
                    assert(read_before(v, old_order[pos as int] as int, old_order[k] as int));
                }
            }
        }
        order.insert(pos, i);
        proof {
            old_order.insert_ensures(pos as int, i);
            let n = order@;
            assert forall|k: int| 0 <= k < n.len() implies n[k] < i + 1 by {
                if k > pos {
                    assert(n[k] == old_order[k - 1]);
                }
            }
            assert forall|j: usize| j < i + 1 implies #[trigger] n.contains(j) by {
                if j == i {
                    assert(n[pos as int] == j);
                } else {
                    assert(old_order.contains(j));
                    let k = choose|k: int| 0 <= k < old_order.len() && old_order[k] == j;
                    if k < pos {
                        assert(n[k] == j);
                    } else {
                        assert(n[k + 1] == j);
                    }
                }
            }
            assert forall|k: int, l: int| 0 <= k < l < n.len() implies read_before(v, n[k] as int, n[l] as int) by {
                if l < pos {
                } else if l == pos {
                    assert(n[k] == old_order[k]);
                } else if k < pos {
                    assert(n[l] == old_order[l - 1]);
                } else if k == pos {
                    assert(n[l] == old_order[l - 1]);
                } else {
                    assert(n[k] == old_order[k - 1]);
                    assert(n[l] == old_order[l - 1]);
                }
            }
        }
        i = i + 1;
    }
    order
}

/// The inbox's records sorted by timestamp; records with equal timestamps
/// keep their append order. The inbox is not changed.
pub fn get_messages(account: &InboxAccount) -> (r: Vec<FileTxRecord>)
    ensures
        is_ordered_read(account@.messages, r@.map_values(|x: FileTxRecord| x@)),
{
    let ghost v = account@.messages;
    let order = read_order(&account.messages);
    let mut out: Vec<FileTxRecord> = Vec::new();
    let mut k: usize = 0;
    while k < order.len()
        invariant
            k <= order@.len(),
            v == account.messages@.map_values(|x: FileTxRecord| x@),
            is_read_order(v, order@),
            out@.len() == k,
            forall|j: int| 0 <= j < k ==> out@[j]@ == v[order@[j] as int],
        decreases order@.len() - k,
    {
        out.push(account.messages[order[k]].copy());
        k = k + 1;
    }
    let ghost outv = out@.map_values(|x: FileTxRecord| x@);
    assert(forall|j: int| 0 <= j < outv.len() ==> outv[j] == v[order@[j] as int]);
    out
}

/// An ordered read is sorted by timestamp, and records with equal timestamps
/// come in the order in which they were appended.
pub proof fn ordered_read_is_sorted_and_stable(ms: Seq<RecordModel>, out: Seq<RecordModel>)
    requires
        is_ordered_read(ms, out),
    ensures
        forall|k: int, l: int| 0 <= k < l < out.len() ==> out[k].timestamp <= out[l].timestamp,
        exists|order: Seq<usize>|
            #![trigger is_read_order(ms, order)]
            is_read_order(ms, order) && (forall|k: int| 0 <= k < out.len() ==> out[k] == ms[order[k] as int])
                && (forall|k: int, l: int| 0 <= k < l < out.len() && out[k].timestamp == out[l].timestamp
                    ==> order[k] < order[l]),
{
    let order = choose|order: Seq<usize>|
        is_read_order(ms, order) && out.len() == ms.len()
            && forall|k: int| 0 <= k < out.len() ==> out[k] == ms[order[k] as int];
    assert forall|k: int, l: int| 0 <= k < l < out.len() implies out[k].timestamp <= out[l].timestamp by {
        assert(read_before(ms, order[k] as int, order[l] as int));
    }
    assert forall|k: int, l: int| 0 <= k < l < out.len() && out[k].timestamp == out[l].timestamp implies order[k] < order[l] by {
        assert(read_before(ms, order[k] as int, order[l] as int));
    }
}

/// A full inbox takes no further record: every append fails, with
/// `InboxFull` once the inbox is active.
pub proof fn full_inbox_rejects_append(m: InboxModel, r: RecordModel, keys_valid: bool, sender_signed: bool)
    requires
        m.messages.len() == MAX_MESSAGES,
    ensures
        append_result(m, r, keys_valid, sender_signed) is Err,
        m.is_initialized ==> append_result(m, r, keys_valid, sender_signed) == Err::<InboxModel, ErrorCode>(ErrorCode::InboxFull),
{
}

/// The link bound is inclusive: on an active inbox with room, a 1025-byte link
/// is refused with `PayloadTooLarge`, and a 1024-byte link with valid keys, a
/// full-width signature and the sender's signature is appended.
pub proof fn link_bound_is_inclusive(m: InboxModel, r: RecordModel, keys_valid: bool, sender_signed: bool)
    requires
        m.is_initialized,
        m.messages.len() < MAX_MESSAGES,
    ensures
        r.encrypted_link.len() == MAX_LINK_LEN + 1 ==> append_result(m, r, keys_valid, sender_signed)
            == Err::<InboxModel, ErrorCode>(ErrorCode::PayloadTooLarge),
        r.encrypted_link.len() == MAX_LINK_LEN && r.sender_ec_pubkey.len() == 33 && r.ephemeral_pubkey.len() == 33
            && r.signature.len() == 64 && keys_valid && sender_signed ==> append_result(m, r, keys_valid, sender_signed)
            == Ok::<InboxModel, ErrorCode>(InboxModel { messages: m.messages.push(r), ..m }),
{
}

} // verus!
