//! The fixed-width stored form of an inbox. The slot reserves room for the
//! largest inbox: a header, then the records in append order, each as its
//! sender key, a four-byte link length, the link, its one-time key, its
//! timestamp and its signature; the rest of the slot is zero.
use vstd::prelude::*;
use crate::codec::{i64_le_injective, all_zero_from, i64_le, push_all, push_i64, push_u32, push_zeros, read_bytes, read_i64, read_u32, u32_le, u32_round_trip, zeros};
use crate::error::ErrorCode;
use crate::inbox::{FileTxRecord, InboxAccount, InboxModel, RecordModel, MAX_LINK_LEN, MAX_MESSAGES};

verus! {

/// Width of a stored record whose link has the largest allowed length: sender
/// key, link length, link, one-time key, timestamp, signature.
pub const RECORD_MAX_LEN: usize = 33 + 4 + MAX_LINK_LEN + 33 + 8 + 64;

/// Width of the inbox header: flag, recipient key, owner, bump, record count.
pub const INBOX_HEADER_LEN: usize = 1 + 33 + 32 + 1 + 4;

/// Width of a stored inbox slot: the header and `MAX_MESSAGES` records of
/// the largest width, whatever the inbox holds; unused bytes are zero.
pub const INBOX_ACCOUNT_LEN: usize = INBOX_HEADER_LEN + MAX_MESSAGES * RECORD_MAX_LEN;

/// The stored bytes of one record.
pub open spec fn record_bytes(r: RecordModel) -> Seq<u8> {
    r.sender_ec_pubkey + u32_le(r.encrypted_link.len() as u32) + r.encrypted_link + r.ephemeral_pubkey
        + i64_le(r.timestamp) + r.signature
}

/// The stored bytes of a sequence of records, one after another.
pub open spec fn records_bytes(rs: Seq<RecordModel>) -> Seq<u8>
    decreases rs.len(),
{
    if rs.len() == 0 {
        Seq::empty()
    } else {
        records_bytes(rs.drop_last()) + record_bytes(rs.last())
    }
}

/// The header and records of an inbox, without the padding.
pub open spec fn inbox_bytes(m: InboxModel) -> Seq<u8> {
    seq![if m.is_initialized { 1u8 } else { 0u8 }] + m.recipient_ec_pubkey + m.recipient_wallet + seq![m.bump]
        + u32_le(m.messages.len() as u32) + records_bytes(m.messages)
}

/// The stored bytes of an inbox: its bytes, zero-padded to the slot width.
pub open spec fn inbox_packed(m: InboxModel) -> Seq<u8> {
    inbox_bytes(m) + zeros((INBOX_ACCOUNT_LEN - inbox_bytes(m).len()) as nat)
}

/// Whether `b` is the stored form of some well-formed inbox.
pub open spec fn inbox_decodable(b: Seq<u8>) -> bool {
    exists|m: InboxModel| m.wf() && #[trigger] inbox_packed(m) == b
}

/// The well-formed inbox stored in `b` (there is at most one).
pub open spec fn inbox_decoded(b: Seq<u8>) -> InboxModel {
    choose|m: InboxModel| m.wf() && #[trigger] inbox_packed(m) == b
}

proof fn record_len(r: RecordModel)
    requires
        r.wf(),
    ensures
        record_bytes(r).len() == 142 + r.encrypted_link.len(),
        record_bytes(r).len() <= RECORD_MAX_LEN,
{
}

proof fn records_len(rs: Seq<RecordModel>)
    requires
        forall|i: int| 0 <= i < rs.len() ==> (#[trigger] rs[i]).wf(),
    ensures
        records_bytes(rs).len() <= rs.len() * RECORD_MAX_LEN,
    decreases rs.len(),
{
    if rs.len() > 0 {
        assert forall|i: int| 0 <= i < rs.drop_last().len() implies (#[trigger] rs.drop_last()[i]).wf() by {
            assert(rs.drop_last()[i] == rs[i]);
        }
        records_len(rs.drop_last());
        record_len(rs.last());
        let n = rs.len() as int;
        assert((n - 1) * RECORD_MAX_LEN + RECORD_MAX_LEN == n * RECORD_MAX_LEN) by (nonlinear_arith);
    }
}

/// A well-formed inbox fits its slot.
pub proof fn inbox_fits(m: InboxModel)
    requires
        m.wf(),
    ensures
        inbox_bytes(m).len() <= INBOX_ACCOUNT_LEN,
        inbox_packed(m).len() == INBOX_ACCOUNT_LEN,
{
    records_len(m.messages);
    assert(m.messages.len() * RECORD_MAX_LEN <= MAX_MESSAGES * RECORD_MAX_LEN) by (nonlinear_arith)
        requires
            m.messages.len() <= MAX_MESSAGES,
    ;
}

/// Appends the stored bytes of `r` to `out`.
pub fn push_record(out: &mut Vec<u8>, r: &FileTxRecord)
    requires
        r@.wf(),
    ensures
        final(out)@ == old(out)@ + record_bytes(r@),
{
    push_all(out, &r.sender_ec_pubkey);
    push_u32(out, r.encrypted_link.len() as u32);
    push_all(out, &r.encrypted_link);
    push_all(out, &r.ephemeral_pubkey);
    push_i64(out, r.timestamp);
    push_all(out, &r.signature);
    assert(final(out)@ =~= old(out)@ + record_bytes(r@));
}

/// A window of a window: where `whole` stands at `start` of `b` and opens
/// with `prefix + part`, `part` stands right after `prefix`.
proof fn window_of_window(b: Seq<u8>, start: int, whole: Seq<u8>, prefix: Seq<u8>, part: Seq<u8>)
    requires
        0 <= start,
        start + whole.len() <= b.len(),
        b.subrange(start, start + whole.len()) == whole,
        prefix.len() + part.len() <= whole.len(),
        whole.subrange(0, (prefix.len() + part.len()) as int) == prefix + part,
    ensures
        b.subrange(start + prefix.len(), start + prefix.len() + part.len()) == part,
{
    let w = b.subrange(start + prefix.len(), start + prefix.len() + part.len());
    assert forall|k: int| 0 <= k < part.len() implies #[trigger] w[k] == part[k] by {
        let j = prefix.len() + k;
        assert(w[k] == b[start + j]);
        assert(b.subrange(start, start + whole.len())[j] == b[start + j]);
        assert(b.subrange(start, start + whole.len())[j] == whole[j]);
        assert((prefix + part)[j] == part[k]);
        assert(whole.subrange(0, (prefix.len() + part.len()) as int)[j] == whole[j]);
        assert(whole.subrange(0, (prefix.len() + part.len()) as int)[j] == (prefix + part)[j]);
    }
    assert(w =~= part);
}

/// The records before position `i + 1` are those before `i` and record `i`.
proof fn records_step(ms: Seq<RecordModel>, i: int)
    requires
        0 <= i < ms.len(),
    ensures
        records_bytes(ms.subrange(0, i + 1)) == records_bytes(ms.subrange(0, i)) + record_bytes(ms[i]),
{
    let s = ms.subrange(0, i + 1);
    assert(s.drop_last() =~= ms.subrange(0, i));
}

/// The stored bytes of the first `j` records open the stored bytes of all.
proof fn records_prefix(ms: Seq<RecordModel>, j: int)
    requires
        0 <= j <= ms.len(),
    ensures
        records_bytes(ms.subrange(0, j)).len() <= records_bytes(ms).len(),
        records_bytes(ms).subrange(0, records_bytes(ms.subrange(0, j)).len() as int) == records_bytes(ms.subrange(0, j)),
    decreases ms.len(),
{
    if j == ms.len() {
        assert(ms.subrange(0, j) =~= ms);
        assert(records_bytes(ms).subrange(0, records_bytes(ms).len() as int) =~= records_bytes(ms));
    } else {
        let d = ms.drop_last();
        records_prefix(d, j);
        assert(d.subrange(0, j) =~= ms.subrange(0, j));
        let p = records_bytes(ms.subrange(0, j));
        assert(records_bytes(ms).subrange(0, p.len() as int) =~= records_bytes(d).subrange(0, p.len() as int));
    }
}

/// The fields of a packed inbox stand at their offsets.
proof fn packed_fields(m: InboxModel)
    requires
        m.wf(),
    ensures
        inbox_packed(m).len() == INBOX_ACCOUNT_LEN,
        inbox_packed(m)[0] == (if m.is_initialized { 1u8 } else { 0u8 }),
        inbox_packed(m).subrange(1, 34) == m.recipient_ec_pubkey,
        inbox_packed(m).subrange(34, 66) == m.recipient_wallet,
        inbox_packed(m)[66] == m.bump,
        inbox_packed(m).subrange(67, 71) == u32_le(m.messages.len() as u32),
        71 + records_bytes(m.messages).len() <= INBOX_ACCOUNT_LEN,
        inbox_packed(m).subrange(71, 71 + records_bytes(m.messages).len() as int) == records_bytes(m.messages),
        inbox_packed(m).subrange(71 + records_bytes(m.messages).len() as int, INBOX_ACCOUNT_LEN as int)
            == zeros((INBOX_ACCOUNT_LEN - 71 - records_bytes(m.messages).len()) as nat),
{
    inbox_fits(m);
    let b = inbox_packed(m);
    let r = records_bytes(m.messages).len() as int;
    assert(b.subrange(1, 34) =~= m.recipient_ec_pubkey);
    assert(b.subrange(34, 66) =~= m.recipient_wallet);
    assert(b.subrange(67, 71) =~= u32_le(m.messages.len() as u32));
    assert(b.subrange(71, 71 + r) =~= records_bytes(m.messages));
    assert(b.subrange(71 + r, INBOX_ACCOUNT_LEN as int) =~= zeros((INBOX_ACCOUNT_LEN - 71 - r) as nat));
}

impl InboxAccount {
    /// The stored bytes of this inbox, of the slot's fixed width.
    pub fn pack(&self) -> (r: Vec<u8>)
        requires
            self@.wf(),
        ensures
            r@ == inbox_packed(self@),
            r@.len() == INBOX_ACCOUNT_LEN,
    {
        let ghost m = self@;
        proof {
            inbox_fits(m);
        }
        let mut out: Vec<u8> = Vec::new();
        out.push(if self.is_initialized { 1u8 } else { 0u8 });
        push_all(&mut out, &self.recipient_ec_pubkey);
        push_all(&mut out, &self.recipient_wallet);
        out.push(self.bump);
        push_u32(&mut out, self.messages.len() as u32);
        let ghost header = out@;
        let mut i: usize = 0;
        while i < self.messages.len()
            invariant
                i <= self.messages@.len(),
                m == self@,
                m.wf(),
                out@ == header + records_bytes(m.messages.subrange(0, i as int)),
            decreases self.messages@.len() - i,
        {
            assert(m.messages[i as int].wf());
            push_record(&mut out, &self.messages[i]);
            proof {
                let s = m.messages.subrange(0, i + 1);
                assert(s.drop_last() =~= m.messages.subrange(0, i as int));
                assert(s.last() == m.messages[i as int]);
            }
            i = i + 1;
        }
        assert(m.messages.subrange(0, i as int) =~= m.messages);
        assert(out@ =~= inbox_bytes(m));
        let pad = INBOX_ACCOUNT_LEN - out.len();
        push_zeros(&mut out, pad);
        out
    }
}

/// The widths that the stored form of a record fixes: both keys 33 bytes,
/// the signature 64 bytes, the link length within four bytes.
pub open spec fn record_shaped(r: RecordModel) -> bool {
    &&& r.sender_ec_pubkey.len() == 33
    &&& r.ephemeral_pubkey.len() == 33
    &&& r.signature.len() == 64
    &&& r.encrypted_link.len() <= u32::MAX
}

/// Where the stored bytes of `rm` stand at `pos` of `b`, each field stands
/// at its offset.
proof fn record_fields(b: Seq<u8>, pos: int, rm: RecordModel)
    requires
        record_shaped(rm),
        0 <= pos,
        pos + record_bytes(rm).len() <= b.len(),
        b.subrange(pos, pos + record_bytes(rm).len()) == record_bytes(rm),
    ensures
        record_bytes(rm).len() == 142 + rm.encrypted_link.len(),
        b.subrange(pos, pos + 33) == rm.sender_ec_pubkey,
        b.subrange(pos + 33, pos + 37) == u32_le(rm.encrypted_link.len() as u32),
        b.subrange(pos + 37, pos + 37 + rm.encrypted_link.len()) == rm.encrypted_link,
        b.subrange(pos + 37 + rm.encrypted_link.len(), pos + 70 + rm.encrypted_link.len()) == rm.ephemeral_pubkey,
        b.subrange(pos + 70 + rm.encrypted_link.len(), pos + 78 + rm.encrypted_link.len()) == i64_le(rm.timestamp),
        b.subrange(pos + 78 + rm.encrypted_link.len(), pos + 142 + rm.encrypted_link.len()) == rm.signature,
{
    let n = rm.encrypted_link.len() as int;
    let rb = record_bytes(rm);
    let w = b.subrange(pos, pos + rb.len());
    assert(forall|k: int| 0 <= k < rb.len() ==> b[pos + k] == #[trigger] rb[k]) by {
        assert forall|k: int| 0 <= k < rb.len() implies b[pos + k] == #[trigger] rb[k] by {
            assert(w[k] == b[pos + k]);
        }
    }
    assert(b.subrange(pos, pos + 33) =~= rm.sender_ec_pubkey) by {
        assert forall|k: int| 0 <= k < 33 implies #[trigger] b.subrange(pos, pos + 33)[k] == rm.sender_ec_pubkey[k] by {
            assert(rb[k] == rm.sender_ec_pubkey[k]);
        }
    }
    assert(b.subrange(pos + 33, pos + 37) =~= u32_le(rm.encrypted_link.len() as u32)) by {
        assert forall|k: int| 0 <= k < 4 implies #[trigger] b.subrange(pos + 33, pos + 37)[k] == u32_le(rm.encrypted_link.len() as u32)[k] by {
            assert(rb[33 + k] == u32_le(rm.encrypted_link.len() as u32)[k]);
        }
    }
    assert(b.subrange(pos + 37, pos + 37 + n) =~= rm.encrypted_link) by {
        assert forall|k: int| 0 <= k < n implies #[trigger] b.subrange(pos + 37, pos + 37 + n)[k] == rm.encrypted_link[k] by {
            assert(rb[37 + k] == rm.encrypted_link[k]);
        }
    }
    assert(b.subrange(pos + 37 + n, pos + 70 + n) =~= rm.ephemeral_pubkey) by {
        assert forall|k: int| 0 <= k < 33 implies #[trigger] b.subrange(pos + 37 + n, pos + 70 + n)[k] == rm.ephemeral_pubkey[k] by {
            assert(rb[37 + n + k] == rm.ephemeral_pubkey[k]);
        }
    }
    assert(b.subrange(pos + 70 + n, pos + 78 + n) =~= i64_le(rm.timestamp)) by {
        assert forall|k: int| 0 <= k < 8 implies #[trigger] b.subrange(pos + 70 + n, pos + 78 + n)[k] == i64_le(rm.timestamp)[k] by {
            assert(rb[70 + n + k] == i64_le(rm.timestamp)[k]);
        }
    }
    assert(b.subrange(pos + 78 + n, pos + 142 + n) =~= rm.signature) by {
        assert forall|k: int| 0 <= k < 64 implies #[trigger] b.subrange(pos + 78 + n, pos + 142 + n)[k] == rm.signature[k] by {
            assert(rb[78 + n + k] == rm.signature[k]);
        }
    }
}

/// Reads the record stored at `pos`, and where it ends.
pub fn parse_record(b: &Vec<u8>, pos: usize) -> (r: Option<(FileTxRecord, usize)>)
    requires
        pos <= b@.len(),
    ensures
        r matches Some((rec, end)) ==> pos <= end <= b@.len() && record_shaped(rec@)
            && b@.subrange(pos as int, end as int) == record_bytes(rec@),
        forall|rm: RecordModel|
            #![trigger record_bytes(rm)]
            record_shaped(rm) && pos + record_bytes(rm).len() <= b@.len()
                && b@.subrange(pos as int, pos + record_bytes(rm).len()) == record_bytes(rm)
                ==> (r matches Some((rec, end)) && rec@ == rm && end == pos + record_bytes(rm).len()),
{
    let n = b.len();
    if n - pos < 37 {
        proof {
            assert forall|rm: RecordModel|
                record_shaped(rm) && pos + #[trigger] record_bytes(rm).len() <= b@.len()
                    && b@.subrange(pos as int, pos + record_bytes(rm).len()) == record_bytes(rm) implies false by {
                record_fields(b@, pos as int, rm);
            }
        }
        return None;
    }
    let sender_ec_pubkey = read_bytes(b, pos, 33);
    let len32 = read_u32(b, pos + 33);
    let len = len32 as usize;
    let p = pos + 37;
    proof {
        assert forall|rm: RecordModel|
            record_shaped(rm) && pos + #[trigger] record_bytes(rm).len() <= b@.len()
                && b@.subrange(pos as int, pos + record_bytes(rm).len()) == record_bytes(rm) implies len
                == rm.encrypted_link.len() by {
            record_fields(b@, pos as int, rm);
            u32_round_trip(rm.encrypted_link.len() as u32);
        }
    }
    if len > n - p || n - p - len < 105 {
        proof {
            assert forall|rm: RecordModel|
                record_shaped(rm) && pos + #[trigger] record_bytes(rm).len() <= b@.len()
                    && b@.subrange(pos as int, pos + record_bytes(rm).len()) == record_bytes(rm) implies false by {
                record_fields(b@, pos as int, rm);
            }
        }
        return None;
    }
    let encrypted_link = read_bytes(b, p, len);
    let q = p + len;
    let ephemeral_pubkey = read_bytes(b, q, 33);
    let timestamp = read_i64(b, q + 33);
    let signature = read_bytes(b, q + 41, 64);
    let rec = FileTxRecord { sender_ec_pubkey, encrypted_link, ephemeral_pubkey, timestamp, signature };
    assert(b@.subrange(pos as int, (q + 105) as int) =~= record_bytes(rec@));
    proof {
        assert forall|rm: RecordModel|
            record_shaped(rm) && pos + #[trigger] record_bytes(rm).len() <= b@.len()
                && b@.subrange(pos as int, pos + record_bytes(rm).len()) == record_bytes(rm) implies rec@ == rm
            by {
            record_fields(b@, pos as int, rm);
            i64_le_injective(timestamp, rm.timestamp);
        }
    }
    Some((rec, q + 105))
}

impl InboxAccount {
    /// Reads an inbox from its stored slot bytes: the one well-formed inbox
    /// whose stored bytes they are, or `InvalidAccountData` if there is none.
    pub fn unpack_from_slice(src: &Vec<u8>) -> (r: Result<InboxAccount, ErrorCode>)
        ensures
            r matches Ok(a) ==> a@.wf() && inbox_packed(a@) == src@,
            r is Err ==> r == Err::<InboxAccount, ErrorCode>(ErrorCode::InvalidAccountData),
            forall|m: InboxModel|
                #![trigger inbox_packed(m)]
                m.wf() && inbox_packed(m) == src@ ==> (r matches Ok(a) && a@ == m),
    {
        if src.len() != INBOX_ACCOUNT_LEN || src[0] > 1 {
            proof {
                assert forall|m: InboxModel| m.wf() && #[trigger] inbox_packed(m) == src@ implies false by {
                    packed_fields(m);
                }
            }
            return Err(ErrorCode::InvalidAccountData);
        }
        let recipient_ec_pubkey = read_bytes(src, 1, 33);
        let recipient_wallet = read_bytes(src, 34, 32);
        let bump = src[66];
        let count = read_u32(src, 67);
        proof {
            assert forall|m: InboxModel| m.wf() && #[trigger] inbox_packed(m) == src@ implies count == m.messages.len() by {
                packed_fields(m);
                u32_round_trip(m.messages.len() as u32);
            }
        }
        if count as usize > MAX_MESSAGES {
            return Err(ErrorCode::InvalidAccountData);
        }
        let mut messages: Vec<FileTxRecord> = Vec::new();
        let mut pos: usize = INBOX_HEADER_LEN;
        let mut i: usize = 0;
        while i < count as usize
            invariant
                i <= count <= MAX_MESSAGES,
                INBOX_HEADER_LEN <= pos <= src@.len(),
                messages@.len() == i,
                forall|k: int| 0 <= k < i ==> (#[trigger] messages@[k])@.wf(),
                src@.subrange(71, pos as int) == records_bytes(messages@.map_values(|x: FileTxRecord| x@)),
                forall|m: InboxModel|
                    #![trigger inbox_packed(m)]
                    m.wf() && inbox_packed(m) == src@ ==> count == m.messages.len()
                        && messages@.map_values(|x: FileTxRecord| x@) == m.messages.subrange(0, i as int),
            decreases count - i,
        {
            let parsed = parse_record(src, pos);
            proof {
                assert forall|m: InboxModel| m.wf() && #[trigger] inbox_packed(m) == src@ implies (parsed matches Some(
                    p,
                ) && p.0@ == m.messages[i as int] && p.0@.wf() && p.1 == pos + record_bytes(m.messages[i as int]).len()) by {
                    let ms = m.messages;
                    packed_fields(m);
                    records_step(ms, i as int);
                    records_prefix(ms, i + 1);
                    assert(ms[i as int].wf());
                    let before = records_bytes(ms.subrange(0, i as int));
                    assert(before == records_bytes(messages@.map_values(|x: FileTxRecord| x@)));
                    window_of_window(src@, 71, records_bytes(ms), before, record_bytes(ms[i as int]));
                }
            }
            match parsed {
                None => {
                    return Err(ErrorCode::InvalidAccountData);
                },
                Some((rec, end)) => {
                    if rec.encrypted_link.len() > MAX_LINK_LEN {
                        return Err(ErrorCode::InvalidAccountData);
                    }
                    let ghost before = messages@.map_values(|x: FileTxRecord| x@);
                    messages.push(rec);
                    proof {
                        let after = messages@.map_values(|x: FileTxRecord| x@);
                        assert(after.drop_last() =~= before);
                        assert(src@.subrange(71, end as int) =~= src@.subrange(71, pos as int) + src@.subrange(pos as int, end as int));
                        assert forall|m: InboxModel| m.wf() && #[trigger] inbox_packed(m) == src@ implies after
                            == m.messages.subrange(0, i + 1) by {
                            assert(after =~= m.messages.subrange(0, i + 1));
                        }
                    }
                    pos = end;
                },
            }
            i = i + 1;
        }
        proof {
            assert forall|m: InboxModel| m.wf() && #[trigger] inbox_packed(m) == src@ implies pos == 71
                + records_bytes(m.messages).len() by {
                assert(m.messages.subrange(0, i as int) =~= m.messages);
            }
        }
        if !all_zero_from(src, pos) {
            proof {
                assert forall|m: InboxModel| m.wf() && #[trigger] inbox_packed(m) == src@ implies false by {
                    packed_fields(m);
                }
            }
            return Err(ErrorCode::InvalidAccountData);
        }
        let a = InboxAccount { is_initialized: src[0] == 1, recipient_ec_pubkey, recipient_wallet, messages, bump };
        proof {
            let m = a@;
            assert(m.messages =~= messages@.map_values(|x: FileTxRecord| x@));
            assert(u32_le(m.messages.len() as u32) == src@.subrange(67, 71));
            assert(inbox_bytes(m) =~= src@.subrange(0, pos as int));
            assert(src@ =~= src@.subrange(0, pos as int) + src@.subrange(pos as int, src@.len() as int));
            assert forall|m2: InboxModel| m2.wf() && #[trigger] inbox_packed(m2) == src@ implies a@ == m2 by {
                packed_fields(m2);
                assert(m2.messages.subrange(0, i as int) =~= m2.messages);
            }
        }
        Ok(a)
    }
}

impl InboxAccount {
    /// The width of a stored inbox slot.
    pub fn get_packed_len() -> (r: usize)
        ensures
            r == INBOX_ACCOUNT_LEN,
    {
        INBOX_ACCOUNT_LEN
    }

    /// Writes this inbox over `dst`, which has the slot's fixed width.
    pub fn pack_into_slice(&self, dst: &mut Vec<u8>)
        requires
            self@.wf(),
            old(dst)@.len() == INBOX_ACCOUNT_LEN,
        ensures
            final(dst)@ == inbox_packed(self@),
            final(dst)@.len() == old(dst)@.len(),
    {
        *dst = self.pack();
    }

    /// Reads an active inbox from its stored slot bytes.
    pub fn unpack(src: &Vec<u8>) -> (r: Result<InboxAccount, ErrorCode>)
        ensures
            !inbox_decodable(src@) ==> r == Err::<InboxAccount, ErrorCode>(ErrorCode::InvalidAccountData),
            inbox_decodable(src@) && !inbox_decoded(src@).is_initialized ==> r == Err::<InboxAccount, ErrorCode>(ErrorCode::UninitializedAccount),
            inbox_decodable(src@) && inbox_decoded(src@).is_initialized ==> (r matches Ok(a) && a@ == inbox_decoded(src@)),
    {
        let a = InboxAccount::unpack_from_slice(src)?;
        proof {
            assert(inbox_decodable(src@));
            assert(inbox_decoded(src@) == a@);
        }
        if !a.is_initialized {
            return Err(ErrorCode::UninitializedAccount);
        }
        Ok(a)
    }
}

} // verus!
