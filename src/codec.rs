//! Little-endian integer fields and the zero padding of fixed-width slots.
use vstd::prelude::*;

verus! {

/// The two little-endian bytes of `v`.
pub open spec fn u16_le(v: u16) -> Seq<u8> {
    seq![(v & 0xff) as u8, (v >> 8u16) as u8]
}

/// The four little-endian bytes of `v`.
pub open spec fn u32_le(v: u32) -> Seq<u8> {
    seq![(v & 0xff) as u8, ((v >> 8u32) & 0xff) as u8, ((v >> 16u32) & 0xff) as u8, (v >> 24u32) as u8]
}

/// The `u32` whose little-endian bytes open `s`.
pub open spec fn u32_of(s: Seq<u8>) -> u32 {
    (s[0] as u32) | ((s[1] as u32) << 8u32) | ((s[2] as u32) << 16u32) | ((s[3] as u32) << 24u32)
}

/// The eight little-endian bytes of `v`.
pub open spec fn u64_le(v: u64) -> Seq<u8> {
    seq![
        (v & 0xff) as u8,
        ((v >> 8u64) & 0xff) as u8,
        ((v >> 16u64) & 0xff) as u8,
        ((v >> 24u64) & 0xff) as u8,
        ((v >> 32u64) & 0xff) as u8,
        ((v >> 40u64) & 0xff) as u8,
        ((v >> 48u64) & 0xff) as u8,
        (v >> 56u64) as u8,
    ]
}

/// The two's-complement little-endian bytes of `v`.
pub open spec fn i64_le(v: i64) -> Seq<u8> {
    u64_le(v as u64)
}

/// `n` zero bytes.
pub open spec fn zeros(n: nat) -> Seq<u8> {
    Seq::new(n, |i: int| 0u8)
}

pub fn push_u16(out: &mut Vec<u8>, v: u16)
    ensures
        final(out)@ == old(out)@ + u16_le(v),
{
    out.push((v & 0xff) as u8);
    out.push((v >> 8u16) as u8);
    assert(final(out)@ =~= old(out)@ + u16_le(v));
}

pub fn push_u32(out: &mut Vec<u8>, v: u32)
    ensures
        final(out)@ == old(out)@ + u32_le(v),
{
    out.push((v & 0xff) as u8);
    out.push(((v >> 8u32) & 0xff) as u8);
    out.push(((v >> 16u32) & 0xff) as u8);
    out.push((v >> 24u32) as u8);
    assert(final(out)@ =~= old(out)@ + u32_le(v));
}

pub fn push_i64(out: &mut Vec<u8>, v: i64)
    ensures
        final(out)@ == old(out)@ + i64_le(v),
{
    let u = v as u64;
    out.push((u & 0xff) as u8);
    out.push(((u >> 8u64) & 0xff) as u8);
    out.push(((u >> 16u64) & 0xff) as u8);
    out.push(((u >> 24u64) & 0xff) as u8);
    out.push(((u >> 32u64) & 0xff) as u8);
    out.push(((u >> 40u64) & 0xff) as u8);
    out.push(((u >> 48u64) & 0xff) as u8);
    out.push((u >> 56u64) as u8);
    assert(final(out)@ =~= old(out)@ + i64_le(v));
}

/// Appends every byte of `src` to `out`.
pub fn push_all(out: &mut Vec<u8>, src: &Vec<u8>)
    ensures
        final(out)@ == old(out)@ + src@,
{
    let mut i: usize = 0;
    while i < src.len()
        invariant
            i <= src@.len(),
            out@ == old(out)@ + src@.subrange(0, i as int),
        decreases src@.len() - i,
    {
        out.push(src[i]);
        i = i + 1;
        assert(out@ =~= old(out)@ + src@.subrange(0, i as int));
    }
    assert(src@.subrange(0, i as int) =~= src@);
}

/// Appends `n` zero bytes to `out`.
pub fn push_zeros(out: &mut Vec<u8>, n: usize)
    ensures
        final(out)@ == old(out)@ + zeros(n as nat),
{
    let mut i: usize = 0;
    while i < n
        invariant
            i <= n,
            out@ == old(out)@ + zeros(i as nat),
        decreases n - i,
    {
        out.push(0u8);
        i = i + 1;
        assert(out@ =~= old(out)@ + zeros(i as nat));
    }
}

/// Reading back the bytes of `v` gives `v`.
pub proof fn u32_round_trip(v: u32)
    ensures
        u32_of(u32_le(v)) == v,
{
    let s = u32_le(v);
    let (b0, b1, b2, b3) = (s[0], s[1], s[2], s[3]);
    assert(v == ((b0 as u32) | ((b1 as u32) << 8u32) | ((b2 as u32) << 16u32) | ((b3 as u32) << 24u32)))
        by (bit_vector)
        requires
            b0 == (v & 0xff) as u8,
            b1 == ((v >> 8u32) & 0xff) as u8,
            b2 == ((v >> 16u32) & 0xff) as u8,
            b3 == (v >> 24u32) as u8,
    ;
}

/// Two `i64` with the same bytes are equal.
pub proof fn i64_le_injective(a: i64, b: i64)
    requires
        i64_le(a) == i64_le(b),
    ensures
        a == b,
{
    let (x, y) = (u64_le(a as u64), u64_le(b as u64));
    assert(x[0] == y[0] && x[1] == y[1] && x[2] == y[2] && x[3] == y[3]);
    assert(x[4] == y[4] && x[5] == y[5] && x[6] == y[6] && x[7] == y[7]);
    let (u, v) = (a as u64, b as u64);
    assert(u == v) by (bit_vector)
        requires
            (u & 0xff) as u8 == (v & 0xff) as u8,
            ((u >> 8u64) & 0xff) as u8 == ((v >> 8u64) & 0xff) as u8,
            ((u >> 16u64) & 0xff) as u8 == ((v >> 16u64) & 0xff) as u8,
            ((u >> 24u64) & 0xff) as u8 == ((v >> 24u64) & 0xff) as u8,
            ((u >> 32u64) & 0xff) as u8 == ((v >> 32u64) & 0xff) as u8,
            ((u >> 40u64) & 0xff) as u8 == ((v >> 40u64) & 0xff) as u8,
            ((u >> 48u64) & 0xff) as u8 == ((v >> 48u64) & 0xff) as u8,
            (u >> 56u64) as u8 == (v >> 56u64) as u8,
    ;
    assert(a == b) by (bit_vector)
        requires
            u == a as u64,
            v == b as u64,
            u == v,
    ;
}

/// Reads the little-endian `u32` at `pos`.
pub fn read_u32(b: &Vec<u8>, pos: usize) -> (r: u32)
    requires
        pos + 4 <= b@.len(),
    ensures
        u32_le(r) == b@.subrange(pos as int, pos + 4),
        r == u32_of(b@.subrange(pos as int, pos + 4)),
{
    let n: usize = b.len();
    assert(pos + 4 <= n);
    let b0 = b[pos] as u32;
    let b1 = b[pos + 1] as u32;
    let b2 = b[pos + 2] as u32;
    let b3 = b[pos + 3] as u32;
    let r = b0 | (b1 << 8u32) | (b2 << 16u32) | (b3 << 24u32);
    assert(
        (r & 0xff) == b0 && ((r >> 8u32) & 0xff) == b1 && ((r >> 16u32) & 0xff) == b2 && (r >> 24u32) == b3
    ) by (bit_vector)
        requires
            b0 < 256 && b1 < 256 && b2 < 256 && b3 < 256,
            r == b0 | (b1 << 8u32) | (b2 << 16u32) | (b3 << 24u32),
    ;
    assert(u32_le(r) =~= b@.subrange(pos as int, pos + 4));
    r
}

/// Reads the little-endian two's-complement `i64` at `pos`.
pub fn read_i64(b: &Vec<u8>, pos: usize) -> (r: i64)
    requires
        pos + 8 <= b@.len(),
    ensures
        i64_le(r) == b@.subrange(pos as int, pos + 8),
{
    let n: usize = b.len();
    assert(pos + 8 <= n);
    let b0 = b[pos] as u64;
    let b1 = b[pos + 1] as u64;
    let b2 = b[pos + 2] as u64;
    let b3 = b[pos + 3] as u64;
    let b4 = b[pos + 4] as u64;
    let b5 = b[pos + 5] as u64;
    let b6 = b[pos + 6] as u64;
    let b7 = b[pos + 7] as u64;
    let u = b0 | (b1 << 8u64) | (b2 << 16u64) | (b3 << 24u64) | (b4 << 32u64) | (b5 << 40u64) | (
    b6 << 48u64) | (b7 << 56u64);
    assert(
        (u & 0xff) == b0 && ((u >> 8u64) & 0xff) == b1 && ((u >> 16u64) & 0xff) == b2 && ((u
            >> 24u64) & 0xff) == b3 && ((u >> 32u64) & 0xff) == b4 && ((u >> 40u64) & 0xff) == b5
            && ((u >> 48u64) & 0xff) == b6 && (u >> 56u64) == b7
    ) by (bit_vector)
        requires
            b0 < 256 && b1 < 256 && b2 < 256 && b3 < 256 && b4 < 256 && b5 < 256 && b6 < 256 && b7
                < 256,
            u == b0 | (b1 << 8u64) | (b2 << 16u64) | (b3 << 24u64) | (b4 << 32u64) | (b5 << 40u64)
                | (b6 << 48u64) | (b7 << 56u64),
    ;
    let r = #[verifier::truncate] (u as i64);
    assert((r as u64) == u) by (bit_vector)
        requires
            r == u as i64,
    ;
    assert(i64_le(r) =~= b@.subrange(pos as int, pos + 8));
    r
}

/// Copies the `len` bytes at `pos`.
pub fn read_bytes(b: &Vec<u8>, pos: usize, len: usize) -> (r: Vec<u8>)
    requires
        pos + len <= b@.len(),
    ensures
        r@ == b@.subrange(pos as int, pos + len),
{
    let n: usize = b.len();
    let mut r: Vec<u8> = Vec::new();
    let mut i: usize = 0;
    while i < len
        invariant
            i <= len,
            n == b@.len(),
            pos + len <= b@.len(),
            r@ == b@.subrange(pos as int, pos + i),
        decreases len - i,
    {
        r.push(b[pos + i]);
        i = i + 1;
        assert(r@ =~= b@.subrange(pos as int, pos + i));
    }
    r
}

/// Whether every byte from `pos` to the end is zero.
pub fn all_zero_from(b: &Vec<u8>, pos: usize) -> (r: bool)
    requires
        pos <= b@.len(),
    ensures
        r == (b@.subrange(pos as int, b@.len() as int) == zeros((b@.len() - pos) as nat)),
{
    let mut i: usize = pos;
    while i < b.len()
        invariant
            pos <= i <= b@.len(),
            forall|k: int| pos <= k < i ==> b@[k] == 0u8,
        decreases b@.len() - i,
    {
        if b[i] != 0u8 {
            assert(b@.subrange(pos as int, b@.len() as int)[i - pos] != zeros(
                (b@.len() - pos) as nat,
            )[i - pos]);
            return false;
        }
        i = i + 1;
    }
    assert(b@.subrange(pos as int, b@.len() as int) =~= zeros((b@.len() - pos) as nat));
    true
}

/// Whether the two byte strings are equal.
pub fn bytes_equal(a: &Vec<u8>, b: &Vec<u8>) -> (r: bool)
    ensures
        r == (a@ == b@),
{
    if a.len() != b.len() {
        return false;
    }
    let mut i: usize = 0;
    while i < a.len()
        invariant
            a@.len() == b@.len(),
            i <= a@.len(),
            forall|k: int| 0 <= k < i ==> a@[k] == b@[k],
        decreases a@.len() - i,
    {
        if a[i] != b[i] {
            return false;
        }
        i = i + 1;
    }
    assert(a@ =~= b@);
    true
}

} // verus!
