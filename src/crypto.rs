//! The cryptographic primitives the core relies on, each behind one trusted
//! item, and the verified logic that sits directly on top of them.
use vstd::prelude::*;
use crate::codec::u32_le;
use sha2::Digest;

verus! {

/// The SHA-256 digest of `data`.
pub uninterp spec fn sha256_of(data: Seq<u8>) -> Seq<u8>;

/// The Base58 text (Bitcoin alphabet) of `data`, as ASCII bytes.
pub uninterp spec fn base58_of(data: Seq<u8>) -> Seq<u8>;

/// The 64-byte uncompressed secp256k1 key (x then y, big-endian) that signed
/// `hash` with `signature` and `recovery_id`, if recovery succeeds.
pub uninterp spec fn secp256k1_recovered(hash: Seq<u8>, recovery_id: u8, signature: Seq<u8>) -> Option<Seq<u8>>;

/// Whether the 33 bytes are a compressed secp256k1 point that lies on the curve.
pub uninterp spec fn is_curve_point(key: Seq<u8>) -> bool;

/// The program-derived address and bump seed for `seeds` under `program_id`,
/// if one exists.
pub uninterp spec fn program_address_of(seeds: Seq<Seq<u8>>, program_id: Seq<u8>) -> Option<(Seq<u8>, u8)>;

/// Relies on sha2's `Sha256::digest`: a 32-byte digest of the input.
#[verifier::external_body]
pub(crate) fn sha256(data: &Vec<u8>) -> (r: Vec<u8>)
    ensures
        r@ == sha256_of(data@),
        r@.len() == 32,
{
    sha2::Sha256::digest(data.as_slice()).to_vec()
}

/// Relies on bs58's `encode(..).into_vec()`: the Base58 text of the input.
#[verifier::external_body]
pub(crate) fn base58(data: &Vec<u8>) -> (r: Vec<u8>)
    ensures
        r@ == base58_of(data@),
{
    bs58::encode(data.as_slice()).into_vec()
}

/// Relies on solana_program's `secp256k1_recover`: the recovered key, 64
/// bytes, or an error, depending on the three inputs alone.
#[verifier::external_body]
pub(crate) fn secp256k1_recover(hash: &Vec<u8>, recovery_id: u8, signature: &Vec<u8>) -> (r: Option<Vec<u8>>)
    ensures
        match r {
            Some(k) => secp256k1_recovered(hash@, recovery_id, signature@) == Some(k@) && k@.len() == 64,
            None => secp256k1_recovered(hash@, recovery_id, signature@) is None,
        },
{
    solana_program::secp256k1_recover::secp256k1_recover(hash.as_slice(), recovery_id, signature.as_slice())
        .ok()
        .map(|k| k.to_bytes().to_vec())
}

/// Relies on libsecp256k1's `PublicKey::parse_compressed`: it succeeds exactly
/// on well-formed compressed points of the curve.
#[verifier::external_body]
pub(crate) fn parse_compressed_point(key: &Vec<u8>) -> (r: bool)
    requires
        key@.len() == 33,
    ensures
        r == is_curve_point(key@),
{
    let bytes = <[u8; 33]>::try_from(key.as_slice()).unwrap();
    libsecp256k1::PublicKey::parse_compressed(&bytes).is_ok()
}

/// Relies on solana_program's `Pubkey::try_find_program_address`: the first
/// bump seed, from 255 down, that gives an off-curve address, or none.
#[verifier::external_body]
pub(crate) fn try_find_program_address(seeds: &Vec<Vec<u8>>, program_id: &Vec<u8>) -> (r: Option<(Vec<u8>, u8)>)
    requires
        program_id@.len() == 32,
    ensures
        match r {
            Some(p) => program_address_of(seeds@.map_values(|s: Vec<u8>| s@), program_id@) == Some((p.0@, p.1))
                && p.0@.len() == 32,
            None => program_address_of(seeds@.map_values(|s: Vec<u8>| s@), program_id@) is None,
        },
{
    let slices: Vec<&[u8]> = seeds.iter().map(|s| s.as_slice()).collect();
    let program = solana_program::pubkey::Pubkey::new_from_array(<[u8; 32]>::try_from(program_id.as_slice()).unwrap());
    solana_program::pubkey::Pubkey::try_find_program_address(&slices, &program).map(|(a, b)| (a.to_bytes().to_vec(), b))
}

/// The SEC1 compressed form of a 64-byte uncompressed key `x || y`: a prefix
/// of 2 for even `y` or 3 for odd `y`, then `x`.
pub open spec fn compressed_key(k: Seq<u8>) -> Seq<u8> {
    seq![(2 + k[63] % 2) as u8] + k.subrange(0, 32)
}

/// Compresses a 64-byte uncompressed secp256k1 key.
pub fn compress_key(k: &Vec<u8>) -> (r: Vec<u8>)
    requires
        k@.len() == 64,
    ensures
        r@ == compressed_key(k@),
{
    let mut r: Vec<u8> = Vec::new();
    r.push(2u8 + k[63] % 2);
    let mut i: usize = 0;
    while i < 32
        invariant
            i <= 32,
            k@.len() == 64,
            r@ == seq![(2 + k@[63] % 2) as u8] + k@.subrange(0, i as int),
        decreases 32 - i,
    {
        r.push(k[i]);
        i = i + 1;
        assert(r@ =~= seq![(2 + k@[63] % 2) as u8] + k@.subrange(0, i as int));
    }
    r
}

/// The seeds of a derived address: a domain tag, the owner, and the
/// disambiguator as four little-endian bytes.
pub open spec fn address_seeds(tag: Seq<u8>, owner: Seq<u8>, disambiguator: u32) -> Seq<Seq<u8>> {
    seq![tag, owner, u32_le(disambiguator)]
}

/// The address derived from a domain tag, an owner and a disambiguator.
pub open spec fn derived_address(tag: Seq<u8>, owner: Seq<u8>, disambiguator: u32, program_id: Seq<u8>) -> Option<(Seq<u8>, u8)> {
    program_address_of(address_seeds(tag, owner, disambiguator), program_id)
}

/// Computes the address (and bump seed) of the slot for `owner` under `tag`
/// and `disambiguator`.
pub fn derive_address(tag: &Vec<u8>, owner: &Vec<u8>, disambiguator: u32, program_id: &Vec<u8>) -> (r: Option<(Vec<u8>, u8)>)
    requires
        program_id@.len() == 32,
    ensures
        match r {
            Some(p) => derived_address(tag@, owner@, disambiguator, program_id@) == Some((p.0@, p.1)) && p.0@.len() == 32,
            None => derived_address(tag@, owner@, disambiguator, program_id@) is None,
        },
{
    let mut index_bytes: Vec<u8> = Vec::new();
    crate::codec::push_u32(&mut index_bytes, disambiguator);
    let seeds: Vec<Vec<u8>> = vec![tag.clone(), owner.clone(), index_bytes];
    proof {
        assert(seeds@.map_values(|s: Vec<u8>| s@) =~= address_seeds(tag@, owner@, disambiguator));
    }
    try_find_program_address(&seeds, program_id)
}

/// Whether `presented` is the address derived for `owner` under `tag` and
/// `disambiguator`.
pub fn address_matches(presented: &Vec<u8>, tag: &Vec<u8>, owner: &Vec<u8>, disambiguator: u32, program_id: &Vec<u8>) -> (r: bool)
    requires
        program_id@.len() == 32,
    ensures
        r == (derived_address(tag@, owner@, disambiguator, program_id@) matches Some(p) && p.0 == presented@),
{
    match derive_address(tag, owner, disambiguator, program_id) {
        Some(p) => crate::codec::bytes_equal(&p.0, presented),
        None => false,
    }
}

/// Address derivation is a function of its inputs: the same tag, owner,
/// disambiguator and program always give the same address.
pub proof fn derivation_is_deterministic(tag: Seq<u8>, owner: Seq<u8>, i: u32, program_id: Seq<u8>)
    ensures
        derived_address(tag, owner, i, program_id) == derived_address(tag, owner, i, program_id),
{
}

/// Distinct disambiguators hand distinct seeds to the derivation, so they
/// address independent slots of the same owner.
pub proof fn distinct_disambiguators_give_distinct_seeds(tag: Seq<u8>, owner: Seq<u8>, i: u32, j: u32)
    requires
        i != j,
    ensures
        address_seeds(tag, owner, i) != address_seeds(tag, owner, j),
{
    if address_seeds(tag, owner, i) == address_seeds(tag, owner, j) {
        assert(address_seeds(tag, owner, i)[2] == address_seeds(tag, owner, j)[2]);
        let a = u32_le(i);
        let b = u32_le(j);
        assert(a[0] == b[0] && a[1] == b[1] && a[2] == b[2] && a[3] == b[3]);
        assert(i == j) by (bit_vector)
            requires
                (i & 0xff) as u8 == (j & 0xff) as u8,
                ((i >> 8u32) & 0xff) as u8 == ((j >> 8u32) & 0xff) as u8,
                ((i >> 16u32) & 0xff) as u8 == ((j >> 16u32) & 0xff) as u8,
                (i >> 24u32) as u8 == (j >> 24u32) as u8,
        ;
    }
}

} // verus!
