//! The hashing scheme: derives a fingerprint and two candidate bucket
//! indices from a key, and recomputes the alternate index of an entry from
//! its fingerprint and a known index alone.
//!
//! The alternate index is the known index XORed with a hash of the
//! fingerprint. XOR makes the derivation involutive: applying it twice with
//! the same fingerprint yields the original index back, which is what makes
//! eviction chains well-defined.

use vstd::prelude::*;

use std::collections::hash_map::DefaultHasher;
use std::hash::Hasher;
use vstd::arithmetic::power2::pow2;
use vstd::bits::low_bits_mask;
use vstd::bits::lemma_u64_low_bits_mask_is_mod;
use vstd::std_specs::hash::DefaultHasherAdditionalSpecFns;

use crate::bucket::{Fingerprint, EMPTY_BYTE, FINGERPRINT_SIZE};

verus! {

/// The digest that the standard hasher assigns to a single write of `bytes`.
pub open spec fn hash_of(bytes: Seq<u8>) -> u64 {
    DefaultHasher::spec_finish(seq![bytes])
}

/// Hashes one byte slice with a freshly initialised standard hasher.
fn hash_bytes(bytes: &[u8]) -> (r: u64)
    ensures
        r == hash_of(bytes@),
{
    let mut hasher = DefaultHasher::new();
    hasher.write(bytes);
    hasher.finish()
}

/// The digest byte from which a key's fingerprint is derived.
pub open spec fn raw_fp_of(k: Seq<u8>) -> u8 {
    ((hash_of(k) >> 32) & 0xff) as u8
}

/// The fingerprint byte of a key: the digest byte, perturbed to zero when it
/// would collide with the empty marker. The result is never the marker, so a
/// stored fingerprint can always be told apart from an unoccupied slot.
pub open spec fn fp_of(k: Seq<u8>) -> u8 {
    if raw_fp_of(k) == EMPTY_BYTE {
        0u8
    } else {
        raw_fp_of(k)
    }
}

/// The first candidate index of a key: the low 32 bits of its digest. It is
/// reduced modulo the table length lazily, by the map, so the same triple is
/// reusable across maps of different sizes.
pub open spec fn i1_of(k: Seq<u8>) -> u64 {
    hash_of(k) & 0xffff_ffff
}

/// The low 32 bits of the digest of a fingerprint byte: the offset that
/// separates an entry's two candidate indices.
pub open spec fn fp_index_hash(f: u8) -> u64 {
    hash_of(seq![f]) & 0xffff_ffff
}

/// The alternate candidate index, a pure function of a fingerprint and one
/// known index; the original key is not needed.
pub open spec fn alt_index_of(i: u64, f: u8) -> u64 {
    i ^ fp_index_hash(f)
}

/// The second candidate index of a key.
pub open spec fn i2_of(k: Seq<u8>) -> u64 {
    alt_index_of(i1_of(k), fp_of(k))
}

/// A key's fingerprint is never the empty marker.
pub proof fn lemma_fp_not_empty(k: Seq<u8>)
    ensures
        fp_of(k) != EMPTY_BYTE,
{
}

/// The alternate-index derivation is involutive: applied twice with the same
/// fingerprint it yields the original index back.
pub proof fn lemma_alt_involutive(i: u64, f: u8)
    ensures
        alt_index_of(alt_index_of(i, f), f) == i,
{
    let m = fp_index_hash(f);
    assert((i ^ m) ^ m == i) by (bit_vector);
}

/// A power of two that fits in 64 bits.
pub open spec fn is_pow2(n: int) -> bool {
    exists|k: nat| k < 64 && n == pow2(k)
}

/// Modulo by a power of two distributes over XOR: reducing after XOR equals
/// XORing the reductions.
pub proof fn lemma_xor_mod_pow2(a: u64, b: u64, k: nat)
    requires
        k < 64,
    ensures
        (a ^ b) % (pow2(k) as u64) == ((a % (pow2(k) as u64)) ^ (b % (pow2(k) as u64))),
{
    let m = low_bits_mask(k) as u64;
    lemma_u64_low_bits_mask_is_mod(a, k);
    lemma_u64_low_bits_mask_is_mod(b, k);
    lemma_u64_low_bits_mask_is_mod(a ^ b, k);
    assert((a ^ b) & m == (a & m) ^ (b & m)) by (bit_vector);
}

/// Indices that agree modulo a power-of-two table length have alternate
/// indices that also agree: an entry's alternate slot is determined by its
/// current slot and its fingerprint.
pub proof fn lemma_alt_slot_congruent(i: u64, j: u64, f: u8, n: u64)
    requires
        is_pow2(n as int),
        i % n == j % n,
    ensures
        alt_index_of(i, f) % n == alt_index_of(j, f) % n,
{
    let k = choose|k: nat| k < 64 && n as int == pow2(k);
    lemma_xor_mod_pow2(i, fp_index_hash(f), k);
    lemma_xor_mod_pow2(j, fp_index_hash(f), k);
}

/// The fingerprint and the two candidate indices derived from one key.
pub struct FaI {
    pub fp: Fingerprint,
    pub i1: u64,
    pub i2: u64,
}

/// Computes the alternate candidate index of a stored entry from its
/// fingerprint and a known index.
pub fn get_alt_index(fp: Fingerprint, i: u64) -> (r: u64)
    ensures
        r == alt_index_of(i, fp@),
{
    let h = hash_bytes(fp.data.as_slice());
    proof {
        assert(fp.data@ =~= seq![fp@]);
    }
    i ^ (h & 0xffff_ffff)
}

/// Derives the (fingerprint, first index, second index) triple of a key.
pub fn get_fai(key: &[u8]) -> (r: FaI)
    ensures
        r.fp@ == fp_of(key@),
        r.i1 == i1_of(key@),
        r.i2 == i2_of(key@),
{
    let h = hash_bytes(key);
    assert((h >> 32) & 0xff < 256) by (bit_vector);
    let raw: u8 = ((h >> 32) & 0xff) as u8;
    let perturbed: u8 = if raw == EMPTY_BYTE {
        0
    } else {
        raw
    };
    let fp = Fingerprint::from_data([perturbed; FINGERPRINT_SIZE]).unwrap();
    let i1 = h & 0xffff_ffff;
    let i2 = get_alt_index(fp, i1);
    FaI { fp, i1, i2 }
}

} // verus!
