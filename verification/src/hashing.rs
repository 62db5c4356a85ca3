//! Trusted wrappers around the hash functions the storage-key and
//! extrinsic-identity derivations use. Each digest is a pure function of
//! its input bytes, so each gets an uninterpreted name that contracts
//! elsewhere build on.

use vstd::prelude::*;

verus! {

/// The 16-byte xx-hash (two 64-bit rounds) of a byte string.
pub uninterp spec fn twox128_of(data: Seq<u8>) -> Seq<u8>;

/// The 8-byte xx-hash of a byte string.
pub uninterp spec fn twox64_of(data: Seq<u8>) -> Seq<u8>;

/// The 16-byte Blake2b digest of a byte string.
pub uninterp spec fn blake2_128_of(data: Seq<u8>) -> Seq<u8>;

/// The 32-byte Blake2b digest of a byte string.
pub uninterp spec fn blake2_256_of(data: Seq<u8>) -> Seq<u8>;

/// Relies on sp_core_hashing::twox_128: a 16-byte digest that depends on
/// the input bytes alone.
#[verifier::external_body]
pub(crate) fn twox_128(data: &Vec<u8>) -> (r: Vec<u8>)
    ensures
        r@ == twox128_of(data@),
        r@.len() == 16,
{
    sp_core_hashing::twox_128(data.as_slice()).to_vec()
}

/// Relies on sp_core_hashing::twox_64: an 8-byte digest that depends on
/// the input bytes alone.
#[verifier::external_body]
pub(crate) fn twox_64(data: &Vec<u8>) -> (r: Vec<u8>)
    ensures
        r@ == twox64_of(data@),
        r@.len() == 8,
{
    sp_core_hashing::twox_64(data.as_slice()).to_vec()
}

/// Relies on sp_core_hashing::blake2_128: a 16-byte digest that depends
/// on the input bytes alone.
#[verifier::external_body]
pub(crate) fn blake2_128(data: &Vec<u8>) -> (r: Vec<u8>)
    ensures
        r@ == blake2_128_of(data@),
        r@.len() == 16,
{
    sp_core_hashing::blake2_128(data.as_slice()).to_vec()
}

/// Relies on sp_core_hashing::blake2_256: a 32-byte digest that depends
/// on the input bytes alone.
#[verifier::external_body]
pub(crate) fn blake2_256(data: &Vec<u8>) -> (r: Vec<u8>)
    ensures
        r@ == blake2_256_of(data@),
        r@.len() == 32,
{
    sp_core_hashing::blake2_256(data.as_slice()).to_vec()
}

} // verus!
