//! Content hashing with BLAKE3.
use vstd::prelude::*;
use crate::u256::U256;

verus! {

/// The 32-byte BLAKE3 digest of a byte string.
pub uninterp spec fn blake3_digest(data: Seq<u8>) -> Seq<u8>;

/// Calls `blake3::hash` and converts the digest to its 32 bytes.
/// Trusted: the bytes are the BLAKE3 digest of `data`, a function of
/// `data` alone (named `blake3_digest`); nothing else about BLAKE3 is stated.
#[verifier::external_body]
pub(crate) fn blake3_hash(data: &[u8]) -> (r: [u8; 32])
    ensures
        r@ == blake3_digest(data@),
{
    blake3::hash(data).into()
}

/// A 32-byte content hash.
pub type Hash = [u8; 32];

#[derive(Debug, Clone, Copy, PartialEq, Eq, Structural)]
pub enum HashError {
    InvalidBase32,
    InvalidHash,
}

/// Hashes `data`.
pub fn hash(data: &[u8]) -> (r: Hash)
    ensures
        r@ == blake3_digest(data@),
{
    blake3_hash(data)
}

/// Whether `data_hash` is the hash of `data`.
pub fn verify(data: &[u8], data_hash: Hash) -> (r: bool)
    ensures
        r == (blake3_digest(data@) == data_hash@),
{
    let h = hash(data);
    crate::keyspace::bytes32_eq(&h, &data_hash)
}

/// Whether `data_hash`, as a key, is the hash of `data`.
pub fn verify_hash(data: &[u8], data_hash: U256) -> (r: bool)
    ensures
        r == (blake3_digest(data@) == data_hash@),
{
    U256::verify(data, data_hash)
}

} // verus!
