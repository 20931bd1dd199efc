//! The hash functions behind script and key hashes.

use vstd::prelude::*;

verus! {

/// The SHA-256 digest of `data`, as `bitcoin::hashes::sha256` computes it.
pub uninterp spec fn sha256(data: Seq<u8>) -> Seq<u8>;

/// The RIPEMD-160 digest of `data`, as `bitcoin::hashes::ripemd160` computes it.
pub uninterp spec fn ripemd160(data: Seq<u8>) -> Seq<u8>;

/// The hash of public keys and redeem scripts: RIPEMD-160 of SHA-256.
pub open spec fn hash160(data: Seq<u8>) -> Seq<u8> {
    ripemd160(sha256(data))
}

/// Calls `bitcoin::hashes::sha256::Hash::hash` and returns the digest bytes.
/// Trusted: the result is the function `sha256` of the input bytes; its
/// length is that of the returned array.
#[verifier::external_body]
pub(crate) fn sha256_digest(data: &[u8]) -> (digest: [u8; 32])
    ensures
        digest@ == sha256(data@),
{
    let hash = <bitcoin::hashes::sha256::Hash as bitcoin::hashes::Hash>::hash(data);
    bitcoin::hashes::Hash::to_byte_array(hash)
}

/// Calls `bitcoin::hashes::ripemd160::Hash::hash` and returns the digest
/// bytes. Trusted: the result is the function `ripemd160` of the input bytes.
#[verifier::external_body]
pub(crate) fn ripemd160_digest(data: &[u8]) -> (digest: [u8; 20])
    ensures
        digest@ == ripemd160(data@),
{
    let hash = <bitcoin::hashes::ripemd160::Hash as bitcoin::hashes::Hash>::hash(data);
    bitcoin::hashes::Hash::to_byte_array(hash)
}

/// RIPEMD-160 of SHA-256 of `data`.
pub fn hash160_digest(data: &[u8]) -> (digest: [u8; 20])
    ensures
        digest@ == hash160(data@),
{
    let inner: [u8; 32] = sha256_digest(data);
    ripemd160_digest(inner.as_slice())
}

} // verus!
