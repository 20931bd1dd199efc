//! Public keys and signatures as the bytes that scripts carry.

use vstd::prelude::*;
use crate::hashes::{sha256, sha256_digest};
use crate::script::append_slice;

verus! {

/// Length of a compressed public key.
pub const PUBLIC_KEY_SIZE: usize = 33;

/// A public key in its compressed serialization: a parity byte and the
/// x-coordinate. Whether the bytes name a point of the curve is decided where
/// a key enters point arithmetic.
#[derive(Clone, Copy, Debug, PartialEq, Eq)]
pub struct PublicKey {
    pub bytes: [u8; 33],
}

impl View for PublicKey {
    type V = Seq<u8>;

    open spec fn view(&self) -> Seq<u8> {
        self.bytes@
    }
}

impl PublicKey {
    /// The key with the given serialization.
    pub fn from_bytes(bytes: [u8; 33]) -> (key: PublicKey)
        ensures
            key@ == bytes@,
    {
        PublicKey { bytes }
    }

    /// The key whose serialization is `data`, if `data` has the length of one.
    pub fn from_slice(data: &[u8]) -> (key: Option<PublicKey>)
        ensures
            key is Some <==> data@.len() == PUBLIC_KEY_SIZE,
            key matches Some(k) ==> k@ == data@,
    {
        if data.len() != PUBLIC_KEY_SIZE {
            return None;
        }
        let mut bytes: [u8; 33] = [0u8; 33];
        let mut i: usize = 0;
        while i < PUBLIC_KEY_SIZE
            invariant
                i <= PUBLIC_KEY_SIZE,
                data@.len() == PUBLIC_KEY_SIZE,
                forall|j: int| 0 <= j < i ==> bytes@[j] == data@[j],
            decreases PUBLIC_KEY_SIZE - i,
        {
            bytes[i] = data[i];
            i = i + 1;
        }
        Some(PublicKey { bytes })
    }

    /// The 33 bytes of the key.
    pub fn serialize(&self) -> (bytes: [u8; 33])
        ensures
            bytes@ == self@,
    {
        self.bytes
    }
}

/// A signature as the signer hands it over: DER encoding followed by the
/// signature-hash flag.
#[derive(Debug, PartialEq, Eq)]
pub struct Signature {
    pub bytes: Vec<u8>,
}

impl Clone for Signature {
    fn clone(&self) -> (copy: Signature)
        ensures
            copy@ == self@,
    {
        let mut bytes: Vec<u8> = Vec::new();
        append_slice(&mut bytes, self.bytes.as_slice());
        Signature { bytes }
    }
}

impl View for Signature {
    type V = Seq<u8>;

    open spec fn view(&self) -> Seq<u8> {
        self.bytes@
    }
}

/// The compressed serialization of the curve point `point` multiplied by the
/// scalar `scalar`, as `secp256k1::PublicKey::mul_tweak` computes it. `None`
/// where `point` does not parse as a public key, where `scalar`, a
/// big-endian number, is not below the order of the curve, or where the
/// product is no valid key.
pub uninterp spec fn secp_mul_tweak(point: Seq<u8>, scalar: Seq<u8>) -> Option<Seq<u8>>;

/// The compressed serialization of the sum of the curve points `first` and
/// `second`, as `secp256k1::PublicKey::combine` computes it. `None` where
/// one of them does not parse as a public key or where the sum is the point
/// at infinity.
pub uninterp spec fn secp_combine(first: Seq<u8>, second: Seq<u8>) -> Option<Seq<u8>>;

/// Parses `point` with `secp256k1::PublicKey::from_slice` and `scalar` with
/// `secp256k1::Scalar::from_be_bytes`, calls
/// `secp256k1::PublicKey::mul_tweak` and serializes the product. Trusted:
/// the outcome is the function `secp_mul_tweak` of the two byte strings.
#[verifier::external_body]
fn point_mul_tweak(point: &[u8; 33], scalar: &[u8; 32]) -> (product: Option<[u8; 33]>)
    ensures
        match product {
            Some(bytes) => secp_mul_tweak(point@, scalar@) == Some(bytes@),
            None => secp_mul_tweak(point@, scalar@) is None,
        },
{
    let secp = bitcoin::secp256k1::Secp256k1::verification_only();
    let key = match bitcoin::secp256k1::PublicKey::from_slice(point) {
        Ok(key) => key,
        Err(_) => return None,
    };
    let tweak = match bitcoin::secp256k1::Scalar::from_be_bytes(*scalar) {
        Ok(tweak) => tweak,
        Err(_) => return None,
    };
    match key.mul_tweak(&secp, &tweak) {
        Ok(product) => Some(product.serialize()),
        Err(_) => None,
    }
}

/// Parses both points with `secp256k1::PublicKey::from_slice`, calls
/// `secp256k1::PublicKey::combine` and serializes the sum. Trusted: the
/// outcome is the function `secp_combine` of the two byte strings.
#[verifier::external_body]
fn point_combine(first: &[u8; 33], second: &[u8; 33]) -> (sum: Option<[u8; 33]>)
    ensures
        match sum {
            Some(bytes) => secp_combine(first@, second@) == Some(bytes@),
            None => secp_combine(first@, second@) is None,
        },
{
    let a = match bitcoin::secp256k1::PublicKey::from_slice(first) {
        Ok(key) => key,
        Err(_) => return None,
    };
    let b = match bitcoin::secp256k1::PublicKey::from_slice(second) {
        Ok(key) => key,
        Err(_) => return None,
    };
    match a.combine(&b) {
        Ok(sum) => Some(sum.serialize()),
        Err(_) => None,
    }
}

/// Why a key could not be derived.
#[derive(Clone, Copy, Debug, PartialEq, Eq, Structural)]
pub enum KeyError {
    /// A point could not be multiplied by its hash: the key is no point of
    /// the curve, or the hash is no scalar that gives a valid key.
    InvalidTweak,
    /// The two contributions have no sum that is a key: they are each
    /// other's negation, so that their sum is the point at infinity, or one
    /// of them is no point of the curve.
    InvalidSum,
}

/// SHA-256 over the serialization of `first` followed by that of `second`.
pub fn hash_pubkeys(first: &PublicKey, second: &PublicKey) -> (digest: [u8; 32])
    ensures
        digest@ == sha256(first@ + second@),
{
    let mut buffer: Vec<u8> = Vec::new();
    append_slice(&mut buffer, first.bytes.as_slice());
    append_slice(&mut buffer, second.bytes.as_slice());
    sha256_digest(buffer.as_slice())
}

/// What the basepoint contributes to the revocation key: the basepoint
/// multiplied by the hash of basepoint and commitment point, in this order.
pub open spec fn countersignatory_contribution(
    basepoint: Seq<u8>,
    per_commitment_point: Seq<u8>,
) -> Option<Seq<u8>> {
    secp_mul_tweak(basepoint, sha256(basepoint + per_commitment_point))
}

/// What the commitment point contributes to the revocation key: the
/// commitment point multiplied by the hash of commitment point and
/// basepoint, in this order, the reverse of the other hash.
pub open spec fn broadcaster_contribution(
    basepoint: Seq<u8>,
    per_commitment_point: Seq<u8>,
) -> Option<Seq<u8>> {
    secp_mul_tweak(per_commitment_point, sha256(per_commitment_point + basepoint))
}

/// The sum of two contributions, or the reason why there is none: a
/// contribution is missing, or the sum is no key.
pub open spec fn sum_of_contributions(first: Option<Seq<u8>>, second: Option<Seq<u8>>) -> Result<
    Seq<u8>,
    KeyError,
> {
    match (first, second) {
        (Some(first), Some(second)) => match secp_combine(first, second) {
            Some(sum) => Ok(sum),
            None => Err(KeyError::InvalidSum),
        },
        _ => Err(KeyError::InvalidTweak),
    }
}

/// The revocation key of a commitment: the sum of the two contributions, or
/// the reason why there is none.
pub open spec fn revocation_pubkey(basepoint: Seq<u8>, per_commitment_point: Seq<u8>) -> Result<
    Seq<u8>,
    KeyError,
> {
    sum_of_contributions(
        countersignatory_contribution(basepoint, per_commitment_point),
        broadcaster_contribution(basepoint, per_commitment_point),
    )
}

/// The bytes of a key that may be missing.
pub open spec fn key_bytes(key: Option<PublicKey>) -> Option<Seq<u8>> {
    match key {
        Some(key) => Some(key@),
        None => None,
    }
}

/// What the outcome of a derivation holds: the key's bytes, or the failure.
pub open spec fn derived(res: Result<PublicKey, KeyError>) -> Result<Seq<u8>, KeyError> {
    match res {
        Ok(key) => Ok(key@),
        Err(e) => Err(e),
    }
}

/// `point` multiplied by the 32-byte big-endian scalar `tweak`.
pub fn pubkey_multiplication_tweak(point: &PublicKey, tweak: &[u8; 32]) -> (product: Option<
    PublicKey,
>)
    ensures
        key_bytes(product) == secp_mul_tweak(point@, tweak@),
{
    match point_mul_tweak(&point.bytes, tweak) {
        Some(bytes) => Some(PublicKey { bytes }),
        None => None,
    }
}

/// The sum of the two points.
pub fn add_pubkeys(first: &PublicKey, second: &PublicKey) -> (sum: Option<PublicKey>)
    ensures
        key_bytes(sum) == secp_combine(first@, second@),
{
    match point_combine(&first.bytes, &second.bytes) {
        Some(bytes) => Some(PublicKey { bytes }),
        None => None,
    }
}

/// Adds up the two contributions to a revocation key. A missing
/// contribution is an invalid tweak; two contributions that cancel each
/// other have no sum.
pub fn combine_contributions(
    countersignatory_contrib: Option<PublicKey>,
    broadcaster_contrib: Option<PublicKey>,
) -> (res: Result<PublicKey, KeyError>)
    ensures
        derived(res) == sum_of_contributions(
            key_bytes(countersignatory_contrib),
            key_bytes(broadcaster_contrib),
        ),
{
    match (countersignatory_contrib, broadcaster_contrib) {
        (Some(first), Some(second)) => match add_pubkeys(&first, &second) {
            Some(sum) => Ok(sum),
            None => Err(KeyError::InvalidSum),
        },
        _ => Err(KeyError::InvalidTweak),
    }
}

/// The revocation key that belongs to the counterparty's revocation
/// basepoint and the commitment point of one channel state. Neither the
/// owner of the basepoint nor the owner of the commitment point can sign for
/// it alone.
pub fn generate_revocation_pubkey(
    countersignatory_basepoint: PublicKey,
    per_commitment_point: PublicKey,
) -> (res: Result<PublicKey, KeyError>)
    ensures
        derived(res) == revocation_pubkey(countersignatory_basepoint@, per_commitment_point@),
{
    let rev_append_commit_hash_key: [u8; 32] = hash_pubkeys(
        &countersignatory_basepoint,
        &per_commitment_point,
    );
    let commit_append_rev_hash_key: [u8; 32] = hash_pubkeys(
        &per_commitment_point,
        &countersignatory_basepoint,
    );
    let countersignatory_contrib = pubkey_multiplication_tweak(
        &countersignatory_basepoint,
        &rev_append_commit_hash_key,
    );
    let broadcaster_contrib = pubkey_multiplication_tweak(
        &per_commitment_point,
        &commit_append_rev_hash_key,
    );
    combine_contributions(countersignatory_contrib, broadcaster_contrib)
}

/// The derivation is a function of its two inputs: equal basepoints and
/// equal commitment points give equal outcomes.
pub proof fn lemma_revocation_deterministic(
    basepoint1: Seq<u8>,
    per_commitment_point1: Seq<u8>,
    basepoint2: Seq<u8>,
    per_commitment_point2: Seq<u8>,
)
    requires
        basepoint1 == basepoint2,
        per_commitment_point1 == per_commitment_point2,
    ensures
        revocation_pubkey(basepoint1, per_commitment_point1) == revocation_pubkey(
            basepoint2,
            per_commitment_point2,
        ),
{
}

} // verus!
