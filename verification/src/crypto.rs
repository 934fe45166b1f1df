//! The boundary to the outside cryptographic crates.
//!
//! Everything the library needs from `p224` and `sha2` is reached through the
//! wrappers in this module.  Points are modelled by their compressed SEC1
//! encoding: `point_bytes(d)` names the 29-byte encoding of `d` times the
//! P-224 base point, and every wrapper contract is stated over that name, the
//! big-endian scalar value `be_nat`, and the digest name `sha256_of`.

use vstd::prelude::*;

use p224::elliptic_curve::sec1::ToEncodedPoint;
use sha2::Digest;

use crate::bytes::be_nat;

verus! {

/// The order of the P-224 elliptic curve group, as documented by the `p224`
/// crate (`NistP224::ORDER`): a prime close to 2^224.
pub open spec fn p224_order() -> nat {
    0xffffffffffffffffffffffffffff16a2e0b8f03e13dd29455c5c2a3dnat
}

/// The SHA-256 digest of a byte string; 32 bytes, a function of the input
/// alone.
pub uninterp spec fn sha256_of(data: Seq<u8>) -> Seq<u8>;

/// The compressed SEC1 encoding of `d` times the P-224 base point: 29 bytes,
/// a sign prefix followed by the 28-byte X coordinate.  This is the encoding
/// `to_encoded_point(true)` produces; it is a function of `d` alone, and for
/// `0 < d < p224_order()` it never encodes the identity.
pub uninterp spec fn point_bytes(d: nat) -> Seq<u8>;

/// `b` encodes the `m`-th multiple of the base point, `m` nonzero and
/// reduced modulo the group order.
pub open spec fn is_point_of(b: Seq<u8>, m: nat) -> bool {
    0 < m < p224_order() && b == point_bytes(m)
}

/// Relies on `sha2::Sha256::digest`: the 32-byte SHA-256 digest of the input,
/// a deterministic function of the input bytes alone.
#[verifier::external_body]
pub(crate) fn sha256(data: &Vec<u8>) -> (r: Vec<u8>)
    ensures
        r@ == sha256_of(data@),
        r@.len() == 32,
{
    sha2::Sha256::digest(data.as_slice()).to_vec()
}

/// Relies on `elliptic_curve::SecretKey::from_slice` (via the `p224` curve):
/// it accepts a 28-byte slice exactly when the bytes, read big-endian, are a
/// nonzero integer below the group order.
#[verifier::external_body]
pub(crate) fn p224_scalar_check(bytes: &Vec<u8>) -> (r: bool)
    ensures
        r == (bytes@.len() == 28 && 0 < be_nat(bytes@) < p224_order()),
{
    bytes.len() == 28 && p224::SecretKey::from_slice(bytes.as_slice()).is_ok()
}

/// Relies on `p224::Scalar` multiplication: arithmetic modulo the group
/// order, with `ScalarPrimitive::from_slice` reading and `FieldBytes`
/// writing 28-byte big-endian values.  The group order is prime, so the
/// product of two nonzero scalars is again nonzero.
#[verifier::external_body]
pub(crate) fn p224_scalar_mul_mod(a: &Vec<u8>, b: &Vec<u8>) -> (r: Vec<u8>)
    requires
        a@.len() == 28,
        b@.len() == 28,
        be_nat(a@) < p224_order(),
        be_nat(b@) < p224_order(),
    ensures
        r@.len() == 28,
        be_nat(r@) == (be_nat(a@) * be_nat(b@)) % p224_order(),
        0 < be_nat(a@) && 0 < be_nat(b@) ==> 0 < be_nat(r@),
{
    let pa = p224::elliptic_curve::ScalarPrimitive::from_slice(a.as_slice()).unwrap();
    let pb = p224::elliptic_curve::ScalarPrimitive::from_slice(b.as_slice()).unwrap();
    let prod = p224::Scalar::from(&pa) * p224::Scalar::from(&pb);
    p224::FieldBytes::from(prod).to_vec()
}

/// Relies on `elliptic_curve::SecretKey::public_key` and
/// `to_encoded_point(true)`: the compressed SEC1 encoding of the scalar times
/// the base point.
#[verifier::external_body]
pub(crate) fn p224_derive_public(scalar: &Vec<u8>) -> (r: Vec<u8>)
    requires
        scalar@.len() == 28,
        0 < be_nat(scalar@) < p224_order(),
    ensures
        r@ == point_bytes(be_nat(scalar@)),
        r@.len() == 29,
{
    let sk = p224::SecretKey::from_slice(scalar.as_slice()).unwrap();
    sk.public_key().to_encoded_point(true).as_bytes().to_vec()
}

/// Relies on `p224::ProjectivePoint` scalar multiplication and
/// `to_encoded_point(true)`: if the input encodes `d` times the base point,
/// the result encodes `s * d` times the base point, with the scalar product
/// reduced modulo the prime group order (and hence nonzero for nonzero
/// factors).
#[verifier::external_body]
pub(crate) fn p224_point_mul(scalar: &Vec<u8>, point: &Vec<u8>) -> (r: Vec<u8>)
    requires
        scalar@.len() == 28,
        0 < be_nat(scalar@) < p224_order(),
        exists|d: nat| 0 < d < p224_order() && point@ == #[trigger] point_bytes(d),
    ensures
        r@.len() == 29,
        forall|d: nat| 0 < d < p224_order() && point@ == #[trigger] point_bytes(d)
            ==> is_point_of(r@, (be_nat(scalar@) * d) % p224_order()),
{
    let pp = p224::elliptic_curve::ScalarPrimitive::from_slice(scalar.as_slice()).unwrap();
    let p = p224::PublicKey::from_sec1_bytes(point.as_slice()).unwrap();
    let q = p.to_projective() * p224::Scalar::from(&pp);
    q.to_affine().to_encoded_point(true).as_bytes().to_vec()
}

/// Relies on `p224::PublicKey::from_sec1_bytes`, restricted by the body to
/// the compressed SEC1 tags 2 and 3: on those it accepts exactly the
/// canonical compressed encodings of non-identity curve points, and every
/// such point is a nonzero multiple of the base point, the group being
/// cyclic of prime order.  (Unrestricted, the parser would also take other
/// tags, whose encodings `point_bytes` never produces.)
#[verifier::external_body]
pub(crate) fn p224_point_check(bytes: &Vec<u8>) -> (r: bool)
    ensures
        r == (bytes@.len() == 29 && (bytes@[0] == 2 || bytes@[0] == 3)
            && exists|d: nat| 0 < d < p224_order() && bytes@ == #[trigger] point_bytes(d)),
{
    bytes.len() == 29 && (bytes[0] == 2 || bytes[0] == 3)
        && p224::PublicKey::from_sec1_bytes(bytes.as_slice()).is_ok()
}

} // verus!
