//! Key material: scalars, secret keys and public keys of the P-224 curve.
//!
//! A secret key is a nonzero scalar below the group order, held as 28
//! big-endian bytes.  A public key is held as its 29-byte compressed SEC1
//! encoding together with the ghost discrete logarithm that the encoding
//! stands for, so that contracts can speak of key streams as arithmetic on
//! scalars.

use vstd::prelude::*;

use crate::bytes::{all_zero, be_nat, copy_bytes};
use crate::crypto::{
    p224_derive_public, p224_order, p224_point_check, p224_point_mul, p224_scalar_check,
    p224_scalar_mul_mod, point_bytes,
};
use crate::{CodecError, CurveError};

verus! {

/// A nonzero scalar modulo the P-224 group order, as 28 big-endian bytes.
pub struct Scalar {
    bytes: Vec<u8>,
}

impl Scalar {
    /// The bytes of the scalar.
    pub closed spec fn byte_view(&self) -> Seq<u8> {
        self.bytes@
    }

    /// The integer value of the scalar.
    pub open spec fn val(&self) -> nat {
        be_nat(self.byte_view())
    }

    /// A well-formed scalar is 28 bytes holding a nonzero value below the
    /// group order.
    pub open spec fn wf(&self) -> bool {
        self.byte_view().len() == 28 && 0 < self.val() < p224_order()
    }

    pub(crate) fn from_checked_bytes(bytes: Vec<u8>) -> (r: Scalar)
        requires
            bytes@.len() == 28,
            0 < be_nat(bytes@) < p224_order(),
        ensures
            r.wf(),
            r.byte_view() == bytes@,
    {
        Scalar { bytes }
    }

    /// The scalar as 28 big-endian bytes.
    pub fn to_be_bytes(&self) -> (r: Vec<u8>)
        ensures
            r@ == self.byte_view(),
    {
        copy_bytes(&self.bytes)
    }

    pub(crate) fn as_bytes(&self) -> (r: &Vec<u8>)
        ensures
            r@ == self.byte_view(),
    {
        &self.bytes
    }
}

/// A long-term or ephemeral secret key: a nonzero scalar.
pub struct SecretKey {
    bytes: Vec<u8>,
}

impl SecretKey {
    /// The bytes of the secret scalar.
    pub closed spec fn byte_view(&self) -> Seq<u8> {
        self.bytes@
    }

    /// The integer value of the secret scalar.
    pub open spec fn val(&self) -> nat {
        be_nat(self.byte_view())
    }

    /// A well-formed secret key is 28 bytes holding a nonzero value below
    /// the group order.
    pub open spec fn wf(&self) -> bool {
        self.byte_view().len() == 28 && 0 < self.val() < p224_order()
    }

    /// Reads a secret key from 28 big-endian bytes.  Succeeds exactly when
    /// the bytes are a nonzero scalar below the group order.
    pub fn from_be_bytes(bytes: Vec<u8>) -> (r: Result<SecretKey, CurveError>)
        ensures
            match r {
                Ok(k) => k.wf() && bytes@.len() == 28 && k.val() == be_nat(bytes@)
                    && 0 < be_nat(bytes@) < p224_order(),
                Err(CurveError::ZeroScalar) => bytes@.len() == 28 && be_nat(bytes@) == 0,
                Err(CurveError::ScalarOutOfRange) => bytes@.len() != 28
                    || be_nat(bytes@) >= p224_order(),
                Err(CurveError::IdentityPoint) => false,
            },
    {
        if p224_scalar_check(&bytes) {
            Ok(SecretKey { bytes })
        } else if bytes.len() == 28 && all_zero(&bytes) {
            Err(CurveError::ZeroScalar)
        } else {
            Err(CurveError::ScalarOutOfRange)
        }
    }

    /// The secret scalar as 28 big-endian bytes.
    pub fn to_be_bytes(&self) -> (r: Vec<u8>)
        ensures
            r@ == self.byte_view(),
    {
        copy_bytes(&self.bytes)
    }

    /// The public key of this secret key.
    pub fn public_key(&self) -> (pk: PublicKey)
        requires
            self.wf(),
        ensures
            pk.wf(),
            pk.dlog() == self.val(),
    {
        let b = p224_derive_public(&self.bytes);
        PublicKey { bytes: b, dlog: Ghost(self.val()) }
    }

    pub(crate) fn as_bytes(&self) -> (r: &Vec<u8>)
        ensures
            r@ == self.byte_view(),
    {
        &self.bytes
    }

    pub(crate) fn copy_key(&self) -> (r: SecretKey)
        ensures
            r.byte_view() == self.byte_view(),
    {
        SecretKey { bytes: copy_bytes(&self.bytes) }
    }

    /// Multiplies this secret scalar by `s`, modulo the group order.
    pub(crate) fn mul_scalar(&self, s: &Scalar) -> (r: SecretKey)
        requires
            self.wf(),
            s.wf(),
        ensures
            r.wf(),
            r.val() == (s.val() * self.val()) % p224_order(),
    {
        let bytes = p224_scalar_mul_mod(s.as_bytes(), &self.bytes);
        SecretKey { bytes }
    }
}

/// A public key: a non-identity point of the P-224 curve, held as its
/// 29-byte compressed SEC1 encoding.
pub struct PublicKey {
    bytes: Vec<u8>,
    dlog: Ghost<nat>,
}

impl PublicKey {
    /// The compressed SEC1 encoding of the point.
    pub closed spec fn sec1_view(&self) -> Seq<u8> {
        self.bytes@
    }

    /// The discrete logarithm of the point to the base point.
    pub closed spec fn dlog(&self) -> nat {
        self.dlog@
    }

    /// A well-formed public key encodes a nonzero multiple of the base
    /// point.
    pub open spec fn wf(&self) -> bool {
        self.sec1_view().len() == 29
            && self.sec1_view() == point_bytes(self.dlog())
            && 0 < self.dlog() < p224_order()
    }

    /// Reads a public key from its 29-byte compressed SEC1 encoding.
    /// Succeeds exactly when the bytes are the canonical compressed encoding
    /// of a nonzero multiple of the base point.
    pub fn from_sec1_bytes(bytes: &Vec<u8>) -> (r: Result<PublicKey, CodecError>)
        ensures
            match r {
                Ok(pk) => pk.wf() && pk.sec1_view() == bytes@,
                Err(CodecError::InvalidHeaderByte) => bytes@.len() != 29
                    || (bytes@[0] != 2 && bytes@[0] != 3),
                Err(CodecError::BadPublicKey) => bytes@.len() == 29
                    && (bytes@[0] == 2 || bytes@[0] == 3)
                    && !(exists|d: nat|
                        0 < d < p224_order() && bytes@ == #[trigger] point_bytes(d)),
            },
    {
        if bytes.len() != 29 || (bytes[0] != 2 && bytes[0] != 3) {
            return Err(CodecError::InvalidHeaderByte);
        }
        if p224_point_check(bytes) {
            let ghost d = choose|d: nat| 0 < d < p224_order() && bytes@ == point_bytes(d);
            Ok(PublicKey { bytes: copy_bytes(bytes), dlog: Ghost(d) })
        } else {
            Err(CodecError::BadPublicKey)
        }
    }

    /// The compressed SEC1 encoding of the point, 29 bytes.
    pub fn to_sec1_bytes(&self) -> (r: Vec<u8>)
        ensures
            r@ == self.sec1_view(),
    {
        copy_bytes(&self.bytes)
    }

    pub(crate) fn as_sec1_bytes(&self) -> (r: &Vec<u8>)
        ensures
            r@ == self.sec1_view(),
    {
        &self.bytes
    }

    pub(crate) fn copy_key(&self) -> (r: PublicKey)
        ensures
            r.sec1_view() == self.sec1_view(),
            r.dlog() == self.dlog(),
    {
        PublicKey { bytes: copy_bytes(&self.bytes), dlog: Ghost(self.dlog()) }
    }

    /// Multiplies the point by the scalar `s`.
    pub(crate) fn mul_scalar(&self, s: &Scalar) -> (r: PublicKey)
        requires
            self.wf(),
            s.wf(),
        ensures
            r.wf(),
            r.dlog() == (s.val() * self.dlog()) % p224_order(),
    {
        proof {
            assert(0 < self.dlog() < p224_order()
                && self.sec1_view() == point_bytes(self.dlog()));
        }
        let bytes = p224_point_mul(s.as_bytes(), &self.bytes);
        PublicKey { bytes, dlog: Ghost((s.val() * self.dlog()) % p224_order()) }
    }
}

} // verus!
