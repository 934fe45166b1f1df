//! A two-party covert byte channel over a crowdsourced offline-finding
//! network.
//!
//! Two parties that have exchanged long-term P-224 identity public keys derive
//! a shared, deterministic stream of ephemeral keypairs with no further
//! interaction.  The sender broadcasts one BLE advertisement per data byte,
//! keyed by the next ephemeral public key of the stream; bystander devices
//! relay the advertisements to the finding service; the recipient looks the
//! reports up by key hash and recovers the bytes by majority vote.

use vstd::prelude::*;

pub mod bytes;
pub mod channel;
pub mod codec;
pub mod crypto;
pub mod kex;
pub mod keys;
pub mod receiver;
pub mod sender;

verus! {

/// A cryptographic invariant was violated while deriving key material.
#[derive(Clone, Copy, Debug, PartialEq, Eq, Structural)]
pub enum CurveError {
    /// A derived scalar was zero, which has no inverse and no public key.
    ZeroScalar,
    /// A derived scalar was not below the P-224 group order.
    ScalarOutOfRange,
    /// A point operation produced the identity, which cannot be encoded.
    IdentityPoint,
}

/// A byte string could not be decoded as key material.
#[derive(Clone, Copy, Debug, PartialEq, Eq, Structural)]
pub enum CodecError {
    /// The leading byte of a SEC1 encoding was not a compressed-point tag.
    InvalidHeaderByte,
    /// The bytes do not encode a point on the P-224 curve.
    BadPublicKey,
}

/// The injected transport (an advertiser or a reports fetcher) failed.
#[derive(Clone, Copy, Debug, PartialEq, Eq, Structural)]
pub struct TransportError;

/// Any failure of a send or receive operation.
#[derive(Clone, Copy, Debug, PartialEq, Eq, Structural)]
pub enum Error {
    /// A cryptographic invariant was violated; fatal and unrecoverable.
    Curve(CurveError),
    /// Key material could not be decoded; fatal.
    Codec(CodecError),
    /// The injected transport failed; the whole operation must be retried.
    Transport(TransportError),
}

} // verus!
