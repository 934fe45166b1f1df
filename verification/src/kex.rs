//! The key-derivation kernel: a non-interactive Diffie-Hellman exchange
//! hashed down to a fresh scalar.
//!
//! Both parties hash the same input — the two compressed public keys in
//! lexicographic order followed by the X coordinate of the shared point — so
//! the derived scalar is the same on both sides
//! (`lemma_shared_scalar_symmetric`).

use vstd::prelude::*;

use crate::bytes::{
    all_zero, append_bytes, be_nat, copy_range, lemma_lex_min_max_symmetric, lex_le_bytes,
    lex_max, lex_min,
};
use crate::crypto::{p224_order, p224_point_mul, p224_scalar_check, point_bytes, sha256, sha256_of};
use crate::keys::{PublicKey, Scalar, SecretKey};
use crate::CurveError;

verus! {

/// The compressed encoding of the Diffie-Hellman point `x · (d · G)`.
pub open spec fn dh_point(x: nat, d: nat) -> Seq<u8> {
    point_bytes((x * d) % p224_order())
}

/// The 28 X-coordinate bytes of the Diffie-Hellman point, the sign prefix
/// discarded.
pub open spec fn dh_x_bytes(x: nat, d: nat) -> Seq<u8> {
    dh_point(x, d).subrange(1, 29)
}

/// The input both parties hash: the two compressed public keys in
/// lexicographic byte order, then the shared X coordinate.
pub open spec fn kex_input(x: nat, d: nat) -> Seq<u8> {
    lex_min(point_bytes(x), point_bytes(d)) + lex_max(point_bytes(x), point_bytes(d))
        + dh_x_bytes(x, d)
}

/// The scalar both parties derive: the first 28 bytes of the digest, read
/// big-endian.  `x` is the deriving party's secret scalar and `d` the
/// discrete logarithm of the peer's public key.
pub open spec fn shared_scalar_val(x: nat, d: nat) -> nat {
    be_nat(sha256_of(kex_input(x, d)).take(28))
}

/// A derived value is usable as a scalar when it is nonzero and below the
/// group order.
pub open spec fn scalar_ok(v: nat) -> bool {
    0 < v < p224_order()
}

/// The error a derived value outside the scalar range is reported as.
pub open spec fn scalar_err(v: nat) -> CurveError {
    if v == 0 {
        CurveError::ZeroScalar
    } else {
        CurveError::ScalarOutOfRange
    }
}

/// Hash-order symmetry: the two parties derive the same scalar, whichever
/// side computes it.  `a` and `b` are the two secret scalars, so the peer
/// public keys have discrete logarithms `b` and `a` respectively.
pub proof fn lemma_shared_scalar_symmetric(a: nat, b: nat)
    ensures
        shared_scalar_val(a, b) == shared_scalar_val(b, a),
{
    lemma_lex_min_max_symmetric(point_bytes(a), point_bytes(b));
    assert(a * b == b * a) by (nonlinear_arith);
    assert(kex_input(a, b) == kex_input(b, a));
}

/// The raw Diffie-Hellman step: the X coordinate of our secret scalar times
/// the peer's public point, 28 bytes.
fn dh_key_exchange(our_private_key: &SecretKey, their_public_key: &PublicKey) -> (r: Vec<u8>)
    requires
        our_private_key.wf(),
        their_public_key.wf(),
    ensures
        r@ == dh_x_bytes(our_private_key.val(), their_public_key.dlog()),
        r@.len() == 28,
{
    let ghost x = our_private_key.val();
    let ghost d = their_public_key.dlog();
    proof {
        assert(0 < d < p224_order() && their_public_key.sec1_view() == point_bytes(d));
    }
    let dh = p224_point_mul(our_private_key.as_bytes(), their_public_key.as_sec1_bytes());
    let dh_x = copy_range(&dh, 1, 29);
    proof {
        assert(dh@ == dh_point(x, d));
        assert(dh_x@ == dh_x_bytes(x, d));
    }
    dh_x
}

/// The non-interactive exchange both parties can compute alone: hashes the
/// two compressed public keys — ours derived from our secret key, in
/// lexicographic order so both sides hash the same input — followed by the
/// shared X coordinate.
fn perform_non_interactive_key_exchange(
    our_private_key: &SecretKey,
    their_public_key: &PublicKey,
) -> (r: Vec<u8>)
    requires
        our_private_key.wf(),
        their_public_key.wf(),
    ensures
        r@ == sha256_of(kex_input(our_private_key.val(), their_public_key.dlog())),
        r@.len() == 32,
{
    let ghost x = our_private_key.val();
    let ghost d = their_public_key.dlog();

    let our_public = our_private_key.public_key();
    let our_bytes = our_public.to_sec1_bytes();
    let their_bytes = their_public_key.to_sec1_bytes();
    let dh_x = dh_key_exchange(our_private_key, their_public_key);

    let mut input: Vec<u8> = Vec::new();
    if lex_le_bytes(&our_bytes, &their_bytes) {
        append_bytes(&mut input, &our_bytes);
        append_bytes(&mut input, &their_bytes);
    } else {
        append_bytes(&mut input, &their_bytes);
        append_bytes(&mut input, &our_bytes);
    }
    append_bytes(&mut input, &dh_x);
    proof {
        assert(input@ == kex_input(x, d));
    }
    sha256(&input)
}

/// Derives the shared scalar from our secret key and the peer's public key:
/// the first 28 bytes of the exchange digest, read big-endian.  Succeeds
/// exactly when the derived value is nonzero and below the group order; a
/// value out of range is a fatal protocol error.
pub fn compute_shared_scalar(
    our_private_key: &SecretKey,
    their_public_key: &PublicKey,
) -> (r: Result<Scalar, CurveError>)
    requires
        our_private_key.wf(),
        their_public_key.wf(),
    ensures
        match r {
            Ok(s) => {
                &&& s.wf()
                &&& s.val() == shared_scalar_val(our_private_key.val(), their_public_key.dlog())
                &&& scalar_ok(shared_scalar_val(our_private_key.val(), their_public_key.dlog()))
            },
            Err(e) => {
                &&& !scalar_ok(shared_scalar_val(our_private_key.val(), their_public_key.dlog()))
                &&& e == scalar_err(shared_scalar_val(our_private_key.val(), their_public_key.dlog()))
            },
        },
{
    let ghost x = our_private_key.val();
    let ghost d = their_public_key.dlog();

    let digest = perform_non_interactive_key_exchange(our_private_key, their_public_key);
    let candidate = copy_range(&digest, 0, 28);
    proof {
        assert(candidate@ == sha256_of(kex_input(x, d)).take(28));
    }

    if p224_scalar_check(&candidate) {
        Ok(Scalar::from_checked_bytes(candidate))
    } else if all_zero(&candidate) {
        Err(CurveError::ZeroScalar)
    } else {
        Err(CurveError::ScalarOutOfRange)
    }
}

} // verus!
