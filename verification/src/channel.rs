//! The two-party channel: a deterministic, synchronizable stream of
//! ephemeral keypairs shared by two parties who each hold only their own
//! identity secret key and the peer's identity public key.
//!
//! The channel state is a pair (our secret scalar, the discrete log of the
//! peer's public key).  Every rotation derives a shared scalar from the
//! current pair and multiplies both sides by it; because the derivation is
//! symmetric, the two parties' states stay mirror images of each other
//! (`lemma_stream_agreement`).

use vstd::pervasive::unreached;
use vstd::prelude::*;

use crate::codec::{ble_adv_data_spec, BleAdvertisementMetadata, OfflineFindingPublicKey};
use crate::crypto::{p224_order, point_bytes};
use crate::kex::{
    compute_shared_scalar, lemma_shared_scalar_symmetric, scalar_err, scalar_ok,
    shared_scalar_val,
};
use crate::keys::{PublicKey, SecretKey};
use crate::CurveError;

verus! {

/// Our side of the state after one rotation: the shared scalar times our
/// secret scalar.
pub open spec fn rot_priv(x: nat, d: nat) -> nat {
    (shared_scalar_val(x, d) * x) % p224_order()
}

/// The peer side of the state after one rotation: the shared scalar times
/// the discrete log of the peer's public key.
pub open spec fn rot_dlog(x: nat, d: nat) -> nat {
    (shared_scalar_val(x, d) * d) % p224_order()
}

/// The channel state after `i` rotations of the starting pair `(x, d)`.
pub open spec fn nth_state(x: nat, d: nat, i: nat) -> (nat, nat)
    decreases i,
{
    if i == 0 {
        (x, d)
    } else {
        let p = nth_state(x, d, (i - 1) as nat);
        (rot_priv(p.0, p.1), rot_dlog(p.0, p.1))
    }
}

/// The shared scalar derived at step `i`.
pub open spec fn state_scalar(x: nat, d: nat, i: nat) -> nat {
    shared_scalar_val(nth_state(x, d, i).0, nth_state(x, d, i).1)
}

/// Every shared scalar derived before step `k` is usable.
pub open spec fn stream_ok_upto(x: nat, d: nat, k: nat) -> bool {
    forall|j: nat| j < k ==> scalar_ok(#[trigger] state_scalar(x, d, j))
}

/// Unfolds one rotation of the stream: the state at step `k + 1` is the
/// rotation of the state at step `k`, and if the stream was usable up to and
/// including step `k`, it is usable up to step `k + 1`.
pub proof fn lemma_stream_step(x: nat, d: nat, k: nat)
    requires
        stream_ok_upto(x, d, k),
        scalar_ok(shared_scalar_val(nth_state(x, d, k).0, nth_state(x, d, k).1)),
    ensures
        nth_state(x, d, (k + 1) as nat)
            == (rot_priv(nth_state(x, d, k).0, nth_state(x, d, k).1),
                rot_dlog(nth_state(x, d, k).0, nth_state(x, d, k).1)),
        stream_ok_upto(x, d, (k + 1) as nat),
{
    assert(nth_state(x, d, (k + 1) as nat)
        == (rot_priv(nth_state(x, d, k).0, nth_state(x, d, k).1),
            rot_dlog(nth_state(x, d, k).0, nth_state(x, d, k).1)));
    assert forall|j: nat| j < k + 1 implies scalar_ok(#[trigger] state_scalar(x, d, j)) by {
        if j == k {
            assert(state_scalar(x, d, j)
                == shared_scalar_val(nth_state(x, d, j).0, nth_state(x, d, j).1));
        }
    }
}

/// The state a channel emits at position `i` of its key stream, starting
/// from the identity pair `(x, d)`: the channel anchors are one rotation
/// past the identity keys, and emission starts one rotation past the
/// anchors.
pub open spec fn emitted_state(x: nat, d: nat, i: nat) -> (nat, nat) {
    nth_state(x, d, i + 2)
}

/// Stream agreement: with identity secret scalars `a` and `b`, the two
/// parties' channel states are mirror images at every step — the discrete
/// log of the public key one party will use is exactly the secret scalar the
/// other party holds, and vice versa.
pub proof fn lemma_stream_agreement(a: nat, b: nat, i: nat)
    ensures
        nth_state(a, b, i).0 == nth_state(b, a, i).1,
        nth_state(a, b, i).1 == nth_state(b, a, i).0,
    decreases i,
{
    if i > 0 {
        lemma_stream_agreement(a, b, (i - 1) as nat);
        let p = nth_state(a, b, (i - 1) as nat);
        lemma_shared_scalar_symmetric(p.0, p.1);
    }
}

/// Symmetry of channel anchors: the public key A derives for B is the public
/// key of the secret key B derives for itself, and vice versa.
pub proof fn lemma_channel_anchor_symmetry(a: nat, b: nat)
    ensures
        rot_priv(a, b) == rot_dlog(b, a),
        rot_dlog(a, b) == rot_priv(b, a),
{
    lemma_stream_agreement(a, b, 1);
    assert(nth_state(a, b, 0) == (a, b));
    assert(nth_state(b, a, 0) == (b, a));
}

/// Stream agreement at the emitted keys: the public key the sender uses for
/// position `i` is the public key of the secret key the recipient derives
/// for position `i`, and vice versa.
pub proof fn lemma_emitted_keys_agree(a: nat, b: nat, i: nat)
    ensures
        emitted_state(a, b, i).1 == emitted_state(b, a, i).0,
        emitted_state(a, b, i).0 == emitted_state(b, a, i).1,
{
    lemma_stream_agreement(a, b, i + 2);
}

/// The two parties derive the same shared scalar at every step, so one
/// side's stream fails at step `j` exactly when the other side's does.
pub proof fn lemma_stream_scalars_agree(a: nat, b: nat, j: nat)
    ensures
        state_scalar(a, b, j) == state_scalar(b, a, j),
{
    lemma_stream_agreement(a, b, j);
    lemma_shared_scalar_symmetric(nth_state(a, b, j).0, nth_state(a, b, j).1);
}

/// A two-party channel.  The anchor keys are immutable after construction;
/// the current keys advance with every rotation.
pub struct TwoPartyChannel {
    our_channel_private_key: SecretKey,
    their_channel_public_key: PublicKey,
    our_current_private_key: SecretKey,
    their_current_public_key: PublicKey,
}

impl TwoPartyChannel {
    /// The value of our channel-anchor secret scalar.
    pub closed spec fn anchor_priv(&self) -> nat {
        self.our_channel_private_key.val()
    }

    /// The discrete log of the peer's channel-anchor public key.
    pub closed spec fn anchor_dlog(&self) -> nat {
        self.their_channel_public_key.dlog()
    }

    /// The value of the secret key we would emit next.
    pub closed spec fn cur_priv(&self) -> nat {
        self.our_current_private_key.val()
    }

    /// The discrete log of the public key we would emit next.
    pub closed spec fn cur_dlog(&self) -> nat {
        self.their_current_public_key.dlog()
    }

    /// All four keys are well formed.
    pub closed spec fn keys_wf(&self) -> bool {
        &&& self.our_channel_private_key.wf()
        &&& self.their_channel_public_key.wf()
        &&& self.our_current_private_key.wf()
        &&& self.their_current_public_key.wf()
    }

    /// A well-formed channel: all keys well formed, and the anchors derive a
    /// usable shared scalar, so the channel can always be re-seeded for a
    /// fresh iterator.
    pub closed spec fn wf(&self) -> bool {
        &&& self.keys_wf()
        &&& scalar_ok(shared_scalar_val(self.anchor_priv(), self.anchor_dlog()))
    }

    /// A well-formed channel has well-formed keys, so a caller holding a
    /// channel from one of the constructors may rotate it.
    pub proof fn lemma_wf_implies_keys_wf(&self)
        requires
            self.wf(),
        ensures
            self.keys_wf(),
    {
    }

    /// Builds the advertisement payload that transmits one data byte under
    /// the given ephemeral key.  Pure: rotation is the iterators' concern.
    pub fn generate_ad_to_transmit_data(
        their_current_public_key: &OfflineFindingPublicKey,
        data: &u8,
    ) -> (r: Vec<u8>)
        requires
            their_current_public_key.wf(),
        ensures
            r@ == ble_adv_data_spec(their_current_public_key.pk().sec1_view(), *data, 0),
            r@.len() == 29,
    {
        let mut metadata = BleAdvertisementMetadata::default();
        metadata.status = *data;
        their_current_public_key.to_ble_advertisement_data(metadata)
    }

    /// Builds a channel directly from channel-anchor keys and advances it
    /// once, so the first emitted keypair is already one step past the
    /// anchors.  Fails exactly when the anchors derive an unusable scalar.
    pub fn from_channel_keys(
        our_channel_private_key: &SecretKey,
        their_channel_public_key: &PublicKey,
    ) -> (r: Result<TwoPartyChannel, CurveError>)
        requires
            our_channel_private_key.wf(),
            their_channel_public_key.wf(),
        ensures
            ({
                let x = our_channel_private_key.val();
                let d = their_channel_public_key.dlog();
                match r {
                    Ok(c) => {
                        &&& c.wf()
                        &&& c.anchor_priv() == x
                        &&& c.anchor_dlog() == d
                        &&& scalar_ok(shared_scalar_val(x, d))
                        &&& c.cur_priv() == rot_priv(x, d)
                        &&& c.cur_dlog() == rot_dlog(x, d)
                    },
                    Err(e) => {
                        &&& !scalar_ok(shared_scalar_val(x, d))
                        &&& e == scalar_err(shared_scalar_val(x, d))
                    },
                }
            }),
    {
        let mut channel = TwoPartyChannel {
            our_channel_private_key: our_channel_private_key.copy_key(),
            their_channel_public_key: their_channel_public_key.copy_key(),
            our_current_private_key: our_channel_private_key.copy_key(),
            their_current_public_key: their_channel_public_key.copy_key(),
        };
        match channel.rotate_keys() {
            Ok(()) => Ok(channel),
            Err(e) => Err(e),
        }
    }

    /// Builds a channel from our identity secret key and the peer's identity
    /// public key.  The channel anchors are one rotation past the identity
    /// keys: the first emitted key must not be a function of the identity
    /// keys alone, or it would repeat across messages.  Fails exactly when
    /// one of the first two derived scalars is unusable.
    pub fn from_identity_keys(
        our_identity_private_key: &SecretKey,
        their_identity_public_key: &PublicKey,
    ) -> (r: Result<TwoPartyChannel, CurveError>)
        requires
            our_identity_private_key.wf(),
            their_identity_public_key.wf(),
        ensures
            ({
                let a = our_identity_private_key.val();
                let d = their_identity_public_key.dlog();
                match r {
                    Ok(c) => {
                        &&& c.wf()
                        &&& stream_ok_upto(a, d, 2)
                        &&& c.anchor_priv() == nth_state(a, d, 1).0
                        &&& c.anchor_dlog() == nth_state(a, d, 1).1
                        &&& c.cur_priv() == nth_state(a, d, 2).0
                        &&& c.cur_dlog() == nth_state(a, d, 2).1
                    },
                    Err(e) => {
                        ||| !scalar_ok(state_scalar(a, d, 0))
                            && e == scalar_err(state_scalar(a, d, 0))
                        ||| scalar_ok(state_scalar(a, d, 0))
                            && !scalar_ok(state_scalar(a, d, 1))
                            && e == scalar_err(state_scalar(a, d, 1))
                    },
                }
            }),
    {
        let ghost a = our_identity_private_key.val();
        let ghost d = their_identity_public_key.dlog();
        proof {
            assert(nth_state(a, d, 0) == (a, d));
            assert(nth_state(a, d, 1)
                == (rot_priv(a, d), rot_dlog(a, d)));
        }
        let shared = match compute_shared_scalar(
            our_identity_private_key,
            their_identity_public_key,
        ) {
            Ok(s) => s,
            Err(e) => {
                return Err(e);
            },
        };
        let our_channel_private_key = our_identity_private_key.mul_scalar(&shared);
        let their_channel_public_key = their_identity_public_key.mul_scalar(&shared);
        let r = Self::from_channel_keys(&our_channel_private_key, &their_channel_public_key);
        proof {
            if r is Ok {
                assert(nth_state(a, d, 2)
                    == (rot_priv(nth_state(a, d, 1).0, nth_state(a, d, 1).1),
                        rot_dlog(nth_state(a, d, 1).0, nth_state(a, d, 1).1)));
                assert forall|j: nat| j < 2 implies scalar_ok(#[trigger] state_scalar(
                    a, d, j)) by {
                    if j == 0 {
                        assert(scalar_ok(state_scalar(a, d, 0)));
                    } else {
                        assert(j == 1);
                        assert(scalar_ok(state_scalar(a, d, 1)));
                    }
                }
            }
        }
        r
    }

    /// Rotates the current keypair once: both sides are multiplied by the
    /// shared scalar of the current state.  On failure the channel is
    /// unchanged; retrying with different material would desynchronize the
    /// peer, so the error is fatal.
    pub fn rotate_keys(&mut self) -> (r: Result<(), CurveError>)
        requires
            old(self).keys_wf(),
        ensures
            final(self).keys_wf(),
            final(self).anchor_priv() == old(self).anchor_priv(),
            final(self).anchor_dlog() == old(self).anchor_dlog(),
            old(self).wf() ==> final(self).wf(),
            ({
                let x = old(self).cur_priv();
                let d = old(self).cur_dlog();
                match r {
                    Ok(()) => {
                        &&& scalar_ok(shared_scalar_val(x, d))
                        &&& final(self).cur_priv() == rot_priv(x, d)
                        &&& final(self).cur_dlog() == rot_dlog(x, d)
                    },
                    Err(e) => {
                        &&& !scalar_ok(shared_scalar_val(x, d))
                        &&& e == scalar_err(shared_scalar_val(x, d))
                        &&& final(self).cur_priv() == x
                        &&& final(self).cur_dlog() == d
                    },
                }
            }),
    {
        let shared = match compute_shared_scalar(
            &self.our_current_private_key,
            &self.their_current_public_key,
        ) {
            Ok(s) => s,
            Err(e) => {
                return Err(e);
            },
        };
        let new_private = self.our_current_private_key.mul_scalar(&shared);
        let new_public = self.their_current_public_key.mul_scalar(&shared);
        self.our_current_private_key = new_private;
        self.their_current_public_key = new_public;
        Ok(())
    }

    /// A fresh iterator over the public keys the peer will be listening
    /// for.  The iterator owns a channel re-seeded from the anchors, so the
    /// caller's channel is not disturbed, and two iterators over the same
    /// channel emit the same sequence.
    pub fn iter_their_keys(&self) -> (it: TheirKeysIterator)
        requires
            self.wf(),
        ensures
            it.wf(),
            it.chan().anchor_priv() == self.anchor_priv(),
            it.chan().anchor_dlog() == self.anchor_dlog(),
            it.chan().cur_priv() == rot_priv(self.anchor_priv(), self.anchor_dlog()),
            it.chan().cur_dlog() == rot_dlog(self.anchor_priv(), self.anchor_dlog()),
    {
        match Self::from_channel_keys(
            &self.our_channel_private_key,
            &self.their_channel_public_key,
        ) {
            Ok(channel) => TheirKeysIterator { channel },
            Err(_) => unreached(),
        }
    }

    /// A fresh iterator over our own keypairs: the secret keys that decrypt
    /// reports and the public keys whose hashes look them up.  Same cloning
    /// discipline as `iter_their_keys`.
    pub fn iter_our_keys(&self) -> (it: OurKeysIterator)
        requires
            self.wf(),
        ensures
            it.wf(),
            it.chan().anchor_priv() == self.anchor_priv(),
            it.chan().anchor_dlog() == self.anchor_dlog(),
            it.chan().cur_priv() == rot_priv(self.anchor_priv(), self.anchor_dlog()),
            it.chan().cur_dlog() == rot_dlog(self.anchor_priv(), self.anchor_dlog()),
    {
        match Self::from_channel_keys(
            &self.our_channel_private_key,
            &self.their_channel_public_key,
        ) {
            Ok(channel) => OurKeysIterator { channel },
            Err(_) => unreached(),
        }
    }

    /// The public key of our channel anchor.
    pub fn our_channel_public_key(&self) -> (pk: PublicKey)
        requires
            self.wf(),
        ensures
            pk.wf(),
            pk.dlog() == self.anchor_priv(),
    {
        self.our_channel_private_key.public_key()
    }

    /// The peer's channel-anchor public key.
    pub fn their_channel_public_key(&self) -> (pk: PublicKey)
        requires
            self.wf(),
        ensures
            pk.wf(),
            pk.dlog() == self.anchor_dlog(),
            pk.sec1_view() == point_bytes(self.anchor_dlog()),
    {
        self.their_channel_public_key.copy_key()
    }
}

/// The lazy, infinite stream of public keys the peer listens for.
pub struct TheirKeysIterator {
    channel: TwoPartyChannel,
}

impl TheirKeysIterator {
    /// The iterator's own channel.
    pub closed spec fn chan(&self) -> TwoPartyChannel {
        self.channel
    }

    /// Well-formed exactly when the owned channel is.
    pub open spec fn wf(&self) -> bool {
        self.chan().wf()
    }

    /// Emits the next public key, then rotates.  Fails exactly when the
    /// current state derives an unusable scalar; the stream then ends.
    pub fn next(&mut self) -> (r: Result<OfflineFindingPublicKey, CurveError>)
        requires
            old(self).wf(),
        ensures
            final(self).wf(),
            final(self).chan().anchor_priv() == old(self).chan().anchor_priv(),
            final(self).chan().anchor_dlog() == old(self).chan().anchor_dlog(),
            ({
                let x = old(self).chan().cur_priv();
                let d = old(self).chan().cur_dlog();
                match r {
                    Ok(k) => {
                        &&& k.wf()
                        &&& k.pk().dlog() == d
                        &&& k.pk().sec1_view() == point_bytes(d)
                        &&& scalar_ok(shared_scalar_val(x, d))
                        &&& final(self).chan().cur_priv() == rot_priv(x, d)
                        &&& final(self).chan().cur_dlog() == rot_dlog(x, d)
                    },
                    Err(e) => {
                        &&& !scalar_ok(shared_scalar_val(x, d))
                        &&& e == scalar_err(shared_scalar_val(x, d))
                        &&& final(self).chan().cur_priv() == x
                        &&& final(self).chan().cur_dlog() == d
                    },
                }
            }),
    {
        let item = OfflineFindingPublicKey::from_public_key(
            &self.channel.their_current_public_key,
        );
        match self.channel.rotate_keys() {
            Ok(()) => Ok(item),
            Err(e) => Err(e),
        }
    }

    /// The next `n` keys of the stream, in order.  The whole prefix is a
    /// function of the iterator's starting state alone, for every `n`: two
    /// iterators over the same channel yield equal prefixes of any length,
    /// and advancing one never disturbs the other or the channel.
    pub fn take_keys(&mut self, n: usize) -> (r: Result<
        Vec<OfflineFindingPublicKey>,
        CurveError,
    >)
        requires
            old(self).wf(),
        ensures
            final(self).wf(),
            final(self).chan().anchor_priv() == old(self).chan().anchor_priv(),
            final(self).chan().anchor_dlog() == old(self).chan().anchor_dlog(),
            ({
                let p = old(self).chan().cur_priv();
                let q = old(self).chan().cur_dlog();
                match r {
                    Ok(v) => {
                        &&& v@.len() == n
                        &&& forall|i: int| 0 <= i < n ==> {
                            &&& (#[trigger] v@[i]).wf()
                            &&& v@[i].pk().dlog() == nth_state(p, q, i as nat).1
                            &&& v@[i].pk().sec1_view() == point_bytes(
                                nth_state(p, q, i as nat).1,
                            )
                        }
                        &&& stream_ok_upto(p, q, n as nat)
                        &&& final(self).chan().cur_priv() == nth_state(p, q, n as nat).0
                        &&& final(self).chan().cur_dlog() == nth_state(p, q, n as nat).1
                    },
                    Err(e) => exists|k: nat|
                        k < n && stream_ok_upto(p, q, k)
                            && !scalar_ok(#[trigger] state_scalar(p, q, k))
                            && e == scalar_err(state_scalar(p, q, k)),
                }
            }),
    {
        let ghost p = self.channel.cur_priv();
        let ghost q = self.channel.cur_dlog();
        proof {
            assert(nth_state(p, q, 0) == (p, q));
        }
        let mut v: Vec<OfflineFindingPublicKey> = Vec::new();
        let mut i: usize = 0;
        while i < n
            invariant
                p == old(self).chan().cur_priv(),
                q == old(self).chan().cur_dlog(),
                i <= n,
                v@.len() == i,
                self.wf(),
                self.chan().anchor_priv() == old(self).chan().anchor_priv(),
                self.chan().anchor_dlog() == old(self).chan().anchor_dlog(),
                self.chan().cur_priv() == nth_state(p, q, i as nat).0,
                self.chan().cur_dlog() == nth_state(p, q, i as nat).1,
                stream_ok_upto(p, q, i as nat),
                forall|j: int| 0 <= j < i ==> {
                    &&& (#[trigger] v@[j]).wf()
                    &&& v@[j].pk().dlog() == nth_state(p, q, j as nat).1
                    &&& v@[j].pk().sec1_view() == point_bytes(nth_state(p, q, j as nat).1)
                },
            decreases n - i,
        {
            let key = match self.next() {
                Ok(k) => k,
                Err(e) => {
                    proof {
                        let k = i as nat;
                        assert(state_scalar(p, q, k)
                            == shared_scalar_val(nth_state(p, q, k).0, nth_state(p, q, k).1));
                        assert(k < n && stream_ok_upto(p, q, k)
                            && !scalar_ok(state_scalar(p, q, k))
                            && e == scalar_err(state_scalar(p, q, k)));
                    }
                    return Err(e);
                },
            };
            proof {
                assert(state_scalar(p, q, i as nat)
                    == shared_scalar_val(nth_state(p, q, i as nat).0, nth_state(p, q, i as nat).1));
                lemma_stream_step(p, q, i as nat);
            }
            v.push(key);
            i += 1;
        }
        Ok(v)
    }
}

/// The lazy, infinite stream of our own keypairs.
pub struct OurKeysIterator {
    channel: TwoPartyChannel,
}

impl OurKeysIterator {
    /// The iterator's own channel.
    pub closed spec fn chan(&self) -> TwoPartyChannel {
        self.channel
    }

    /// Well-formed exactly when the owned channel is.
    pub open spec fn wf(&self) -> bool {
        self.chan().wf()
    }

    /// Emits the next (secret key, public key) pair, then rotates.
    pub fn next(&mut self) -> (r: Result<(SecretKey, OfflineFindingPublicKey), CurveError>)
        requires
            old(self).wf(),
        ensures
            final(self).wf(),
            final(self).chan().anchor_priv() == old(self).chan().anchor_priv(),
            final(self).chan().anchor_dlog() == old(self).chan().anchor_dlog(),
            ({
                let x = old(self).chan().cur_priv();
                let d = old(self).chan().cur_dlog();
                match r {
                    Ok(k) => {
                        &&& k.0.wf()
                        &&& k.0.val() == x
                        &&& k.1.wf()
                        &&& k.1.pk().dlog() == x
                        &&& k.1.pk().sec1_view() == point_bytes(x)
                        &&& scalar_ok(shared_scalar_val(x, d))
                        &&& final(self).chan().cur_priv() == rot_priv(x, d)
                        &&& final(self).chan().cur_dlog() == rot_dlog(x, d)
                    },
                    Err(e) => {
                        &&& !scalar_ok(shared_scalar_val(x, d))
                        &&& e == scalar_err(shared_scalar_val(x, d))
                        &&& final(self).chan().cur_priv() == x
                        &&& final(self).chan().cur_dlog() == d
                    },
                }
            }),
    {
        let secret = self.channel.our_current_private_key.copy_key();
        let public = self.channel.our_current_private_key.public_key();
        let item = OfflineFindingPublicKey::from_public_key(&public);
        match self.channel.rotate_keys() {
            Ok(()) => Ok((secret, item)),
            Err(e) => Err(e),
        }
    }
}

} // verus!
