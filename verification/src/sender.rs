//! The sender: pairs each data byte with the next ephemeral public key of
//! the channel and hands one advertisement per byte to an injected
//! advertise function.

use vstd::prelude::*;

use crate::channel::{emitted_state, nth_state, state_scalar, stream_ok_upto, TwoPartyChannel};
use crate::codec::{ble_address_spec, ble_adv_data_spec};
use crate::crypto::point_bytes;
use crate::kex::{scalar_err, scalar_ok};
use crate::keys::{PublicKey, SecretKey};
use crate::{Error, TransportError};

verus! {

/// An advertisement with exactly the payload and address of stream position
/// `i`, carrying the data byte `data[i]`, is a behavior of `advertise` with
/// outcome `outcome`.  The stream is the one seeded from the sender's
/// identity scalar `a` and the recipient's identity discrete log `d`.
pub open spec fn advertised<F: Fn(&Vec<u8>, &Vec<u8>) -> Result<(), TransportError>>(
    advertise: F,
    a: nat,
    d: nat,
    data: Seq<u8>,
    i: int,
    outcome: Result<(), TransportError>,
) -> bool {
    exists|ad: Vec<u8>, addr: Vec<u8>| {
        &&& ad@ == ble_adv_data_spec(point_bytes(emitted_state(a, d, i as nat).1), data[i], 0)
        &&& addr@ == ble_address_spec(point_bytes(emitted_state(a, d, i as nat).1))
        &&& #[trigger] call_ensures(advertise, (&ad, &addr), outcome)
    }
}

/// A sending endpoint, holding its long-term identity secret key.
pub struct Sender {
    identity_private_key: SecretKey,
}

impl Sender {
    /// The value of the identity secret scalar.
    pub closed spec fn identity(&self) -> nat {
        self.identity_private_key.val()
    }

    /// Well-formed exactly when the identity key is.
    pub closed spec fn wf(&self) -> bool {
        self.identity_private_key.wf()
    }

    /// A sender with the given identity key.
    pub fn new(identity_private_key: SecretKey) -> (s: Self)
        ensures
            s.identity() == identity_private_key.val(),
            identity_private_key.wf() ==> s.wf(),
    {
        Sender { identity_private_key }
    }

    /// Transmits `data` to the recipient: builds the shared channel, and for
    /// each byte, in input order, derives the next ephemeral key and calls
    /// `advertise` once with the 29-byte payload and the 6-byte address.
    /// Stops at the first failing call and propagates its error; on success
    /// the result counts the advertisements made, one per byte.  A scalar
    /// derivation failure is fatal: retrying with different key material
    /// would desynchronize the peer.
    pub fn transmit<F: Fn(&Vec<u8>, &Vec<u8>) -> Result<(), TransportError>>(
        &self,
        data: &Vec<u8>,
        recipient_identity_public_key: &PublicKey,
        advertise: &F,
    ) -> (r: Result<usize, Error>)
        requires
            self.wf(),
            recipient_identity_public_key.wf(),
            forall|adv: &Vec<u8>, addr: &Vec<u8>| call_requires(*advertise, (adv, addr)),
        ensures
            ({
                let a = self.identity();
                let d = recipient_identity_public_key.dlog();
                match r {
                    Ok(n) => {
                        &&& n == data@.len()
                        &&& stream_ok_upto(a, d, (data@.len() + 2) as nat)
                        &&& forall|i: int| 0 <= i < data@.len() ==> #[trigger] advertised(
                            *advertise,
                            a,
                            d,
                            data@,
                            i,
                            Result::<(), TransportError>::Ok(()),
                        )
                    },
                    Err(Error::Transport(t)) => exists|i: int|
                        0 <= i < data@.len() && #[trigger] advertised(
                            *advertise,
                            a,
                            d,
                            data@,
                            i,
                            Result::<(), TransportError>::Err(t),
                        ) && stream_ok_upto(a, d, (i + 3) as nat) && (forall|q: int|
                            0 <= q < i ==> #[trigger] advertised(
                                *advertise,
                                a,
                                d,
                                data@,
                                q,
                                Result::<(), TransportError>::Ok(()),
                            )),
                    Err(Error::Curve(e)) => exists|k: nat|
                        k <= data@.len() + 1 && stream_ok_upto(a, d, k)
                            && !scalar_ok(#[trigger] state_scalar(a, d, k))
                            && e == scalar_err(state_scalar(a, d, k)),
                    Err(Error::Codec(_)) => false,
                }
            }),
    {
        let ghost a = self.identity();
        let ghost d = recipient_identity_public_key.dlog();

        let channel = match TwoPartyChannel::from_identity_keys(
            &self.identity_private_key,
            recipient_identity_public_key,
        ) {
            Ok(c) => c,
            Err(e) => {
                proof {
                    if !scalar_ok(state_scalar(a, d, 0)) {
                        assert(stream_ok_upto(a, d, 0) && !scalar_ok(state_scalar(a, d, 0)));
                    } else {
                        assert forall|j: nat| j < 1 implies scalar_ok(
                            #[trigger] state_scalar(a, d, j)) by {
                            assert(j == 0);
                        }
                        assert(stream_ok_upto(a, d, 1) && !scalar_ok(state_scalar(a, d, 1)));
                    }
                }
                return Err(Error::Curve(e));
            },
        };

        let mut it = channel.iter_their_keys();
        proof {
            assert(nth_state(a, d, 2)
                == (crate::channel::rot_priv(nth_state(a, d, 1).0, nth_state(a, d, 1).1),
                    crate::channel::rot_dlog(nth_state(a, d, 1).0, nth_state(a, d, 1).1)));
        }

        let mut i: usize = 0;
        while i < data.len()
            invariant
                a == self.identity(),
                d == recipient_identity_public_key.dlog(),
                i <= data@.len(),
                it.wf(),
                it.chan().cur_priv() == nth_state(a, d, (i + 2) as nat).0,
                it.chan().cur_dlog() == nth_state(a, d, (i + 2) as nat).1,
                stream_ok_upto(a, d, (i + 2) as nat),
                forall|adv: &Vec<u8>, addr: &Vec<u8>| call_requires(*advertise, (adv, addr)),
                forall|q: int| 0 <= q < i ==> #[trigger] advertised(
                    *advertise,
                    a,
                    d,
                    data@,
                    q,
                    Result::<(), TransportError>::Ok(()),
                ),
            decreases data@.len() - i,
        {
            let key = match it.next() {
                Ok(k) => k,
                Err(e) => {
                    proof {
                        let k = (i + 2) as nat;
                        assert(state_scalar(a, d, k)
                            == crate::kex::shared_scalar_val(
                                nth_state(a, d, k).0,
                                nth_state(a, d, k).1,
                            ));
                        assert(k <= data@.len() + 1 && stream_ok_upto(a, d, k)
                            && !scalar_ok(state_scalar(a, d, k))
                            && e == scalar_err(state_scalar(a, d, k)));
                    }
                    return Err(Error::Curve(e));
                },
            };
            proof {
                assert(nth_state(a, d, (i + 3) as nat)
                    == (crate::channel::rot_priv(
                            nth_state(a, d, (i + 2) as nat).0,
                            nth_state(a, d, (i + 2) as nat).1,
                        ),
                        crate::channel::rot_dlog(
                            nth_state(a, d, (i + 2) as nat).0,
                            nth_state(a, d, (i + 2) as nat).1,
                        )));
                assert forall|j: nat| j < i + 3 implies scalar_ok(
                    #[trigger] state_scalar(a, d, j)) by {
                    if j == i + 2 {
                        assert(state_scalar(a, d, j)
                            == crate::kex::shared_scalar_val(
                                nth_state(a, d, j).0,
                                nth_state(a, d, j).1,
                            ));
                    }
                }
            }
            let address = key.to_ble_address_bytes_be();
            let byte = data[i];
            let ad = TwoPartyChannel::generate_ad_to_transmit_data(&key, &byte);
            let outcome = advertise(&ad, &address);
            proof {
                assert(emitted_state(a, d, i as nat).1 == nth_state(a, d, (i + 2) as nat).1);
                assert(key.pk().sec1_view() == point_bytes(emitted_state(a, d, i as nat).1));
                assert(ad@ == ble_adv_data_spec(
                    point_bytes(emitted_state(a, d, i as nat).1),
                    data@[i as int],
                    0,
                ));
                assert(address@ == ble_address_spec(point_bytes(emitted_state(a, d, i as nat).1)));
                assert(call_ensures(*advertise, (&ad, &address), outcome));
                assert(advertised(*advertise, a, d, data@, i as int, outcome));
            }
            match outcome {
                Ok(()) => {},
                Err(t) => {
                    proof {
                        assert(advertised(
                            *advertise,
                            a,
                            d,
                            data@,
                            i as int,
                            Result::<(), TransportError>::Err(t),
                        ));
                        assert(0 <= i < data@.len()
                            && stream_ok_upto(a, d, (i + 3) as nat)
                            && (forall|q: int| 0 <= q < i ==> #[trigger] advertised(
                                *advertise,
                                a,
                                d,
                                data@,
                                q,
                                Result::<(), TransportError>::Ok(()),
                            )));
                    }
                    return Err(Error::Transport(t));
                },
            }
            proof {
                assert(outcome is Ok);
                assert(outcome->Ok_0 == ());
                assert(outcome == Result::<(), TransportError>::Ok(outcome->Ok_0));
                assert(outcome == Result::<(), TransportError>::Ok(()));
                assert forall|q: int| 0 <= q < i + 1 implies #[trigger] advertised(
                    *advertise,
                    a,
                    d,
                    data@,
                    q,
                    Result::<(), TransportError>::Ok(()),
                ) by {
                    if q == i {
                        assert(advertised(*advertise, a, d, data@, i as int, outcome));
                    }
                }
            }
            i += 1;
        }
        Ok(data.len())
    }
}

} // verus!
