//! Channel construction, stream agreement between the two parties, iterator
//! purity, and the sender's transmit loop.

use std::cell::RefCell;

use rand::rngs::{OsRng, StdRng};
use rand::{RngCore, SeedableRng};

use ip_over_airtag::channel::TwoPartyChannel;
use ip_over_airtag::keys::SecretKey;
use ip_over_airtag::kex::compute_shared_scalar;
use ip_over_airtag::sender::Sender;
use ip_over_airtag::{Error, TransportError};

fn random_key_os() -> SecretKey {
    loop {
        let mut bytes = vec![0u8; 28];
        OsRng.fill_bytes(&mut bytes);
        if let Ok(k) = SecretKey::from_be_bytes(bytes) {
            return k;
        }
    }
}

fn random_key(rng: &mut StdRng) -> SecretKey {
    loop {
        let mut bytes = vec![0u8; 28];
        rng.fill_bytes(&mut bytes);
        if let Ok(k) = SecretKey::from_be_bytes(bytes) {
            return k;
        }
    }
}

#[test]
fn test_alice_and_bob_have_same_view_of_each_others_channel_public_keys() {
    let alice_secret_key = random_key_os();
    let bob_secret_key = random_key_os();

    let alice_two_party_channel = TwoPartyChannel::from_identity_keys(
        &alice_secret_key,
        &bob_secret_key.public_key(),
    )
    .unwrap();
    let bob_two_party_channel = TwoPartyChannel::from_identity_keys(
        &bob_secret_key,
        &alice_secret_key.public_key(),
    )
    .unwrap();

    assert_eq!(
        alice_two_party_channel.our_channel_public_key().to_sec1_bytes(),
        bob_two_party_channel.their_channel_public_key().to_sec1_bytes()
    );

    assert_eq!(
        bob_two_party_channel.our_channel_public_key().to_sec1_bytes(),
        alice_two_party_channel.their_channel_public_key().to_sec1_bytes()
    );
}

#[test]
fn test_alice_and_bob_have_same_view_of_each_others_ephemeral_public_keys() {
    let alice_secret_key = random_key_os();
    let bob_secret_key = random_key_os();

    let alice_two_party_channel = TwoPartyChannel::from_identity_keys(
        &alice_secret_key,
        &bob_secret_key.public_key(),
    )
    .unwrap();
    let bob_two_party_channel = TwoPartyChannel::from_identity_keys(
        &bob_secret_key,
        &alice_secret_key.public_key(),
    )
    .unwrap();

    for (p_two_party_channel, q_two_party_channel) in [
        (&alice_two_party_channel, &bob_two_party_channel),
        (&bob_two_party_channel, &alice_two_party_channel),
    ] {
        let mut p_pov = p_two_party_channel.iter_their_keys();
        let mut q_own = q_two_party_channel.iter_our_keys();
        for _ in 0..5 {
            let p_pov_q_public_key = p_pov.next().unwrap();
            let (_, q_public_key) = q_own.next().unwrap();
            assert_eq!(p_pov_q_public_key.to_sec1_bytes(), q_public_key.to_sec1_bytes());
        }
    }
}

#[test]
fn shared_scalar_is_symmetric_in_hash_order() {
    let mut rng = StdRng::seed_from_u64(7);
    for _ in 0..3 {
        let a = random_key(&mut rng);
        let b = random_key(&mut rng);
        let from_a = compute_shared_scalar(&a, &b.public_key()).unwrap();
        let from_b = compute_shared_scalar(&b, &a.public_key()).unwrap();
        assert_eq!(from_a.to_be_bytes(), from_b.to_be_bytes());
    }
}

#[test]
fn streams_agree_for_many_steps_over_random_pairs() {
    let mut rng = StdRng::seed_from_u64(11);
    for _ in 0..5 {
        let a = random_key(&mut rng);
        let b = random_key(&mut rng);
        let alice = TwoPartyChannel::from_identity_keys(&a, &b.public_key()).unwrap();
        let bob = TwoPartyChannel::from_identity_keys(&b, &a.public_key()).unwrap();
        let mut alice_view = alice.iter_their_keys();
        let mut bob_own = bob.iter_our_keys();
        for _ in 0..100 {
            let their_pub = alice_view.next().unwrap();
            let (bob_priv, bob_pub) = bob_own.next().unwrap();
            assert_eq!(their_pub.to_sec1_bytes(), bob_pub.to_sec1_bytes());
            // The private key Bob gets really is the key behind that point.
            assert_eq!(
                bob_priv.public_key().to_sec1_bytes(),
                their_pub.to_sec1_bytes()
            );
        }
    }
}

#[test]
fn iterators_over_one_channel_are_pure() {
    let mut rng = StdRng::seed_from_u64(13);
    let a = random_key(&mut rng);
    let b = random_key(&mut rng);
    let channel = TwoPartyChannel::from_identity_keys(&a, &b.public_key()).unwrap();
    let mut first = channel.iter_their_keys();
    let mut second = channel.iter_their_keys();
    let prefix = first.take_keys(4).unwrap();
    assert_eq!(prefix.len(), 4);
    for key in &prefix {
        assert_eq!(second.next().unwrap().to_sec1_bytes(), key.to_sec1_bytes());
    }
}

#[test]
fn rebuilt_channel_repeats_the_stream() {
    let mut rng = StdRng::seed_from_u64(17);
    let a = random_key(&mut rng);
    let b_pub = random_key(&mut rng).public_key();
    let first_channel = TwoPartyChannel::from_identity_keys(&a, &b_pub).unwrap();
    let mut first = first_channel.iter_their_keys();
    let mut prefix = Vec::new();
    for _ in 0..3 {
        prefix.push(first.next().unwrap().to_sec1_bytes());
    }
    let second_channel = TwoPartyChannel::from_identity_keys(&a, &b_pub).unwrap();
    let mut second = second_channel.iter_their_keys();
    for expected in prefix {
        assert_eq!(second.next().unwrap().to_sec1_bytes(), expected);
    }
}

#[test]
fn rotation_does_not_consume_peer_state() {
    let mut rng = StdRng::seed_from_u64(19);
    let a = random_key(&mut rng);
    let b = random_key(&mut rng);
    let mut alice = TwoPartyChannel::from_identity_keys(&a, &b.public_key()).unwrap();
    for _ in 0..5 {
        alice.rotate_keys().unwrap();
    }
    let fresh_alice = TwoPartyChannel::from_identity_keys(&a, &b.public_key()).unwrap();
    let fresh_bob = TwoPartyChannel::from_identity_keys(&b, &a.public_key()).unwrap();
    let mut alice_view = fresh_alice.iter_their_keys();
    let mut bob_own = fresh_bob.iter_our_keys();
    for _ in 0..5 {
        alice_view.next().unwrap();
        bob_own.next().unwrap();
    }
    let sixth_their = alice_view.next().unwrap();
    let (_, sixth_our) = bob_own.next().unwrap();
    assert_eq!(sixth_their.to_sec1_bytes(), sixth_our.to_sec1_bytes());
}

#[test]
fn transmit_advertises_every_byte_in_order() {
    // Identities seeded from RNG seed 0x01.
    let mut rng = StdRng::seed_from_u64(0x01);
    let identity_a = random_key(&mut rng);
    let identity_b = random_key(&mut rng);

    let captured: RefCell<Vec<(Vec<u8>, Vec<u8>)>> = RefCell::new(Vec::new());
    let advertise = |adv: &Vec<u8>, addr: &Vec<u8>| -> Result<(), TransportError> {
        captured.borrow_mut().push((adv.clone(), addr.clone()));
        Ok(())
    };

    let a_pub = identity_a.public_key();
    let sender = Sender::new(identity_a);
    let b_pub = identity_b.public_key();
    let data = b"hi".to_vec();
    let sent = sender.transmit(&data, &b_pub, &advertise).unwrap();
    assert_eq!(sent, 2);

    let ads = captured.borrow();
    assert_eq!(ads.len(), 2);

    // What went on air is exactly what the recipient's own stream predicts:
    // the keys the sender used are the public keys of the secret keys the
    // recipient derives.
    let receiver_channel = TwoPartyChannel::from_identity_keys(&identity_b, &a_pub).unwrap();
    let mut bob_own = receiver_channel.iter_our_keys();
    for i in 0..2 {
        let (bob_priv, _) = bob_own.next().unwrap();
        let of_pub = ip_over_airtag::codec::OfflineFindingPublicKey::from_public_key(
            &bob_priv.public_key(),
        );
        let expected_adv =
            TwoPartyChannel::generate_ad_to_transmit_data(&of_pub, &data[i]);
        assert_eq!(ads[i].0, expected_adv);
        assert_eq!(ads[i].1, of_pub.to_ble_address_bytes_be());
    }
}

#[test]
fn transmit_splices_the_data_byte_into_the_advertisement() {
    let mut rng = StdRng::seed_from_u64(0x01);
    let identity_a = random_key(&mut rng);
    let identity_b = random_key(&mut rng);

    let captured: RefCell<Vec<Vec<u8>>> = RefCell::new(Vec::new());
    let advertise = |adv: &Vec<u8>, _addr: &Vec<u8>| -> Result<(), TransportError> {
        captured.borrow_mut().push(adv.clone());
        Ok(())
    };

    let sender = Sender::new(identity_a);
    let sent = sender
        .transmit(&b"\x41".to_vec(), &identity_b.public_key(), &advertise)
        .unwrap();
    assert_eq!(sent, 1);
    let ads = captured.borrow();
    assert_eq!(ads.len(), 1);
    // The status byte sits at the offset the codec defines.
    assert_eq!(ads[0][4], 0x41);
}

#[test]
fn transmit_stops_at_the_first_failing_advertisement() {
    let mut rng = StdRng::seed_from_u64(23);
    let identity_a = random_key(&mut rng);
    let identity_b = random_key(&mut rng);

    let calls: RefCell<usize> = RefCell::new(0);
    let advertise = |_adv: &Vec<u8>, _addr: &Vec<u8>| -> Result<(), TransportError> {
        let mut n = calls.borrow_mut();
        *n += 1;
        if *n == 2 {
            Err(TransportError)
        } else {
            Ok(())
        }
    };

    let sender = Sender::new(identity_a);
    let result = sender.transmit(&b"abcde".to_vec(), &identity_b.public_key(), &advertise);
    assert!(matches!(result, Err(Error::Transport(_))));
    // The failing call is made, nothing after it.
    assert_eq!(*calls.borrow(), 2);
}
