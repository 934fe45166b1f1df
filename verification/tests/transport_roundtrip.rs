//! End-to-end transmission through a deterministic in-memory reports layer.

use std::cell::RefCell;
use std::collections::HashMap;

use rand::rngs::StdRng;
use rand::{RngCore, SeedableRng};

use ip_over_airtag::channel::TwoPartyChannel;
use ip_over_airtag::keys::{PublicKey, SecretKey};
use ip_over_airtag::receiver::{Receiver, Report};
use ip_over_airtag::{Error, TransportError};

fn random_key(rng: &mut StdRng) -> SecretKey {
    loop {
        let mut bytes = vec![0u8; 28];
        rng.fill_bytes(&mut bytes);
        if let Ok(k) = SecretKey::from_be_bytes(bytes) {
            return k;
        }
    }
}

/// The reports bystanders would file for a transmission of `data` from the
/// sender with identity `identity_a` to the peer with public key `b_pub`:
/// `copies` identical reports per advertised key.
fn reports_for_transmission(
    identity_a: &SecretKey,
    b_pub: &PublicKey,
    data: &[u8],
    copies: usize,
) -> HashMap<Vec<u8>, Vec<Report>> {
    let channel = TwoPartyChannel::from_identity_keys(identity_a, b_pub).unwrap();
    let mut it = channel.iter_their_keys();
    let mut map = HashMap::new();
    for &byte in data {
        let key = it.next().unwrap();
        let id = key.hash();
        let mut filed = Vec::new();
        for _ in 0..copies {
            filed.push(Report { id: id.clone(), status: byte });
        }
        map.insert(id, filed);
    }
    map
}

fn lookup(map: &HashMap<Vec<u8>, Vec<Report>>, keys: &Vec<(SecretKey, Vec<u8>)>) -> Vec<Report> {
    let mut out = Vec::new();
    for (_, id) in keys {
        if let Some(filed) = map.get(id) {
            out.extend(filed.iter().cloned());
        }
    }
    out
}

fn round_trip(data: &[u8], max_windows: usize) -> Vec<u8> {
    let mut rng = StdRng::seed_from_u64(0x01);
    let identity_a = random_key(&mut rng);
    let identity_b = random_key(&mut rng);
    let a_pub = identity_a.public_key();
    let b_pub = identity_b.public_key();

    let map = reports_for_transmission(&identity_a, &b_pub, data, 1);
    let fetch = |keys: &Vec<(SecretKey, Vec<u8>)>| -> Result<Vec<Report>, TransportError> {
        Ok(lookup(&map, keys))
    };

    let receiver = Receiver::new(identity_b);
    receiver.receive(&a_pub, &fetch, max_windows).unwrap()
}

#[test]
fn round_trip_hello_world() {
    assert_eq!(round_trip(b"hello world", 2), b"hello world".to_vec());
}

#[test]
fn round_trip_alternating_bytes() {
    let data = [0x00u8, 0xff, 0x00, 0xff];
    assert_eq!(round_trip(&data, 2), data.to_vec());
}

#[test]
fn round_trip_300_bytes_crosses_the_window_boundary() {
    let mut rng = StdRng::seed_from_u64(42);
    let mut data = vec![0u8; 300];
    rng.fill_bytes(&mut data);
    assert_eq!(round_trip(&data, 3), data);
}

#[test]
fn majority_vote_recovers_the_sent_byte() {
    let mut rng = StdRng::seed_from_u64(0x01);
    let identity_a = random_key(&mut rng);
    let identity_b = random_key(&mut rng);
    let a_pub = identity_a.public_key();
    let b_pub = identity_b.public_key();

    // Two reports carry the sent byte, one a corrupted byte.
    let mut map = reports_for_transmission(&identity_a, &b_pub, b"\x58", 2);
    for filed in map.values_mut() {
        let mut corrupted = filed[0].clone();
        corrupted.status = 0x59;
        filed.push(corrupted);
    }
    let fetch = |keys: &Vec<(SecretKey, Vec<u8>)>| -> Result<Vec<Report>, TransportError> {
        Ok(lookup(&map, keys))
    };

    let receiver = Receiver::new(identity_b);
    assert_eq!(receiver.receive(&a_pub, &fetch, 2).unwrap(), vec![0x58]);
}

#[test]
fn receive_stops_at_the_first_unreported_key() {
    let mut rng = StdRng::seed_from_u64(0x01);
    let identity_a = random_key(&mut rng);
    let identity_b = random_key(&mut rng);
    let a_pub = identity_a.public_key();
    let b_pub = identity_b.public_key();

    let data = *b"0123456789";
    // Only the first 5 keys get reports.
    let map = reports_for_transmission(&identity_a, &b_pub, &data[0..5], 1);
    let fetch = |keys: &Vec<(SecretKey, Vec<u8>)>| -> Result<Vec<Report>, TransportError> {
        Ok(lookup(&map, keys))
    };

    let receiver = Receiver::new(identity_b);
    assert_eq!(receiver.receive(&a_pub, &fetch, 2).unwrap(), data[0..5].to_vec());
}

#[test]
fn failed_fetch_aborts_receive_with_no_partial_data() {
    let mut rng = StdRng::seed_from_u64(0x01);
    let identity_a = random_key(&mut rng);
    let identity_b = random_key(&mut rng);
    let a_pub = identity_a.public_key();
    let b_pub = identity_b.public_key();

    let mut data = vec![0u8; 300];
    rng.fill_bytes(&mut data);
    let map = reports_for_transmission(&identity_a, &b_pub, &data, 1);
    let calls: RefCell<usize> = RefCell::new(0);
    let fetch = |keys: &Vec<(SecretKey, Vec<u8>)>| -> Result<Vec<Report>, TransportError> {
        let mut n = calls.borrow_mut();
        *n += 1;
        if *n == 2 {
            Err(TransportError)
        } else {
            Ok(lookup(&map, keys))
        }
    };

    let receiver = Receiver::new(identity_b);
    let result = receiver.receive(&a_pub, &fetch, 3);
    assert!(matches!(result, Err(Error::Transport(_))));
}

#[test]
fn get_keys_matches_the_senders_stream() {
    let mut rng = StdRng::seed_from_u64(0x01);
    let identity_a = random_key(&mut rng);
    let identity_b = random_key(&mut rng);
    let a_pub = identity_a.public_key();
    let b_pub = identity_b.public_key();

    let sender_channel = TwoPartyChannel::from_identity_keys(&identity_a, &b_pub).unwrap();
    let mut sender_view = sender_channel.iter_their_keys();

    let receiver = Receiver::new(identity_b);
    let pairs = receiver.get_keys_for_fetching_and_decrypting(&a_pub, 3).unwrap();
    assert_eq!(pairs.len(), 3);
    for (secret, public) in &pairs {
        let from_sender = sender_view.next().unwrap();
        assert_eq!(public.to_sec1_bytes(), from_sender.to_sec1_bytes());
        assert_eq!(secret.public_key().to_sec1_bytes(), from_sender.to_sec1_bytes());
        assert_eq!(public.hash(), from_sender.hash());
    }
}
