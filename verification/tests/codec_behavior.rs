//! Codec layout, key-material validation, and window decoding.

use ip_over_airtag::codec::{make_adv_data, BleAdvertisementMetadata, OfflineFindingPublicKey};
use ip_over_airtag::keys::{PublicKey, SecretKey};
use ip_over_airtag::receiver::{decode_window, majority_status, Report};
use ip_over_airtag::{CodecError, CurveError};

use std::collections::HashSet;

use rand::rngs::StdRng;
use rand::{RngCore, SeedableRng};
use sha2::Digest;

/// The compressed SEC1 encoding of the P-224 base point.
fn generator_bytes() -> Vec<u8> {
    let mut v = vec![0x02u8];
    v.extend_from_slice(
        &hex::decode("b70e0cbd6bb4bf7f321390b94a03c1d356c21122343280d6115c1d21").unwrap(),
    );
    v
}

fn generator_key() -> PublicKey {
    PublicKey::from_sec1_bytes(&generator_bytes()).unwrap()
}

#[test]
fn address_has_type_bits_and_x_prefix() {
    let of_key = OfflineFindingPublicKey::from_public_key(&generator_key());
    let addr = of_key.to_ble_address_bytes_be();
    // First six X bytes, top two bits of the first forced to 11.
    assert_eq!(addr, vec![0xf7, 0x0e, 0x0c, 0xbd, 0x6b, 0xb4]);
    assert_eq!(addr[0] & 0xc0, 0xc0);
}

#[test]
fn advertisement_layout_carries_status() {
    let sec1 = generator_bytes();
    let of_key = OfflineFindingPublicKey::from_public_key(&generator_key());
    let adv = of_key.to_ble_advertisement_data(BleAdvertisementMetadata {
        status: 0x41,
        hint: 0x07,
    });
    assert_eq!(adv.len(), 29);
    assert_eq!(&adv[0..4], &[0x4c, 0x00, 0x12, 0x19]);
    assert_eq!(adv[4], 0x41);
    assert_eq!(&adv[5..27], &sec1[7..29]);
    assert_eq!(adv[27], sec1[1] >> 6);
    assert_eq!(adv[28], 0x07);
}

#[test]
fn serial_frame_is_address_header_payload() {
    let key = generator_key();
    let frame = make_adv_data(&key);
    assert_eq!(frame.len(), 37);
    let of_key = OfflineFindingPublicKey::from_public_key(&key);
    let addr = of_key.to_ble_address_bytes_be();
    let adv =
        of_key.to_ble_advertisement_data(BleAdvertisementMetadata { status: 0, hint: 0 });
    assert_eq!(&frame[0..6], addr.as_slice());
    assert_eq!(&frame[6..8], &[0x1e, 0xff]);
    assert_eq!(&frame[8..37], adv.as_slice());
}

#[test]
fn key_hash_is_sha256_of_sec1_bytes() {
    let of_key = OfflineFindingPublicKey::from_public_key(&generator_key());
    let id = of_key.hash();
    let expected = sha2::Sha256::digest(generator_bytes().as_slice()).to_vec();
    assert_eq!(id, expected);
}

#[test]
fn public_key_of_scalar_one_is_the_base_point() {
    let mut bytes = vec![0u8; 28];
    bytes[27] = 1;
    let key = SecretKey::from_be_bytes(bytes).unwrap();
    assert_eq!(key.public_key().to_sec1_bytes(), generator_bytes());
}

#[test]
fn secret_key_error_variants() {
    assert!(matches!(
        SecretKey::from_be_bytes(vec![0u8; 28]),
        Err(CurveError::ZeroScalar)
    ));
    assert!(matches!(
        SecretKey::from_be_bytes(vec![0xffu8; 28]),
        Err(CurveError::ScalarOutOfRange)
    ));
    assert!(matches!(
        SecretKey::from_be_bytes(vec![1u8; 5]),
        Err(CurveError::ScalarOutOfRange)
    ));
}

#[test]
fn public_key_error_variants() {
    // Wrong length and wrong tag byte are header errors.
    assert!(matches!(
        PublicKey::from_sec1_bytes(&vec![0x02u8; 5]),
        Err(CodecError::InvalidHeaderByte)
    ));
    let mut wrong_tag = generator_bytes();
    wrong_tag[0] = 0x05;
    assert!(matches!(
        PublicKey::from_sec1_bytes(&wrong_tag),
        Err(CodecError::InvalidHeaderByte)
    ));
    // A well-tagged X coordinate that is no field element is rejected by the
    // curve library.
    let mut off_curve = vec![0x02u8];
    off_curve.extend_from_slice(&[0xffu8; 28]);
    assert!(matches!(
        PublicKey::from_sec1_bytes(&off_curve),
        Err(CodecError::BadPublicKey)
    ));
}

#[test]
fn derived_addresses_are_pairwise_distinct() {
    let mut rng = StdRng::seed_from_u64(4);
    let mut seen = HashSet::new();
    for _ in 0..1000 {
        let key = loop {
            let mut bytes = vec![0u8; 28];
            rng.fill_bytes(&mut bytes);
            if let Ok(k) = SecretKey::from_be_bytes(bytes) {
                break k;
            }
        };
        let of_key = OfflineFindingPublicKey::from_public_key(&key.public_key());
        assert!(seen.insert(of_key.to_ble_address_bytes_be()));
    }
}

fn id(n: u8) -> Vec<u8> {
    let mut v = vec![0u8; 32];
    v[0] = n;
    v
}

fn report(n: u8, status: u8) -> Report {
    Report { id: id(n), status }
}

#[test]
fn majority_picks_most_frequent_status() {
    let reports = vec![report(1, 0x58), report(1, 0x58), report(1, 0x59)];
    assert_eq!(majority_status(&reports, &id(1)), 0x58);
}

#[test]
fn majority_breaks_ties_towards_lowest_byte() {
    let reports = vec![report(1, 0x59), report(1, 0x58), report(1, 0x59), report(1, 0x58)];
    assert_eq!(majority_status(&reports, &id(1)), 0x58);
}

#[test]
fn decode_window_takes_bytes_in_window_order() {
    let ids = vec![id(1), id(2), id(3)];
    let reports = vec![report(3, 0x63), report(1, 0x61), report(2, 0x62)];
    let (bytes, stopped) = decode_window(&ids, &reports);
    assert_eq!(bytes, vec![0x61, 0x62, 0x63]);
    assert!(!stopped);
}

#[test]
fn decode_window_stops_at_first_gap() {
    let mut ids = Vec::new();
    for n in 0..10u8 {
        ids.push(id(n));
    }
    let mut reports = Vec::new();
    for n in 0..5u8 {
        reports.push(report(n, 0x30 + n));
    }
    // Reports for a later id past the gap must not be decoded.
    reports.push(report(7, 0x77));
    let (bytes, stopped) = decode_window(&ids, &reports);
    assert_eq!(bytes, vec![0x30, 0x31, 0x32, 0x33, 0x34]);
    assert!(stopped);
}
