//! The BLE advertisement codec of the offline-finding protocol.
//!
//! An ephemeral public key is broadcast as a BLE advertisement: the first six
//! bytes of its X coordinate become the advertising address (top two bits
//! forced to `11`, a public random address), and the remaining 22 X bytes are
//! carried in the advertisement payload together with a status byte — the
//! smuggled data byte — and a hint byte.

use vstd::prelude::*;

use crate::crypto::{sha256, sha256_of};
use crate::keys::PublicKey;

verus! {

/// The metadata spliced into one advertisement.  Only `status` carries data.
#[derive(Clone, Copy, Debug, PartialEq, Eq, Structural)]
pub struct BleAdvertisementMetadata {
    /// The data byte carried by the advertisement.
    pub status: u8,
    /// An auxiliary byte; zero in this protocol.
    pub hint: u8,
}

impl Default for BleAdvertisementMetadata {
    /// Metadata with both bytes zero.
    fn default() -> (r: Self)
        ensures
            r.status == 0 && r.hint == 0,
    {
        BleAdvertisementMetadata { status: 0, hint: 0 }
    }
}

/// The 6-byte advertising address derived from a compressed SEC1 public key:
/// the first six X-coordinate bytes, the top two bits of the first forced to
/// `11`.
pub open spec fn ble_address_spec(pk: Seq<u8>) -> Seq<u8> {
    seq![pk[1] | 0xc0] + pk.subrange(2, 7)
}

/// The 29-byte advertisement payload: the fixed offline-finding preamble,
/// the status byte, the remaining 22 X-coordinate bytes, the two X bits the
/// address clobbered, and the hint byte.
pub open spec fn ble_adv_data_spec(pk: Seq<u8>, status: u8, hint: u8) -> Seq<u8> {
    seq![0x4cu8, 0x00u8, 0x12u8, 0x19u8, status] + pk.subrange(7, 29)
        + seq![pk[1] >> 6, hint]
}

/// The offset of the status byte within the advertisement payload.
pub open spec fn adv_status_offset() -> int {
    4
}

/// The 37-byte serial frame a host sends to a BLE peripheral: the address,
/// the two AD header bytes (length 30, manufacturer-specific type), and the
/// payload with zero metadata.
pub open spec fn serial_frame_spec(pk: Seq<u8>) -> Seq<u8> {
    ble_address_spec(pk) + seq![0x1eu8, 0xffu8] + ble_adv_data_spec(pk, 0, 0)
}

/// Every derived advertising address has its top two bits set: it is a BLE
/// public random address.
pub proof fn lemma_address_type_bits(pk: Seq<u8>)
    requires
        pk.len() == 29,
    ensures
        ble_address_spec(pk).len() == 6,
        ble_address_spec(pk)[0] & 0xc0 == 0xc0,
{
    let b = pk[1];
    assert((b | 0xc0) & 0xc0 == 0xc0) by (bit_vector);
}

/// A public key as the offline-finding protocol views it: the source of an
/// advertising address, an advertisement payload, and a report lookup hash.
pub struct OfflineFindingPublicKey {
    key: PublicKey,
}

impl OfflineFindingPublicKey {
    /// The underlying public key.
    pub closed spec fn pk(&self) -> PublicKey {
        self.key
    }

    /// Well-formed exactly when the underlying key is.
    pub open spec fn wf(&self) -> bool {
        self.pk().wf()
    }

    /// Views a public key through the offline-finding lens.
    pub fn from_public_key(key: &PublicKey) -> (r: Self)
        ensures
            r.pk().sec1_view() == key.sec1_view(),
            r.pk().dlog() == key.dlog(),
            key.wf() ==> r.wf(),
    {
        OfflineFindingPublicKey { key: key.copy_key() }
    }

    /// The underlying public key, as its compressed SEC1 bytes.
    pub fn to_sec1_bytes(&self) -> (r: Vec<u8>)
        ensures
            r@ == self.pk().sec1_view(),
    {
        self.key.to_sec1_bytes()
    }

    /// The 6-byte BLE advertising address of this key, big-endian.
    pub fn to_ble_address_bytes_be(&self) -> (r: Vec<u8>)
        requires
            self.wf(),
        ensures
            r@ == ble_address_spec(self.pk().sec1_view()),
            r@.len() == 6,
    {
        let sec1 = self.key.as_sec1_bytes();
        let mut r: Vec<u8> = Vec::new();
        r.push(sec1[1] | 0xc0);
        proof {
            assert(r@ =~= seq![sec1@[1] | 0xc0u8] + sec1@.subrange(2, 2));
        }
        let mut i: usize = 2;
        while i < 7
            invariant
                2 <= i <= 7,
                sec1@.len() == 29,
                r@ == seq![sec1@[1] | 0xc0u8] + sec1@.subrange(2, i as int),
            decreases 7 - i,
        {
            r.push(sec1[i]);
            proof {
                assert(r@ =~= seq![sec1@[1] | 0xc0u8] + sec1@.subrange(2, i + 1));
            }
            i += 1;
        }
        r
    }

    /// The 29-byte advertisement payload carrying the given metadata.
    pub fn to_ble_advertisement_data(&self, metadata: BleAdvertisementMetadata) -> (r: Vec<u8>)
        requires
            self.wf(),
        ensures
            r@ == ble_adv_data_spec(self.pk().sec1_view(), metadata.status, metadata.hint),
            r@.len() == 29,
            r@[adv_status_offset()] == metadata.status,
    {
        let sec1 = self.key.as_sec1_bytes();
        let mut r: Vec<u8> = Vec::new();
        r.push(0x4c);
        r.push(0x00);
        r.push(0x12);
        r.push(0x19);
        r.push(metadata.status);
        proof {
            assert(r@ =~= seq![0x4cu8, 0x00u8, 0x12u8, 0x19u8, metadata.status]
                + sec1@.subrange(7, 7));
        }
        let mut i: usize = 7;
        while i < 29
            invariant
                7 <= i <= 29,
                sec1@.len() == 29,
                r@ == seq![0x4cu8, 0x00u8, 0x12u8, 0x19u8, metadata.status]
                    + sec1@.subrange(7, i as int),
            decreases 29 - i,
        {
            r.push(sec1[i]);
            proof {
                assert(r@ =~= seq![0x4cu8, 0x00u8, 0x12u8, 0x19u8, metadata.status]
                    + sec1@.subrange(7, i + 1));
            }
            i += 1;
        }
        r.push(sec1[1] >> 6);
        r.push(metadata.hint);
        proof {
            assert(r@ =~= ble_adv_data_spec(self.pk().sec1_view(), metadata.status,
                metadata.hint));
        }
        r
    }

    /// The SHA-256 hash of the compressed key: the reports-service lookup id.
    pub fn hash(&self) -> (r: Vec<u8>)
        ensures
            r@ == sha256_of(self.pk().sec1_view()),
            r@.len() == 32,
    {
        sha256(self.key.as_sec1_bytes())
    }
}

/// The 37-byte serial frame that asks a BLE peripheral to advertise the
/// given key with zero metadata: address first, then the AD header, then the
/// payload.
pub fn make_adv_data(key: &PublicKey) -> (r: Vec<u8>)
    requires
        key.wf(),
    ensures
        r@ == serial_frame_spec(key.sec1_view()),
        r@.len() == 37,
{
    let of_key = OfflineFindingPublicKey::from_public_key(key);
    let addr = of_key.to_ble_address_bytes_be();
    let adv = of_key.to_ble_advertisement_data(
        BleAdvertisementMetadata { status: 0, hint: 0 },
    );
    let mut r = addr;
    r.push(0x1e);
    r.push(0xff);
    proof {
        assert(r@ =~= ble_address_spec(key.sec1_view()) + seq![0x1eu8, 0xffu8]
            + adv@.take(0));
    }
    let mut i: usize = 0;
    while i < adv.len()
        invariant
            i <= adv@.len(),
            r@ == ble_address_spec(key.sec1_view()) + seq![0x1eu8, 0xffu8]
                + adv@.take(i as int),
        decreases adv@.len() - i,
    {
        r.push(adv[i]);
        proof {
            assert(r@ =~= ble_address_spec(key.sec1_view()) + seq![0x1eu8, 0xffu8]
                + adv@.take(i + 1));
        }
        i += 1;
    }
    proof {
        assert(adv@.take(adv@.len() as int) =~= adv@);
        assert(r@ =~= serial_frame_spec(key.sec1_view()));
    }
    r
}

} // verus!
