//! The two persisted record shapes — the per-device summary and the
//! per-(device, scanner) location slot — and the validity rules on their
//! fields.
//!
//! Identities (device references and scanner signing keys) are 32-byte
//! storage keys, held as plain byte vectors. Coordinates are held in
//! microdegrees, so that the validity bounds of ±90 and ±180 degrees are
//! exact integer bounds.

use vstd::prelude::*;

verus! {

/// Degrees of latitude allowed, scaled to microdegrees.
pub const LAT_LIMIT_MICRO: i64 = 90_000_000;

/// Degrees of longitude allowed, scaled to microdegrees.
pub const LON_LIMIT_MICRO: i64 = 180_000_000;

/// The host's storage keys and signing keys are exactly 32 bytes.
pub open spec fn key_wf(k: Seq<u8>) -> bool {
    k.len() == 32
}

/// Latitude lies within [-90, 90] degrees.
pub open spec fn latitude_in_range(lat: int) -> bool {
    -(LAT_LIMIT_MICRO as int) <= lat <= LAT_LIMIT_MICRO as int
}

/// Longitude lies within [-180, 180] degrees.
pub open spec fn longitude_in_range(lon: int) -> bool {
    -(LON_LIMIT_MICRO as int) <= lon <= LON_LIMIT_MICRO as int
}

/// One tracked physical object. Identified by its storage key, not by its
/// beacon id, since beacon ids can be reassigned. Overwritten on every
/// accepted sighting with the values of that sighting.
pub struct Device {
    /// The beacon id most recently reported for this device.
    pub beacon_id: String,
    /// Timestamp of the most recent accepted sighting.
    pub last_update: i64,
    /// Signing key of the scanner that reported most recently.
    pub last_scanner: Vec<u8>,
}

/// One (device, scanner) sighting slot: a single record overwritten by
/// each new sighting from the same scanner, not a history.
pub struct Location {
    pub beacon_id: String,
    /// Latitude in microdegrees, within [-90, 90] degrees.
    pub latitude: i64,
    /// Longitude in microdegrees, within [-180, 180] degrees.
    pub longitude: i64,
    pub timestamp: i64,
    /// Signing key of the reporting scanner.
    pub scanner: Vec<u8>,
}

/// A location record together with the storage address it lives at.
pub struct LocationSlot {
    /// The derived storage address of this slot.
    pub address: Vec<u8>,
    pub location: Location,
}

/// The location record holds exactly the values of the given sighting.
pub open spec fn location_is_sighting(
    l: Location,
    beacon_id: Seq<char>,
    latitude: int,
    longitude: int,
    timestamp: int,
    scanner: Seq<u8>,
) -> bool {
    &&& l.beacon_id@ == beacon_id
    &&& l.latitude == latitude
    &&& l.longitude == longitude
    &&& l.timestamp == timestamp
    &&& l.scanner@ == scanner
}

/// A stored slot is well formed: its scanner is a 32-byte key, its address
/// is a 32-byte storage key, and its coordinates obey the field invariant.
pub open spec fn slot_wf(s: LocationSlot) -> bool {
    &&& key_wf(s.location.scanner@)
    &&& s.address@.len() == 32
    &&& latitude_in_range(s.location.latitude as int)
    &&& longitude_in_range(s.location.longitude as int)
}

/// Byte-for-byte equality of two keys.
pub fn key_eq(a: &Vec<u8>, b: &Vec<u8>) -> (r: bool)
    ensures
        r == (a@ == b@),
{
    if a.len() != b.len() {
        return false;
    }
    let mut i: usize = 0;
    while i < a.len()
        invariant
            i <= a@.len(),
            a@.len() == b@.len(),
            forall|j: int| 0 <= j < i ==> a@[j] == b@[j],
        decreases a@.len() - i,
    {
        if a[i] != b[i] {
            return false;
        }
        i += 1;
    }
    proof {
        assert(a@ =~= b@);
    }
    true
}

/// A fresh copy of a key, byte for byte.
pub fn key_copy(a: &Vec<u8>) -> (r: Vec<u8>)
    ensures
        r@ == a@,
{
    let mut r: Vec<u8> = Vec::new();
    let mut i: usize = 0;
    while i < a.len()
        invariant
            i <= a@.len(),
            r@ == a@.subrange(0, i as int),
        decreases a@.len() - i,
    {
        r.push(a[i]);
        proof {
            assert(r@ =~= a@.subrange(0, i + 1 as int));
        }
        i += 1;
    }
    proof {
        assert(a@.subrange(0, a@.len() as int) =~= a@);
    }
    r
}

} // verus!
