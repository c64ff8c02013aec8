//! The location recorder: validates incoming sightings and applies them to
//! the stored records of one tracked device — the per-scanner location
//! slots and the device's "latest known location" summary.

use vstd::prelude::*;

use crate::address::derive_location_address;
use crate::address::derived_address_of;
use crate::error::DeviceTrackerError;
use crate::records::key_copy;
use crate::records::key_eq;
use crate::records::key_wf;
use crate::records::latitude_in_range;
use crate::records::location_is_sighting;
use crate::records::longitude_in_range;
use crate::records::slot_wf;
use crate::records::Device;
use crate::records::Location;
use crate::records::LocationSlot;
use crate::records::LAT_LIMIT_MICRO;
use crate::records::LON_LIMIT_MICRO;

verus! {

/// One tracked device's stored state: the device's own storage key, its
/// summary record, and one location slot per scanner that has ever
/// reported a sighting of it.
pub struct DeviceTracker {
    /// The storage key under which the device record lives.
    pub device_key: Vec<u8>,
    /// The device's summary record.
    pub device: Device,
    /// The per-scanner location slots, at most one per scanner key.
    pub slots: Vec<LocationSlot>,
}

impl DeviceTracker {
    /// Well-formedness: the device key is a 32-byte storage key, every
    /// slot is well formed, and no two slots belong to the same scanner.
    pub open spec fn wf(self) -> bool {
        &&& key_wf(self.device_key@)
        &&& forall|i: int| 0 <= i < self.slots@.len() ==> slot_wf(#[trigger] self.slots@[i])
        &&& forall|i: int, j: int|
            0 <= i < j < self.slots@.len()
                ==> self.slots@[i].location.scanner@ != self.slots@[j].location.scanner@
    }

    /// Some slot belongs to the given scanner.
    pub open spec fn has_slot_for(self, scanner: Seq<u8>) -> bool {
        exists|i: int|
            0 <= i < self.slots@.len() && (#[trigger] self.slots@[i]).location.scanner@ == scanner
    }

    /// Some slot holds exactly the given sighting.
    pub open spec fn has_sighting_slot(
        self,
        beacon_id: Seq<char>,
        latitude: int,
        longitude: int,
        timestamp: int,
        scanner: Seq<u8>,
    ) -> bool {
        exists|i: int|
            0 <= i < self.slots@.len() && location_is_sighting(
                (#[trigger] self.slots@[i]).location,
                beacon_id,
                latitude,
                longitude,
                timestamp,
                scanner,
            )
    }

    /// A new tracker for a device record that already exists in storage,
    /// before any sighting has been recorded through it.
    pub fn new(
        device_key: Vec<u8>,
        beacon_id: String,
        last_update: i64,
        last_scanner: Vec<u8>,
    ) -> (r: DeviceTracker)
        requires
            key_wf(device_key@),
        ensures
            r.wf(),
            r.device_key@ == device_key@,
            r.device.beacon_id@ == beacon_id@,
            r.device.last_update == last_update,
            r.device.last_scanner@ == last_scanner@,
            r.slots@.len() == 0,
    {
        DeviceTracker {
            device_key,
            device: Device { beacon_id, last_update, last_scanner },
            slots: Vec::new(),
        }
    }

    /// Records one accepted sighting and nothing else: the device summary
    /// holds exactly the sighting's values, and the reporting scanner's
    /// slot — overwritten if it existed, appended if not — holds them too,
    /// with every other slot untouched.
    pub open spec fn records_sighting(
        pre: DeviceTracker,
        post: DeviceTracker,
        beacon_id: Seq<char>,
        latitude: int,
        longitude: int,
        timestamp: int,
        scanner: Seq<u8>,
    ) -> bool {
        &&& post.device_key@ == pre.device_key@
        &&& post.device.beacon_id@ == beacon_id
        &&& post.device.last_update == timestamp
        &&& post.device.last_scanner@ == scanner
        &&& if pre.has_slot_for(scanner) {
            &&& post.slots@.len() == pre.slots@.len()
            &&& exists|i: int|
                #![auto]
                0 <= i < pre.slots@.len() && pre.slots@[i].location.scanner@ == scanner
                    && location_is_sighting(
                    post.slots@[i].location,
                    beacon_id,
                    latitude,
                    longitude,
                    timestamp,
                    scanner,
                ) && (forall|j: int|
                    0 <= j < pre.slots@.len() && j != i ==> post.slots@[j] == pre.slots@[j])
        } else {
            &&& post.slots@.len() == pre.slots@.len() + 1
            &&& post.slots@.subrange(0, pre.slots@.len() as int) == pre.slots@
            &&& location_is_sighting(
                post.slots@.last().location,
                beacon_id,
                latitude,
                longitude,
                timestamp,
                scanner,
            )
        }
    }

    /// Validates a sighting and applies it: latitude and longitude must be
    /// in range, else the matching error is returned and nothing is
    /// touched; on success the scanner's slot — created at its derived
    /// address on first use — and the device summary are overwritten with
    /// the sighting's values. The timestamp is the host clock's reading,
    /// supplied by the caller.
    pub fn record_location(
        &mut self,
        scanner: &Vec<u8>,
        beacon_id: String,
        latitude: i64,
        longitude: i64,
        timestamp: i64,
    ) -> (r: Result<(), DeviceTrackerError>)
        requires
            old(self).wf(),
            key_wf(scanner@),
        ensures
            final(self).wf(),
            latitude_in_range(latitude as int) && longitude_in_range(longitude as int) ==> r
                == Ok::<(), DeviceTrackerError>(()),
            !latitude_in_range(latitude as int) ==> r == Err::<(), DeviceTrackerError>(
                DeviceTrackerError::InvalidLatitude,
            ) && *final(self) == *old(self),
            latitude_in_range(latitude as int) && !longitude_in_range(longitude as int) ==> r
                == Err::<(), DeviceTrackerError>(DeviceTrackerError::InvalidLongitude)
                && *final(self) == *old(self),
            r is Ok ==> DeviceTracker::records_sighting(
                *old(self),
                *final(self),
                beacon_id@,
                latitude as int,
                longitude as int,
                timestamp as int,
                scanner@,
            ),
            r is Ok ==> exists|i: int|
                0 <= i < final(self).slots@.len()
                && (#[trigger] final(self).slots@[i]).location.scanner@ == scanner@
                && final(self).slots@[i].address@
                    == derived_address_of(old(self).device_key@, scanner@),
    {
        if !(latitude >= -LAT_LIMIT_MICRO && latitude <= LAT_LIMIT_MICRO) {
            return Err(DeviceTrackerError::InvalidLatitude);
        }
        if !(longitude >= -LON_LIMIT_MICRO && longitude <= LON_LIMIT_MICRO) {
            return Err(DeviceTrackerError::InvalidLongitude);
        }
        let address = derive_location_address(&self.device_key, scanner);
        let location = Location {
            beacon_id: beacon_id.clone(),
            latitude,
            longitude,
            timestamp,
            scanner: key_copy(scanner),
        };
        match self.find_slot(scanner) {
            Some(i) => {
                self.slots[i] = LocationSlot { address, location };
                proof {
                    assert(old(self).slots@[i as int].location.scanner@ == scanner@);
                    assert(old(self).has_slot_for(scanner@));
                    assert(self.slots@[i as int].location.scanner@ == scanner@);
                    assert(self.slots@[i as int].address@ == derived_address_of(
                        old(self).device_key@,
                        scanner@,
                    ));
                    assert(location_is_sighting(
                        self.slots@[i as int].location,
                        beacon_id@,
                        latitude as int,
                        longitude as int,
                        timestamp as int,
                        scanner@,
                    ));
                    assert(forall|j: int|
                        0 <= j < old(self).slots@.len() && j != i as int ==> self.slots@[j] == old(
                            self,
                        ).slots@[j]);
                }
            },
            None => {
                self.slots.push(LocationSlot { address, location });
                proof {
                    let ghost n = old(self).slots@.len() as int;
                    assert(self.slots@.subrange(0, n) =~= old(self).slots@);
                    assert(self.slots@[n].location.scanner@ == scanner@);
                    assert(self.slots@[n].address@ == derived_address_of(
                        old(self).device_key@,
                        scanner@,
                    ));
                    assert(location_is_sighting(
                        self.slots@.last().location,
                        beacon_id@,
                        latitude as int,
                        longitude as int,
                        timestamp as int,
                        scanner@,
                    ));
                }
            },
        }
        self.device.beacon_id = beacon_id;
        self.device.last_update = timestamp;
        self.device.last_scanner = key_copy(scanner);
        proof {
            assert(DeviceTracker::records_sighting(
                *old(self),
                *self,
                beacon_id@,
                latitude as int,
                longitude as int,
                timestamp as int,
                scanner@,
            ));
        }
        Ok(())
    }

    /// The read gate of the latest-location query: succeeds exactly when
    /// the stored device's beacon id equals the requested one; the field
    /// values themselves are read from the record by the caller.
    pub fn get_latest_location(&self, beacon_id: &String) -> (r: Result<(), DeviceTrackerError>)
        ensures
            self.device.beacon_id@ == beacon_id@ ==> r == Ok::<(), DeviceTrackerError>(()),
            self.device.beacon_id@ != beacon_id@ ==> r == Err::<(), DeviceTrackerError>(
                DeviceTrackerError::DeviceNotFound,
            ),
    {
        if self.device.beacon_id == *beacon_id {
            Ok(())
        } else {
            Err(DeviceTrackerError::DeviceNotFound)
        }
    }

    /// The history query is a validation-only stub by design: it checks
    /// the time range and returns no data.
    #[allow(unused_variables)]
    pub fn get_location_history(
        &self,
        beacon_id: &String,
        start_time: i64,
        end_time: i64,
    ) -> (r: Result<(), DeviceTrackerError>)
        ensures
            start_time <= end_time ==> r == Ok::<(), DeviceTrackerError>(()),
            start_time > end_time ==> r == Err::<(), DeviceTrackerError>(
                DeviceTrackerError::InvalidTimeRange,
            ),
    {
        if start_time <= end_time {
            Ok(())
        } else {
            Err(DeviceTrackerError::InvalidTimeRange)
        }
    }

    /// The index of the given scanner's slot, if it has one.
    fn find_slot(&self, scanner: &Vec<u8>) -> (r: Option<usize>)
        ensures
            match r {
                Some(i) => i < self.slots@.len()
                    && self.slots@[i as int].location.scanner@ == scanner@,
                None => !self.has_slot_for(scanner@),
            },
    {
        let mut i: usize = 0;
        while i < self.slots.len()
            invariant
                i <= self.slots@.len(),
                forall|j: int|
                    0 <= j < i ==> (#[trigger] self.slots@[j]).location.scanner@ != scanner@,
            decreases self.slots@.len() - i,
        {
            if key_eq(&self.slots[i].location.scanner, scanner) {
                return Some(i);
            }
            i += 1;
        }
        None
    }
}

/// After a recorded sighting, the reporting scanner owns a slot that
/// holds exactly that sighting's values.
pub proof fn lemma_sighting_slot_exists(
    pre: DeviceTracker,
    post: DeviceTracker,
    beacon_id: Seq<char>,
    latitude: int,
    longitude: int,
    timestamp: int,
    scanner: Seq<u8>,
)
    requires
        DeviceTracker::records_sighting(pre, post, beacon_id, latitude, longitude, timestamp, scanner),
    ensures
        post.has_sighting_slot(beacon_id, latitude, longitude, timestamp, scanner),
        post.has_slot_for(scanner),
{
    if pre.has_slot_for(scanner) {
        let i = choose|i: int|
            #![auto]
            0 <= i < pre.slots@.len() && pre.slots@[i].location.scanner@ == scanner
                && location_is_sighting(
                post.slots@[i].location,
                beacon_id,
                latitude,
                longitude,
                timestamp,
                scanner,
            ) && (forall|j: int|
                0 <= j < pre.slots@.len() && j != i ==> post.slots@[j] == pre.slots@[j]);
        assert(location_is_sighting(
            post.slots@[i].location,
            beacon_id,
            latitude,
            longitude,
            timestamp,
            scanner,
        ));
        assert(post.slots@[i].location.scanner@ == scanner);
    } else {
        let n = post.slots@.len() - 1;
        assert(location_is_sighting(
            post.slots@[n].location,
            beacon_id,
            latitude,
            longitude,
            timestamp,
            scanner,
        ));
        assert(post.slots@[n].location.scanner@ == scanner);
    }
}

/// Overwrite semantics: after two sequential sightings from the same
/// scanner, no slot was added by the second, exactly one slot belongs to
/// that scanner, and it holds the second sighting's values — no history
/// is retained.
pub proof fn lemma_same_scanner_overwrites(
    t0: DeviceTracker,
    t1: DeviceTracker,
    t2: DeviceTracker,
    beacon_a: Seq<char>,
    lat_a: int,
    lon_a: int,
    ts_a: int,
    beacon_b: Seq<char>,
    lat_b: int,
    lon_b: int,
    ts_b: int,
    scanner: Seq<u8>,
)
    requires
        t2.wf(),
        DeviceTracker::records_sighting(t0, t1, beacon_a, lat_a, lon_a, ts_a, scanner),
        DeviceTracker::records_sighting(t1, t2, beacon_b, lat_b, lon_b, ts_b, scanner),
    ensures
        t2.slots@.len() == t1.slots@.len(),
        t2.has_sighting_slot(beacon_b, lat_b, lon_b, ts_b, scanner),
        forall|i: int, j: int|
            0 <= i < t2.slots@.len() && 0 <= j < t2.slots@.len() && (#[trigger] t2.slots@[i]).location.scanner@
                == scanner && (#[trigger] t2.slots@[j]).location.scanner@ == scanner ==> i == j,
{
    lemma_sighting_slot_exists(t0, t1, beacon_a, lat_a, lon_a, ts_a, scanner);
    assert(t1.has_slot_for(scanner));
    lemma_sighting_slot_exists(t1, t2, beacon_b, lat_b, lon_b, ts_b, scanner);
    assert forall|i: int, j: int|
        0 <= i < t2.slots@.len() && 0 <= j < t2.slots@.len() && (#[trigger] t2.slots@[i]).location.scanner@
            == scanner && (#[trigger] t2.slots@[j]).location.scanner@ == scanner implies i == j by {
        if i < j {
            assert(t2.slots@[i].location.scanner@ != t2.slots@[j].location.scanner@);
        } else if j < i {
            assert(t2.slots@[j].location.scanner@ != t2.slots@[i].location.scanner@);
        }
    }
}

/// Independent slots: after sightings from two distinct scanners, each
/// scanner owns a slot holding its own sighting — the later call does not
/// disturb the earlier scanner's record — while the device summary
/// reflects only the later call.
pub proof fn lemma_distinct_scanners_independent(
    t0: DeviceTracker,
    t1: DeviceTracker,
    t2: DeviceTracker,
    beacon_a: Seq<char>,
    lat_a: int,
    lon_a: int,
    ts_a: int,
    scanner_a: Seq<u8>,
    beacon_b: Seq<char>,
    lat_b: int,
    lon_b: int,
    ts_b: int,
    scanner_b: Seq<u8>,
)
    requires
        scanner_a != scanner_b,
        DeviceTracker::records_sighting(t0, t1, beacon_a, lat_a, lon_a, ts_a, scanner_a),
        DeviceTracker::records_sighting(t1, t2, beacon_b, lat_b, lon_b, ts_b, scanner_b),
    ensures
        t2.has_sighting_slot(beacon_a, lat_a, lon_a, ts_a, scanner_a),
        t2.has_sighting_slot(beacon_b, lat_b, lon_b, ts_b, scanner_b),
        t2.device.beacon_id@ == beacon_b,
        t2.device.last_update == ts_b,
        t2.device.last_scanner@ == scanner_b,
{
    lemma_sighting_slot_exists(t0, t1, beacon_a, lat_a, lon_a, ts_a, scanner_a);
    lemma_sighting_slot_exists(t1, t2, beacon_b, lat_b, lon_b, ts_b, scanner_b);
    let i = choose|i: int|
        0 <= i < t1.slots@.len() && location_is_sighting(
            (#[trigger] t1.slots@[i]).location,
            beacon_a,
            lat_a,
            lon_a,
            ts_a,
            scanner_a,
        );
    if t1.has_slot_for(scanner_b) {
        let k = choose|k: int|
            #![auto]
            0 <= k < t1.slots@.len() && t1.slots@[k].location.scanner@ == scanner_b
                && location_is_sighting(
                t2.slots@[k].location,
                beacon_b,
                lat_b,
                lon_b,
                ts_b,
                scanner_b,
            ) && (forall|j: int|
                0 <= j < t1.slots@.len() && j != k ==> t2.slots@[j] == t1.slots@[j]);
        assert(t1.slots@[i].location.scanner@ == scanner_a);
        assert(k != i);
        assert(t2.slots@[i] == t1.slots@[i]);
        assert(location_is_sighting(
            t2.slots@[i].location,
            beacon_a,
            lat_a,
            lon_a,
            ts_a,
            scanner_a,
        ));
    } else {
        assert(t2.slots@.subrange(0, t1.slots@.len() as int)[i] == t2.slots@[i]);
        assert(t2.slots@[i] == t1.slots@[i]);
        assert(location_is_sighting(
            t2.slots@[i].location,
            beacon_a,
            lat_a,
            lon_a,
            ts_a,
            scanner_a,
        ));
    }
}

} // verus!
