use device_tracker::address::derive_location_address;
use device_tracker::error::DeviceTrackerError;
use device_tracker::records::key_eq;
use device_tracker::tracker::DeviceTracker;

fn key(b: u8) -> Vec<u8> {
    vec![b; 32]
}

fn tracker() -> DeviceTracker {
    DeviceTracker::new(key(1), String::from("dev-42"), 0, key(0))
}

#[test]
fn invalid_latitude_rejected_and_nothing_written() {
    let mut t = tracker();
    let r = t.record_location(&key(2), String::from("b-1"), 90_000_001, 0, 10);
    assert_eq!(r, Err(DeviceTrackerError::InvalidLatitude));
    let r = t.record_location(&key(2), String::from("b-1"), -90_000_001, 0, 10);
    assert_eq!(r, Err(DeviceTrackerError::InvalidLatitude));
    assert_eq!(t.slots.len(), 0);
    assert_eq!(t.device.beacon_id, "dev-42");
    assert_eq!(t.device.last_update, 0);
    assert_eq!(t.device.last_scanner, key(0));
}

#[test]
fn invalid_longitude_rejected_and_nothing_written() {
    let mut t = tracker();
    let r = t.record_location(&key(2), String::from("b-1"), 0, 180_000_001, 10);
    assert_eq!(r, Err(DeviceTrackerError::InvalidLongitude));
    let r = t.record_location(&key(2), String::from("b-1"), 0, -180_000_001, 10);
    assert_eq!(r, Err(DeviceTrackerError::InvalidLongitude));
    assert_eq!(t.slots.len(), 0);
    assert_eq!(t.device.beacon_id, "dev-42");
    assert_eq!(t.device.last_update, 0);
}

#[test]
fn boundary_coordinates_accepted() {
    let mut t = tracker();
    assert_eq!(t.record_location(&key(2), String::from("b-1"), 90_000_000, 180_000_000, 1), Ok(()));
    assert_eq!(t.record_location(&key(2), String::from("b-1"), -90_000_000, -180_000_000, 2), Ok(()));
    assert_eq!(t.slots.len(), 1);
    assert_eq!(t.slots[0].location.latitude, -90_000_000);
    assert_eq!(t.slots[0].location.longitude, -180_000_000);
}

#[test]
fn same_scanner_overwrites_single_slot() {
    let mut t = tracker();
    let scanner = key(2);
    assert_eq!(t.record_location(&scanner, String::from("b-1"), 1_000_000, 2_000_000, 10), Ok(()));
    assert_eq!(t.record_location(&scanner, String::from("b-2"), 3_000_000, 4_000_000, 20), Ok(()));
    assert_eq!(t.slots.len(), 1);
    assert_eq!(t.slots[0].location.beacon_id, "b-2");
    assert_eq!(t.slots[0].location.latitude, 3_000_000);
    assert_eq!(t.slots[0].location.longitude, 4_000_000);
    assert_eq!(t.slots[0].location.timestamp, 20);
    assert_eq!(t.slots[0].location.scanner, scanner);
    assert_eq!(t.device.beacon_id, "b-2");
    assert_eq!(t.device.last_update, 20);
    assert_eq!(t.device.last_scanner, scanner);
}

#[test]
fn distinct_scanners_get_distinct_slots() {
    let mut t = tracker();
    let scanner_a = key(2);
    let scanner_b = key(3);
    assert_eq!(t.record_location(&scanner_a, String::from("b-1"), 1_000_000, 2_000_000, 10), Ok(()));
    assert_eq!(t.record_location(&scanner_b, String::from("b-2"), 3_000_000, 4_000_000, 20), Ok(()));
    assert_eq!(t.slots.len(), 2);
    assert_eq!(t.slots[0].location.scanner, scanner_a);
    assert_eq!(t.slots[0].location.latitude, 1_000_000);
    assert_eq!(t.slots[1].location.scanner, scanner_b);
    assert_eq!(t.slots[1].location.latitude, 3_000_000);
    assert_ne!(t.slots[0].address, t.slots[1].address);
    assert_eq!(t.device.beacon_id, "b-2");
    assert_eq!(t.device.last_update, 20);
    assert_eq!(t.device.last_scanner, scanner_b);
}

#[test]
fn slot_addresses_follow_the_deriver() {
    let mut t = tracker();
    let scanner = key(2);
    assert_eq!(t.record_location(&scanner, String::from("b-1"), 0, 0, 10), Ok(()));
    let expected = derive_location_address(&key(1), &scanner);
    assert_eq!(t.slots[0].address, expected);
}

#[test]
fn get_latest_location_matches_on_equal_beacon_id() {
    let t = tracker();
    assert_eq!(t.get_latest_location(&String::from("dev-42")), Ok(()));
    assert_eq!(t.get_latest_location(&String::from("dev-43")), Err(DeviceTrackerError::DeviceNotFound));
    assert_eq!(t.get_latest_location(&String::from("")), Err(DeviceTrackerError::DeviceNotFound));
}

#[test]
fn get_latest_location_tracks_reassigned_beacon_id() {
    let mut t = tracker();
    assert_eq!(t.record_location(&key(2), String::from("b-9"), 0, 0, 10), Ok(()));
    assert_eq!(t.get_latest_location(&String::from("b-9")), Ok(()));
    assert_eq!(t.get_latest_location(&String::from("dev-42")), Err(DeviceTrackerError::DeviceNotFound));
}

#[test]
fn history_validates_time_range_only() {
    let t = tracker();
    assert_eq!(t.get_location_history(&String::from("dev-42"), 100, 50), Err(DeviceTrackerError::InvalidTimeRange));
    assert_eq!(t.get_location_history(&String::from("dev-42"), 50, 100), Ok(()));
    assert_eq!(t.get_location_history(&String::from("dev-42"), 50, 50), Ok(()));
    assert_eq!(t.slots.len(), 0);
}

#[test]
fn derivation_is_deterministic() {
    let a = derive_location_address(&key(1), &key(2));
    let b = derive_location_address(&key(1), &key(2));
    assert_eq!(a, b);
    assert_eq!(a.len(), 32);
}

#[test]
fn derivation_separates_scanners_and_devices() {
    let same_device_other_scanner = derive_location_address(&key(1), &key(3));
    let base = derive_location_address(&key(1), &key(2));
    let other_device_same_scanner = derive_location_address(&key(4), &key(2));
    assert_ne!(base, same_device_other_scanner);
    assert_ne!(base, other_device_same_scanner);
    assert_ne!(base, key(1));
    assert_ne!(base, key(2));
}

#[test]
fn key_eq_compares_bytes() {
    assert!(key_eq(&key(5), &key(5)));
    assert!(!key_eq(&key(5), &key(6)));
    assert!(!key_eq(&key(5), &vec![5u8; 31]));
    assert!(key_eq(&Vec::new(), &Vec::new()));
}

#[test]
fn error_messages_match_the_kinds() {
    assert_eq!(DeviceTrackerError::InvalidLatitude.message(), "Invalid latitude value");
    assert_eq!(DeviceTrackerError::InvalidLongitude.message(), "Invalid longitude value");
    assert_eq!(DeviceTrackerError::DeviceNotFound.message(), "Device not found");
    assert_eq!(DeviceTrackerError::InvalidTimeRange.message(), "Invalid time range");
}

#[test]
fn microdegree_scaling_round_trips_a_degree_reading() {
    let latitude_degrees: f64 = 37.421998;
    let longitude_degrees: f64 = -122.084058;
    let lat_micro = (latitude_degrees * 1e6).round() as i64;
    let lon_micro = (longitude_degrees * 1e6).round() as i64;
    let mut t = tracker();
    assert_eq!(t.record_location(&key(2), String::from("b-1"), lat_micro, lon_micro, 10), Ok(()));
    assert_eq!(t.slots[0].location.latitude, 37_421_998);
    assert_eq!(t.slots[0].location.longitude, -122_084_058);
}
