//! A keyed record store for geolocation sightings of beacon-identified
//! devices. Each sighting is reported by a scanner; the store keeps one
//! location slot per (device, scanner) pair, at a storage address derived
//! from the two keys, and one "latest known location" summary per device.

pub mod address;
pub mod error;
pub mod records;
pub mod tracker;
