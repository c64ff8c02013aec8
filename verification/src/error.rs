//! The error kinds the tracker surfaces. Every failure aborts the whole
//! operation before any record is touched; none is retryable without
//! corrected input.

use vstd::prelude::*;

verus! {

#[derive(Clone, Copy, Debug, PartialEq, Eq, Structural)]
pub enum DeviceTrackerError {
    /// Latitude outside [-90, 90] degrees.
    InvalidLatitude,
    /// Longitude outside [-180, 180] degrees.
    InvalidLongitude,
    /// The stored device's beacon id does not match the requested one.
    DeviceNotFound,
    /// The requested history range has start_time > end_time.
    InvalidTimeRange,
}

impl DeviceTrackerError {
    /// A short description of the error, in place of a `Display` impl.
    pub fn message(&self) -> (r: &'static str)
        ensures
            *self == DeviceTrackerError::InvalidLatitude ==> r@ == "Invalid latitude value"@,
            *self == DeviceTrackerError::InvalidLongitude ==> r@ == "Invalid longitude value"@,
            *self == DeviceTrackerError::DeviceNotFound ==> r@ == "Device not found"@,
            *self == DeviceTrackerError::InvalidTimeRange ==> r@ == "Invalid time range"@,
    {
        match self {
            DeviceTrackerError::InvalidLatitude => "Invalid latitude value",
            DeviceTrackerError::InvalidLongitude => "Invalid longitude value",
            DeviceTrackerError::DeviceNotFound => "Device not found",
            DeviceTrackerError::InvalidTimeRange => "Invalid time range",
        }
    }
}

} // verus!
