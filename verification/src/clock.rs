//! The correlation-identifier source: wall-clock milliseconds, read once per
//! inbound request. The value is a best-effort debugging key, not a
//! uniqueness guarantee.
use vstd::prelude::*;

verus! {

/// Relies on `std::time::SystemTime::now` and `duration_since`: milliseconds
/// of wall-clock time since the Unix epoch, or zero should the clock read
/// before the epoch. Nothing is promised of the value: it is a clock reading.
#[verifier::external_body]
fn clock_millis_now() -> u128 {
    let now = std::time::SystemTime::now();
    match now.duration_since(std::time::UNIX_EPOCH) {
        Ok(since_epoch) => since_epoch.as_millis(),
        Err(_) => 0,
    }
}

/// The correlation identifier drawn for one inbound request: the wall clock
/// in milliseconds. A best-effort debugging key, not a uniqueness guarantee:
/// two requests in the same millisecond share it.
pub fn current_timestamp_millis() -> u128 {
    clock_millis_now()
}

} // verus!
