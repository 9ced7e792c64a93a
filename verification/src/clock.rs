//! The wall clock, in milliseconds since the Unix epoch.

use vstd::prelude::*;

verus! {

/// Reads the system clock with `chrono::Local::now` and turns the moment
/// into milliseconds since the Unix epoch with `DateTime::timestamp_millis`.
/// Nothing is claimed of the number: it differs from call to call and would
/// be negative for a moment before the epoch. `chrono` stops the program
/// where the system clock cannot be read as a date.
#[verifier::external_body]
fn system_millis() -> i64 {
    chrono::Local::now().timestamp_millis()
}

/// The timestamp that stands for a clock reading: the reading itself, and
/// for a reading before the epoch the same bits taken as an unsigned number.
pub open spec fn timestamp_of(millis: i64) -> u64 {
    if millis >= 0 {
        millis as u64
    } else {
        (millis + 0x1_0000_0000_0000_0000) as u64
    }
}

/// The timestamp that stands for the clock reading `millis`.
pub fn to_timestamp(millis: i64) -> (timestamp: u64)
    ensures
        timestamp == timestamp_of(millis),
{
    if millis >= 0 {
        millis as u64
    } else {
        let below: u64 = (-(millis + 1)) as u64;
        u64::MAX - below
    }
}

/// The current time as a timestamp.
pub fn now_millis() -> u64 {
    to_timestamp(system_millis())
}

} // verus!
