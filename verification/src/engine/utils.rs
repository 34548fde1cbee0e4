//! The clock.

use vstd::prelude::*;

use crate::duration::Duration;

verus! {

/// `std::time::SystemTime`: a reading of the system clock.
#[verifier::external_type_specification]
#[verifier::external_body]
pub struct ExSystemTime(std::time::SystemTime);

/// `std::time::SystemTime::now`: reads the clock; nothing is known of what it shows.
pub assume_specification[ std::time::SystemTime::now ]() -> std::time::SystemTime;

/// `std::time::SystemTime::duration_since` the Unix epoch, as a plain value: nothing where the clock
/// shows an earlier time. A span of `std` has no more seconds than 64 bits count. Which span it is
/// depends on the clock and is not stated.
#[verifier::external_body]
fn since_epoch(t: std::time::SystemTime) -> (r: Option<Duration>)
    ensures
        r matches Some(d) ==> d.spec_as_secs() <= u64::MAX,
{
    match t.duration_since(std::time::SystemTime::UNIX_EPOCH) {
        Ok(d) => Some(Duration { nanos: d.as_nanos() }),
        Err(_) => None,
    }
}

/// The seconds since the Unix epoch, or nothing where the clock shows an earlier time. What the clock
/// shows is not known; `epoch_secs` says what is made of it.
pub fn now_secs() -> (r: Option<u64>) {
    epoch_secs(since_epoch(std::time::SystemTime::now()))
}

/// The whole seconds of a time since the Unix epoch; nothing where there is no such time.
pub fn epoch_secs(since: Option<Duration>) -> (r: Option<u64>)
    requires
        since matches Some(d) ==> d.spec_as_secs() <= u64::MAX,
    ensures
        r == match since {
            Some(d) => Some(d.spec_as_secs() as u64),
            None => None::<u64>,
        },
{
    match since {
        Some(d) => Some(d.as_secs()),
        None => None,
    }
}

} // verus!
