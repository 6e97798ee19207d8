//! The wall clock.

use vstd::prelude::*;

verus! {

/// `std::time::SystemTime::elapsed` of the Unix epoch: the time since then in
/// whole seconds and the nanoseconds left over, `None` while the system clock
/// stands before the epoch. Nothing but the range of the nanoseconds can be
/// said of the reading: it is whatever the system clock shows.
#[verifier::external_body]
fn since_epoch() -> (reading: Option<(u64, u32)>)
    ensures
        reading matches Some((_, nanos)) ==> nanos < 1_000_000_000,
{
    match std::time::UNIX_EPOCH.elapsed() {
        Ok(elapsed) => Some((elapsed.as_secs(), elapsed.subsec_nanos())),
        Err(_) => None,
    }
}

/// Whether a reading of the system clock can be `reading`: it is one that
/// [`since_epoch`] can give.
pub closed spec fn clock_shows(reading: Option<(u64, u32)>) -> bool {
    call_ensures(since_epoch, (), reading)
}

/// The timestamp that a clock reading gives: its whole seconds, and zero for a
/// clock that stands before the epoch.
pub open spec fn seconds_of(reading: Option<(u64, u32)>) -> u64 {
    match reading {
        Some((secs, _)) => secs,
        None => 0,
    }
}

/// The timestamp that a clock reading gives.
pub fn timestamp(reading: Option<(u64, u32)>) -> (seconds: u64)
    ensures
        seconds == seconds_of(reading),
{
    match reading {
        Some((secs, _)) => secs,
        None => 0,
    }
}

/// Unix timestamp in seconds: that of what the system clock shows.
pub fn now() -> (seconds: u64)
    ensures
        exists|reading: Option<(u64, u32)>| #[trigger] clock_shows(reading) && seconds == seconds_of(reading),
{
    let reading = since_epoch();
    assert(clock_shows(reading));
    timestamp(reading)
}

} // verus!
