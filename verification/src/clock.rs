//! The wall clock, read at the library's edge.

use vstd::prelude::*;

verus! {

/// Relies on std::time::SystemTime::now and duration_since: seconds since the
/// Unix epoch. Nothing is promised of the value; callers that need
/// monotonicity clamp it against their own stored timestamps.
#[verifier::external_body]
pub fn now_secs() -> u64 {
    match std::time::SystemTime::now().duration_since(std::time::UNIX_EPOCH) {
        Ok(d) => d.as_secs(),
        Err(_) => 0,
    }
}

/// The later of the two timestamps; used to keep stored clocks monotonic
/// whatever the wall clock returned.
pub fn clamp_timestamp(now: u64, floor: u64) -> (r: u64)
    ensures
        r >= floor,
        r >= now,
        r == now || r == floor,
{
    if now >= floor {
        now
    } else {
        floor
    }
}

} // verus!
