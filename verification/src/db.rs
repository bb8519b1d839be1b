//! Time stamps as the store keeps them: milliseconds since the Unix epoch, in an `i64`.

use vstd::prelude::*;

verus! {

/// Milliseconds elapsed since the Unix epoch by the system clock
/// (`SystemTime::now().duration_since(UNIX_EPOCH)`, then `as_millis`); `None` when the
/// clock stands before the epoch. It reads the clock, so nothing is promised of it.
#[verifier::external_body]
fn clock_millis() -> (r: Option<u128>) {
    std::time::SystemTime::now().duration_since(std::time::UNIX_EPOCH).ok().map(|d| d.as_millis())
}

/// The stored form of a clock reading: its milliseconds, truncated to an `i64` as the
/// store keeps them, or `0` when the clock stood before the epoch.
pub fn timestamp_of(millis: Option<u128>) -> (r: i64)
    ensures
        match millis {
            Some(ms) => r == ms as i64,
            None => r == 0,
        },
{
    match millis {
        Some(ms) => ms as i64,
        None => 0,
    }
}

/// The current time in milliseconds since the Unix epoch (`0` when the clock stands
/// before the epoch).
pub fn now_ms() -> (r: i64) {
    timestamp_of(clock_millis())
}

} // verus!
