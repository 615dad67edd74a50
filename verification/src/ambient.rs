//! What the library takes from its surroundings: random numbers and the time.
//!
//! Nothing here is proved. Each function makes one call into another crate, and its contract
//! says what that crate's source shows of every result.

use rand::Rng;
use vstd::prelude::*;

verus! {

/// A number drawn at random from 0 up to, and without, `bound`.
///
/// Calls `rand::thread_rng().gen_range(0..bound)`. `gen_range` panics on an empty range, which
/// the precondition leaves out; `thread_rng` panics where the system's source of randomness
/// cannot be read. The contract claims only that the number lies in the range handed to
/// `gen_range`.
#[verifier::external_body]
pub(crate) fn draw_below(bound: i64) -> (r: i64)
    requires
        0 < bound,
    ensures
        0 <= r < bound,
{
    rand::thread_rng().gen_range(0..bound)
}

/// The seconds since 1970-01-01 00:00:00 UTC.
///
/// Calls `chrono::Utc::now().timestamp()`. `now` panics where the system's clock stands before
/// 1970. The contract claims what chrono's source shows of the timestamp of every date that it
/// builds: chrono keeps the year between -262143 and 262142, so the day's number from the
/// epoch stays within 262144 years of 366 days and the 719163 days of the epoch itself, and the
/// seconds within 8.4 * 10^12 in either direction.
#[verifier::external_body]
pub(crate) fn unix_seconds() -> (r: i64)
    ensures
        -8_400_000_000_000 < r < 8_400_000_000_000,
{
    chrono::Utc::now().timestamp()
}

/// The milliseconds since 1970-01-01 00:00:00 UTC.
///
/// Calls `chrono::Utc::now().timestamp_millis()`. `now` panics where the system's clock stands
/// before 1970. Nothing is claimed of the number.
#[verifier::external_body]
pub(crate) fn unix_millis() -> (r: i64) {
    chrono::Utc::now().timestamp_millis()
}

} // verus!
