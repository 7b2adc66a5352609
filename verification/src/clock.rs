//! The clock: seconds since the Unix epoch.

use crate::error::{AppError, AppErrorView};
use vstd::prelude::*;

verus! {

/// `SystemTime::elapsed` on `UNIX_EPOCH`: the whole seconds from the epoch to
/// now, or the system's message where the clock reads before the epoch.
/// Nothing is claimed of the reading.
#[verifier::external_body]
fn seconds_since_epoch() -> Result<u64, String> {
    match std::time::UNIX_EPOCH.elapsed() {
        Ok(elapsed) => Ok(elapsed.as_secs()),
        Err(e) => Err(e.to_string()),
    }
}

/// The error for a clock that gave no time.
pub open spec fn clock_failure(reason: Seq<char>) -> AppErrorView {
    AppErrorView::Message("Failed to get system time: "@ + reason)
}

/// What a reading of the clock means as a timestamp.
pub open spec fn timestamp_of(reading: Result<u64, String>) -> Result<i64, AppErrorView> {
    match reading {
        Ok(seconds) => Ok(seconds as i64),
        Err(reason) => Err(clock_failure(reason@)),
    }
}

/// The value of a timestamp or of the error in its place.
pub open spec fn time_view(now: Result<i64, AppError>) -> Result<i64, AppErrorView> {
    match now {
        Ok(t) => Ok(t),
        Err(e) => Err(e@),
    }
}

/// Turns a reading of the clock into a timestamp. A count of seconds beyond
/// `i64::MAX` wraps around.
pub fn timestamp_from(reading: Result<u64, String>) -> (now: Result<i64, AppError>)
    ensures
        time_view(now) == timestamp_of(reading),
{
    match reading {
        Ok(seconds) => Ok(#[verifier::truncate] (seconds as i64)),
        Err(reason) => Err(
            AppError::Message(
                String::from_str("Failed to get system time: ").concat(reason.as_str()),
            ),
        ),
    }
}

/// The current time in seconds since the Unix epoch. Fails with a message
/// where the system clock reads before the epoch.
pub fn get_unix_timestamp() -> (now: Result<i64, AppError>)
    ensures
        now matches Err(e) ==> exists|reason: Seq<char>| e@ == clock_failure(reason),
{
    let reading = seconds_since_epoch();
    let ghost given = reading;
    let now = timestamp_from(reading);
    proof {
        if given is Err {
            assert(now->Err_0@ == clock_failure(given->Err_0@));
        }
    }
    now
}

} // verus!
