//! Wall-clock reads and timestamp range checks.
use vstd::prelude::*;

verus! {

/// Smallest Unix timestamp `time::OffsetDateTime` represents (year -9999).
pub const MIN_TIMESTAMP: i64 = -377705116800;

/// Largest Unix timestamp `time::OffsetDateTime` represents (end of year 9999).
pub const MAX_TIMESTAMP: i64 = 253402300799;

/// The text of the error `time::OffsetDateTime::from_unix_timestamp` gives
/// for a timestamp it rejects.
pub uninterp spec fn timestamp_error_text(secs: i64) -> Seq<char>;

/// `time::OffsetDateTime::from_unix_timestamp`, kept only for whether it
/// accepts `secs`, with the text of the crate's error otherwise. The crate
/// accepts every timestamp from the year -9999 to the end of the year 9999;
/// with its `large-dates` feature it accepts a wider range too, so rejection
/// outside that range is not stated.
#[verifier::external_body]
pub(crate) fn check_unix_timestamp(secs: i64) -> (r: Result<(), String>)
    ensures
        MIN_TIMESTAMP <= secs <= MAX_TIMESTAMP ==> r is Ok,
        r matches Err(m) ==> m@ == timestamp_error_text(secs),
{
    time::OffsetDateTime::from_unix_timestamp(secs).map(|_| ()).map_err(|e| e.to_string())
}

/// `SystemTime::now()` as whole seconds since the Unix epoch. The value
/// depends on the machine's clock, so nothing is stated of it; the error is
/// the clock's message when it reads before the epoch.
#[verifier::external_body]
pub(crate) fn unix_now() -> (r: Result<u64, String>) {
    std::time::SystemTime::now().duration_since(std::time::UNIX_EPOCH).map(|d| d.as_secs()).map_err(
        |e| e.to_string(),
    )
}

} // verus!
