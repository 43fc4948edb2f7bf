//! The wall clock, read since the Unix epoch.
use vstd::prelude::*;

verus! {

/// Reads the system clock (`SystemTime::elapsed` on `UNIX_EPOCH`) in whole
/// seconds. Nothing is claimed of the value: it depends on the machine and the
/// moment. A clock set before 1970 reads as 0.
#[verifier::external_body]
pub(crate) fn now_secs() -> u64 {
    match std::time::UNIX_EPOCH.elapsed() {
        Ok(d) => d.as_secs(),
        Err(_) => 0,
    }
}

/// Reads the system clock (`SystemTime::elapsed` on `UNIX_EPOCH`) in whole
/// milliseconds. Nothing is claimed of the value. A clock set before 1970
/// reads as 0.
#[verifier::external_body]
pub(crate) fn now_millis() -> u64 {
    match std::time::UNIX_EPOCH.elapsed() {
        Ok(d) => d.as_millis() as u64,
        Err(_) => 0,
    }
}

/// The longest span a `std::time::Duration` holds, in nanoseconds:
/// `u64::MAX` seconds and 999,999,999 nanoseconds (`Duration::MAX`).
pub open spec fn duration_max_nanos() -> nat {
    18_446_744_073_709_551_615 * 1_000_000_000 + 999_999_999
}

/// Reads the system clock (`SystemTime::elapsed` on `UNIX_EPOCH`) in whole
/// nanoseconds. What is claimed is only the range of `Duration::as_nanos`:
/// the reading is not negative and no more than the longest `Duration`. A
/// clock set before 1970 reads as 0.
#[verifier::external_body]
pub(crate) fn now_nanos() -> (r: i128)
    ensures
        0 <= r <= duration_max_nanos(),
{
    match std::time::UNIX_EPOCH.elapsed() {
        Ok(d) => d.as_nanos() as i128,
        Err(_) => 0,
    }
}

} // verus!
