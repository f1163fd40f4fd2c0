//! Readings of the system clock.

use vstd::prelude::*;

verus! {

/// Whole seconds since the Unix epoch, from `std::time::SystemTime::now`
/// (zero if the clock reads before the epoch). Nothing is promised of the
/// value: it is whatever the machine's clock says.
#[verifier::external_body]
pub(crate) fn now_unix() -> u64 {
    std::time::SystemTime::now()
        .duration_since(std::time::UNIX_EPOCH)
        .unwrap_or_default()
        .as_secs()
}

/// Milliseconds since the Unix epoch, from `std::time::SystemTime::now`
/// (zero if the clock reads before the epoch). Nothing is promised of the
/// value.
#[verifier::external_body]
pub(crate) fn now_millis() -> u64 {
    std::time::SystemTime::now()
        .duration_since(std::time::UNIX_EPOCH)
        .unwrap_or_default()
        .as_millis() as u64
}

} // verus!
