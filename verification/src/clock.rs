//! The one clock read the library needs: transfer identifiers carry a
//! creation timestamp.

use vstd::prelude::*;

verus! {

/// Relies on `std::time::SystemTime::now`: seconds since the Unix epoch,
/// or zero when the clock reads earlier than the epoch. The value
/// depends on the wall clock, so nothing is promised of it.
#[verifier::external_body]
pub fn chrono_lite_timestamp() -> u64 {
    std::time::SystemTime::now()
        .duration_since(std::time::UNIX_EPOCH)
        .unwrap_or_default()
        .as_secs()
}

} // verus!
