//! The wall clock, read in milliseconds.
use vstd::prelude::*;

verus! {

/// Milliseconds since the Unix epoch on the wall clock
/// (`chrono::Utc::now().timestamp_millis()`). Nothing is promised of the
/// reading: it is whatever the system clock says, and may go backwards.
#[verifier::external_body]
fn utc_millis() -> i64 {
    chrono::Utc::now().timestamp_millis()
}

/// The current time in milliseconds, a clock before 1970 read as zero.
pub fn now_millis() -> (t: u64) {
    let t = utc_millis();
    if t < 0 {
        0
    } else {
        t as u64
    }
}

} // verus!
