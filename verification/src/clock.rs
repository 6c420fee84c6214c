use std::time::{SystemTime, UNIX_EPOCH};
use vstd::prelude::*;

verus! {

/// Whole seconds elapsed since the Unix epoch on the system clock, 0 when the
/// clock reads before the epoch. `SystemTime::now` reads the machine's clock, so
/// nothing is promised about the value.
#[verifier::external_body]
pub(crate) fn now_unix_secs() -> u64 {
    SystemTime::now().duration_since(UNIX_EPOCH).map(|d| d.as_secs()).unwrap_or(0)
}

/// Milliseconds elapsed since the Unix epoch on the system clock (saturating at
/// `u64::MAX`), 0 when the clock reads before the epoch. The value comes from the
/// machine's clock, so nothing is promised about it.
#[verifier::external_body]
pub(crate) fn now_millis() -> u64 {
    SystemTime::now().duration_since(UNIX_EPOCH).map(|d| d.as_millis().min(u64::MAX as u128) as u64).unwrap_or(0)
}

} // verus!
