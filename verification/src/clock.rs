//! The wall clock. Operations take an explicit reading so that their
//! contracts are exact; the service entry points draw one here.

use vstd::prelude::*;

verus! {

/// Relies on chrono::Utc::now: the current wall-clock time as Unix
/// seconds. Nothing is promised of the reading.
#[verifier::external_body]
pub(crate) fn now_unix_seconds() -> i64 {
    chrono::Utc::now().timestamp()
}

/// A clock reading clamped into the range the store operations accept.
pub fn clamped_now() -> (t: i64)
    ensures
        0 <= t <= i64::MAX - 86400,
{
    let t = now_unix_seconds();
    if t < 0 {
        0
    } else if t > i64::MAX - 86400 {
        i64::MAX - 86400
    } else {
        t
    }
}

} // verus!
