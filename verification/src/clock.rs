//! The wall clock, as a Unix timestamp in seconds.

use vstd::prelude::*;

verus! {

/// Relies on chrono's `Utc::now` / `DateTime::timestamp`: the clock reading
/// as seconds since the Unix epoch.  Nothing is assumed of the value.
#[verifier::external_body]
fn now_unix() -> i64 {
    chrono::Utc::now().timestamp()
}

/// The present instant as a nonnegative Unix timestamp; a clock reading
/// before the epoch is clamped to the epoch.
pub fn current_time() -> (t: i64)
    ensures
        0 <= t,
{
    let t: i64 = now_unix();
    if t < 0 {
        0
    } else {
        t
    }
}

} // verus!
