use vstd::prelude::*;

verus! {

/// Relies on chrono::Utc::now for the system clock's seconds since the
/// Unix epoch. Nothing is promised of the reading; the call itself does
/// not return on a clock set before the epoch.
#[verifier::external_body]
fn now_seconds() -> i64 {
    chrono::Utc::now().timestamp()
}

/// The current time as a Unix timestamp. Nothing can be promised of the
/// value: callers hand it to the time-taking operations, which are exact
/// in it. The cast is guarded so that a negative reading, should the clock
/// source ever yield one, maps to zero rather than wrapping.
pub fn current_timestamp() -> u64 {
    let t = now_seconds();
    if t >= 0 {
        t as u64
    } else {
        0
    }
}

} // verus!
