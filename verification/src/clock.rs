use vstd::prelude::*;

verus! {

/// Relies on std::time::SystemTime::now: the current wall-clock time, read
/// once and converted to whole seconds since the Unix epoch. The read is
/// total on every clock state: a clock before the epoch yields the negated
/// distance to it (the `Err` branch of `duration_since`), and a distance
/// beyond `i64` saturates. Nothing is promised of the value — callers state
/// what holds whatever time comes back.
#[verifier::external_body]
pub(crate) fn now_timestamp() -> i64 {
    match std::time::SystemTime::now().duration_since(std::time::UNIX_EPOCH) {
        Ok(ahead) => i64::try_from(ahead.as_secs()).unwrap_or(i64::MAX),
        Err(behind) => i64::try_from(behind.duration().as_secs()).map_or(i64::MIN, |s| -s),
    }
}

} // verus!
