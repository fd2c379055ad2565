//! The clocks: the wall clock, which rooms record their times by, and the
//! monotonic clock, which the rate limiter counts by.
use vstd::prelude::*;

verus! {

/// `std::time::Instant`, a reading of the monotonic clock.
#[verifier::external_type_specification]
#[verifier::external_body]
pub struct ExInstant(std::time::Instant);

/// `SystemTime::elapsed` of `UNIX_EPOCH`, in nanoseconds (0 when the clock
/// reads a time before 1970).  Nothing is stated of the value: it is the
/// time.
#[verifier::external_body]
pub(crate) fn current_time_nanos() -> u128 {
    match std::time::UNIX_EPOCH.elapsed() {
        Ok(d) => d.as_nanos(),
        Err(_) => 0,
    }
}

/// `Instant::now`: a reading of the monotonic clock.  Nothing is stated of
/// it: it is the time.
#[verifier::external_body]
pub(crate) fn monotonic_now() -> std::time::Instant {
    std::time::Instant::now()
}

/// `Instant::elapsed`, in nanoseconds: the monotonic time gone by since
/// `start`.  Nothing is stated of the value: it is the time (by the
/// documentation it never goes back from one call to the next, which
/// nothing here states).
#[verifier::external_body]
pub(crate) fn nanos_since(start: &std::time::Instant) -> u128 {
    start.elapsed().as_nanos()
}

/// Milliseconds in a nanosecond count.
pub open spec fn nanos_to_millis(nanos: u128) -> u128 {
    nanos / 1_000_000
}

/// The wall-clock time in milliseconds since 1970.
pub fn current_time_millis() -> (ms: u128)
    ensures
        exists|n: u128| ms == nanos_to_millis(n),
{
    let n = current_time_nanos();
    let ms = n / 1_000_000;
    assert(ms == nanos_to_millis(n));
    ms
}

} // verus!
