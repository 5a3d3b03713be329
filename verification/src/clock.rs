//! Time keeping. The library measures every instant and every duration in
//! whole milliseconds, held as `u64`.
use vstd::prelude::*;

verus! {

/// The milliseconds that have passed from `since` to `now`; zero when `now`
/// does not lie after `since` (the clock never reports a negative gap).
pub open spec fn elapsed_ms(since: u64, now: u64) -> u64 {
    if now >= since {
        (now - since) as u64
    } else {
        0
    }
}

/// A source of the current time for the watchdog.
///
/// Implementations report milliseconds since an arbitrary fixed point; the
/// watchdog only ever compares differences of these values.
pub trait Clock {
    /// The current time, in milliseconds.
    fn now(&self) -> u64;
}

/// `now` is a time that `clock` may report: a possible result of
/// `clock.now()`.
pub open spec fn is_reading<C: Clock>(clock: C, now: u64) -> bool {
    call_ensures(C::now, (&clock,), now)
}

/// The duration elapsed from `instant` until `now`, saturating at zero.
pub fn elapsed_since(now: u64, instant: u64) -> (elapsed: u64)
    ensures
        elapsed == elapsed_ms(instant, now),
{
    now.saturating_sub(instant)
}

/// Whether at least `duration` has passed from `instant` until `now`.
pub fn has_elapsed(now: u64, instant: u64, duration: u64) -> (passed: bool)
    ensures
        passed == (elapsed_ms(instant, now) >= duration),
{
    elapsed_since(now, instant) >= duration
}

/// The instant of the check that follows a check at `check_time`, one
/// `interval` later; `None` when that instant does not fit in a `u64`.
pub fn next_check_time(check_time: u64, interval: u64) -> (next: Option<u64>)
    ensures
        next == (if check_time + interval <= u64::MAX {
            Some((check_time + interval) as u64)
        } else {
            None::<u64>
        }),
{
    check_time.checked_add(interval)
}

/// A clock backed by the Embassy time driver.
pub struct EmbassyClock;

impl Clock for EmbassyClock {
    fn now(&self) -> u64 {
        embassy_now_millis()
    }
}

/// Calls `embassy_time::Instant::now` and reads the instant as whole
/// milliseconds since boot with `Instant::as_millis`. Nothing is claimed of
/// the value: it is the time at which the call is made.
#[verifier::external_body]
fn embassy_now_millis() -> u64 {
    embassy_time::Instant::now().as_millis()
}

} // verus!
