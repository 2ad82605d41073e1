//! Clocks and durations from std. Readings of the clocks depend on the time at
//! which they are taken, so nothing is promised of their values; durations are
//! described through their length in nanoseconds.
use vstd::prelude::*;
use std::time::{Duration, Instant, SystemTime, UNIX_EPOCH};

verus! {

#[verifier::external_type_specification]
#[verifier::external_body]
pub struct ExInstant(Instant);

/// `Instant` is `Copy`; its `clone` returns the same instant.
pub assume_specification[ <Instant as Clone>::clone ](i: &Instant) -> (r: Instant)
    ensures
        r == *i,
;

/// `Duration` is `Copy`; its `clone` returns the same duration.
pub assume_specification[ <Duration as Clone>::clone ](d: &Duration) -> (r: Duration)
    ensures
        r == *d,
;

/// The length of `d` in whole nanoseconds, as `Duration::as_nanos` returns it.
pub uninterp spec fn duration_as_nanos_spec(d: Duration) -> u128;

/// `Duration::as_nanos`: the duration's length in nanoseconds.
#[verifier::external_body]
pub fn duration_as_nanos(d: Duration) -> (n: u128)
    ensures
        n == duration_as_nanos_spec(d),
{
    d.as_nanos()
}

/// `Duration::new`: `secs` seconds plus `nanos` nanoseconds; std panics when the
/// carry of `nanos` into the seconds overflows, which `requires` excludes.
#[verifier::external_body]
pub fn duration_new(secs: u64, nanos: u32) -> (d: Duration)
    requires
        secs + nanos / 1_000_000_000 <= u64::MAX,
    ensures
        duration_as_nanos_spec(d) == secs * 1_000_000_000 + nanos,
{
    Duration::new(secs, nanos)
}

/// `Duration::from_micros`: `us` microseconds.
#[verifier::external_body]
pub fn duration_from_micros(us: u64) -> (d: Duration)
    ensures
        duration_as_nanos_spec(d) == us * 1000,
{
    Duration::from_micros(us)
}

/// `Duration::from_millis`: `ms` milliseconds.
#[verifier::external_body]
pub fn duration_from_millis(ms: u64) -> (d: Duration)
    ensures
        duration_as_nanos_spec(d) == ms * 1_000_000,
{
    Duration::from_millis(ms)
}

#[verifier::external_type_specification]
#[verifier::external_body]
pub struct ExSystemTime(SystemTime);

/// `Duration::as_secs`: the whole seconds of the duration.
#[verifier::external_body]
pub fn duration_as_secs(d: Duration) -> (s: u64)
    ensures
        s == duration_as_nanos_spec(d) / 1_000_000_000,
{
    d.as_secs()
}

/// `Duration::subsec_nanos`: the nanoseconds beyond the whole seconds.
#[verifier::external_body]
pub fn duration_subsec_nanos(d: Duration) -> (n: u32)
    ensures
        n == duration_as_nanos_spec(d) % 1_000_000_000,
{
    d.subsec_nanos()
}

/// `SystemTime::now`: a reading of the wall clock; nothing is promised of it.
#[verifier::external_body]
pub fn system_time_now() -> (t: SystemTime) {
    SystemTime::now()
}

/// `SystemTime::duration_since(UNIX_EPOCH)`: the time since the Unix epoch, or
/// `None` where `t` lies before it (the one case in which the call fails).
/// Which case holds depends on the reading, so nothing is stated of it.
#[verifier::external_body]
pub fn since_unix_epoch(t: SystemTime) -> (d: Option<Duration>) {
    match t.duration_since(UNIX_EPOCH) {
        Ok(d) => Some(d),
        Err(_) => None,
    }
}

/// The wall clock as seconds and subsecond nanoseconds since the Unix epoch,
/// or `None` where the clock reads before 1970.
pub fn wall_clock_now() -> (r: Option<(u64, u32)>)
    ensures
        r matches Some(t) ==> t.1 < 1_000_000_000,
{
    match since_unix_epoch(system_time_now()) {
        Some(d) => Some((duration_as_secs(d), duration_subsec_nanos(d))),
        None => None,
    }
}

/// A wall-clock reading as seconds and nanoseconds; a clock that reads before
/// 1970 counts as the epoch itself, `(0, 0)`.
pub fn reading_or_epoch(r: Option<(u64, u32)>) -> (t: (u64, u32))
    ensures
        t == (match r {
            Some(x) => x,
            None => (0u64, 0u32),
        }),
{
    match r {
        Some(x) => x,
        None => (0, 0),
    }
}

/// The wall clock now as seconds and nanoseconds since the epoch; a clock that
/// reads before 1970 gives `(0, 0)`.
pub fn wall_clock_seconds() -> (t: (u64, u32))
    ensures
        t.1 < 1_000_000_000,
{
    reading_or_epoch(wall_clock_now())
}

/// `Instant::now`: a reading of the monotonic clock.
#[verifier::external_body]
pub fn instant_now() -> (i: Instant) {
    Instant::now()
}

/// `Instant::elapsed`: time since `i`, read from the clock at the call.
#[verifier::external_body]
pub fn instant_elapsed(i: &Instant) -> (d: Duration) {
    i.elapsed()
}

/// `Instant::duration_since`: time from `earlier` to `later`, zero when
/// `earlier` is the later of the two. Of two readings only their identity is
/// known here, so what is stated is that no time lies between an instant and
/// itself; other values depend on when the readings were taken.
#[verifier::external_body]
pub fn instant_duration_since(later: &Instant, earlier: Instant) -> (d: Duration)
    ensures
        *later == earlier ==> duration_as_nanos_spec(d) == 0,
{
    later.duration_since(earlier)
}

} // verus!
