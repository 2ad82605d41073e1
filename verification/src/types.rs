//! Canonical message and time types shared by every layer.
use vstd::prelude::*;
use std::time::{Duration, Instant};
use crate::clock::{
    duration_as_nanos, duration_as_nanos_spec, duration_new, instant_duration_since,
    instant_elapsed, instant_now, reading_or_epoch, wall_clock_now,
};

verus! {

/// Wall-clock time since the Unix epoch, for wire and external timestamps.
#[derive(Debug, Clone, Copy, PartialEq, Eq, Hash, Structural)]
pub struct WallTimestamp {
    pub sec: u64,
    pub nanosec: u32,
}

impl WallTimestamp {
    /// The current wall-clock time: `from_reading` of the clock's reading, so
    /// a clock set before 1970 gives the epoch itself; the subsecond part is
    /// below one second.
    pub fn now() -> (t: Self)
        ensures
            t.nanosec < 1_000_000_000,
    {
        Self::from_reading(wall_clock_now())
    }

    /// The timestamp of a wall-clock reading (seconds and nanoseconds since
    /// the epoch), or the epoch itself when the clock read before 1970.
    pub fn from_reading(r: Option<(u64, u32)>) -> (t: Self)
        ensures
            r matches Some(x) ==> t.sec == x.0 && t.nanosec == x.1,
            r is None ==> t.sec == 0 && t.nanosec == 0,
    {
        let (sec, nanosec) = reading_or_epoch(r);
        WallTimestamp { sec, nanosec }
    }

    /// The timestamp as a duration since the epoch.
    pub fn to_duration(&self) -> (d: Duration)
        requires
            self.sec + self.nanosec / 1_000_000_000 <= u64::MAX,
        ensures
            duration_as_nanos_spec(d) == self.sec * 1_000_000_000 + self.nanosec,
    {
        duration_new(self.sec, self.nanosec)
    }
}

impl Default for WallTimestamp {
    fn default() -> (t: Self)
        ensures
            t.sec == 0 && t.nanosec == 0,
    {
        WallTimestamp { sec: 0, nanosec: 0 }
    }
}

/// A reading of the monotonic clock, for latency and deadline measurement.
#[derive(Debug, Clone, Copy, PartialEq, Eq, PartialOrd, Ord, Hash)]
pub struct MonotonicInstant {
    instant: Instant,
}

impl MonotonicInstant {
    pub fn now() -> (m: Self) {
        MonotonicInstant { instant: instant_now() }
    }

    pub fn elapsed(&self) -> (d: Duration) {
        instant_elapsed(&self.instant)
    }

    /// Nanoseconds elapsed since this instant, truncated to 64 bits.
    pub fn elapsed_ns(&self) -> (n: u64) {
        nanos_truncated(instant_elapsed(&self.instant))
    }

    /// Time from `earlier` to this instant; zero from an instant to itself.
    pub fn duration_since(&self, earlier: Self) -> (d: Duration)
        ensures
            *self == earlier ==> duration_as_nanos_spec(d) == 0,
    {
        instant_duration_since(&self.instant, earlier.instant)
    }
}

/// The length of `d` in nanoseconds, truncated to its low 64 bits.
pub fn nanos_truncated(d: Duration) -> (n: u64)
    ensures
        n == duration_as_nanos_spec(d) as u64,
{
    let n = duration_as_nanos(d);
    #[verifier::truncate]
    (n as u64)
}

/// Pixel layout of an image.
#[derive(Debug, Clone, Copy, PartialEq, Eq, Structural)]
pub enum ImageFormat {
    RGB8,
    RGBA8,
    BGR8,
    MONO8,
    MONO16,
}

#[derive(Debug, Clone, PartialEq)]
pub struct Image {
    pub timestamp: WallTimestamp,
    pub width: u32,
    pub height: u32,
    pub format: ImageFormat,
    pub data: Vec<u8>,
    pub frame_id: u64,
}

/// Callback execution statistics.
#[derive(Debug, Clone)]
pub struct ExecutionStats {
    pub callback_count: u64,
    pub total_execution_time_ns: u64,
    pub max_execution_time_ns: u64,
    pub min_execution_time_ns: u64,
    pub deadline_misses: u64,
}

impl Default for ExecutionStats {
    fn default() -> (s: Self)
        ensures
            s.callback_count == 0,
            s.total_execution_time_ns == 0,
            s.max_execution_time_ns == 0,
            s.min_execution_time_ns == 0,
            s.deadline_misses == 0,
    {
        ExecutionStats {
            callback_count: 0,
            total_execution_time_ns: 0,
            max_execution_time_ns: 0,
            min_execution_time_ns: 0,
            deadline_misses: 0,
        }
    }
}

} // verus!
