//! Support for the latency benchmark's environment record.
use vstd::prelude::*;
use crate::clock::wall_clock_seconds;
use crate::text::{decimal, to_decimal};

verus! {

/// Marker for the records that the benchmark writes out as JSON.
pub trait Serialize {}

/// The wall-clock time as whole seconds since the Unix epoch, in decimal.
/// Which second it is depends on the moment of the call.
pub fn chrono_like_timestamp() -> (s: String)
    ensures
        exists|secs: u64| s@ == decimal(secs as nat),
{
    let (secs, _nanos) = wall_clock_seconds();
    to_decimal(secs)
}

} // verus!
