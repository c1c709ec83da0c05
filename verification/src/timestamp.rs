//! Creation times of stored keys.
//!
//! A timestamp is the duration since the Unix epoch, held as plain seconds
//! and sub-second nanoseconds so that contracts can speak about it directly.

use vstd::prelude::*;

verus! {

/// Nanoseconds in one second; the `nanos` field stays below it.
pub const NANOS_PER_SEC: u32 = 1_000_000_000;

/// A point in time: the duration since the Unix epoch.
#[derive(Clone, Copy, Debug, PartialEq, Eq, Structural)]
pub struct Timestamp {
    /// Whole seconds since the Unix epoch.
    pub secs: u64,
    /// Nanoseconds past `secs`, always below one billion.
    pub nanos: u32,
}

impl Timestamp {
    /// A well-formed timestamp keeps its nanosecond part below one second.
    pub open spec fn wf(&self) -> bool {
        self.nanos < NANOS_PER_SEC
    }

    /// Builds a timestamp from seconds and nanoseconds since the Unix epoch.
    pub fn new(secs: u64, nanos: u32) -> (r: Timestamp)
        requires
            nanos < NANOS_PER_SEC,
        ensures
            r == (Timestamp { secs, nanos }),
            r.wf(),
    {
        Timestamp { secs, nanos }
    }
}

/// Relies on `std::time::SystemTime::now` and
/// `SystemTime::duration_since(UNIX_EPOCH)` (with `Duration::as_secs` and
/// `Duration::subsec_nanos`, the latter documented below one billion): the
/// current time. A clock before the epoch reads as the epoch itself. The
/// result depends on the machine's clock, so nothing relates two calls.
#[verifier::external_body]
pub(crate) fn timestamp_now() -> (r: Timestamp)
    ensures
        r.wf(),
{
    match std::time::SystemTime::now().duration_since(std::time::UNIX_EPOCH) {
        Ok(d) => Timestamp { secs: d.as_secs(), nanos: d.subsec_nanos() },
        Err(_) => Timestamp { secs: 0, nanos: 0 },
    }
}

} // verus!
