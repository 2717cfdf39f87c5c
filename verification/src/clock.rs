//! Instants, and the one "now" that a run uses for every comparison.

use vstd::prelude::*;

verus! {

/// Nanoseconds in a second.
pub const NANOS_PER_SECOND: i128 = 1_000_000_000;

/// An instant, as nanoseconds since the Unix epoch.
#[derive(Clone, Copy, Debug, PartialEq, Eq, Structural)]
pub struct Timestamp {
    pub nanos: i128,
}

impl Timestamp {
    /// The origin of time: the value of a stamp that was never set.
    pub fn origin() -> (r: Timestamp)
        ensures
            r.nanos == 0,
    {
        Timestamp { nanos: 0 }
    }

    pub fn is_origin(&self) -> (r: bool)
        ensures
            r == (self.nanos == 0),
    {
        self.nanos == 0
    }

    /// Whether this instant lies strictly before `other`.
    pub fn precedes(&self, other: &Timestamp) -> (r: bool)
        ensures
            r == (self.nanos < other.nanos),
    {
        self.nanos < other.nanos
    }

    /// Whether this instant plus `seconds` lies strictly before `other`.
    pub fn elapsed(&self, seconds: u64, other: &Timestamp) -> (r: bool)
        ensures
            r == (self.nanos + seconds * NANOS_PER_SECOND < other.nanos),
    {
        let span: i128 = (seconds as i128) * NANOS_PER_SECOND;
        match self.nanos.checked_add(span) {
            Some(end) => end < other.nanos,
            None => false,
        }
    }
}

/// Reads the wall clock through `time::OffsetDateTime::now_utc` and turns
/// the instant into nanoseconds with
/// `time::OffsetDateTime::unix_timestamp_nanos`. Trusted, and nothing is
/// claimed of the value: it is whatever the clock says.
#[verifier::external_body]
fn wall_clock_nanos() -> i128 {
    time::OffsetDateTime::now_utc().unix_timestamp_nanos()
}

/// The instant at which a run started. Every staleness question asked during
/// the run is answered against this one value.
#[derive(Clone, Copy, Debug, PartialEq, Eq, Structural)]
pub struct RunClock {
    pub now: Timestamp,
}

impl RunClock {
    /// A clock fixed at `now`.
    pub fn at(now: Timestamp) -> (r: RunClock)
        ensures
            r.now == now,
    {
        RunClock { now }
    }

    /// A clock fixed at the current wall-clock time.
    pub fn start() -> RunClock {
        RunClock { now: Timestamp { nanos: wall_clock_nanos() } }
    }

    /// Whether `stamp` was set before this run started.
    pub fn predates_run(&self, stamp: &Timestamp) -> (r: bool)
        ensures
            r == (stamp.nanos < self.now.nanos),
    {
        stamp.nanos < self.now.nanos
    }
}

} // verus!
