//! Timestamps: cheap monotonic samples and wall-clock values.

use vstd::prelude::*;

verus! {

/// `fastant::Instant`: a reading of the time stamp counter. Nothing inside
/// it is visible to the verifier.
#[verifier::external_type_specification]
#[verifier::external_body]
pub struct ExFastantInstant(fastant::Instant);

/// `fastant::Anchor`: a wall-clock time paired with the counter reading
/// taken at the same moment.
#[verifier::external_type_specification]
#[verifier::external_body]
pub struct ExFastantAnchor(fastant::Anchor);

#[derive(Clone, Copy, Debug)]
enum Sample {
    WallClock(u64),
    Monotonic(fastant::Instant),
}

/// A point in time as the recorder stores it.
#[derive(Clone, Copy, Debug)]
pub struct Timestamp {
    sample: Sample,
}

impl Timestamp {
    /// The wall-clock value that this instant holds, if it holds one.
    pub closed spec fn wall_clock_nanos(self) -> Option<u64> {
        match self.sample {
            Sample::WallClock(nanos) => Some(nanos),
            Sample::Monotonic(_) => None,
        }
    }

    /// A wall-clock value: `nanos` nanoseconds after the Unix epoch.
    pub fn from_unix_nanos(nanos: u64) -> (stamp: Timestamp)
        ensures
            stamp.wall_clock_nanos() == Some(nanos),
    {
        Timestamp { sample: Sample::WallClock(nanos) }
    }
}

/// Whether `nanos` can be what `stamp` resolves to: a wall-clock value
/// resolves to itself; of a monotonic sample nothing is known.
pub open spec fn resolves_to(stamp: Timestamp, nanos: u64) -> bool {
    stamp.wall_clock_nanos() matches Some(exact) ==> nanos == exact
}

/// Calls `fastant::Instant::now`. The reading depends on the machine and
/// the moment, so nothing is claimed of it.
#[verifier::external_body]
fn monotonic_now() -> fastant::Instant {
    fastant::Instant::now()
}

/// Calls `fastant::Anchor::new`, which reads the system clock and the time
/// stamp counter together. Nothing is claimed of the result. The call
/// panics where the system clock stands before the Unix epoch.
#[verifier::external_body]
fn anchor_now() -> fastant::Anchor {
    fastant::Anchor::new()
}

/// Calls `fastant::Instant::as_unix_nanos`, which places a monotonic sample
/// on the wall clock by its distance from the anchor. The result depends on
/// the machine's calibration, so nothing is claimed of it. The call adds
/// to, or takes from, the anchor's wall-clock time the distance between the
/// sample and the anchor. The samples handed in come from `monotonic_now`
/// alone, so that distance is no longer than the machine has been running,
/// and both stay within the range of `u64`.
#[verifier::external_body]
fn anchored_unix_nanos(sample: fastant::Instant, anchor: &fastant::Anchor) -> u64 {
    sample.as_unix_nanos(anchor)
}

/// The current time as a monotonic sample: cheap to take, and placed on
/// the wall clock only when a trace is built.
pub fn time() -> (now: Timestamp)
    ensures
        now.wall_clock_nanos() is None,
{
    Timestamp { sample: Sample::Monotonic(monotonic_now()) }
}

/// A fixed point that ties the monotonic clock to the wall clock.
#[derive(Clone, Copy)]
pub struct TimeAnchor {
    anchor: fastant::Anchor,
}

impl TimeAnchor {
    /// An anchor taken now.
    pub fn new() -> TimeAnchor {
        TimeAnchor { anchor: anchor_now() }
    }

    /// The nanoseconds after the Unix epoch at which `stamp` was taken: the
    /// value itself for a wall-clock value, an estimate by this anchor for a
    /// monotonic sample.
    pub fn unix_nanos(&self, stamp: Timestamp) -> (nanos: u64)
        ensures
            resolves_to(stamp, nanos),
    {
        match stamp.sample {
            Sample::WallClock(nanos) => nanos,
            Sample::Monotonic(sample) => anchored_unix_nanos(sample, &self.anchor),
        }
    }
}

} // verus!
