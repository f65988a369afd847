//! Spans: a marker and a timestamp when a span begins, the same when it
//! ends, and nothing at all while recording is not enabled.

use vstd::prelude::*;
use crate::activation::is_enabled;
use crate::activation::Activation;
use crate::clock::time;
use crate::clock::Timestamp;
use crate::event::record_event;
use crate::event::Event;
use crate::event::EventLog;
use crate::event::EventView;
use crate::source::SourceInfo;
use crate::source::SourceInfoView;

verus! {

/// The events that the begin of a span at `source` records at the time
/// `now`.
pub open spec fn begin_events(enabled: bool, source: SourceInfoView, now: Timestamp) -> Seq<
    EventView,
> {
    if enabled {
        seq![EventView::StartSpan(source), EventView::Timestamp(now)]
    } else {
        Seq::empty()
    }
}

/// The events that the end of a span at `source` records at the time `now`.
pub open spec fn end_events(enabled: bool, source: SourceInfoView, now: Timestamp) -> Seq<
    EventView,
> {
    if enabled {
        seq![EventView::EndSpan(source), EventView::Timestamp(now)]
    } else {
        Seq::empty()
    }
}

/// A guard that stands for a span that has begun. Ending the span consumes
/// the guard, so a span ends once.
pub struct SpanGuard {
    pub source: &'static SourceInfo,
}

impl SpanGuard {
    /// A guard for a span at `source`. Records nothing.
    pub fn new(source: &'static SourceInfo) -> (guard: SpanGuard)
        ensures
            guard.source == source,
    {
        SpanGuard { source }
    }

    /// Begins a span at `source` at the time `now`: where recording is
    /// enabled, appends the start marker and the timestamp to `log`. The
    /// values of the span's arguments are to be recorded next, where
    /// recording is enabled.
    pub fn begin_at(
        state: &Activation,
        log: &mut EventLog,
        source: &'static SourceInfo,
        now: Timestamp,
    ) -> (guard: SpanGuard)
        ensures
            guard.source == source,
            final(log)@ == old(log)@ + begin_events(state.enabled(), source@, now),
    {
        if is_enabled(state) {
            record_event(log, Event::StartSpan(source));
            record_event(log, Event::Timestamp(now));
        }
        assert(log@ =~= old(log)@ + begin_events(state.enabled(), source@, now));
        SpanGuard::new(source)
    }

    /// Begins a span at `source` now, by a monotonic sample of the clock.
    /// The clock is read only where recording is enabled.
    pub fn begin(state: &Activation, log: &mut EventLog, source: &'static SourceInfo) -> (guard:
        SpanGuard)
        ensures
            guard.source == source,
            !state.enabled() ==> final(log)@ == old(log)@,
            state.enabled() ==> exists|now: Timestamp|
                now.wall_clock_nanos() is None && final(log)@ == old(log)@ + #[trigger] begin_events(
                    true,
                    source@,
                    now,
                ),
    {
        if is_enabled(state) {
            let now = time();
            SpanGuard::begin_at(state, log, source, now)
        } else {
            SpanGuard::new(source)
        }
    }

    /// Ends the span at the time `now`: where recording is enabled, appends
    /// the end marker and the timestamp to `log`.
    pub fn end_at(self, state: &Activation, log: &mut EventLog, now: Timestamp)
        ensures
            final(log)@ == old(log)@ + end_events(state.enabled(), self.source@, now),
    {
        if is_enabled(state) {
            record_event(log, Event::EndSpan(self.source));
            record_event(log, Event::Timestamp(now));
        }
        assert(log@ =~= old(log)@ + end_events(state.enabled(), self.source@, now));
    }

    /// Ends the span now, by a monotonic sample of the clock. The clock is
    /// read only where recording is enabled.
    pub fn end(self, state: &Activation, log: &mut EventLog)
        ensures
            !state.enabled() ==> final(log)@ == old(log)@,
            state.enabled() ==> exists|now: Timestamp|
                now.wall_clock_nanos() is None && final(log)@ == old(log)@ + #[trigger] end_events(
                    true,
                    self.source@,
                    now,
                ),
    {
        if is_enabled(state) {
            let now = time();
            self.end_at(state, log, now);
        }
    }
}

} // verus!
