//! The per-thread event log: fixed-shape records of span markers,
//! timestamps and argument values.

use vstd::prelude::*;
use crate::clock::Timestamp;
use crate::source::SourceInfo;
use crate::source::SourceInfoView;

verus! {

/// The number of events consumed by each span.
pub const EVENTS_PER_SPAN: usize = 4;

/// The number of events consumed by each argument that is not a string
/// slice.
pub const EVENTS_PER_ARG: usize = 1;

/// The number of bytes of a string slice that fit in one event.
pub const STR_PART_LEN: usize = 15;

/// One record of the log.
#[derive(Debug)]
pub enum Event {
    /// The start of a span. Must be followed by a timestamp.
    StartSpan(&'static SourceInfo),
    /// The end of a span. Must be followed by a timestamp.
    EndSpan(&'static SourceInfo),
    /// The time at which the preceding start or end of a span occurred.
    Timestamp(Timestamp),
    Bool(bool),
    U64(u64),
    I64(i64),
    /// A double-precision value, held as its IEEE 754 bit pattern.
    F64(u64),
    String(String),
    /// Part of a string slice. Must be followed by another `StrPart` or by
    /// a `StrEnd`.
    StrPart([u8; STR_PART_LEN]),
    /// The end of a string slice: the first `len` bytes of `bytes`.
    StrEnd { len: u8, bytes: [u8; STR_PART_LEN] },
}

/// The mathematical content of an [`Event`].
pub enum EventView {
    StartSpan(SourceInfoView),
    EndSpan(SourceInfoView),
    Timestamp(Timestamp),
    Bool(bool),
    U64(u64),
    I64(i64),
    F64(u64),
    String(Seq<char>),
    StrPart(Seq<u8>),
    StrEnd { len: u8, bytes: Seq<u8> },
}

impl View for Event {
    type V = EventView;

    open spec fn view(&self) -> EventView {
        match *self {
            Event::StartSpan(source) => EventView::StartSpan(source@),
            Event::EndSpan(source) => EventView::EndSpan(source@),
            Event::Timestamp(stamp) => EventView::Timestamp(stamp),
            Event::Bool(value) => EventView::Bool(value),
            Event::U64(value) => EventView::U64(value),
            Event::I64(value) => EventView::I64(value),
            Event::F64(bits) => EventView::F64(bits),
            Event::String(text) => EventView::String(text@),
            Event::StrPart(bytes) => EventView::StrPart(bytes@),
            Event::StrEnd { len, bytes } => EventView::StrEnd { len, bytes: bytes@ },
        }
    }
}

/// The contents of a sequence of events.
pub open spec fn events_view(events: Seq<Event>) -> Seq<EventView> {
    events.map_values(|event: Event| event@)
}

/// The events that one thread has recorded, oldest first.
pub struct EventLog {
    events: Vec<Event>,
}

impl View for EventLog {
    type V = Seq<EventView>;

    closed spec fn view(&self) -> Seq<EventView> {
        events_view(self.events@)
    }
}

impl EventLog {
    /// An empty log.
    pub fn new() -> (log: EventLog)
        ensures
            log@ == Seq::<EventView>::empty(),
    {
        EventLog { events: Vec::new() }
    }

    /// The number of events in the log.
    pub fn len(&self) -> (n: usize)
        ensures
            n == self@.len(),
    {
        self.events.len()
    }

    /// Empties the log and hands out what it held.
    pub fn take(&mut self) -> (events: Vec<Event>)
        ensures
            events_view(events@) == old(self)@,
            final(self)@ == Seq::<EventView>::empty(),
    {
        let mut events: Vec<Event> = Vec::new();
        core::mem::swap(&mut self.events, &mut events);
        events
    }
}

/// Appends `event` to `log`.
pub fn record_event(log: &mut EventLog, event: Event)
    ensures
        final(log)@ == old(log)@.push(event@),
{
    log.events.push(event);
}

/// Reserves room in `log` for `additional` more events. Calling this is
/// optional; it changes nothing that can be observed.
pub fn current_thread_reserve(log: &mut EventLog, additional: usize)
    ensures
        final(log)@ == old(log)@,
{
    log.events.reserve(additional);
}

} // verus!
