//! Captures: what one thread recorded, with the identity of the thread.

use vstd::prelude::*;
use crate::decode::read_marker;
use crate::event::events_view;
use crate::event::Event;
use crate::event::EventLog;
use crate::event::EventView;
use crate::grammar::lemma_parse_marker_advances;
use crate::grammar::markers_of;
use crate::grammar::parse_log;
use crate::grammar::well_formed;
use crate::grammar::MarkerView;
use crate::ident::os_process_id;
use crate::ident::os_thread_id;
use crate::packet::text_view;

verus! {

/// Trace events that occurred on a single thread.
pub struct ThreadTraceData {
    events: Vec<Event>,
    pid: i32,
    tid: i32,
    thread_name: Option<String>,
}

/// The mathematical content of a [`ThreadTraceData`].
pub struct ThreadTraceDataView {
    pub events: Seq<EventView>,
    pub pid: i32,
    pub tid: i32,
    pub thread_name: Option<Seq<char>>,
}

impl View for ThreadTraceData {
    type V = ThreadTraceDataView;

    closed spec fn view(&self) -> ThreadTraceDataView {
        ThreadTraceDataView {
            events: events_view(self.events@),
            pid: self.pid,
            tid: self.tid,
            thread_name: text_view(self.thread_name),
        }
    }
}

impl ThreadTraceDataView {
    /// Whether the events are a sequence of complete markers.
    pub open spec fn well_formed(self) -> bool {
        well_formed(self.events)
    }

    /// The markers that the events spell, where they are well formed.
    pub open spec fn markers(self) -> Seq<MarkerView> {
        markers_of(self.events)
    }
}

impl ThreadTraceData {
    /// A capture of the given events and identity.
    pub fn new(events: Vec<Event>, pid: i32, tid: i32, thread_name: Option<String>) -> (capture:
        ThreadTraceData)
        ensures
            capture@ == (ThreadTraceDataView {
                events: events_view(events@),
                pid,
                tid,
                thread_name: text_view(thread_name),
            }),
    {
        ThreadTraceData { events, pid, tid, thread_name }
    }

    /// Empties `log`, the log of the calling thread, into a capture. The
    /// capture carries the ids that the operating system gives to the
    /// process and to the calling thread, and the thread's name as given.
    pub fn take_current_thread(log: &mut EventLog, thread_name: Option<String>) -> (capture:
        ThreadTraceData)
        ensures
            capture@.events == old(log)@,
            capture@.thread_name == text_view(thread_name),
            final(log)@ == Seq::<EventView>::empty(),
    {
        ThreadTraceData {
            events: log.take(),
            pid: os_process_id(),
            tid: os_thread_id(),
            thread_name,
        }
    }

    /// The events of the capture.
    pub fn events(&self) -> (events: &Vec<Event>)
        ensures
            events_view(events@) == self@.events,
    {
        &self.events
    }

    /// The id of the process that recorded the events.
    pub fn pid(&self) -> (pid: i32)
        ensures
            pid == self@.pid,
    {
        self.pid
    }

    /// The id of the thread that recorded the events.
    pub fn tid(&self) -> (tid: i32)
        ensures
            tid == self@.tid,
    {
        self.tid
    }

    /// The name of the thread that recorded the events, if it has one.
    pub fn thread_name(&self) -> (name: &Option<String>)
        ensures
            text_view(*name) == self@.thread_name,
    {
        &self.thread_name
    }

    /// Whether the events are a sequence of complete markers: what a trace
    /// builder asks of a capture.
    pub fn is_well_formed(&self) -> (ok: bool)
        ensures
            ok == self@.well_formed(),
    {
        let ghost log = events_view(self.events@);
        let mut pos: usize = 0;
        while pos < self.events.len()
            invariant
                log == events_view(self.events@),
                pos <= self.events@.len(),
                parse_log(log, 0) is Some <==> parse_log(log, pos as int) is Some,
            decreases self.events@.len() - pos,
        {
            proof {
                lemma_parse_marker_advances(log, pos as int);
            }
            match read_marker(&self.events, pos) {
                Some((_, next)) => {
                    pos = next;
                },
                None => {
                    return false;
                },
            }
        }
        true
    }
}

} // verus!
