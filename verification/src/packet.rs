//! The packets that a trace is made of, as plain values. Each type has a
//! view that holds its strings and lists as sequences.

use vstd::prelude::*;

verus! {

/// The clock that every timestamp of a trace is read against.
pub const CLOCK_ID: u32 = 6;

/// The sequence flag that says: forget what was interned before.
pub const SEQ_INCREMENTAL_STATE_CLEARED: u32 = 1;

/// The view of a string that may be absent.
pub open spec fn text_view(text: Option<String>) -> Option<Seq<char>> {
    match text {
        Some(text) => Some(text@),
        None => None,
    }
}

/// The value of a debug annotation.
#[derive(Debug, PartialEq)]
pub enum Value {
    BoolValue(bool),
    UintValue(u64),
    IntValue(i64),
    /// A double-precision value, held as its IEEE 754 bit pattern.
    DoubleValue(u64),
    StringValue(String),
}

#[verifier::ext_equal]
pub enum ValueView {
    BoolValue(bool),
    UintValue(u64),
    IntValue(i64),
    DoubleValue(u64),
    StringValue(Seq<char>),
}

impl View for Value {
    type V = ValueView;

    open spec fn view(&self) -> ValueView {
        match *self {
            Value::BoolValue(value) => ValueView::BoolValue(value),
            Value::UintValue(value) => ValueView::UintValue(value),
            Value::IntValue(value) => ValueView::IntValue(value),
            Value::DoubleValue(bits) => ValueView::DoubleValue(bits),
            Value::StringValue(text) => ValueView::StringValue(text@),
        }
    }
}

/// A named value attached to the begin of a span. The name is a reference
/// to an interned debug annotation name.
#[derive(Debug, PartialEq)]
pub struct DebugAnnotation {
    pub name_iid: u64,
    pub value: Value,
}

#[verifier::ext_equal]
pub struct DebugAnnotationView {
    pub name_iid: u64,
    pub value: ValueView,
}

impl View for DebugAnnotation {
    type V = DebugAnnotationView;

    open spec fn view(&self) -> DebugAnnotationView {
        DebugAnnotationView { name_iid: self.name_iid, value: self.value@ }
    }
}

pub open spec fn annotations_view(annotations: Seq<DebugAnnotation>) -> Seq<DebugAnnotationView> {
    annotations.map_values(|annotation: DebugAnnotation| annotation@)
}

/// What a track event marks.
#[derive(Clone, Copy, Debug, PartialEq, Eq, Structural)]
pub enum TrackEventType {
    SliceBegin,
    SliceEnd,
    Counter,
}

/// The value of a counter sample.
#[derive(Clone, Copy, Debug, PartialEq)]
pub enum CounterValue {
    Int(i64),
    /// A double-precision value, held as its IEEE 754 bit pattern.
    Double(u64),
}

/// An event on a track: the begin or end of a span, or a counter sample.
#[derive(Debug, PartialEq)]
pub struct TrackEvent {
    pub kind: TrackEventType,
    pub track_uuid: u64,
    pub name_iid: Option<u64>,
    pub source_location_iid: Option<u64>,
    pub debug_annotations: Vec<DebugAnnotation>,
    pub counter_value: Option<CounterValue>,
}

#[verifier::ext_equal]
pub struct TrackEventView {
    pub kind: TrackEventType,
    pub track_uuid: u64,
    pub name_iid: Option<u64>,
    pub source_location_iid: Option<u64>,
    pub debug_annotations: Seq<DebugAnnotationView>,
    pub counter_value: Option<CounterValue>,
}

impl View for TrackEvent {
    type V = TrackEventView;

    open spec fn view(&self) -> TrackEventView {
        TrackEventView {
            kind: self.kind,
            track_uuid: self.track_uuid,
            name_iid: self.name_iid,
            source_location_iid: self.source_location_iid,
            debug_annotations: annotations_view(self.debug_annotations@),
            counter_value: self.counter_value,
        }
    }
}

/// The identity of the thread that a track belongs to.
#[derive(Debug, PartialEq)]
pub struct ThreadDescriptor {
    pub pid: i32,
    pub tid: i32,
    pub thread_name: Option<String>,
}

#[verifier::ext_equal]
pub struct ThreadDescriptorView {
    pub pid: i32,
    pub tid: i32,
    pub thread_name: Option<Seq<char>>,
}

impl View for ThreadDescriptor {
    type V = ThreadDescriptorView;

    open spec fn view(&self) -> ThreadDescriptorView {
        ThreadDescriptorView {
            pid: self.pid,
            tid: self.tid,
            thread_name: text_view(self.thread_name),
        }
    }
}

/// The built-in units of a counter track.
#[derive(Clone, Copy, Debug, PartialEq, Eq, Structural)]
pub enum Unit {
    Unspecified,
    TimeNs,
    Count,
    SizeBytes,
}

/// What the values of a counter track mean.
#[derive(Debug, PartialEq)]
pub struct CounterDescriptor {
    pub unit: Option<Unit>,
    pub unit_name: Option<String>,
    pub unit_multiplier: i64,
    pub is_incremental: bool,
}

#[verifier::ext_equal]
pub struct CounterDescriptorView {
    pub unit: Option<Unit>,
    pub unit_name: Option<Seq<char>>,
    pub unit_multiplier: i64,
    pub is_incremental: bool,
}

impl View for CounterDescriptor {
    type V = CounterDescriptorView;

    open spec fn view(&self) -> CounterDescriptorView {
        CounterDescriptorView {
            unit: self.unit,
            unit_name: text_view(self.unit_name),
            unit_multiplier: self.unit_multiplier,
            is_incremental: self.is_incremental,
        }
    }
}

/// Declares a track: a thread's timeline or a counter's time series.
#[derive(Debug, PartialEq)]
pub struct TrackDescriptor {
    pub uuid: u64,
    pub name: Option<String>,
    pub thread: Option<ThreadDescriptor>,
    pub counter: Option<CounterDescriptor>,
}

#[verifier::ext_equal]
pub struct TrackDescriptorView {
    pub uuid: u64,
    pub name: Option<Seq<char>>,
    pub thread: Option<ThreadDescriptorView>,
    pub counter: Option<CounterDescriptorView>,
}

impl View for TrackDescriptor {
    type V = TrackDescriptorView;

    open spec fn view(&self) -> TrackDescriptorView {
        TrackDescriptorView {
            uuid: self.uuid,
            name: text_view(self.name),
            thread: match self.thread {
                Some(thread) => Some(thread@),
                None => None,
            },
            counter: match self.counter {
                Some(counter) => Some(counter@),
                None => None,
            },
        }
    }
}

/// Registers the id of a span name.
#[derive(Debug, PartialEq)]
pub struct EventName {
    pub iid: u64,
    pub name: String,
}

/// Registers the id of a debug annotation name.
#[derive(Debug, PartialEq)]
pub struct DebugAnnotationName {
    pub iid: u64,
    pub name: String,
}

/// The view of an [`EventName`] and of a [`DebugAnnotationName`].
#[verifier::ext_equal]
pub struct InternedNameView {
    pub iid: u64,
    pub name: Seq<char>,
}

impl View for EventName {
    type V = InternedNameView;

    open spec fn view(&self) -> InternedNameView {
        InternedNameView { iid: self.iid, name: self.name@ }
    }
}

impl View for DebugAnnotationName {
    type V = InternedNameView;

    open spec fn view(&self) -> InternedNameView {
        InternedNameView { iid: self.iid, name: self.name@ }
    }
}

/// Registers the id of a source location.
#[derive(Debug, PartialEq)]
pub struct SourceLocation {
    pub iid: u64,
    pub file_name: String,
    pub line_number: u32,
}

#[verifier::ext_equal]
pub struct SourceLocationView {
    pub iid: u64,
    pub file_name: Seq<char>,
    pub line_number: u32,
}

impl View for SourceLocation {
    type V = SourceLocationView;

    open spec fn view(&self) -> SourceLocationView {
        SourceLocationView {
            iid: self.iid,
            file_name: self.file_name@,
            line_number: self.line_number,
        }
    }
}

/// The names and locations that were interned since the last batch was
/// attached to a packet.
#[derive(Debug, PartialEq)]
pub struct InternedData {
    pub event_names: Vec<EventName>,
    pub debug_annotation_names: Vec<DebugAnnotationName>,
    pub source_locations: Vec<SourceLocation>,
}

#[verifier::ext_equal]
pub struct InternedDataView {
    pub event_names: Seq<InternedNameView>,
    pub debug_annotation_names: Seq<InternedNameView>,
    pub source_locations: Seq<SourceLocationView>,
}

impl View for InternedData {
    type V = InternedDataView;

    open spec fn view(&self) -> InternedDataView {
        InternedDataView {
            event_names: self.event_names@.map_values(|entry: EventName| entry@),
            debug_annotation_names: self.debug_annotation_names@.map_values(
                |entry: DebugAnnotationName| entry@,
            ),
            source_locations: self.source_locations@.map_values(|entry: SourceLocation| entry@),
        }
    }
}

impl InternedDataView {
    /// A batch without entries.
    pub open spec fn empty() -> InternedDataView {
        InternedDataView {
            event_names: Seq::empty(),
            debug_annotation_names: Seq::empty(),
            source_locations: Seq::empty(),
        }
    }

    pub open spec fn is_empty(self) -> bool {
        &&& self.event_names.len() == 0
        &&& self.debug_annotation_names.len() == 0
        &&& self.source_locations.len() == 0
    }

    /// What a packet carries for this batch: nothing, if it has no entry.
    pub open spec fn attached(self) -> Option<InternedDataView> {
        if self.is_empty() {
            None
        } else {
            Some(self)
        }
    }
}

/// The view of a batch that may be absent.
pub open spec fn batch_view(batch: Option<InternedData>) -> Option<InternedDataView> {
    match batch {
        Some(batch) => Some(batch@),
        None => None,
    }
}

/// The payload of a packet.
#[derive(Debug, PartialEq)]
pub enum PacketData {
    TrackEvent(TrackEvent),
    TrackDescriptor(TrackDescriptor),
}

#[verifier::ext_equal]
pub enum PacketDataView {
    TrackEvent(TrackEventView),
    TrackDescriptor(TrackDescriptorView),
}

impl View for PacketData {
    type V = PacketDataView;

    open spec fn view(&self) -> PacketDataView {
        match *self {
            PacketData::TrackEvent(event) => PacketDataView::TrackEvent(event@),
            PacketData::TrackDescriptor(descriptor) => PacketDataView::TrackDescriptor(
                descriptor@,
            ),
        }
    }
}

/// One packet of a trace.
#[derive(Debug, PartialEq)]
pub struct TracePacket {
    pub timestamp: Option<u64>,
    pub timestamp_clock_id: Option<u32>,
    pub data: Option<PacketData>,
    pub trusted_packet_sequence_id: Option<u32>,
    pub interned_data: Option<InternedData>,
    pub sequence_flags: Option<u32>,
}

#[verifier::ext_equal]
pub struct TracePacketView {
    pub timestamp: Option<u64>,
    pub timestamp_clock_id: Option<u32>,
    pub data: Option<PacketDataView>,
    pub trusted_packet_sequence_id: Option<u32>,
    pub interned_data: Option<InternedDataView>,
    pub sequence_flags: Option<u32>,
}

impl View for TracePacket {
    type V = TracePacketView;

    open spec fn view(&self) -> TracePacketView {
        TracePacketView {
            timestamp: self.timestamp,
            timestamp_clock_id: self.timestamp_clock_id,
            data: match self.data {
                Some(data) => Some(data@),
                None => None,
            },
            trusted_packet_sequence_id: self.trusted_packet_sequence_id,
            interned_data: batch_view(self.interned_data),
            sequence_flags: self.sequence_flags,
        }
    }
}

pub open spec fn packets_view(packets: Seq<TracePacket>) -> Seq<TracePacketView> {
    packets.map_values(|packet: TracePacket| packet@)
}

impl TracePacketView {
    /// The track descriptor that the packet carries, if it carries one.
    pub open spec fn track_descriptor(self) -> Option<TrackDescriptorView> {
        match self.data {
            Some(PacketDataView::TrackDescriptor(descriptor)) => Some(descriptor),
            _ => None,
        }
    }

    /// The track event that the packet carries, if it carries one.
    pub open spec fn track_event(self) -> Option<TrackEventView> {
        match self.data {
            Some(PacketDataView::TrackEvent(event)) => Some(event),
            _ => None,
        }
    }
}

} // verus!
