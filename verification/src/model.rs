//! What a trace builder holds and how each operation changes it, as
//! mathematics: the reference that the builder's code is proved against.

use vstd::prelude::*;
use crate::capture::ThreadTraceDataView;
use crate::clock::resolves_to;
use crate::grammar::MarkerView;
use crate::intern::interned;
use crate::intern::interned_id;
use crate::packet::CounterDescriptorView;
use crate::packet::CounterValue;
use crate::packet::DebugAnnotationView;
use crate::packet::InternedDataView;
use crate::packet::InternedNameView;
use crate::packet::PacketDataView;
use crate::packet::SourceLocationView;
use crate::packet::ThreadDescriptorView;
use crate::packet::TracePacketView;
use crate::packet::TrackDescriptorView;
use crate::packet::TrackEventType;
use crate::packet::TrackEventView;
use crate::packet::Unit;
use crate::packet::ValueView;
use crate::packet::CLOCK_ID;
use crate::packet::SEQ_INCREMENTAL_STATE_CLEARED;

verus! {

/// A packet that carries nothing yet.
pub open spec fn blank_packet() -> TracePacketView {
    TracePacketView {
        timestamp: None,
        timestamp_clock_id: None,
        data: None,
        trusted_packet_sequence_id: None,
        interned_data: None,
        sequence_flags: None,
    }
}

/// The first packet of every trace: it says that what was interned before
/// is void.
pub open spec fn initial_packet() -> TracePacketView {
    TracePacketView { sequence_flags: Some(SEQ_INCREMENTAL_STATE_CLEARED), ..blank_packet() }
}

/// The packet that declares the track of a thread.
pub open spec fn thread_track_packet(uuid: u64, thread: ThreadTraceDataView) -> TracePacketView {
    TracePacketView {
        data: Some(
            PacketDataView::TrackDescriptor(
                TrackDescriptorView {
                    uuid,
                    name: None,
                    thread: Some(
                        ThreadDescriptorView {
                            pid: thread.pid,
                            tid: thread.tid,
                            thread_name: thread.thread_name,
                        },
                    ),
                    counter: None,
                },
            ),
        ),
        ..blank_packet()
    }
}

/// The packet that declares a counter track.
pub open spec fn counter_track_packet(
    uuid: u64,
    name: Seq<char>,
    unit: Option<Unit>,
    unit_name: Option<Seq<char>>,
    unit_multiplier: i64,
    is_incremental: bool,
) -> TracePacketView {
    TracePacketView {
        data: Some(
            PacketDataView::TrackDescriptor(
                TrackDescriptorView {
                    uuid,
                    name: Some(name),
                    thread: None,
                    counter: Some(
                        CounterDescriptorView { unit, unit_name, unit_multiplier, is_incremental },
                    ),
                },
            ),
        ),
        ..blank_packet()
    }
}

/// The packet that holds one value of a counter.
pub open spec fn counter_packet(nanos: u64, uuid: u64, value: CounterValue) -> TracePacketView {
    TracePacketView {
        timestamp: Some(nanos),
        timestamp_clock_id: Some(CLOCK_ID),
        data: Some(
            PacketDataView::TrackEvent(
                TrackEventView {
                    kind: TrackEventType::Counter,
                    track_uuid: uuid,
                    name_iid: None,
                    source_location_iid: None,
                    debug_annotations: Seq::empty(),
                    counter_value: Some(value),
                },
            ),
        ),
        ..blank_packet()
    }
}

/// What interning a sequence of names, one after the other, gives.
#[verifier::ext_equal]
pub struct InternRun {
    /// The table after the last name.
    pub table: Seq<Seq<char>>,
    /// The id of each name.
    pub ids: Seq<u64>,
    /// An entry for each name that was new when its turn came.
    pub fresh: Seq<InternedNameView>,
}

/// Interns `names` in order, starting from `table`.
pub open spec fn intern_each(table: Seq<Seq<char>>, names: Seq<Seq<char>>) -> InternRun
    decreases names.len(),
{
    if names.len() == 0 {
        InternRun { table, ids: Seq::empty(), fresh: Seq::empty() }
    } else {
        let before = intern_each(table, names.drop_last());
        let name = names.last();
        let iid = interned_id(before.table, name);
        InternRun {
            table: interned(before.table, name),
            ids: before.ids.push(iid),
            fresh: if before.table.contains(name) {
                before.fresh
            } else {
                before.fresh.push(InternedNameView { iid, name })
            },
        }
    }
}

/// Interning gives one id for each name.
pub proof fn lemma_intern_each_len(table: Seq<Seq<char>>, names: Seq<Seq<char>>)
    ensures
        intern_each(table, names).ids.len() == names.len(),
    decreases names.len(),
{
    if names.len() > 0 {
        lemma_intern_each_len(table, names.drop_last());
    }
}

/// The entry that registers `name`, if it is not in `table` yet.
pub open spec fn fresh_name(table: Seq<Seq<char>>, name: Seq<char>) -> Seq<InternedNameView> {
    if table.contains(name) {
        Seq::empty()
    } else {
        seq![InternedNameView { iid: interned_id(table, name), name }]
    }
}

/// The entry that registers `location`, if it is not in `table` yet.
pub open spec fn fresh_location(table: Seq<(Seq<char>, u32)>, location: (Seq<char>, u32)) -> Seq<
    SourceLocationView,
> {
    if table.contains(location) {
        Seq::empty()
    } else {
        seq![
            SourceLocationView {
                iid: interned_id(table, location),
                file_name: location.0,
                line_number: location.1,
            },
        ]
    }
}

/// The annotations of a span: the `i`-th value under the `i`-th name.
pub open spec fn annotations(ids: Seq<u64>, values: Seq<ValueView>) -> Seq<DebugAnnotationView> {
    Seq::new(ids.len(), |i: int| DebugAnnotationView { name_iid: ids[i], value: values[i] })
}

/// The state of a trace builder.
#[verifier::ext_equal]
pub struct TraceState {
    /// The packets written so far.
    pub packets: Seq<TracePacketView>,
    /// The span names seen so far, in the order in which they were first
    /// seen. A name's id is its position, counting from 1.
    pub names: Seq<Seq<char>>,
    /// The same for the names of arguments.
    pub annotation_names: Seq<Seq<char>>,
    /// The same for source locations: a file and a line.
    pub locations: Seq<(Seq<char>, u32)>,
    /// The track of each thread seen so far, by the thread's id.
    pub thread_tracks: Map<i32, u64>,
    /// The id that marks every packet as written by this builder.
    pub sequence_id: u32,
}

impl TraceState {
    /// No name, argument name or location is held twice.
    pub open spec fn wf(self) -> bool {
        &&& self.names.no_duplicates()
        &&& self.annotation_names.no_duplicates()
        &&& self.locations.no_duplicates()
    }

    /// The state of a new builder: the initial packet, and nothing seen.
    pub open spec fn fresh(sequence_id: u32) -> TraceState {
        TraceState {
            packets: seq![
                TracePacketView {
                    trusted_packet_sequence_id: Some(sequence_id),
                    ..initial_packet()
                },
            ],
            names: Seq::empty(),
            annotation_names: Seq::empty(),
            locations: Seq::empty(),
            thread_tracks: Map::empty(),
            sequence_id,
        }
    }

    /// Appends `packet`, marked with the builder's sequence id.
    pub open spec fn add_packet(self, packet: TracePacketView) -> TraceState {
        TraceState {
            packets: self.packets.push(
                TracePacketView {
                    trusted_packet_sequence_id: Some(self.sequence_id),
                    ..packet
                },
            ),
            ..self
        }
    }

    /// The track of the thread `tid`: the one it has, or `fresh` if the
    /// thread was not seen before.
    pub open spec fn track_of(self, tid: i32, fresh: u64) -> u64 {
        if self.thread_tracks.contains_key(tid) {
            self.thread_tracks[tid]
        } else {
            fresh
        }
    }

    /// Makes sure that the thread of `thread` has a track: where the thread
    /// was not seen before, declares the track `fresh` for it.
    pub open spec fn track_thread(self, thread: ThreadTraceDataView, fresh: u64) -> TraceState {
        if self.thread_tracks.contains_key(thread.tid) {
            self
        } else {
            TraceState {
                thread_tracks: self.thread_tracks.insert(thread.tid, fresh),
                ..self.add_packet(thread_track_packet(fresh, thread))
            }
        }
    }

    /// The packet for `marker`, at time `nanos` on the track `track`.
    pub open spec fn slice_packet(self, marker: MarkerView, nanos: u64, track: u64)
        -> TracePacketView {
        let name = marker.source.name;
        let location = marker.source.location();
        let run = intern_each(self.annotation_names, marker.arg_names());
        TracePacketView {
            timestamp: Some(nanos),
            timestamp_clock_id: Some(CLOCK_ID),
            data: Some(
                PacketDataView::TrackEvent(
                    TrackEventView {
                        kind: if marker.begin {
                            TrackEventType::SliceBegin
                        } else {
                            TrackEventType::SliceEnd
                        },
                        track_uuid: track,
                        name_iid: Some(interned_id(self.names, name)),
                        source_location_iid: Some(interned_id(self.locations, location)),
                        debug_annotations: annotations(run.ids, marker.args),
                        counter_value: None,
                    },
                ),
            ),
            interned_data: (InternedDataView {
                event_names: fresh_name(self.names, name),
                debug_annotation_names: run.fresh,
                source_locations: fresh_location(self.locations, location),
            }).attached(),
            ..blank_packet()
        }
    }

    /// Writes the packet for `marker` and remembers what the marker made
    /// known: its span name, its location and, where it begins a span, the
    /// names of its arguments.
    pub open spec fn emit(self, marker: MarkerView, nanos: u64, track: u64) -> TraceState {
        TraceState {
            names: interned(self.names, marker.source.name),
            annotation_names: intern_each(self.annotation_names, marker.arg_names()).table,
            locations: interned(self.locations, marker.source.location()),
            ..self.add_packet(self.slice_packet(marker, nanos, track))
        }
    }

    /// Writes the packets for `markers` in order, the `i`-th at the time
    /// `stamps[i]`.
    pub open spec fn replay(self, markers: Seq<MarkerView>, stamps: Seq<u64>, track: u64)
        -> TraceState
        decreases markers.len(),
    {
        if markers.len() == 0 {
            self
        } else {
            self.replay(markers.drop_last(), stamps.drop_last(), track).emit(
                markers.last(),
                stamps.last(),
                track,
            )
        }
    }

    /// Writes one packet for each of `samples`, a time and a value, on the
    /// counter track `uuid`.
    pub open spec fn record_counters(self, uuid: u64, samples: Seq<(u64, CounterValue)>)
        -> TraceState
        decreases samples.len(),
    {
        if samples.len() == 0 {
            self
        } else {
            self.record_counters(uuid, samples.drop_last()).add_packet(
                counter_packet(samples.last().0, uuid, samples.last().1),
            )
        }
    }

    /// Merges a capture: makes sure that its thread has a track, then
    /// writes the packets for its markers on that track.
    pub open spec fn process(self, thread: ThreadTraceDataView, fresh: u64, stamps: Seq<u64>)
        -> TraceState {
        self.track_thread(thread, fresh).replay(
            thread.markers(),
            stamps,
            self.track_of(thread.tid, fresh),
        )
    }
}

/// The span names of `markers`, in order.
pub open spec fn span_names(markers: Seq<MarkerView>) -> Seq<Seq<char>> {
    markers.map_values(|marker: MarkerView| marker.source.name)
}

/// Whether `packet` declares the track of the thread `tid`.
pub open spec fn declares_thread(packet: TracePacketView, tid: i32) -> bool {
    match packet.track_descriptor() {
        Some(descriptor) => match descriptor.thread {
            Some(thread) => thread.tid == tid,
            None => false,
        },
        None => false,
    }
}

/// The number of packets among `packets` that declare the track of the
/// thread `tid`.
pub open spec fn thread_declarations(packets: Seq<TracePacketView>, tid: i32) -> nat
    decreases packets.len(),
{
    if packets.len() == 0 {
        0
    } else {
        thread_declarations(packets.drop_last(), tid) + if declares_thread(packets.last(), tid) {
            1nat
        } else {
            0nat
        }
    }
}

/// The number of packets among `packets` that hold a counter value.
pub open spec fn counter_values(packets: Seq<TracePacketView>) -> nat
    decreases packets.len(),
{
    if packets.len() == 0 {
        0
    } else {
        counter_values(packets.drop_last()) + match packets.last().track_event() {
            Some(event) => if event.kind == TrackEventType::Counter {
                1nat
            } else {
                0nat
            },
            None => 0nat,
        }
    }
}

/// Whether `stamps` can be the times that the timestamps of `markers`
/// resolve to: one for each marker, and the very value wherever a marker
/// holds a wall-clock value.
pub open spec fn stamps_resolve(markers: Seq<MarkerView>, stamps: Seq<u64>) -> bool {
    &&& stamps.len() == markers.len()
    &&& forall|i: int|
        #![trigger markers[i]]
        0 <= i < markers.len() ==> resolves_to(markers[i].stamp, stamps[i])
}

} // verus!
