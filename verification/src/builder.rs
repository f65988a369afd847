//! The trace builder: replays captures into packets, interning names and
//! locations and giving each thread a track.

use std::collections::HashMap;
use vstd::prelude::*;
use crate::activation::is_enabled;
use crate::activation::Activation;
use crate::activation::TracingDisabled;
use crate::capture::ThreadTraceData;
use crate::clock::resolves_to;
use crate::clock::Timestamp;
use crate::counter::CounterTrack;
use crate::counter::CounterUnit;
use crate::clock::TimeAnchor;
use crate::decode::read_marker;
use crate::decode::values_view;
use crate::decode::Marker;
use crate::event::events_view;
use crate::grammar::lemma_parse_marker_advances;
use crate::grammar::lemma_parse_marker_args;
use crate::grammar::parse_log;
use crate::grammar::MarkerView;
use crate::ident::Uuid;
use crate::ident::random_u32;
use crate::intern::interned;
use crate::intern::interned_id;
use crate::intern::InternTable;
use crate::intern::Location;
use crate::model::annotations;
use crate::model::counter_packet;
use crate::model::counter_track_packet;
use crate::model::fresh_location;
use crate::model::fresh_name;
use crate::model::intern_each;
use crate::model::lemma_intern_each_len;
use crate::model::stamps_resolve;
use crate::model::thread_track_packet;
use crate::model::TraceState;
use crate::packet::annotations_view;
use crate::packet::packets_view;
use crate::packet::CounterDescriptor;
use crate::packet::CounterValue;
use crate::packet::DebugAnnotation;
use crate::packet::DebugAnnotationName;
use crate::packet::DebugAnnotationView;
use crate::packet::EventName;
use crate::packet::InternedData;
use crate::packet::InternedDataView;
use crate::packet::SourceLocation;
use crate::packet::ThreadDescriptor;
use crate::packet::TrackDescriptor;
use crate::packet::PacketData;
use crate::packet::TracePacket;
use crate::packet::TrackEvent;
use crate::packet::TrackEventType;
use crate::packet::CLOCK_ID;
use crate::packet::SEQ_INCREMENTAL_STATE_CLEARED;
use crate::source::SourceInfo;

verus! {

broadcast use vstd::std_specs::hash::group_hash_axioms;

/// Used to build a trace.
pub struct TraceBuilder {
    trace: Vec<TracePacket>,
    name_ids: InternTable<&'static str>,
    debug_annotation_name_ids: InternTable<&'static str>,
    source_location_ids: InternTable<Location>,
    thread_uuids: HashMap<i32, u64>,
    sequence_id: u32,
    time_anchor: TimeAnchor,
}

impl View for TraceBuilder {
    type V = TraceState;

    closed spec fn view(&self) -> TraceState {
        TraceState {
            packets: packets_view(self.trace@),
            names: self.name_ids@,
            annotation_names: self.debug_annotation_name_ids@,
            locations: self.source_location_ids@,
            thread_tracks: self.thread_uuids@,
            sequence_id: self.sequence_id,
        }
    }
}

/// A batch of interned data without entries.
fn empty_batch() -> (batch: InternedData)
    ensures
        batch@ == InternedDataView::empty(),
{
    let batch = InternedData {
        event_names: Vec::new(),
        debug_annotation_names: Vec::new(),
        source_locations: Vec::new(),
    };
    assert(batch@.event_names =~= Seq::empty());
    assert(batch@.debug_annotation_names =~= Seq::empty());
    assert(batch@.source_locations =~= Seq::empty());
    batch
}

/// A packet that carries nothing yet.
fn blank() -> (packet: TracePacket)
    ensures
        packet@ == crate::model::blank_packet(),
{
    TracePacket {
        timestamp: None,
        timestamp_clock_id: None,
        data: None,
        trusted_packet_sequence_id: None,
        interned_data: None,
        sequence_flags: None,
    }
}

/// What a packet carries for `pending`: nothing, if it has no entry.
fn attached(pending: InternedData) -> (batch: Option<InternedData>)
    ensures
        crate::packet::batch_view(batch) == pending@.attached(),
{
    if pending.event_names.len() == 0 && pending.debug_annotation_names.len() == 0
        && pending.source_locations.len() == 0 {
        None
    } else {
        Some(pending)
    }
}

impl TraceBuilder {
    /// Every builder that this module hands out is well formed: it holds no
    /// name, argument name or location twice.
    pub open spec fn wf(&self) -> bool {
        self@.wf()
    }

    /// A builder for a new trace. Fails where recording is not enabled.
    /// The new builder has a random sequence id and has written the initial
    /// packet.
    pub fn new(state: &Activation) -> (result: Result<TraceBuilder, TracingDisabled>)
        ensures
            result is Ok <==> state.enabled(),
            result matches Ok(builder) ==> builder.wf() && builder@ == TraceState::fresh(
                builder@.sequence_id,
            ),
    {
        if !is_enabled(state) {
            return Err(TracingDisabled);
        }
        Ok(TraceBuilder::fresh(random_u32()))
    }

    /// A builder for a new trace with the given sequence id. Fails where
    /// recording is not enabled. The new builder has written the initial
    /// packet.
    pub fn with_sequence_id(state: &Activation, sequence_id: u32) -> (result: Result<
        TraceBuilder,
        TracingDisabled,
    >)
        ensures
            result is Ok <==> state.enabled(),
            result matches Ok(builder) ==> builder.wf() && builder@ == TraceState::fresh(
                sequence_id,
            ),
    {
        if !is_enabled(state) {
            return Err(TracingDisabled);
        }
        Ok(TraceBuilder::fresh(sequence_id))
    }

    /// A builder that has written the initial packet and nothing else.
    fn fresh(sequence_id: u32) -> (builder: TraceBuilder)
        ensures
            builder.wf(),
            builder@ == TraceState::fresh(sequence_id),
    {
        let mut builder = TraceBuilder {
            trace: Vec::new(),
            name_ids: InternTable::new(),
            debug_annotation_name_ids: InternTable::new(),
            source_location_ids: InternTable::new(),
            thread_uuids: HashMap::new(),
            sequence_id,
            time_anchor: TimeAnchor::new(),
        };
        let mut packet = blank();
        packet.sequence_flags = Some(SEQ_INCREMENTAL_STATE_CLEARED);
        builder.add_packet(packet);
        assert(builder@.packets =~= TraceState::fresh(sequence_id).packets);
        builder
    }

    /// The packets written so far.
    pub fn packets(&self) -> (packets: &Vec<TracePacket>)
        ensures
            packets_view(packets@) == self@.packets,
    {
        &self.trace
    }

    /// The id that marks every packet of this builder.
    pub fn sequence_id(&self) -> (id: u32)
        ensures
            id == self@.sequence_id,
    {
        self.sequence_id
    }

    /// Appends `packet`, marked with the builder's sequence id.
    fn add_packet(&mut self, packet: TracePacket)
        ensures
            final(self)@ == old(self)@.add_packet(packet@),
    {
        let mut packet = packet;
        packet.trusted_packet_sequence_id = Some(self.sequence_id);
        let ghost stamped = packet@;
        self.trace.push(packet);
        assert(self@.packets =~= old(self)@.packets.push(stamped));
    }

    /// The id of the span name `name`. A name that is new is registered in
    /// `pending`.
    fn name_id(&mut self, name: &'static str, pending: &mut InternedData) -> (iid: u64)
        requires
            old(self).wf(),
        ensures
            final(self).wf(),
            iid == interned_id(old(self)@.names, name@),
            final(self)@ == (TraceState {
                names: interned(old(self)@.names, name@),
                ..old(self)@
            }),
            final(pending)@ == (InternedDataView {
                event_names: old(pending)@.event_names + fresh_name(old(self)@.names, name@),
                ..old(pending)@
            }),
    {
        let (iid, is_new) = self.name_ids.intern(name);
        if is_new {
            pending.event_names.push(EventName { iid, name: name.to_owned() });
        }
        assert(pending@.event_names =~= old(pending)@.event_names + fresh_name(
            old(self)@.names,
            name@,
        ));
        iid
    }

    /// The id of the argument name `name`. A name that is new is registered
    /// in `pending`.
    fn debug_annotation_name_id(&mut self, name: &'static str, pending: &mut InternedData) -> (iid:
        u64)
        requires
            old(self).wf(),
        ensures
            final(self).wf(),
            iid == interned_id(old(self)@.annotation_names, name@),
            final(self)@ == (TraceState {
                annotation_names: interned(old(self)@.annotation_names, name@),
                ..old(self)@
            }),
            final(pending)@ == (InternedDataView {
                debug_annotation_names: old(pending)@.debug_annotation_names + fresh_name(
                    old(self)@.annotation_names,
                    name@,
                ),
                ..old(pending)@
            }),
    {
        let (iid, is_new) = self.debug_annotation_name_ids.intern(name);
        if is_new {
            pending.debug_annotation_names.push(
                DebugAnnotationName { iid, name: name.to_owned() },
            );
        }
        assert(pending@.debug_annotation_names =~= old(pending)@.debug_annotation_names
            + fresh_name(old(self)@.annotation_names, name@));
        iid
    }

    /// The id of the place in the source that `source` names. A place that
    /// is new is registered in `pending`.
    fn source_location_id(&mut self, source: &'static SourceInfo, pending: &mut InternedData) -> (iid:
        u64)
        requires
            old(self).wf(),
        ensures
            final(self).wf(),
            iid == interned_id(old(self)@.locations, source@.location()),
            final(self)@ == (TraceState {
                locations: interned(old(self)@.locations, source@.location()),
                ..old(self)@
            }),
            final(pending)@ == (InternedDataView {
                source_locations: old(pending)@.source_locations + fresh_location(
                    old(self)@.locations,
                    source@.location(),
                ),
                ..old(pending)@
            }),
    {
        let (iid, is_new) = self.source_location_ids.intern(
            Location { file: source.file, line: source.line },
        );
        if is_new {
            pending.source_locations.push(
                SourceLocation {
                    iid,
                    file_name: source.file.to_owned(),
                    line_number: source.line,
                },
            );
        }
        assert(pending@.source_locations =~= old(pending)@.source_locations + fresh_location(
            old(self)@.locations,
            source@.location(),
        ));
        iid
    }

    /// Writes the packet for `marker`, at time `nanos` on the track `track`:
    /// interns the span's name and location and, where the marker begins a
    /// span, the names of its arguments, and attaches to the packet what
    /// was new among them.
    pub fn emit_track_event(&mut self, marker: Marker, nanos: u64, track: Uuid)
        requires
            old(self).wf(),
            marker@.args.len() == marker@.arg_names().len(),
        ensures
            final(self).wf(),
            final(self)@ == old(self)@.emit(marker@, nanos, track.0),
    {
        let ghost before = self@;
        let ghost spec_marker = marker@;
        let Marker { begin, source, stamp: _, args } = marker;
        let mut pending = empty_batch();
        let name_id = self.name_id(source.name, &mut pending);
        let source_location_id = self.source_location_id(source, &mut pending);
        let ghost named = self@;
        let ghost registered = pending@;
        let ghost names = source@.arg_names;
        let ghost values = values_view(args@);
        let mut debug_annotations: Vec<DebugAnnotation> = Vec::new();
        assert(annotations_view(debug_annotations@) =~= Seq::empty());
        if begin {
            let mut i: usize = 0;
            assert(names.take(0) =~= Seq::empty());
            for value in it: args.into_iter()
                invariant
                    i == it.index(),
                    it.seq() == args@,
                    args@.len() == names.len(),
                    names == source@.arg_names,
                    values == values_view(args@),
                    self.wf(),
                    self@ == (TraceState {
                        annotation_names: intern_each(
                            before.annotation_names,
                            names.take(i as int),
                        ).table,
                        ..named
                    }),
                    pending@ == (InternedDataView {
                        debug_annotation_names: intern_each(
                            before.annotation_names,
                            names.take(i as int),
                        ).fresh,
                        ..registered
                    }),
                    annotations_view(debug_annotations@) == annotations(
                        intern_each(before.annotation_names, names.take(i as int)).ids,
                        values,
                    ),
            {
                let ghost prev = intern_each(before.annotation_names, names.take(i as int));
                let ghost next = intern_each(before.annotation_names, names.take(i + 1));
                let ghost name = source.arg_names@[i as int]@;
                proof {
                    lemma_intern_each_len(before.annotation_names, names.take(i as int));
                    assert(names.take(i + 1).drop_last() =~= names.take(i as int));
                    assert(names.take(i + 1).last() == name);
                    assert(next.table == interned(prev.table, name));
                    assert(next.ids == prev.ids.push(interned_id(prev.table, name)));
                    assert(next.fresh =~= prev.fresh + fresh_name(prev.table, name));
                }
                let iid = self.debug_annotation_name_id(source.arg_names[i], &mut pending);
                let ghost earlier = debug_annotations@;
                let ghost value_view = value@;
                debug_annotations.push(DebugAnnotation { name_iid: iid, value });
                proof {
                    assert(value_view == values[i as int]);
                    assert(annotations_view(debug_annotations@) =~= annotations_view(
                        earlier,
                    ).push(DebugAnnotationView { name_iid: iid, value: value_view }));
                    assert(annotations_view(debug_annotations@) =~= annotations(next.ids, values));
                }
                i += 1;
            }
            assert(names.take(i as int) =~= names);
        }
        let mut packet = blank();
        packet.timestamp = Some(nanos);
        packet.timestamp_clock_id = Some(CLOCK_ID);
        packet.data = Some(
            PacketData::TrackEvent(
                TrackEvent {
                    kind: if begin {
                        TrackEventType::SliceBegin
                    } else {
                        TrackEventType::SliceEnd
                    },
                    track_uuid: track.0,
                    name_iid: Some(name_id),
                    source_location_iid: Some(source_location_id),
                    debug_annotations,
                    counter_value: None,
                },
            ),
        );
        packet.interned_data = attached(pending);
        proof {
            let run = intern_each(before.annotation_names, spec_marker.arg_names());
            assert(registered.event_names =~= fresh_name(before.names, source@.name));
            assert(registered.source_locations =~= fresh_location(
                before.locations,
                source@.location(),
            ));
            assert(registered.debug_annotation_names =~= Seq::empty());
            assert(pending@ =~= (InternedDataView {
                event_names: fresh_name(before.names, source@.name),
                debug_annotation_names: run.fresh,
                source_locations: fresh_location(before.locations, source@.location()),
            }));
            assert(annotations_view(debug_annotations@) =~= annotations(
                run.ids,
                spec_marker.args,
            ));
            assert(packet@ =~= before.slice_packet(spec_marker, nanos, track.0));
        }
        self.add_packet(packet);
    }

    /// Makes sure that the thread of `thread` has a track and returns it.
    /// A thread that this builder has not seen gets the track `fresh`,
    /// which is declared in a packet; for a thread that it has seen,
    /// nothing is written.
    pub fn track_thread(&mut self, thread: &ThreadTraceData, fresh: Uuid) -> (uuid: Uuid)
        requires
            old(self).wf(),
        ensures
            final(self).wf(),
            final(self)@ == old(self)@.track_thread(thread@, fresh.0),
            uuid.0 == old(self)@.track_of(thread@.tid, fresh.0),
    {
        let tid = thread.tid();
        match self.thread_uuids.get(&tid) {
            Some(uuid) => {
                return Uuid(*uuid);
            },
            None => {},
        }
        let thread_name = match thread.thread_name() {
            Some(name) => Some(name.clone()),
            None => None,
        };
        let mut packet = blank();
        packet.data = Some(
            PacketData::TrackDescriptor(
                TrackDescriptor {
                    uuid: fresh.0,
                    name: None,
                    thread: Some(ThreadDescriptor { pid: thread.pid(), tid, thread_name }),
                    counter: None,
                },
            ),
        );
        assert(packet@ =~= thread_track_packet(fresh.0, thread@));
        self.add_packet(packet);
        self.thread_uuids.insert(tid, fresh.0);
        fresh
    }

    /// The track of the thread of `thread`. A thread that this builder has
    /// not seen gets a new random track.
    fn thread_uuid(&mut self, thread: &ThreadTraceData) -> (uuid: Uuid)
        requires
            old(self).wf(),
        ensures
            final(self).wf(),
            final(self)@ == old(self)@.track_thread(thread@, uuid.0),
            uuid.0 == old(self)@.track_of(thread@.tid, uuid.0),
            final(self)@.thread_tracks.contains_key(thread@.tid),
            final(self)@.thread_tracks[thread@.tid] == uuid.0,
    {
        let tid = thread.tid();
        match self.thread_uuids.get(&tid) {
            Some(uuid) => {
                return Uuid(*uuid);
            },
            None => {},
        }
        let fresh = Uuid::new();
        self.track_thread(thread, fresh)
    }

    /// Places `timestamp` on the wall clock, in nanoseconds after the Unix
    /// epoch.
    fn get_unix_nanos(&self, timestamp: Timestamp) -> (nanos: u64)
        ensures
            resolves_to(timestamp, nanos),
    {
        self.time_anchor.unix_nanos(timestamp)
    }

    /// Merges trace data captured from a thread into the trace: makes sure
    /// that the thread has a track, then writes one packet for each marker
    /// of the capture, in order. Each packet's time is what the marker's
    /// timestamp resolves to.
    pub fn process_thread_data(&mut self, thread: &ThreadTraceData) -> (builder: &mut Self)
        requires
            old(self).wf(),
            thread@.well_formed(),
        ensures
            *final(self) == *final(builder),
            builder.wf(),
            builder@.thread_tracks.contains_key(thread@.tid),
            exists|stamps: Seq<u64>| #[trigger]
                stamps_resolve(thread@.markers(), stamps) && builder@ == old(self)@.process(
                    thread@,
                    builder@.thread_tracks[thread@.tid],
                    stamps,
                ),
    {
        let uuid = self.thread_uuid(thread);
        let events = thread.events();
        let ghost log = thread@.events;
        let ghost all = thread@.markers();
        let ghost start = self@;
        let ghost mut done: Seq<MarkerView> = Seq::empty();
        let ghost mut stamps: Seq<u64> = Seq::empty();
        let mut pos: usize = 0;
        assert(all =~= done + parse_log(log, 0).unwrap());
        while pos < events.len()
            invariant
                pos <= events@.len(),
                log == events_view(events@),
                parse_log(log, pos as int) is Some,
                all == done + parse_log(log, pos as int).unwrap(),
                stamps_resolve(done, stamps),
                self.wf(),
                self@ == start.replay(done, stamps, uuid.0),
                self@.thread_tracks == start.thread_tracks,
            decreases events@.len() - pos,
        {
            proof {
                lemma_parse_marker_advances(log, pos as int);
                lemma_parse_marker_args(log, pos as int);
            }
            match read_marker(events, pos) {
                Some((marker, next)) => {
                    let nanos = self.get_unix_nanos(marker.stamp);
                    let ghost spec_marker = marker@;
                    self.emit_track_event(marker, nanos, uuid);
                    proof {
                        let rest = parse_log(log, next as int).unwrap();
                        assert(done.push(spec_marker) + rest =~= done + (seq![spec_marker] + rest));
                        assert(done.push(spec_marker).drop_last() =~= done);
                        assert(stamps.push(nanos).drop_last() =~= stamps);
                        done = done.push(spec_marker);
                        stamps = stamps.push(nanos);
                    }
                    pos = next;
                },
                None => {
                    unreached()
                },
            }
        }
        proof {
            assert(all =~= done);
        }
        self
    }

    /// Creates a new counter track: a time series of values such as CPU
    /// usage or memory in use. Writes the packet that declares the track
    /// and returns its handle. The track's id is random.
    ///
    /// * `name` - the name of the counter track
    /// * `unit` - the unit of the counter values
    /// * `unit_multiplier` - multiplier for the values (e.g., 1024*1024 to
    ///   convert bytes to MB)
    /// * `is_incremental` - whether values are deltas or absolute
    pub fn create_counter_track(
        &mut self,
        name: String,
        unit: CounterUnit,
        unit_multiplier: i64,
        is_incremental: bool,
    ) -> (track: CounterTrack)
        requires
            old(self).wf(),
        ensures
            final(self).wf(),
            final(self)@ == old(self)@.add_packet(
                counter_track_packet(
                    track.id(),
                    name@,
                    unit.proto_unit(),
                    unit.proto_unit_name(),
                    unit_multiplier,
                    is_incremental,
                ),
            ),
    {
        let uuid = Uuid::new();
        let mut packet = blank();
        packet.data = Some(
            PacketData::TrackDescriptor(
                TrackDescriptor {
                    uuid: uuid.0,
                    name: Some(name),
                    thread: None,
                    counter: Some(
                        CounterDescriptor {
                            unit: unit.to_proto_unit(),
                            unit_name: unit.to_proto_unit_name(),
                            unit_multiplier,
                            is_incremental,
                        },
                    ),
                },
            ),
        );
        self.add_packet(packet);
        CounterTrack::of(uuid.0)
    }

    /// Writes the packet that holds `value` for the track `counter` at the
    /// time `nanos`, in nanoseconds after the Unix epoch.
    pub fn record_counter_value(&mut self, counter: CounterTrack, nanos: u64, value: CounterValue)
        requires
            old(self).wf(),
        ensures
            final(self).wf(),
            final(self)@ == old(self)@.add_packet(counter_packet(nanos, counter.id(), value)),
    {
        let mut packet = blank();
        packet.timestamp = Some(nanos);
        packet.timestamp_clock_id = Some(CLOCK_ID);
        let debug_annotations: Vec<DebugAnnotation> = Vec::new();
        assert(annotations_view(debug_annotations@) =~= Seq::empty());
        packet.data = Some(
            PacketData::TrackEvent(
                TrackEvent {
                    kind: TrackEventType::Counter,
                    track_uuid: counter.uuid(),
                    name_iid: None,
                    source_location_iid: None,
                    debug_annotations,
                    counter_value: Some(value),
                },
            ),
        );
        self.add_packet(packet);
    }

    /// Records an integer counter value at a specific timestamp.
    pub fn record_counter_i64(&mut self, counter: CounterTrack, timestamp: Timestamp, value: i64)
        requires
            old(self).wf(),
        ensures
            final(self).wf(),
            exists|nanos: u64| #[trigger]
                resolves_to(timestamp, nanos) && final(self)@ == old(self)@.add_packet(
                    counter_packet(nanos, counter.id(), CounterValue::Int(value)),
                ),
    {
        let nanos = self.get_unix_nanos(timestamp);
        self.record_counter_value(counter, nanos, CounterValue::Int(value));
    }

    /// Records a floating-point counter value at a specific timestamp. The
    /// value is given as its IEEE 754 bit pattern: what `f64::to_bits`
    /// gives.
    pub fn record_counter_f64(&mut self, counter: CounterTrack, timestamp: Timestamp, bits: u64)
        requires
            old(self).wf(),
        ensures
            final(self).wf(),
            exists|nanos: u64| #[trigger]
                resolves_to(timestamp, nanos) && final(self)@ == old(self)@.add_packet(
                    counter_packet(nanos, counter.id(), CounterValue::Double(bits)),
                ),
    {
        let nanos = self.get_unix_nanos(timestamp);
        self.record_counter_value(counter, nanos, CounterValue::Double(bits));
    }
}

} // verus!
