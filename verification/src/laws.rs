//! What holds of the recorder whatever is recorded: laws that relate
//! several operations, each proved from the definitions that the
//! operations' contracts use.

use vstd::prelude::*;
use crate::arg::RecordArg;
use crate::capture::ThreadTraceDataView;
use crate::clock::Timestamp;
use crate::event::EventView;
use crate::grammar::lemma_parse_log_extends;
use crate::grammar::lemma_parse_marker_advances;
use crate::grammar::markers_of;
use crate::grammar::parse_arg;
use crate::grammar::parse_args;
use crate::grammar::parse_log;
use crate::grammar::parse_marker;
use crate::grammar::well_formed;
use crate::grammar::MarkerView;
use crate::intern::intern_all;
use crate::intern::interned_id;
use crate::intern::lemma_id_is_stable;
use crate::intern::lemma_intern_all_holds;
use crate::intern::lemma_interned;
use crate::model::counter_packet;
use crate::model::counter_track_packet;
use crate::model::counter_values;
use crate::model::declares_thread;
use crate::model::span_names;
use crate::model::thread_declarations;
use crate::model::TraceState;
use crate::packet::CounterValue;
use crate::packet::TracePacketView;
use crate::packet::ValueView;
use crate::packet::Unit;
use crate::span::begin_events;
use crate::span::end_events;

verus! {

/// A span that begins and ends while recording is not enabled leaves no
/// event in the log, whatever its call site and the times.
pub proof fn lemma_disabled_span_leaves_no_trace(
    log: Seq<EventView>,
    source: crate::source::SourceInfoView,
    begun: Timestamp,
    ended: Timestamp,
)
    ensures
        log + begin_events(false, source, begun) + end_events(false, source, ended) == log,
{
    assert(log + begin_events(false, source, begun) + end_events(false, source, ended) =~= log);
}

/// Whether `events` are the events of one argument that reads back as
/// `value`, wherever they stand in a log. Every recordable value's events
/// are such: that is the round trip that its type proves.
pub open spec fn reads_back(events: Seq<EventView>, value: ValueView) -> bool {
    forall|before: Seq<EventView>, after: Seq<EventView>| #[trigger]
        parse_arg(before + events + after, before.len() as int) == Some(
            (value, (before.len() + events.len()) as int),
        )
}

/// The events of every recordable value read back as the value, wherever
/// they stand in a log: the value's kind and the exact value are preserved.
pub proof fn lemma_recorded_value_reads_back<T: RecordArg>(value: T)
    ensures
        reads_back(value.encoding(), value.decoded()),
{
    assert forall|before: Seq<EventView>, after: Seq<EventView>| #[trigger]
        parse_arg(before + value.encoding() + after, before.len() as int) == Some(
            (value.decoded(), (before.len() + value.encoding().len()) as int),
        ) by {
        value.lemma_round_trip(before, after);
    }
}

/// The events of `args`, one argument after the other.
pub open spec fn arg_events(args: Seq<(Seq<EventView>, ValueView)>) -> Seq<EventView>
    decreases args.len(),
{
    if args.len() == 0 {
        Seq::empty()
    } else {
        arg_events(args.drop_last()) + args.last().0
    }
}

/// The values of `args`.
pub open spec fn arg_values(args: Seq<(Seq<EventView>, ValueView)>) -> Seq<ValueView> {
    args.map_values(|arg: (Seq<EventView>, ValueView)| arg.1)
}

/// Arguments that were recorded one after the other read back as their
/// values, in order.
pub proof fn lemma_recorded_args_parse(
    before: Seq<EventView>,
    args: Seq<(Seq<EventView>, ValueView)>,
    after: Seq<EventView>,
)
    requires
        forall|i: int| 0 <= i < args.len() ==> reads_back(#[trigger] args[i].0, args[i].1),
    ensures
        parse_args(before + arg_events(args) + after, before.len() as int, args.len()) == Some(
            (arg_values(args), (before.len() + arg_events(args).len()) as int),
        ),
    decreases args.len(),
{
    let log = before + arg_events(args) + after;
    if args.len() == 0 {
        assert(arg_values(args) =~= Seq::<ValueView>::empty());
    } else {
        let front = args.drop_last();
        let last = args.last();
        assert forall|i: int| 0 <= i < front.len() implies reads_back(
            #[trigger] front[i].0,
            front[i].1,
        ) by {
            assert(front[i] == args[i]);
        }
        lemma_recorded_args_parse(before, front, last.0 + after);
        assert(before + arg_events(front) + (last.0 + after) =~= log);
        assert(reads_back(last.0, last.1));
        assert((before + arg_events(front)) + last.0 + after =~= log);
        assert(parse_arg(
            (before + arg_events(front)) + last.0 + after,
            (before + arg_events(front)).len() as int,
        ) == Some((last.1, ((before + arg_events(front)).len() + last.0.len()) as int)));
        assert(arg_values(args) =~= arg_values(front).push(last.1));
    }
}

/// What the begin of a span records reads back as its marker: the start
/// marker, the timestamp and one recorded value for each argument that the
/// call site declares.
pub proof fn lemma_recorded_begin_parses(
    before: Seq<EventView>,
    source: crate::source::SourceInfoView,
    now: Timestamp,
    args: Seq<(Seq<EventView>, ValueView)>,
    after: Seq<EventView>,
)
    requires
        args.len() == source.arg_names.len(),
        forall|i: int| 0 <= i < args.len() ==> reads_back(#[trigger] args[i].0, args[i].1),
    ensures
        parse_marker(
            before + begin_events(true, source, now) + arg_events(args) + after,
            before.len() as int,
        ) == Some(
            (
                MarkerView { begin: true, source, stamp: now, args: arg_values(args) },
                (before.len() + 2 + arg_events(args).len()) as int,
            ),
        ),
{
    let head = before + begin_events(true, source, now);
    let log = head + arg_events(args) + after;
    lemma_recorded_args_parse(head, args, after);
    assert(log[before.len() as int] == EventView::StartSpan(source));
    assert(log[(before.len() + 1) as int] == EventView::Timestamp(now));
}

/// What the end of a span records reads back as its marker.
pub proof fn lemma_recorded_end_parses(
    before: Seq<EventView>,
    source: crate::source::SourceInfoView,
    now: Timestamp,
    after: Seq<EventView>,
)
    ensures
        parse_marker(before + end_events(true, source, now) + after, before.len() as int) == Some(
            (
                MarkerView { begin: false, source, stamp: now, args: Seq::empty() },
                (before.len() + 2) as int,
            ),
        ),
{
    let log = before + end_events(true, source, now) + after;
    assert(log[before.len() as int] == EventView::EndSpan(source));
    assert(log[(before.len() + 1) as int] == EventView::Timestamp(now));
}

/// A well-formed log stays well formed when the events of one more marker
/// are written after it, and then holds that marker after those it held.
pub proof fn lemma_marker_keeps_log_well_formed(
    log: Seq<EventView>,
    recorded: Seq<EventView>,
    marker: MarkerView,
)
    requires
        well_formed(log),
        parse_marker(log + recorded, log.len() as int) == Some(
            (marker, (log.len() + recorded.len()) as int),
        ),
    ensures
        well_formed(log + recorded),
        markers_of(log + recorded) == markers_of(log).push(marker),
{
    let all = log + recorded;
    lemma_parse_marker_advances(all, log.len() as int);
    assert(parse_log(all, all.len() as int) == Some(Seq::<MarkerView>::empty()));
    assert(parse_log(all, log.len() as int) == Some(seq![marker] + Seq::<MarkerView>::empty()));
    lemma_parse_log_extends(log, recorded, 0);
    assert(markers_of(log) + (seq![marker] + Seq::<MarkerView>::empty()) =~= markers_of(log).push(
        marker,
    ));
}

/// The recording of spans keeps a log well formed. Let a well-formed log be
/// given. Beginning a span while recording is enabled and recording one
/// value for each argument that the call site declares gives a well-formed
/// log again, which holds the span's begin marker, with the values, after
/// the markers it held; and so does ending a span.
pub proof fn lemma_recording_keeps_log_well_formed(
    log: Seq<EventView>,
    source: crate::source::SourceInfoView,
    now: Timestamp,
    args: Seq<(Seq<EventView>, ValueView)>,
)
    requires
        well_formed(log),
        args.len() == source.arg_names.len(),
        forall|i: int| 0 <= i < args.len() ==> reads_back(#[trigger] args[i].0, args[i].1),
    ensures
        well_formed(log + begin_events(true, source, now) + arg_events(args)),
        markers_of(log + begin_events(true, source, now) + arg_events(args)) == markers_of(
            log,
        ).push(MarkerView { begin: true, source, stamp: now, args: arg_values(args) }),
        well_formed(log + end_events(true, source, now)),
        markers_of(log + end_events(true, source, now)) == markers_of(log).push(
            MarkerView { begin: false, source, stamp: now, args: Seq::empty() },
        ),
{
    let none = Seq::<EventView>::empty();
    let begun = begin_events(true, source, now) + arg_events(args);
    lemma_recorded_begin_parses(log, source, now, args, none);
    assert(log + begin_events(true, source, now) + arg_events(args) + none =~= log + begun);
    assert(log + begin_events(true, source, now) + arg_events(args) =~= log + begun);
    lemma_marker_keeps_log_well_formed(
        log,
        begun,
        MarkerView { begin: true, source, stamp: now, args: arg_values(args) },
    );
    let ended = end_events(true, source, now);
    lemma_recorded_end_parses(log, source, now, none);
    assert(log + ended + none =~= log + ended);
    lemma_marker_keeps_log_well_formed(
        log,
        ended,
        MarkerView { begin: false, source, stamp: now, args: Seq::empty() },
    );
}

/// Ids are given in sequence. Starting from an empty table, take any keys
/// in any order and with any repetitions. The key at place `at` gets the
/// id that names its place in the final table, so the first key gets 1 and
/// each key that was not seen before gets the id after the largest given
/// so far; a key that was seen before gets the id it got then.
pub proof fn lemma_sequential_interning<K>(keys: Seq<K>, at: int)
    requires
        0 <= at < keys.len(),
        keys.len() < u64::MAX,
    ensures
        ({
            let before = intern_all(Seq::<K>::empty(), keys.take(at));
            let table = intern_all(Seq::<K>::empty(), keys);
            let id = interned_id(before, keys[at]);
            &&& table.no_duplicates()
            &&& before.no_duplicates()
            &&& before.is_prefix_of(table)
            &&& 1 <= id <= table.len()
            &&& table[id - 1] == keys[at]
            &&& interned_id(table, keys[at]) == id
            &&& !keys.take(at).contains(keys[at]) ==> id == before.len() + 1
            &&& forall|earlier: int|
                0 <= earlier < at && keys[earlier] == keys[at] ==> interned_id(
                    intern_all(Seq::<K>::empty(), keys.take(earlier)),
                    keys[earlier],
                ) == id
        }),
{
    let empty = Seq::<K>::empty();
    let before = intern_all(empty, keys.take(at));
    let key = keys[at];
    lemma_intern_all_len(empty, keys.take(at));
    lemma_intern_all_wf(empty, keys.take(at));
    lemma_interned(before, key);
    lemma_intern_all_split(empty, keys, at + 1);
    assert(keys.take(at + 1).drop_last() =~= keys.take(at));
    let seen = intern_all(empty, keys.take(at + 1));
    assert(seen == crate::intern::interned(before, key));
    let i = interned_id(before, key) - 1;
    assert(seen[i] == key);
    assert(seen.contains(key));
    lemma_id_is_stable(seen, key, keys.skip(at + 1));
    lemma_intern_all_holds(empty, keys.take(at), key);
    let table = intern_all(empty, keys);
    assert(table[i] == key);
    assert forall|earlier: int| 0 <= earlier < at && keys[earlier] == key implies interned_id(
        intern_all(empty, keys.take(earlier)),
        keys[earlier],
    ) == interned_id(before, key) by {
        let then = intern_all(empty, keys.take(earlier));
        lemma_intern_all_len(empty, keys.take(earlier));
        lemma_intern_all_wf(empty, keys.take(earlier));
        lemma_interned(then, key);
        assert(keys.take(earlier + 1).drop_last() =~= keys.take(earlier));
        let next = intern_all(empty, keys.take(earlier + 1));
        assert(next == crate::intern::interned(then, key));
        let j = interned_id(then, key) - 1;
        assert(next[j] == key);
        assert(next.contains(key));
        lemma_intern_all_split(empty, keys.take(at), earlier + 1);
        assert(keys.take(at).take(earlier + 1) =~= keys.take(earlier + 1));
        lemma_id_is_stable(next, key, keys.take(at).skip(earlier + 1));
    }
}

/// A table that starts without duplicates never gets one.
pub proof fn lemma_intern_all_wf<K>(table: Seq<K>, keys: Seq<K>)
    requires
        table.no_duplicates(),
    ensures
        intern_all(table, keys).no_duplicates(),
    decreases keys.len(),
{
    if keys.len() > 0 {
        lemma_intern_all_wf(table, keys.drop_last());
        let before = intern_all(table, keys.drop_last());
        let after = intern_all(table, keys);
        if !before.contains(keys.last()) {
            assert forall|i: int, j: int|
                0 <= i < after.len() && 0 <= j < after.len() && i != j implies after[i]
                != after[j] by {
                if i < before.len() {
                    assert(before.contains(before[i]));
                }
                if j < before.len() {
                    assert(before.contains(before[j]));
                }
            }
        }
    }
}

/// A table grows by at most one key for each key seen.
pub proof fn lemma_intern_all_len<K>(table: Seq<K>, keys: Seq<K>)
    ensures
        table.len() <= intern_all(table, keys).len() <= table.len() + keys.len(),
    decreases keys.len(),
{
    if keys.len() > 0 {
        lemma_intern_all_len(table, keys.drop_last());
    }
}

/// Seeing keys one after the other is seeing the first `mid` of them and
/// then the rest.
pub proof fn lemma_intern_all_split<K>(table: Seq<K>, keys: Seq<K>, mid: int)
    requires
        0 <= mid <= keys.len(),
    ensures
        intern_all(table, keys) == intern_all(intern_all(table, keys.take(mid)), keys.skip(mid)),
    decreases keys.len() - mid,
{
    if mid == keys.len() {
        assert(keys.take(mid) =~= keys);
        assert(keys.skip(mid) =~= Seq::<K>::empty());
    } else {
        lemma_intern_all_split(table, keys.drop_last(), mid);
        assert(keys.drop_last().take(mid) =~= keys.take(mid));
        assert(keys.drop_last().skip(mid) =~= keys.skip(mid).drop_last());
        assert(keys.skip(mid).last() == keys.last());
    }
}

/// Replaying markers writes one packet for each of them and interns their
/// span names in order; it leaves the tracks of threads and the sequence id
/// as they were.
pub proof fn lemma_replay_shape(
    state: TraceState,
    markers: Seq<MarkerView>,
    stamps: Seq<u64>,
    track: u64,
)
    ensures
        state.replay(markers, stamps, track).packets.len() == state.packets.len() + markers.len(),
        state.packets.is_prefix_of(state.replay(markers, stamps, track).packets),
        state.replay(markers, stamps, track).names == intern_all(state.names, span_names(markers)),
        state.replay(markers, stamps, track).thread_tracks == state.thread_tracks,
        state.replay(markers, stamps, track).sequence_id == state.sequence_id,
    decreases markers.len(),
{
    if markers.len() > 0 {
        lemma_replay_shape(state, markers.drop_last(), stamps.drop_last(), track);
        assert(span_names(markers).drop_last() =~= span_names(markers.drop_last()));
    }
}

/// The packet that replaying writes for the marker at place `at` carries
/// the id that the marker's span name has in the builder from then on.
pub proof fn lemma_span_name_ids(
    state: TraceState,
    markers: Seq<MarkerView>,
    stamps: Seq<u64>,
    track: u64,
    at: int,
)
    requires
        state.wf(),
        0 <= at < markers.len(),
        markers.len() == stamps.len(),
    ensures
        ({
            let after = state.replay(markers, stamps, track);
            let packet = after.packets[state.packets.len() + at];
            let name = markers[at].source.name;
            &&& packet.timestamp == Some(stamps[at])
            &&& packet.track_event() is Some
            &&& packet.track_event().unwrap().track_uuid == track
            &&& packet.track_event().unwrap().name_iid == Some(
                interned_id(intern_all(state.names, span_names(markers).take(at)), name),
            )
            &&& after.names.contains(name) ==> packet.track_event().unwrap().name_iid == Some(
                interned_id(after.names, name),
            )
            &&& after.names.contains(name)
        }),
    decreases markers.len(),
{
    let after = state.replay(markers, stamps, track);
    let front = state.replay(markers.drop_last(), stamps.drop_last(), track);
    let names = span_names(markers);
    let name = markers[at].source.name;
    lemma_replay_shape(state, markers, stamps, track);
    lemma_replay_shape(state, markers.drop_last(), stamps.drop_last(), track);
    assert(names.drop_last() =~= span_names(markers.drop_last()));
    lemma_intern_all_wf(state.names, names);
    if at == markers.len() - 1 {
        assert(names.take(at) =~= names.drop_last());
        assert(names[at] == name);
        lemma_intern_all_wf(state.names, names.drop_last());
        let before = intern_all(state.names, names.drop_last());
        assert(after.names == crate::intern::interned(before, name));
        if before.contains(name) {
            let i = before.index_of(name);
            assert(before[i] == name);
        } else {
            assert(after.names[before.len() as int] == name);
            assert(after.names.contains(name));
            let i = after.names.index_of(name);
            assert(after.names[i] == name);
            assert(i == before.len()) by {
                if i < before.len() {
                    assert(before.contains(before[i]));
                }
            }
        }
    } else {
        lemma_span_name_ids(state, markers.drop_last(), stamps.drop_last(), track, at);
        assert(markers.drop_last()[at] == markers[at]);
        assert(stamps.drop_last()[at] == stamps[at]);
        assert(names.drop_last().take(at) =~= names.take(at));
        assert(front.names.contains(name));
        lemma_intern_all_wf(state.names, names.drop_last());
        let last = seq![names.last()];
        assert(last.drop_last() =~= Seq::<Seq<char>>::empty());
        assert(intern_all(front.names, last.drop_last()) == front.names);
        assert(last.last() == names.last());
        assert(intern_all(front.names, last) == after.names);
        lemma_id_is_stable(front.names, name, last);
    }
}

/// Adding a packet adds one declaration of a thread's track if the packet
/// is one, and none otherwise.
pub proof fn lemma_declarations_push(packets: Seq<TracePacketView>, packet: TracePacketView, tid: i32)
    ensures
        thread_declarations(packets.push(packet), tid) == thread_declarations(packets, tid)
            + if declares_thread(packet, tid) {
            1nat
        } else {
            0nat
        },
{
    assert(packets.push(packet).drop_last() =~= packets);
}

/// Replaying markers declares no track.
pub proof fn lemma_replay_declares_nothing(
    state: TraceState,
    markers: Seq<MarkerView>,
    stamps: Seq<u64>,
    track: u64,
    tid: i32,
)
    ensures
        thread_declarations(state.replay(markers, stamps, track).packets, tid)
            == thread_declarations(state.packets, tid),
    decreases markers.len(),
{
    if markers.len() > 0 {
        lemma_replay_declares_nothing(state, markers.drop_last(), stamps.drop_last(), track, tid);
        let front = state.replay(markers.drop_last(), stamps.drop_last(), track);
        let packet = TracePacketView {
            trusted_packet_sequence_id: Some(front.sequence_id),
            ..front.slice_packet(markers.last(), stamps.last(), track)
        };
        lemma_declarations_push(front.packets, packet, tid);
    }
}

/// Merging a capture declares the track of its thread once if the builder
/// has not seen the thread, and not at all if it has. After it the builder
/// has seen the thread.
pub proof fn lemma_process_declares_once(
    state: TraceState,
    thread: ThreadTraceDataView,
    fresh: u64,
    stamps: Seq<u64>,
)
    ensures
        state.process(thread, fresh, stamps).thread_tracks.contains_key(thread.tid),
        thread_declarations(state.process(thread, fresh, stamps).packets, thread.tid)
            == thread_declarations(state.packets, thread.tid) + if state.thread_tracks.contains_key(
            thread.tid,
        ) {
            0nat
        } else {
            1nat
        },
{
    let known = state.track_thread(thread, fresh);
    let track = state.track_of(thread.tid, fresh);
    lemma_replay_declares_nothing(known, thread.markers(), stamps, track, thread.tid);
    lemma_replay_shape(known, thread.markers(), stamps, track);
    if !state.thread_tracks.contains_key(thread.tid) {
        let packet = TracePacketView {
            trusted_packet_sequence_id: Some(state.sequence_id),
            ..crate::model::thread_track_packet(fresh, thread)
        };
        lemma_declarations_push(state.packets, packet, thread.tid);
    }
}

/// Merging two captures of one thread, one after the other, declares the
/// thread's track once in all if the builder had not seen the thread, and
/// not at all if it had: the second capture never declares it again.
pub proof fn lemma_track_declared_once(
    state: TraceState,
    first: ThreadTraceDataView,
    first_fresh: u64,
    first_stamps: Seq<u64>,
    second: ThreadTraceDataView,
    second_fresh: u64,
    second_stamps: Seq<u64>,
)
    requires
        first.tid == second.tid,
    ensures
        ({
            let middle = state.process(first, first_fresh, first_stamps);
            let after = middle.process(second, second_fresh, second_stamps);
            &&& thread_declarations(after.packets, first.tid) == thread_declarations(
                middle.packets,
                first.tid,
            )
            &&& thread_declarations(after.packets, first.tid) == thread_declarations(
                state.packets,
                first.tid,
            ) + if state.thread_tracks.contains_key(first.tid) {
                0nat
            } else {
                1nat
            }
            &&& after.thread_tracks[first.tid] == middle.thread_tracks[first.tid]
        }),
{
    let middle = state.process(first, first_fresh, first_stamps);
    lemma_process_declares_once(state, first, first_fresh, first_stamps);
    lemma_process_declares_once(middle, second, second_fresh, second_stamps);
    let known = middle.track_thread(second, second_fresh);
    lemma_replay_shape(
        known,
        second.markers(),
        second_stamps,
        middle.track_of(second.tid, second_fresh),
    );
}

/// A new builder has declared no track.
pub proof fn lemma_fresh_declares_nothing(sequence_id: u32, tid: i32)
    ensures
        thread_declarations(TraceState::fresh(sequence_id).packets, tid) == 0,
        !TraceState::fresh(sequence_id).thread_tracks.contains_key(tid),
{
    let packets = TraceState::fresh(sequence_id).packets;
    assert(packets.drop_last() =~= Seq::<TracePacketView>::empty());
    assert(thread_declarations(packets.drop_last(), tid) == 0);
}

/// Counters stand apart from spans. Declaring a counter track and recording
/// any number of values on it writes the one packet that declares the track
/// and one packet for each value, each a counter value without interned
/// data, and interns nothing: the names, argument names and locations that
/// the builder holds stay as they were, and so do the tracks of threads.
pub proof fn lemma_counters_intern_nothing(
    state: TraceState,
    uuid: u64,
    name: Seq<char>,
    unit: Option<Unit>,
    unit_name: Option<Seq<char>>,
    unit_multiplier: i64,
    is_incremental: bool,
    samples: Seq<(u64, CounterValue)>,
)
    ensures
        ({
            let declared = state.add_packet(
                counter_track_packet(uuid, name, unit, unit_name, unit_multiplier, is_incremental),
            );
            let after = declared.record_counters(uuid, samples);
            &&& after.packets.len() == state.packets.len() + 1 + samples.len()
            &&& state.packets.is_prefix_of(after.packets)
            &&& counter_values(after.packets) == counter_values(state.packets) + samples.len()
            &&& after.names == state.names
            &&& after.annotation_names == state.annotation_names
            &&& after.locations == state.locations
            &&& after.thread_tracks == state.thread_tracks
            &&& after.sequence_id == state.sequence_id
            &&& after.packets[state.packets.len() as int].interned_data is None
            &&& after.packets[state.packets.len() as int].track_descriptor() is Some
            &&& forall|i: int|
                0 <= i < samples.len() ==> #[trigger] after.packets[state.packets.len() + 1 + i]
                    == (TracePacketView {
                    trusted_packet_sequence_id: Some(state.sequence_id),
                    ..counter_packet(samples[i].0, uuid, samples[i].1)
                })
        }),
    decreases samples.len(),
{
    let declared = state.add_packet(
        counter_track_packet(uuid, name, unit, unit_name, unit_multiplier, is_incremental),
    );
    let after = declared.record_counters(uuid, samples);
    assert(declared.packets.drop_last() =~= state.packets);
    if samples.len() > 0 {
        lemma_counters_intern_nothing(
            state,
            uuid,
            name,
            unit,
            unit_name,
            unit_multiplier,
            is_incremental,
            samples.drop_last(),
        );
        let front = declared.record_counters(uuid, samples.drop_last());
        assert(after.packets.drop_last() =~= front.packets);
        assert forall|i: int| 0 <= i < samples.len() implies #[trigger] after.packets[state.packets.len()
            + 1 + i] == (TracePacketView {
            trusted_packet_sequence_id: Some(state.sequence_id),
            ..counter_packet(samples[i].0, uuid, samples[i].1)
        }) by {
            if i < samples.len() - 1 {
                assert(after.packets[state.packets.len() + 1 + i] == front.packets[
                    state.packets.len() + 1 + i]);
                assert(samples.drop_last()[i] == samples[i]);
            } else {
                assert(front.packets.len() == state.packets.len() + 1 + i);
                assert(after.packets[state.packets.len() + 1 + i] == after.packets.last());
            }
        }
    }
}

} // verus!
