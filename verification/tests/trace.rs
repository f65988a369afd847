use perfetto_recorder::packet::CounterDescriptor;
use perfetto_recorder::packet::CounterValue;
use perfetto_recorder::packet::DebugAnnotation;
use perfetto_recorder::packet::DebugAnnotationName;
use perfetto_recorder::packet::EventName;
use perfetto_recorder::packet::InternedData;
use perfetto_recorder::packet::PacketData;
use perfetto_recorder::packet::SourceLocation;
use perfetto_recorder::packet::ThreadDescriptor;
use perfetto_recorder::packet::TracePacket;
use perfetto_recorder::packet::TrackDescriptor;
use perfetto_recorder::packet::TrackEvent;
use perfetto_recorder::packet::TrackEventType;
use perfetto_recorder::packet::Unit;
use perfetto_recorder::packet::Value;
use perfetto_recorder::packet::CLOCK_ID;
use perfetto_recorder::read_marker;
use perfetto_recorder::start;
use perfetto_recorder::time;
use perfetto_recorder::Activation;
use perfetto_recorder::CounterUnit;
use perfetto_recorder::Event;
use perfetto_recorder::EventLog;
use perfetto_recorder::Marker;
use perfetto_recorder::RecordArg;
use perfetto_recorder::SourceInfo;
use perfetto_recorder::SpanGuard;
use perfetto_recorder::ThreadTraceData;
use perfetto_recorder::Timestamp;
use perfetto_recorder::TraceBuilder;
use perfetto_recorder::Uuid;

const FOO: SourceInfo = SourceInfo {
    name: "foo",
    file: "tests/trace.rs",
    line: 40,
    arg_names: &["value", "note"],
};

const BAR: SourceInfo = SourceInfo {
    name: "bar",
    file: "tests/trace.rs",
    line: 40,
    arg_names: &[],
};

const BAZ: SourceInfo = SourceInfo {
    name: "baz",
    file: "tests/trace.rs",
    line: 54,
    arg_names: &["value", "value"],
};

const FOUR: SourceInfo = SourceInfo {
    name: "foo",
    file: "src/lib.rs",
    line: 846,
    arg_names: &["value", "foo", "baz", "baz_owned"],
};

const NONE: SourceInfo = SourceInfo {
    name: "bar",
    file: "src/lib.rs",
    line: 853,
    arg_names: &[],
};

fn started() -> Activation {
    let mut activation = Activation::new(true);
    start(&mut activation).unwrap();
    activation
}

fn builder_with_id(sequence_id: u32) -> TraceBuilder {
    TraceBuilder::with_sequence_id(&started(), sequence_id).unwrap()
}

fn at(nanos: u64) -> Timestamp {
    Timestamp::from_unix_nanos(nanos)
}

fn track_event(packet: &TracePacket) -> &TrackEvent {
    match &packet.data {
        Some(PacketData::TrackEvent(event)) => event,
        other => panic!("no track event: {other:?}"),
    }
}

fn track_descriptor(packet: &TracePacket) -> &TrackDescriptor {
    match &packet.data {
        Some(PacketData::TrackDescriptor(descriptor)) => descriptor,
        other => panic!("no track descriptor: {other:?}"),
    }
}

fn thread_descriptors(packets: &[TracePacket]) -> usize {
    packets
        .iter()
        .filter(|packet| {
            matches!(&packet.data, Some(PacketData::TrackDescriptor(d)) if d.thread.is_some())
        })
        .count()
}

fn span(log: &mut EventLog, source: &'static SourceInfo, begin: u64, end: u64) {
    let activation = started();
    let guard = SpanGuard::begin_at(&activation, log, source, at(begin));
    guard.end_at(&activation, log, at(end));
}

#[test]
fn test_basic_usage() {
    let activation = started();
    let mut log = EventLog::new();
    {
        let foo = SpanGuard::begin(&activation, &mut log, &FOUR);
        1_u64.record_arg(&mut log);
        2_i64.record_arg(&mut log);
        "baz".record_arg(&mut log);
        "baz".to_owned().record_arg(&mut log);
        let bar = SpanGuard::begin(&activation, &mut log, &NONE);
        bar.end(&activation, &mut log);
        foo.end(&activation, &mut log);
    }

    let num_events = log.len();
    assert_eq!(num_events, 12);

    let mut builder = TraceBuilder::new(&activation).unwrap();
    let capture = ThreadTraceData::take_current_thread(&mut log, None);
    assert!(capture.is_well_formed());
    builder.process_thread_data(&capture);
    assert_eq!(builder.packets().len(), 6);
    let annotations = &track_event(&builder.packets()[2]).debug_annotations;
    assert_eq!(
        annotations,
        &vec![
            DebugAnnotation { name_iid: 1, value: Value::UintValue(1) },
            DebugAnnotation { name_iid: 2, value: Value::IntValue(2) },
            DebugAnnotation { name_iid: 3, value: Value::StringValue("baz".to_owned()) },
            DebugAnnotation { name_iid: 4, value: Value::StringValue("baz".to_owned()) },
        ]
    );
}

#[test]
fn test_counter_tracks() {
    let activation = started();

    let mut trace = TraceBuilder::new(&activation).unwrap();

    // Create different types of counter tracks
    let cpu_counter = trace.create_counter_track(
        "CPU Usage".to_string(),
        CounterUnit::Custom("%".to_string()),
        1,
        false,
    );

    let memory_counter =
        trace.create_counter_track("Memory".to_string(), CounterUnit::SizeBytes, 1024 * 1024, false);

    let count_counter = trace.create_counter_track(
        "Events".to_string(),
        CounterUnit::Count,
        1,
        true, // incremental
    );

    // Record some values
    let t1 = time();
    trace.record_counter_f64(cpu_counter, t1, 42.5f64.to_bits());
    trace.record_counter_i64(memory_counter, t1, 1024);
    trace.record_counter_i64(count_counter, t1, 100);

    let t2 = time();
    trace.record_counter_f64(cpu_counter, t2, 75.0f64.to_bits());
    trace.record_counter_i64(memory_counter, t2, 2048);
    trace.record_counter_i64(count_counter, t2, 50);

    // Every call has written its packet
    let packets = trace.packets();
    assert!(!packets.is_empty());
    assert_eq!(packets.len(), 10);

    assert_eq!(
        track_descriptor(&packets[1]),
        &TrackDescriptor {
            uuid: cpu_counter.uuid(),
            name: Some("CPU Usage".to_owned()),
            thread: None,
            counter: Some(CounterDescriptor {
                unit: Some(Unit::Unspecified),
                unit_name: Some("%".to_owned()),
                unit_multiplier: 1,
                is_incremental: false,
            }),
        }
    );
    assert_eq!(
        track_descriptor(&packets[2]),
        &TrackDescriptor {
            uuid: memory_counter.uuid(),
            name: Some("Memory".to_owned()),
            thread: None,
            counter: Some(CounterDescriptor {
                unit: Some(Unit::SizeBytes),
                unit_name: None,
                unit_multiplier: 1024 * 1024,
                is_incremental: false,
            }),
        }
    );
    assert_eq!(
        track_descriptor(&packets[3]),
        &TrackDescriptor {
            uuid: count_counter.uuid(),
            name: Some("Events".to_owned()),
            thread: None,
            counter: Some(CounterDescriptor {
                unit: Some(Unit::Count),
                unit_name: None,
                unit_multiplier: 1,
                is_incremental: true,
            }),
        }
    );

    let values: Vec<(u64, Option<CounterValue>)> = packets[4..]
        .iter()
        .map(|packet| (track_event(packet).track_uuid, track_event(packet).counter_value))
        .collect();
    assert_eq!(
        values,
        vec![
            (cpu_counter.uuid(), Some(CounterValue::Double(42.5f64.to_bits()))),
            (memory_counter.uuid(), Some(CounterValue::Int(1024))),
            (count_counter.uuid(), Some(CounterValue::Int(100))),
            (cpu_counter.uuid(), Some(CounterValue::Double(75.0f64.to_bits()))),
            (memory_counter.uuid(), Some(CounterValue::Int(2048))),
            (count_counter.uuid(), Some(CounterValue::Int(50))),
        ]
    );
    for packet in &packets[4..] {
        assert!(packet.timestamp.is_some());
        assert_eq!(packet.timestamp_clock_id, Some(CLOCK_ID));
        assert_eq!(track_event(packet).kind, TrackEventType::Counter);
    }
}

#[test]
fn builder_needs_recording_to_be_started() {
    let activation = Activation::new(true);
    match TraceBuilder::new(&activation) {
        Ok(_) => panic!("built a trace before recording was started"),
        Err(error) => assert_eq!(
            error.message(),
            "The `perfetto_recorder::start()` was not called"
        ),
    }
    assert!(TraceBuilder::new(&Activation::new(false)).is_err());
    assert!(TraceBuilder::new(&started()).is_ok());
    assert!(TraceBuilder::with_sequence_id(&activation, 1).is_err());
    assert!(TraceBuilder::with_sequence_id(&started(), 1).is_ok());
}

#[test]
fn new_builder_has_written_the_initial_packet() {
    let builder = builder_with_id(77);
    assert_eq!(builder.sequence_id(), 77);
    assert_eq!(
        builder.packets(),
        &vec![TracePacket {
            timestamp: None,
            timestamp_clock_id: None,
            data: None,
            trusted_packet_sequence_id: Some(77),
            interned_data: None,
            sequence_flags: Some(1),
        }]
    );
    let random = TraceBuilder::new(&started()).unwrap();
    assert_eq!(random.packets().len(), 1);
    assert_eq!(
        random.packets()[0].trusted_packet_sequence_id,
        Some(random.sequence_id())
    );
}

#[test]
fn end_to_end_scenario() {
    let activation = started();
    let mut log = EventLog::new();

    let foo = SpanGuard::begin_at(&activation, &mut log, &FOO, at(1_000));
    1u64.record_arg(&mut log);
    "hi".record_arg(&mut log);
    foo.end_at(&activation, &mut log, at(2_000));
    let bar = SpanGuard::begin_at(&activation, &mut log, &BAR, at(3_000));
    bar.end_at(&activation, &mut log, at(4_000));
    assert_eq!(log.len(), 10);

    let capture = ThreadTraceData::take_current_thread(&mut log, Some("main".to_owned()));
    assert_eq!(log.len(), 0);
    assert!(capture.is_well_formed());
    assert!(capture.pid() > 0);
    assert!(capture.tid() > 0);
    assert_eq!(capture.thread_name(), &Some("main".to_owned()));
    assert_eq!(capture.events().len(), 10);

    let mut builder = builder_with_id(5);
    builder.process_thread_data(&capture);
    let packets = builder.packets();
    assert_eq!(packets.len(), 6);

    assert_eq!(thread_descriptors(packets), 1);
    let descriptor = track_descriptor(&packets[1]);
    let track = descriptor.uuid;
    assert_eq!(
        descriptor,
        &TrackDescriptor {
            uuid: track,
            name: None,
            thread: Some(ThreadDescriptor {
                pid: capture.pid(),
                tid: capture.tid(),
                thread_name: Some("main".to_owned()),
            }),
            counter: None,
        }
    );
    assert_eq!(packets[1].timestamp, None);
    assert_eq!(packets[1].interned_data, None);

    assert_eq!(
        packets[2],
        TracePacket {
            timestamp: Some(1_000),
            timestamp_clock_id: Some(6),
            data: Some(PacketData::TrackEvent(TrackEvent {
                kind: TrackEventType::SliceBegin,
                track_uuid: track,
                name_iid: Some(1),
                source_location_iid: Some(1),
                debug_annotations: vec![
                    DebugAnnotation { name_iid: 1, value: Value::UintValue(1) },
                    DebugAnnotation { name_iid: 2, value: Value::StringValue("hi".to_owned()) },
                ],
                counter_value: None,
            })),
            trusted_packet_sequence_id: Some(5),
            interned_data: Some(InternedData {
                event_names: vec![EventName { iid: 1, name: "foo".to_owned() }],
                debug_annotation_names: vec![
                    DebugAnnotationName { iid: 1, name: "value".to_owned() },
                    DebugAnnotationName { iid: 2, name: "note".to_owned() },
                ],
                source_locations: vec![SourceLocation {
                    iid: 1,
                    file_name: "tests/trace.rs".to_owned(),
                    line_number: 40,
                }],
            }),
            sequence_flags: None,
        }
    );
    assert_eq!(
        packets[3],
        TracePacket {
            timestamp: Some(2_000),
            timestamp_clock_id: Some(6),
            data: Some(PacketData::TrackEvent(TrackEvent {
                kind: TrackEventType::SliceEnd,
                track_uuid: track,
                name_iid: Some(1),
                source_location_iid: Some(1),
                debug_annotations: vec![],
                counter_value: None,
            })),
            trusted_packet_sequence_id: Some(5),
            interned_data: None,
            sequence_flags: None,
        }
    );
    assert_eq!(
        packets[4],
        TracePacket {
            timestamp: Some(3_000),
            timestamp_clock_id: Some(6),
            data: Some(PacketData::TrackEvent(TrackEvent {
                kind: TrackEventType::SliceBegin,
                track_uuid: track,
                name_iid: Some(2),
                source_location_iid: Some(1),
                debug_annotations: vec![],
                counter_value: None,
            })),
            trusted_packet_sequence_id: Some(5),
            interned_data: Some(InternedData {
                event_names: vec![EventName { iid: 2, name: "bar".to_owned() }],
                debug_annotation_names: vec![],
                source_locations: vec![],
            }),
            sequence_flags: None,
        }
    );
    assert_eq!(
        packets[5],
        TracePacket {
            timestamp: Some(4_000),
            timestamp_clock_id: Some(6),
            data: Some(PacketData::TrackEvent(TrackEvent {
                kind: TrackEventType::SliceEnd,
                track_uuid: track,
                name_iid: Some(2),
                source_location_iid: Some(1),
                debug_annotations: vec![],
                counter_value: None,
            })),
            trusted_packet_sequence_id: Some(5),
            interned_data: None,
            sequence_flags: None,
        }
    );

    let locations: usize = packets
        .iter()
        .filter_map(|packet| packet.interned_data.as_ref())
        .map(|batch| batch.source_locations.len())
        .sum();
    assert_eq!(locations, 1);
}

#[test]
fn track_descriptor_is_written_once_for_a_thread() {
    let mut builder = builder_with_id(1);
    let mut log = EventLog::new();
    span(&mut log, &BAR, 1, 2);
    let first = ThreadTraceData::new(log.take(), 10, 11, Some("worker".to_owned()));
    span(&mut log, &BAR, 3, 4);
    let second = ThreadTraceData::new(log.take(), 10, 11, Some("worker".to_owned()));
    span(&mut log, &BAR, 5, 6);
    let other = ThreadTraceData::new(log.take(), 10, 12, None);

    builder.process_thread_data(&first);
    assert_eq!(thread_descriptors(builder.packets()), 1);
    assert_eq!(builder.packets().len(), 4);
    builder.process_thread_data(&second);
    assert_eq!(thread_descriptors(builder.packets()), 1);
    assert_eq!(builder.packets().len(), 6);
    builder.process_thread_data(&other);
    assert_eq!(thread_descriptors(builder.packets()), 2);
    assert_eq!(builder.packets().len(), 9);

    let packets = builder.packets();
    let worker = track_descriptor(&packets[1]).uuid;
    for i in [2, 3, 4, 5] {
        assert_eq!(track_event(&packets[i]).track_uuid, worker);
    }
    let unnamed = track_descriptor(&packets[6]);
    assert_eq!(
        unnamed.thread,
        Some(ThreadDescriptor { pid: 10, tid: 12, thread_name: None })
    );
    for i in [7, 8] {
        assert_eq!(track_event(&packets[i]).track_uuid, unnamed.uuid);
    }
}

#[test]
fn track_thread_keeps_the_first_track() {
    let mut builder = builder_with_id(1);
    let capture = ThreadTraceData::new(vec![], 3, 4, None);
    assert_eq!(builder.track_thread(&capture, Uuid(100)).0, 100);
    assert_eq!(builder.packets().len(), 2);
    assert_eq!(track_descriptor(&builder.packets()[1]).uuid, 100);
    assert_eq!(builder.track_thread(&capture, Uuid(200)).0, 100);
    assert_eq!(builder.packets().len(), 2);
}

#[test]
fn first_three_span_names_get_ids_one_two_three() {
    let mut builder = builder_with_id(1);
    let mut log = EventLog::new();
    span(&mut log, &BAR, 1, 2);
    span(&mut log, &BAZ_PLAIN, 3, 4);
    span(&mut log, &BAR, 5, 6);
    span(&mut log, &QUX, 7, 8);
    span(&mut log, &BAZ_PLAIN, 9, 10);
    span(&mut log, &QUX, 11, 12);
    span(&mut log, &BAR, 13, 14);
    let capture = ThreadTraceData::new(log.take(), 1, 1, None);
    assert!(capture.is_well_formed());
    builder.process_thread_data(&capture);

    let ids: Vec<Option<u64>> = builder.packets()[2..]
        .iter()
        .map(|packet| track_event(packet).name_iid)
        .collect();
    let expected: Vec<Option<u64>> = [1, 1, 2, 2, 1, 1, 3, 3, 2, 2, 3, 3, 1, 1]
        .iter()
        .map(|id| Some(*id))
        .collect();
    assert_eq!(ids, expected);

    let registered: Vec<(u64, String)> = builder
        .packets()
        .iter()
        .filter_map(|packet| packet.interned_data.as_ref())
        .flat_map(|batch| batch.event_names.iter())
        .map(|entry| (entry.iid, entry.name.clone()))
        .collect();
    assert_eq!(
        registered,
        vec![(1, "bar".to_owned()), (2, "baz".to_owned()), (3, "qux".to_owned())]
    );

    // The ids last beyond the capture.
    span(&mut log, &QUX, 15, 16);
    let later = ThreadTraceData::new(log.take(), 1, 2, None);
    builder.process_thread_data(&later);
    let last = builder.packets().last().unwrap();
    assert_eq!(track_event(last).name_iid, Some(3));
    assert_eq!(last.interned_data, None);
}

const BAZ_PLAIN: SourceInfo = SourceInfo {
    name: "baz",
    file: "tests/trace.rs",
    line: 54,
    arg_names: &[],
};

const QUX: SourceInfo = SourceInfo {
    name: "qux",
    file: "other.rs",
    line: 54,
    arg_names: &[],
};

#[test]
fn source_locations_are_interned_by_file_and_line() {
    let mut builder = builder_with_id(1);
    let mut log = EventLog::new();
    span(&mut log, &BAR, 1, 2);
    span(&mut log, &BAZ_PLAIN, 3, 4);
    span(&mut log, &QUX, 5, 6);
    span(&mut log, &FOO_PLAIN, 7, 8);
    let capture = ThreadTraceData::new(log.take(), 1, 1, None);
    builder.process_thread_data(&capture);
    let ids: Vec<Option<u64>> = builder.packets()[2..]
        .iter()
        .map(|packet| track_event(packet).source_location_iid)
        .collect();
    let expected: Vec<Option<u64>> =
        [1, 1, 2, 2, 3, 3, 1, 1].iter().map(|id| Some(*id)).collect();
    assert_eq!(ids, expected);
    let registered: Vec<&SourceLocation> = builder
        .packets()
        .iter()
        .filter_map(|packet| packet.interned_data.as_ref())
        .flat_map(|batch| batch.source_locations.iter())
        .collect();
    assert_eq!(
        registered,
        vec![
            &SourceLocation { iid: 1, file_name: "tests/trace.rs".to_owned(), line_number: 40 },
            &SourceLocation { iid: 2, file_name: "tests/trace.rs".to_owned(), line_number: 54 },
            &SourceLocation { iid: 3, file_name: "other.rs".to_owned(), line_number: 54 },
        ]
    );
}

const FOO_PLAIN: SourceInfo = SourceInfo {
    name: "foo",
    file: "tests/trace.rs",
    line: 40,
    arg_names: &[],
};

#[test]
fn argument_name_given_twice_is_registered_once() {
    let activation = started();
    let mut builder = builder_with_id(1);
    let mut log = EventLog::new();
    let guard = SpanGuard::begin_at(&activation, &mut log, &BAZ, at(1));
    true.record_arg(&mut log);
    (-3i32).record_arg(&mut log);
    guard.end_at(&activation, &mut log, at(2));
    let capture = ThreadTraceData::new(log.take(), 1, 1, None);
    assert!(capture.is_well_formed());
    builder.process_thread_data(&capture);
    let begin = &builder.packets()[2];
    assert_eq!(
        track_event(begin).debug_annotations,
        vec![
            DebugAnnotation { name_iid: 1, value: Value::BoolValue(true) },
            DebugAnnotation { name_iid: 1, value: Value::IntValue(-3) },
        ]
    );
    assert_eq!(
        begin.interned_data.as_ref().unwrap().debug_annotation_names,
        vec![DebugAnnotationName { iid: 1, name: "value".to_owned() }]
    );
}

#[test]
fn counters_stand_apart_from_spans() {
    let mut builder = builder_with_id(9);
    let counter =
        builder.create_counter_track("Load".to_owned(), CounterUnit::TimeNs, 1, false);
    for i in 0..100u64 {
        if i % 2 == 0 {
            builder.record_counter_i64(counter, at(i), i as i64 - 50);
        } else {
            builder.record_counter_f64(counter, at(i), (i as f64 / 2.0).to_bits());
        }
    }
    let packets = builder.packets();
    assert_eq!(packets.len(), 102);
    assert_eq!(
        track_descriptor(&packets[1]).counter,
        Some(CounterDescriptor {
            unit: Some(Unit::TimeNs),
            unit_name: None,
            unit_multiplier: 1,
            is_incremental: false,
        })
    );
    let values = packets
        .iter()
        .filter(|packet| {
            matches!(&packet.data, Some(PacketData::TrackEvent(e)) if e.kind == TrackEventType::Counter)
        })
        .count();
    assert_eq!(values, 100);
    assert!(packets.iter().all(|packet| packet.interned_data.is_none()));
    for (i, packet) in packets[2..].iter().enumerate() {
        let i = i as u64;
        let expected = if i % 2 == 0 {
            CounterValue::Int(i as i64 - 50)
        } else {
            CounterValue::Double((i as f64 / 2.0).to_bits())
        };
        assert_eq!(
            packet,
            &TracePacket {
                timestamp: Some(i),
                timestamp_clock_id: Some(6),
                data: Some(PacketData::TrackEvent(TrackEvent {
                    kind: TrackEventType::Counter,
                    track_uuid: counter.uuid(),
                    name_iid: None,
                    source_location_iid: None,
                    debug_annotations: vec![],
                    counter_value: Some(expected),
                })),
                trusted_packet_sequence_id: Some(9),
                interned_data: None,
                sequence_flags: None,
            }
        );
    }

    // A span after the counters still gets the first ids.
    let mut log = EventLog::new();
    span(&mut log, &BAR, 1, 2);
    builder.process_thread_data(&ThreadTraceData::new(log.take(), 1, 1, None));
    assert_eq!(track_event(&builder.packets()[103]).name_iid, Some(1));
}

#[test]
fn counter_units_map_to_their_descriptor() {
    assert_eq!(CounterUnit::Unspecified.to_proto_unit(), Some(Unit::Unspecified));
    assert_eq!(CounterUnit::TimeNs.to_proto_unit(), Some(Unit::TimeNs));
    assert_eq!(CounterUnit::Count.to_proto_unit(), Some(Unit::Count));
    assert_eq!(CounterUnit::SizeBytes.to_proto_unit(), Some(Unit::SizeBytes));
    assert_eq!(
        CounterUnit::Custom("fps".to_owned()).to_proto_unit(),
        Some(Unit::Unspecified)
    );
    assert_eq!(CounterUnit::Count.to_proto_unit_name(), None);
    assert_eq!(
        CounterUnit::Custom("fps".to_owned()).to_proto_unit_name(),
        Some("fps".to_owned())
    );
}

#[test]
fn monotonic_samples_resolve_near_the_wall_clock() {
    let activation = started();
    let mut log = EventLog::new();
    let guard = SpanGuard::begin(&activation, &mut log, &BAR);
    guard.end(&activation, &mut log);
    let mut builder = TraceBuilder::new(&activation).unwrap();
    builder.process_thread_data(&ThreadTraceData::take_current_thread(&mut log, None));
    let now = std::time::SystemTime::now()
        .duration_since(std::time::UNIX_EPOCH)
        .unwrap()
        .as_nanos() as u64;
    let hour = 3_600_000_000_000u64;
    let begin = builder.packets()[2].timestamp.unwrap();
    let end = builder.packets()[3].timestamp.unwrap();
    assert!(begin <= end);
    assert!(now - hour < begin && end < now + hour);
}

#[test]
fn uuids_differ() {
    let ids: Vec<u64> = (0..8).map(|_| Uuid::new().0).collect();
    for i in 0..ids.len() {
        for j in 0..i {
            assert_ne!(ids[i], ids[j]);
        }
    }
}

#[test]
fn malformed_logs_are_told_apart() {
    let stamp = || Event::Timestamp(at(1));
    let check = |events: Vec<Event>| ThreadTraceData::new(events, 1, 1, None).is_well_formed();

    assert!(check(vec![]));
    assert!(check(vec![Event::StartSpan(&BAR), stamp(), Event::EndSpan(&BAR), stamp()]));
    assert!(check(vec![Event::EndSpan(&BAR), stamp()]));
    // a marker without its timestamp
    assert!(!check(vec![Event::StartSpan(&BAR)]));
    assert!(!check(vec![Event::StartSpan(&BAR), Event::EndSpan(&BAR), stamp()]));
    // something else than a marker at the top level
    assert!(!check(vec![stamp()]));
    assert!(!check(vec![Event::Bool(true)]));
    assert!(!check(vec![Event::StartSpan(&BAR), stamp(), Event::U64(1)]));
    // too few values for the declared arguments
    assert!(!check(vec![Event::StartSpan(&FOO), stamp(), Event::U64(1)]));
    assert!(!check(vec![
        Event::StartSpan(&FOO),
        stamp(),
        Event::U64(1),
        Event::EndSpan(&FOO),
        stamp(),
    ]));
    // a string slice that does not end
    assert!(!check(vec![
        Event::StartSpan(&FOO),
        stamp(),
        Event::U64(1),
        Event::StrPart([b'a'; 15]),
    ]));
    assert!(check(vec![
        Event::StartSpan(&FOO),
        stamp(),
        Event::U64(1),
        Event::StrPart([b'a'; 15]),
        Event::StrEnd { len: 0, bytes: [0; 15] },
    ]));
    // the end of a span takes no values
    assert!(!check(vec![Event::EndSpan(&FOO), stamp(), Event::U64(1), Event::Bool(true)]));
}

#[test]
fn marker_is_read_with_its_values() {
    let events = vec![
        Event::StartSpan(&FOO),
        Event::Timestamp(at(5)),
        Event::F64(1.5f64.to_bits()),
        Event::String("owned".to_owned()),
        Event::EndSpan(&FOO),
        Event::Timestamp(at(6)),
    ];
    match read_marker(&events, 0) {
        Some((Marker { begin, source, args, .. }, next)) => {
            assert!(begin);
            assert_eq!(source.name, "foo");
            assert_eq!(
                args,
                vec![
                    Value::DoubleValue(1.5f64.to_bits()),
                    Value::StringValue("owned".to_owned())
                ]
            );
            assert_eq!(next, 4);
        }
        None => panic!("no marker"),
    }
    match read_marker(&events, 4) {
        Some((Marker { begin, args, .. }, next)) => {
            assert!(!begin);
            assert!(args.is_empty());
            assert_eq!(next, 6);
        }
        None => panic!("no marker"),
    }
    assert!(read_marker(&events, 1).is_none());
    assert!(read_marker(&events, 5).is_none());
    assert!(read_marker(&events, 6).is_none());
}

#[test]
fn emit_track_event_takes_time_and_track_as_given() {
    let mut builder = builder_with_id(2);
    let begin = Marker {
        begin: true,
        source: &BAR,
        stamp: time(),
        args: vec![],
    };
    builder.emit_track_event(begin, 123, Uuid(456));
    assert_eq!(
        builder.packets()[1],
        TracePacket {
            timestamp: Some(123),
            timestamp_clock_id: Some(6),
            data: Some(PacketData::TrackEvent(TrackEvent {
                kind: TrackEventType::SliceBegin,
                track_uuid: 456,
                name_iid: Some(1),
                source_location_iid: Some(1),
                debug_annotations: vec![],
                counter_value: None,
            })),
            trusted_packet_sequence_id: Some(2),
            interned_data: Some(InternedData {
                event_names: vec![EventName { iid: 1, name: "bar".to_owned() }],
                debug_annotation_names: vec![],
                source_locations: vec![SourceLocation {
                    iid: 1,
                    file_name: "tests/trace.rs".to_owned(),
                    line_number: 40,
                }],
            }),
            sequence_flags: None,
        }
    );
}
