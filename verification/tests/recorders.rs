use rillrate::counter::CounterEvent;
use rillrate::counter::CounterState;
use rillrate::flow::pack_action;
use rillrate::flow::unpack_delta;
use rillrate::flow::unpack_state;
use rillrate::flow::Flow;
use rillrate::flow::TimedEvent;
use rillrate::protocol::Direction;
use rillrate::protocol::DirectId;
use rillrate::protocol::ProviderReqId;
use rillrate::provider::Description;
use rillrate::provider::FlowControl;
use rillrate::provider::PackedMetric;
use rillrate::provider::Path;
use rillrate::provider::ProviderToServer;
use rillrate::provider::RecorderAction;
use rillrate::provider::RecorderRequest;
use rillrate::provider::StreamType;
use rillrate::provider::Timestamp;
use rillrate::recorder::Recorder;
use rillrate::recorder::RecorderWarning;
use rillrate::recorder::TracerMode;
use rillrate::selector::SelectorAction;
use rillrate::selector::SelectorEvent;
use rillrate::selector::SelectorState;

fn counter_description() -> Description {
    Description {
        path: Path::parse("a.b").unwrap(),
        info: "a.b counter".to_string(),
        stream_type: StreamType::of_str("rillrate.counter.v0"),
        metadata: PackedMetric(Vec::new()),
    }
}

fn id(value: u64) -> ProviderReqId {
    DirectId::from_value(value)
}

#[test]
fn counter_happy_path() {
    // Subscribe one id, push three increments, and replay what it saw.
    let mut recorder = Recorder::new(
        counter_description(),
        TracerMode::Push { state: CounterState::default() },
    );
    let start = RecorderRequest::ControlStream(FlowControl::StartStream);
    let out = recorder.handle_request(id(7), start, Timestamp(0), None);
    assert_eq!(out.responses.len(), 1);
    assert!(matches!(out.responses[0].direction, Direction::Direct(d) if d.to_value() == 7));
    let snapshot = match &out.responses[0].data {
        ProviderToServer::State { state } => {
            unpack_state::<CounterState>(state).unwrap()
        },
        _ => panic!("the first frame after a subscription must be the state"),
    };
    assert_eq!(snapshot.value, 0);

    let chunk = vec![
        TimedEvent { timestamp: Timestamp(10), event: CounterEvent::Increment(1) },
        TimedEvent { timestamp: Timestamp(20), event: CounterEvent::Increment(1) },
        TimedEvent { timestamp: Timestamp(30), event: CounterEvent::Increment(1) },
    ];
    let out = recorder.handle_chunk(chunk);
    assert_eq!(out.responses.len(), 1);
    assert!(matches!(out.responses[0].direction, Direction::Direct(d) if d.to_value() == 7));
    let delta = match &out.responses[0].data {
        ProviderToServer::Data { delta } => unpack_delta::<CounterEvent>(delta).unwrap(),
        _ => panic!("a pushed chunk must fan out as data"),
    };
    assert_eq!(delta.len(), 3);
    let mut state = snapshot;
    for event in delta {
        state.apply(event);
    }
    assert_eq!(state.value, 3);
}

#[test]
fn unsubscribe_sends_end_stream_and_stops_traffic() {
    let mut recorder = Recorder::new(
        counter_description(),
        TracerMode::Push { state: CounterState::default() },
    );
    recorder.handle_request(
        id(7),
        RecorderRequest::ControlStream(FlowControl::StartStream),
        Timestamp(0),
        None,
    );
    let out = recorder.handle_request(
        id(7),
        RecorderRequest::ControlStream(FlowControl::StopStream),
        Timestamp(1),
        None,
    );
    assert_eq!(out.responses.len(), 1);
    assert!(matches!(out.responses[0].data, ProviderToServer::EndStream));
    assert!(matches!(out.responses[0].direction, Direction::Direct(d) if d.to_value() == 7));

    let chunk = vec![TimedEvent { timestamp: Timestamp(2), event: CounterEvent::Increment(1) }];
    let out = recorder.handle_chunk(chunk);
    assert_eq!(out.responses.len(), 0);
}

#[test]
fn double_subscribe_is_a_warning_not_an_error() {
    let mut recorder = Recorder::new(
        counter_description(),
        TracerMode::Push { state: CounterState::default() },
    );
    let start = RecorderRequest::ControlStream(FlowControl::StartStream);
    recorder.handle_request(id(7), start.clone(), Timestamp(0), None);
    let out = recorder.handle_request(id(7), start, Timestamp(1), None);
    assert_eq!(out.responses.len(), 0);
    assert_eq!(out.warnings, vec![RecorderWarning::DoubleSubscribe]);
}

#[test]
fn unknown_unsubscribe_is_a_warning() {
    let mut recorder = Recorder::new(
        counter_description(),
        TracerMode::Push { state: CounterState::default() },
    );
    let out = recorder.handle_request(
        id(9),
        RecorderRequest::ControlStream(FlowControl::StopStream),
        Timestamp(0),
        None,
    );
    assert_eq!(out.responses.len(), 0);
    assert_eq!(out.warnings, vec![RecorderWarning::UnknownUnsubscribe]);
}

#[test]
fn direction_mapping_follows_the_subscriber_count() {
    // No subscribers maps to broadcast, one to direct, many to multicast.
    let empty: Vec<ProviderReqId> = Vec::new();
    assert!(matches!(Direction::from_set(&empty), Direction::Broadcast));
    let one = vec![id(5)];
    assert!(matches!(Direction::from_set(&one), Direction::Direct(d) if d.to_value() == 5));
    let many = vec![id(5), id(6)];
    match Direction::from_set(&many) {
        Direction::Multicast(ids) => {
            assert_eq!(ids.len(), 2);
            assert_eq!(ids[0].to_value(), 5);
            assert_eq!(ids[1].to_value(), 6);
        },
        _ => panic!("two subscribers must map to multicast"),
    }
}

#[test]
fn graceful_shutdown_ends_every_subscriber_once() {
    let mut recorder = Recorder::new(
        counter_description(),
        TracerMode::Push { state: CounterState::default() },
    );
    let start = RecorderRequest::ControlStream(FlowControl::StartStream);
    recorder.handle_request(id(1), start.clone(), Timestamp(0), None);
    recorder.handle_request(id(2), start, Timestamp(0), None);
    let out = recorder.graceful_shutdown();
    assert_eq!(out.len(), 1);
    assert!(matches!(out[0].data, ProviderToServer::EndStream));
    let targets = out[0].direction.clone().to_vec();
    assert_eq!(targets.len(), 2);

    // Afterwards requests are dropped silently.
    let mut recorder = recorder;
    let out = recorder.handle_request(
        id(3),
        RecorderRequest::ControlStream(FlowControl::StartStream),
        Timestamp(1),
        None,
    );
    assert_eq!(out.responses.len(), 0);
    assert_eq!(out.warnings.len(), 0);
}

#[test]
fn shutdown_with_no_subscribers_sends_nothing() {
    let mut recorder = Recorder::<CounterState>::new(
        counter_description(),
        TracerMode::Push { state: CounterState::default() },
    );
    let out = recorder.graceful_shutdown();
    assert_eq!(out.len(), 0);
}

#[test]
fn disconnect_clears_subscribers_without_frames() {
    let mut recorder = Recorder::new(
        counter_description(),
        TracerMode::Push { state: CounterState::default() },
    );
    let start = RecorderRequest::ControlStream(FlowControl::StartStream);
    recorder.handle_request(id(5), start, Timestamp(0), None);
    recorder.connection_changed(false);
    let chunk = vec![TimedEvent { timestamp: Timestamp(1), event: CounterEvent::Increment(1) }];
    let out = recorder.handle_chunk(chunk);
    assert_eq!(out.responses.len(), 0);
}

#[test]
fn pull_tick_snapshots_to_subscribers() {
    let mut recorder = Recorder::<CounterState>::new(
        counter_description(),
        TracerMode::Pull { interval_ms: 50 },
    );
    let canonical = CounterState { timestamp: Some(Timestamp(3)), value: 11 };
    let start = RecorderRequest::ControlStream(FlowControl::StartStream);
    let out = recorder.handle_request(id(1), start, Timestamp(0), Some(&canonical));
    assert_eq!(out.responses.len(), 1);

    let out = recorder.handle_tick(Some(&canonical));
    assert_eq!(out.responses.len(), 1);
    assert!(!out.shutdown);
    match &out.responses[0].data {
        ProviderToServer::State { state } => {
            let back = unpack_state::<CounterState>(state).unwrap();
            assert_eq!(back.value, 11);
        },
        _ => panic!("a pull tick must refresh the state"),
    }
}

#[test]
fn pull_cadence_sends_repeated_snapshots_and_no_data() {
    // Four ticks deliver four state frames and nothing else.
    let mut recorder = Recorder::<CounterState>::new(
        counter_description(),
        TracerMode::Pull { interval_ms: 50 },
    );
    let canonical = CounterState { timestamp: Some(Timestamp(1)), value: 5 };
    let start = RecorderRequest::ControlStream(FlowControl::StartStream);
    recorder.handle_request(id(1), start, Timestamp(0), Some(&canonical));
    let mut states = 0;
    for _ in 0..4 {
        let out = recorder.handle_tick(Some(&canonical));
        for envelope in &out.responses {
            match &envelope.data {
                ProviderToServer::State { .. } => states += 1,
                ProviderToServer::Data { .. } => panic!("a pull stream never fans out data"),
                _ => panic!("a pull tick only refreshes the state"),
            }
        }
    }
    assert_eq!(states, 4);

    // A tick with no subscribers is silent.
    let mut idle = Recorder::<CounterState>::new(
        counter_description(),
        TracerMode::Pull { interval_ms: 50 },
    );
    let out = idle.handle_tick(Some(&canonical));
    assert_eq!(out.responses.len(), 0);
}

#[test]
fn pull_tick_without_state_shuts_down() {
    let mut recorder = Recorder::<CounterState>::new(
        counter_description(),
        TracerMode::Pull { interval_ms: 50 },
    );
    let canonical = CounterState::default();
    let start = RecorderRequest::ControlStream(FlowControl::StartStream);
    recorder.handle_request(id(1), start, Timestamp(0), Some(&canonical));
    let out = recorder.handle_tick(None);
    assert!(out.shutdown);
    assert_eq!(out.responses.len(), 1);
    assert!(matches!(out.responses[0].data, ProviderToServer::EndStream));
    assert_eq!(out.warnings, vec![RecorderWarning::StateUnavailable]);
}

#[test]
fn watched_action_round_trip() {
    let initial = SelectorState::new(
        "color".to_string(),
        vec!["x".to_string(), "y".to_string(), "z".to_string()],
        "x".to_string(),
    );
    let description = Description {
        path: Path::parse("a.sel").unwrap(),
        info: "a.sel selector".to_string(),
        stream_type: StreamType::of_str("rillrate.selector.v0"),
        metadata: PackedMetric(Vec::new()),
    };
    let mut recorder = Recorder::new(description, TracerMode::Watched { state: initial });
    let start = RecorderRequest::ControlStream(FlowControl::StartStream);
    recorder.handle_request(id(2), start, Timestamp(0), None);

    let action = pack_action(&SelectorAction { select: "y".to_string() });
    let out = recorder.handle_request(
        id(2),
        RecorderRequest::Action(RecorderAction::DoEvent(action)),
        Timestamp(77),
        None,
    );
    // The watcher observes the event.
    assert_eq!(out.watch_events.len(), 1);
    assert_eq!(out.watch_events[0].event.select, "y");
    assert_eq!(out.watch_events[0].timestamp, Timestamp(77));
    // The subscriber receives it as a one-event delta.
    assert_eq!(out.responses.len(), 1);
    let delta = match &out.responses[0].data {
        ProviderToServer::Data { delta } => unpack_delta::<SelectorEvent>(delta).unwrap(),
        _ => panic!("a watched event must fan out as data"),
    };
    assert_eq!(delta.len(), 1);
    assert_eq!(delta[0].event.select, "y");
    assert_eq!(delta[0].timestamp, Timestamp(77));
    // The state transitioned.
    let out = recorder.handle_request(
        id(2),
        RecorderRequest::Action(RecorderAction::GetSnapshot),
        Timestamp(78),
        None,
    );
    match &out.responses[0].data {
        ProviderToServer::State { state } => {
            let back = unpack_state::<SelectorState>(state).unwrap();
            assert_eq!(back.selected, "y");
        },
        _ => panic!("a snapshot request must answer with the state"),
    }
}

#[test]
fn do_event_in_push_mode_is_ignored_with_a_warning() {
    let mut recorder = Recorder::new(
        counter_description(),
        TracerMode::Push { state: CounterState::default() },
    );
    let start = RecorderRequest::ControlStream(FlowControl::StartStream);
    recorder.handle_request(id(7), start, Timestamp(0), None);
    let action = pack_action(&CounterEvent::Increment(5));
    let out = recorder.handle_request(
        id(7),
        RecorderRequest::Action(RecorderAction::DoEvent(action)),
        Timestamp(1),
        None,
    );
    assert_eq!(out.responses.len(), 0);
    assert_eq!(out.watch_events.len(), 0);
    assert_eq!(out.warnings, vec![RecorderWarning::ModeViolation]);

    // Subsequent legitimate traffic is unaffected.
    let chunk = vec![TimedEvent { timestamp: Timestamp(2), event: CounterEvent::Increment(1) }];
    let out = recorder.handle_chunk(chunk);
    assert_eq!(out.responses.len(), 1);
}

#[test]
fn get_flow_answers_with_the_description() {
    let mut recorder = Recorder::new(
        counter_description(),
        TracerMode::Push { state: CounterState::default() },
    );
    let out = recorder.handle_request(
        id(4),
        RecorderRequest::Action(RecorderAction::GetFlow),
        Timestamp(0),
        None,
    );
    assert_eq!(out.responses.len(), 1);
    match &out.responses[0].data {
        ProviderToServer::Description { list } => {
            assert_eq!(list.len(), 1);
            assert_eq!(list[0].path.to_text(), "a.b");
            assert_eq!(list[0].info, "a.b counter");
        },
        _ => panic!("a flow request must answer with the description"),
    }
}

#[test]
fn corrupted_action_yields_an_error_frame() {
    let initial = SelectorState::new("c".to_string(), vec!["x".to_string()], "x".to_string());
    let description = Description {
        path: Path::parse("a.sel").unwrap(),
        info: "a.sel selector".to_string(),
        stream_type: StreamType::of_str("rillrate.selector.v0"),
        metadata: PackedMetric(Vec::new()),
    };
    let mut recorder = Recorder::new(description, TracerMode::Watched { state: initial });
    let bogus = rillrate::provider::PackedAction(vec![1, 2, 3]);
    let out = recorder.handle_request(
        id(2),
        RecorderRequest::Action(RecorderAction::DoEvent(bogus)),
        Timestamp(0),
        None,
    );
    assert_eq!(out.responses.len(), 1);
    assert!(matches!(out.responses[0].data, ProviderToServer::Error { .. }));
    assert_eq!(out.watch_events.len(), 0);
}

#[test]
fn timestamps_to_one_subscriber_are_monotone() {
    // The subscriber misses the chunks sent while it was away, yet what
    // it does receive never steps back in time.
    let mut recorder = Recorder::new(
        counter_description(),
        TracerMode::Push { state: CounterState::default() },
    );
    let start = RecorderRequest::ControlStream(FlowControl::StartStream);
    let stop = RecorderRequest::ControlStream(FlowControl::StopStream);
    let mut seen: Vec<i64> = Vec::new();
    let mut observe = |out: rillrate::recorder::RecorderOutput<CounterState>,
                       seen: &mut Vec<i64>| {
        for envelope in &out.responses {
            if let ProviderToServer::Data { delta } = &envelope.data {
                for event in unpack_delta::<CounterEvent>(delta).unwrap() {
                    seen.push(event.timestamp.as_millis());
                }
            }
        }
    };
    let chunk = |ts: &[i64]| -> Vec<TimedEvent<CounterEvent>> {
        ts.iter()
            .map(|&t| TimedEvent { timestamp: Timestamp(t), event: CounterEvent::Increment(1) })
            .collect()
    };
    recorder.handle_request(id(7), start.clone(), Timestamp(0), None);
    observe(recorder.handle_chunk(chunk(&[1, 2])), &mut seen);
    recorder.handle_request(id(7), stop, Timestamp(2), None);
    observe(recorder.handle_chunk(chunk(&[3, 4])), &mut seen);
    recorder.handle_request(id(7), start, Timestamp(4), None);
    observe(recorder.handle_chunk(chunk(&[5, 6])), &mut seen);
    assert_eq!(seen, vec![1, 2, 5, 6]);
    for pair in seen.windows(2) {
        assert!(pair[0] <= pair[1]);
    }
}

#[test]
fn recorder_name_carries_the_path() {
    let recorder = Recorder::<CounterState>::new(
        counter_description(),
        TracerMode::Push { state: CounterState::default() },
    );
    assert_eq!(recorder.name(), "Recorder(a.b)");
}
