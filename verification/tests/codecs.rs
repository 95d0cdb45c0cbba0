use rillrate::alert::AlertEvent;
use rillrate::alert::AlertState;
use rillrate::auth::AuthEvent;
use rillrate::auth::AuthState;
use rillrate::counter::CounterEvent;
use rillrate::counter::CounterState;
use rillrate::flow::pack_action;
use rillrate::flow::pack_delta;
use rillrate::flow::pack_state;
use rillrate::flow::unpack_action;
use rillrate::flow::unpack_delta;
use rillrate::flow::unpack_state;
use rillrate::flow::Flow;
use rillrate::flow::Metric;
use rillrate::flow::TimedEvent;
use rillrate::histogram::HistogramEvent;
use rillrate::histogram::HistogramState;
use rillrate::provider::PackedState;
use rillrate::provider::Timestamp;
use rillrate::pulse::PulseEvent;
use rillrate::pulse::PulseMetric;
use rillrate::pulse::PulseState;
use rillrate::pulse::Range;
use rillrate::selector::SelectorAction;
use rillrate::selector::SelectorEvent;
use rillrate::selector::SelectorState;

#[test]
fn counter_state_round_trip() {
    let state = CounterState { timestamp: Some(Timestamp(42)), value: -7 };
    let packed = pack_state(&state);
    let back: CounterState = unpack_state(&packed).unwrap();
    assert_eq!(back, state);

    let fresh = CounterState::default();
    assert_eq!(fresh, CounterState { timestamp: None, value: 0 });
    let packed = pack_state(&fresh);
    let back: CounterState = unpack_state(&packed).unwrap();
    assert_eq!(back, fresh);
}

#[test]
fn counter_apply_adds_and_stamps() {
    let mut state = CounterState::default();
    state.apply(TimedEvent { timestamp: Timestamp(5), event: CounterEvent::Increment(3) });
    state.apply(TimedEvent { timestamp: Timestamp(9), event: CounterEvent::Increment(-1) });
    assert_eq!(state.value, 2);
    assert_eq!(state.timestamp, Some(Timestamp(9)));
}

#[test]
fn counter_delta_round_trip_and_replay() {
    let delta = vec![
        TimedEvent { timestamp: Timestamp(1), event: CounterEvent::Increment(1) },
        TimedEvent { timestamp: Timestamp(2), event: CounterEvent::Increment(1) },
        TimedEvent { timestamp: Timestamp(3), event: CounterEvent::Increment(1) },
    ];
    let packed = pack_delta(&delta);
    let back: Vec<TimedEvent<CounterEvent>> = unpack_delta(&packed).unwrap();
    assert_eq!(back.len(), 3);
    let mut state = CounterState::default();
    for event in back {
        state.apply(event);
    }
    assert_eq!(state.value, 3);
    assert_eq!(state.timestamp, Some(Timestamp(3)));
}

#[test]
fn truncated_payload_is_rejected() {
    let state = CounterState { timestamp: Some(Timestamp(42)), value: -7 };
    let packed = pack_state(&state);
    let mut bytes = packed.0.clone();
    bytes.pop();
    assert!(unpack_state::<CounterState>(&PackedState(bytes)).is_err());
}

#[test]
fn trailing_bytes_are_rejected() {
    let state = CounterState { timestamp: None, value: 1 };
    let packed = pack_state(&state);
    let mut bytes = packed.0.clone();
    bytes.push(0);
    assert!(unpack_state::<CounterState>(&PackedState(bytes)).is_err());
}

#[test]
fn alert_event_text_survives_the_codec() {
    let delta = vec![TimedEvent {
        timestamp: Timestamp(10),
        event: AlertEvent { msg: "disk full: \u{00e9}\u{4e16}".to_string() },
    }];
    let packed = pack_delta(&delta);
    let back: Vec<TimedEvent<AlertEvent>> = unpack_delta(&packed).unwrap();
    assert_eq!(back.len(), 1);
    assert_eq!(back[0].timestamp, Timestamp(10));
    assert_eq!(back[0].event.msg, "disk full: \u{00e9}\u{4e16}");
}

#[test]
fn alert_state_is_empty() {
    let packed = pack_state(&AlertState::new());
    assert_eq!(packed.0.len(), 0);
    assert!(unpack_state::<AlertState>(&packed).is_ok());
}

#[test]
fn auth_round_trip_and_apply() {
    let mut state = AuthState::new();
    assert!(!state.authorized);
    state.apply(TimedEvent { timestamp: Timestamp(1), event: AuthEvent::Authorized(true) });
    assert!(state.authorized);
    let packed = pack_state(&state);
    let back: AuthState = unpack_state(&packed).unwrap();
    assert_eq!(back, state);
}

#[test]
fn selector_state_round_trip_and_apply() {
    let mut state = SelectorState::new(
        "color".to_string(),
        vec!["x".to_string(), "y".to_string(), "z".to_string()],
        "x".to_string(),
    );
    let packed = pack_state(&state);
    let back: SelectorState = unpack_state(&packed).unwrap();
    assert_eq!(back.selected, "x");
    assert_eq!(back.options, vec!["x", "y", "z"]);
    assert_eq!(back.label, "color");

    state.apply(TimedEvent {
        timestamp: Timestamp(4),
        event: SelectorEvent { select: "y".to_string() },
    });
    assert_eq!(state.selected, "y");

    // A selection outside the declared options leaves the state alone.
    state.apply(TimedEvent {
        timestamp: Timestamp(5),
        event: SelectorEvent { select: "w".to_string() },
    });
    assert_eq!(state.selected, "y");
}

#[test]
fn selector_action_round_trip() {
    let action = SelectorAction { select: "y".to_string() };
    let packed = pack_action(&action);
    let back: SelectorAction = unpack_action(&packed).unwrap();
    assert_eq!(back.select, "y");
}

#[test]
fn pulse_apply_clamps_the_view_only() {
    let mut state = PulseState::new(Some(4));
    state.set_range(Some(Range { min: 0, max: 10 }));
    let metric = PulseMetric { range: Some(Range { min: 0, max: 10 }) };
    metric.apply(&mut state, TimedEvent { timestamp: Timestamp(1), event: PulseEvent::SetTo(25) });
    // The recorded point is clamped, the running scalar is not.
    assert_eq!(state.value(), 25);
    assert_eq!(state.frame.len(), 1);
    assert_eq!(state.frame[0].event.value, 10);
    metric.apply(&mut state, TimedEvent { timestamp: Timestamp(2), event: PulseEvent::Dec(30) });
    assert_eq!(state.value(), -5);
    assert_eq!(state.frame[1].event.value, 0);
}

#[test]
fn pulse_frame_keeps_the_newest_depth_points() {
    let mut state = PulseState::new(Some(2));
    for k in 0..5i64 {
        state.apply(TimedEvent { timestamp: Timestamp(k), event: PulseEvent::Inc(1) });
    }
    assert_eq!(state.frame.len(), 2);
    assert_eq!(state.frame[0].timestamp, Timestamp(3));
    assert_eq!(state.frame[1].timestamp, Timestamp(4));
    assert_eq!(state.value(), 5);
}

#[test]
fn pulse_state_round_trip() {
    let mut state = PulseState::new(None);
    state.set_range(Some(Range { min: -5, max: 5 }));
    state.apply(TimedEvent { timestamp: Timestamp(1), event: PulseEvent::Inc(7) });
    state.apply(TimedEvent { timestamp: Timestamp(2), event: PulseEvent::Dec(3) });
    let packed = pack_state(&state);
    let back: PulseState = unpack_state(&packed).unwrap();
    assert_eq!(back.value(), state.value());
    assert_eq!(back.range, state.range);
    assert_eq!(back.frame.len(), 2);
    assert_eq!(back.frame[0].event.value, 5);
    assert_eq!(back.frame[1].event.value, 4);
}

#[test]
fn histogram_counts_into_the_smallest_fitting_bucket() {
    let mut state = HistogramState::new(vec![10, 100, 1000]);
    state.apply(TimedEvent { timestamp: Timestamp(1), event: HistogramEvent::Add(7) });
    state.apply(TimedEvent { timestamp: Timestamp(2), event: HistogramEvent::Add(42) });
    state.apply(TimedEvent { timestamp: Timestamp(3), event: HistogramEvent::Add(100) });
    state.apply(TimedEvent { timestamp: Timestamp(4), event: HistogramEvent::Add(5000) });
    assert_eq!(state.buckets[0].count, 1);
    assert_eq!(state.buckets[1].count, 2);
    assert_eq!(state.buckets[2].count, 0);
}

#[test]
fn histogram_scan_finds_the_smallest_bound_in_any_order() {
    let mut state = HistogramState::new(vec![1000, 10, 100]);
    state.apply(TimedEvent { timestamp: Timestamp(1), event: HistogramEvent::Add(42) });
    assert_eq!(state.buckets[0].count, 0);
    assert_eq!(state.buckets[1].count, 0);
    assert_eq!(state.buckets[2].count, 1);
}

#[test]
fn histogram_state_round_trip() {
    let mut state = HistogramState::new(vec![10, 100]);
    state.apply(TimedEvent { timestamp: Timestamp(1), event: HistogramEvent::Add(7) });
    let packed = pack_state(&state);
    let back: HistogramState = unpack_state(&packed).unwrap();
    assert_eq!(back.buckets[0].count, 1);
    assert_eq!(back.buckets[0].level, 10);
    assert_eq!(back.buckets[1].count, 0);
}

#[test]
fn pulse_metric_metadata_round_trip() {
    let metric = PulseMetric { range: Some(Range { min: 1, max: 9 }) };
    let packed = metric.pack_metric();
    let back = PulseMetric::unpack_metric(&packed).unwrap();
    assert_eq!(back, metric);

    let bare = PulseMetric { range: None };
    let packed = bare.pack_metric();
    assert_eq!(PulseMetric::unpack_metric(&packed).unwrap(), bare);
}

#[test]
fn timed_events_compare_by_timestamp_only() {
    // Intentional: equality and order go by time, to enable
    // merge-by-time downstream.
    let a = TimedEvent { timestamp: Timestamp(5), event: CounterEvent::Increment(1) };
    let b = TimedEvent { timestamp: Timestamp(5), event: CounterEvent::Increment(9) };
    let c = TimedEvent { timestamp: Timestamp(6), event: CounterEvent::Increment(1) };
    assert!(a == b);
    assert!(a < c);
    assert!(c > b);
    assert_eq!(b.into_inner(), CounterEvent::Increment(9));
}

#[test]
fn stream_types_carry_version_tokens() {
    assert_eq!(<CounterState as Flow>::stream_type().as_str(), "rillrate.counter.v0");
    assert_eq!(<PulseState as Flow>::stream_type().as_str(), "rillrate.pulse.v0");
    assert_eq!(<AlertState as Flow>::stream_type().as_str(), "rillrate.alert.v0");
    assert_eq!(<AuthState as Flow>::stream_type().as_str(), "rillrate.auth.v0");
    assert_eq!(<SelectorState as Flow>::stream_type().as_str(), "rillrate.selector.v0");
    assert_eq!(<HistogramState as Flow>::stream_type().as_str(), "rillrate.histogram.v0");
}
