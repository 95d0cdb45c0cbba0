use rillrate::exporter::ExportRecord;
use rillrate::exporter::PrometheusPublisher;
use rillrate::provider::Description;
use rillrate::provider::PackedMetric;
use rillrate::provider::Path;
use rillrate::provider::StreamType;
use rillrate::provider::Timestamp;
use rillrate::tracers::AuthWatcher;
use rillrate::tracers::HistogramTracer;
use rillrate::tracers::PulseTracer;
use rillrate::tracers::SelectorWatcher;
use rillrate::auth::AuthEvent;
use rillrate::flow::TimedEvent;
use rillrate::histogram::HistogramEvent;
use rillrate::pulse::PulseEvent;
use rillrate::selector::SelectorEvent;
use rillrate::text::i64_text;
use rillrate::text::u64_text;

fn describe(path: &str, info: &str, stream_type: &str) -> Description {
    Description {
        path: Path::parse(path).unwrap(),
        info: info.to_string(),
        stream_type: StreamType::of_str(stream_type),
        metadata: PackedMetric(Vec::new()),
    }
}

#[test]
fn decimal_text_forms() {
    assert_eq!(u64_text(0), "0");
    assert_eq!(u64_text(42), "42");
    assert_eq!(u64_text(18446744073709551615), "18446744073709551615");
    assert_eq!(i64_text(0), "0");
    assert_eq!(i64_text(1234), "1234");
    assert_eq!(i64_text(-1), "-1");
    assert_eq!(i64_text(i64::MIN), "-9223372036854775808");
    assert_eq!(i64_text(i64::MAX), "9223372036854775807");
}

#[test]
fn publisher_subscribes_to_configured_paths_only() {
    let config = vec![Path::parse("a.b").unwrap()];
    let mut publisher = PrometheusPublisher::create(config);
    let wanted = describe("a.b", "a.b counter", "rillrate.counter.v0");
    let other = describe("c.d", "c.d counter", "rillrate.counter.v0");
    let subscribe = publisher.handle_path_notification(vec![wanted, other]);
    assert_eq!(subscribe.len(), 1);
    assert_eq!(subscribe[0].to_text(), "a.b");
}

#[test]
fn scrape_renders_one_record_per_sampled_path() {
    let config = vec![Path::parse("a.b").unwrap(), Path::parse("a.c").unwrap()];
    let mut publisher = PrometheusPublisher::create(config);
    publisher.handle_path_notification(vec![
        describe("a.b", "requests served", "rillrate.counter.v0"),
        describe("a.c", "queue depth", "rillrate.pulse.v0"),
    ]);
    // No samples yet: nothing renders.
    assert_eq!(publisher.render(), "");

    publisher.handle_export_event(&Path::parse("a.b").unwrap(), 3, Timestamp(1000));
    assert_eq!(
        publisher.render(),
        "# HELP requests served\n# TYPE a_b counter\na_b 3 1000\n\n"
    );

    publisher.handle_export_event(&Path::parse("a.c").unwrap(), -7, Timestamp(2500));
    assert_eq!(
        publisher.render(),
        "# HELP requests served\n# TYPE a_b counter\na_b 3 1000\n\n\
         # HELP queue depth\n# TYPE a_c gauge\na_c -7 2500\n\n"
    );

    // A later sample replaces the buffered one: the scrape never shows
    // a stale value.
    publisher.handle_export_event(&Path::parse("a.b").unwrap(), 9, Timestamp(3000));
    assert_eq!(
        publisher.render(),
        "# HELP requests served\n# TYPE a_b counter\na_b 9 3000\n\n\
         # HELP queue depth\n# TYPE a_c gauge\na_c -7 2500\n\n"
    );
}

#[test]
fn scrape_lists_paths_in_ascending_order() {
    // Notifications arrive out of order; the scrape still lists the
    // paths ascending.
    let config = vec![
        Path::parse("b.x").unwrap(),
        Path::parse("a.y").unwrap(),
        Path::parse("a.b.c").unwrap(),
    ];
    let mut publisher = PrometheusPublisher::create(config);
    publisher.handle_path_notification(vec![
        describe("b.x", "third", "rillrate.counter.v0"),
        describe("a.y", "second", "rillrate.pulse.v0"),
        describe("a.b.c", "first", "rillrate.counter.v0"),
    ]);
    publisher.handle_export_event(&Path::parse("b.x").unwrap(), 3, Timestamp(3));
    publisher.handle_export_event(&Path::parse("a.y").unwrap(), 2, Timestamp(2));
    publisher.handle_export_event(&Path::parse("a.b.c").unwrap(), 1, Timestamp(1));
    assert_eq!(
        publisher.render(),
        "# HELP first\n# TYPE a_b_c counter\na_b_c 1 1\n\n\
         # HELP second\n# TYPE a_y gauge\na_y 2 2\n\n\
         # HELP third\n# TYPE b_x counter\nb_x 3 3\n\n"
    );
}

#[test]
fn scrape_skips_stream_kinds_it_does_not_know() {
    let config = vec![Path::parse("a.x").unwrap()];
    let mut publisher = PrometheusPublisher::create(config);
    publisher.handle_path_notification(vec![describe("a.x", "alerts", "rillrate.alert.v0")]);
    publisher.handle_export_event(&Path::parse("a.x").unwrap(), 1, Timestamp(5));
    assert_eq!(publisher.render(), "");
}

#[test]
fn samples_for_unknown_paths_are_dropped() {
    let config = vec![Path::parse("a.b").unwrap()];
    let mut publisher = PrometheusPublisher::create(config);
    publisher.handle_export_event(&Path::parse("a.b").unwrap(), 1, Timestamp(5));
    assert_eq!(publisher.render(), "");
}

#[test]
fn export_record_fields_carry_through() {
    let record = ExportRecord {
        description: describe("a.b", "x", "rillrate.counter.v0"),
        data: Some((9, Timestamp(2))),
    };
    assert_eq!(record.data.unwrap().0, 9);
}

#[test]
fn pulse_tracer_queues_its_events() {
    let mut tracer = PulseTracer::new(Path::parse("app.load").unwrap());
    assert_eq!(tracer.description().info, "app.load pulse");
    assert_eq!(tracer.description().stream_type.as_str(), "rillrate.pulse.v0");
    tracer.inc(2, Timestamp(1));
    tracer.dec(1, Timestamp(2));
    tracer.set(10, Timestamp(3));
    let pending = tracer.take_pending();
    assert_eq!(pending.len(), 3);
    assert!(matches!(pending[0].event, PulseEvent::Inc(2)));
    assert!(matches!(pending[1].event, PulseEvent::Dec(1)));
    assert!(matches!(pending[2].event, PulseEvent::SetTo(10)));
    assert_eq!(tracer.take_pending().len(), 0);
}

#[test]
fn histogram_tracer_queues_observations() {
    let mut tracer = HistogramTracer::new(Path::parse("app.sizes").unwrap(), vec![10, 100]);
    tracer.add(7, Timestamp(1));
    let pending = tracer.take_pending();
    assert_eq!(pending.len(), 1);
    assert!(matches!(pending[0].event, HistogramEvent::Add(7)));
}

#[test]
fn auth_watcher_queues_decisions() {
    let mut watcher = AuthWatcher::new(Path::parse("app.auth").unwrap());
    watcher.authorized(true, Timestamp(4));
    let pending = watcher.take_pending();
    assert_eq!(pending.len(), 1);
    assert!(matches!(pending[0].event, AuthEvent::Authorized(true)));
}

#[test]
fn selector_watcher_resolves_delivered_selections() {
    let mut watcher = SelectorWatcher::new(
        Path::parse("app.mode").unwrap(),
        "mode".to_string(),
        vec!["x".to_string(), "y".to_string()],
        "x".to_string(),
    );
    assert_eq!(watcher.initial_state().selected, "x");
    assert!(watcher.poll_select().is_none());
    watcher.deliver(TimedEvent {
        timestamp: Timestamp(9),
        event: SelectorEvent { select: "y".to_string() },
    });
    assert_eq!(watcher.poll_select().unwrap(), "y");
    assert!(watcher.poll_select().is_none());
}
