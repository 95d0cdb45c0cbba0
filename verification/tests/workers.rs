use rillrate::counter::CounterState;
use rillrate::protocol::Direction;
use rillrate::protocol::DirectId;
use rillrate::protocol::ProviderReqId;
use rillrate::provider::Description;
use rillrate::provider::EntryId;
use rillrate::provider::FlowControl;
use rillrate::provider::PackedMetric;
use rillrate::provider::Path;
use rillrate::provider::ProviderToServer;
use rillrate::provider::RecorderAction;
use rillrate::provider::RecorderRequest;
use rillrate::provider::ServerToProvider;
use rillrate::provider::StreamType;
use rillrate::recorder::Recorder;
use rillrate::recorder::TracerMode;
use rillrate::sender::RillSender;
use rillrate::worker::RillWorker;
use rillrate::worker::WorkerError;

fn describe(path: &str) -> Description {
    Description {
        path: Path::parse(path).unwrap(),
        info: format!("{} counter", path),
        stream_type: StreamType::of_str("rillrate.counter.v0"),
        metadata: PackedMetric(Vec::new()),
    }
}

fn id(value: u64) -> ProviderReqId {
    DirectId::from_value(value)
}

#[test]
fn registration_assigns_slots_and_rejects_duplicates() {
    let mut worker = RillWorker::new(EntryId::from_str("my-app"));
    let (slot, out) = worker.register_tracer(describe("a.b"));
    assert_eq!(slot.unwrap(), 0);
    assert_eq!(out.len(), 0);
    let (slot, _) = worker.register_tracer(describe("a.c"));
    assert_eq!(slot.unwrap(), 1);
    let (slot, out) = worker.register_tracer(describe("a.b"));
    assert_eq!(slot.unwrap_err(), WorkerError::PathConflict);
    assert_eq!(out.len(), 0);
}

#[test]
fn control_stream_routes_by_path() {
    let mut worker = RillWorker::new(EntryId::from_str("my-app"));
    worker.register_tracer(describe("a.b"));
    worker.register_tracer(describe("a.c"));
    let out = worker.route(
        id(7),
        ServerToProvider::ControlStream { path: Path::parse("a.c").unwrap(), active: true },
    );
    assert_eq!(out.responses.len(), 0);
    assert_eq!(out.routed.len(), 1);
    assert_eq!(out.routed[0].slot, 1);
    assert_eq!(out.routed[0].id.to_value(), 7);
    assert!(matches!(
        out.routed[0].request,
        RecorderRequest::ControlStream(FlowControl::StartStream)
    ));

    let out = worker.route(
        id(7),
        ServerToProvider::ControlStream { path: Path::parse("a.c").unwrap(), active: false },
    );
    assert!(matches!(
        out.routed[0].request,
        RecorderRequest::ControlStream(FlowControl::StopStream)
    ));
}

#[test]
fn unknown_paths_answer_with_an_error() {
    let mut worker = RillWorker::new(EntryId::from_str("my-app"));
    worker.register_tracer(describe("a.b"));
    let out = worker.route(
        id(3),
        ServerToProvider::GetSnapshot { path: Path::parse("no.such").unwrap() },
    );
    assert_eq!(out.routed.len(), 0);
    assert_eq!(out.responses.len(), 1);
    assert!(matches!(out.responses[0].data, ProviderToServer::Error { .. }));
    assert!(matches!(out.responses[0].direction, Direction::Direct(d) if d.to_value() == 3));
}

#[test]
fn get_snapshot_routes_without_subscribing() {
    let mut worker = RillWorker::new(EntryId::from_str("my-app"));
    worker.register_tracer(describe("a.b"));
    let out = worker.route(
        id(4),
        ServerToProvider::GetSnapshot { path: Path::parse("a.b").unwrap() },
    );
    assert_eq!(out.routed.len(), 1);
    assert_eq!(out.routed[0].slot, 0);
    assert!(matches!(
        out.routed[0].request,
        RecorderRequest::Action(RecorderAction::GetSnapshot)
    ));
}

#[test]
fn describe_lists_everything_and_pushes_later_additions() {
    let mut worker = RillWorker::new(EntryId::from_str("my-app"));
    worker.register_tracer(describe("a.b"));
    let out = worker.route(id(9), ServerToProvider::Describe { active: true });
    assert_eq!(out.routed.len(), 0);
    assert_eq!(out.responses.len(), 1);
    match &out.responses[0].data {
        ProviderToServer::Description { list } => {
            assert_eq!(list.len(), 1);
            assert_eq!(list[0].path.to_text(), "a.b");
        },
        _ => panic!("activating describe must answer with every description"),
    }

    // A new registration is pushed to the describer.
    let (_, out) = worker.register_tracer(describe("a.c"));
    assert_eq!(out.len(), 1);
    match &out[0].data {
        ProviderToServer::Description { list } => {
            assert_eq!(list.len(), 1);
            assert_eq!(list[0].path.to_text(), "a.c");
        },
        _ => panic!("a new registration must be pushed to the describers"),
    }

    // After deactivating, registrations are quiet again.
    worker.route(id(9), ServerToProvider::Describe { active: false });
    let (_, out) = worker.register_tracer(describe("a.d"));
    assert_eq!(out.len(), 0);
}

#[test]
fn connect_declares_and_lists_entries() {
    let mut worker = RillWorker::new(EntryId::from_str("my-app"));
    worker.register_tracer(describe("a.b"));
    worker.register_tracer(describe("c.d"));
    let out = worker.connection_changed(true);
    assert_eq!(out.len(), 2);
    match &out[0].data {
        ProviderToServer::Declare { entry_id } => assert_eq!(entry_id.as_str(), "my-app"),
        _ => panic!("a connect must declare the provider first"),
    }
    match &out[1].data {
        ProviderToServer::Entries { entries } => {
            assert_eq!(entries.len(), 2);
            assert_eq!(entries[0].0.as_str(), "a.b");
            assert_eq!(entries[1].0.as_str(), "c.d");
        },
        _ => panic!("a connect must list the registered entries"),
    }
    let out = worker.connection_changed(false);
    assert_eq!(out.len(), 0);
}

#[test]
fn disconnect_and_reconnect_recovers_cleanly() {
    // One worker, one counter recorder in slot 0.
    let mut worker = RillWorker::new(EntryId::from_str("my-app"));
    let description = describe("a.b");
    let (slot, _) = worker.register_tracer(description.clone());
    assert_eq!(slot.unwrap(), 0);
    let mut recorder = Recorder::new(
        description,
        TracerMode::Push { state: CounterState::default() },
    );
    worker.connection_changed(true);
    recorder.connection_changed(true);

    // The server subscribes id 5 through the worker.
    let routed = worker.route(
        id(5),
        ServerToProvider::ControlStream { path: Path::parse("a.b").unwrap(), active: true },
    );
    assert_eq!(routed.routed.len(), 1);
    let route = &routed.routed[0];
    let out = recorder.handle_request(
        route.id,
        route.request.clone(),
        rillrate::provider::Timestamp(0),
        None,
    );
    assert!(matches!(out.responses[0].data, ProviderToServer::State { .. }));

    // The transport drops: the recorder clears its subscribers with no
    // frame, for the channel is gone.
    recorder.connection_changed(false);
    worker.connection_changed(false);

    // Reconnecting declares the provider and its entries anew; the
    // stream stays quiet until a fresh subscription arrives.
    let out = worker.connection_changed(true);
    assert!(matches!(out[0].data, ProviderToServer::Declare { .. }));
    assert!(matches!(out[1].data, ProviderToServer::Entries { .. }));
    let chunk = vec![rillrate::flow::TimedEvent {
        timestamp: rillrate::provider::Timestamp(1),
        event: rillrate::counter::CounterEvent::Increment(1),
    }];
    let out = recorder.handle_chunk(chunk);
    assert_eq!(out.responses.len(), 0);
}

#[test]
fn sender_resolves_directions_to_connection_slots() {
    let mut sender = RillSender::new();
    // Without a transport every frame is silently dropped.
    assert_eq!(sender.targets(Direction::Broadcast).len(), 0);
    assert_eq!(sender.targets(Direction::Direct(id(1))).len(), 0);

    sender.connect(vec![id(1), id(2), id(3)]);
    let all = sender.targets(Direction::Broadcast);
    assert_eq!(all.len(), 3);
    assert_eq!(all[0].to_value(), 1);
    assert_eq!(all[2].to_value(), 3);
    let some = sender.targets(Direction::Multicast(vec![id(2), id(3)]));
    assert_eq!(some.len(), 2);
    let one = sender.targets(Direction::Direct(id(2)));
    assert_eq!(one.len(), 1);
    assert_eq!(one[0].to_value(), 2);

    sender.reset();
    assert_eq!(sender.targets(Direction::Broadcast).len(), 0);
}
