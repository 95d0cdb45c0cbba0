//! The per-stream recorder: a state machine bridging one data producer
//! and zero or more protocol subscribers.
//!
//! Each handler takes one inbound message and returns the outbound
//! frames it induces; an embedding runs the actor loop around it and
//! forwards the frames to the sender.  The mode is fixed at
//! construction.  A newly subscribed id receives the packed state before
//! anything else; an unsubscribed id receives a final `EndStream`; a
//! mode-inappropriate message is recorded as a warning and dropped.

use vstd::prelude::*;

use crate::flow::delta_enc;
use crate::flow::delta_models;
use crate::flow::fold_apply;
use crate::flow::pack_delta;
use crate::flow::pack_state;
use crate::flow::unpack_action;
use crate::flow::DataFraction;
use crate::flow::Flow;
use crate::flow::TimedEvent;
use crate::protocol::Direction;
use crate::protocol::ProviderReqId;
use crate::protocol::WideEnvelope;
use crate::provider::Description;
use crate::provider::FlowControl;
use crate::provider::PackedState;
use crate::provider::ProviderProtocol;
use crate::provider::ProviderToServer;
use crate::provider::RecorderAction;
use crate::provider::RecorderRequest;
use crate::provider::Timestamp;

verus! {

/// What a recorder would have logged: anomalies of bookkeeping and
/// mode-inappropriate messages, recorded and dropped.
#[derive(Debug, Clone, Copy, PartialEq, Eq, Structural)]
pub enum RecorderWarning {
    /// A subscriber asked to start a stream it already receives.
    DoubleSubscribe,
    /// A subscriber asked to stop a stream it does not receive.
    UnknownUnsubscribe,
    /// A message arrived that the recorder's mode does not take.
    ModeViolation,
    /// A pull-mode state snapshot was not available.
    StateUnavailable,
}

/// The error of a recorder operation that needed a state it did not
/// have.
#[derive(Debug, Clone, Copy, PartialEq, Eq, Structural)]
pub enum RecorderError {
    /// The canonical state sits with the tracer and no snapshot was
    /// handed in.
    StateUnavailable,
}

/// The mode of one recorder, fixed at construction.
pub enum TracerMode<F: Flow> {
    /// The tracer owns the canonical state and ships timed events; the
    /// recorder folds them into this replica, kept only for
    /// new-subscriber snapshots.
    Push { state: F },
    /// The tracer owns the canonical state behind a lock; the recorder
    /// is handed snapshots at each tick of the given interval.
    Pull { interval_ms: u64 },
    /// The recorder owns the canonical state; client actions drive it.
    Watched { state: F },
}

/// One outbound frame of the provider protocol.
pub type OutEnvelope = WideEnvelope<ProviderProtocol, ProviderToServer>;

/// What one inbound message induced: outbound frames, events for the
/// watching tracer, warnings, and whether the recorder shut down.
pub struct RecorderOutput<F: Flow> {
    pub responses: Vec<OutEnvelope>,
    pub watch_events: Vec<TimedEvent<<F as Flow>::Event>>,
    pub warnings: Vec<RecorderWarning>,
    pub shutdown: bool,
}

/// The frame is the packed state, sent to exactly the one id.
pub open spec fn is_state_to(env: OutEnvelope, id: u64, bytes: Seq<u8>) -> bool {
    &&& env.direction matches Direction::Direct(d) && d@ == id
    &&& env.data matches ProviderToServer::State { state } && state@ == bytes
}

/// The frame is the packed state, sent by a direction naming exactly
/// these targets.
pub open spec fn is_state_dir(env: OutEnvelope, targets: Set<u64>, bytes: Seq<u8>) -> bool {
    &&& crate::protocol::direction_targets(env.direction) == targets
    &&& env.data matches ProviderToServer::State { state } && state@ == bytes
}

/// The frame is a packed delta, sent by the given direction.
pub open spec fn is_data(env: OutEnvelope, targets: Set<u64>, bytes: Seq<u8>) -> bool {
    &&& crate::protocol::direction_targets(env.direction) == targets
    &&& env.data matches ProviderToServer::Data { delta } && delta@ == bytes
}

/// The frame ends the stream for exactly the one id.
pub open spec fn is_end_to(env: OutEnvelope, id: u64) -> bool {
    &&& env.direction matches Direction::Direct(d) && d@ == id
    &&& env.data is EndStream
}

/// The frame carries this description alone, sent to exactly the one id.
pub open spec fn is_flow_to(env: OutEnvelope, id: u64, d: crate::provider::DescriptionV) -> bool {
    &&& env.direction matches Direction::Direct(dd) && dd@ == id
    &&& env.data matches ProviderToServer::Description { list } && list@.len() == 1 && list@[0]@
        == d
}

/// The frame reports an error to exactly the one id.
pub open spec fn is_error_to(env: OutEnvelope, id: u64) -> bool {
    &&& env.direction matches Direction::Direct(d) && d@ == id
    &&& env.data is Error
}

/// The per-stream recorder.
pub struct Recorder<F: Flow> {
    description: Description,
    mode: TracerMode<F>,
    subscribers: Vec<ProviderReqId>,
    terminating: bool,
}

impl<F: Flow> Recorder<F> {
    /// The subscriber ids, in insertion order.
    pub closed spec fn sub_ids(&self) -> Seq<u64> {
        self.subscribers@.map(|i: int, id: ProviderReqId| id@)
    }

    /// The subscriber set.
    pub open spec fn sub_set(&self) -> Set<u64> {
        self.sub_ids().to_set()
    }

    /// The subscriber list holds no id twice.
    pub open spec fn wf(&self) -> bool {
        forall|i: int, j: int|
            0 <= i < j < self.sub_ids().len() ==> self.sub_ids()[i] != self.sub_ids()[j]
    }

    /// The recorder's mode.
    pub closed spec fn mode_spec(&self) -> TracerMode<F> {
        self.mode
    }

    /// The model of the state replica the recorder holds, if its mode
    /// holds one.
    pub closed spec fn state_model(&self) -> Option<<F as View>::V> {
        match self.mode {
            TracerMode::Push { state } => Some(state@),
            TracerMode::Pull { interval_ms } => None,
            TracerMode::Watched { state } => Some(state@),
        }
    }

    /// The recorder's mode is pull.
    pub open spec fn is_pull(&self) -> bool {
        self.mode_spec() is Pull
    }

    /// The recorder's mode is push.
    pub open spec fn is_push(&self) -> bool {
        self.mode_spec() is Push
    }

    /// The recorder's mode is watched.
    pub open spec fn is_watched(&self) -> bool {
        self.mode_spec() is Watched
    }

    /// The recorder has shut down.
    pub closed spec fn is_terminating(&self) -> bool {
        self.terminating
    }

    /// The published description of the stream.
    pub closed spec fn description_model(&self) -> crate::provider::DescriptionV {
        self.description@
    }

    /// Builds a recorder for one stream.
    pub fn new(description: Description, mode: TracerMode<F>) -> (r: Recorder<F>)
        ensures
            r.description_model() == description@,
            r.mode_spec() == mode,
            r.sub_ids() == Seq::<u64>::empty(),
            !r.is_terminating(),
            r.wf(),
    {
        let r = Recorder { description, mode, subscribers: Vec::new(), terminating: false };
        proof {
            assert(r.sub_ids() =~= Seq::<u64>::empty());
        }
        r
    }

    /// The printable name of the recorder, for diagnostics.
    pub fn name(&self) -> (r: String)
        ensures
            r@ == "Recorder("@ + crate::provider::joined_text(self.description_model().path)
                + ")"@,
    {
        proof {
            reveal_strlit("Recorder(");
            reveal_strlit(")");
        }
        let mut buffer = "Recorder(".to_owned();
        buffer.append(self.description.path.to_text().as_str());
        buffer.append(")");
        buffer
    }

    /// The direction that reaches all current subscribers.
    fn all_subscribers(&self) -> (r: Direction<ProviderProtocol>)
        ensures
            self.sub_ids().len() == 0 ==> r is Broadcast,
            self.sub_ids().len() == 1 ==> (r matches Direction::Direct(d) && d@
                == self.sub_ids().first()),
            self.sub_ids().len() >= 2 ==> (r matches Direction::Multicast(v) && v@.map(
                |i: int, id: ProviderReqId| id@,
            ) == self.sub_ids()),
            crate::protocol::direction_targets(r) == self.sub_set(),
    {
        let r = Direction::from_set(&self.subscribers);
        proof {
            if self.sub_ids().len() == 0 {
                assert(self.sub_set() =~= Set::<u64>::empty());
                assert(crate::protocol::direction_targets(r) =~= self.sub_set());
            } else if self.sub_ids().len() == 1 {
                assert(self.subscribers@[0]@ == self.sub_ids().first());
                assert(self.sub_set() =~= set![self.sub_ids().first()]);
                assert(crate::protocol::direction_targets(r) =~= self.sub_set());
            } else {
                assert(r matches Direction::Multicast(v) && v@ == self.subscribers@);
            }
        }
        r
    }

    /// Whether the id is currently subscribed, and its position.
    fn find_subscriber(&self, id: &ProviderReqId) -> (r: Option<usize>)
        ensures
            r matches Some(i) ==> i < self.sub_ids().len() && self.sub_ids()[i as int] == id@,
            r is None ==> !self.sub_set().contains(id@),
    {
        let n = self.subscribers.len();
        let mut i: usize = 0;
        while i < n
            invariant
                n == self.subscribers@.len(),
                i <= n,
                forall|k: int| 0 <= k < i ==> self.sub_ids()[k] != id@,
            decreases n - i,
        {
            if self.subscribers[i].to_value() == id.to_value() {
                proof {
                    assert(self.sub_ids()[i as int] == self.subscribers@[i as int]@);
                }
                return Some(i);
            }
            proof {
                assert(self.sub_ids()[i as int] == self.subscribers@[i as int]@);
            }
            i = i + 1;
        }
        proof {
            if self.sub_set().contains(id@) {
                let k = choose|k: int| 0 <= k < self.sub_ids().len() && self.sub_ids()[k] == id@;
                assert(self.sub_ids()[k] != id@);
            }
        }
        None
    }

    /// Packs the current state: the recorder's own replica in push and
    /// watched modes, the handed-in snapshot in pull mode.
    pub fn pack_state(&self, pulled: Option<&F>) -> (r: Result<PackedState, RecorderError>)
        ensures
            (match self.mode_spec() {
                TracerMode::Pull { interval_ms } => (match pulled {
                    Some(state) => r matches Ok(p) && p@ == F::frac_enc(state@),
                    None => r == Err::<PackedState, RecorderError>(
                        RecorderError::StateUnavailable,
                    ),
                }),
                TracerMode::Push { state } => r matches Ok(p) && p@ == F::frac_enc(state@),
                TracerMode::Watched { state } => r matches Ok(p) && p@ == F::frac_enc(state@),
            }),
    {
        match &self.mode {
            TracerMode::Push { state } => Ok(pack_state(state)),
            TracerMode::Pull { interval_ms } => match pulled {
                Some(state) => Ok(pack_state(state)),
                None => Err(RecorderError::StateUnavailable),
            },
            TracerMode::Watched { state } => Ok(pack_state(state)),
        }
    }

    /// The frame that ends the stream for one id.
    fn end_envelope(id: &ProviderReqId) -> (r: OutEnvelope)
        ensures
            is_end_to(r, id@),
    {
        WideEnvelope { direction: Direction::direct(*id), data: ProviderToServer::EndStream }
    }

    /// Sends `EndStream` to every current subscriber, clears the
    /// subscriber set, and stops: exactly one `EndStream` reaches each id
    /// that was subscribed at entry, none when no one was.
    pub fn graceful_shutdown(&mut self) -> (out: Vec<OutEnvelope>)
        requires
            old(self).wf(),
        ensures
            final(self).wf(),
            final(self).sub_ids() == Seq::<u64>::empty(),
            final(self).is_terminating(),
            final(self).mode_spec() == old(self).mode_spec(),
            final(self).description_model() == old(self).description_model(),
            old(self).sub_ids().len() == 0 ==> out@.len() == 0,
            old(self).sub_ids().len() > 0 ==> out@.len() == 1 && out@[0].data is EndStream
                && crate::protocol::direction_targets(out@[0].direction) == old(self).sub_set(),
            crate::trace::step_ok(
                old(self).sub_set(),
                crate::trace::frames_of(out@),
                final(self).sub_set(),
            ),
    {
        let mut out: Vec<OutEnvelope> = Vec::new();
        if self.subscribers.len() > 0 {
            let direction = self.all_subscribers();
            out.push(WideEnvelope { direction, data: ProviderToServer::EndStream });
        }
        self.subscribers = Vec::new();
        self.terminating = true;
        proof {
            assert(self.sub_ids() =~= Seq::<u64>::empty());
            assert(self.sub_set() =~= Set::<u64>::empty());
            if out@.len() == 0 {
                assert(crate::trace::frames_of(out@) =~= Seq::<
                    (Set<u64>, crate::trace::FrameKind),
                >::empty());
                crate::trace::lemma_step_clear(old(self).sub_set());
            } else {
                assert(crate::trace::frames_of(out@) =~= seq![
                    (old(self).sub_set(), crate::trace::FrameKind::EndFrame),
                ]);
                crate::trace::lemma_step_shutdown(old(self).sub_set());
            }
        }
        out
    }

    /// Forgets the sender side on a connection change: a disconnect
    /// clears the subscribers silently, for the transport that would
    /// carry an `EndStream` is gone; a connect leaves them untouched.
    pub fn connection_changed(&mut self, connected: bool)
        requires
            old(self).wf(),
        ensures
            final(self).wf(),
            final(self).mode_spec() == old(self).mode_spec(),
            final(self).description_model() == old(self).description_model(),
            final(self).is_terminating() == old(self).is_terminating(),
            connected ==> final(self).sub_ids() == old(self).sub_ids(),
            !connected ==> final(self).sub_ids() == Seq::<u64>::empty(),
            crate::trace::step_ok(old(self).sub_set(), Seq::empty(), final(self).sub_set()),
    {
        if !connected {
            self.subscribers = Vec::new();
            proof {
                assert(self.sub_ids() =~= Seq::<u64>::empty());
                assert(self.sub_set() =~= Set::<u64>::empty());
                crate::trace::lemma_step_clear(old(self).sub_set());
            }
        } else {
            proof {
                crate::trace::lemma_step_silent(old(self).sub_set());
            }
        }
    }
}

impl<F: Flow> Recorder<F> {
    /// A pull-mode snapshot is at hand whenever one is needed.
    pub open spec fn snapshot_ok(&self, pulled: Option<&F>) -> bool {
        self.is_pull() ==> pulled is Some
    }

    /// The packed bytes a snapshot response carries.
    pub open spec fn snapshot_bytes(&self, pulled: Option<&F>) -> Seq<u8> {
        match self.mode_spec() {
            TracerMode::Push { state } => F::frac_enc(state@),
            TracerMode::Watched { state } => F::frac_enc(state@),
            TracerMode::Pull { interval_ms } => (match pulled {
                Some(st) => F::frac_enc(st@),
                None => Seq::empty(),
            }),
        }
    }

    /// Nothing was sent and nothing changed but the listed warnings.
    pub open spec fn only_warned(
        self,
        pre: Recorder<F>,
        out: RecorderOutput<F>,
        warnings: Seq<RecorderWarning>,
    ) -> bool {
        &&& self.sub_ids() == pre.sub_ids()
        &&& self.state_model() == pre.state_model()
        &&& out.responses@.len() == 0
        &&& out.watch_events@.len() == 0
        &&& out.warnings@ == warnings
        &&& !out.shutdown
    }

    /// Handles one typed request of a subscriber, routed by the worker.
    ///
    /// `now` stamps events induced by client actions; `pulled` hands in
    /// the tracer-side snapshot for a pull-mode recorder.
    pub fn handle_request(
        &mut self,
        id: ProviderReqId,
        request: RecorderRequest,
        now: Timestamp,
        pulled: Option<&F>,
    ) -> (out: RecorderOutput<F>)
        requires
            old(self).wf(),
        ensures
            final(self).wf(),
            final(self).is_push() == old(self).is_push(),
            final(self).is_pull() == old(self).is_pull(),
            final(self).is_watched() == old(self).is_watched(),
            final(self).description_model() == old(self).description_model(),
            final(self).is_terminating() == old(self).is_terminating(),
            !out.shutdown,
            crate::trace::step_ok(
                old(self).sub_set(),
                crate::trace::frames_of(out.responses@),
                final(self).sub_set(),
            ),
            old(self).is_terminating() ==> final(self).sub_ids() == old(self).sub_ids() && final(self).state_model() == old(self).state_model() && out.responses@.len() == 0
                && out.watch_events@.len() == 0 && out.warnings@.len() == 0,
            !old(self).is_terminating() ==> (match request {
                RecorderRequest::ControlStream(FlowControl::StartStream) => {
                    if old(self).sub_set().contains(id@) {
                        final(self).only_warned(
                            *old(self),
                            out,
                            seq![RecorderWarning::DoubleSubscribe],
                        )
                    } else {
                        if old(self).snapshot_ok(pulled) {
                            &&& final(self).sub_ids() == old(self).sub_ids().push(id@)
                            &&& final(self).state_model() == old(self).state_model()
                            &&& out.watch_events@.len() == 0
                            &&& out.responses@.len() == 1
                            &&& is_state_to(
                                out.responses@[0],
                                id@,
                                old(self).snapshot_bytes(pulled),
                            )
                            &&& out.warnings@.len() == 0
                        } else {
                            final(self).only_warned(
                                *old(self),
                                out,
                                seq![RecorderWarning::StateUnavailable],
                            )
                        }
                    }
                },
                RecorderRequest::ControlStream(FlowControl::StopStream) => {
                    if old(self).sub_set().contains(id@) {
                        &&& final(self).sub_set() == old(self).sub_set().remove(id@)
                        &&& final(self).sub_ids().len() == old(self).sub_ids().len() - 1
                        &&& final(self).state_model() == old(self).state_model()
                        &&& out.responses@.len() == 1
                        &&& is_end_to(out.responses@[0], id@)
                        &&& out.watch_events@.len() == 0
                        &&& out.warnings@.len() == 0
                    } else {
                        final(self).only_warned(
                            *old(self),
                            out,
                            seq![RecorderWarning::UnknownUnsubscribe],
                        )
                    }
                },
                RecorderRequest::Action(RecorderAction::GetSnapshot) => {
                    &&& final(self).sub_ids() == old(self).sub_ids()
                    &&& final(self).state_model() == old(self).state_model()
                    &&& out.watch_events@.len() == 0
                    &&& (if old(self).snapshot_ok(pulled) {
                        &&& out.responses@.len() == 1
                        &&& is_state_to(out.responses@[0], id@, old(self).snapshot_bytes(pulled))
                        &&& out.warnings@.len() == 0
                    } else {
                        &&& out.responses@.len() == 0
                        &&& out.warnings@ == seq![RecorderWarning::StateUnavailable]
                    })
                },
                RecorderRequest::Action(RecorderAction::GetFlow) => {
                    &&& final(self).sub_ids() == old(self).sub_ids()
                    &&& final(self).state_model() == old(self).state_model()
                    &&& out.responses@.len() == 1
                    &&& is_flow_to(out.responses@[0], id@, old(self).description_model())
                    &&& out.watch_events@.len() == 0
                    &&& out.warnings@.len() == 0
                },
                RecorderRequest::Action(RecorderAction::DoEvent(data)) => {
                    &&& final(self).sub_ids() == old(self).sub_ids()
                    &&& (if old(self).is_watched() {
                        match crate::flow::unpack_state_spec::<<F as Flow>::Action>(data@) {
                            None => {
                                &&& final(self).state_model() == old(self).state_model()
                                &&& out.responses@.len() == 1
                                &&& is_error_to(out.responses@[0], id@)
                                &&& out.watch_events@.len() == 0
                                &&& out.warnings@.len() == 0
                            },
                            Some(a) => (match F::action_event_spec(a) {
                                None => {
                                    &&& final(self).state_model() == old(self).state_model()
                                    &&& out.responses@.len() == 1
                                    &&& is_error_to(out.responses@[0], id@)
                                    &&& out.watch_events@.len() == 0
                                    &&& out.warnings@.len() == 0
                                },
                                Some(evm) => {
                                    &&& final(self).state_model() matches Some(st2) && (old(self).state_model() matches Some(st1) && st2 == F::apply_spec(
                                        st1,
                                        now.0,
                                        evm,
                                    ))
                                    &&& out.watch_events@.len() == 1
                                    &&& out.watch_events@[0]@ == (now.0, evm)
                                    &&& out.warnings@.len() == 0
                                    &&& (if old(self).sub_ids().len() > 0 {
                                        &&& out.responses@.len() == 1
                                        &&& is_data(
                                            out.responses@[0],
                                            old(self).sub_set(),
                                            delta_enc::<<F as Flow>::Event>(
                                                seq![(now.0, evm)],
                                            ),
                                        )
                                    } else {
                                        out.responses@.len() == 0
                                    })
                                },
                            }),
                        }
                    } else {
                        final(self).only_warned(
                            *old(self),
                            out,
                            seq![RecorderWarning::ModeViolation],
                        )
                    })
                },
            }),
    {
        let mut out = RecorderOutput::<F> {
            responses: Vec::new(),
            watch_events: Vec::new(),
            warnings: Vec::new(),
            shutdown: false,
        };
        if self.terminating {
            proof {
                assert(crate::trace::frames_of(out.responses@) =~= Seq::<
                    (Set<u64>, crate::trace::FrameKind),
                >::empty());
                crate::trace::lemma_step_silent(old(self).sub_set());
            }
            return out;
        }
        match request {
            RecorderRequest::ControlStream(FlowControl::StartStream) => {
                match self.find_subscriber(&id) {
                    Some(i) => {
                        proof {
                            assert(self.sub_set().contains(id@));
                        }
                        out.warnings.push(RecorderWarning::DoubleSubscribe);
                        proof {
                            assert(out.warnings@ =~= seq![RecorderWarning::DoubleSubscribe]);
                            assert(crate::trace::frames_of(out.responses@) =~= Seq::<
                                (Set<u64>, crate::trace::FrameKind),
                            >::empty());
                            crate::trace::lemma_step_silent(old(self).sub_set());
                        }
                    },
                    None => {
                        match self.pack_state(pulled) {
                            Ok(state) => {
                                self.subscribers.push(id);
                                proof {
                                    assert(self.sub_ids() =~= old(self).sub_ids().push(id@));
                                    assert forall|a: int, b: int|
                                        0 <= a < b < self.sub_ids().len() implies self.sub_ids()[a]
                                        != self.sub_ids()[b] by {
                                        if b + 1 == self.sub_ids().len() {
                                            assert(self.sub_ids()[a] == old(self).sub_ids()[a]);
                                            assert(self.sub_ids()[b] == id@);
                                            assert(!old(self).sub_set().contains(id@));
                                            assert(old(self).sub_ids().contains(
                                                old(self).sub_ids()[a],
                                            ));
                                            assert(old(self).sub_set().contains(
                                                old(self).sub_ids()[a],
                                            ));
                                        } else {
                                            assert(self.sub_ids()[a] == old(self).sub_ids()[a]);
                                            assert(self.sub_ids()[b] == old(self).sub_ids()[b]);
                                        }
                                    }
                                    crate::trace::lemma_push_to_set(old(self).sub_ids(), id@);
                                }
                                out.responses.push(
                                    WideEnvelope {
                                        direction: Direction::direct(id),
                                        data: ProviderToServer::State { state },
                                    },
                                );
                                proof {
                                    assert(crate::trace::frames_of(out.responses@) =~= seq![
                                        (
                                            set![id@],
                                            crate::trace::FrameKind::StateFrame,
                                        ),
                                    ]);
                                    assert(self.sub_set() =~= old(self).sub_set().insert(id@));
                                    crate::trace::lemma_step_subscribe(old(self).sub_set(), id@);
                                }
                            },
                            Err(err) => {
                                out.warnings.push(RecorderWarning::StateUnavailable);
                                proof {
                                    assert(out.warnings@ =~= seq![
                                        RecorderWarning::StateUnavailable,
                                    ]);
                                    assert(crate::trace::frames_of(out.responses@)
                                        =~= Seq::<(Set<u64>, crate::trace::FrameKind)>::empty());
                                    crate::trace::lemma_step_silent(old(self).sub_set());
                                }
                            },
                        }
                    },
                }
            },
            RecorderRequest::ControlStream(FlowControl::StopStream) => {
                match self.find_subscriber(&id) {
                    Some(i) => {
                        proof {
                            assert(self.sub_ids().contains(self.sub_ids()[i as int]));
                            assert(self.sub_set().contains(id@));
                            crate::trace::lemma_distinct_remove(self.sub_ids(), i as int);
                        }
                        self.subscribers.remove(i);
                        proof {
                            assert(self.sub_ids() =~= old(self).sub_ids().remove(i as int));
                        }
                        out.responses.push(Self::end_envelope(&id));
                        proof {
                            assert(crate::trace::frames_of(out.responses@) =~= seq![
                                (set![id@], crate::trace::FrameKind::EndFrame),
                            ]);
                            assert(self.sub_set() =~= old(self).sub_set().remove(id@));
                            crate::trace::lemma_step_unsubscribe(old(self).sub_set(), id@);
                        }
                    },
                    None => {
                        out.warnings.push(RecorderWarning::UnknownUnsubscribe);
                        proof {
                            assert(out.warnings@ =~= seq![RecorderWarning::UnknownUnsubscribe]);
                            assert(crate::trace::frames_of(out.responses@) =~= Seq::<
                                (Set<u64>, crate::trace::FrameKind),
                            >::empty());
                            crate::trace::lemma_step_silent(old(self).sub_set());
                        }
                    },
                }
            },
            RecorderRequest::Action(RecorderAction::GetSnapshot) => {
                match self.pack_state(pulled) {
                    Ok(state) => {
                        out.responses.push(
                            WideEnvelope {
                                direction: Direction::direct(id),
                                data: ProviderToServer::State { state },
                            },
                        );
                        proof {
                            assert(crate::trace::frames_of(out.responses@) =~= seq![
                                (set![id@], crate::trace::FrameKind::StateFrame),
                            ]);
                            crate::trace::lemma_step_aside(
                                old(self).sub_set(),
                                id@,
                                crate::trace::FrameKind::StateFrame,
                            );
                        }
                    },
                    Err(err) => {
                        out.warnings.push(RecorderWarning::StateUnavailable);
                        proof {
                            assert(out.warnings@ =~= seq![RecorderWarning::StateUnavailable]);
                            assert(crate::trace::frames_of(out.responses@) =~= Seq::<
                                (Set<u64>, crate::trace::FrameKind),
                            >::empty());
                            crate::trace::lemma_step_silent(old(self).sub_set());
                        }
                    },
                }
            },
            RecorderRequest::Action(RecorderAction::GetFlow) => {
                let mut list: Vec<Description> = Vec::new();
                list.push(self.description.clone());
                out.responses.push(
                    WideEnvelope {
                        direction: Direction::direct(id),
                        data: ProviderToServer::Description { list },
                    },
                );
                proof {
                    assert(crate::trace::frames_of(out.responses@) =~= seq![
                        (set![id@], crate::trace::FrameKind::DescriptionFrame),
                    ]);
                    crate::trace::lemma_step_aside(
                        old(self).sub_set(),
                        id@,
                        crate::trace::FrameKind::DescriptionFrame,
                    );
                }
            },
            RecorderRequest::Action(RecorderAction::DoEvent(data)) => {
                let watched = match &self.mode {
                    TracerMode::Watched { state } => true,
                    TracerMode::Push { state } => false,
                    TracerMode::Pull { interval_ms } => false,
                };
                if !watched {
                    out.warnings.push(RecorderWarning::ModeViolation);
                    proof {
                        assert(out.warnings@ =~= seq![RecorderWarning::ModeViolation]);
                        assert(crate::trace::frames_of(out.responses@) =~= Seq::<
                            (Set<u64>, crate::trace::FrameKind),
                        >::empty());
                        crate::trace::lemma_step_silent(old(self).sub_set());
                    }
                    return out;
                }
                let action = match unpack_action::<<F as Flow>::Action>(&data) {
                    Ok(action) => action,
                    Err(err) => {
                        out.responses.push(
                            WideEnvelope {
                                direction: Direction::direct(id),
                                data: ProviderToServer::Error { reason: err.reason() },
                            },
                        );
                        proof {
                            assert(crate::trace::frames_of(out.responses@) =~= seq![
                                (set![id@], crate::trace::FrameKind::ErrorFrame),
                            ]);
                            crate::trace::lemma_step_aside(
                                old(self).sub_set(),
                                id@,
                                crate::trace::FrameKind::ErrorFrame,
                            );
                        }
                        return out;
                    },
                };
                let event = match F::action_event(action) {
                    Some(event) => event,
                    None => {
                        out.responses.push(
                            WideEnvelope {
                                direction: Direction::direct(id),
                                data: ProviderToServer::Error {
                                    reason: crate::codec::CodecError {  }.reason(),
                                },
                            },
                        );
                        proof {
                            assert(crate::trace::frames_of(out.responses@) =~= seq![
                                (set![id@], crate::trace::FrameKind::ErrorFrame),
                            ]);
                            crate::trace::lemma_step_aside(
                                old(self).sub_set(),
                                id@,
                                crate::trace::FrameKind::ErrorFrame,
                            );
                        }
                        return out;
                    },
                };
                let timed = TimedEvent { timestamp: now, event };
                let watch_copy = TimedEvent {
                    timestamp: now,
                    event: timed.event.clone_frac(),
                };
                let mut delta: Vec<TimedEvent<<F as Flow>::Event>> = Vec::new();
                delta.push(watch_copy);
                let packed = pack_delta::<<F as Flow>::Event>(&delta);
                proof {
                    assert(delta_models(delta@) =~= seq![(now.0, timed.event@)]);
                }
                match &mut self.mode {
                    TracerMode::Watched { state } => {
                        state.apply(timed);
                    },
                    TracerMode::Push { state } => {
                        // Unreachable: the mode was checked above.
                        proof {
                            assert(false);
                        }
                    },
                    TracerMode::Pull { interval_ms } => {
                        // Unreachable: the mode was checked above.
                        proof {
                            assert(false);
                        }
                    },
                }
                let watch_event = match delta.pop() {
                    Some(te) => te,
                    None => {
                        // Unreachable: the delta holds exactly one event.
                        proof {
                            assert(false);
                        }
                        return out;
                    },
                };
                out.watch_events.push(watch_event);
                if self.subscribers.len() > 0 {
                    let direction = self.all_subscribers();
                    out.responses.push(
                        WideEnvelope { direction, data: ProviderToServer::Data { delta: packed } },
                    );
                    proof {
                        assert(crate::trace::frames_of(out.responses@) =~= seq![
                            (old(self).sub_set(), crate::trace::FrameKind::DataFrame),
                        ]);
                        crate::trace::lemma_step_fanout(
                            old(self).sub_set(),
                            crate::trace::FrameKind::DataFrame,
                        );
                    }
                } else {
                    proof {
                        assert(crate::trace::frames_of(out.responses@) =~= Seq::<
                            (Set<u64>, crate::trace::FrameKind),
                        >::empty());
                        crate::trace::lemma_step_silent(old(self).sub_set());
                    }
                }
            },
        }
        out
    }
}

impl<F: Flow> Recorder<F> {
    /// Handles one batch of timed events from the tracer side.
    ///
    /// The delta is packed and fanned out to the current subscribers
    /// first; a push-mode recorder then folds the events into its
    /// replica, while the other modes record a warning, for the batch
    /// does not belong to them.
    pub fn handle_chunk(&mut self, chunk: Vec<TimedEvent<<F as Flow>::Event>>) -> (out:
        RecorderOutput<F>)
        requires
            old(self).wf(),
        ensures
            final(self).wf(),
            final(self).is_push() == old(self).is_push(),
            final(self).is_pull() == old(self).is_pull(),
            final(self).is_watched() == old(self).is_watched(),
            final(self).description_model() == old(self).description_model(),
            final(self).is_terminating() == old(self).is_terminating(),
            final(self).sub_ids() == old(self).sub_ids(),
            !out.shutdown,
            out.watch_events@.len() == 0,
            crate::trace::step_ok(
                old(self).sub_set(),
                crate::trace::frames_of(out.responses@),
                final(self).sub_set(),
            ),
            old(self).is_terminating() ==> final(self).state_model() == old(self).state_model()
                && out.responses@.len() == 0 && out.warnings@.len() == 0,
            !old(self).is_terminating() ==> {
                &&& (if old(self).sub_ids().len() > 0 {
                    out.responses@.len() == 1 && is_data(
                        out.responses@[0],
                        old(self).sub_set(),
                        delta_enc::<<F as Flow>::Event>(delta_models(chunk@)),
                    )
                } else {
                    out.responses@.len() == 0
                })
                &&& (if old(self).is_push() {
                    &&& final(self).state_model() matches Some(st2) && (old(self).state_model()
                        matches Some(st1) && st2 == fold_apply::<F>(st1, delta_models(chunk@)))
                    &&& out.warnings@.len() == 0
                } else {
                    &&& final(self).state_model() == old(self).state_model()
                    &&& out.warnings@ == seq![RecorderWarning::ModeViolation]
                })
            },
    {
        let mut out = RecorderOutput::<F> {
            responses: Vec::new(),
            watch_events: Vec::new(),
            warnings: Vec::new(),
            shutdown: false,
        };
        if self.terminating {
            proof {
                assert(crate::trace::frames_of(out.responses@) =~= Seq::<
                    (Set<u64>, crate::trace::FrameKind),
                >::empty());
                crate::trace::lemma_step_silent(old(self).sub_set());
            }
            return out;
        }
        if self.subscribers.len() > 0 {
            let direction = self.all_subscribers();
            let packed = pack_delta::<<F as Flow>::Event>(&chunk);
            out.responses.push(
                WideEnvelope { direction, data: ProviderToServer::Data { delta: packed } },
            );
            proof {
                assert(crate::trace::frames_of(out.responses@) =~= seq![
                    (old(self).sub_set(), crate::trace::FrameKind::DataFrame),
                ]);
                crate::trace::lemma_step_fanout(
                    old(self).sub_set(),
                    crate::trace::FrameKind::DataFrame,
                );
            }
        } else {
            proof {
                assert(crate::trace::frames_of(out.responses@) =~= Seq::<
                    (Set<u64>, crate::trace::FrameKind),
                >::empty());
                crate::trace::lemma_step_silent(old(self).sub_set());
            }
        }
        match &mut self.mode {
            TracerMode::Push { state } => {
                let ghost models = delta_models(chunk@);
                let ghost start = state@;
                let n = chunk.len();
                let mut i: usize = 0;
                proof {
                    assert(models.take(0) =~= Seq::<(i64, <<F as Flow>::Event as View>::V)>::empty());
                }
                while i < n
                    invariant
                        n == chunk@.len(),
                        i <= n,
                        models == delta_models(chunk@),
                        state@ == fold_apply::<F>(start, models.take(i as int)),
                    decreases n - i,
                {
                    let te = &chunk[i];
                    let owned = TimedEvent { timestamp: te.timestamp, event: te.event.clone_frac() };
                    proof {
                        assert(owned@ == chunk@[i as int]@);
                        assert(models[i as int] == chunk@[i as int]@);
                        assert(models.take(i + 1) =~= models.take(i as int).push(models[i as int]));
                        crate::flow::lemma_fold_apply_snoc::<F>(
                            start,
                            models.take(i as int),
                            models[i as int],
                        );
                    }
                    state.apply(owned);
                    i = i + 1;
                }
                proof {
                    assert(models.take(n as int) =~= models);
                }
            },
            TracerMode::Pull { interval_ms } => {
                out.warnings.push(RecorderWarning::ModeViolation);
                proof {
                    assert(out.warnings@ =~= seq![RecorderWarning::ModeViolation]);
                }
            },
            TracerMode::Watched { state } => {
                out.warnings.push(RecorderWarning::ModeViolation);
                proof {
                    assert(out.warnings@ =~= seq![RecorderWarning::ModeViolation]);
                }
            },
        }
        out
    }

    /// Handles one tick of the pull-mode heartbeat.
    ///
    /// With subscribers present, the handed-in snapshot is packed and
    /// broadcast to them; a missing snapshot is fatal to this recorder
    /// and triggers the graceful shutdown.  The other modes record a
    /// warning.
    pub fn handle_tick(&mut self, pulled: Option<&F>) -> (out: RecorderOutput<F>)
        requires
            old(self).wf(),
        ensures
            final(self).wf(),
            final(self).is_push() == old(self).is_push(),
            final(self).is_pull() == old(self).is_pull(),
            final(self).is_watched() == old(self).is_watched(),
            final(self).description_model() == old(self).description_model(),
            final(self).state_model() == old(self).state_model(),
            out.watch_events@.len() == 0,
            crate::trace::step_ok(
                old(self).sub_set(),
                crate::trace::frames_of(out.responses@),
                final(self).sub_set(),
            ),
            old(self).is_terminating() ==> final(self).sub_ids() == old(self).sub_ids()
                && out.responses@.len() == 0 && out.warnings@.len() == 0 && !out.shutdown && final(self).is_terminating(),
            (!old(self).is_terminating() && old(self).sub_ids().len() == 0) ==> final(self).sub_ids() == old(self).sub_ids() && out.responses@.len() == 0
                && out.warnings@.len() == 0 && !out.shutdown && !final(self).is_terminating(),
            (!old(self).is_terminating() && old(self).sub_ids().len() > 0) ==> (match old(self).mode_spec() {
                TracerMode::Pull { interval_ms } => (match pulled {
                    Some(st) => {
                        &&& final(self).sub_ids() == old(self).sub_ids()
                        &&& out.responses@.len() == 1
                        &&& is_state_dir(out.responses@[0], old(self).sub_set(), F::frac_enc(st@))
                        &&& out.warnings@.len() == 0
                        &&& !out.shutdown
                        &&& !final(self).is_terminating()
                    },
                    None => {
                        &&& final(self).sub_ids() == Seq::<u64>::empty()
                        &&& out.responses@.len() == 1
                        &&& out.responses@[0].data is EndStream
                        &&& crate::protocol::direction_targets(out.responses@[0].direction)
                            == old(self).sub_set()
                        &&& out.warnings@ == seq![RecorderWarning::StateUnavailable]
                        &&& out.shutdown
                        &&& final(self).is_terminating()
                    },
                }),
                TracerMode::Push { state } => final(self).only_warned(
                    *old(self),
                    out,
                    seq![RecorderWarning::ModeViolation],
                ) && !final(self).is_terminating(),
                TracerMode::Watched { state } => final(self).only_warned(
                    *old(self),
                    out,
                    seq![RecorderWarning::ModeViolation],
                ) && !final(self).is_terminating(),
            }),
    {
        let mut out = RecorderOutput::<F> {
            responses: Vec::new(),
            watch_events: Vec::new(),
            warnings: Vec::new(),
            shutdown: false,
        };
        if self.terminating {
            proof {
                assert(crate::trace::frames_of(out.responses@) =~= Seq::<
                    (Set<u64>, crate::trace::FrameKind),
                >::empty());
                crate::trace::lemma_step_silent(old(self).sub_set());
            }
            return out;
        }
        if self.subscribers.len() == 0 {
            proof {
                assert(crate::trace::frames_of(out.responses@) =~= Seq::<
                    (Set<u64>, crate::trace::FrameKind),
                >::empty());
                crate::trace::lemma_step_silent(old(self).sub_set());
            }
            return out;
        }
        let pull = match &self.mode {
            TracerMode::Pull { interval_ms } => true,
            TracerMode::Push { state } => false,
            TracerMode::Watched { state } => false,
        };
        if !pull {
            out.warnings.push(RecorderWarning::ModeViolation);
            proof {
                assert(out.warnings@ =~= seq![RecorderWarning::ModeViolation]);
                assert(crate::trace::frames_of(out.responses@) =~= Seq::<
                    (Set<u64>, crate::trace::FrameKind),
                >::empty());
                crate::trace::lemma_step_silent(old(self).sub_set());
            }
            return out;
        }
        match self.pack_state(pulled) {
            Ok(state) => {
                let direction = self.all_subscribers();
                out.responses.push(
                    WideEnvelope { direction, data: ProviderToServer::State { state } },
                );
                proof {
                    assert(crate::trace::frames_of(out.responses@) =~= seq![
                        (old(self).sub_set(), crate::trace::FrameKind::StateFrame),
                    ]);
                    crate::trace::lemma_step_fanout(
                        old(self).sub_set(),
                        crate::trace::FrameKind::StateFrame,
                    );
                }
            },
            Err(err) => {
                let mut ends = self.graceful_shutdown();
                let ghost end_frames = ends@;
                out.responses.append(&mut ends);
                out.warnings.push(RecorderWarning::StateUnavailable);
                out.shutdown = true;
                proof {
                    assert(out.warnings@ =~= seq![RecorderWarning::StateUnavailable]);
                    assert(out.responses@ =~= end_frames);
                    assert(crate::trace::frames_of(out.responses@) =~= seq![
                        (old(self).sub_set(), crate::trace::FrameKind::EndFrame),
                    ]);
                    assert(self.sub_set() =~= Set::<u64>::empty());
                    crate::trace::lemma_step_shutdown(old(self).sub_set());
                }
            },
        }
        out
    }
}

} // verus!
