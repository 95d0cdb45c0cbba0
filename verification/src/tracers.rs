//! Application-facing tracer handles.
//!
//! A handle owns the description of its stream and a queue of pending
//! events; the embedding registers the description, drains the queue
//! into the tracer-to-recorder channel, and hands a watcher the events
//! its recorder fans out.

use vstd::prelude::*;

use crate::auth::AuthEvent;
use crate::auth::AuthState;
use crate::flow::delta_models;
use crate::flow::DataFraction;
use crate::flow::Flow;
use crate::flow::Metric;
use crate::flow::TimedEvent;
use crate::histogram::HistogramEvent;
use crate::histogram::HistogramState;
use crate::provider::joined_text;
use crate::provider::Description;
use crate::provider::PackedMetric;
use crate::provider::Path;
use crate::provider::Timestamp;
use crate::pulse::PulseEvent;
use crate::pulse::PulseMetric;
use crate::pulse::PulseState;
use crate::selector::SelectorEvent;
use crate::selector::SelectorFlow;
use crate::selector::SelectorState;

verus! {

/// Builds the description of a stream from its path, a suffix for the
/// human-readable info, the stream kind, and packed metadata.
fn describe(path: Path, suffix: &str, stream_type: crate::provider::StreamType, metadata: PackedMetric) -> (r:
    Description)
    ensures
        r@.path == path@,
        r@.info == joined_text(path@) + suffix@,
        r@.stream_type == stream_type@,
        r@.metadata == metadata@,
{
    let mut info = path.to_text();
    info.append(suffix);
    Description { path, info, stream_type, metadata }
}

/// Sends metrics as a pulse that can move to any value.
pub struct PulseTracer {
    description: Description,
    pending: Vec<TimedEvent<PulseEvent>>,
}

impl PulseTracer {
    /// The pending events, oldest first.
    pub closed spec fn pending_model(&self) -> Seq<(i64, PulseEvent)> {
        delta_models(self.pending@)
    }

    /// The published description.
    pub closed spec fn description_model(&self) -> crate::provider::DescriptionV {
        self.description@
    }

    /// Creates a new pulse tracer for the path.
    pub fn new(path: Path) -> (r: PulseTracer)
        ensures
            r.description_model().path == path@,
            r.description_model().info == joined_text(path@) + " pulse"@,
            r.description_model().stream_type
                == <PulseState as Flow>::stream_type_spec(),
            r.pending_model() == Seq::<(i64, PulseEvent)>::empty(),
    {
        let metric = PulseMetric { range: None };
        let metadata = metric.pack_metric();
        let description = describe(path, " pulse", <PulseState as Flow>::stream_type(), metadata);
        let r = PulseTracer { description, pending: Vec::new() };
        proof {
            assert(r.pending_model() =~= Seq::<(i64, PulseEvent)>::empty());
        }
        r
    }

    /// Queues an increment of the value by the given delta.
    pub fn inc(&mut self, delta: i64, timestamp: Timestamp)
        ensures
            final(self).description_model() == old(self).description_model(),
            final(self).pending_model() == old(self).pending_model().push(
                (timestamp.0, PulseEvent::Inc(delta)),
            ),
    {
        self.pending.push(TimedEvent { timestamp, event: PulseEvent::Inc(delta) });
        proof {
            assert(self.pending_model() =~= old(self).pending_model().push(
                (timestamp.0, PulseEvent::Inc(delta)),
            ));
        }
    }

    /// Queues a decrement of the value by the given delta.
    pub fn dec(&mut self, delta: i64, timestamp: Timestamp)
        ensures
            final(self).description_model() == old(self).description_model(),
            final(self).pending_model() == old(self).pending_model().push(
                (timestamp.0, PulseEvent::Dec(delta)),
            ),
    {
        self.pending.push(TimedEvent { timestamp, event: PulseEvent::Dec(delta) });
        proof {
            assert(self.pending_model() =~= old(self).pending_model().push(
                (timestamp.0, PulseEvent::Dec(delta)),
            ));
        }
    }

    /// Queues a move of the value to the given one.
    pub fn set(&mut self, new_value: i64, timestamp: Timestamp)
        ensures
            final(self).description_model() == old(self).description_model(),
            final(self).pending_model() == old(self).pending_model().push(
                (timestamp.0, PulseEvent::SetTo(new_value)),
            ),
    {
        self.pending.push(TimedEvent { timestamp, event: PulseEvent::SetTo(new_value) });
        proof {
            assert(self.pending_model() =~= old(self).pending_model().push(
                (timestamp.0, PulseEvent::SetTo(new_value)),
            ));
        }
    }

    /// Hands the queued events out, oldest first, and empties the queue.
    pub fn take_pending(&mut self) -> (r: Vec<TimedEvent<PulseEvent>>)
        ensures
            final(self).description_model() == old(self).description_model(),
            delta_models(r@) == old(self).pending_model(),
            final(self).pending_model() == Seq::<(i64, PulseEvent)>::empty(),
    {
        let mut taken: Vec<TimedEvent<PulseEvent>> = Vec::new();
        core::mem::swap(&mut taken, &mut self.pending);
        proof {
            assert(self.pending_model() =~= Seq::<(i64, PulseEvent)>::empty());
        }
        taken
    }

    /// The published description, for registration.
    pub fn description(&self) -> (r: &Description)
        ensures
            r@ == self.description_model(),
    {
        &self.description
    }
}

/// Traces a histogram of observed values.
pub struct HistogramTracer {
    description: Description,
    pending: Vec<TimedEvent<HistogramEvent>>,
}

impl HistogramTracer {
    /// The pending events, oldest first.
    pub closed spec fn pending_model(&self) -> Seq<(i64, HistogramEvent)> {
        delta_models(self.pending@)
    }

    /// The published description.
    pub closed spec fn description_model(&self) -> crate::provider::DescriptionV {
        self.description@
    }

    /// Creates a new histogram tracer with the given bucket levels.
    pub fn new(path: Path, levels: Vec<i64>) -> (r: HistogramTracer)
        ensures
            r.description_model().path == path@,
            r.description_model().info == joined_text(path@) + " histogram"@,
            r.description_model().stream_type
                == <HistogramState as Flow>::stream_type_spec(),
            r.pending_model() == Seq::<(i64, HistogramEvent)>::empty(),
    {
        let description = describe(
            path,
            " histogram",
            <HistogramState as Flow>::stream_type(),
            PackedMetric(Vec::new()),
        );
        let r = HistogramTracer { description, pending: Vec::new() };
        proof {
            assert(r.pending_model() =~= Seq::<(i64, HistogramEvent)>::empty());
        }
        r
    }

    /// Queues one observed value.
    pub fn add(&mut self, value: i64, timestamp: Timestamp)
        ensures
            final(self).description_model() == old(self).description_model(),
            final(self).pending_model() == old(self).pending_model().push(
                (timestamp.0, HistogramEvent::Add(value)),
            ),
    {
        self.pending.push(TimedEvent { timestamp, event: HistogramEvent::Add(value) });
        proof {
            assert(self.pending_model() =~= old(self).pending_model().push(
                (timestamp.0, HistogramEvent::Add(value)),
            ));
        }
    }

    /// Hands the queued events out, oldest first, and empties the queue.
    pub fn take_pending(&mut self) -> (r: Vec<TimedEvent<HistogramEvent>>)
        ensures
            final(self).description_model() == old(self).description_model(),
            delta_models(r@) == old(self).pending_model(),
            final(self).pending_model() == Seq::<(i64, HistogramEvent)>::empty(),
    {
        let mut taken: Vec<TimedEvent<HistogramEvent>> = Vec::new();
        core::mem::swap(&mut taken, &mut self.pending);
        proof {
            assert(self.pending_model() =~= Seq::<(i64, HistogramEvent)>::empty());
        }
        taken
    }

    /// The published description, for registration.
    pub fn description(&self) -> (r: &Description)
        ensures
            r@ == self.description_model(),
    {
        &self.description
    }
}

/// Receives authorization decisions from the application.
pub struct AuthWatcher {
    description: Description,
    pending: Vec<TimedEvent<AuthEvent>>,
}

impl AuthWatcher {
    /// The pending events, oldest first.
    pub closed spec fn pending_model(&self) -> Seq<(i64, AuthEvent)> {
        delta_models(self.pending@)
    }

    /// The published description.
    pub closed spec fn description_model(&self) -> crate::provider::DescriptionV {
        self.description@
    }

    /// Creates a new watcher for the path.
    pub fn new(path: Path) -> (r: AuthWatcher)
        ensures
            r.description_model().path == path@,
            r.description_model().info == joined_text(path@) + " auth"@,
            r.description_model().stream_type == <AuthState as Flow>::stream_type_spec(),
            r.pending_model() == Seq::<(i64, AuthEvent)>::empty(),
    {
        let description = describe(
            path,
            " auth",
            <AuthState as Flow>::stream_type(),
            PackedMetric(Vec::new()),
        );
        let r = AuthWatcher { description, pending: Vec::new() };
        proof {
            assert(r.pending_model() =~= Seq::<(i64, AuthEvent)>::empty());
        }
        r
    }

    /// Queues a change of the authorized flag.
    pub fn authorized(&mut self, value: bool, timestamp: Timestamp)
        ensures
            final(self).description_model() == old(self).description_model(),
            final(self).pending_model() == old(self).pending_model().push(
                (timestamp.0, AuthEvent::Authorized(value)),
            ),
    {
        self.pending.push(TimedEvent { timestamp, event: AuthEvent::Authorized(value) });
        proof {
            assert(self.pending_model() =~= old(self).pending_model().push(
                (timestamp.0, AuthEvent::Authorized(value)),
            ));
        }
    }

    /// Hands the queued events out, oldest first, and empties the queue.
    pub fn take_pending(&mut self) -> (r: Vec<TimedEvent<AuthEvent>>)
        ensures
            final(self).description_model() == old(self).description_model(),
            delta_models(r@) == old(self).pending_model(),
            final(self).pending_model() == Seq::<(i64, AuthEvent)>::empty(),
    {
        let mut taken: Vec<TimedEvent<AuthEvent>> = Vec::new();
        core::mem::swap(&mut taken, &mut self.pending);
        proof {
            assert(self.pending_model() =~= Seq::<(i64, AuthEvent)>::empty());
        }
        taken
    }

    /// The published description, for registration.
    pub fn description(&self) -> (r: &Description)
        ensures
            r@ == self.description_model(),
    {
        &self.description
    }
}

/// Receives select events from the stream's recorder.
pub struct SelectorWatcher {
    description: Description,
    initial: SelectorState,
    received: Vec<TimedEvent<SelectorEvent>>,
}

impl SelectorWatcher {
    /// The events delivered by the recorder and not yet consumed,
    /// oldest first.
    pub closed spec fn received_model(&self) -> Seq<(i64, Seq<char>)> {
        delta_models(self.received@)
    }

    /// The published description.
    pub closed spec fn description_model(&self) -> crate::provider::DescriptionV {
        self.description@
    }

    /// The initial state the recorder starts from.
    pub closed spec fn initial_model(&self) -> crate::selector::SelectorStateV {
        self.initial@
    }

    /// Creates a new watcher: the declared options and the starting
    /// selection form the initial state, the label and options its
    /// published metadata.
    pub fn new(path: Path, label: String, options: Vec<String>, selected: String) -> (r:
        SelectorWatcher)
        ensures
            r.description_model().path == path@,
            r.description_model().info == joined_text(path@) + " selector"@,
            r.description_model().stream_type
                == <SelectorState as Flow>::stream_type_spec(),
            r.description_model().metadata == <SelectorFlow as DataFraction>::frac_enc(
                (crate::selector::SelectorFlowV {
                    label: label@,
                    options: crate::codec::strs_models(options@),
                }),
            ),
            r.initial_model() == (crate::selector::SelectorStateV {
                label: label@,
                options: crate::codec::strs_models(options@),
                selected: selected@,
            }),
            r.received_model() == Seq::<(i64, Seq<char>)>::empty(),
    {
        let flow = SelectorFlow { label: label.clone(), options: crate::selector::clone_strings(&options) };
        let ghost flow_model = flow@;
        let metadata = flow.pack_metric();
        let initial = SelectorState::new(label, options, selected);
        let description = describe(
            path,
            " selector",
            <SelectorState as Flow>::stream_type(),
            metadata,
        );
        let r = SelectorWatcher { description, initial, received: Vec::new() };
        proof {
            assert(r.received_model() =~= Seq::<(i64, Seq<char>)>::empty());
            assert(flow_model =~= (crate::selector::SelectorFlowV {
                label: r.initial_model().label,
                options: r.initial_model().options,
            }));
        }
        r
    }

    /// Takes delivery of one event the recorder fanned out.
    pub fn deliver(&mut self, event: TimedEvent<SelectorEvent>)
        ensures
            final(self).description_model() == old(self).description_model(),
            final(self).initial_model() == old(self).initial_model(),
            final(self).received_model() == old(self).received_model().push(event@),
    {
        self.received.push(event);
        proof {
            assert(self.received_model() =~= old(self).received_model().push(event@));
        }
    }

    /// The oldest delivered selection, if one is waiting: the resolved
    /// value of a watch.
    pub fn poll_select(&mut self) -> (r: Option<String>)
        ensures
            final(self).description_model() == old(self).description_model(),
            final(self).initial_model() == old(self).initial_model(),
            old(self).received_model().len() == 0 ==> r is None && final(self).received_model()
                == old(self).received_model(),
            old(self).received_model().len() > 0 ==> (r matches Some(text) && text@ == old(
                self,
            ).received_model()[0].1) && final(self).received_model() == old(
                self,
            ).received_model().skip(1),
    {
        if self.received.len() == 0 {
            return None;
        }
        let event = self.received.remove(0);
        proof {
            assert(self.received_model() =~= old(self).received_model().skip(1));
        }
        Some(event.event.select)
    }

    /// The initial state, for spawning the stream's recorder.
    pub fn initial_state(&self) -> (r: &SelectorState)
        ensures
            r@ == self.initial_model(),
    {
        &self.initial
    }

    /// The published description, for registration.
    pub fn description(&self) -> (r: &Description)
        ensures
            r@ == self.description_model(),
    {
        &self.description
    }
}

} // verus!
