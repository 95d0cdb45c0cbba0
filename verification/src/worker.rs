//! The process-wide router: the registry of live recorders by path, the
//! broker between inbound protocol requests and the recorder each one
//! targets, and the connection-state fan-out.
//!
//! The worker never touches a stream's data; it only decides, for each
//! inbound message, which recorder slot it goes to, or answers with an
//! error when no stream has the path.  Every registered path names
//! exactly one recorder.

use vstd::prelude::*;

use crate::protocol::Direction;
use crate::protocol::ProviderReqId;
use crate::protocol::WideEnvelope;
use crate::provider::Description;
use crate::provider::EntryId;
use crate::provider::EntryType;
use crate::provider::FlowControl;
use crate::provider::ProviderToServer;
use crate::provider::RecorderAction;
use crate::provider::RecorderRequest;
use crate::provider::ServerToProvider;
use crate::recorder::OutEnvelope;

verus! {

/// The error of a rejected registration.
#[derive(Debug, Clone, Copy, PartialEq, Eq, Structural)]
pub enum WorkerError {
    /// A recorder is addressable by at most one path; a second
    /// registration of the same path is rejected.
    PathConflict,
}

/// One routing decision: hand the request to the recorder in the given
/// slot.
pub struct RouteToRecorder {
    pub slot: usize,
    pub id: ProviderReqId,
    pub request: RecorderRequest,
}

/// What one inbound message made the worker do: requests routed to
/// recorders, and frames answered directly.
pub struct WorkerOutput {
    pub routed: Vec<RouteToRecorder>,
    pub responses: Vec<OutEnvelope>,
}

/// The process-wide worker.
pub struct RillWorker {
    entry_id: EntryId,
    registry: Vec<Description>,
    describers: Vec<ProviderReqId>,
    connected: bool,
}

/// The paths of the registered descriptions, in registration order.
pub open spec fn registry_paths(registry: Seq<crate::provider::DescriptionV>) -> Seq<
    Seq<Seq<char>>,
> {
    registry.map(|i: int, d: crate::provider::DescriptionV| d.path)
}

impl RillWorker {
    /// The registered descriptions; a stream's slot is its position.
    pub closed spec fn registry_model(&self) -> Seq<crate::provider::DescriptionV> {
        self.registry@.map(|i: int, d: Description| d@)
    }

    /// The ids that asked for notifications about every added path.
    pub closed spec fn describer_ids(&self) -> Seq<u64> {
        self.describers@.map(|i: int, id: ProviderReqId| id@)
    }

    /// The provider's own entry name.
    pub closed spec fn entry_id_model(&self) -> Seq<char> {
        self.entry_id@
    }

    /// Whether a sender is present.
    pub closed spec fn is_connected(&self) -> bool {
        self.connected
    }

    /// Every registered path names exactly one recorder, and no id asks
    /// for notifications twice.
    pub open spec fn wf(&self) -> bool {
        &&& (forall|i: int, j: int|
            0 <= i < j < self.registry_model().len() ==> self.registry_model()[i].path
                != self.registry_model()[j].path)
        &&& (forall|i: int, j: int|
            0 <= i < j < self.describer_ids().len() ==> self.describer_ids()[i]
                != self.describer_ids()[j])
    }

    /// Builds a worker for one embedding, disconnected and empty.
    pub fn new(entry_id: EntryId) -> (r: RillWorker)
        ensures
            r.entry_id_model() == entry_id@,
            r.registry_model() == Seq::<crate::provider::DescriptionV>::empty(),
            r.describer_ids() == Seq::<u64>::empty(),
            !r.is_connected(),
            r.wf(),
    {
        let r = RillWorker {
            entry_id,
            registry: Vec::new(),
            describers: Vec::new(),
            connected: false,
        };
        proof {
            assert(r.registry_model() =~= Seq::<crate::provider::DescriptionV>::empty());
            assert(r.describer_ids() =~= Seq::<u64>::empty());
        }
        r
    }

    /// The slot of the recorder registered for a path, if any.
    fn find_path(&self, path: &crate::provider::Path) -> (r: Option<usize>)
        ensures
            r matches Some(i) ==> i < self.registry_model().len() && self.registry_model()[
                i as int
            ].path == path@,
            r is None ==> !registry_paths(self.registry_model()).contains(path@),
    {
        let n = self.registry.len();
        let mut i: usize = 0;
        while i < n
            invariant
                n == self.registry@.len(),
                i <= n,
                forall|k: int|
                    0 <= k < i ==> (#[trigger] self.registry_model()[k]).path != path@,
            decreases n - i,
        {
            if &self.registry[i].path == path {
                proof {
                    assert(self.registry_model()[i as int] == self.registry@[i as int]@);
                }
                return Some(i);
            }
            proof {
                assert(self.registry_model()[i as int] == self.registry@[i as int]@);
            }
            i = i + 1;
        }
        proof {
            let paths = registry_paths(self.registry_model());
            if paths.contains(path@) {
                let k = choose|k: int| 0 <= k < paths.len() && paths[k] == path@;
                assert(self.registry_model()[k].path != path@);
            }
        }
        None
    }

    /// Takes one drained registration: a fresh path takes the next
    /// slot, and the new description is pushed to every id that asked
    /// for notifications; a duplicate path is rejected.
    pub fn register_tracer(&mut self, description: Description) -> (r: (
        Result<usize, WorkerError>,
        Vec<OutEnvelope>,
    ))
        requires
            old(self).wf(),
        ensures
            final(self).wf(),
            final(self).entry_id_model() == old(self).entry_id_model(),
            final(self).describer_ids() == old(self).describer_ids(),
            final(self).is_connected() == old(self).is_connected(),
            registry_paths(old(self).registry_model()).contains(description@.path) ==> {
                &&& r.0 == Err::<usize, WorkerError>(WorkerError::PathConflict)
                &&& final(self).registry_model() == old(self).registry_model()
                &&& r.1@.len() == 0
            },
            !registry_paths(old(self).registry_model()).contains(description@.path) ==> {
                &&& r.0 == Ok::<usize, WorkerError>(old(self).registry_model().len() as usize)
                &&& final(self).registry_model() == old(self).registry_model().push(description@)
                &&& (if old(self).describer_ids().len() > 0 {
                    r.1@.len() == 1 && (r.1@[0].data matches ProviderToServer::Description {
                        list,
                    } && list@.len() == 1 && list@[0]@ == description@)
                        && crate::protocol::direction_targets(r.1@[0].direction)
                        == old(self).describer_ids().to_set()
                } else {
                    r.1@.len() == 0
                })
            },
    {
        let mut responses: Vec<OutEnvelope> = Vec::new();
        match self.find_path(&description.path) {
            Some(slot) => {
                proof {
                    assert(registry_paths(self.registry_model())[slot as int]
                        == self.registry_model()[slot as int].path);
                    assert(registry_paths(self.registry_model()).contains(
                        self.registry_model()[slot as int].path,
                    ));
                }
                (Err(WorkerError::PathConflict), responses)
            },
            None => {
                let slot = self.registry.len();
                if self.describers.len() > 0 {
                    let direction = Direction::from_set(&self.describers);
                    let mut list: Vec<Description> = Vec::new();
                    list.push(description.clone());
                    responses.push(
                        WideEnvelope { direction, data: ProviderToServer::Description { list } },
                    );
                    proof {
                        lemma_direction_of_ids(&self.describers, responses@[0].direction);
                    }
                }
                self.registry.push(description);
                proof {
                    assert(self.registry_model() =~= old(self).registry_model().push(
                        self.registry@[slot as int]@,
                    ));
                    assert forall|i: int, j: int|
                        0 <= i < j < self.registry_model().len() implies self.registry_model()[
                        i
                    ].path != self.registry_model()[j].path by {
                        if j + 1 == self.registry_model().len() {
                            assert(registry_paths(old(self).registry_model())[i] == old(
                                self,
                            ).registry_model()[i].path);
                        }
                    }
                }
                (Ok(slot), responses)
            },
        }
    }

    /// Whether the id already asked for notifications, and where.
    fn find_describer(&self, id: &ProviderReqId) -> (r: Option<usize>)
        ensures
            r matches Some(i) ==> i < self.describer_ids().len() && self.describer_ids()[
                i as int
            ] == id@,
            r is None ==> !self.describer_ids().to_set().contains(id@),
    {
        let n = self.describers.len();
        let mut i: usize = 0;
        while i < n
            invariant
                n == self.describers@.len(),
                i <= n,
                forall|k: int| 0 <= k < i ==> self.describer_ids()[k] != id@,
            decreases n - i,
        {
            if self.describers[i].to_value() == id.to_value() {
                proof {
                    assert(self.describer_ids()[i as int] == self.describers@[i as int]@);
                }
                return Some(i);
            }
            proof {
                assert(self.describer_ids()[i as int] == self.describers@[i as int]@);
            }
            i = i + 1;
        }
        proof {
            if self.describer_ids().to_set().contains(id@) {
                let k = choose|k: int|
                    0 <= k < self.describer_ids().len() && self.describer_ids()[k] == id@;
                assert(self.describer_ids()[k] != id@);
            }
        }
        None
    }

    /// Routes one inbound protocol request.
    ///
    /// A stream request goes to the recorder registered for its path, or
    /// answers the origin with an error when no stream has it; a
    /// describe request toggles notifications for the origin, and
    /// turning them on answers at once with every registered
    /// description.
    pub fn route(&mut self, id: ProviderReqId, request: ServerToProvider) -> (out: WorkerOutput)
        requires
            old(self).wf(),
        ensures
            final(self).wf(),
            final(self).entry_id_model() == old(self).entry_id_model(),
            final(self).registry_model() == old(self).registry_model(),
            final(self).is_connected() == old(self).is_connected(),
            (match request {
                ServerToProvider::Describe { active } => {
                    &&& (if active {
                        &&& final(self).describer_ids().to_set() == old(
                            self,
                        ).describer_ids().to_set().insert(id@)
                        &&& out.routed@.len() == 0
                        &&& out.responses@.len() == 1
                        &&& (out.responses@[0].data matches ProviderToServer::Description { list }
                            && list@.map(|i: int, d: Description| d@) == old(
                            self,
                        ).registry_model())
                        &&& (out.responses@[0].direction matches Direction::Direct(d) && d@
                            == id@)
                    } else {
                        &&& final(self).describer_ids().to_set() == old(
                            self,
                        ).describer_ids().to_set().remove(id@)
                        &&& out.routed@.len() == 0
                        &&& out.responses@.len() == 0
                    })
                },
                ServerToProvider::ControlStream { path, active } => {
                    &&& final(self).describer_ids() == old(self).describer_ids()
                    &&& (if registry_paths(old(self).registry_model()).contains(path@) {
                        &&& out.responses@.len() == 0
                        &&& out.routed@.len() == 1
                        &&& out.routed@[0].id == id
                        &&& old(self).registry_model()[out.routed@[0].slot as int].path == path@
                        &&& out.routed@[0].request == RecorderRequest::ControlStream(
                            if active {
                                FlowControl::StartStream
                            } else {
                                FlowControl::StopStream
                            },
                        )
                    } else {
                        &&& out.routed@.len() == 0
                        &&& out.responses@.len() == 1
                        &&& crate::recorder::is_error_to(out.responses@[0], id@)
                    })
                },
                ServerToProvider::GetSnapshot { path } => {
                    &&& final(self).describer_ids() == old(self).describer_ids()
                    &&& (if registry_paths(old(self).registry_model()).contains(path@) {
                        &&& out.responses@.len() == 0
                        &&& out.routed@.len() == 1
                        &&& out.routed@[0].id == id
                        &&& old(self).registry_model()[out.routed@[0].slot as int].path == path@
                        &&& out.routed@[0].request == RecorderRequest::Action(
                            RecorderAction::GetSnapshot,
                        )
                    } else {
                        &&& out.routed@.len() == 0
                        &&& out.responses@.len() == 1
                        &&& crate::recorder::is_error_to(out.responses@[0], id@)
                    })
                },
            }),
    {
        let mut out = WorkerOutput { routed: Vec::new(), responses: Vec::new() };
        match request {
            ServerToProvider::Describe { active } => {
                if active {
                    match self.find_describer(&id) {
                        Some(slot) => {
                            proof {
                                assert(self.describer_ids().to_set().contains(id@));
                                assert(self.describer_ids().to_set() =~= self
                                    .describer_ids()
                                    .to_set()
                                    .insert(id@));
                            }
                        },
                        None => {
                            self.describers.push(id);
                            proof {
                                assert(self.describer_ids() =~= old(self).describer_ids().push(
                                    id@,
                                ));
                                crate::trace::lemma_push_to_set(old(self).describer_ids(), id@);
                                assert forall|a: int, b: int|
                                    0 <= a < b < self.describer_ids().len() implies self
                                    .describer_ids()[a] != self.describer_ids()[b] by {
                                    if b + 1 == self.describer_ids().len() {
                                        assert(self.describer_ids()[a] == old(
                                            self,
                                        ).describer_ids()[a]);
                                        assert(old(self).describer_ids().contains(
                                            old(self).describer_ids()[a],
                                        ));
                                    } else {
                                        assert(self.describer_ids()[a] == old(
                                            self,
                                        ).describer_ids()[a]);
                                        assert(self.describer_ids()[b] == old(
                                            self,
                                        ).describer_ids()[b]);
                                    }
                                }
                            }
                        },
                    }
                    let list = clone_descriptions(&self.registry);
                    out.responses.push(
                        WideEnvelope {
                            direction: Direction::direct(id),
                            data: ProviderToServer::Description { list },
                        },
                    );
                } else {
                    match self.find_describer(&id) {
                        Some(slot) => {
                            proof {
                                assert(self.describer_ids().contains(
                                    self.describer_ids()[slot as int],
                                ));
                                crate::trace::lemma_distinct_remove(self.describer_ids(), slot as int);
                            }
                            self.describers.remove(slot);
                            proof {
                                assert(self.describer_ids() =~= old(
                                    self,
                                ).describer_ids().remove(slot as int));
                            }
                        },
                        None => {
                            proof {
                                assert(self.describer_ids().to_set() =~= self
                                    .describer_ids()
                                    .to_set()
                                    .remove(id@));
                            }
                        },
                    }
                }
            },
            ServerToProvider::ControlStream { path, active } => {
                match self.find_path(&path) {
                    Some(slot) => {
                        proof {
                            assert(registry_paths(self.registry_model())[slot as int]
                                == self.registry_model()[slot as int].path);
                            assert(registry_paths(self.registry_model()).contains(
                                self.registry_model()[slot as int].path,
                            ));
                        }
                        let control = if active {
                            FlowControl::StartStream
                        } else {
                            FlowControl::StopStream
                        };
                        out.routed.push(
                            RouteToRecorder {
                                slot,
                                id,
                                request: RecorderRequest::ControlStream(control),
                            },
                        );
                    },
                    None => {
                        out.responses.push(unknown_path_error(id));
                    },
                }
            },
            ServerToProvider::GetSnapshot { path } => {
                match self.find_path(&path) {
                    Some(slot) => {
                        proof {
                            assert(registry_paths(self.registry_model())[slot as int]
                                == self.registry_model()[slot as int].path);
                            assert(registry_paths(self.registry_model()).contains(
                                self.registry_model()[slot as int].path,
                            ));
                        }
                        out.routed.push(
                            RouteToRecorder {
                                slot,
                                id,
                                request: RecorderRequest::Action(RecorderAction::GetSnapshot),
                            },
                        );
                    },
                    None => {
                        out.responses.push(unknown_path_error(id));
                    },
                }
            },
        }
        out
    }

    /// Takes a connection change: a connect declares the provider and
    /// lists its registered entries to the new link, a disconnect only
    /// flips the state.  The embedding fans the change out to every
    /// recorder either way.
    pub fn connection_changed(&mut self, connected: bool) -> (out: Vec<OutEnvelope>)
        requires
            old(self).wf(),
        ensures
            final(self).wf(),
            final(self).entry_id_model() == old(self).entry_id_model(),
            final(self).registry_model() == old(self).registry_model(),
            final(self).describer_ids() == old(self).describer_ids(),
            final(self).is_connected() == connected,
            !connected ==> out@.len() == 0,
            connected ==> {
                &&& out@.len() == 2
                &&& (out@[0].data matches ProviderToServer::Declare { entry_id } && entry_id@
                    == old(self).entry_id_model())
                &&& (out@[1].data matches ProviderToServer::Entries { entries } && entries@.map(
                    |i: int, e: (EntryId, EntryType)| e.0@,
                ) == registry_paths(old(self).registry_model()).map(
                    |i: int, p: Seq<Seq<char>>| crate::provider::joined_text(p),
                ))
            },
    {
        self.connected = connected;
        proof {
            assert(self.registry@ == old(self).registry@);
            assert(self.registry_model() =~= old(self).registry_model());
            assert(self.describer_ids() =~= old(self).describer_ids());
        }
        let mut out: Vec<OutEnvelope> = Vec::new();
        if connected {
            out.push(
                WideEnvelope {
                    direction: Direction::broadcast(),
                    data: ProviderToServer::Declare { entry_id: self.entry_id.clone() },
                },
            );
            let ghost models = self.registry_model();
            let mut entries: Vec<(EntryId, EntryType)> = Vec::new();
            let n = self.registry.len();
            let mut i: usize = 0;
            while i < n
                invariant
                    n == self.registry@.len(),
                    i <= n,
                    models == self.registry_model(),
                    self.describer_ids() == old(self).describer_ids(),
                    self.entry_id_model() == old(self).entry_id_model(),
                    self.is_connected() == connected,
                    self.wf(),
                    entries@.len() == i,
                    forall|k: int|
                        0 <= k < i ==> (#[trigger] entries@[k].0)@ == crate::provider::joined_text(
                            models[k].path,
                        ),
                decreases n - i,
            {
                let text = self.registry[i].path.to_text();
                let name = EntryId::from_string(text);
                let stream_type = self.registry[i].stream_type.clone();
                entries.push((name, EntryType::Stream(stream_type)));
                proof {
                    assert(models[i as int] == self.registry@[i as int]@);
                }
                i = i + 1;
            }
            out.push(
                WideEnvelope {
                    direction: Direction::broadcast(),
                    data: ProviderToServer::Entries { entries },
                },
            );
            proof {
                assert(out@[1].data matches ProviderToServer::Entries { entries: es }
                    && es@.map(|k: int, e: (EntryId, EntryType)| e.0@) =~= registry_paths(
                    models,
                ).map(|k: int, p: Seq<Seq<char>>| crate::provider::joined_text(p)));
            }
        }
        out
    }
}

/// A copy of a list of descriptions with the same abstract values.
fn clone_descriptions(xs: &Vec<Description>) -> (r: Vec<Description>)
    ensures
        r@.map(|i: int, d: Description| d@) == xs@.map(|i: int, d: Description| d@),
{
    let mut out: Vec<Description> = Vec::new();
    let n = xs.len();
    let mut i: usize = 0;
    while i < n
        invariant
            n == xs@.len(),
            i <= n,
            out@.len() == i,
            forall|k: int| 0 <= k < i ==> #[trigger] out@[k]@ == xs@[k]@,
        decreases n - i,
    {
        out.push(xs[i].clone());
        i = i + 1;
    }
    proof {
        let ghost left = out@.map(|j: int, d: Description| d@);
        let ghost right = xs@.map(|j: int, d: Description| d@);
        assert forall|k: int| 0 <= k < n implies left[k] == right[k] by {
            assert(out@[k]@ == xs@[k]@);
        }
        assert(left =~= right);
    }
    out
}

/// The error frame for a request naming a path no stream has.
fn unknown_path_error(id: ProviderReqId) -> (r: OutEnvelope)
    ensures
        crate::recorder::is_error_to(r, id@),
{
    proof {
        reveal_strlit("unknown path");
    }
    WideEnvelope {
        direction: Direction::direct(id),
        data: ProviderToServer::Error { reason: "unknown path".to_owned() },
    }
}

/// The direction built from a list of ids names exactly their set.
proof fn lemma_direction_of_ids(
    ids: &Vec<ProviderReqId>,
    direction: Direction<crate::provider::ProviderProtocol>,
)
    requires
        ids@.len() > 0,
        ids@.len() == 1 ==> direction == Direction::<crate::provider::ProviderProtocol>::Direct(
            ids@[0],
        ),
        ids@.len() >= 2 ==> (direction matches Direction::Multicast(v) && v@ == ids@),
    ensures
        crate::protocol::direction_targets(direction) == ids@.map(
            |i: int, id: ProviderReqId| id@,
        ).to_set(),
{
    let models = ids@.map(|i: int, id: ProviderReqId| id@);
    if ids@.len() == 1 {
        assert(models[0] == ids@[0]@);
        assert(crate::protocol::direction_targets(direction) =~= models.to_set());
    } else {
        assert(crate::protocol::direction_targets(direction) =~= models.to_set());
    }
}

} // verus!
