//! Transport-level addressing: subscriber identities, targeting
//! directions, and the envelopes that wrap protocol payloads.

use vstd::prelude::*;

use crate::provider::ProviderProtocol;

verus! {

/// The origin of a `DirectId`: a marker protocol type.  Origins are
/// type-tagged to prevent cross-protocol confusion.
pub trait Origin: Default + Clone {

}

/// Opaque, copyable identifier of a remote subscriber within a sender,
/// tagged by the protocol it belongs to.
#[derive(Debug, Hash)]
pub struct DirectId<T: Origin> {
    value: u64,
    origin: core::marker::PhantomData<T>,
}

impl<T: Origin> Copy for DirectId<T> {

}

impl<T: Origin> Clone for DirectId<T> {
    fn clone(&self) -> (r: DirectId<T>)
        ensures
            r == *self,
    {
        *self
    }
}

impl<T: Origin> PartialEq for DirectId<T> {
    fn eq(&self, other: &DirectId<T>) -> bool {
        self.value == other.value
    }
}

impl<T: Origin> vstd::std_specs::cmp::PartialEqSpecImpl for DirectId<T> {
    open spec fn obeys_eq_spec() -> bool {
        true
    }

    open spec fn eq_spec(&self, other: &DirectId<T>) -> bool {
        self@ == other@
    }
}

impl<T: Origin> View for DirectId<T> {
    type V = u64;

    closed spec fn view(&self) -> u64 {
        self.value
    }
}

impl<T: Origin> DirectId<T> {
    /// Builds an identifier from its numeric value.
    pub fn from_value(value: u64) -> (r: DirectId<T>)
        ensures
            r@ == value,
    {
        DirectId { value, origin: core::marker::PhantomData }
    }

    /// The numeric value of the identifier.
    pub fn to_value(&self) -> (r: u64)
        ensures
            r == self@,
    {
        self.value
    }
}

/// The targeting descriptor of an outbound frame.
///
/// `Broadcast` means "no specific target" and is reserved for fan-out
/// responses where the sender chooses recipients.
#[derive(Debug, Clone)]
pub enum Direction<T: Origin> {
    Direct(DirectId<T>),
    Multicast(Vec<DirectId<T>>),
    Broadcast,
}

/// The set of identifiers a direction names explicitly.
pub open spec fn direction_targets<T: Origin>(d: Direction<T>) -> Set<u64> {
    match d {
        Direction::Direct(id) => set![id@],
        Direction::Multicast(ids) => ids@.map(|i: int, id: DirectId<T>| id@).to_set(),
        Direction::Broadcast => Set::empty(),
    }
}

impl<T: Origin> Direction<T> {
    /// The identifiers the direction names, in order; broadcast names
    /// none explicitly.
    pub fn to_vec(self) -> (r: Vec<DirectId<T>>)
        ensures
            self matches Direction::Direct(id) ==> r@ == seq![id],
            self matches Direction::Multicast(ids) ==> r@ == ids@,
            self is Broadcast ==> r@ == Seq::<DirectId<T>>::empty(),
    {
        match self {
            Direction::Direct(direct_id) => {
                let r = vec![direct_id];
                r
            },
            Direction::Multicast(ids) => ids,
            Direction::Broadcast => {
                let r = Vec::new();
                r
            },
        }
    }

    /// The direction that leaves the choice of recipients to the sender.
    pub fn broadcast() -> (r: Direction<T>)
        ensures
            r is Broadcast,
    {
        Direction::Broadcast
    }

    /// The direction naming exactly one subscriber.
    pub fn direct(direct_id: DirectId<T>) -> (r: Direction<T>)
        ensures
            r == Direction::Direct(direct_id),
    {
        Direction::Direct(direct_id)
    }

    /// Maps a set of subscribers, given as a duplicate-free list, to a
    /// direction: empty maps to broadcast, a singleton maps to direct,
    /// two or more map to multicast of exactly that set.
    pub fn from_set(ids: &Vec<DirectId<T>>) -> (r: Direction<T>)
        ensures
            ids@.len() == 0 ==> r is Broadcast,
            ids@.len() == 1 ==> r == Direction::Direct(ids@[0]),
            ids@.len() >= 2 ==> (r matches Direction::Multicast(v) && v@ == ids@),
    {
        if ids.len() == 0 {
            Direction::Broadcast
        } else if ids.len() == 1 {
            Direction::Direct(ids[0])
        } else {
            Direction::Multicast(ids.clone())
        }
    }
}

/// An inbound message wrapped with the identity of its sender.
#[derive(Debug, Clone)]
pub struct Envelope<T: Origin, D> {
    pub direct_id: DirectId<T>,
    pub data: D,
}

/// An outbound message wrapped with its targeting direction.
#[derive(Debug, Clone)]
pub struct WideEnvelope<T: Origin, D> {
    pub direction: Direction<T>,
    pub data: D,
}

impl Origin for ProviderProtocol {

}

/// The request id type of the provider protocol.
pub type ProviderReqId = DirectId<ProviderProtocol>;

/// The marker type of the older single-purpose tracing protocol.
#[derive(Debug, Clone, Copy, PartialEq, Eq, Structural, Hash)]
pub struct RillProtocol;

impl Default for RillProtocol {
    fn default() -> (r: RillProtocol)
        ensures
            r == (RillProtocol),
    {
        RillProtocol
    }
}

impl Origin for RillProtocol {

}

/// Requests of the remote server in the older single-purpose tracing
/// protocol.
#[derive(Debug, Clone)]
pub enum RillToProvider {
    ListOf { path: crate::provider::Path },
    /// Turns on notifications about every added path.
    Describe { active: bool },
    ControlStream { path: crate::provider::Path, active: bool },
}

} // verus!
