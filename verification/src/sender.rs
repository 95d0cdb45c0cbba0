//! The outbound multiplexer's dispatch rule: which connection slots a
//! direction reaches.
//!
//! The sender owns the writable side of the transport and the map from
//! direct ids to connection slots; the transport itself stays with the
//! embedding.  Broadcast means "to every current id"; with the transport
//! absent a frame is silently dropped — the recorders have already
//! cleared their subscribers on disconnect.

use vstd::prelude::*;

use crate::protocol::Direction;
use crate::protocol::ProviderReqId;
use crate::provider::ProviderProtocol;

verus! {

/// The dispatch state of the outbound multiplexer.
pub struct RillSender {
    connected: bool,
    clients: Vec<ProviderReqId>,
}

impl RillSender {
    /// The ids with a connection slot, in arrival order.
    pub closed spec fn client_ids(&self) -> Seq<u64> {
        self.clients@.map(|i: int, id: ProviderReqId| id@)
    }

    /// Whether the transport is present.
    pub closed spec fn is_connected(&self) -> bool {
        self.connected
    }

    /// A fresh sender with no transport and no clients.
    pub fn new() -> (r: RillSender)
        ensures
            !r.is_connected(),
            r.client_ids() == Seq::<u64>::empty(),
    {
        let r = RillSender { connected: false, clients: Vec::new() };
        proof {
            assert(r.client_ids() =~= Seq::<u64>::empty());
        }
        r
    }

    /// Binds a transport carrying these client slots.
    pub fn connect(&mut self, clients: Vec<ProviderReqId>)
        ensures
            final(self).is_connected(),
            final(self).client_ids() == clients@.map(|i: int, id: ProviderReqId| id@),
    {
        self.connected = true;
        self.clients = clients;
    }

    /// Forgets all transient dispatch state.
    pub fn reset(&mut self)
        ensures
            !final(self).is_connected(),
            final(self).client_ids() == Seq::<u64>::empty(),
    {
        self.connected = false;
        self.clients = Vec::new();
        proof {
            assert(self.client_ids() =~= Seq::<u64>::empty());
        }
    }

    /// The ids one outbound frame reaches: all current clients for a
    /// broadcast, the listed ones for a multicast, the one for a direct
    /// frame — and none at all while the transport is absent.
    pub fn targets(&self, direction: Direction<ProviderProtocol>) -> (r: Vec<ProviderReqId>)
        ensures
            !self.is_connected() ==> r@.len() == 0,
            self.is_connected() ==> (match direction {
                Direction::Broadcast => r@.map(|i: int, id: ProviderReqId| id@)
                    == self.client_ids(),
                Direction::Multicast(ids) => r@ == ids@,
                Direction::Direct(id) => r@ == seq![id],
            }),
    {
        if !self.connected {
            let r: Vec<ProviderReqId> = Vec::new();
            return r;
        }
        match direction {
            Direction::Broadcast => {
                let mut r: Vec<ProviderReqId> = Vec::new();
                let n = self.clients.len();
                let mut i: usize = 0;
                while i < n
                    invariant
                        n == self.clients@.len(),
                        i <= n,
                        r@.len() == i,
                        forall|k: int| 0 <= k < i ==> #[trigger] r@[k]@ == self.client_ids()[k],
                    decreases n - i,
                {
                    r.push(self.clients[i].clone());
                    proof {
                        assert(self.client_ids()[i as int] == self.clients@[i as int]@);
                    }
                    i = i + 1;
                }
                proof {
                    let ghost left = r@.map(|k: int, id: ProviderReqId| id@);
                    assert forall|k: int| 0 <= k < n implies left[k] == self.client_ids()[k] by {
                        assert(r@[k]@ == self.client_ids()[k]);
                    }
                    assert(left =~= self.client_ids());
                }
                r
            },
            Direction::Multicast(ids) => ids,
            Direction::Direct(id) => {
                let r = vec![id];
                r
            },
        }
    }
}

} // verus!
