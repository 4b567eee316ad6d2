//! Tracking connected clients: each connection is handed a fresh id, looked
//! up and removed by that id. The caller owns the sockets and the threads;
//! here only the bookkeeping lives.

use std::collections::HashMap;
use vstd::prelude::*;

verus! {

/// A connected client: its IPv6 address, as the 128-bit value such an
/// address is.
pub struct Client {
    pub ip: u128,
}

impl Client {
    /// A client record for the given address.
    pub fn new(ip: u128) -> (r: Self)
        ensures
            r.ip == ip,
    {
        Self { ip }
    }
}

/// The connection book: who is connected, by id, and the id the next
/// connection will get.
pub struct ConnectionHandler {
    clients: HashMap<usize, Client>,
    next_id: usize,
}

impl ConnectionHandler {
    /// The connected clients, by id.
    pub closed spec fn clients_view(&self) -> Map<usize, Client> {
        self.clients@
    }

    /// The id the next connection will be handed.
    pub closed spec fn next_id_view(&self) -> usize {
        self.next_id
    }

    /// Every id handed out so far lies below the counter, so no id is ever
    /// handed out twice.
    pub open spec fn inv(&self) -> bool {
        forall|id: usize| self.clients_view().dom().contains(id) ==> id < self.next_id_view()
    }

    /// An empty book: nobody connected, ids starting at zero.
    pub fn new() -> (r: Self)
        ensures
            r.inv(),
            r.clients_view() == Map::<usize, Client>::empty(),
            r.next_id_view() == 0,
    {
        Self { clients: HashMap::new(), next_id: 0 }
    }

    /// How many clients are connected.
    pub fn client_count(&self) -> (n: usize)
        ensures
            n == self.clients_view().len(),
    {
        self.clients.len()
    }

    /// Registers a connection from `ip` and hands back its id: a fresh one,
    /// never given to any earlier connection.
    pub fn add_connection(&mut self, ip: u128) -> (id: usize)
        requires
            old(self).inv(),
            old(self).next_id_view() < usize::MAX,
        ensures
            final(self).inv(),
            id == old(self).next_id_view(),
            !old(self).clients_view().dom().contains(id),
            final(self).clients_view() == old(self).clients_view().insert(id, (Client { ip })),
            final(self).next_id_view() == id + 1,
    {
        let last = self.next_id;
        self.next_id = self.next_id + 1;
        self.clients.insert(last, Client::new(ip));
        proof {
            assert forall|id: usize| self.clients_view().dom().contains(id) implies id
                < self.next_id_view() by {
                if id != last {
                    assert(old(self).clients_view().dom().contains(id));
                }
            }
        }
        last
    }

    /// Unregisters the connection with this id, saying whether there was one.
    pub fn remove_connection(&mut self, id: usize) -> (r: Option<()>)
        requires
            old(self).inv(),
        ensures
            final(self).inv(),
            r is Some <==> old(self).clients_view().dom().contains(id),
            final(self).clients_view() == old(self).clients_view().remove(id),
            final(self).next_id_view() == old(self).next_id_view(),
    {
        let removed = self.clients.remove(&id);
        proof {
            assert forall|other: usize| self.clients_view().dom().contains(other) implies other
                < self.next_id_view() by {
                assert(old(self).clients_view().dom().contains(other));
            }
        }
        match removed {
            Some(_) => Some(()),
            None => None,
        }
    }
}

} // verus!
