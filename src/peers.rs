//! The peer directory: the remote ends this process talks to. A client talks
//! to one server; a server keys its clients by address, and numbers them in
//! the order they connected.

use dashmap::DashMap;
use vstd::prelude::*;

use crate::errors::{ConnectionError, ConnectionErrorKind};

verus! {

#[verifier::external_type_specification]
#[verifier::external_body]
#[verifier::reject_recursive_types(K)]
#[verifier::reject_recursive_types(V)]
#[verifier::reject_recursive_types(S)]
pub struct ExDashMap<K, V, S>(dashmap::DashMap<K, V, S>);

/// The (address, client id) entries that a concurrent map holds.
pub uninterp spec fn client_entries(m: DashMap<String, u32>) -> Map<Seq<char>, u32>;

/// No client at all.
pub open spec fn no_clients() -> Map<Seq<char>, u32> {
    Map::empty()
}

/// Relies on dashmap::DashMap::new: the new map is empty.
#[verifier::external_body]
fn client_map_new() -> (r: DashMap<String, u32>)
    ensures
        client_entries(r) == no_clients(),
{
    DashMap::new()
}

/// Relies on dashmap::DashMap::contains_key: whether the key has an entry.
#[verifier::external_body]
fn client_map_contains(m: &DashMap<String, u32>, k: &String) -> (b: bool)
    ensures
        b == client_entries(*m).dom().contains(k@),
{
    m.contains_key(k)
}

/// Relies on dashmap::DashMap::insert: the key's entry becomes the value.
#[verifier::external_body]
fn client_map_insert(m: &mut DashMap<String, u32>, k: String, v: u32)
    ensures
        client_entries(*final(m)) == client_entries(*old(m)).insert(k@, v),
{
    m.insert(k, v);
}

/// Relies on dashmap::DashMap::get: the value of the key's entry, if any.
#[verifier::external_body]
fn client_map_get(m: &DashMap<String, u32>, k: &String) -> (o: Option<u32>)
    ensures
        o is None <==> !client_entries(*m).dom().contains(k@),
        o matches Some(v) ==> client_entries(*m)[k@] == v,
{
    m.get(k).map(|e| *e.value())
}

/// Ids below `n` handed to distinct addresses, `n` addresses in all.
pub open spec fn numbered_clients(m: Map<Seq<char>, u32>, n: u32) -> bool {
    &&& m.dom().finite()
    &&& m.dom().len() == n
    &&& forall|a: Seq<char>| #[trigger] m.dom().contains(a) ==> m[a] < n
    &&& forall|a: Seq<char>, b: Seq<char>|
        m.dom().contains(a) && m.dom().contains(b) && #[trigger] m[a] == #[trigger] m[b] ==> a == b
}

/// The remote ends of this process.
pub struct PeerDirectory {
    clients: DashMap<String, u32>,
    next_client_id: u32,
    connected_to_server: bool,
}

impl PeerDirectory {
    /// The connected clients: address to client id.
    pub closed spec fn clients(&self) -> Map<Seq<char>, u32> {
        client_entries(self.clients)
    }

    /// How many clients are connected.
    pub closed spec fn client_count(&self) -> u32 {
        self.next_client_id
    }

    /// This process is a client connected to its server.
    pub closed spec fn has_server(&self) -> bool {
        self.connected_to_server
    }

    /// The number of remote ends: the server, for a client; the clients, for a server.
    pub open spec fn remote_count(&self) -> int {
        if self.has_server() { 1 } else { self.client_count() as int }
    }

    /// More than one remote end: a singular send or receive would be ambiguous.
    pub open spec fn more_than_one_remote(&self) -> bool {
        !self.has_server() && self.client_count() > 1
    }

    pub open spec fn wf(&self) -> bool {
        numbered_clients(self.clients(), self.client_count())
    }

    /// A directory with no remote end.
    pub fn new() -> (r: PeerDirectory)
        ensures
            r.wf(),
            r.clients() == no_clients(),
            r.client_count() == 0,
            !r.has_server(),
    {
        PeerDirectory { clients: client_map_new(), next_client_id: 0, connected_to_server: false }
    }

    /// Records that this process, a client, is connected to its server.
    pub fn connect_to_server(&mut self)
        requires
            old(self).wf(),
        ensures
            final(self).wf(),
            final(self).has_server(),
            final(self).clients() == old(self).clients(),
            final(self).client_count() == old(self).client_count(),
    {
        self.connected_to_server = true;
    }

    /// Whether a client with this address is connected.
    pub fn contains_client(&self, addr: &String) -> (r: bool)
        ensures
            r == self.clients().dom().contains(addr@),
    {
        client_map_contains(&self.clients, addr)
    }

    /// Adds a client under the next client id, which it returns. An address
    /// that is already connected is refused and nothing changes.
    pub fn add_client(&mut self, addr: String) -> (r: Result<u32, ConnectionError>)
        requires
            old(self).wf(),
            old(self).client_count() < u32::MAX,
        ensures
            final(self).wf(),
            final(self).has_server() == old(self).has_server(),
            r is Err <==> old(self).clients().dom().contains(addr@),
            r matches Err(e) ==> e.kind == ConnectionErrorKind::DuplicatePeer,
            r is Err ==> *final(self) == *old(self),
            r matches Ok(id) ==> {
                &&& id == old(self).client_count()
                &&& final(self).clients() == old(self).clients().insert(addr@, id)
                &&& final(self).client_count() == old(self).client_count() + 1
            },
    {
        if client_map_contains(&self.clients, &addr) {
            return Err(ConnectionError::new(ConnectionErrorKind::DuplicatePeer));
        }
        let id = self.next_client_id;
        let ghost m = self.clients();
        let ghost key = addr@;
        client_map_insert(&mut self.clients, addr, id);
        self.next_client_id = id + 1;
        proof {
            let m2 = m.insert(key, id);
            assert(m2.dom() =~= m.dom().insert(key));
            assert forall|a: Seq<char>, b: Seq<char>|
                m2.dom().contains(a) && m2.dom().contains(b) && #[trigger] m2[a] == #[trigger] m2[b] implies a == b by {
                if a != key && b == key {
                    assert(m[a] < id);
                } else if a == key && b != key {
                    assert(m[b] < id);
                }
            }
        }
        Ok(id)
    }

    /// The number of connected clients.
    pub fn num_clients(&self) -> (r: u32)
        ensures
            r == self.client_count(),
    {
        self.next_client_id
    }

    /// The id of the client with this address, if it is connected.
    pub fn client_id(&self, addr: &String) -> (r: Option<u32>)
        requires
            self.wf(),
        ensures
            r is None <==> !self.clients().dom().contains(addr@),
            r matches Some(id) ==> id == self.clients()[addr@] && id < self.client_count(),
    {
        client_map_get(&self.clients, addr)
    }

    /// Whether this process is a client connected to its server.
    pub fn is_client(&self) -> (r: bool)
        ensures
            r == self.has_server(),
    {
        self.connected_to_server
    }

    /// Whether this process is a server with more than one client.
    pub fn has_more_than_one_remote(&self) -> (r: bool)
        ensures
            r == self.more_than_one_remote(),
    {
        !self.connected_to_server && self.next_client_id > 1
    }
}

} // verus!
