//! The packet manager: the decisions behind register, send, broadcast,
//! send-to and receive. The caller owns the streams and queues; the manager
//! says which channel a packet type uses, which peers get a frame and what
//! bytes they get, and turns received frames back into packets.

use std::any::TypeId;

use vstd::prelude::*;

use crate::errors::{
    ConnectionError, ConnectionErrorKind, ReceiveError, ReceiveErrorKind, RegistrationError, SendError, SendErrorKind,
};
use crate::frame::{encode, encode_frame};
use crate::peers::PeerDirectory;
use crate::registry::{register_outcome, type_key, PacketDirection, TypeRegistry};

verus! {

/// A message type: it turns itself into bytes.
pub trait Packet: Sized {
    fn to_bytes(self) -> Vec<u8>;
}

/// Builds packets of type `T` back from their bytes.
pub trait PacketBuilder<T: Packet> {
    /// The packet, or `None` where the bytes do not hold one.
    fn read(&self, bytes: Vec<u8>) -> Option<T>;
}

/// A frame to write: the channel's outgoing stream of each target peer gets
/// `frame`.
#[derive(Debug)]
pub struct Outgoing {
    pub channel: u32,
    pub targets: Vec<u32>,
    pub frame: Vec<u8>,
}

/// The peer ids `0 .. n`.
pub open spec fn peer_range(n: int) -> Seq<u32> {
    Seq::new(n as nat, |i: int| i as u32)
}

/// Channel ids, peers and negotiated streams of one process.
pub struct PacketManager {
    registry: TypeRegistry,
    peers: PeerDirectory,
    num_incoming_streams: u32,
    num_outgoing_streams: u32,
}

impl PacketManager {
    pub closed spec fn registry(&self) -> TypeRegistry {
        self.registry
    }

    pub closed spec fn peers(&self) -> PeerDirectory {
        self.peers
    }

    /// Incoming streams negotiated with each peer (0 before any connection).
    pub closed spec fn incoming_streams(&self) -> u32 {
        self.num_incoming_streams
    }

    /// Outgoing streams opened to each peer (0 before any connection).
    pub closed spec fn outgoing_streams(&self) -> u32 {
        self.num_outgoing_streams
    }

    pub open spec fn wf(&self) -> bool {
        self.registry().wf() && self.peers().wf()
    }

    /// The peers a singular send writes to: the one remote end, if there is one.
    pub open spec fn single_targets(&self) -> Seq<u32> {
        if self.peers().remote_count() == 1 { seq![0u32] } else { Seq::empty() }
    }

    /// How a singular send of a `key` packet is decided: refused when more
    /// than one peer is connected, then when the type is not registered.
    pub open spec fn send_check(&self, key: TypeId) -> Result<(), SendErrorKind> {
        if self.peers().more_than_one_remote() {
            Err(SendErrorKind::MoreThanOneRemote)
        } else if !self.registry().registered(key, PacketDirection::Send) {
            Err(SendErrorKind::NotRegistered)
        } else {
            Ok(())
        }
    }

    /// How a broadcast of a `key` packet is decided: any number of peers will do.
    pub open spec fn broadcast_check(&self, key: TypeId) -> Result<(), SendErrorKind> {
        if !self.registry().registered(key, PacketDirection::Send) {
            Err(SendErrorKind::NotRegistered)
        } else {
            Ok(())
        }
    }

    /// How a send of a `key` packet to the client at `addr` is decided.
    pub open spec fn send_to_check(&self, addr: Seq<char>, key: TypeId) -> Result<(), SendErrorKind> {
        if !self.registry().registered(key, PacketDirection::Send) {
            Err(SendErrorKind::NotRegistered)
        } else if !self.peers().clients().dom().contains(addr) {
            Err(SendErrorKind::UnknownPeer)
        } else {
            Ok(())
        }
    }

    /// How a singular receive of `key` packets is decided.
    pub open spec fn received_check(&self, key: TypeId) -> Result<(), ReceiveErrorKind> {
        if self.peers().more_than_one_remote() {
            Err(ReceiveErrorKind::MoreThanOneRemote)
        } else if !self.registry().registered(key, PacketDirection::Receive) {
            Err(ReceiveErrorKind::NotRegistered)
        } else {
            Ok(())
        }
    }

    /// How a receive of `key` packets from every peer is decided.
    pub open spec fn received_all_check(&self, key: TypeId) -> Result<(), ReceiveErrorKind> {
        if !self.registry().registered(key, PacketDirection::Receive) {
            Err(ReceiveErrorKind::NotRegistered)
        } else {
            Ok(())
        }
    }

    /// Registering a receive type: refused if it is registered already, then
    /// if no incoming stream was negotiated for the channel it would get.
    pub open spec fn register_receive_check(&self, key: TypeId) -> Result<u32, RegistrationError> {
        if self.registry().registered(key, PacketDirection::Receive) {
            Err(RegistrationError::DuplicateRegistration)
        } else if self.registry().receive_count() >= self.incoming_streams() {
            Err(RegistrationError::StreamNotReady)
        } else {
            Ok(self.registry().receive_count())
        }
    }

    /// `r` is the plan for a `k` packet holding `p`, made exactly when `check`
    /// passes, and failing as `check` does.
    pub open spec fn plans(&self, r: Result<Outgoing, SendError>, check: Result<(), SendErrorKind>, k: TypeId, p: Seq<u8>) -> bool {
        &&& (r is Ok <==> check is Ok)
        &&& (r matches Err(e) ==> check == Err::<(), SendErrorKind>(e.kind))
        &&& (r matches Ok(o) ==> o.frame@ == encode(p) && self.registry().send_map()[o.channel] == k)
    }

    /// A manager with nothing registered and no peer.
    pub fn new() -> (r: PacketManager)
        ensures
            r.wf(),
            r.registry().send_count() == 0,
            r.registry().receive_count() == 0,
            r.peers().client_count() == 0,
            !r.peers().has_server(),
            r.incoming_streams() == 0,
            r.outgoing_streams() == 0,
    {
        PacketManager {
            registry: TypeRegistry::new(),
            peers: PeerDirectory::new(),
            num_incoming_streams: 0,
            num_outgoing_streams: 0,
        }
    }

    /// Records how many streams each connection negotiates in each direction.
    pub fn set_stream_counts(&mut self, num_incoming_streams: u32, num_outgoing_streams: u32)
        ensures
            final(self).registry() == old(self).registry(),
            final(self).peers() == old(self).peers(),
            final(self).incoming_streams() == num_incoming_streams,
            final(self).outgoing_streams() == num_outgoing_streams,
    {
        self.num_incoming_streams = num_incoming_streams;
        self.num_outgoing_streams = num_outgoing_streams;
    }

    /// The number of incoming streams negotiated with each peer.
    pub fn num_incoming_streams(&self) -> (r: u32)
        ensures
            r == self.incoming_streams(),
    {
        self.num_incoming_streams
    }

    /// The number of outgoing streams opened to each peer.
    pub fn num_outgoing_streams(&self) -> (r: u32)
        ensures
            r == self.outgoing_streams(),
    {
        self.num_outgoing_streams
    }

    /// Records that this process, a client, is connected to its server.
    pub fn connected_to_server(&mut self)
        requires
            old(self).wf(),
        ensures
            final(self).wf(),
            final(self).registry() == old(self).registry(),
            final(self).peers().has_server(),
            final(self).peers().clients() == old(self).peers().clients(),
            final(self).peers().client_count() == old(self).peers().client_count(),
            final(self).incoming_streams() == old(self).incoming_streams(),
            final(self).outgoing_streams() == old(self).outgoing_streams(),
    {
        self.peers.connect_to_server();
    }

    /// Records a newly accepted client under the next client id, which it
    /// returns; an address already connected is refused.
    pub fn add_client(&mut self, addr: String) -> (r: Result<u32, ConnectionError>)
        requires
            old(self).wf(),
            old(self).peers().client_count() < u32::MAX,
        ensures
            final(self).wf(),
            final(self).registry() == old(self).registry(),
            final(self).incoming_streams() == old(self).incoming_streams(),
            final(self).outgoing_streams() == old(self).outgoing_streams(),
            final(self).peers().has_server() == old(self).peers().has_server(),
            r is Err <==> old(self).peers().clients().dom().contains(addr@),
            r matches Err(e) ==> e.kind == ConnectionErrorKind::DuplicatePeer,
            r is Err ==> final(self).peers() == old(self).peers(),
            r matches Ok(id) ==> {
                &&& id == old(self).peers().client_count()
                &&& final(self).peers().clients() == old(self).peers().clients().insert(addr@, id)
                &&& final(self).peers().client_count() == old(self).peers().client_count() + 1
            },
    {
        self.peers.add_client(addr)
    }

    /// The number of packet types registered in direction `dir`.
    pub fn num_registered(&self, dir: PacketDirection) -> (r: u32)
        ensures
            r == self.registry().count_of(dir),
    {
        self.registry.count(dir)
    }

    /// The number of connected clients.
    pub fn get_num_clients(&self) -> (r: u32)
        ensures
            r == self.peers().client_count(),
    {
        self.peers.num_clients()
    }

    /// The id of the client with this address, if it is connected.
    pub fn get_client_id(&self, addr: &String) -> (r: Option<u32>)
        requires
            self.wf(),
        ensures
            r is None <==> !self.peers().clients().dom().contains(addr@),
            r matches Some(id) ==> id == self.peers().clients()[addr@],
    {
        self.peers.client_id(addr)
    }

    /// Whether this process is a server with more than one client.
    pub fn has_more_than_one_remote(&self) -> (r: bool)
        ensures
            r == self.peers().more_than_one_remote(),
    {
        self.peers.has_more_than_one_remote()
    }

    /// Succeeds exactly when `key` is not yet registered in direction `dir`.
    pub fn validate_packet_is_new(&self, key: &TypeId, dir: PacketDirection) -> (r: Result<(), RegistrationError>)
        ensures
            r is Ok <==> !self.registry().registered(*key, dir),
            r matches Err(e) ==> e == RegistrationError::DuplicateRegistration,
    {
        self.registry.validate_packet_is_new(key, dir)
    }

    /// Succeeds exactly when `key` is registered in direction `dir`.
    pub fn validate_packet_was_registered(&self, key: &TypeId, dir: PacketDirection) -> (r: Result<(), RegistrationError>)
        ensures
            r is Ok <==> self.registry().registered(*key, dir),
            r matches Err(e) ==> e == RegistrationError::NotRegistered,
    {
        self.registry.validate_packet_was_registered(key, dir)
    }

    /// Registers `key` for sending under the next send channel id.
    pub fn register_send_key(&mut self, key: TypeId) -> (r: Result<u32, RegistrationError>)
        requires
            old(self).wf(),
        ensures
            final(self).wf(),
            final(self).peers() == old(self).peers(),
            final(self).incoming_streams() == old(self).incoming_streams(),
            final(self).outgoing_streams() == old(self).outgoing_streams(),
            r == register_outcome(old(self).registry().send_map(), old(self).registry().send_count(), key),
            r is Err ==> final(self).registry() == old(self).registry(),
            r is Ok ==> final(self).registry().registered(key, PacketDirection::Send),
            r matches Ok(id) ==> {
                &&& id == old(self).registry().send_count()
                &&& final(self).registry().send_map() == old(self).registry().send_map().insert(id, key)
                &&& final(self).registry().send_count() == id + 1
                &&& final(self).registry().receive_map() == old(self).registry().receive_map()
                &&& final(self).registry().receive_count() == old(self).registry().receive_count()
            },
    {
        self.registry.register(key, PacketDirection::Send)
    }

    /// Registers `key` for receiving under the next receive channel id, whose
    /// incoming stream must have been negotiated already.
    pub fn register_receive_key(&mut self, key: TypeId) -> (r: Result<u32, RegistrationError>)
        requires
            old(self).wf(),
        ensures
            final(self).wf(),
            final(self).peers() == old(self).peers(),
            final(self).incoming_streams() == old(self).incoming_streams(),
            final(self).outgoing_streams() == old(self).outgoing_streams(),
            r == old(self).register_receive_check(key),
            r is Err ==> final(self).registry() == old(self).registry(),
            r is Ok ==> final(self).registry().registered(key, PacketDirection::Receive),
            r matches Ok(id) ==> {
                &&& final(self).registry().receive_map() == old(self).registry().receive_map().insert(id, key)
                &&& final(self).registry().receive_count() == id + 1
                &&& final(self).registry().send_map() == old(self).registry().send_map()
                &&& final(self).registry().send_count() == old(self).registry().send_count()
            },
    {
        if self.registry.validate_packet_is_new(&key, PacketDirection::Receive).is_err() {
            return Err(RegistrationError::DuplicateRegistration);
        }
        if self.registry.count(PacketDirection::Receive) >= self.num_incoming_streams {
            return Err(RegistrationError::StreamNotReady);
        }
        self.registry.register(key, PacketDirection::Receive)
    }

    /// Registers the packet type `T` for sending under the next send channel id.
    pub fn register_send_packet<T: Packet + 'static>(&mut self) -> (r: Result<u32, RegistrationError>)
        requires
            old(self).wf(),
        ensures
            final(self).wf(),
            final(self).peers() == old(self).peers(),
            r is Err ==> final(self).registry() == old(self).registry(),
            r matches Err(e) ==> e == RegistrationError::DuplicateRegistration || e
                == RegistrationError::ChannelIdsExhausted,
            (r matches Err(e) && e == RegistrationError::ChannelIdsExhausted) ==> old(self).registry().send_count()
                == u32::MAX,
            r matches Ok(id) ==> id == old(self).registry().send_count()
                && final(self).registry().send_count() == id + 1,
            exists|k: TypeId| #![trigger old(self).registry().registered(k, PacketDirection::Send)]
                r == register_outcome(old(self).registry().send_map(), old(self).registry().send_count(), k)
                && old(self).registry().registered(k, PacketDirection::Send) == (r matches Err(e) && e
                == RegistrationError::DuplicateRegistration)
                && (r is Ok ==> final(self).registry().send_map() == old(self).registry().send_map().insert(
                    old(self).registry().send_count(),
                    k,
                )),
    {
        let key = type_key::<T>();
        let r = self.register_send_key(key);
        assert(old(self).registry().registered(key, PacketDirection::Send) == (r matches Err(e) && e
            == RegistrationError::DuplicateRegistration));
        r
    }

    /// Registers the packet type `T` for receiving under the next receive
    /// channel id, whose incoming stream must have been negotiated already.
    pub fn register_receive_packet<T: Packet + 'static>(&mut self) -> (r: Result<u32, RegistrationError>)
        requires
            old(self).wf(),
        ensures
            final(self).wf(),
            final(self).peers() == old(self).peers(),
            r is Err ==> final(self).registry() == old(self).registry(),
            (r matches Err(e) && e == RegistrationError::StreamNotReady) ==> old(self).registry().receive_count()
                >= old(self).incoming_streams(),
            r matches Ok(id) ==> id == old(self).registry().receive_count() && id < old(self).incoming_streams(),
            exists|k: TypeId| r == old(self).register_receive_check(k),
    {
        let key = type_key::<T>();
        self.register_receive_key(key)
    }

    /// Refused when more than one peer is connected: a singular send would
    /// have to pick one.
    pub fn validate_for_send(&self) -> (r: Result<(), SendError>)
        ensures
            r is Err <==> self.peers().more_than_one_remote(),
            r matches Err(e) ==> e.kind == SendErrorKind::MoreThanOneRemote,
    {
        if self.peers.has_more_than_one_remote() {
            Err(SendError::new(SendErrorKind::MoreThanOneRemote))
        } else {
            Ok(())
        }
    }

    /// The receive channel of `key` for a singular receive: refused when more
    /// than one peer is connected, then when the type is not registered.
    pub fn validate_for_received(&self, key: &TypeId) -> (r: Result<u32, ReceiveError>)
        requires
            self.wf(),
        ensures
            r is Ok <==> self.received_check(*key) is Ok,
            r matches Err(e) ==> self.received_check(*key) == Err::<(), ReceiveErrorKind>(e.kind),
            r matches Ok(id) ==> id < self.registry().receive_count()
                && self.registry().receive_map()[id] == *key,
    {
        if self.peers.has_more_than_one_remote() {
            return Err(ReceiveError::new(ReceiveErrorKind::MoreThanOneRemote));
        }
        self.validate_for_received_all(key)
    }

    /// The receive channel of `key` for a receive from every peer.
    pub fn validate_for_received_all(&self, key: &TypeId) -> (r: Result<u32, ReceiveError>)
        requires
            self.wf(),
        ensures
            r is Ok <==> self.received_all_check(*key) is Ok,
            r matches Err(e) ==> self.received_all_check(*key) == Err::<(), ReceiveErrorKind>(e.kind),
            r matches Ok(id) ==> id < self.registry().receive_count()
                && self.registry().receive_map()[id] == *key,
    {
        match self.registry.channel_of(key, PacketDirection::Receive) {
            Ok(id) => Ok(id),
            Err(_) => Err(ReceiveError::new(ReceiveErrorKind::NotRegistered)),
        }
    }

    fn send_channel(&self, key: &TypeId) -> (r: Result<u32, SendError>)
        requires
            self.wf(),
        ensures
            r is Ok <==> self.registry().registered(*key, PacketDirection::Send),
            r matches Err(e) ==> e.kind == SendErrorKind::NotRegistered,
            r matches Ok(id) ==> id < self.registry().send_count() && self.registry().send_map()[id] == *key,
    {
        match self.registry.channel_of(key, PacketDirection::Send) {
            Ok(id) => Ok(id),
            Err(_) => Err(SendError::new(SendErrorKind::NotRegistered)),
        }
    }

    /// The frame a singular send of `payload` as a `key` packet writes, and
    /// where: the send channel of `key`, on the one remote end if there is one.
    pub fn plan_send(&self, key: &TypeId, payload: &Vec<u8>) -> (r: Result<Outgoing, SendError>)
        requires
            self.wf(),
        ensures
            r is Ok <==> self.send_check(*key) is Ok,
            r matches Err(e) ==> self.send_check(*key) == Err::<(), SendErrorKind>(e.kind),
            r matches Ok(o) ==> {
                &&& o.channel < self.registry().send_count()
                &&& self.registry().send_map()[o.channel] == *key
                &&& o.targets@ == self.single_targets()
                &&& o.frame@ == encode(payload@)
            },
    {
        if self.peers.has_more_than_one_remote() {
            return Err(SendError::new(SendErrorKind::MoreThanOneRemote));
        }
        let channel = match self.send_channel(key) {
            Ok(id) => id,
            Err(e) => return Err(e),
        };
        let mut targets: Vec<u32> = Vec::new();
        let one = self.peers.has_more_than_one_remote();
        if !one && (self.peers.num_clients() == 1 || self.is_client()) {
            targets.push(0);
        }
        proof {
            if self.peers().remote_count() == 1 {
                assert(targets@ =~= seq![0u32]);
            } else {
                assert(targets@ =~= Seq::<u32>::empty());
            }
        }
        Ok(Outgoing { channel, targets, frame: encode_frame(payload) })
    }

    fn is_client(&self) -> (r: bool)
        ensures
            r == self.peers().has_server(),
    {
        self.peers.is_client()
    }

    /// The frame a broadcast of `payload` as a `key` packet writes, and where:
    /// the send channel of `key`, on every peer.
    pub fn plan_broadcast(&self, key: &TypeId, payload: &Vec<u8>) -> (r: Result<Outgoing, SendError>)
        requires
            self.wf(),
        ensures
            r is Ok <==> self.broadcast_check(*key) is Ok,
            r matches Err(e) ==> self.broadcast_check(*key) == Err::<(), SendErrorKind>(e.kind),
            r matches Ok(o) ==> {
                &&& o.channel < self.registry().send_count()
                &&& self.registry().send_map()[o.channel] == *key
                &&& o.targets@ == peer_range(self.peers().remote_count())
                &&& o.frame@ == encode(payload@)
            },
    {
        let channel = match self.send_channel(key) {
            Ok(id) => id,
            Err(e) => return Err(e),
        };
        let n: u32 = if self.peers.is_client() { 1 } else { self.peers.num_clients() };
        let mut targets: Vec<u32> = Vec::new();
        let mut i: u32 = 0;
        while i < n
            invariant
                i <= n,
                n == self.peers().remote_count(),
                targets@ == peer_range(i as int),
            decreases n - i,
        {
            targets.push(i);
            i = i + 1;
            assert(targets@ =~= peer_range(i as int));
        }
        Ok(Outgoing { channel, targets, frame: encode_frame(payload) })
    }

    /// The frame a send of `payload` as a `key` packet to the client at
    /// `addr` writes, and where.
    pub fn plan_send_to(&self, addr: &String, key: &TypeId, payload: &Vec<u8>) -> (r: Result<Outgoing, SendError>)
        requires
            self.wf(),
        ensures
            r is Ok <==> self.send_to_check(addr@, *key) is Ok,
            r matches Err(e) ==> self.send_to_check(addr@, *key) == Err::<(), SendErrorKind>(e.kind),
            r matches Ok(o) ==> {
                &&& o.channel < self.registry().send_count()
                &&& self.registry().send_map()[o.channel] == *key
                &&& o.targets@ == seq![self.peers().clients()[addr@]]
                &&& o.frame@ == encode(payload@)
            },
    {
        let channel = match self.send_channel(key) {
            Ok(id) => id,
            Err(e) => return Err(e),
        };
        let id = match self.peers.client_id(addr) {
            Some(id) => id,
            None => return Err(SendError::new(SendErrorKind::UnknownPeer)),
        };
        let mut targets: Vec<u32> = Vec::new();
        targets.push(id);
        assert(targets@ =~= seq![id]);
        Ok(Outgoing { channel, targets, frame: encode_frame(payload) })
    }

    /// A singular send of `packet`: its bytes, framed, for the send channel
    /// of its type. Refused when more than one peer is connected, whatever
    /// the type.
    pub fn send<T: Packet + 'static>(&self, packet: T) -> (r: Result<Outgoing, SendError>)
        requires
            self.wf(),
        ensures
            (r matches Err(e) && e.kind == SendErrorKind::MoreThanOneRemote) <==> self.peers().more_than_one_remote(),
            r matches Err(e) ==> e.kind == SendErrorKind::MoreThanOneRemote || e.kind == SendErrorKind::NotRegistered,
            r matches Ok(o) ==> o.targets@ == self.single_targets() && o.channel < self.registry().send_count(),
            exists|k: TypeId, p: Seq<u8>| #[trigger] self.plans(r, self.send_check(k), k, p),
    {
        let key = type_key::<T>();
        let payload = packet.to_bytes();
        let r = self.plan_send(&key, &payload);
        assert(self.plans(r, self.send_check(key), key, payload@));
        r
    }

    /// A broadcast of `packet` to every peer.
    pub fn broadcast<T: Packet + 'static>(&self, packet: T) -> (r: Result<Outgoing, SendError>)
        requires
            self.wf(),
        ensures
            r matches Err(e) ==> e.kind == SendErrorKind::NotRegistered,
            r matches Ok(o) ==> o.targets@ == peer_range(self.peers().remote_count()) && o.channel
                < self.registry().send_count(),
            exists|k: TypeId, p: Seq<u8>| #[trigger] self.plans(r, self.broadcast_check(k), k, p),
    {
        let key = type_key::<T>();
        let payload = packet.to_bytes();
        let r = self.plan_broadcast(&key, &payload);
        assert(self.plans(r, self.broadcast_check(key), key, payload@));
        r
    }

    /// A send of `packet` to the client at `addr`.
    pub fn send_to<T: Packet + 'static>(&self, addr: &String, packet: T) -> (r: Result<Outgoing, SendError>)
        requires
            self.wf(),
        ensures
            r matches Err(e) ==> e.kind == SendErrorKind::NotRegistered || e.kind == SendErrorKind::UnknownPeer,
            r is Ok ==> self.peers().clients().dom().contains(addr@),
            r matches Ok(o) ==> o.targets@ == seq![self.peers().clients()[addr@]],
            exists|k: TypeId, p: Seq<u8>| #[trigger] self.plans(r, self.send_to_check(addr@, k), k, p),
    {
        let key = type_key::<T>();
        let payload = packet.to_bytes();
        let r = self.plan_send_to(addr, &key, &payload);
        assert(self.plans(r, self.send_to_check(addr@, key), key, payload@));
        r
    }

    /// The receive channel of the packet type `T` for a singular receive.
    pub fn received_channel<T: Packet + 'static>(&self) -> (r: Result<u32, ReceiveError>)
        requires
            self.wf(),
        ensures
            (r matches Err(e) && e.kind == ReceiveErrorKind::MoreThanOneRemote) <==> self.peers().more_than_one_remote(),
            r matches Err(e) ==> e.kind == ReceiveErrorKind::MoreThanOneRemote || e.kind
                == ReceiveErrorKind::NotRegistered,
            r matches Ok(id) ==> id < self.registry().receive_count(),
            exists|k: TypeId| (r is Ok <==> self.received_check(k) is Ok),
    {
        let key = type_key::<T>();
        self.validate_for_received(&key)
    }

    /// The receive channel of the packet type `T` for a receive from every peer.
    pub fn received_all_channel<T: Packet + 'static>(&self) -> (r: Result<u32, ReceiveError>)
        requires
            self.wf(),
        ensures
            r matches Err(e) ==> e.kind == ReceiveErrorKind::NotRegistered,
            r matches Ok(id) ==> id < self.registry().receive_count(),
            exists|k: TypeId| (r is Ok <==> self.received_all_check(k) is Ok),
    {
        let key = type_key::<T>();
        self.validate_for_received_all(&key)
    }
}

/// Every result is a packet.
pub open spec fn all_decoded<T>(results: Seq<Option<T>>) -> bool {
    forall|i: int| 0 <= i < results.len() ==> #[trigger] results[i] is Some
}

/// The packets of results that are all packets, in order.
pub open spec fn unwrapped<T>(results: Seq<Option<T>>) -> Seq<T> {
    results.map_values(|o: Option<T>| o->Some_0)
}

/// `results[i]` is what `builder` may give for `frames[i]`, for each result;
/// every result but the last is a packet, and reading stopped early only at
/// a result that is not one.
pub open spec fn reads_in_order<T: Packet, U: PacketBuilder<T>>(
    builder: &U,
    frames: Seq<Vec<u8>>,
    results: Seq<Option<T>>,
) -> bool {
    &&& results.len() <= frames.len()
    &&& forall|i: int| 0 <= i < results.len() ==> call_ensures(U::read, (builder, frames[i]), #[trigger] results[i])
    &&& forall|i: int| 0 <= i < results.len() - 1 ==> #[trigger] results[i] is Some
    &&& results.len() < frames.len() ==> results.len() > 0 && results.last() is None
}

/// What a receive call returns for the read results: nothing for no result,
/// a `Decode` error as soon as one result is not a packet, else the packets.
pub open spec fn decode_outcome<T>(results: Seq<Option<T>>, r: Result<Option<Vec<T>>, ReceiveError>) -> bool {
    &&& (r matches Ok(None)) <==> results.len() == 0
    &&& (r matches Err(e)) <==> !all_decoded(results)
    &&& r matches Err(e) ==> e.kind == ReceiveErrorKind::Decode
    &&& r matches Ok(Some(v)) ==> v@ == unwrapped(results) && results.len() > 0 && all_decoded(results)
    &&& (results.len() > 0 && all_decoded(results)) ==> r is Ok && !(r matches Ok(None))
}

/// Turns the read results of a receive call into its answer: `None` for no
/// result, a `Decode` error (and no packet) if any result is not a packet,
/// else every packet, in order.
pub fn collect_decoded<T>(results: Vec<Option<T>>) -> (r: Result<Option<Vec<T>>, ReceiveError>)
    ensures
        decode_outcome(results@, r),
{
    let n = results.len();
    if n == 0 {
        return Ok(None);
    }
    let ghost orig = results@;
    let mut rest = results;
    let mut packets: Vec<T> = Vec::new();
    while rest.len() > 0
        invariant
            n == orig.len(),
            orig == results@,
            n > 0,
            packets@.len() + rest@.len() == n,
            rest@ == orig.skip(packets@.len() as int),
            all_decoded(orig.take(packets@.len() as int)),
            packets@ == unwrapped(orig.take(packets@.len() as int)),
        decreases rest@.len(),
    {
        let ghost k = packets@.len() as int;
        let o = rest.remove(0);
        assert(o == orig[k]);
        match o {
            Some(p) => {
                packets.push(p);
                assert(orig.take(k + 1) =~= orig.take(k).push(orig[k]));
                assert(unwrapped(orig.take(k + 1)) =~= unwrapped(orig.take(k)).push(p));
                assert(rest@ =~= orig.skip(k + 1));
            },
            None => {
                assert(orig[k] is None);
                assert(!all_decoded(orig));
                return Err(ReceiveError::new(ReceiveErrorKind::Decode));
            },
        }
    }
    assert(orig.take(n as int) =~= orig);
    Ok(Some(packets))
}

/// Decodes received frames into packets, in order, failing the whole call on
/// the first frame that is empty or that `builder` cannot read. Each frame
/// that is not empty is handed to `builder` once, unchanged, in arrival
/// order, until one does not read; no frame at all gives `None`.
pub fn decode_frames<T: Packet, U: PacketBuilder<T>>(builder: &U, frames: Vec<Vec<u8>>) -> (r: Result<
    Option<Vec<T>>,
    ReceiveError,
>)
    ensures
        (r matches Err(e) && e.kind == ReceiveErrorKind::EmptyFrame) <==> exists|i: int|
            0 <= i < frames@.len() && #[trigger] frames@[i]@.len() == 0,
        (r matches Ok(None)) <==> frames@.len() == 0,
        (forall|i: int| 0 <= i < frames@.len() ==> #[trigger] frames@[i]@.len() > 0) ==> exists|
            results: Seq<Option<T>>,
        |
            #![trigger reads_in_order(builder, frames@, results)]
            reads_in_order(builder, frames@, results) && decode_outcome(results, r),
{
    let n = frames.len();
    let mut k: usize = 0;
    while k < n
        invariant
            n == frames@.len(),
            k <= n,
            forall|i: int| 0 <= i < k ==> #[trigger] frames@[i]@.len() > 0,
        decreases n - k,
    {
        if frames[k].len() == 0 {
            assert(frames@[k as int]@.len() == 0);
            return Err(ReceiveError::new(ReceiveErrorKind::EmptyFrame));
        }
        k = k + 1;
    }
    let ghost orig = frames@;
    let mut rest = frames;
    let mut results: Vec<Option<T>> = Vec::new();
    let mut failed = false;
    while rest.len() > 0 && !failed
        invariant
            n == orig.len(),
            results@.len() + rest@.len() == n,
            rest@ == orig.skip(results@.len() as int),
            forall|i: int| 0 <= i < results@.len() ==> call_ensures(U::read, (builder, orig[i]), #[trigger] results@[i]),
            failed ==> results@.len() > 0 && results@.last() is None,
            forall|i: int| 0 <= i < results@.len() - 1 ==> #[trigger] results@[i] is Some,
            !failed ==> all_decoded(results@),
        decreases rest@.len(),
    {
        let ghost k = results@.len() as int;
        let bytes = rest.remove(0);
        assert(bytes == orig[k]);
        let o = builder.read(bytes);
        failed = o.is_none();
        results.push(o);
        assert(rest@ =~= orig.skip(k + 1));
    }
    let ghost rs = results@;
    let r = collect_decoded(results);
    proof {
        assert(reads_in_order(builder, orig, rs));
        if n > 0 {
            assert(rs.len() > 0);
        }
        assert(decode_outcome(rs, r));
    }
    r
}

/// Cardinality guard: with at most one remote end, a singular send and a
/// singular receive of registered types go ahead; with two or more, both are
/// refused with `MoreThanOneRemote`, while a broadcast and a receive from
/// every peer go ahead.
pub proof fn lemma_cardinality_guard(m: PacketManager, send_key: TypeId, recv_key: TypeId)
    requires
        m.wf(),
        m.registry().registered(send_key, PacketDirection::Send),
        m.registry().registered(recv_key, PacketDirection::Receive),
    ensures
        m.peers().remote_count() <= 1 ==> m.send_check(send_key) is Ok && m.received_check(recv_key) is Ok,
        m.peers().remote_count() >= 2 ==> {
            &&& m.send_check(send_key) == Err::<(), SendErrorKind>(SendErrorKind::MoreThanOneRemote)
            &&& m.received_check(recv_key) == Err::<(), ReceiveErrorKind>(ReceiveErrorKind::MoreThanOneRemote)
            &&& m.broadcast_check(send_key) is Ok
            &&& m.received_all_check(recv_key) is Ok
        },
{
}

/// Channel independence: when the sender registered its send types in the
/// order the receiver registered its receive types, the channel a sender
/// plans an `a` packet on is the channel the receiver reads `a` packets
/// from, and never the one it reads packets of another type `b` from.
pub proof fn lemma_channel_independence(
    sender: PacketManager,
    receiver: PacketManager,
    a: TypeId,
    b: TypeId,
    planned: u32,
    read_a: u32,
    read_b: u32,
)
    requires
        sender.wf(),
        receiver.wf(),
        sender.registry().send_map() == receiver.registry().receive_map(),
        planned < sender.registry().send_count(),
        sender.registry().send_map()[planned] == a,
        read_a < receiver.registry().receive_count(),
        receiver.registry().receive_map()[read_a] == a,
        read_b < receiver.registry().receive_count(),
        receiver.registry().receive_map()[read_b] == b,
        a != b,
    ensures
        planned == read_a,
        planned != read_b,
{
    assert(receiver.registry().receive_map().dom().contains(planned));
}

} // verus!
