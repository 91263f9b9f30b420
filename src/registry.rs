//! The type registry: each registered packet type gets a channel id, handed
//! out in order from 0, separately for sending and for receiving.

use std::any::TypeId;

use bimap::BiMap;
use vstd::prelude::*;

use crate::errors::RegistrationError;

verus! {

#[verifier::external_type_specification]
#[verifier::external_body]
pub struct ExTypeId(std::any::TypeId);

#[verifier::external_type_specification]
#[verifier::external_body]
#[verifier::reject_recursive_types(L)]
#[verifier::reject_recursive_types(R)]
#[verifier::reject_recursive_types(LS)]
#[verifier::reject_recursive_types(RS)]
pub struct ExBiHashMap<L, R, LS, RS>(bimap::BiHashMap<L, R, LS, RS>);

/// The pairs (channel id, type) that a bimap holds.
pub uninterp spec fn channel_pairs(m: BiMap<u32, TypeId>) -> Map<u32, TypeId>;

/// `m` without the pairs whose left is `l` or whose right is `r`, then with (`l`, `r`).
pub open spec fn bimap_insert(m: Map<u32, TypeId>, l: u32, r: TypeId) -> Map<u32, TypeId> {
    Map::new(|k: u32| m.dom().contains(k) && k != l && m[k] != r, |k: u32| m[k]).insert(l, r)
}

/// Some channel id is paired with `t` in `m`.
pub open spec fn has_type(m: Map<u32, TypeId>, t: TypeId) -> bool {
    exists|k: u32| m.dom().contains(k) && m[k] == t
}

/// No channel at all.
pub open spec fn no_channels() -> Map<u32, TypeId> {
    Map::empty()
}

/// Relies on bimap::BiMap::new: the new bimap is empty.
#[verifier::external_body]
fn channel_map_new() -> (r: BiMap<u32, TypeId>)
    ensures
        channel_pairs(r) == no_channels(),
{
    BiMap::new()
}

/// Relies on bimap::BiHashMap::insert: it removes the pairs with the same left
/// or the same right, then adds the pair.
#[verifier::external_body]
fn channel_map_insert(m: &mut BiMap<u32, TypeId>, l: u32, r: TypeId)
    ensures
        channel_pairs(*final(m)) == bimap_insert(channel_pairs(*old(m)), l, r),
{
    m.insert(l, r);
}

/// Relies on bimap::BiHashMap::contains_right: whether some pair has that right.
#[verifier::external_body]
fn channel_map_contains_right(m: &BiMap<u32, TypeId>, r: &TypeId) -> (b: bool)
    ensures
        b == has_type(channel_pairs(*m), *r),
{
    m.contains_right(r)
}

/// Relies on bimap::BiHashMap::get_by_right: the left of the pair with that right.
#[verifier::external_body]
fn channel_map_get_by_right(m: &BiMap<u32, TypeId>, r: &TypeId) -> (o: Option<u32>)
    ensures
        o is None <==> !has_type(channel_pairs(*m), *r),
        o matches Some(k) ==> channel_pairs(*m).dom().contains(k) && channel_pairs(*m)[k] == *r,
{
    m.get_by_right(r).copied()
}

/// Relies on std::any::TypeId::of: the identifier of the type `T`.
#[verifier::external_body]
pub fn type_key<T: ?Sized + 'static>() -> (r: TypeId) {
    TypeId::of::<T>()
}

/// The channel ids below `n`, each paired with a different type.
pub open spec fn numbered(m: Map<u32, TypeId>, n: u32) -> bool {
    &&& forall|k: u32| #[trigger] m.dom().contains(k) <==> k < n
    &&& forall|a: u32, b: u32|
        m.dom().contains(a) && m.dom().contains(b) && #[trigger] m[a] == #[trigger] m[b] ==> a == b
}

/// Which way a packet type travels.
#[derive(Debug, Clone, Copy, PartialEq, Eq, Structural)]
pub enum PacketDirection {
    Send,
    Receive,
}

/// Channel ids for the packet types, one numbering for each direction.
pub struct TypeRegistry {
    send_packets: BiMap<u32, TypeId>,
    receive_packets: BiMap<u32, TypeId>,
    next_send_id: u32,
    next_receive_id: u32,
}

/// Registering `key` next in a numbering that holds `m` and goes up to `n`:
/// refused for a type already there, then when no channel id is left.
pub open spec fn register_outcome(m: Map<u32, TypeId>, n: u32, key: TypeId) -> Result<u32, RegistrationError> {
    if has_type(m, key) {
        Err(RegistrationError::DuplicateRegistration)
    } else if n == u32::MAX {
        Err(RegistrationError::ChannelIdsExhausted)
    } else {
        Ok(n)
    }
}

impl TypeRegistry {
    /// The send channels: channel id to type.
    pub closed spec fn send_map(&self) -> Map<u32, TypeId> {
        channel_pairs(self.send_packets)
    }

    /// The receive channels: channel id to type.
    pub closed spec fn receive_map(&self) -> Map<u32, TypeId> {
        channel_pairs(self.receive_packets)
    }

    /// The channel id the next send registration gets.
    pub closed spec fn send_count(&self) -> u32 {
        self.next_send_id
    }

    /// The channel id the next receive registration gets.
    pub closed spec fn receive_count(&self) -> u32 {
        self.next_receive_id
    }

    pub open spec fn map_of(&self, dir: PacketDirection) -> Map<u32, TypeId> {
        match dir {
            PacketDirection::Send => self.send_map(),
            PacketDirection::Receive => self.receive_map(),
        }
    }

    pub open spec fn count_of(&self, dir: PacketDirection) -> u32 {
        match dir {
            PacketDirection::Send => self.send_count(),
            PacketDirection::Receive => self.receive_count(),
        }
    }

    /// `key` is registered in direction `dir`.
    pub open spec fn registered(&self, key: TypeId, dir: PacketDirection) -> bool {
        has_type(self.map_of(dir), key)
    }

    /// Each numbering runs from 0 without gaps, one type per channel id.
    pub open spec fn wf(&self) -> bool {
        &&& numbered(self.send_map(), self.send_count())
        &&& numbered(self.receive_map(), self.receive_count())
    }

    /// A registry with nothing registered.
    pub fn new() -> (r: TypeRegistry)
        ensures
            r.wf(),
            r.send_map() == no_channels(),
            r.receive_map() == no_channels(),
            r.send_count() == 0,
            r.receive_count() == 0,
    {
        TypeRegistry {
            send_packets: channel_map_new(),
            receive_packets: channel_map_new(),
            next_send_id: 0,
            next_receive_id: 0,
        }
    }

    /// The number of types registered in direction `dir`.
    pub fn count(&self, dir: PacketDirection) -> (r: u32)
        ensures
            r == self.count_of(dir),
    {
        match dir {
            PacketDirection::Send => self.next_send_id,
            PacketDirection::Receive => self.next_receive_id,
        }
    }

    /// Succeeds exactly when `key` is not yet registered in direction `dir`.
    pub fn validate_packet_is_new(&self, key: &TypeId, dir: PacketDirection) -> (r: Result<(), RegistrationError>)
        ensures
            r is Ok <==> !self.registered(*key, dir),
            r matches Err(e) ==> e == RegistrationError::DuplicateRegistration,
    {
        let present = match dir {
            PacketDirection::Send => channel_map_contains_right(&self.send_packets, key),
            PacketDirection::Receive => channel_map_contains_right(&self.receive_packets, key),
        };
        if present {
            Err(RegistrationError::DuplicateRegistration)
        } else {
            Ok(())
        }
    }

    /// Succeeds exactly when `key` is registered in direction `dir`.
    pub fn validate_packet_was_registered(&self, key: &TypeId, dir: PacketDirection) -> (r: Result<(), RegistrationError>)
        ensures
            r is Ok <==> self.registered(*key, dir),
            r matches Err(e) ==> e == RegistrationError::NotRegistered,
    {
        let present = match dir {
            PacketDirection::Send => channel_map_contains_right(&self.send_packets, key),
            PacketDirection::Receive => channel_map_contains_right(&self.receive_packets, key),
        };
        if present {
            Ok(())
        } else {
            Err(RegistrationError::NotRegistered)
        }
    }

    /// The channel id of `key` in direction `dir`.
    pub fn channel_of(&self, key: &TypeId, dir: PacketDirection) -> (r: Result<u32, RegistrationError>)
        requires
            self.wf(),
        ensures
            r is Err <==> !self.registered(*key, dir),
            r matches Err(e) ==> e == RegistrationError::NotRegistered,
            r matches Ok(id) ==> id < self.count_of(dir) && self.map_of(dir)[id] == *key,
    {
        let found = match dir {
            PacketDirection::Send => channel_map_get_by_right(&self.send_packets, key),
            PacketDirection::Receive => channel_map_get_by_right(&self.receive_packets, key),
        };
        match found {
            Some(id) => Ok(id),
            None => Err(RegistrationError::NotRegistered),
        }
    }

    /// Registers `key` in direction `dir` under the next channel id, which it
    /// returns; a type already registered in that direction is refused and
    /// nothing changes, as it does when no channel id is left.
    pub fn register(&mut self, key: TypeId, dir: PacketDirection) -> (r: Result<u32, RegistrationError>)
        requires
            old(self).wf(),
        ensures
            final(self).wf(),
            r == register_outcome(old(self).map_of(dir), old(self).count_of(dir), key),
            r is Err ==> *final(self) == *old(self),
            r is Ok ==> final(self).registered(key, dir),
            r is Ok ==> {
                &&& final(self).map_of(dir) == old(self).map_of(dir).insert(old(self).count_of(dir), key)
                &&& final(self).count_of(dir) == old(self).count_of(dir) + 1
            },
            r is Ok ==> ({
                let other = match dir {
                    PacketDirection::Send => PacketDirection::Receive,
                    PacketDirection::Receive => PacketDirection::Send,
                };
                &&& final(self).map_of(other) == old(self).map_of(other)
                &&& final(self).count_of(other) == old(self).count_of(other)
            }),
    {
        if self.validate_packet_is_new(&key, dir).is_err() {
            return Err(RegistrationError::DuplicateRegistration);
        }
        if self.count(dir) == u32::MAX {
            return Err(RegistrationError::ChannelIdsExhausted);
        }
        match dir {
            PacketDirection::Send => {
                let id = self.next_send_id;
                let ghost m = channel_pairs(self.send_packets);
                channel_map_insert(&mut self.send_packets, id, key);
                proof {
                    lemma_insert_fresh(m, id, key);
                    assert(channel_pairs(self.send_packets).dom().contains(id) && channel_pairs(self.send_packets)[id] == key);
                    assert(has_type(channel_pairs(self.send_packets), key));
                }
                self.next_send_id = id + 1;
                Ok(id)
            },
            PacketDirection::Receive => {
                let id = self.next_receive_id;
                let ghost m = channel_pairs(self.receive_packets);
                channel_map_insert(&mut self.receive_packets, id, key);
                proof {
                    lemma_insert_fresh(m, id, key);
                    assert(channel_pairs(self.receive_packets).dom().contains(id) && channel_pairs(self.receive_packets)[id] == key);
                    assert(has_type(channel_pairs(self.receive_packets), key));
                }
                self.next_receive_id = id + 1;
                Ok(id)
            },
        }
    }
}

/// Inserting a pair whose left and right are both new keeps every other pair,
/// and numbering grows by one.
proof fn lemma_insert_fresh(m: Map<u32, TypeId>, n: u32, key: TypeId)
    requires
        numbered(m, n),
        !has_type(m, key),
        n < u32::MAX,
    ensures
        bimap_insert(m, n, key) == m.insert(n, key),
        numbered(m.insert(n, key), (n + 1) as u32),
{
    assert(bimap_insert(m, n, key) =~= m.insert(n, key));
    let m2 = m.insert(n, key);
    assert forall|a: u32, b: u32|
        m2.dom().contains(a) && m2.dom().contains(b) && #[trigger] m2[a] == #[trigger] m2[b] implies a == b by {
        if a != n && b == n {
            assert(m.dom().contains(a) && m[a] == key);
        } else if a == n && b != n {
            assert(m.dom().contains(b) && m[b] == key);
        }
    }
}

/// Registration is unique: once `key` is registered in a direction, a second
/// registration of it in that direction fails with `DuplicateRegistration`
/// and leaves the first one's channel where it was.
pub proof fn lemma_registration_unique(reg: TypeRegistry, key: TypeId, dir: PacketDirection)
    requires
        reg.wf(),
        reg.registered(key, dir),
    ensures
        register_outcome(reg.map_of(dir), reg.count_of(dir), key) matches Err(e)
            && e == RegistrationError::DuplicateRegistration,
{
}

/// After a successful registration, the type is registered under the id it got.
pub proof fn lemma_registration_records(m: Map<u32, TypeId>, n: u32, key: TypeId)
    requires
        numbered(m, n),
        register_outcome(m, n, key) is Ok,
    ensures
        has_type(m.insert(n, key), key),
        register_outcome(m.insert(n, key), (n + 1) as u32, key) matches Err(e)
            && e == RegistrationError::DuplicateRegistration,
{
    assert(m.insert(n, key).dom().contains(n) && m.insert(n, key)[n] == key);
}

} // verus!
