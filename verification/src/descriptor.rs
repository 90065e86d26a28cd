//! GATT descriptor objects and the CCCD persistence policy.
//!
//! A descriptor carries a UUID, permissions and a value policy. The
//! user-description descriptor serves a static byte value; the Client
//! Characteristic Configuration Descriptor (CCCD) serves, per peer, the
//! last 2-byte configuration that peer wrote, read from and written to a
//! shared key-value store under a key derived from the peer's hardware
//! address. A peer that never wrote reads the default `[0, 0]`.

use vstd::prelude::*;

use crate::attributes::AttributePermissions;
use crate::attributes::BleUuid;
use crate::peer::PeerAddress;
use crate::peer::key_of;
use crate::peer::lemma_storage_key_injective;
use crate::peer::storage_key;
use crate::storage::MemStorage;
use crate::storage::copy_bytes;
use vstd::string::StringSliceAdditionalSpecFns;
use vstd::string::StrSliceExecFns;

verus! {

/// Where a descriptor's value comes from. Exactly one source is
/// authoritative: either a byte value fixed at construction time, or the
/// per-peer record kept in the shared store.
pub enum ValuePolicy {
    StaticValue(Vec<u8>),
    PersistedByPeer,
}

/// A descriptor attribute of a GATT characteristic: a name kept for
/// diagnostics, a UUID, the peer-facing permissions, and the policy that
/// governs its value.
pub struct Descriptor {
    pub name: String,
    pub uuid: BleUuid,
    pub permissions: AttributePermissions,
    pub policy: ValuePolicy,
}

/// What a read of the per-peer record yields in store state `m`: the
/// recorded value of the peer's key, or the default `[0, 0]` where the
/// peer never wrote.
pub open spec fn cccd_read_of(m: Map<Seq<char>, Seq<u8>>, addr: Seq<u8>) -> Seq<u8> {
    if m.contains_key(key_of(addr)) {
        m[key_of(addr)]
    } else {
        seq![0u8, 0u8]
    }
}

/// The store state after a peer writes `value`: the peer's key now maps to
/// `value`, every other key is unchanged.
pub open spec fn cccd_write_of(m: Map<Seq<char>, Seq<u8>>, addr: Seq<u8>, value: Seq<u8>) -> Map<
    Seq<char>,
    Seq<u8>,
> {
    m.insert(key_of(addr), value)
}

impl Descriptor {
    /// The standard user-description descriptor (UUID 0x2901): read-only,
    /// serving the UTF-8 bytes of `description` as a static value. No
    /// callback and no storage is involved in reading it.
    pub fn user_description(description: &str) -> (r: Descriptor)
        ensures
            r.uuid == BleUuid::Uuid16(0x2901),
            r.permissions == (AttributePermissions { readable: true, writable: false }),
            r.policy matches ValuePolicy::StaticValue(v) && v@ == description.spec_bytes(),
            r.name@ == "User Description"@,
    {
        Descriptor {
            name: "User Description".to_owned(),
            uuid: BleUuid::from_uuid16(0x2901),
            permissions: AttributePermissions::read(),
            policy: ValuePolicy::StaticValue(description.as_bytes_vec()),
        }
    }

    /// The Client Characteristic Configuration Descriptor (UUID 0x2902):
    /// readable and writable, its value kept per peer in the shared store.
    pub fn cccd() -> (r: Descriptor)
        ensures
            r.uuid == BleUuid::Uuid16(0x2902),
            r.permissions == (AttributePermissions { readable: true, writable: true }),
            r.policy == ValuePolicy::PersistedByPeer,
            r.name@ == "Client Characteristic Configuration"@,
    {
        Descriptor {
            name: "Client Characteristic Configuration".to_owned(),
            uuid: BleUuid::from_uuid16(0x2902),
            permissions: AttributePermissions::read_write(),
            policy: ValuePolicy::PersistedByPeer,
        }
    }

    /// Serves a read from `peer`: the static value for a static
    /// descriptor, untouched by the store; for the persisted policy, the
    /// peer's recorded value or the default `[0, 0]`. The read leaves the
    /// store unchanged, which the shared (`&`) borrow already guarantees.
    pub fn read_value(&self, store: &MemStorage, peer: &PeerAddress) -> (r: Vec<u8>)
        requires
            store.wf(),
        ensures
            match self.policy {
                ValuePolicy::StaticValue(v) => r@ == v@,
                ValuePolicy::PersistedByPeer => r@ == cccd_read_of(store@, peer@),
            },
    {
        match &self.policy {
            ValuePolicy::StaticValue(v) => copy_bytes(v),
            ValuePolicy::PersistedByPeer => {
                let key = storage_key(peer);
                cccd_read_result(store.get(&key))
            },
        }
    }

    /// Serves a write of `value` from `peer`: under the persisted policy
    /// the bytes are recorded verbatim — whatever their length — under the
    /// peer's key, overwriting any prior record; a static descriptor has
    /// no write callback, so the store stays as it was.
    pub fn write_value(&self, store: &mut MemStorage, peer: &PeerAddress, value: &Vec<u8>)
        requires
            old(store).wf(),
        ensures
            final(store).wf(),
            match self.policy {
                ValuePolicy::StaticValue(_) => final(store)@ == old(store)@,
                ValuePolicy::PersistedByPeer => final(store)@ == cccd_write_of(
                    old(store)@,
                    peer@,
                    value@,
                ),
            },
    {
        match &self.policy {
            ValuePolicy::StaticValue(_) => {},
            ValuePolicy::PersistedByPeer => {
                let key = storage_key(peer);
                store.put(key, copy_bytes(value));
            },
        }
    }
}

/// The value a CCCD read serves, given what the underlying store returned
/// for the peer's key: the recorded bytes verbatim, or the default
/// `[0, 0]` where the peer has no record.
pub fn cccd_read_result(stored: Option<Vec<u8>>) -> (r: Vec<u8>)
    ensures
        match stored {
            Some(v) => r@ == v@,
            None => r@ == seq![0u8, 0u8],
        },
{
    match stored {
        Some(v) => v,
        None => {
            let mut r: Vec<u8> = Vec::new();
            r.push(0u8);
            r.push(0u8);
            proof {
                assert(r@ =~= seq![0u8, 0u8]);
            }
            r
        },
    }
}

/// In a store no peer has written to, every peer reads the default
/// `[0, 0]`.
pub proof fn lemma_read_before_any_write(addr: Seq<u8>)
    ensures
        cccd_read_of(Map::empty(), addr) == seq![0u8, 0u8],
{
}

/// Round trip: after a peer writes `value`, a read for the same peer
/// yields `value`, whatever the store held before.
pub proof fn lemma_write_then_read(m: Map<Seq<char>, Seq<u8>>, addr: Seq<u8>, value: Seq<u8>)
    ensures
        cccd_read_of(cccd_write_of(m, addr, value), addr) == value,
{
}

/// Isolation: a write for peer `a` does not change what any other peer
/// `b` reads.
pub proof fn lemma_peer_isolation(m: Map<Seq<char>, Seq<u8>>, a: Seq<u8>, b: Seq<u8>, value: Seq<
    u8,
>)
    requires
        a.len() == 6,
        b.len() == 6,
        a != b,
    ensures
        cccd_read_of(cccd_write_of(m, a, value), b) == cccd_read_of(m, b),
{
    lemma_storage_key_injective(a, b);
}

/// Writes by distinct peers commute: since each write is one atomic step
/// against the serialized store and touches only the writer's own key, the
/// store ends in the same state in whichever order the two steps
/// interleave, and each peer then reads its own value.
pub proof fn lemma_distinct_writes_commute(
    m: Map<Seq<char>, Seq<u8>>,
    a: Seq<u8>,
    b: Seq<u8>,
    va: Seq<u8>,
    vb: Seq<u8>,
)
    requires
        a.len() == 6,
        b.len() == 6,
        a != b,
    ensures
        cccd_write_of(cccd_write_of(m, a, va), b, vb) == cccd_write_of(
            cccd_write_of(m, b, vb),
            a,
            va,
        ),
        cccd_read_of(cccd_write_of(cccd_write_of(m, a, va), b, vb), a) == va,
        cccd_read_of(cccd_write_of(cccd_write_of(m, a, va), b, vb), b) == vb,
{
    lemma_storage_key_injective(a, b);
    assert(cccd_write_of(cccd_write_of(m, a, va), b, vb) =~= cccd_write_of(
        cccd_write_of(m, b, vb),
        a,
        va,
    ));
}

} // verus!
