//! Standard BLE GATT descriptors with a verified persistence policy.
//!
//! The crate models the two standard descriptor kinds of a GATT server —
//! the user-description descriptor and the Client Characteristic
//! Configuration Descriptor (CCCD) — together with the policy that makes a
//! peer's notification/indication subscription durable: the CCCD value is
//! stored in a key-value store under a key derived from the peer's 6-byte
//! hardware address, so the subscription survives disconnects and
//! reconnects.

pub mod attributes;
pub mod descriptor;
pub mod peer;
pub mod storage;

pub use attributes::AttributePermissions;
pub use attributes::BleUuid;
pub use descriptor::Descriptor;
pub use descriptor::ValuePolicy;
pub use peer::PeerAddress;
pub use storage::MemStorage;
