//! Attribute identifiers and permissions for GATT descriptors.

use vstd::prelude::*;

verus! {

/// A BLE attribute UUID, either the short 16-bit form used for standard
/// descriptors or the full 128-bit form.
#[derive(Clone, Copy, Debug, PartialEq, Eq)]
pub enum BleUuid {
    Uuid16(u16),
    Uuid128([u8; 16]),
}

impl BleUuid {
    /// Builds the short form of a UUID from its 16-bit value.
    pub fn from_uuid16(uuid: u16) -> (r: BleUuid)
        ensures
            r == BleUuid::Uuid16(uuid),
    {
        BleUuid::Uuid16(uuid)
    }
}

/// The capability set of an attribute: whether a peer may read it and
/// whether a peer may write it.
#[derive(Clone, Copy, Debug, PartialEq, Eq, Structural)]
pub struct AttributePermissions {
    pub readable: bool,
    pub writable: bool,
}

impl AttributePermissions {
    /// Permissions of a read-only attribute.
    pub fn read() -> (r: AttributePermissions)
        ensures
            r == (AttributePermissions { readable: true, writable: false }),
    {
        AttributePermissions { readable: true, writable: false }
    }

    /// Permissions of an attribute that peers may both read and write.
    pub fn read_write() -> (r: AttributePermissions)
        ensures
            r == (AttributePermissions { readable: true, writable: true }),
    {
        AttributePermissions { readable: true, writable: true }
    }
}

} // verus!
