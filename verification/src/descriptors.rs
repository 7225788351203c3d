//! What an application says of the GATT services that it offers.

use crate::uuid_util::UUID;
use vstd::prelude::*;

verus! {

/// The handle by which requests name an attribute. Handles are never 0.
#[derive(Debug, Clone, Copy, PartialEq, Eq, Structural)]
pub struct AttributeHandle(pub u16);

#[derive(Debug, Clone, Copy, PartialEq, Eq, Structural)]
pub enum GattServiceType {
    Primary,
    Secondary,
}

/// A service with its characteristics, in the order in which they are published.
#[derive(Debug)]
pub struct GattService {
    pub uuid: UUID,
    pub service_type: GattServiceType,
    pub characteristics: Vec<GattCharacteristic>,
}

/// A characteristic. Properties say which operations it has, permissions under which
/// security a client may use them. Both lists stand for sets: their order does not matter.
#[derive(Debug)]
pub struct GattCharacteristic {
    pub uuid: UUID,
    pub properties: Vec<GattCharacteristicProperty>,
    pub permissions: Vec<GattCharacteristicPermission>,
    pub descriptors: Vec<GattDescriptor>,
}

#[derive(Debug)]
pub struct GattDescriptor {
    pub uuid: UUID,
    pub permissions: Vec<GattDescriptorPermission>,
}

#[derive(Debug, Clone, Copy, PartialEq, Eq, Structural)]
pub enum GattCharacteristicProperty {
    Broadcast,
    Read,
    WriteNoResponse,
    Write,
    Notify,
    Indicate,
    WriteSigned,
}

#[derive(Debug, Clone, Copy, PartialEq, Eq, Structural)]
pub enum GattCharacteristicPermission {
    Read,
    ReadEncrypted,
    Write,
    WriteEncrypted,
    WriteEncryptedMitm,
    WriteSigned,
    WriteSignedMitm,
}

#[derive(Debug, Clone, Copy, PartialEq, Eq, Structural)]
pub enum GattDescriptorPermission {
    Read,
    ReadEncrypted,
    Write,
    WriteEncrypted,
    WriteEncryptedMitm,
    WriteSigned,
    WriteSignedMitm,
}

} // verus!
