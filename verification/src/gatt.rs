//! The application that is published over D-Bus: services, characteristics and descriptors,
//! with the operations that clients may call on them.
//!
//! Each operation names the attribute handle under which its requests are reported.

use crate::descriptors::AttributeHandle;
use vstd::prelude::*;

verus! {

#[derive(Debug)]
pub struct Application {
    pub services: Vec<Service>,
}

#[derive(Debug)]
pub struct Service {
    pub uuid: u128,
    /// A fixed handle for the service itself. `None` leaves the choice to BlueZ.
    pub handle: Option<u16>,
    pub primary: bool,
    pub characteristics: Vec<Characteristic>,
}

#[derive(Debug)]
pub struct Characteristic {
    pub uuid: u128,
    pub broadcast: bool,
    pub writable_auxiliaries: bool,
    pub authorize: bool,
    pub descriptors: Vec<Descriptor>,
    pub read: Option<CharacteristicRead>,
    pub write: Option<CharacteristicWrite>,
    pub notify: Option<CharacteristicNotify>,
}

#[derive(Debug, Clone, Copy)]
pub struct CharacteristicRead {
    pub read: bool,
    pub encrypt_read: bool,
    pub handle: AttributeHandle,
}

#[derive(Debug, Clone, Copy)]
pub struct CharacteristicWrite {
    pub write: bool,
    pub write_without_response: bool,
    pub authenticated_signed_writes: bool,
    pub encrypt_write: bool,
    pub handle: AttributeHandle,
}

#[derive(Debug, Clone, Copy)]
pub struct CharacteristicNotify {
    pub notify: bool,
    pub indicate: bool,
    pub handle: AttributeHandle,
}

#[derive(Debug, Clone, Copy)]
pub struct Descriptor {
    pub uuid: u128,
    pub read: Option<DescriptorRead>,
    pub write: Option<DescriptorWrite>,
}

#[derive(Debug, Clone, Copy)]
pub struct DescriptorRead {
    pub read: bool,
    pub encrypt_read: bool,
    pub handle: AttributeHandle,
}

#[derive(Debug, Clone, Copy)]
pub struct DescriptorWrite {
    pub write: bool,
    pub encrypt_write: bool,
    pub handle: AttributeHandle,
}

/// A service, with sequences in place of vectors.
pub struct ServiceView {
    pub uuid: u128,
    pub handle: Option<u16>,
    pub primary: bool,
    pub characteristics: Seq<CharacteristicView>,
}

/// A characteristic, with sequences in place of vectors.
pub struct CharacteristicView {
    pub uuid: u128,
    pub broadcast: bool,
    pub writable_auxiliaries: bool,
    pub authorize: bool,
    pub descriptors: Seq<Descriptor>,
    pub read: Option<CharacteristicRead>,
    pub write: Option<CharacteristicWrite>,
    pub notify: Option<CharacteristicNotify>,
}

impl View for Characteristic {
    type V = CharacteristicView;

    open spec fn view(&self) -> CharacteristicView {
        CharacteristicView {
            uuid: self.uuid,
            broadcast: self.broadcast,
            writable_auxiliaries: self.writable_auxiliaries,
            authorize: self.authorize,
            descriptors: self.descriptors@,
            read: self.read,
            write: self.write,
            notify: self.notify,
        }
    }
}

impl View for Service {
    type V = ServiceView;

    open spec fn view(&self) -> ServiceView {
        ServiceView {
            uuid: self.uuid,
            handle: self.handle,
            primary: self.primary,
            characteristics: self.characteristics@.map_values(|c: Characteristic| c@),
        }
    }
}

impl View for Application {
    type V = Seq<ServiceView>;

    open spec fn view(&self) -> Seq<ServiceView> {
        self.services@.map_values(|s: Service| s@)
    }
}

} // verus!
