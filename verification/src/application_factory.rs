//! Turns service descriptions into the application that is published over D-Bus.

use crate::descriptors::{
    AttributeHandle, GattCharacteristic, GattCharacteristicPermission, GattCharacteristicProperty,
    GattDescriptor, GattDescriptorPermission, GattService, GattServiceType,
};
use crate::err_util::{generic_err, Error};
use crate::gatt::{
    Application, Characteristic, CharacteristicNotify, CharacteristicRead, CharacteristicView,
    CharacteristicWrite, Descriptor, DescriptorRead, DescriptorWrite, Service, ServiceView,
};
use crate::uuid_util::{convert_uuid, UUID};
use vstd::prelude::*;

verus! {

/// How many attributes one application can have.
pub const MAX_ATTRIBUTES: usize = 65534;

/// Hands out attribute handles, starting at 1, and keeps which UUID got which.
pub struct HandleAllocator {
    next: u16,
    mapping: Vec<(UUID, AttributeHandle)>,
}

/// The handles 1, 2, 3, and so on, given to `uuids` in their order.
pub open spec fn numbered(uuids: Seq<UUID>) -> Seq<(UUID, AttributeHandle)> {
    Seq::new(uuids.len(), |i: int| (uuids[i], AttributeHandle((i + 1) as u16)))
}

impl HandleAllocator {
    /// The UUIDs that were given handles so far, in order.
    pub closed spec fn uuids(self) -> Seq<UUID> {
        self.mapping@.map_values(|m: (UUID, AttributeHandle)| m.0)
    }

    pub closed spec fn wf(self) -> bool {
        &&& self.mapping@ == numbered(self.uuids())
        &&& self.next == self.uuids().len() + 1
    }

    pub fn new() -> (r: Self)
        ensures
            r.wf(),
            r.uuids() == Seq::<UUID>::empty(),
    {
        let r = Self { next: 1, mapping: Vec::new() };
        assert(r.uuids() =~= Seq::<UUID>::empty());
        assert(r.mapping@ =~= numbered(r.uuids()));
        r
    }

    /// Gives `uuid` the next free handle.
    pub fn next(&mut self, uuid: UUID) -> (r: AttributeHandle)
        requires
            old(self).wf(),
            old(self).uuids().len() < MAX_ATTRIBUTES,
        ensures
            final(self).wf(),
            final(self).uuids() == old(self).uuids().push(uuid),
            r.0 == old(self).uuids().len() + 1,
    {
        let next = AttributeHandle(self.next);
        self.mapping.push((uuid, next));
        self.next = self.next + 1;
        assert(self.uuids() =~= old(self).uuids().push(uuid));
        assert(self.mapping@ =~= numbered(self.uuids()));
        next
    }

    /// The handles given out so far, with their UUIDs, in order.
    pub fn into_mapping(self) -> (r: Vec<(UUID, AttributeHandle)>)
        requires
            self.wf(),
        ensures
            r@ == numbered(self.uuids()),
    {
        self.mapping
    }
}

/// Why a characteristic is refused for its own permissions, if it is. Of several that BlueZ
/// cannot enforce, the one that comes first in their type is told, however they are listed.
pub open spec fn characteristic_error(spec: GattCharacteristic) -> Option<Seq<char>> {
    let perms = spec.permissions@;
    if perms.contains(GattCharacteristicPermission::WriteEncryptedMitm) {
        Some("write encrypted mitm not supported"@)
    } else if perms.contains(GattCharacteristicPermission::WriteSigned) {
        Some("write signed not supported"@)
    } else if perms.contains(GattCharacteristicPermission::WriteSignedMitm) {
        Some("write signed mitm not supported"@)
    } else {
        None
    }
}

/// Why a descriptor is refused for its permissions, if it is. Of several that BlueZ cannot
/// enforce, the one that comes first in their type is told, however they are listed.
pub open spec fn descriptor_error(spec: GattDescriptor) -> Option<Seq<char>> {
    let perms = spec.permissions@;
    if perms.contains(GattDescriptorPermission::WriteEncryptedMitm) {
        Some("write encrypted mitm not supported"@)
    } else if perms.contains(GattDescriptorPermission::WriteSigned) {
        Some("write signed not supported"@)
    } else if perms.contains(GattDescriptorPermission::WriteSignedMitm) {
        Some("write signed mitm not supported"@)
    } else {
        None
    }
}

/// Refuses a characteristic with a permission that BlueZ cannot enforce.
fn check_characteristic(spec: &GattCharacteristic) -> (res: Result<(), Error>)
    ensures
        match res {
            Ok(()) => characteristic_error(*spec) is None,
            Err(e) => characteristic_error(*spec) == Some(e.message@),
        },
{
    let mut encrypted_mitm: bool = false;
    let mut signed: bool = false;
    let mut signed_mitm: bool = false;
    let ghost perms = spec.permissions@;
    for i in 0..spec.permissions.len()
        invariant
            perms == spec.permissions@,
            encrypted_mitm == perms.take(i as int).contains(
                GattCharacteristicPermission::WriteEncryptedMitm,
            ),
            signed == perms.take(i as int).contains(GattCharacteristicPermission::WriteSigned),
            signed_mitm == perms.take(i as int).contains(
                GattCharacteristicPermission::WriteSignedMitm,
            ),
    {
        proof {
            lemma_take_contains(perms, i as int);
        }
        match spec.permissions[i] {
            GattCharacteristicPermission::WriteEncryptedMitm => {
                encrypted_mitm = true;
            },
            GattCharacteristicPermission::WriteSigned => {
                signed = true;
            },
            GattCharacteristicPermission::WriteSignedMitm => {
                signed_mitm = true;
            },
            _ => {},
        }
    }
    assert(perms.take(perms.len() as int) =~= perms);
    if encrypted_mitm {
        Err(generic_err("write encrypted mitm not supported"))
    } else if signed {
        Err(generic_err("write signed not supported"))
    } else if signed_mitm {
        Err(generic_err("write signed mitm not supported"))
    } else {
        Ok(())
    }
}

/// Refuses a descriptor with a permission that BlueZ cannot enforce.
fn check_descriptor(spec: &GattDescriptor) -> (res: Result<(), Error>)
    ensures
        match res {
            Ok(()) => descriptor_error(*spec) is None,
            Err(e) => descriptor_error(*spec) == Some(e.message@),
        },
{
    let mut encrypted_mitm: bool = false;
    let mut signed: bool = false;
    let mut signed_mitm: bool = false;
    let ghost perms = spec.permissions@;
    for i in 0..spec.permissions.len()
        invariant
            perms == spec.permissions@,
            encrypted_mitm == perms.take(i as int).contains(
                GattDescriptorPermission::WriteEncryptedMitm,
            ),
            signed == perms.take(i as int).contains(GattDescriptorPermission::WriteSigned),
            signed_mitm == perms.take(i as int).contains(
                GattDescriptorPermission::WriteSignedMitm,
            ),
    {
        proof {
            lemma_take_contains(perms, i as int);
        }
        match spec.permissions[i] {
            GattDescriptorPermission::WriteEncryptedMitm => {
                encrypted_mitm = true;
            },
            GattDescriptorPermission::WriteSigned => {
                signed = true;
            },
            GattDescriptorPermission::WriteSignedMitm => {
                signed_mitm = true;
            },
            _ => {},
        }
    }
    assert(perms.take(perms.len() as int) =~= perms);
    if encrypted_mitm {
        Err(generic_err("write encrypted mitm not supported"))
    } else if signed {
        Err(generic_err("write signed not supported"))
    } else if signed_mitm {
        Err(generic_err("write signed mitm not supported"))
    } else {
        Ok(())
    }
}

/// Clients can read a characteristic with these properties.
pub open spec fn has_read(props: Seq<GattCharacteristicProperty>) -> bool {
    props.contains(GattCharacteristicProperty::Read)
}

/// Clients can write to a characteristic with these properties, in one way or another.
pub open spec fn has_write(props: Seq<GattCharacteristicProperty>) -> bool {
    ||| props.contains(GattCharacteristicProperty::Write)
    ||| props.contains(GattCharacteristicProperty::WriteSigned)
    ||| props.contains(GattCharacteristicProperty::WriteNoResponse)
}

/// Clients can subscribe to a characteristic with these properties.
pub open spec fn has_notify(props: Seq<GattCharacteristicProperty>) -> bool {
    ||| props.contains(GattCharacteristicProperty::Notify)
    ||| props.contains(GattCharacteristicProperty::Indicate)
}

/// The operations of a characteristic, without its descriptors: an operation is there if a
/// property asks for it, and its flags follow properties and permissions one by one.
pub open spec fn characteristic_base(spec: GattCharacteristic, handle: AttributeHandle) -> CharacteristicView {
    let props = spec.properties@;
    let perms = spec.permissions@;
    CharacteristicView {
        uuid: spec.uuid.value(),
        broadcast: props.contains(GattCharacteristicProperty::Broadcast),
        writable_auxiliaries: false,
        authorize: false,
        descriptors: Seq::empty(),
        read: if has_read(props) {
            Some(
                CharacteristicRead {
                    read: perms.contains(GattCharacteristicPermission::Read),
                    encrypt_read: perms.contains(GattCharacteristicPermission::ReadEncrypted),
                    handle,
                },
            )
        } else {
            None
        },
        write: if has_write(props) {
            Some(
                CharacteristicWrite {
                    write: perms.contains(GattCharacteristicPermission::Write),
                    write_without_response: props.contains(
                        GattCharacteristicProperty::WriteNoResponse,
                    ),
                    authenticated_signed_writes: props.contains(
                        GattCharacteristicProperty::WriteSigned,
                    ),
                    encrypt_write: perms.contains(GattCharacteristicPermission::WriteEncrypted),
                    handle,
                },
            )
        } else {
            None
        },
        notify: if has_notify(props) {
            Some(
                CharacteristicNotify {
                    notify: props.contains(GattCharacteristicProperty::Notify),
                    indicate: props.contains(GattCharacteristicProperty::Indicate),
                    handle,
                },
            )
        } else {
            None
        },
    }
}

/// Clients can read a descriptor with these permissions.
pub open spec fn has_descriptor_read(perms: Seq<GattDescriptorPermission>) -> bool {
    ||| perms.contains(GattDescriptorPermission::Read)
    ||| perms.contains(GattDescriptorPermission::ReadEncrypted)
}

/// Clients can write to a descriptor with these permissions.
pub open spec fn has_descriptor_write(perms: Seq<GattDescriptorPermission>) -> bool {
    ||| perms.contains(GattDescriptorPermission::Write)
    ||| perms.contains(GattDescriptorPermission::WriteEncrypted)
    ||| perms.contains(GattDescriptorPermission::WriteEncryptedMitm)
    ||| perms.contains(GattDescriptorPermission::WriteSigned)
    ||| perms.contains(GattDescriptorPermission::WriteSignedMitm)
}

/// A descriptor: permissions alone say which operations it has.
pub open spec fn descriptor_view(spec: GattDescriptor, handle: AttributeHandle) -> Descriptor {
    let perms = spec.permissions@;
    Descriptor {
        uuid: spec.uuid.value(),
        read: if has_descriptor_read(perms) {
            Some(
                DescriptorRead {
                    read: perms.contains(GattDescriptorPermission::Read),
                    encrypt_read: perms.contains(GattDescriptorPermission::ReadEncrypted),
                    handle,
                },
            )
        } else {
            None
        },
        write: if has_descriptor_write(perms) {
            Some(
                DescriptorWrite {
                    write: perms.contains(GattDescriptorPermission::Write),
                    encrypt_write: perms.contains(GattDescriptorPermission::WriteEncrypted),
                    handle,
                },
            )
        } else {
            None
        },
    }
}

/// What the factory reads of one attribute: its UUID, and why it is refused, if it is.
pub struct AttributeView {
    pub uuid: UUID,
    pub error: Option<Seq<char>>,
}

pub open spec fn descriptor_attributes(specs: Seq<GattDescriptor>) -> Seq<AttributeView> {
    specs.map_values(
        |d: GattDescriptor| AttributeView { uuid: d.uuid, error: descriptor_error(d) },
    )
}

/// The attributes of a characteristic: itself, then its descriptors.
pub open spec fn characteristic_attributes(spec: GattCharacteristic) -> Seq<AttributeView> {
    seq![AttributeView { uuid: spec.uuid, error: characteristic_error(spec) }]
        + descriptor_attributes(spec.descriptors@)
}

/// The attributes of several characteristics, one after the other.
pub open spec fn characteristics_attributes(specs: Seq<GattCharacteristic>) -> Seq<AttributeView>
    decreases specs.len(),
{
    if specs.len() == 0 {
        Seq::empty()
    } else {
        characteristics_attributes(specs.drop_last()) + characteristic_attributes(specs.last())
    }
}

pub open spec fn service_attributes(spec: GattService) -> Seq<AttributeView> {
    characteristics_attributes(spec.characteristics@)
}

/// All attributes of an application, in the order in which they get their handles.
pub open spec fn attributes(specs: Seq<GattService>) -> Seq<AttributeView>
    decreases specs.len(),
{
    if specs.len() == 0 {
        Seq::empty()
    } else {
        attributes(specs.drop_last()) + service_attributes(specs.last())
    }
}

pub open spec fn attribute_uuids(attrs: Seq<AttributeView>) -> Seq<UUID> {
    attrs.map_values(|a: AttributeView| a.uuid)
}

/// No attribute is refused.
pub open spec fn all_accepted(attrs: Seq<AttributeView>) -> bool {
    forall|i: int| 0 <= i < attrs.len() ==> (#[trigger] attrs[i]).error is None
}

/// Attribute `k` is the first that is refused, with the error `message`.
pub open spec fn first_error_at(attrs: Seq<AttributeView>, k: int, message: Seq<char>) -> bool {
    0 <= k < attrs.len() && attrs[k].error == Some(message) && all_accepted(attrs.take(k))
}

/// `message` is the error of the first attribute that is refused.
pub open spec fn first_error_is(attrs: Seq<AttributeView>, message: Seq<char>) -> bool {
    exists|k: int| #[trigger] first_error_at(attrs, k, message)
}

/// `message` is the error of the first attribute that is refused. Where `before` had handles
/// already, `after` have them now: the attributes up to that one were given theirs, and it too.
pub open spec fn first_error_stops(
    attrs: Seq<AttributeView>,
    message: Seq<char>,
    before: Seq<UUID>,
    after: Seq<UUID>,
) -> bool {
    exists|k: int| #[trigger]
        first_error_at(attrs, k, message) && after == before + attribute_uuids(attrs.take(k + 1))
}

/// Handles do not run out, when `used` of them are taken already: either there is one for each
/// attribute, or an attribute is refused before they run out.
pub open spec fn fits(used: nat, attrs: Seq<AttributeView>) -> bool {
    used + attrs.len() <= MAX_ATTRIBUTES || exists|k: int|
        0 <= k < attrs.len() && used + k < MAX_ATTRIBUTES && (#[trigger] attrs[k]).error is Some
}

/// The handle of the attribute that comes after `before` others.
pub open spec fn handle_after(before: nat) -> AttributeHandle {
    AttributeHandle((before + 1) as u16)
}

/// A characteristic with its descriptors, where `before` attributes have handles already.
pub open spec fn characteristic_view(spec: GattCharacteristic, before: nat) -> CharacteristicView {
    CharacteristicView {
        descriptors: Seq::new(
            spec.descriptors@.len(),
            |i: int| descriptor_view(spec.descriptors@[i], handle_after((before + 1 + i) as nat)),
        ),
        ..characteristic_base(spec, handle_after(before))
    }
}

/// A service, where `before` attributes have handles already.
pub open spec fn service_view(spec: GattService, before: nat) -> ServiceView {
    let specs = spec.characteristics@;
    ServiceView {
        uuid: spec.uuid.value(),
        handle: None,
        primary: spec.service_type == GattServiceType::Primary,
        characteristics: Seq::new(
            specs.len(),
            |i: int|
                characteristic_view(
                    specs[i],
                    before + characteristics_attributes(specs.take(i)).len(),
                ),
        ),
    }
}

/// The published application.
pub open spec fn application_view(specs: Seq<GattService>) -> Seq<ServiceView> {
    Seq::new(
        specs.len(),
        |i: int| service_view(specs[i], attributes(specs.take(i)).len()),
    )
}

/// Builds the published application attribute by attribute.
pub struct ApplicationFactory {
    app: Application,
    handle_allocator: HandleAllocator,
}

/// The published application, and which handle each attribute got.
#[derive(Debug)]
pub struct ApplicationHolder {
    pub app: Application,
    pub handle_mapping: Vec<(UUID, AttributeHandle)>,
}

impl ApplicationFactory {
    pub closed spec fn wf(self) -> bool {
        self.handle_allocator.wf()
    }

    /// The UUIDs of the attributes that have handles already.
    pub closed spec fn uuids(self) -> Seq<UUID> {
        self.handle_allocator.uuids()
    }

    /// The services that are done.
    pub closed spec fn services(self) -> Seq<ServiceView> {
        self.app@
    }

    /// A factory that has built nothing yet.
    pub fn new() -> (r: Self)
        ensures
            r.wf(),
            r.uuids() == Seq::<UUID>::empty(),
            r.services() == Seq::<ServiceView>::empty(),
    {
        let r = ApplicationFactory {
            app: Application { services: Vec::new() },
            handle_allocator: HandleAllocator::new(),
        };
        assert(r.services() =~= Seq::<ServiceView>::empty());
        r
    }

    /// Works out what is published of a service itself. Its characteristics are left to the
    /// caller.
    pub fn new_service_base(&mut self, spec: &GattService) -> (r: Service)
        ensures
            *final(self) == *old(self),
            r@ == (ServiceView {
                uuid: spec.uuid.value(),
                handle: None,
                primary: spec.service_type == GattServiceType::Primary,
                characteristics: Seq::empty(),
            }),
    {
        let r = Service {
            uuid: convert_uuid(spec.uuid),
            handle: None,
            primary: spec.service_type == GattServiceType::Primary,
            characteristics: Vec::new(),
        };
        assert(r@.characteristics =~= Seq::empty());
        r
    }

    /// Gives a characteristic its handle and works out its operations. Its descriptors are
    /// left to the caller.
    pub fn new_characteristic_base(&mut self, spec: &GattCharacteristic) -> (res: Result<
        Characteristic,
        Error,
    >)
        requires
            old(self).wf(),
            old(self).uuids().len() < MAX_ATTRIBUTES,
        ensures
            final(self).wf(),
            final(self).uuids() == old(self).uuids().push(spec.uuid),
            final(self).services() == old(self).services(),
            match res {
                Ok(c) => characteristic_error(*spec) is None && c@ == characteristic_base(
                    *spec,
                    handle_after(old(self).uuids().len()),
                ),
                Err(e) => characteristic_error(*spec) == Some(e.message@),
            },
    {
        let handle = self.handle_allocator.next(spec.uuid);

        let no_read = CharacteristicRead { read: false, encrypt_read: false, handle };
        let no_write = CharacteristicWrite {
            write: false,
            write_without_response: false,
            authenticated_signed_writes: false,
            encrypt_write: false,
            handle,
        };
        let no_notify = CharacteristicNotify { notify: false, indicate: false, handle };

        let mut read_op: Option<CharacteristicRead> = None;
        let mut write_op: Option<CharacteristicWrite> = None;
        let mut notify_op: Option<CharacteristicNotify> = None;

        let ghost props = spec.properties@;
        for i in 0..spec.properties.len()
            invariant
                props == spec.properties@,
                read_op == (if has_read(props.take(i as int)) {
                    Some(no_read)
                } else {
                    None
                }),
                write_op == (if has_write(props.take(i as int)) {
                    Some(no_write)
                } else {
                    None
                }),
                notify_op == (if has_notify(props.take(i as int)) {
                    Some(no_notify)
                } else {
                    None
                }),
        {
            proof {
                lemma_take_contains(props, i as int);
            }
            match spec.properties[i] {
                GattCharacteristicProperty::Indicate | GattCharacteristicProperty::Notify => {
                    notify_op.get_or_insert(no_notify);
                },
                GattCharacteristicProperty::Read => {
                    read_op.get_or_insert(no_read);
                },
                GattCharacteristicProperty::Write
                | GattCharacteristicProperty::WriteSigned
                | GattCharacteristicProperty::WriteNoResponse => {
                    write_op.get_or_insert(no_write);
                },
                _ => {},
            }
        }
        assert(props.take(props.len() as int) =~= props);

        let mut broadcast: bool = false;
        for i in 0..spec.properties.len()
            invariant
                props == spec.properties@,
                !no_write.write && !no_write.encrypt_write,
                broadcast == props.take(i as int).contains(GattCharacteristicProperty::Broadcast),
                write_op == (if has_write(props) {
                    Some(
                        CharacteristicWrite {
                            write_without_response: props.take(i as int).contains(
                                GattCharacteristicProperty::WriteNoResponse,
                            ),
                            authenticated_signed_writes: props.take(i as int).contains(
                                GattCharacteristicProperty::WriteSigned,
                            ),
                            ..no_write
                        },
                    )
                } else {
                    None
                }),
                notify_op == (if has_notify(props) {
                    Some(
                        CharacteristicNotify {
                            notify: props.take(i as int).contains(
                                GattCharacteristicProperty::Notify,
                            ),
                            indicate: props.take(i as int).contains(
                                GattCharacteristicProperty::Indicate,
                            ),
                            handle,
                        },
                    )
                } else {
                    None
                }),
        {
            proof {
                lemma_take_contains(props, i as int);
                assert(props.contains(props[i as int]));
            }
            match spec.properties[i] {
                GattCharacteristicProperty::Indicate => {
                    if let Some(o) = notify_op.as_mut() {
                        o.indicate = true;
                    }
                },
                GattCharacteristicProperty::Notify => {
                    if let Some(o) = notify_op.as_mut() {
                        o.notify = true;
                    }
                },
                GattCharacteristicProperty::WriteSigned => {
                    if let Some(o) = write_op.as_mut() {
                        o.authenticated_signed_writes = true;
                    }
                },
                GattCharacteristicProperty::WriteNoResponse => {
                    if let Some(o) = write_op.as_mut() {
                        o.write_without_response = true;
                    }
                },
                GattCharacteristicProperty::Broadcast => {
                    broadcast = true;
                },
                _ => {},
            }
        }

        match check_characteristic(spec) {
            Ok(()) => {},
            Err(e) => {
                return Err(e);
            },
        }
        let ghost perms = spec.permissions@;
        for i in 0..spec.permissions.len()
            invariant
                perms == spec.permissions@,
                read_op == (if has_read(props) {
                    Some(
                        CharacteristicRead {
                            read: perms.take(i as int).contains(
                                GattCharacteristicPermission::Read,
                            ),
                            encrypt_read: perms.take(i as int).contains(
                                GattCharacteristicPermission::ReadEncrypted,
                            ),
                            handle,
                        },
                    )
                } else {
                    None
                }),
                write_op == (if has_write(props) {
                    Some(
                        CharacteristicWrite {
                            write: perms.take(i as int).contains(
                                GattCharacteristicPermission::Write,
                            ),
                            encrypt_write: perms.take(i as int).contains(
                                GattCharacteristicPermission::WriteEncrypted,
                            ),
                            write_without_response: props.contains(
                                GattCharacteristicProperty::WriteNoResponse,
                            ),
                            authenticated_signed_writes: props.contains(
                                GattCharacteristicProperty::WriteSigned,
                            ),
                            handle,
                        },
                    )
                } else {
                    None
                }),
        {
            proof {
                lemma_take_contains(perms, i as int);
            }
            match spec.permissions[i] {
                GattCharacteristicPermission::Read => {
                    if let Some(o) = read_op.as_mut() {
                        o.read = true;
                    }
                },
                GattCharacteristicPermission::ReadEncrypted => {
                    if let Some(o) = read_op.as_mut() {
                        o.encrypt_read = true;
                    }
                },
                GattCharacteristicPermission::Write => {
                    if let Some(o) = write_op.as_mut() {
                        o.write = true;
                    }
                },
                GattCharacteristicPermission::WriteEncrypted => {
                    if let Some(o) = write_op.as_mut() {
                        o.encrypt_write = true;
                    }
                },
                _ => {},
            }
        }
        assert(perms.take(perms.len() as int) =~= perms);

        Ok(
            Characteristic {
                uuid: convert_uuid(spec.uuid),
                broadcast,
                authorize: false,
                writable_auxiliaries: false,
                descriptors: Vec::new(),
                read: read_op,
                write: write_op,
                notify: notify_op,
            },
        )
    }

    /// Gives a descriptor its handle and works out its operations.
    pub fn new_descriptor(&mut self, spec: &GattDescriptor) -> (res: Result<Descriptor, Error>)
        requires
            old(self).wf(),
            old(self).uuids().len() < MAX_ATTRIBUTES,
        ensures
            final(self).wf(),
            final(self).uuids() == old(self).uuids().push(spec.uuid),
            final(self).services() == old(self).services(),
            match res {
                Ok(d) => descriptor_error(*spec) is None && d == descriptor_view(
                    *spec,
                    handle_after(old(self).uuids().len()),
                ),
                Err(e) => descriptor_error(*spec) == Some(e.message@),
            },
    {
        let handle = self.handle_allocator.next(spec.uuid);

        let mut read_op: Option<DescriptorRead> = None;
        let mut write_op: Option<DescriptorWrite> = None;

        let ghost perms = spec.permissions@;
        for i in 0..spec.permissions.len()
            invariant
                perms == spec.permissions@,
                read_op == (if has_descriptor_read(perms.take(i as int)) {
                    Some(DescriptorRead { read: false, encrypt_read: false, handle })
                } else {
                    None
                }),
                write_op == (if has_descriptor_write(perms.take(i as int)) {
                    Some(DescriptorWrite { write: false, encrypt_write: false, handle })
                } else {
                    None
                }),
        {
            proof {
                lemma_take_contains(perms, i as int);
            }
            match spec.permissions[i] {
                GattDescriptorPermission::Read | GattDescriptorPermission::ReadEncrypted => {
                    read_op.get_or_insert(
                        DescriptorRead { read: false, encrypt_read: false, handle },
                    );
                },
                GattDescriptorPermission::Write
                | GattDescriptorPermission::WriteEncrypted
                | GattDescriptorPermission::WriteEncryptedMitm
                | GattDescriptorPermission::WriteSigned
                | GattDescriptorPermission::WriteSignedMitm => {
                    write_op.get_or_insert(
                        DescriptorWrite { write: false, encrypt_write: false, handle },
                    );
                },
            }
        }
        assert(perms.take(perms.len() as int) =~= perms);

        match check_descriptor(spec) {
            Ok(()) => {},
            Err(e) => {
                return Err(e);
            },
        }
        for i in 0..spec.permissions.len()
            invariant
                perms == spec.permissions@,
                read_op == (if has_descriptor_read(perms) {
                    Some(
                        DescriptorRead {
                            read: perms.take(i as int).contains(GattDescriptorPermission::Read),
                            encrypt_read: perms.take(i as int).contains(
                                GattDescriptorPermission::ReadEncrypted,
                            ),
                            handle,
                        },
                    )
                } else {
                    None
                }),
                write_op == (if has_descriptor_write(perms) {
                    Some(
                        DescriptorWrite {
                            write: perms.take(i as int).contains(GattDescriptorPermission::Write),
                            encrypt_write: perms.take(i as int).contains(
                                GattDescriptorPermission::WriteEncrypted,
                            ),
                            handle,
                        },
                    )
                } else {
                    None
                }),
        {
            proof {
                lemma_take_contains(perms, i as int);
            }
            match spec.permissions[i] {
                GattDescriptorPermission::Read => {
                    if let Some(o) = read_op.as_mut() {
                        o.read = true;
                    }
                },
                GattDescriptorPermission::ReadEncrypted => {
                    if let Some(o) = read_op.as_mut() {
                        o.encrypt_read = true;
                    }
                },
                GattDescriptorPermission::Write => {
                    if let Some(o) = write_op.as_mut() {
                        o.write = true;
                    }
                },
                GattDescriptorPermission::WriteEncrypted => {
                    if let Some(o) = write_op.as_mut() {
                        o.encrypt_write = true;
                    }
                },
                _ => {},
            }
        }
        assert(perms.take(perms.len() as int) =~= perms);

        Ok(Descriptor { uuid: convert_uuid(spec.uuid), read: read_op, write: write_op })
    }

    /// Builds a service with all its characteristics and their descriptors. Where it fails,
    /// handles went to the attributes up to the one that is refused, that one among them.
    pub fn new_service(&mut self, service_spec: &GattService) -> (res: Result<Service, Error>)
        requires
            old(self).wf(),
            fits(old(self).uuids().len(), service_attributes(*service_spec)),
        ensures
            final(self).wf(),
            final(self).services() == old(self).services(),
            match res {
                Ok(s) => {
                    &&& all_accepted(service_attributes(*service_spec))
                    &&& s@ == service_view(*service_spec, old(self).uuids().len())
                    &&& final(self).uuids() == old(self).uuids() + attribute_uuids(
                        service_attributes(*service_spec),
                    )
                },
                Err(e) => first_error_stops(
                    service_attributes(*service_spec),
                    e.message@,
                    old(self).uuids(),
                    final(self).uuids(),
                ),
            },
    {
        let mut service = self.new_service_base(service_spec);
        let ghost cs = service_spec.characteristics@;
        let ghost attrs = service_attributes(*service_spec);
        let ghost before = self.uuids();
        let ghost wanted = service_view(*service_spec, before.len());
        assert(before + attribute_uuids(Seq::empty()) =~= before);
        assert(wanted.characteristics.take(0) =~= Seq::empty());
        for i in 0..service_spec.characteristics.len()
            invariant
                cs == service_spec.characteristics@,
                attrs == service_attributes(*service_spec),
                wanted == service_view(*service_spec, before.len()),
                fits(before.len(), attrs),
                before == old(self).uuids(),
                self.wf(),
                self.services() == old(self).services(),
                all_accepted(characteristics_attributes(cs.take(i as int))),
                self.uuids() == before + attribute_uuids(
                    characteristics_attributes(cs.take(i as int)),
                ),
                service@ == (ServiceView {
                    characteristics: wanted.characteristics.take(i as int),
                    ..wanted
                }),
        {
            let characteristic_spec = &service_spec.characteristics[i];
            let ghost ds = characteristic_spec.descriptors@;
            let ghost done = characteristics_attributes(cs.take(i as int));
            let ghost own = characteristic_attributes(*characteristic_spec);
            proof {
                lemma_characteristics_prefix(cs, i as int);
                lemma_room(before.len(), attrs, done.len() as int);
                assert(attrs[done.len() as int] == own[0]);
            }
            let mut characteristic = match self.new_characteristic_base(characteristic_spec) {
                Ok(c) => c,
                Err(e) => {
                    proof {
                        let at = done.len() as int;
                        assert(attrs.take(at + 1) =~= done.push(own[0]));
                        assert(self.uuids() =~= before + attribute_uuids(attrs.take(at + 1)));
                        assert(first_error_at(attrs, at, e.message@));
                    }
                    return Err(e);
                },
            };
            proof {
                assert(done + own.take(1) =~= done.push(own[0]));
                assert(self.uuids() =~= before + attribute_uuids(done + own.take(1)));
            }
            let ghost wanted_char = wanted.characteristics[i as int];
            assert(wanted_char.descriptors.take(0) =~= Seq::empty());
            for j in 0..characteristic_spec.descriptors.len()
                invariant
                    ds == characteristic_spec.descriptors@,
                    own == characteristic_attributes(*characteristic_spec),
                    attrs == service_attributes(*service_spec),
                    fits(before.len(), attrs),
                    before == old(self).uuids(),
                    done.len() + own.len() <= attrs.len(),
                    attrs.take(done.len() as int) == done,
                    attrs.subrange(done.len() as int, (done.len() + own.len()) as int) == own,
                    wanted_char == characteristic_view(
                        *characteristic_spec,
                        before.len() + done.len(),
                    ),
                    self.wf(),
                    self.services() == old(self).services(),
                    all_accepted(done + own.take(1 + j)),
                    self.uuids() == before + attribute_uuids(done + own.take(1 + j)),
                    characteristic@ == (CharacteristicView {
                        descriptors: wanted_char.descriptors.take(j as int),
                        ..wanted_char
                    }),
            {
                let descriptor_spec = &characteristic_spec.descriptors[j];
                let ghost so_far = done + own.take(1 + j);
                proof {
                    assert(attrs.take(so_far.len() as int) =~= so_far);
                    lemma_room(before.len(), attrs, so_far.len() as int);
                    assert(attrs[so_far.len() as int] == own[1 + j]);
                    assert(own[1 + j].error == descriptor_error(*descriptor_spec));
                }
                let descriptor = match self.new_descriptor(descriptor_spec) {
                    Ok(d) => d,
                    Err(e) => {
                        proof {
                            let at = so_far.len() as int;
                            assert(attrs.take(at + 1) =~= so_far.push(own[1 + j]));
                            assert(self.uuids() =~= before + attribute_uuids(attrs.take(at + 1)));
                            assert(first_error_at(attrs, at, e.message@));
                        }
                        return Err(e);
                    },
                };
                characteristic.descriptors.push(descriptor);
                proof {
                    assert(own.take(1 + j + 1) =~= own.take(1 + j).push(own[1 + j]));
                    assert(done + own.take(1 + j + 1) =~= so_far.push(own[1 + j]));
                    assert(self.uuids() =~= before + attribute_uuids(so_far.push(own[1 + j])));
                    assert(wanted_char.descriptors.take(j + 1) =~= wanted_char.descriptors.take(
                        j as int,
                    ).push(descriptor));
                }
            }
            let ghost so_far = service@.characteristics;
            service.characteristics.push(characteristic);
            proof {
                assert(own.take((1 + ds.len()) as int) =~= own);
                assert(cs.take(i + 1).drop_last() =~= cs.take(i as int));
                assert(characteristics_attributes(cs.take(i + 1)) == done + own);
                assert(wanted_char.descriptors.take(ds.len() as int) =~= wanted_char.descriptors);
                assert(service@.characteristics =~= so_far.push(characteristic@));
                assert(wanted.characteristics.take(i + 1) =~= wanted.characteristics.take(
                    i as int,
                ).push(wanted_char));
            }
        }
        proof {
            assert(cs.take(cs.len() as int) =~= cs);
            assert(wanted.characteristics.take(cs.len() as int) =~= wanted.characteristics);
        }
        Ok(service)
    }

    /// Builds the published application. Attributes get the handles 1, 2, 3, and so on in the
    /// order in which they are described, a characteristic before its descriptors. The first
    /// attribute with a permission that BlueZ cannot enforce makes the whole call fail.
    pub fn convert(services: &[GattService]) -> (res: Result<ApplicationHolder, Error>)
        requires
            fits(0, attributes(services@)),
        ensures
            res is Ok <==> all_accepted(attributes(services@)),
            match res {
                Ok(holder) => {
                    &&& all_accepted(attributes(services@))
                    &&& holder.app@ == application_view(services@)
                    &&& holder.handle_mapping@ == numbered(attribute_uuids(attributes(services@)))
                },
                Err(e) => first_error_is(attributes(services@), e.message@),
            },
    {
        let mut me = ApplicationFactory::new();
        let ghost attrs = attributes(services@);
        let ghost wanted = application_view(services@);
        assert(attribute_uuids(Seq::empty()) =~= Seq::<UUID>::empty());
        assert(wanted.take(0) =~= Seq::empty());
        for i in 0..services.len()
            invariant
                attrs == attributes(services@),
                wanted == application_view(services@),
                fits(0, attrs),
                me.wf(),
                all_accepted(attributes(services@.take(i as int))),
                me.uuids() == attribute_uuids(attributes(services@.take(i as int))),
                me.services() == wanted.take(i as int),
        {
            let ghost done = attributes(services@.take(i as int));
            let ghost own = service_attributes(services@[i as int]);
            proof {
                lemma_services_prefix(services@, i as int);
                lemma_fits_part(attrs, done, own);
            }
            let service = match me.new_service(&services[i]) {
                Ok(s) => s,
                Err(e) => {
                    proof {
                        let k = choose|k: int| #[trigger] first_error_at(own, k, e.message@);
                        let at = done.len() + k;
                        assert(attrs[at] == own[k]);
                        assert(attrs.take(at) =~= done + own.take(k));
                        assert(first_error_at(attrs, at, e.message@));
                    }
                    return Err(e);
                },
            };
            let ghost so_far = me.services();
            me.app.services.push(service);
            proof {
                assert(services@.take(i + 1).drop_last() =~= services@.take(i as int));
                assert(attributes(services@.take(i + 1)) == done + own);
                assert(attribute_uuids(done + own) =~= attribute_uuids(done) + attribute_uuids(
                    own,
                ));
                assert(me.services() =~= so_far.push(service@));
                assert(wanted.take(i + 1) =~= wanted.take(i as int).push(wanted[i as int]));
            }
        }
        proof {
            assert(services@.take(services@.len() as int) =~= services@);
            assert(wanted.take(services@.len() as int) =~= wanted);
        }
        Ok(
            ApplicationHolder {
                app: me.app,
                handle_mapping: me.handle_allocator.into_mapping(),
            },
        )
    }
}

/// How far the handles go for the attributes of one service.
enum Room {
    /// So many are taken after it.
    Taken(usize),
    /// An attribute is refused before they run out.
    Refused,
    /// They run out.
    Exhausted,
}

/// `room` is how far the handles go for `attrs`, when `used` of them are taken already.
spec fn room_is(used: nat, attrs: Seq<AttributeView>, room: Room) -> bool {
    match room {
        Room::Taken(n) => all_accepted(attrs) && n == used + attrs.len() && n <= MAX_ATTRIBUTES,
        Room::Refused => exists|k: int|
            0 <= k < attrs.len() && used + k < MAX_ATTRIBUTES && (
            #[trigger] attrs[k]).error is Some,
        Room::Exhausted => used + attrs.len() > MAX_ATTRIBUTES && all_accepted(
            attrs.take(MAX_ATTRIBUTES - used),
        ),
    }
}

fn room_for_service(service_spec: &GattService, used: usize) -> (r: Room)
    requires
        used <= MAX_ATTRIBUTES,
    ensures
        room_is(used as nat, service_attributes(*service_spec), r),
{
    let ghost cs = service_spec.characteristics@;
    let ghost attrs = service_attributes(*service_spec);
    let mut taken: usize = used;
    for i in 0..service_spec.characteristics.len()
        invariant
            cs == service_spec.characteristics@,
            attrs == service_attributes(*service_spec),
            used <= taken <= MAX_ATTRIBUTES,
            all_accepted(characteristics_attributes(cs.take(i as int))),
            taken == used + characteristics_attributes(cs.take(i as int)).len(),
    {
        let characteristic_spec = &service_spec.characteristics[i];
        let ghost done = characteristics_attributes(cs.take(i as int));
        let ghost own = characteristic_attributes(*characteristic_spec);
        proof {
            lemma_characteristics_prefix(cs, i as int);
            assert(attrs[done.len() as int] == own[0]);
        }
        if taken == MAX_ATTRIBUTES {
            return Room::Exhausted;
        }
        if check_characteristic(characteristic_spec).is_err() {
            return Room::Refused;
        }
        taken = taken + 1;
        for j in 0..characteristic_spec.descriptors.len()
            invariant
                own == characteristic_attributes(*characteristic_spec),
                done.len() + own.len() <= attrs.len(),
                attrs == service_attributes(*service_spec),
                attrs.take(done.len() as int) == done,
                attrs.subrange(done.len() as int, (done.len() + own.len()) as int) == own,
                used <= taken <= MAX_ATTRIBUTES,
                all_accepted(done + own.take(1 + j)),
                taken == used + done.len() + 1 + j,
        {
            let descriptor_spec = &characteristic_spec.descriptors[j];
            let ghost so_far = done + own.take(1 + j);
            proof {
                assert(attrs.take(so_far.len() as int) =~= so_far);
                assert(attrs[so_far.len() as int] == own[1 + j]);
                assert(own[1 + j].error == descriptor_error(*descriptor_spec));
                assert(done + own.take(1 + j + 1) =~= so_far.push(own[1 + j]));
            }
            if taken == MAX_ATTRIBUTES {
                return Room::Exhausted;
            }
            if check_descriptor(descriptor_spec).is_err() {
                return Room::Refused;
            }
            taken = taken + 1;
        }
        proof {
            assert(own.take(own.len() as int) =~= own);
            assert(cs.take(i + 1).drop_last() =~= cs.take(i as int));
            assert(characteristics_attributes(cs.take(i + 1)) == done + own);
        }
    }
    assert(cs.take(cs.len() as int) =~= cs);
    Room::Taken(taken)
}

/// Tells whether there is a handle for each attribute of `services`, up to the first that is
/// refused.
pub fn handles_suffice(services: &[GattService]) -> (r: bool)
    ensures
        r == fits(0, attributes(services@)),
{
    let ghost attrs = attributes(services@);
    let mut used: usize = 0;
    for i in 0..services.len()
        invariant
            attrs == attributes(services@),
            used <= MAX_ATTRIBUTES,
            all_accepted(attributes(services@.take(i as int))),
            used == attributes(services@.take(i as int)).len(),
    {
        let ghost done = attributes(services@.take(i as int));
        let ghost own = service_attributes(services@[i as int]);
        proof {
            lemma_services_prefix(services@, i as int);
        }
        match room_for_service(&services[i], used) {
            Room::Taken(n) => {
                used = n;
            },
            Room::Refused => {
                proof {
                    let k = choose|k: int|
                        0 <= k < own.len() && done.len() + k < MAX_ATTRIBUTES && (
                        #[trigger] own[k]).error is Some;
                    assert(attrs[done.len() + k] == own[k]);
                }
                return true;
            },
            Room::Exhausted => {
                proof {
                    let part = own.take(MAX_ATTRIBUTES - done.len());
                    assert forall|k: int| 0 <= k < attrs.len() && k < MAX_ATTRIBUTES implies (
                    #[trigger] attrs[k]).error is None by {
                        if k < done.len() {
                            assert(attrs[k] == done[k]);
                        } else {
                            assert(attrs[k] == own[k - done.len()]);
                            assert(part[k - done.len()] == own[k - done.len()]);
                        }
                    }
                }
                return false;
            },
        }
        proof {
            assert(services@.take(i + 1).drop_last() =~= services@.take(i as int));
            assert(attributes(services@.take(i + 1)) == done + own);
        }
    }
    assert(services@.take(services@.len() as int) =~= services@);
    true
}

/// The attributes of the first `i` characteristics, and then those of the next one, come
/// first among the attributes of all.
proof fn lemma_characteristics_prefix(specs: Seq<GattCharacteristic>, i: int)
    requires
        0 <= i < specs.len(),
    ensures
        ({
            let all = characteristics_attributes(specs);
            let done = characteristics_attributes(specs.take(i));
            let own = characteristic_attributes(specs[i]);
            &&& done.len() + own.len() <= all.len()
            &&& all.take(done.len() as int) == done
            &&& all.subrange(done.len() as int, (done.len() + own.len()) as int) == own
        }),
    decreases specs.len(),
{
    let all = characteristics_attributes(specs);
    let done = characteristics_attributes(specs.take(i));
    let own = characteristic_attributes(specs[i]);
    let shorter = specs.drop_last();
    if i == specs.len() - 1 {
        assert(specs.take(i) =~= shorter);
        assert(all.take(done.len() as int) =~= done);
        assert(all.subrange(done.len() as int, (done.len() + own.len()) as int) =~= own);
    } else {
        lemma_characteristics_prefix(shorter, i);
        assert(shorter.take(i) =~= specs.take(i));
        let part = characteristics_attributes(shorter);
        assert(all.take(done.len() as int) =~= part.take(done.len() as int));
        assert(all.subrange(done.len() as int, (done.len() + own.len()) as int) =~= part.subrange(
            done.len() as int,
            (done.len() + own.len()) as int,
        ));
    }
}

/// The attributes of the first `i` services, and then those of the next one, come first among
/// the attributes of all.
proof fn lemma_services_prefix(specs: Seq<GattService>, i: int)
    requires
        0 <= i < specs.len(),
    ensures
        ({
            let all = attributes(specs);
            let done = attributes(specs.take(i));
            let own = service_attributes(specs[i]);
            &&& done.len() + own.len() <= all.len()
            &&& all.take(done.len() as int) == done
            &&& all.subrange(done.len() as int, (done.len() + own.len()) as int) == own
        }),
    decreases specs.len(),
{
    let all = attributes(specs);
    let done = attributes(specs.take(i));
    let own = service_attributes(specs[i]);
    let shorter = specs.drop_last();
    if i == specs.len() - 1 {
        assert(specs.take(i) =~= shorter);
        assert(all.take(done.len() as int) =~= done);
        assert(all.subrange(done.len() as int, (done.len() + own.len()) as int) =~= own);
    } else {
        lemma_services_prefix(shorter, i);
        assert(shorter.take(i) =~= specs.take(i));
        let part = attributes(shorter);
        assert(all.take(done.len() as int) =~= part.take(done.len() as int));
        assert(all.subrange(done.len() as int, (done.len() + own.len()) as int) =~= part.subrange(
            done.len() as int,
            (done.len() + own.len()) as int,
        ));
    }
}

/// While no attribute was refused, there is a handle for the next one.
proof fn lemma_room(used: nat, attrs: Seq<AttributeView>, m: int)
    requires
        fits(used, attrs),
        0 <= m < attrs.len(),
        all_accepted(attrs.take(m)),
    ensures
        used + m < MAX_ATTRIBUTES,
{
    if used + m >= MAX_ATTRIBUTES {
        let k = choose|k: int|
            0 <= k < attrs.len() && used + k < MAX_ATTRIBUTES && (
            #[trigger] attrs[k]).error is Some;
        assert(attrs.take(m)[k] == attrs[k]);
    }
}

/// Where handles do not run out for all attributes, they do not for a part that comes after
/// attributes that were accepted.
proof fn lemma_fits_part(attrs: Seq<AttributeView>, done: Seq<AttributeView>, own: Seq<AttributeView>)
    requires
        fits(0, attrs),
        all_accepted(done),
        done.len() + own.len() <= attrs.len(),
        attrs.take(done.len() as int) == done,
        attrs.subrange(done.len() as int, (done.len() + own.len()) as int) == own,
    ensures
        fits(done.len(), own),
{
    if done.len() + own.len() > MAX_ATTRIBUTES {
        let k = choose|k: int|
            0 <= k < attrs.len() && 0 + k < MAX_ATTRIBUTES && (#[trigger] attrs[k]).error is Some;
        if k < done.len() {
            assert(done[k] == attrs[k]);
        } else {
            assert(own[k - done.len()] == attrs[k]);
        }
    }
}

/// An element is among the first `i + 1` if it is among the first `i`, or is the one after.
proof fn lemma_take_contains<A>(s: Seq<A>, i: int)
    requires
        0 <= i < s.len(),
    ensures
        forall|x: A| #[trigger]
            s.take(i + 1).contains(x) <==> s.take(i).contains(x) || x == s[i],
{
    let shorter = s.take(i);
    let longer = s.take(i + 1);
    assert(longer =~= shorter.push(s[i]));
    assert forall|x: A| #[trigger] longer.contains(x) implies shorter.contains(x) || x == s[i] by {
        let k = choose|k: int| 0 <= k < longer.len() && longer[k] == x;
        if k < i {
            assert(shorter[k] == x);
        }
    }
    assert forall|x: A| shorter.contains(x) || x == s[i] implies #[trigger] longer.contains(x) by {
        if shorter.contains(x) {
            let k = choose|k: int| 0 <= k < shorter.len() && shorter[k] == x;
            assert(longer[k] == x);
        } else {
            assert(longer[i] == x);
        }
    }
}

/// The handles that an application gets are never 0, and no two attributes share one.
pub proof fn law_handles_distinct(uuids: Seq<UUID>)
    requires
        uuids.len() <= MAX_ATTRIBUTES,
    ensures
        forall|i: int| 0 <= i < uuids.len() ==> (#[trigger] numbered(uuids)[i]).1.0 != 0,
        forall|i: int, j: int|
            0 <= i < j < uuids.len() ==> (#[trigger] numbered(uuids)[i]).1 != (
            #[trigger] numbered(uuids)[j]).1,
{
}

/// How many attributes come before characteristic `c` of service `s`.
pub open spec fn attributes_before(services: Seq<GattService>, s: int, c: int) -> nat {
    attributes(services.take(s)).len() + characteristics_attributes(
        services[s].characteristics@.take(c),
    ).len()
}

/// Requests on an attribute come under the handle that the mapping tells for it: each operation
/// of a characteristic or of a descriptor names the handle that stands beside its UUID.
pub proof fn law_operations_follow_mapping(services: Seq<GattService>, s: int, c: int)
    requires
        0 <= s < services.len(),
        0 <= c < services[s].characteristics@.len(),
    ensures
        ({
            let spec = services[s].characteristics@[c];
            let mapping = numbered(attribute_uuids(attributes(services)));
            let published = application_view(services)[s].characteristics[c];
            let at = attributes_before(services, s, c) as int;
            &&& at < mapping.len()
            &&& mapping[at].0 == spec.uuid
            &&& published.uuid == spec.uuid.value()
            &&& published.read matches Some(op) ==> op.handle == mapping[at].1
            &&& published.write matches Some(op) ==> op.handle == mapping[at].1
            &&& published.notify matches Some(op) ==> op.handle == mapping[at].1
            &&& published.descriptors.len() == spec.descriptors@.len()
            &&& forall|d: int| #![trigger published.descriptors[d]]
                0 <= d < spec.descriptors@.len() ==> {
                    &&& at + 1 + d < mapping.len()
                    &&& mapping[at + 1 + d].0 == spec.descriptors@[d].uuid
                    &&& published.descriptors[d].uuid == spec.descriptors@[d].uuid.value()
                    &&& published.descriptors[d].read matches Some(op) ==> op.handle == mapping[at
                        + 1 + d].1
                    &&& published.descriptors[d].write matches Some(op) ==> op.handle
                        == mapping[at + 1 + d].1
                }
        }),
{
    let all = attributes(services);
    let cs = services[s].characteristics@;
    let spec = cs[c];
    let own = characteristic_attributes(spec);
    let at = attributes_before(services, s, c) as int;
    lemma_attributes_of_characteristic(services, s, c);
    let published = application_view(services)[s].characteristics[c];
    assert(published == characteristic_view(spec, at as nat));
    assert(all[at] == own[0]);
    assert forall|d: int| #![trigger published.descriptors[d]]
        0 <= d < spec.descriptors@.len() implies all[at + 1 + d].uuid
        == spec.descriptors@[d].uuid by {
        assert(all[at + 1 + d] == own[1 + d]);
    }
}

/// The attributes of a characteristic stand together among the attributes of an application.
pub proof fn lemma_attributes_of_characteristic(services: Seq<GattService>, s: int, c: int)
    requires
        0 <= s < services.len(),
        0 <= c < services[s].characteristics@.len(),
    ensures
        ({
            let all = attributes(services);
            let own = characteristic_attributes(services[s].characteristics@[c]);
            let at = attributes_before(services, s, c) as int;
            &&& at + own.len() <= all.len()
            &&& forall|k: int| 0 <= k < own.len() ==> all[at + k] == #[trigger] own[k]
        }),
{
    let all = attributes(services);
    let cs = services[s].characteristics@;
    let of_service = service_attributes(services[s]);
    let own = characteristic_attributes(cs[c]);
    let before_service = attributes(services.take(s)).len() as int;
    let before_own = characteristics_attributes(cs.take(c)).len() as int;
    lemma_services_prefix(services, s);
    lemma_characteristics_prefix(cs, c);
    assert forall|k: int| 0 <= k < own.len() implies all[before_service + before_own + k]
        == #[trigger] own[k] by {
        assert(of_service.subrange(before_own, before_own + own.len())[k] == of_service[before_own
            + k]);
        assert(all.subrange(before_service, before_service + of_service.len())[before_own + k]
            == all[before_service + before_own + k]);
    }
}

/// The permissions of a characteristic hold none that BlueZ cannot enforce.
pub open spec fn characteristic_supported(spec: GattCharacteristic) -> bool {
    &&& !spec.permissions@.contains(GattCharacteristicPermission::WriteEncryptedMitm)
    &&& !spec.permissions@.contains(GattCharacteristicPermission::WriteSigned)
    &&& !spec.permissions@.contains(GattCharacteristicPermission::WriteSignedMitm)
}

/// The permissions of a descriptor hold none that BlueZ cannot enforce.
pub open spec fn descriptor_supported(spec: GattDescriptor) -> bool {
    &&& !spec.permissions@.contains(GattDescriptorPermission::WriteEncryptedMitm)
    &&& !spec.permissions@.contains(GattDescriptorPermission::WriteSigned)
    &&& !spec.permissions@.contains(GattDescriptorPermission::WriteSignedMitm)
}

/// No characteristic and no descriptor of a service has a permission that BlueZ cannot enforce.
pub open spec fn service_supported(spec: GattService) -> bool {
    forall|c: int|
        0 <= c < spec.characteristics@.len() ==> {
            &&& characteristic_supported(#[trigger] spec.characteristics@[c])
            &&& forall|d: int|
                0 <= d < spec.characteristics@[c].descriptors@.len() ==> descriptor_supported(
                    #[trigger] spec.characteristics@[c].descriptors@[d],
                )
        }
}

/// An application is published exactly if none of its attributes has a permission that BlueZ
/// cannot enforce: whatever its other attributes are, one such permission keeps all back.
pub proof fn law_published_iff_supported(services: Seq<GattService>)
    ensures
        all_accepted(attributes(services)) <==> forall|s: int|
            0 <= s < services.len() ==> service_supported(#[trigger] services[s]),
{
    let all = attributes(services);
    if all_accepted(all) {
        assert forall|s: int| 0 <= s < services.len() implies service_supported(
            #[trigger] services[s],
        ) by {
            let cs = services[s].characteristics@;
            assert forall|c: int| 0 <= c < cs.len() implies {
                &&& characteristic_supported(#[trigger] cs[c])
                &&& forall|d: int|
                    0 <= d < cs[c].descriptors@.len() ==> descriptor_supported(
                        #[trigger] cs[c].descriptors@[d],
                    )
            } by {
                lemma_attributes_of_characteristic(services, s, c);
                let own = characteristic_attributes(cs[c]);
                let at = attributes_before(services, s, c) as int;
                assert(all[at] == own[0]);
                assert forall|d: int| 0 <= d < cs[c].descriptors@.len() implies descriptor_supported(
                    #[trigger] cs[c].descriptors@[d],
                ) by {
                    assert(all[at + (1 + d)] == own[1 + d]);
                }
            }
        }
    }
    if forall|s: int| 0 <= s < services.len() ==> service_supported(#[trigger] services[s]) {
        lemma_supported_accepted(services);
    }
}

proof fn lemma_supported_characteristics_accepted(specs: Seq<GattCharacteristic>)
    requires
        forall|c: int|
            0 <= c < specs.len() ==> {
                &&& characteristic_supported(#[trigger] specs[c])
                &&& forall|d: int|
                    0 <= d < specs[c].descriptors@.len() ==> descriptor_supported(
                        #[trigger] specs[c].descriptors@[d],
                    )
            },
    ensures
        all_accepted(characteristics_attributes(specs)),
    decreases specs.len(),
{
    if specs.len() > 0 {
        let shorter = specs.drop_last();
        assert forall|c: int| 0 <= c < shorter.len() implies #[trigger] shorter[c]
            == specs[c] by {}
        lemma_supported_characteristics_accepted(shorter);
        let last = specs[specs.len() - 1];
        let own = characteristic_attributes(last);
        assert forall|k: int| 0 <= k < own.len() implies (#[trigger] own[k]).error is None by {}
    }
}

proof fn lemma_supported_accepted(services: Seq<GattService>)
    requires
        forall|s: int| 0 <= s < services.len() ==> service_supported(#[trigger] services[s]),
    ensures
        all_accepted(attributes(services)),
    decreases services.len(),
{
    if services.len() > 0 {
        let shorter = services.drop_last();
        assert forall|s: int| 0 <= s < shorter.len() implies #[trigger] shorter[s]
            == services[s] by {}
        lemma_supported_accepted(shorter);
        let last = services[services.len() - 1];
        assert(service_supported(last));
        lemma_supported_characteristics_accepted(last.characteristics@);
    }
}

/// Properties and permissions are sets: in which order they are listed, and how often, makes no
/// difference to the operations of a characteristic, nor to whether and why it is refused.
pub proof fn law_characteristic_lists_are_sets(
    a: GattCharacteristic,
    b: GattCharacteristic,
    handle: AttributeHandle,
)
    requires
        a.uuid == b.uuid,
        forall|p: GattCharacteristicProperty| #[trigger]
            a.properties@.contains(p) <==> b.properties@.contains(p),
        forall|p: GattCharacteristicPermission| #[trigger]
            a.permissions@.contains(p) <==> b.permissions@.contains(p),
    ensures
        characteristic_base(a, handle) == characteristic_base(b, handle),
        characteristic_error(a) == characteristic_error(b),
{
}

/// The permissions of a descriptor are a set: in which order they are listed, and how often,
/// makes no difference to its operations, nor to whether and why it is refused.
pub proof fn law_descriptor_lists_are_sets(
    a: GattDescriptor,
    b: GattDescriptor,
    handle: AttributeHandle,
)
    requires
        a.uuid == b.uuid,
        forall|p: GattDescriptorPermission| #[trigger]
            a.permissions@.contains(p) <==> b.permissions@.contains(p),
    ensures
        descriptor_view(a, handle) == descriptor_view(b, handle),
        descriptor_error(a) == descriptor_error(b),
{
}

} // verus!
