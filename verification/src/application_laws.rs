//! What is owed of a published application: that clients find what was described, and that each
//! request can be told apart by its handle.
//!
//! Each law speaks of what the functions themselves may return, for all arguments.

use crate::application_factory::{
    application_view, attributes, attributes_before, characteristic_attributes,
    characteristic_error, characteristic_view, descriptor_error, first_error_at, fits,
    handles_suffice, law_published_iff_supported, lemma_attributes_of_characteristic,
    service_supported, service_view, ApplicationFactory, ApplicationHolder, HandleAllocator,
};
use crate::descriptors::{
    AttributeHandle, GattCharacteristic, GattCharacteristicPermission, GattCharacteristicProperty,
    GattDescriptor, GattDescriptorPermission, GattService, GattServiceType,
};
use crate::err_util::Error;
use crate::gatt::{Characteristic, Descriptor, Service};
use crate::peripheral::{BluerPeripheral, ServerSetup};
use crate::uuid_util::{convert_uuid, UUID};
use vstd::prelude::*;

verus! {

/// A long UUID is published as it is. A short form takes the place of the first 32 bits of
/// `00000000-0000-1000-8000-00805f9b34fb`.
pub proof fn law_uuid_published(uuid: UUID, r: u128)
    requires
        call_ensures(convert_uuid, (uuid,), r),
    ensures
        uuid matches UUID::Long(v) ==> r == v,
        uuid matches UUID::Short(v) ==> {
            &&& r / 0x1_0000_0000_0000_0000_0000_0000 == v
            &&& r % 0x1_0000_0000_0000_0000_0000_0000 == 0x0000_1000_8000_0080_5f9b_34fb
        },
        r == uuid.value(),
        forall|s: u128| #[trigger] call_ensures(UUID::as_u128, (&uuid,), s) ==> s == r,
{
}

/// Handles go up by one from each attribute to the next, starting at 1, and the mapping tells
/// them with their UUIDs.
pub proof fn law_handles_count(
    fresh: HandleAllocator,
    before: HandleAllocator,
    first: UUID,
    between: HandleAllocator,
    first_handle: AttributeHandle,
    second: UUID,
    after: HandleAllocator,
    second_handle: AttributeHandle,
    mapping: Vec<(UUID, AttributeHandle)>,
)
    requires
        call_ensures(HandleAllocator::new, (), fresh),
        before.wf(),
        before.uuids().len() < 65533,
        exists|a: &mut HandleAllocator| #[trigger]
            call_ensures(HandleAllocator::next, (a, first), first_handle) && *a == before
                && *final(a) == between,
        exists|a: &mut HandleAllocator| #[trigger]
            call_ensures(HandleAllocator::next, (a, second), second_handle) && *a == between
                && *final(a) == after,
        call_ensures(HandleAllocator::into_mapping, (after,), mapping),
    ensures
        before == fresh ==> first_handle.0 == 1,
        second_handle.0 == first_handle.0 + 1,
        mapping@.len() == second_handle.0,
        mapping@[mapping@.len() - 2] == (first, first_handle),
        mapping@[mapping@.len() - 1] == (second, second_handle),
{
}

/// A characteristic gets each operation for its own properties, and each flag for its own
/// property or permission, whatever else it has: reads for `Read`, writes for any kind of
/// writing, notifications for `Notify` or `Indicate`. It is refused exactly for a permission
/// that BlueZ cannot enforce. All its operations name the handle that it was given.
pub proof fn law_characteristic_operations(
    before: ApplicationFactory,
    spec: GattCharacteristic,
    after: ApplicationFactory,
    res: Result<Characteristic, Error>,
)
    requires
        before.wf(),
        before.uuids().len() < 65534,
        exists|factory: &mut ApplicationFactory| #[trigger]
            call_ensures(ApplicationFactory::new_characteristic_base, (factory, &spec), res)
                && *factory == before && *final(factory) == after,
    ensures
        after.uuids() == before.uuids().push(spec.uuid),
        after.services() == before.services(),
        ({
            let perms = spec.permissions@;
            let encrypted_mitm = perms.contains(GattCharacteristicPermission::WriteEncryptedMitm);
            let signed = perms.contains(GattCharacteristicPermission::WriteSigned);
            let signed_mitm = perms.contains(GattCharacteristicPermission::WriteSignedMitm);
            &&& res is Err <==> encrypted_mitm || signed || signed_mitm
            &&& res matches Err(e) ==> {
                &&& encrypted_mitm ==> e.message@ == "write encrypted mitm not supported"@
                &&& !encrypted_mitm && signed ==> e.message@ == "write signed not supported"@
                &&& !encrypted_mitm && !signed ==> e.message@ == "write signed mitm not supported"@
            }
        }),
        res matches Ok(c) ==> {
            let props = spec.properties@;
            let perms = spec.permissions@;
            &&& c.uuid == spec.uuid.value()
            &&& c.broadcast == props.contains(GattCharacteristicProperty::Broadcast)
            &&& !c.authorize && !c.writable_auxiliaries
            &&& c.descriptors@.len() == 0
            &&& c.read is Some <==> props.contains(GattCharacteristicProperty::Read)
            &&& c.read matches Some(op) ==> {
                &&& op.read == perms.contains(GattCharacteristicPermission::Read)
                &&& op.encrypt_read == perms.contains(GattCharacteristicPermission::ReadEncrypted)
                &&& op.handle.0 == before.uuids().len() + 1
            }
            &&& c.write is Some <==> props.contains(GattCharacteristicProperty::Write)
                || props.contains(GattCharacteristicProperty::WriteSigned) || props.contains(
                GattCharacteristicProperty::WriteNoResponse,
            )
            &&& c.write matches Some(op) ==> {
                &&& op.write == perms.contains(GattCharacteristicPermission::Write)
                &&& op.encrypt_write == perms.contains(GattCharacteristicPermission::WriteEncrypted)
                &&& op.write_without_response == props.contains(
                    GattCharacteristicProperty::WriteNoResponse,
                )
                &&& op.authenticated_signed_writes == props.contains(
                    GattCharacteristicProperty::WriteSigned,
                )
                &&& op.handle.0 == before.uuids().len() + 1
            }
            &&& c.notify is Some <==> props.contains(GattCharacteristicProperty::Notify)
                || props.contains(GattCharacteristicProperty::Indicate)
            &&& c.notify matches Some(op) ==> {
                &&& op.notify == props.contains(GattCharacteristicProperty::Notify)
                &&& op.indicate == props.contains(GattCharacteristicProperty::Indicate)
                &&& op.handle.0 == before.uuids().len() + 1
            }
        },
{
    if let Ok(c) = res {
        assert(c@.descriptors.len() == 0);
        assert(c@.read == c.read && c@.write == c.write && c@.notify == c.notify);
    }
}

/// A descriptor can be read, or written to, exactly if a permission for it is there, and each
/// flag has its own permission. It is refused exactly for a permission that BlueZ cannot
/// enforce. Its operations name the handle that it was given.
pub proof fn law_descriptor_operations(
    before: ApplicationFactory,
    spec: GattDescriptor,
    after: ApplicationFactory,
    res: Result<Descriptor, Error>,
)
    requires
        before.wf(),
        before.uuids().len() < 65534,
        exists|factory: &mut ApplicationFactory| #[trigger]
            call_ensures(ApplicationFactory::new_descriptor, (factory, &spec), res) && *factory
                == before && *final(factory) == after,
    ensures
        after.uuids() == before.uuids().push(spec.uuid),
        after.services() == before.services(),
        ({
            let perms = spec.permissions@;
            let encrypted_mitm = perms.contains(GattDescriptorPermission::WriteEncryptedMitm);
            let signed = perms.contains(GattDescriptorPermission::WriteSigned);
            let signed_mitm = perms.contains(GattDescriptorPermission::WriteSignedMitm);
            &&& res is Err <==> encrypted_mitm || signed || signed_mitm
            &&& res matches Err(e) ==> {
                &&& encrypted_mitm ==> e.message@ == "write encrypted mitm not supported"@
                &&& !encrypted_mitm && signed ==> e.message@ == "write signed not supported"@
                &&& !encrypted_mitm && !signed ==> e.message@ == "write signed mitm not supported"@
            }
            &&& res matches Ok(d) ==> {
                &&& d.uuid == spec.uuid.value()
                &&& d.read is Some <==> perms.contains(GattDescriptorPermission::Read)
                    || perms.contains(GattDescriptorPermission::ReadEncrypted)
                &&& d.read matches Some(op) ==> {
                    &&& op.read == perms.contains(GattDescriptorPermission::Read)
                    &&& op.encrypt_read == perms.contains(GattDescriptorPermission::ReadEncrypted)
                    &&& op.handle.0 == before.uuids().len() + 1
                }
                &&& d.write is Some <==> perms.contains(GattDescriptorPermission::Write)
                    || perms.contains(GattDescriptorPermission::WriteEncrypted)
                &&& d.write matches Some(op) ==> {
                    &&& op.write == perms.contains(GattDescriptorPermission::Write)
                    &&& op.encrypt_write == perms.contains(GattDescriptorPermission::WriteEncrypted)
                    &&& op.handle.0 == before.uuids().len() + 1
                }
            }
        }),
{
}

/// A service is published under its UUID, as primary exactly if it is described so, with the
/// choice of its own handle left to BlueZ.
pub proof fn law_service_base(
    before: ApplicationFactory,
    spec: GattService,
    after: ApplicationFactory,
    service: Service,
)
    requires
        exists|factory: &mut ApplicationFactory| #[trigger]
            call_ensures(ApplicationFactory::new_service_base, (factory, &spec), service)
                && *factory == before && *final(factory) == after,
    ensures
        after == before,
        service.uuid == spec.uuid.value(),
        service.primary <==> spec.service_type == GattServiceType::Primary,
        service.handle is None,
        service.characteristics@.len() == 0,
{
    assert(service@.characteristics.len() == 0);
}

/// How many attributes come before characteristic `c` of service `s`, when they are counted one
/// by one: each characteristic counts for itself and for its descriptors.
pub open spec fn position(services: Seq<GattService>, s: int, c: int) -> int
    decreases s, c,
{
    if s < 0 || c < 0 {
        0
    } else if c > 0 {
        position(services, s, c - 1) + 1 + services[s].characteristics@[c - 1].descriptors@.len()
    } else if s > 0 {
        position(services, s - 1, services[s - 1].characteristics@.len() as int)
    } else {
        0
    }
}

proof fn lemma_position(services: Seq<GattService>, s: int, c: int)
    requires
        0 <= s < services.len(),
        0 <= c <= services[s].characteristics@.len(),
    ensures
        position(services, s, c) == attributes_before(services, s, c),
    decreases s, c,
{
    let cs = services[s].characteristics@;
    if c > 0 {
        lemma_position(services, s, c - 1);
        assert(cs.take(c).drop_last() =~= cs.take(c - 1));
    } else {
        assert(cs.take(0).len() == 0);
        if s > 0 {
            lemma_position(services, s - 1, services[s - 1].characteristics@.len() as int);
            let previous = services[s - 1].characteristics@;
            assert(previous.take(previous.len() as int) =~= previous);
            assert(services.take(s).drop_last() =~= services.take(s - 1));
        }
    }
}

proof fn lemma_position_of_end(services: Seq<GattService>)
    ensures
        position(services, services.len() as int, 0) == attributes(services).len(),
{
    if services.len() > 0 {
        let s = services.len() - 1;
        let cs = services[s].characteristics@;
        lemma_position(services, s, cs.len() as int);
        assert(cs.take(cs.len() as int) =~= cs);
        assert(services.drop_last() =~= services.take(s));
    }
}

/// Finds attribute `k`: characteristic `c` of service `s` itself where `d` is -1, and otherwise
/// its descriptor `d`.
proof fn locate(services: Seq<GattService>, s: int, c: int, k: int) -> (at: (int, int, int))
    requires
        0 <= s <= services.len(),
        s < services.len() ==> 0 <= c <= services[s].characteristics@.len(),
        s == services.len() ==> c == 0,
        0 <= k < position(services, s, c),
    ensures
        0 <= at.0 < services.len(),
        0 <= at.1 < services[at.0].characteristics@.len(),
        -1 <= at.2 < services[at.0].characteristics@[at.1].descriptors@.len(),
        k == position(services, at.0, at.1) + 1 + at.2,
    decreases s, c,
{
    if c > 0 {
        let before = position(services, s, c - 1);
        if k >= before {
            (s, c - 1, k - before - 1)
        } else {
            locate(services, s, c - 1, k)
        }
    } else {
        assert(s > 0);
        locate(services, s - 1, services[s - 1].characteristics@.len() as int, k)
    }
}

/// What stands at the places of a characteristic and of its descriptors.
proof fn lemma_at_position(services: Seq<GattService>, s: int, c: int)
    requires
        0 <= s < services.len(),
        0 <= c < services[s].characteristics@.len(),
    ensures
        ({
            let all = attributes(services);
            let spec = services[s].characteristics@[c];
            let at = position(services, s, c);
            &&& 0 <= at
            &&& at + 1 + spec.descriptors@.len() <= all.len()
            &&& all[at].uuid == spec.uuid
            &&& all[at].error == characteristic_error(spec)
            &&& forall|d: int| #![trigger spec.descriptors@[d]]
                0 <= d < spec.descriptors@.len() ==> {
                    &&& all[at + 1 + d].uuid == spec.descriptors@[d].uuid
                    &&& all[at + 1 + d].error == descriptor_error(spec.descriptors@[d])
                }
        }),
{
    let all = attributes(services);
    let spec = services[s].characteristics@[c];
    let own = characteristic_attributes(spec);
    let at = position(services, s, c);
    lemma_position(services, s, c);
    lemma_attributes_of_characteristic(services, s, c);
    assert(all[at + 0] == own[0]);
    assert forall|d: int| #![trigger spec.descriptors@[d]]
        0 <= d < spec.descriptors@.len() implies {
        &&& all[at + 1 + d].uuid == spec.descriptors@[d].uuid
        &&& all[at + 1 + d].error == descriptor_error(spec.descriptors@[d])
    } by {
        assert(all[at + (1 + d)] == own[1 + d]);
    }
}

/// Attribute number `n` of an application, counted from 0, has the handle `n + 1`, and the
/// mapping tells it beside the UUID of that attribute. There are no handles but these.
pub proof fn law_mapping_in_order(
    services: &[GattService],
    res: Result<ApplicationHolder, Error>,
    s: int,
    c: int,
)
    requires
        call_ensures(ApplicationFactory::convert, (services,), res),
        position(services@, services@.len() as int, 0) <= 65534,
        0 <= s < services@.len(),
        0 <= c < services@[s].characteristics@.len(),
    ensures
        res matches Ok(holder) ==> {
            let mapping = holder.handle_mapping@;
            let spec = services@[s].characteristics@[c];
            let at = position(services@, s, c);
            &&& mapping.len() == position(services@, services@.len() as int, 0)
            &&& forall|n: int| 0 <= n < mapping.len() ==> (#[trigger] mapping[n]).1.0 == n + 1
            &&& 0 <= at && at + spec.descriptors@.len() < mapping.len()
            &&& mapping[at].0 == spec.uuid
            &&& forall|d: int| #![trigger spec.descriptors@[d]]
                0 <= d < spec.descriptors@.len() ==> mapping[at + 1 + d].0
                    == spec.descriptors@[d].uuid
        },
{
    lemma_position_of_end(services@);
    lemma_at_position(services@, s, c);
}

/// All services are published, in their order, with all their characteristics.
pub proof fn law_services_published(
    services: &[GattService],
    res: Result<ApplicationHolder, Error>,
    s: int,
)
    requires
        call_ensures(ApplicationFactory::convert, (services,), res),
        0 <= s < services@.len(),
    ensures
        res matches Ok(holder) ==> {
            let spec = services@[s];
            let service = holder.app.services@[s];
            &&& holder.app.services@.len() == services@.len()
            &&& service.uuid == spec.uuid.value()
            &&& service.primary <==> spec.service_type == GattServiceType::Primary
            &&& service.handle is None
            &&& service.characteristics@.len() == spec.characteristics@.len()
        },
{
    if let Ok(holder) = res {
        lemma_service_of(services, holder, s);
    }
}

proof fn lemma_service_of(services: &[GattService], holder: ApplicationHolder, s: int)
    requires
        holder.app@ == application_view(services@),
        0 <= s < services@.len(),
    ensures
        holder.app.services@.len() == services@.len(),
        holder.app.services@[s]@ == service_view(
            services@[s],
            attributes(services@.take(s)).len(),
        ),
        holder.app.services@[s].characteristics@.len() == services@[s].characteristics@.len(),
{
    assert(holder.app@.len() == application_view(services@).len());
    assert(holder.app@[s] == application_view(services@)[s]);
    assert(holder.app.services@[s]@ == holder.app@[s]);
    assert(holder.app.services@[s]@.characteristics.len()
        == holder.app.services@[s].characteristics@.len());
}

proof fn lemma_characteristic_of(
    services: &[GattService],
    holder: ApplicationHolder,
    s: int,
    c: int,
)
    requires
        holder.app@ == application_view(services@),
        0 <= s < services@.len(),
        0 <= c < services@[s].characteristics@.len(),
    ensures
        holder.app.services@[s].characteristics@[c]@ == characteristic_view(
            services@[s].characteristics@[c],
            position(services@, s, c) as nat,
        ),
        position(services@, s, c) >= 0,
        position(services@, s, c) + services@[s].characteristics@[c].descriptors@.len() < position(
            services@,
            services@.len() as int,
            0,
        ),
{
    lemma_service_of(services, holder, s);
    lemma_position(services@, s, c);
    lemma_position_of_end(services@);
    lemma_at_position(services@, s, c);
    let service = holder.app.services@[s];
    assert(service@.characteristics[c] == service.characteristics@[c]@);
}

/// A published characteristic has each operation for its own properties, and each flag for its
/// own property or permission, whatever else it has and wherever it stands. All its operations
/// name the handle that goes with its place.
pub proof fn law_characteristic_published(
    services: &[GattService],
    res: Result<ApplicationHolder, Error>,
    s: int,
    c: int,
)
    requires
        call_ensures(ApplicationFactory::convert, (services,), res),
        position(services@, services@.len() as int, 0) <= 65534,
        0 <= s < services@.len(),
        0 <= c < services@[s].characteristics@.len(),
    ensures
        res matches Ok(holder) ==> {
            let spec = services@[s].characteristics@[c];
            let props = spec.properties@;
            let perms = spec.permissions@;
            let published = holder.app.services@[s].characteristics@[c];
            &&& published.uuid == spec.uuid.value()
            &&& published.broadcast == props.contains(GattCharacteristicProperty::Broadcast)
            &&& !published.authorize && !published.writable_auxiliaries
            &&& published.descriptors@.len() == spec.descriptors@.len()
            &&& published.read is Some <==> props.contains(GattCharacteristicProperty::Read)
            &&& published.read matches Some(op) ==> {
                &&& op.read == perms.contains(GattCharacteristicPermission::Read)
                &&& op.encrypt_read == perms.contains(GattCharacteristicPermission::ReadEncrypted)
                &&& op.handle.0 == position(services@, s, c) + 1
            }
            &&& published.write is Some <==> props.contains(GattCharacteristicProperty::Write)
                || props.contains(GattCharacteristicProperty::WriteSigned) || props.contains(
                GattCharacteristicProperty::WriteNoResponse,
            )
            &&& published.write matches Some(op) ==> {
                &&& op.write == perms.contains(GattCharacteristicPermission::Write)
                &&& op.encrypt_write == perms.contains(GattCharacteristicPermission::WriteEncrypted)
                &&& op.write_without_response == props.contains(
                    GattCharacteristicProperty::WriteNoResponse,
                )
                &&& op.authenticated_signed_writes == props.contains(
                    GattCharacteristicProperty::WriteSigned,
                )
                &&& op.handle.0 == position(services@, s, c) + 1
            }
            &&& published.notify is Some <==> props.contains(GattCharacteristicProperty::Notify)
                || props.contains(GattCharacteristicProperty::Indicate)
            &&& published.notify matches Some(op) ==> {
                &&& op.notify == props.contains(GattCharacteristicProperty::Notify)
                &&& op.indicate == props.contains(GattCharacteristicProperty::Indicate)
                &&& op.handle.0 == position(services@, s, c) + 1
            }
        },
{
    if let Ok(holder) = res {
        lemma_characteristic_of(services, holder, s, c);
        let published = holder.app.services@[s].characteristics@[c];
        assert(published@.descriptors.len() == published.descriptors@.len());
    }
}

/// A published descriptor can be read, or written to, exactly if a permission for it is there,
/// and each flag has its own permission. Its operations name the handle that goes with its place.
pub proof fn law_descriptor_published(
    services: &[GattService],
    res: Result<ApplicationHolder, Error>,
    s: int,
    c: int,
    d: int,
)
    requires
        call_ensures(ApplicationFactory::convert, (services,), res),
        position(services@, services@.len() as int, 0) <= 65534,
        0 <= s < services@.len(),
        0 <= c < services@[s].characteristics@.len(),
        0 <= d < services@[s].characteristics@[c].descriptors@.len(),
    ensures
        res matches Ok(holder) ==> {
            let spec = services@[s].characteristics@[c].descriptors@[d];
            let perms = spec.permissions@;
            let published = holder.app.services@[s].characteristics@[c].descriptors@[d];
            &&& published.uuid == spec.uuid.value()
            &&& published.read is Some <==> perms.contains(GattDescriptorPermission::Read)
                || perms.contains(GattDescriptorPermission::ReadEncrypted)
            &&& published.read matches Some(op) ==> {
                &&& op.read == perms.contains(GattDescriptorPermission::Read)
                &&& op.encrypt_read == perms.contains(GattDescriptorPermission::ReadEncrypted)
                &&& op.handle.0 == position(services@, s, c) + 1 + d + 1
            }
            &&& published.write is Some <==> perms.contains(GattDescriptorPermission::Write)
                || perms.contains(GattDescriptorPermission::WriteEncrypted)
            &&& published.write matches Some(op) ==> {
                &&& op.write == perms.contains(GattDescriptorPermission::Write)
                &&& op.encrypt_write == perms.contains(GattDescriptorPermission::WriteEncrypted)
                &&& op.handle.0 == position(services@, s, c) + 1 + d + 1
            }
        },
{
    if let Ok(holder) = res {
        lemma_characteristic_of(services, holder, s, c);
        lemma_at_position(services@, s, c);
        let all = attributes(services@);
        let spec = services@[s].characteristics@[c].descriptors@[d];
        assert(all[position(services@, s, c) + 1 + d].error == descriptor_error(spec));
        let published = holder.app.services@[s].characteristics@[c];
        assert(published@.descriptors[d] == published.descriptors@[d]);
    }
}

/// An application is published exactly if none of its characteristics and descriptors has a
/// permission that BlueZ cannot enforce.
pub proof fn law_publication_succeeds(
    services: &[GattService],
    res: Result<ApplicationHolder, Error>,
)
    requires
        call_ensures(ApplicationFactory::convert, (services,), res),
    ensures
        res is Ok <==> forall|s: int, c: int|
            #![trigger services@[s].characteristics@[c]]
            0 <= s < services@.len() && 0 <= c < services@[s].characteristics@.len() ==> {
                let spec = services@[s].characteristics@[c];
                &&& !spec.permissions@.contains(GattCharacteristicPermission::WriteEncryptedMitm)
                &&& !spec.permissions@.contains(GattCharacteristicPermission::WriteSigned)
                &&& !spec.permissions@.contains(GattCharacteristicPermission::WriteSignedMitm)
                &&& forall|d: int| #![trigger spec.descriptors@[d]]
                    0 <= d < spec.descriptors@.len() ==> {
                        let perms = spec.descriptors@[d].permissions@;
                        &&& !perms.contains(GattDescriptorPermission::WriteEncryptedMitm)
                        &&& !perms.contains(GattDescriptorPermission::WriteSigned)
                        &&& !perms.contains(GattDescriptorPermission::WriteSignedMitm)
                    }
            },
{
    law_published_iff_supported(services@);
    if res is Ok {
        assert forall|s: int, c: int|
            #![trigger services@[s].characteristics@[c]]
            0 <= s < services@.len() && 0 <= c < services@[s].characteristics@.len() implies {
            let spec = services@[s].characteristics@[c];
            &&& !spec.permissions@.contains(GattCharacteristicPermission::WriteEncryptedMitm)
            &&& !spec.permissions@.contains(GattCharacteristicPermission::WriteSigned)
            &&& !spec.permissions@.contains(GattCharacteristicPermission::WriteSignedMitm)
            &&& forall|d: int| #![trigger spec.descriptors@[d]]
                0 <= d < spec.descriptors@.len() ==> {
                    let perms = spec.descriptors@[d].permissions@;
                    &&& !perms.contains(GattDescriptorPermission::WriteEncryptedMitm)
                    &&& !perms.contains(GattDescriptorPermission::WriteSigned)
                    &&& !perms.contains(GattDescriptorPermission::WriteSignedMitm)
                }
        } by {
            assert(service_supported(services@[s]));
        }
    }
}

/// An application that is not published is refused for its first attribute that has to be: the
/// error is the one of that characteristic or descriptor, and none that gets its handle earlier
/// is refused.
pub proof fn law_first_refusal_told(
    services: &[GattService],
    res: Result<ApplicationHolder, Error>,
)
    requires
        call_ensures(ApplicationFactory::convert, (services,), res),
    ensures
        res matches Err(e) ==> exists|s: int, c: int, d: int|
            #![trigger services@[s].characteristics@[c].descriptors@[d]]
            {
                let spec = services@[s].characteristics@[c];
                &&& 0 <= s < services@.len()
                &&& 0 <= c < services@[s].characteristics@.len()
                &&& -1 <= d < spec.descriptors@.len()
                &&& d == -1 ==> characteristic_error(spec) == Some(e.message@)
                &&& d >= 0 ==> descriptor_error(spec.descriptors@[d]) == Some(e.message@)
                &&& forall|s2: int, c2: int|
                    #![trigger services@[s2].characteristics@[c2]]
                    0 <= s2 < services@.len() && 0 <= c2 < services@[s2].characteristics@.len()
                        && position(services@, s2, c2) < position(services@, s, c) + 1 + d
                        ==> characteristic_error(services@[s2].characteristics@[c2]) is None
                &&& forall|s2: int, c2: int, d2: int|
                    #![trigger services@[s2].characteristics@[c2].descriptors@[d2]]
                    0 <= s2 < services@.len() && 0 <= c2 < services@[s2].characteristics@.len()
                        && 0 <= d2 < services@[s2].characteristics@[c2].descriptors@.len()
                        && position(services@, s2, c2) + d2 < position(services@, s, c) + d
                        ==> descriptor_error(
                        services@[s2].characteristics@[c2].descriptors@[d2],
                    ) is None
            },
{
    if let Err(e) = res {
        let all = attributes(services@);
        let k = choose|k: int| #[trigger] first_error_at(all, k, e.message@);
        lemma_position_of_end(services@);
        let (s, c, d) = locate(services@, services@.len() as int, 0, k);
        lemma_at_position(services@, s, c);
        let spec = services@[s].characteristics@[c];
        if d >= 0 {
            assert(all[position(services@, s, c) + 1 + d].error == descriptor_error(
                spec.descriptors@[d],
            ));
        }
        assert forall|s2: int, c2: int|
            #![trigger services@[s2].characteristics@[c2]]
            0 <= s2 < services@.len() && 0 <= c2 < services@[s2].characteristics@.len()
                && position(services@, s2, c2) < k implies characteristic_error(
            services@[s2].characteristics@[c2],
        ) is None by {
            lemma_at_position(services@, s2, c2);
            assert(all.take(k)[position(services@, s2, c2)].error is None);
        }
        assert forall|s2: int, c2: int, d2: int|
            #![trigger services@[s2].characteristics@[c2].descriptors@[d2]]
            0 <= s2 < services@.len() && 0 <= c2 < services@[s2].characteristics@.len() && 0 <= d2
                < services@[s2].characteristics@[c2].descriptors@.len() && position(
                services@,
                s2,
                c2,
            ) + d2 < position(services@, s, c) + d implies descriptor_error(
            services@[s2].characteristics@[c2].descriptors@[d2],
        ) is None by {
            lemma_at_position(services@, s2, c2);
            let at = position(services@, s2, c2) + 1 + d2;
            assert(all[at].error == descriptor_error(
                services@[s2].characteristics@[c2].descriptors@[d2],
            ));
            assert(all.take(k)[at].error is None);
        }
        let witness = services@[s].characteristics@[c].descriptors@[d];
    }
}

/// Handles suffice exactly if there are at most 65534 attributes, or one of the first 65534 is
/// refused.
pub proof fn law_handles_suffice(services: &[GattService], r: bool)
    requires
        call_ensures(handles_suffice, (services,), r),
    ensures
        position(services@, services@.len() as int, 0) <= 65534 ==> r,
        forall|s: int, c: int|
            #![trigger services@[s].characteristics@[c]]
            0 <= s < services@.len() && 0 <= c < services@[s].characteristics@.len() && position(
                services@,
                s,
                c,
            ) < 65534 && characteristic_error(services@[s].characteristics@[c]) is Some ==> r,
        forall|s: int, c: int, d: int|
            #![trigger services@[s].characteristics@[c].descriptors@[d]]
            0 <= s < services@.len() && 0 <= c < services@[s].characteristics@.len() && 0 <= d
                < services@[s].characteristics@[c].descriptors@.len() && position(services@, s, c)
                + 1 + d < 65534 && descriptor_error(
                services@[s].characteristics@[c].descriptors@[d],
            ) is Some ==> r,
        r ==> position(services@, services@.len() as int, 0) <= 65534 || exists|
            s: int,
            c: int,
            d: int,
        |
            #![trigger services@[s].characteristics@[c].descriptors@[d]]
            {
                let spec = services@[s].characteristics@[c];
                &&& 0 <= s < services@.len()
                &&& 0 <= c < services@[s].characteristics@.len()
                &&& -1 <= d < spec.descriptors@.len()
                &&& position(services@, s, c) + 1 + d < 65534
                &&& d == -1 ==> characteristic_error(spec) is Some
                &&& d >= 0 ==> descriptor_error(spec.descriptors@[d]) is Some
            },
{
    let all = attributes(services@);
    lemma_position_of_end(services@);
    assert forall|s: int, c: int|
        #![trigger services@[s].characteristics@[c]]
        0 <= s < services@.len() && 0 <= c < services@[s].characteristics@.len() && position(
            services@,
            s,
            c,
        ) < 65534 && characteristic_error(services@[s].characteristics@[c]) is Some implies r by {
        lemma_at_position(services@, s, c);
        assert(all[position(services@, s, c)].error is Some);
    }
    assert forall|s: int, c: int, d: int|
        #![trigger services@[s].characteristics@[c].descriptors@[d]]
        0 <= s < services@.len() && 0 <= c < services@[s].characteristics@.len() && 0 <= d
            < services@[s].characteristics@[c].descriptors@.len() && position(services@, s, c) + 1
            + d < 65534 && descriptor_error(
            services@[s].characteristics@[c].descriptors@[d],
        ) is Some implies r by {
        lemma_at_position(services@, s, c);
        assert(all[position(services@, s, c) + 1 + d].error == descriptor_error(
            services@[s].characteristics@[c].descriptors@[d],
        ));
    }
    if r && all.len() > 65534 {
        assert(fits(0, all));
        let k = choose|k: int|
            0 <= k < all.len() && 0 + k < 65534 && (#[trigger] all[k]).error is Some;
        let (s, c, d) = locate(services@, services@.len() as int, 0, k);
        lemma_at_position(services@, s, c);
        let witness = services@[s].characteristics@[c].descriptors@[d];
    }
}

/// Whatever is described can be handed to the factory, and to the device, as long as there are at
/// most 65534 attributes; and so can more, where handles were found to suffice.
pub proof fn law_any_description_taken<A, S>(
    device: BluerPeripheral<A>,
    services: &[GattService],
    tx: S,
)
    ensures
        position(services@, services@.len() as int, 0) <= 65534 ==> {
            &&& call_requires(ApplicationFactory::convert, (services,))
            &&& call_requires(
                BluerPeripheral::<A>::configure_gatt_server::<S>,
                (device, services, tx),
            )
        },
        call_ensures(handles_suffice, (services,), true) ==> {
            &&& call_requires(ApplicationFactory::convert, (services,))
            &&& call_requires(
                BluerPeripheral::<A>::configure_gatt_server::<S>,
                (device, services, tx),
            )
        },
{
    lemma_position_of_end(services@);
}

/// A server is configured exactly if its services can be published. It gets the adapter and the
/// identity of its device, publishes what the factory makes of the services, and advertises the
/// UUIDs of these services and of no others.
pub proof fn law_server_configured<A, S>(
    device: BluerPeripheral<A>,
    services: &[GattService],
    tx: S,
    res: Result<ServerSetup<A, S>, Error>,
    published: Result<ApplicationHolder, Error>,
)
    requires
        call_ensures(BluerPeripheral::<A>::configure_gatt_server::<S>, (device, services, tx), res),
        call_ensures(ApplicationFactory::convert, (services,), published),
    ensures
        res is Ok <==> published is Ok,
        res matches Err(e) ==> (published matches Err(e2) && e.message@ == e2.message@),
        res matches Ok(setup) ==> {
            &&& setup.adapter == device.adapter
            &&& setup.advertiser.tx == tx
            &&& *setup.advertiser.ident == device.ident
            &&& forall|uuid: u128| #[trigger]
                setup.advertiser.service_uuids@.contains(uuid) <==> exists|s: int|
                    0 <= s < services@.len() && (#[trigger] services@[s]).uuid.value() == uuid
            &&& published matches Ok(holder) && setup.app_holder.app@ == holder.app@
                && setup.app_holder.handle_mapping@ == holder.handle_mapping@
        },
{
    let all = attributes(services@);
    if let Err(e) = res {
        if let Err(e2) = published {
            let k = choose|k: int| #[trigger] first_error_at(all, k, e.message@);
            let k2 = choose|k: int| #[trigger] first_error_at(all, k, e2.message@);
            if k < k2 {
                assert(all.take(k2)[k].error is None);
            } else if k2 < k {
                assert(all.take(k)[k2].error is None);
            }
        }
    }
    if let Ok(setup) = res {
        let values = services@.map_values(|s: GattService| s.uuid.value());
        assert forall|uuid: u128| #[trigger]
            setup.advertiser.service_uuids@.contains(uuid) implies exists|s: int|
            0 <= s < services@.len() && (#[trigger] services@[s]).uuid.value() == uuid by {
            let s = choose|s: int| 0 <= s < values.len() && values[s] == uuid;
            assert(services@[s].uuid.value() == uuid);
        }
        assert forall|uuid: u128|
            (exists|s: int|
                0 <= s < services@.len() && (#[trigger] services@[s]).uuid.value()
                    == uuid) implies #[trigger] setup.advertiser.service_uuids@.contains(uuid) by {
            let s = choose|s: int|
                0 <= s < services@.len() && (#[trigger] services@[s]).uuid.value() == uuid;
            assert(values[s] == uuid);
        }
    }
}

} // verus!
