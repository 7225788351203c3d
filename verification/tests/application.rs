use bluer_ble_peripheral::application_factory::{
    handles_suffice, ApplicationFactory, HandleAllocator,
};
use bluer_ble_peripheral::descriptors::{
    AttributeHandle, GattCharacteristic, GattCharacteristicPermission, GattCharacteristicProperty,
    GattDescriptor, GattDescriptorPermission, GattService, GattServiceType,
};
use bluer_ble_peripheral::err_util::generic_err;
use bluer_ble_peripheral::uuid_util::{convert_uuid, UUID};

fn characteristic(
    uuid: u128,
    properties: &[GattCharacteristicProperty],
    permissions: &[GattCharacteristicPermission],
    descriptors: Vec<GattDescriptor>,
) -> GattCharacteristic {
    GattCharacteristic {
        uuid: UUID::Long(uuid),
        properties: properties.to_vec(),
        permissions: permissions.to_vec(),
        descriptors,
    }
}

fn descriptor(uuid: u128, permissions: &[GattDescriptorPermission]) -> GattDescriptor {
    GattDescriptor { uuid: UUID::Long(uuid), permissions: permissions.to_vec() }
}

fn service(uuid: u128, characteristics: Vec<GattCharacteristic>) -> GattService {
    GattService {
        uuid: UUID::Long(uuid),
        service_type: GattServiceType::Primary,
        characteristics,
    }
}

#[test]
fn handles_count_from_one() {
    let mut allocator = HandleAllocator::new();
    assert_eq!(allocator.next(UUID::Long(7)), AttributeHandle(1));
    assert_eq!(allocator.next(UUID::Short(7)), AttributeHandle(2));
    assert_eq!(allocator.next(UUID::Long(7)), AttributeHandle(3));
    assert_eq!(
        allocator.into_mapping(),
        vec![
            (UUID::Long(7), AttributeHandle(1)),
            (UUID::Short(7), AttributeHandle(2)),
            (UUID::Long(7), AttributeHandle(3)),
        ]
    );
}

#[test]
fn uuids() {
    assert_eq!(convert_uuid(UUID::Short(0x180f)), 0x0000180f_0000_1000_8000_00805f9b34fb);
    assert_eq!(convert_uuid(UUID::Short(0)), 0x00000000_0000_1000_8000_00805f9b34fb);
    assert_eq!(UUID::Short(0xffff).as_u128(), 0x0000ffff_0000_1000_8000_00805f9b34fb);
    assert_eq!(convert_uuid(UUID::Long(0xFEEDC0DE)), 0xFEEDC0DE);
}

#[test]
fn errors_tell_their_message() {
    assert_eq!(generic_err("unsubscribed").message, "unsubscribed");
}

#[test]
fn echo_service() {
    let services = [service(
        0xFEEDC0DE,
        vec![characteristic(
            0xF00DC0DE00001,
            &[GattCharacteristicProperty::Read, GattCharacteristicProperty::Write],
            &[GattCharacteristicPermission::Read, GattCharacteristicPermission::Write],
            vec![],
        )],
    )];
    let holder = ApplicationFactory::convert(&services).unwrap();
    assert_eq!(holder.handle_mapping, vec![(UUID::Long(0xF00DC0DE00001), AttributeHandle(1))]);
    assert_eq!(holder.app.services.len(), 1);
    let published = &holder.app.services[0];
    assert_eq!(published.uuid, 0xFEEDC0DE);
    assert_eq!(published.handle, None);
    assert!(published.primary);
    let c = &published.characteristics[0];
    assert_eq!(c.uuid, 0xF00DC0DE00001);
    assert!(!c.broadcast && !c.authorize && !c.writable_auxiliaries);
    let read = c.read.unwrap();
    assert!(read.read && !read.encrypt_read);
    assert_eq!(read.handle, AttributeHandle(1));
    let write = c.write.unwrap();
    assert!(write.write && !write.encrypt_write);
    assert!(!write.write_without_response && !write.authenticated_signed_writes);
    assert_eq!(write.handle, AttributeHandle(1));
    assert!(c.notify.is_none());
}

#[test]
fn operations_follow_properties() {
    let services = [GattService {
        uuid: UUID::Short(0x180f),
        service_type: GattServiceType::Secondary,
        characteristics: vec![
            characteristic(1, &[GattCharacteristicProperty::Broadcast], &[], vec![]),
            characteristic(
                2,
                &[GattCharacteristicProperty::WriteSigned],
                &[GattCharacteristicPermission::WriteEncrypted, GattCharacteristicPermission::Read],
                vec![],
            ),
            characteristic(
                3,
                &[GattCharacteristicProperty::WriteNoResponse, GattCharacteristicProperty::Read],
                &[GattCharacteristicPermission::ReadEncrypted],
                vec![],
            ),
            characteristic(4, &[GattCharacteristicProperty::Notify], &[], vec![]),
            characteristic(5, &[GattCharacteristicProperty::Indicate], &[], vec![]),
            characteristic(
                6,
                &[GattCharacteristicProperty::Indicate, GattCharacteristicProperty::Notify],
                &[],
                vec![],
            ),
        ],
    }];
    let holder = ApplicationFactory::convert(&services).unwrap();
    let published = &holder.app.services[0];
    assert!(!published.primary);
    assert_eq!(published.uuid, 0x0000180f_0000_1000_8000_00805f9b34fb);
    let cs = &published.characteristics;
    assert!(cs[0].broadcast && cs[0].read.is_none() && cs[0].write.is_none());
    assert!(cs[0].notify.is_none());

    assert!(!cs[1].broadcast && cs[1].read.is_none());
    let write = cs[1].write.unwrap();
    assert!(write.encrypt_write && write.authenticated_signed_writes);
    assert!(!write.write && !write.write_without_response);
    assert_eq!(write.handle, AttributeHandle(2));

    let write = cs[2].write.unwrap();
    assert!(write.write_without_response && !write.authenticated_signed_writes);
    assert!(!write.write && !write.encrypt_write);
    let read = cs[2].read.unwrap();
    assert!(read.encrypt_read && !read.read);

    let notify = cs[3].notify.unwrap();
    assert!(notify.notify && !notify.indicate);
    assert_eq!(notify.handle, AttributeHandle(4));
    let notify = cs[4].notify.unwrap();
    assert!(!notify.notify && notify.indicate);
    let notify = cs[5].notify.unwrap();
    assert!(notify.notify && notify.indicate);
}

#[test]
fn descriptors_follow_permissions() {
    let services = [service(
        1,
        vec![characteristic(
            10,
            &[],
            &[],
            vec![
                descriptor(11, &[]),
                descriptor(12, &[GattDescriptorPermission::ReadEncrypted]),
                descriptor(
                    13,
                    &[
                        GattDescriptorPermission::Read,
                        GattDescriptorPermission::Write,
                        GattDescriptorPermission::WriteEncrypted,
                    ],
                ),
            ],
        )],
    )];
    let holder = ApplicationFactory::convert(&services).unwrap();
    let ds = &holder.app.services[0].characteristics[0].descriptors;
    assert_eq!(ds.len(), 3);
    assert!(ds[0].read.is_none() && ds[0].write.is_none());
    let read = ds[1].read.unwrap();
    assert!(!read.read && read.encrypt_read);
    assert_eq!(read.handle, AttributeHandle(3));
    assert!(ds[1].write.is_none());
    let read = ds[2].read.unwrap();
    assert!(read.read && !read.encrypt_read);
    let write = ds[2].write.unwrap();
    assert!(write.write && write.encrypt_write);
    assert_eq!(write.handle, AttributeHandle(4));
    assert_eq!(ds[2].uuid, 13);
}

#[test]
fn characteristics_come_before_their_descriptors() {
    let services = [
        service(
            1,
            vec![
                characteristic(10, &[], &[], vec![descriptor(11, &[]), descriptor(12, &[])]),
                characteristic(20, &[GattCharacteristicProperty::Read], &[], vec![]),
            ],
        ),
        service(
            2,
            vec![characteristic(
                30,
                &[GattCharacteristicProperty::Write],
                &[],
                vec![descriptor(31, &[GattDescriptorPermission::Read])],
            )],
        ),
    ];
    let holder = ApplicationFactory::convert(&services).unwrap();
    let wanted: Vec<_> = [10, 11, 12, 20, 30, 31]
        .iter()
        .enumerate()
        .map(|(i, uuid)| (UUID::Long(*uuid), AttributeHandle(i as u16 + 1)))
        .collect();
    assert_eq!(holder.handle_mapping, wanted);
    let first = &holder.app.services[0].characteristics;
    assert_eq!(first[1].read.unwrap().handle, AttributeHandle(4));
    let second = &holder.app.services[1].characteristics;
    assert_eq!(second[0].write.unwrap().handle, AttributeHandle(5));
    assert_eq!(second[0].descriptors[0].read.unwrap().handle, AttributeHandle(6));
}

#[test]
fn unsupported_permissions_are_refused() {
    let cases = [
        (
            GattCharacteristicPermission::WriteEncryptedMitm,
            GattDescriptorPermission::WriteEncryptedMitm,
            "write encrypted mitm not supported",
        ),
        (
            GattCharacteristicPermission::WriteSigned,
            GattDescriptorPermission::WriteSigned,
            "write signed not supported",
        ),
        (
            GattCharacteristicPermission::WriteSignedMitm,
            GattDescriptorPermission::WriteSignedMitm,
            "write signed mitm not supported",
        ),
    ];
    for (c_perm, d_perm, message) in cases {
        let c = characteristic(1, &[], &[GattCharacteristicPermission::Read, c_perm], vec![]);
        let e = ApplicationFactory::convert(&[service(1, vec![c])]).unwrap_err();
        assert_eq!(e.message, message);
        let d = descriptor(2, &[GattDescriptorPermission::Write, d_perm]);
        let c = characteristic(1, &[], &[], vec![d]);
        let e = ApplicationFactory::convert(&[service(1, vec![c])]).unwrap_err();
        assert_eq!(e.message, message);
    }
}

#[test]
fn first_refused_attribute_counts() {
    let services = [
        service(1, vec![characteristic(1, &[], &[], vec![])]),
        service(
            2,
            vec![
                characteristic(
                    2,
                    &[],
                    &[],
                    vec![descriptor(3, &[GattDescriptorPermission::WriteSigned])],
                ),
                characteristic(4, &[], &[GattCharacteristicPermission::WriteSignedMitm], vec![]),
            ],
        ),
    ];
    let e = ApplicationFactory::convert(&services).unwrap_err();
    assert_eq!(e.message, "write signed not supported");
}

#[test]
fn handles_run_out() {
    let mut descriptors: Vec<_> = (0..65533).map(|i| descriptor(i, &[])).collect();
    let services = [service(1, vec![characteristic(1, &[], &[], descriptors)])];
    assert!(handles_suffice(&services));
    let holder = ApplicationFactory::convert(&services).unwrap();
    assert_eq!(holder.handle_mapping.len(), 65534);
    assert_eq!(holder.handle_mapping[65533].1, AttributeHandle(65534));

    descriptors = (0..65534).map(|i| descriptor(i, &[])).collect();
    let mut services = [service(1, vec![characteristic(1, &[], &[], descriptors)])];
    assert!(!handles_suffice(&services));
    let ds = &mut services[0].characteristics[0].descriptors;
    ds[65533].permissions.push(GattDescriptorPermission::WriteSigned);
    assert!(!handles_suffice(&services));
    let ds = &mut services[0].characteristics[0].descriptors;
    ds[65532].permissions.push(GattDescriptorPermission::WriteSigned);
    assert!(handles_suffice(&services));
    let e = ApplicationFactory::convert(&services).unwrap_err();
    assert_eq!(e.message, "write signed not supported");
}

#[test]
fn handles_suffice_for_nothing() {
    assert!(handles_suffice(&[]));
    let holder = ApplicationFactory::convert(&[]).unwrap();
    assert!(holder.app.services.is_empty());
    assert!(holder.handle_mapping.is_empty());
}

#[test]
fn short_forms_stand_for_distinct_uuids() {
    let values: std::collections::BTreeSet<u128> =
        (0..=u16::MAX).map(|v| convert_uuid(UUID::Short(v))).collect();
    assert_eq!(values.len(), 65536);
}

#[test]
fn lists_stand_for_sets() {
    let a = characteristic(
        1,
        &[GattCharacteristicProperty::Read, GattCharacteristicProperty::Notify],
        &[GattCharacteristicPermission::Read, GattCharacteristicPermission::ReadEncrypted],
        vec![descriptor(
            2,
            &[GattDescriptorPermission::Read, GattDescriptorPermission::Write],
        )],
    );
    let b = characteristic(
        1,
        &[
            GattCharacteristicProperty::Notify,
            GattCharacteristicProperty::Read,
            GattCharacteristicProperty::Notify,
        ],
        &[
            GattCharacteristicPermission::ReadEncrypted,
            GattCharacteristicPermission::ReadEncrypted,
            GattCharacteristicPermission::Read,
        ],
        vec![descriptor(
            2,
            &[GattDescriptorPermission::Write, GattDescriptorPermission::Read],
        )],
    );
    let a = ApplicationFactory::convert(&[service(1, vec![a])]).unwrap();
    let b = ApplicationFactory::convert(&[service(1, vec![b])]).unwrap();
    assert_eq!(format!("{a:?}"), format!("{b:?}"));
}

#[test]
fn order_of_permissions_does_not_matter_to_error() {
    for (perms, message) in [
        (
            [GattCharacteristicPermission::WriteSignedMitm, GattCharacteristicPermission::WriteEncryptedMitm],
            "write encrypted mitm not supported",
        ),
        (
            [GattCharacteristicPermission::WriteSignedMitm, GattCharacteristicPermission::WriteSigned],
            "write signed not supported",
        ),
        (
            [GattCharacteristicPermission::WriteSigned, GattCharacteristicPermission::WriteEncryptedMitm],
            "write encrypted mitm not supported",
        ),
    ] {
        for listed in [[perms[0], perms[1]], [perms[1], perms[0]]] {
            let c = characteristic(1, &[], &listed, vec![]);
            let e = ApplicationFactory::convert(&[service(1, vec![c])]).unwrap_err();
            assert_eq!(e.message, message);
        }
    }

    for (perms, message) in [
        (
            [GattDescriptorPermission::WriteSignedMitm, GattDescriptorPermission::WriteEncryptedMitm],
            "write encrypted mitm not supported",
        ),
        (
            [GattDescriptorPermission::WriteSignedMitm, GattDescriptorPermission::WriteSigned],
            "write signed not supported",
        ),
        (
            [GattDescriptorPermission::WriteSigned, GattDescriptorPermission::WriteEncryptedMitm],
            "write encrypted mitm not supported",
        ),
    ] {
        for listed in [[perms[0], perms[1]], [perms[1], perms[0]]] {
            let c = characteristic(1, &[], &[], vec![descriptor(2, &listed)]);
            let e = ApplicationFactory::convert(&[service(1, vec![c])]).unwrap_err();
            assert_eq!(e.message, message);
        }
    }
}

#[test]
fn refused_attribute_keeps_its_handle() {
    let read = [GattCharacteristicProperty::Read];
    let bad = characteristic(
        2,
        &read,
        &[],
        vec![descriptor(3, &[GattDescriptorPermission::WriteSigned]), descriptor(4, &[])],
    );
    let mut factory = ApplicationFactory::new();
    let e = factory
        .new_service(&service(1, vec![characteristic(1, &read, &[], vec![]), bad]))
        .unwrap_err();
    assert_eq!(e.message, "write signed not supported");
    let next = factory.new_characteristic_base(&characteristic(5, &read, &[], vec![])).unwrap();
    assert_eq!(next.read.unwrap().handle.0, 4);
}
