use bluer_ble_peripheral::advertisement::Advertisement;
use bluer_ble_peripheral::att_error::{att_to_req_error, AttError, ReqError};
use bluer_ble_peripheral::connection::{BluerConnection, BluetoothAddress};
use bluer_ble_peripheral::descriptors::{
    AttributeHandle, GattCharacteristic, GattCharacteristicPermission, GattService,
    GattServiceType,
};
use bluer_ble_peripheral::err_util::generic_err;
use bluer_ble_peripheral::event::{
    AdvStartFailedReason, AdvStopReason, Backend, Event, GattServerEvent, Mtu, SystemError,
    WriteAction,
};
use bluer_ble_peripheral::handle::BluerHandle;
use bluer_ble_peripheral::handlers::{
    CharacteristicReadRequest, CharacteristicReadRequestType, CharacteristicWriteRequest,
    CharacteristicWriteRequestType, DescriptorReadRequest, DescriptorReadRequestType,
    DescriptorWriteRequest, DescriptorWriteRequestType, NotifyHandler, NotifyInput, NotifyOutcome,
    NotifyStep, ReadHandler, ReadProgress, WriteHandler,
};
use bluer_ble_peripheral::peripheral::{Action, BluerPeripheral, EventLoop, MtuChangeDetector};
use bluer_ble_peripheral::responder::{BluerResponder, Response};
use bluer_ble_peripheral::uuid_util::UUID;
use bluer_ble_peripheral::writer::BluerWriter;
use std::collections::BTreeSet;

struct TestBackend;

impl Backend for TestBackend {
    type SystemError = &'static str;
    type ApplicationHandle = u32;
    type AdvertisementHandle = u64;
    type Advertiser = char;
    type Responder = i32;
    type Writer = i64;
}

const ADDRESS: BluetoothAddress = BluetoothAddress([1, 2, 3, 4, 5, 6]);

fn event_loop() -> EventLoop<TestBackend> {
    EventLoop::new()
}

fn connection() -> BluerConnection {
    BluerConnection::new(&ADDRESS)
}

fn read(mtu: Option<u16>) -> Event<TestBackend> {
    Event::OnHandleRead { conn: connection(), mtu, handle: AttributeHandle(3), responder: -7 }
}

#[test]
fn server_start() {
    let mut state = event_loop();
    let mapping = vec![(UUID::Long(1), AttributeHandle(1))];
    let actions = state.on_event(Event::OnStartResult(Ok((11, 'a', mapping.clone()))));
    assert_eq!(actions.len(), 1);
    match &actions[0] {
        Action::Callback(GattServerEvent::ServerStarted { advertiser, handle_mapping }) => {
            assert_eq!(*advertiser, 'a');
            assert_eq!(*handle_mapping, mapping);
        }
        _ => panic!("expected a started server"),
    }
    assert_eq!(state.handles.app, Some(11));

    let actions = state.on_event(Event::OnStartResult(Ok((12, 'b', vec![]))));
    assert_eq!(actions.len(), 2);
    assert!(matches!(actions[0], Action::ReleaseApplication(11)));
    assert!(matches!(
        actions[1],
        Action::Callback(GattServerEvent::ServerStarted { advertiser: 'b', .. })
    ));
    assert_eq!(state.handles.app, Some(12));
}

#[test]
fn server_start_failure() {
    let mut state = event_loop();
    let actions = state.on_event(Event::OnStartResult(Err(SystemError::Backend("gone"))));
    assert_eq!(actions.len(), 1);
    assert!(matches!(
        actions[0],
        Action::Callback(GattServerEvent::ServerShutdown { error: SystemError::Backend("gone") })
    ));
    assert_eq!(state.handles.app, None);
}

#[test]
fn advertising_start_and_stop() {
    let mut state = event_loop();
    let mut adv = Advertisement::default();
    adv.appearance = Some(17);
    let actions = state.on_event(Event::RequestAdvStart(adv));
    assert_eq!(actions.len(), 1);
    match &actions[0] {
        Action::Advertise(adv) => assert_eq!(adv.appearance, Some(17)),
        _ => panic!("expected a request to advertise"),
    }
    assert_eq!(state.handles.advertisement, None);

    let actions = state.on_event(Event::OnAdvStartResult(Ok(21)));
    assert_eq!(actions.len(), 1);
    assert!(matches!(
        actions[0],
        Action::Callback(GattServerEvent::AdvertisingStarted { remaining_connections: None })
    ));
    let actions = state.on_event(Event::OnAdvStartResult(Ok(22)));
    assert_eq!(actions.len(), 2);
    assert!(matches!(actions[0], Action::ReleaseAdvertisement(21)));
    assert_eq!(state.handles.advertisement, Some(22));

    let actions = state.on_event(Event::RequestAdvStop);
    assert_eq!(actions.len(), 2);
    assert!(matches!(actions[0], Action::ReleaseAdvertisement(22)));
    assert!(matches!(
        actions[1],
        Action::Callback(GattServerEvent::AdvertisingStopped { reason: AdvStopReason::Requested })
    ));
    assert_eq!(state.handles.advertisement, None);

    let actions = state.on_event(Event::RequestAdvStop);
    assert_eq!(actions.len(), 1);
    assert!(matches!(
        actions[0],
        Action::Callback(GattServerEvent::AdvertisingStopped { .. })
    ));
}

#[test]
fn advertising_start_failure() {
    let mut state = event_loop();
    state.on_event(Event::OnAdvStartResult(Ok(21)));
    let error = SystemError::Generic(generic_err("Flags missing data!"));
    let actions = state.on_event(Event::OnAdvStartResult(Err(error)));
    assert_eq!(actions.len(), 1);
    match &actions[0] {
        Action::Callback(GattServerEvent::AdvertisingStartFail {
            reason: AdvStartFailedReason::SystemError(SystemError::Generic(e)),
        }) => assert_eq!(e.message, "Flags missing data!"),
        _ => panic!("expected a failed start"),
    }
    assert_eq!(state.handles.advertisement, Some(21));
}

#[test]
fn dropped_handle_stops_loop() {
    let mut handle = BluerHandle { tx: () };
    let actions = event_loop().on_event(handle.close());
    assert_eq!(actions.len(), 1);
    assert!(matches!(actions[0], Action::Stop));
}

#[test]
fn mtu_is_told_once() {
    let mut state = event_loop();
    let actions = state.on_event(read(Some(23)));
    assert_eq!(actions.len(), 2);
    match &actions[0] {
        Action::Callback(GattServerEvent::MtuChanged { connection, mtu }) => {
            assert_eq!(connection.peer_address().0, ADDRESS.0);
            assert_eq!(*mtu, Mtu(23));
        }
        _ => panic!("expected a changed MTU"),
    }
    assert!(matches!(
        actions[1],
        Action::Callback(GattServerEvent::ReadRequest {
            handle: AttributeHandle(3),
            responder: -7,
            ..
        })
    ));
    assert_eq!(state.on_event(read(Some(23))).len(), 1);
    assert_eq!(state.on_event(read(None)).len(), 1);
    assert_eq!(state.on_event(read(Some(23))).len(), 1);
    assert_eq!(state.on_event(read(Some(517))).len(), 2);
    assert_eq!(state.on_event(read(Some(23))).len(), 2);
}

#[test]
fn mtu_detector() {
    let mut detector = MtuChangeDetector { negotiated_mtu: None };
    assert!(detector.maybe_emit_mtu_changed::<TestBackend>(&connection(), None).is_none());
    assert!(detector.maybe_emit_mtu_changed::<TestBackend>(&connection(), Some(23)).is_some());
    assert_eq!(detector.negotiated_mtu, Some(23));
    assert!(detector.maybe_emit_mtu_changed::<TestBackend>(&connection(), Some(23)).is_none());
    assert!(detector.maybe_emit_mtu_changed::<TestBackend>(&connection(), None).is_none());
    assert_eq!(detector.negotiated_mtu, Some(23));
}

#[test]
fn write_goes_to_application() {
    let req = CharacteristicWriteRequest { device_address: ADDRESS, offset: 4, mtu: 100 };
    let handler = WriteHandler { handle: AttributeHandle(9) };
    let event = handler
        .request::<CharacteristicWriteRequestType, TestBackend>(
            vec![1, 2],
            &req,
        );
    let actions = event_loop().on_event(event);
    assert_eq!(actions.len(), 2);
    assert!(matches!(
        actions[0],
        Action::Callback(GattServerEvent::MtuChanged { mtu: Mtu(100), .. })
    ));
    match &actions[1] {
        Action::Callback(GattServerEvent::WriteRequest {
            connection,
            handle,
            responder,
            action,
            offset,
            value,
        }) => {
            assert_eq!(connection.peer_address().0, ADDRESS.0);
            assert_eq!(*handle, AttributeHandle(9));
            assert_eq!(*responder, None);
            assert_eq!(*action, WriteAction::Normal);
            assert_eq!(*offset, 4);
            assert_eq!(*value, vec![1, 2]);
        }
        _ => panic!("expected a write"),
    }
    assert_eq!(WriteHandler::finish(true), Ok(()));
    assert_eq!(WriteHandler::finish(false), Err(ReqError::Failed));
}

#[test]
fn descriptor_requests_have_no_mtu() {
    let req = DescriptorWriteRequest { device_address: ADDRESS, offset: 2 };
    let handler = WriteHandler { handle: AttributeHandle(9) };
    let event = handler
        .request::<DescriptorWriteRequestType, TestBackend>(
            vec![],
            &req,
        );
    assert!(matches!(event, Event::OnHandleWrite { mtu: None, offset: 2, .. }));
    let req = DescriptorReadRequest { device_address: ADDRESS };
    let handler = ReadHandler { handle: AttributeHandle(9) };
    let event = handler.request::<DescriptorReadRequestType, TestBackend>(&req, 5);
    assert!(matches!(event, Event::OnHandleRead { mtu: None, responder: 5, .. }));
    assert_eq!(event_loop().on_event(event).len(), 1);
}

#[test]
fn characteristic_reads_have_mtu() {
    let req = CharacteristicReadRequest { device_address: ADDRESS, mtu: 50 };
    let handler = ReadHandler { handle: AttributeHandle(9) };
    match handler.request::<CharacteristicReadRequestType, TestBackend>(&req, 5) {
        Event::OnHandleRead { conn, mtu, handle, responder } => {
            assert_eq!(conn.peer_address().0, ADDRESS.0);
            assert_eq!(mtu, Some(50));
            assert_eq!(handle, AttributeHandle(9));
            assert_eq!(responder, 5);
        }
        _ => panic!("expected a read"),
    }
}

#[test]
fn read_gets_answer() {
    let mut responder = BluerResponder::new('x');
    let (tx, reply) = responder.respond(Ok(Response { offset: 0, value: &[1, 2, 3] })).unwrap();
    assert_eq!(tx, 'x');
    assert_eq!(ReadHandler::finish(ReadProgress::Answered(reply)), Ok(vec![1, 2, 3]));

    let mut responder = BluerResponder::new('x');
    let (_, reply) = responder.respond(Ok(Response { offset: 1, value: &[1] })).unwrap();
    assert_eq!(
        ReadHandler::finish(ReadProgress::Answered(reply)),
        Err(ReqError::InvalidOffset)
    );

    let mut responder = BluerResponder::new('x');
    let (_, reply) = responder.respond(Err(AttError::ReadNotPermitted)).unwrap();
    assert_eq!(
        ReadHandler::finish(ReadProgress::Answered(reply)),
        Err(ReqError::NotPermitted)
    );
}

#[test]
fn only_first_answer_counts() {
    let mut responder = BluerResponder::new('x');
    assert!(responder.respond(Ok(Response { offset: 0, value: &[] })).is_ok());
    let e = responder.respond(Ok(Response { offset: 0, value: &[] })).unwrap_err();
    assert_eq!(e.message, "Already sent response!");
    assert!(responder.close().is_none());
    assert!(BluerResponder::<char>::sent(true).is_ok());
    assert_eq!(BluerResponder::<char>::sent(false).unwrap_err().message, "Server shutdown");
}

#[test]
fn unanswered_read_fails() {
    let mut responder = BluerResponder::new('x');
    let (tx, reply) = responder.close().unwrap();
    assert_eq!(tx, 'x');
    assert_eq!(reply, Err(AttError::AttributeNotFound));
    assert_eq!(ReadHandler::finish(ReadProgress::Answered(reply)), Err(ReqError::Failed));
    assert!(responder.close().is_none());
    assert_eq!(ReadHandler::finish(ReadProgress::Unanswered), Err(ReqError::Failed));
    assert_eq!(ReadHandler::finish(ReadProgress::NotDelivered), Err(ReqError::Failed));
}

#[test]
fn att_errors() {
    let cases = [
        (AttError::InvalidHandle, ReqError::Failed),
        (AttError::ReadNotPermitted, ReqError::NotPermitted),
        (AttError::WriteNotPermitted, ReqError::NotPermitted),
        (AttError::InvalidPdu, ReqError::NotSupported),
        (AttError::InsufficientAuthentication, ReqError::NotAuthorized),
        (AttError::RequestNotSupported, ReqError::NotSupported),
        (AttError::InvalidOffset, ReqError::InvalidOffset),
        (AttError::InsufficientAuthorization, ReqError::NotAuthorized),
        (AttError::PrepareQueueFull, ReqError::Failed),
        (AttError::AttributeNotFound, ReqError::Failed),
        (AttError::AttributeTooLong, ReqError::Failed),
        (AttError::InsufficientKeySize, ReqError::Failed),
        (AttError::InvalidAttributeValueLength, ReqError::InvalidValueLength),
        (AttError::Unlikely, ReqError::Failed),
        (AttError::InsufficientEncryption, ReqError::Failed),
        (AttError::UnsupportedGroupType, ReqError::Failed),
        (AttError::InsufficientResources, ReqError::Failed),
    ];
    for (att, req) in cases {
        assert_eq!(att_to_req_error(att), req);
    }
}

#[test]
fn subscriptions() {
    let handler = NotifyHandler { handle: AttributeHandle(6) };
    let event = handler.request::<TestBackend>(99);
    let actions = event_loop().on_event(event);
    match &actions[0] {
        Action::Callback(GattServerEvent::Subscribe { connection, handle, writer }) => {
            assert_eq!(connection.peer_address().0, [0; 6]);
            assert_eq!(*handle, AttributeHandle(6));
            assert_eq!(*writer, 99);
        }
        _ => panic!("expected a subscription"),
    }

    let next = |input| handler.next_step::<TestBackend>(input);
    assert!(matches!(
        next(NotifyInput::SubscribeSent { delivered: true }),
        NotifyStep::AwaitValue
    ));
    assert!(matches!(next(NotifyInput::SubscribeSent { delivered: false }), NotifyStep::End));
    match next(NotifyInput::Value(vec![4, 5])) {
        NotifyStep::Notify(value) => assert_eq!(value, vec![4, 5]),
        _ => panic!("expected a notification"),
    }
    assert!(matches!(
        next(NotifyInput::Notified(NotifyOutcome::Sent)),
        NotifyStep::AwaitValue
    ));
    assert!(matches!(
        next(NotifyInput::Notified(NotifyOutcome::Failed)),
        NotifyStep::AwaitValue
    ));
    assert!(matches!(next(NotifyInput::WriterGone), NotifyStep::End));
    match next(NotifyInput::Notified(NotifyOutcome::Stopped)) {
        NotifyStep::Report(event) => {
            let actions = event_loop().on_event(event);
            match &actions[0] {
                Action::Callback(GattServerEvent::Unsubscribe { connection, handle }) => {
                    assert_eq!(connection.peer_address().0, [0; 6]);
                    assert_eq!(*handle, AttributeHandle(6));
                }
                _ => panic!("expected the end of a subscription"),
            }
        }
        _ => panic!("expected a report"),
    }
}

#[test]
fn writer_hands_on_values() {
    let mut writer = BluerWriter { tx: () };
    assert_eq!(writer.write(&[1, 2]), vec![1, 2]);
    assert_eq!(writer.clone().write(&[3]), vec![3]);
    assert!(BluerWriter::<()>::written(true).is_ok());
    assert_eq!(BluerWriter::<()>::written(false).unwrap_err().message, "unsubscribed");
}

fn service(uuid: UUID, permissions: &[GattCharacteristicPermission]) -> GattService {
    GattService {
        uuid,
        service_type: GattServiceType::Primary,
        characteristics: vec![GattCharacteristic {
            uuid: UUID::Long(77),
            properties: vec![],
            permissions: permissions.to_vec(),
            descriptors: vec![],
        }],
    }
}

#[test]
fn configuration() {
    let mut peripheral = BluerPeripheral::new("hci0");
    assert_eq!(peripheral.ident.name, None);
    assert_eq!(peripheral.ident.appearance, None);
    peripheral.set_name("gatt_server").unwrap();
    peripheral.set_appearance(0x0080).unwrap();
    let services = [
        service(UUID::Long(9), &[]),
        service(UUID::Short(0x180f), &[]),
        service(UUID::Long(9), &[]),
    ];
    let setup = peripheral.configure_gatt_server(&services, 'q').unwrap();
    assert_eq!(setup.adapter, "hci0");
    assert_eq!(setup.advertiser.tx, 'q');
    assert_eq!(
        *setup.advertiser.service_uuids,
        BTreeSet::from([9, 0x0000180f_0000_1000_8000_00805f9b34fb])
    );
    assert_eq!(setup.advertiser.ident.name, Some("gatt_server".to_string()));
    assert_eq!(setup.advertiser.ident.appearance, Some(0x0080));
    assert_eq!(setup.app_holder.app.services.len(), 3);
    assert_eq!(setup.app_holder.handle_mapping[2], (UUID::Long(77), AttributeHandle(3)));
}

#[test]
fn configuration_failure() {
    let services = [service(UUID::Long(9), &[GattCharacteristicPermission::WriteSigned])];
    let e = BluerPeripheral::new(()).configure_gatt_server(&services, ()).unwrap_err();
    assert_eq!(e.message, "write signed not supported");
}

#[test]
fn other_events_keep_handles() {
    let mut state = event_loop();
    state.on_event(Event::OnStartResult(Ok((11, 'a', vec![]))));
    state.on_event(Event::OnAdvStartResult(Ok(21)));
    state.on_event(read(Some(23)));
    state.on_event(Event::OnStartResult(Err(SystemError::Backend("gone"))));
    state.on_event(Event::OnAdvStartResult(Err(SystemError::Backend("gone"))));
    state.on_event(Event::OnUnsubscribe { conn: connection(), handle: AttributeHandle(3) });
    assert_eq!(state.handles.app, Some(11));
    assert_eq!(state.handles.advertisement, Some(21));
}
