//! What a running server owes its clients and its application.
//!
//! Each law speaks of what the functions themselves may return, for all arguments.

use crate::advertisement::Advertisement;
use crate::att_error::{att_to_req_error, AttError, ReqError};
use crate::connection::{BluerConnection, BluetoothAddress};
use crate::descriptors::AttributeHandle;
use crate::err_util::{generic_err, Error};
use crate::event::{
    AdvStartFailedReason, AdvStopReason, Backend, Event, GattServerEvent, Mtu, SystemError,
    WriteAction,
};
use crate::handle::BluerHandle;
use crate::handlers::{
    CharacteristicReadRequest, CharacteristicReadRequestType, CharacteristicWriteRequest,
    CharacteristicWriteRequestType, DescriptorReadRequest, DescriptorReadRequestType,
    DescriptorWriteRequest, DescriptorWriteRequestType, NotifyHandler, NotifyInput, NotifyOutcome,
    NotifyStep, ReadHandler, ReadProgress, WriteHandler,
};
use crate::peripheral::{Action, BluerPeripheral, EventLoop, MtuChangeDetector};
use crate::responder::{BluerResponder, Reply, Response};
use crate::uuid_util::UUID;
use crate::writer::BluerWriter;
use vstd::prelude::*;

verus! {

/// A server starts without handles, and without an MTU that it knows of.
pub proof fn law_new_loop<B: Backend>(state: EventLoop<B>)
    requires
        call_ensures(EventLoop::<B>::new, (), state),
    ensures
        state.handles.app is None,
        state.handles.advertisement is None,
        state.mtu_change_detector.negotiated_mtu is None,
{
}

/// A read reaches the application as it was made, whatever the server holds: with its client, its
/// attribute and its responder. Before it, and only then, comes an MTU that is new. The handles
/// of the server stay as they are.
pub proof fn law_read_told<B: Backend>(
    before: EventLoop<B>,
    after: EventLoop<B>,
    actions: Vec<Action<B>>,
    conn: BluerConnection,
    mtu: Option<u16>,
    handle: AttributeHandle,
    responder: B::Responder,
)
    requires
        exists|state: &mut EventLoop<B>| #[trigger]
            call_ensures(
                EventLoop::<B>::on_event,
                (state, Event::OnHandleRead { conn, mtu, handle, responder }),
                actions,
            ) && *state == before && *final(state) == after,
    ensures
        actions@.len() > 0,
        actions@.last() == Action::<B>::Callback(
            GattServerEvent::ReadRequest { connection: conn, handle, responder },
        ),
        actions@.len() == 2 <==> mtu is Some && before.mtu_change_detector.negotiated_mtu != mtu,
        actions@.len() == 2 ==> actions@[0] == Action::<B>::Callback(
            GattServerEvent::MtuChanged { connection: conn, mtu: Mtu(mtu->0) },
        ),
        actions@.len() <= 2,
        after.handles == before.handles,
        mtu is Some ==> after.mtu_change_detector.negotiated_mtu == mtu,
        mtu is None ==> after.mtu_change_detector == before.mtu_change_detector,
{
}

/// A write reaches the application as it was made, whatever the server holds: with its client, its
/// attribute, its responder, its action, its offset and its value. Before it, and only then,
/// comes an MTU that is new. The handles of the server stay as they are.
pub proof fn law_write_told<B: Backend>(
    before: EventLoop<B>,
    after: EventLoop<B>,
    actions: Vec<Action<B>>,
    conn: BluerConnection,
    mtu: Option<u16>,
    handle: AttributeHandle,
    responder: Option<B::Responder>,
    action: WriteAction,
    offset: u16,
    value: Vec<u8>,
)
    requires
        exists|state: &mut EventLoop<B>| #[trigger]
            call_ensures(
                EventLoop::<B>::on_event,
                (
                    state,
                    Event::OnHandleWrite { conn, mtu, handle, responder, action, offset, value },
                ),
                actions,
            ) && *state == before && *final(state) == after,
    ensures
        actions@.len() > 0,
        actions@.last() == Action::<B>::Callback(
            GattServerEvent::WriteRequest {
                connection: conn,
                handle,
                responder,
                action,
                offset,
                value,
            },
        ),
        actions@.len() == 2 <==> mtu is Some && before.mtu_change_detector.negotiated_mtu != mtu,
        actions@.len() == 2 ==> actions@[0] == Action::<B>::Callback(
            GattServerEvent::MtuChanged { connection: conn, mtu: Mtu(mtu->0) },
        ),
        actions@.len() <= 2,
        after.handles == before.handles,
        mtu is Some ==> after.mtu_change_detector.negotiated_mtu == mtu,
        mtu is None ==> after.mtu_change_detector == before.mtu_change_detector,
{
}

/// A subscription reaches the application as it was made, whatever the server holds, and changes
/// nothing in it.
pub proof fn law_subscription_told<B: Backend>(
    before: EventLoop<B>,
    after: EventLoop<B>,
    actions: Vec<Action<B>>,
    conn: BluerConnection,
    handle: AttributeHandle,
    writer: B::Writer,
)
    requires
        exists|state: &mut EventLoop<B>| #[trigger]
            call_ensures(
                EventLoop::<B>::on_event,
                (state, Event::OnSubscribe { conn, handle, writer }),
                actions,
            ) && *state == before && *final(state) == after,
    ensures
        actions@.len() == 1,
        actions@[0] == Action::<B>::Callback(
            GattServerEvent::Subscribe { connection: conn, handle, writer },
        ),
        after == before,
{
}

/// The end of a subscription reaches the application as it was told, whatever the server holds,
/// and changes nothing in it.
pub proof fn law_unsubscription_told<B: Backend>(
    before: EventLoop<B>,
    after: EventLoop<B>,
    actions: Vec<Action<B>>,
    conn: BluerConnection,
    handle: AttributeHandle,
)
    requires
        exists|state: &mut EventLoop<B>| #[trigger]
            call_ensures(
                EventLoop::<B>::on_event,
                (state, Event::OnUnsubscribe { conn, handle }),
                actions,
            ) && *state == before && *final(state) == after,
    ensures
        actions@.len() == 1,
        actions@[0] == Action::<B>::Callback(
            GattServerEvent::Unsubscribe { connection: conn, handle },
        ),
        after == before,
{
}

/// A server that started is held, and the application gets its advertiser and its handles. An
/// application that was published before is let go of first.
pub proof fn law_start_told<B: Backend>(
    before: EventLoop<B>,
    after: EventLoop<B>,
    actions: Vec<Action<B>>,
    app: B::ApplicationHandle,
    advertiser: B::Advertiser,
    handle_mapping: Vec<(UUID, AttributeHandle)>,
)
    requires
        exists|state: &mut EventLoop<B>| #[trigger]
            call_ensures(
                EventLoop::<B>::on_event,
                (state, Event::OnStartResult(Ok((app, advertiser, handle_mapping)))),
                actions,
            ) && *state == before && *final(state) == after,
    ensures
        after.handles.app == Some(app),
        after.handles.advertisement == before.handles.advertisement,
        after.mtu_change_detector == before.mtu_change_detector,
        actions@.len() > 0,
        actions@.last() == Action::<B>::Callback(
            GattServerEvent::ServerStarted { advertiser, handle_mapping },
        ),
        before.handles.app is None ==> actions@.len() == 1,
        before.handles.app matches Some(held) ==> actions@.len() == 2 && actions@[0]
            == Action::<B>::ReleaseApplication(held),
{
}

/// A server that did not start is told with its own error, and changes nothing.
pub proof fn law_start_failure_told<B: Backend>(
    before: EventLoop<B>,
    after: EventLoop<B>,
    actions: Vec<Action<B>>,
    error: SystemError<B>,
)
    requires
        exists|state: &mut EventLoop<B>| #[trigger]
            call_ensures(
                EventLoop::<B>::on_event,
                (state, Event::OnStartResult(Err(error))),
                actions,
            ) && *state == before && *final(state) == after,
    ensures
        actions@.len() == 1,
        actions@[0] == Action::<B>::Callback(GattServerEvent::ServerShutdown { error }),
        after == before,
{
}

/// The server ends when its application lets go of it, and does nothing else then.
pub proof fn law_dropped_server_stops<S, B: Backend>(
    handle_before: BluerHandle<S>,
    handle_after: BluerHandle<S>,
    event: Event<B>,
    before: EventLoop<B>,
    after: EventLoop<B>,
    actions: Vec<Action<B>>,
)
    requires
        exists|handle: &mut BluerHandle<S>| #[trigger]
            call_ensures(BluerHandle::<S>::close::<B>, (handle,), event) && *handle
                == handle_before && *final(handle) == handle_after,
        exists|state: &mut EventLoop<B>| #[trigger]
            call_ensures(EventLoop::<B>::on_event, (state, event), actions) && *state == before
                && *final(state) == after,
    ensures
        handle_after == handle_before,
        event == Event::<B>::OnHandleDrop,
        actions@.len() == 1,
        actions@[0] == Action::<B>::Stop,
        after == before,
{
}

/// What the application wants to advertise is what the Bluetooth daemon is asked for, and nothing
/// is held for it yet.
pub proof fn law_advertisement_passed_on<B: Backend>(
    before: EventLoop<B>,
    after: EventLoop<B>,
    actions: Vec<Action<B>>,
    adv: Advertisement,
)
    requires
        exists|state: &mut EventLoop<B>| #[trigger]
            call_ensures(EventLoop::<B>::on_event, (state, Event::RequestAdvStart(adv)), actions)
                && *state == before && *final(state) == after,
    ensures
        actions@.len() == 1,
        actions@[0] == Action::<B>::Advertise(adv),
        after == before,
{
}

/// An advertisement that started is held, and the application is told. One that ran before is
/// let go of first.
pub proof fn law_advertising_started<B: Backend>(
    before: EventLoop<B>,
    after: EventLoop<B>,
    actions: Vec<Action<B>>,
    started: B::AdvertisementHandle,
)
    requires
        exists|state: &mut EventLoop<B>| #[trigger]
            call_ensures(
                EventLoop::<B>::on_event,
                (state, Event::OnAdvStartResult(Ok(started))),
                actions,
            ) && *state == before && *final(state) == after,
    ensures
        after.handles.advertisement == Some(started),
        after.handles.app == before.handles.app,
        after.mtu_change_detector == before.mtu_change_detector,
        actions@.len() > 0,
        actions@.last() == Action::<B>::Callback(
            GattServerEvent::AdvertisingStarted { remaining_connections: None },
        ),
        before.handles.advertisement is None ==> actions@.len() == 1,
        before.handles.advertisement matches Some(held) ==> actions@.len() == 2 && actions@[0]
            == Action::<B>::ReleaseAdvertisement(held),
{
}

/// An advertisement that did not start is told with its own error. One that runs goes on.
pub proof fn law_advertising_failure_told<B: Backend>(
    before: EventLoop<B>,
    after: EventLoop<B>,
    actions: Vec<Action<B>>,
    error: SystemError<B>,
)
    requires
        exists|state: &mut EventLoop<B>| #[trigger]
            call_ensures(
                EventLoop::<B>::on_event,
                (state, Event::OnAdvStartResult(Err(error))),
                actions,
            ) && *state == before && *final(state) == after,
    ensures
        actions@.len() == 1,
        actions@[0] == Action::<B>::Callback(
            GattServerEvent::AdvertisingStartFail {
                reason: AdvStartFailedReason::SystemError(error),
            },
        ),
        after == before,
{
}

/// Advertising that is to stop is let go of, if it runs, and the application is told. The
/// server itself goes on.
pub proof fn law_advertising_stopped<B: Backend>(
    before: EventLoop<B>,
    after: EventLoop<B>,
    actions: Vec<Action<B>>,
)
    requires
        exists|state: &mut EventLoop<B>| #[trigger]
            call_ensures(EventLoop::<B>::on_event, (state, Event::RequestAdvStop), actions)
                && *state == before && *final(state) == after,
    ensures
        after.handles.advertisement is None,
        after.handles.app == before.handles.app,
        after.mtu_change_detector == before.mtu_change_detector,
        actions@.len() > 0,
        actions@.last() == Action::<B>::Callback(
            GattServerEvent::AdvertisingStopped { reason: AdvStopReason::Requested },
        ),
        before.handles.advertisement is None ==> actions@.len() == 1,
        before.handles.advertisement matches Some(held) ==> actions@.len() == 2 && actions@[0]
            == Action::<B>::ReleaseAdvertisement(held),
{
}

/// An MTU is told with its client exactly if one was received and differs from the last one.
/// The last one received is kept.
pub proof fn law_mtu_change_told<B: Backend>(
    before: Option<u16>,
    after: Option<u16>,
    conn: BluerConnection,
    received: Option<u16>,
    news: Option<GattServerEvent<B>>,
)
    requires
        exists|detector: &mut MtuChangeDetector| #[trigger]
            call_ensures(
                MtuChangeDetector::maybe_emit_mtu_changed::<B>,
                (detector, &conn, received),
                news,
            ) && detector.negotiated_mtu == before && final(detector).negotiated_mtu == after,
    ensures
        received is None ==> news is None && after == before,
        received matches Some(mtu) ==> {
            &&& after == Some(mtu)
            &&& before == Some(mtu) ==> news is None
            &&& before != Some(mtu) ==> news == Some(
                GattServerEvent::<B>::MtuChanged { connection: conn, mtu: Mtu(mtu) },
            )
        },
{
}

/// The event of a read tells who reads, which attribute, and where the answer goes. Reads of
/// characteristics bring the MTU, reads of descriptors none.
pub proof fn law_read_event<B: Backend>(
    handler: ReadHandler,
    characteristic: CharacteristicReadRequest,
    descriptor: DescriptorReadRequest,
    responder: B::Responder,
    of_characteristic: Event<B>,
    of_descriptor: Event<B>,
)
    requires
        call_ensures(
            ReadHandler::request::<CharacteristicReadRequestType, B>,
            (&handler, &characteristic, responder),
            of_characteristic,
        ),
        call_ensures(
            ReadHandler::request::<DescriptorReadRequestType, B>,
            (&handler, &descriptor, responder),
            of_descriptor,
        ),
    ensures
        of_characteristic matches Event::OnHandleRead { conn, mtu, handle, responder: r } && {
            &&& conn.address == characteristic.device_address
            &&& mtu == Some(characteristic.mtu)
            &&& handle == handler.handle
            &&& r == responder
        },
        of_descriptor matches Event::OnHandleRead { conn, mtu, handle, responder: r } && {
            &&& conn.address == descriptor.device_address
            &&& mtu is None
            &&& handle == handler.handle
            &&& r == responder
        },
{
}

/// The event of a write tells who writes, to which attribute, what and where in the value. Writes
/// to characteristics bring the MTU, writes to descriptors none. Nobody waits for an answer.
pub proof fn law_write_event<B: Backend>(
    handler: WriteHandler,
    characteristic: CharacteristicWriteRequest,
    descriptor: DescriptorWriteRequest,
    value: Vec<u8>,
    to_characteristic: Event<B>,
    to_descriptor: Event<B>,
)
    requires
        call_ensures(
            WriteHandler::request::<CharacteristicWriteRequestType, B>,
            (&handler, value, &characteristic),
            to_characteristic,
        ),
        call_ensures(
            WriteHandler::request::<DescriptorWriteRequestType, B>,
            (&handler, value, &descriptor),
            to_descriptor,
        ),
    ensures
        to_characteristic matches Event::OnHandleWrite {
            conn,
            mtu,
            handle,
            responder,
            action,
            offset,
            value: v,
        } && {
            &&& conn.address == characteristic.device_address
            &&& mtu == Some(characteristic.mtu)
            &&& handle == handler.handle
            &&& responder is None
            &&& action == WriteAction::Normal
            &&& offset == characteristic.offset
            &&& v@ == value@
        },
        to_descriptor matches Event::OnHandleWrite {
            conn,
            mtu,
            handle,
            responder,
            action,
            offset,
            value: v,
        } && {
            &&& conn.address == descriptor.device_address
            &&& mtu is None
            &&& handle == handler.handle
            &&& responder is None
            &&& action == WriteAction::Normal
            &&& offset == descriptor.offset
            &&& v@ == value@
        },
{
}

/// What a client writes arrives: the application is told the value, the attribute and the offset
/// of every write to a characteristic, whatever the server holds and has received before.
pub proof fn law_write_arrives<B: Backend>(
    handler: WriteHandler,
    req: CharacteristicWriteRequest,
    value: Vec<u8>,
    event: Event<B>,
    before: EventLoop<B>,
    actions: Vec<Action<B>>,
)
    requires
        call_ensures(
            WriteHandler::request::<CharacteristicWriteRequestType, B>,
            (&handler, value, &req),
            event,
        ),
        exists|state: &mut EventLoop<B>| #[trigger]
            call_ensures(EventLoop::<B>::on_event, (state, event), actions) && *state == before,
    ensures
        actions@.len() > 0,
        actions@.last() matches Action::Callback(
            GattServerEvent::WriteRequest { connection, handle, offset, value: v, .. },
        ) && {
            &&& connection.address == req.device_address
            &&& handle == handler.handle
            &&& offset == req.offset
            &&& v@ == value@
        },
{
}

/// A write succeeds for its client exactly if it reached the event loop.
pub proof fn law_write_result(delivered: bool, res: Result<(), ReqError>)
    requires
        call_ensures(WriteHandler::finish, (delivered,), res),
    ensures
        res is Ok <==> delivered,
        res matches Err(e) ==> e == ReqError::Failed,
{
}

/// A client reads what the application answered, byte for byte, if the answer starts at the
/// beginning of the value. Another offset is refused, and an error goes through the table of
/// errors.
pub proof fn law_answer_arrives<S>(
    before: BluerResponder<S>,
    after: BluerResponder<S>,
    response: Result<Response<'_>, AttError>,
    sent: Result<(S, Reply), Error>,
    read: Result<Vec<u8>, ReqError>,
    told: ReqError,
)
    requires
        exists|responder: &mut BluerResponder<S>| #[trigger]
            call_ensures(BluerResponder::<S>::respond, (responder, response), sent) && *responder
                == before && *final(responder) == after,
        sent is Ok,
        call_ensures(ReadHandler::finish, (ReadProgress::Answered(sent->Ok_0.1),), read),
        response is Err ==> call_ensures(att_to_req_error, (response->Err_0,), told),
    ensures
        response matches Ok(r) ==> {
            &&& r.offset == 0 ==> (read matches Ok(value) && value@ == r.value@)
            &&& r.offset != 0 ==> (read matches Err(e) && e == ReqError::InvalidOffset)
        },
        response is Err ==> (read matches Err(e) && e == told),
{
}

/// A read that did not get through, or got no answer, fails.
pub proof fn law_lost_read_fails(
    not_delivered: Result<Vec<u8>, ReqError>,
    unanswered: Result<Vec<u8>, ReqError>,
)
    requires
        call_ensures(ReadHandler::finish, (ReadProgress::NotDelivered,), not_delivered),
        call_ensures(ReadHandler::finish, (ReadProgress::Unanswered,), unanswered),
    ensures
        not_delivered matches Err(e) && e == ReqError::Failed,
        unanswered matches Err(e) && e == ReqError::Failed,
{
}

/// A responder takes one answer. The first goes out as it was given, by the way that the request
/// waits at; any other is refused. One way or the other, no answer can follow.
pub proof fn law_answered_once<S>(
    before: BluerResponder<S>,
    after: BluerResponder<S>,
    response: Result<Response<'_>, AttError>,
    res: Result<(S, Reply), Error>,
)
    requires
        exists|responder: &mut BluerResponder<S>| #[trigger]
            call_ensures(BluerResponder::<S>::respond, (responder, response), res) && *responder
                == before && *final(responder) == after,
    ensures
        after.tx is None,
        before.tx is None ==> (res matches Err(e) && e.message@ == "Already sent response!"@),
        before.tx matches Some(way) ==> (res matches Ok((tx, reply)) && tx == way && {
            &&& response matches Ok(r) ==> (reply matches Ok((offset, value)) && offset == r.offset
                && value@ == r.value@)
            &&& response matches Err(given) ==> (reply matches Err(e) && e == given)
        }),
{
}

/// A request whose responder is closed before an answer was given is answered then, with an error
/// that its client reads as a failure. After an answer nothing is sent.
pub proof fn law_closed_unanswered<S>(
    tx: S,
    fresh: BluerResponder<S>,
    after: BluerResponder<S>,
    closed: Option<(S, Reply)>,
    again: Option<(S, Reply)>,
)
    requires
        call_ensures(BluerResponder::<S>::new, (tx,), fresh),
        exists|responder: &mut BluerResponder<S>| #[trigger]
            call_ensures(BluerResponder::<S>::close, (responder,), closed) && *responder == fresh
                && *final(responder) == after,
        exists|responder: &mut BluerResponder<S>| #[trigger]
            call_ensures(BluerResponder::<S>::close, (responder,), again) && *responder == after,
    ensures
        fresh.tx == Some(tx),
        closed matches Some((way, reply)) && way == tx && (reply matches Err(e) && e
            == AttError::AttributeNotFound),
        after.tx is None,
        again is None,
        forall|read: Result<Vec<u8>, ReqError>| #[trigger]
            call_ensures(ReadHandler::finish, (ReadProgress::Answered(closed->Some_0.1),), read)
                ==> (read matches Err(e) && e == ReqError::Failed),
{
}

/// The application is told whether its answer got through.
pub proof fn law_answer_sent<S>(delivered: bool, res: Result<(), Error>)
    requires
        call_ensures(BluerResponder::<S>::sent, (delivered,), res),
    ensures
        res is Ok <==> delivered,
        res matches Err(e) ==> e.message@ == "Server shutdown"@,
{
}

/// Which errors of the attribute protocol become which error of BlueZ. Two become
/// `NotPermitted`, two `NotSupported` and two `NotAuthorized`; a bad offset and a bad length keep
/// their meaning; all others are failures.
pub proof fn law_error_table(e: AttError, r: ReqError)
    requires
        call_ensures(att_to_req_error, (e,), r),
    ensures
        r == ReqError::NotPermitted <==> e == AttError::ReadNotPermitted || e
            == AttError::WriteNotPermitted,
        r == ReqError::NotSupported <==> e == AttError::InvalidPdu || e
            == AttError::RequestNotSupported,
        r == ReqError::NotAuthorized <==> e == AttError::InsufficientAuthentication || e
            == AttError::InsufficientAuthorization,
        r == ReqError::InvalidOffset <==> e == AttError::InvalidOffset,
        r == ReqError::InvalidValueLength <==> e == AttError::InvalidAttributeValueLength,
        r != ReqError::InProgress,
{
}

/// What the application sends to a subscriber is what the client is notified of, byte for byte
/// and whatever its length. Nothing but a value leads to a notification.
pub proof fn law_value_notified<S, B: Backend>(
    handler: NotifyHandler,
    value: &[u8],
    sent: Vec<u8>,
    step: NotifyStep<B>,
    input: NotifyInput,
    other: NotifyStep<B>,
)
    requires
        exists|writer: &mut BluerWriter<S>| #[trigger]
            call_ensures(BluerWriter::<S>::write, (writer, value), sent),
        call_ensures(NotifyHandler::next_step::<B>, (&handler, NotifyInput::Value(sent)), step),
        call_ensures(NotifyHandler::next_step::<B>, (&handler, input), other),
    ensures
        step matches NotifyStep::Notify(notified) && notified@ == value@,
        other is Notify <==> input is Value,
        input matches NotifyInput::Value(v) ==> (other matches NotifyStep::Notify(n) && n@ == v@),
{
}

/// A session starts to wait for values exactly if the event loop learnt of the subscription, and
/// waits again after a notification, sent or not, unless the client has stopped: then it reports
/// so, for its own attribute. It ends with its writer.
pub proof fn law_session_steps<B: Backend>(
    handler: NotifyHandler,
    input: NotifyInput,
    step: NotifyStep<B>,
)
    requires
        call_ensures(NotifyHandler::next_step::<B>, (&handler, input), step),
    ensures
        input matches NotifyInput::SubscribeSent { delivered } ==> {
            &&& delivered ==> step is AwaitValue
            &&& !delivered ==> step is End
        },
        input is WriterGone ==> step is End,
        input matches NotifyInput::Notified(outcome) ==> {
            &&& outcome == NotifyOutcome::Stopped ==> (step matches NotifyStep::Report(
                Event::OnUnsubscribe { conn, handle },
            ) && handle == handler.handle && forall|i: int|
                0 <= i < 6 ==> #[trigger] conn.address.0@[i] == 0)
            &&& outcome != NotifyOutcome::Stopped ==> step is AwaitValue
        },
{
}

/// The event of a subscription tells the attribute and the way to the subscriber, and an address
/// of zeros, as nobody knows who subscribes.
pub proof fn law_subscription_event<B: Backend>(
    handler: NotifyHandler,
    writer: B::Writer,
    event: Event<B>,
)
    requires
        call_ensures(NotifyHandler::request::<B>, (&handler, writer), event),
    ensures
        event matches Event::OnSubscribe { conn, handle, writer: w } && handle == handler.handle
            && w == writer && conn.address.0@.len() == 6 && forall|i: int|
            0 <= i < 6 ==> #[trigger] conn.address.0@[i] == 0,
{
}

/// A writer stays as it is, and its user is told whether the notification got through.
pub proof fn law_writer<S>(
    before: BluerWriter<S>,
    after: BluerWriter<S>,
    value: &[u8],
    sent: Vec<u8>,
    delivered: bool,
    res: Result<(), Error>,
)
    requires
        exists|writer: &mut BluerWriter<S>| #[trigger]
            call_ensures(BluerWriter::<S>::write, (writer, value), sent) && *writer == before
                && *final(writer) == after,
        call_ensures(BluerWriter::<S>::written, (delivered,), res),
    ensures
        after == before,
        sent@ == value@,
        res is Ok <==> delivered,
        res matches Err(e) ==> e.message@ == "unsubscribed"@,
{
}

/// A connection tells the address that it was made with.
pub proof fn law_peer_address(
    address: BluetoothAddress,
    conn: BluerConnection,
    told: &BluetoothAddress,
)
    requires
        call_ensures(BluerConnection::new, (&address,), conn),
        call_ensures(BluerConnection::peer_address, (&conn,), told),
    ensures
        *told == address,
{
}

/// An error tells the message that it was made with.
pub proof fn law_error_message(message: &str, e: Error)
    requires
        call_ensures(generic_err, (message,), e),
    ensures
        e.message@ == message@,
{
}

/// A device has no name and no appearance until it is given them. The last name given is told,
/// and naming a device changes neither its adapter nor its appearance.
pub proof fn law_device_named<A>(
    adapter: A,
    fresh: BluerPeripheral<A>,
    before: BluerPeripheral<A>,
    name: &str,
    after: BluerPeripheral<A>,
    res: Result<(), Error>,
)
    requires
        call_ensures(BluerPeripheral::<A>::new, (adapter,), fresh),
        exists|device: &mut BluerPeripheral<A>| #[trigger]
            call_ensures(BluerPeripheral::<A>::set_name, (device, name), res) && *device == before
                && *final(device) == after,
    ensures
        fresh.adapter == adapter,
        fresh.ident.name is None,
        fresh.ident.appearance is None,
        res is Ok,
        after.ident.name matches Some(told) && told@ == name@,
        after.ident.appearance == before.ident.appearance,
        after.adapter == before.adapter,
{
}

/// The last appearance given to a device is told, and giving one changes neither its adapter nor
/// its name.
pub proof fn law_device_appearance<A>(
    before: BluerPeripheral<A>,
    appearance: u16,
    after: BluerPeripheral<A>,
    res: Result<(), Error>,
)
    requires
        exists|device: &mut BluerPeripheral<A>| #[trigger]
            call_ensures(BluerPeripheral::<A>::set_appearance, (device, appearance), res)
                && *device == before && *final(device) == after,
    ensures
        res is Ok,
        after.ident.appearance == Some(appearance),
        after.ident.name == before.ident.name,
        after.adapter == before.adapter,
{
}

} // verus!
