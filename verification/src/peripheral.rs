//! The server: how it is configured, and how it acts on events.

use crate::advertisement::Advertisement;
use crate::advertiser::BluerAdvertiser;
use crate::application_factory::{
    all_accepted, application_view, attribute_uuids, attributes, first_error_is, fits, numbered,
    ApplicationFactory, ApplicationHolder,
};
use crate::connection::BluerConnection;
use crate::descriptors::GattService;
use crate::device_ident::DeviceIdent;
use crate::err_util::Error;
use crate::event::{
    AdvStartFailedReason, AdvStopReason, Backend, Event, GattServerEvent, Mtu,
};
use crate::uuid_util::convert_uuid;
use std::collections::BTreeSet;
use std::sync::Arc;
use vstd::prelude::*;

verus! {

/// A device that is about to become a server. `A` is the Bluetooth adapter.
#[derive(Debug)]
pub struct BluerPeripheral<A> {
    pub adapter: A,
    pub ident: DeviceIdent,
}

/// All that a server needs to start. `S` is the way to its event loop.
#[derive(Debug)]
pub struct ServerSetup<A, S> {
    pub adapter: A,
    pub advertiser: BluerAdvertiser<S>,
    pub app_holder: ApplicationHolder,
}

/// The values of the UUIDs of services.
pub open spec fn service_uuid_set(services: Seq<GattService>) -> Set<u128> {
    services.map_values(|s: GattService| s.uuid.value()).to_set()
}

impl<A> BluerPeripheral<A> {
    pub fn new(adapter: A) -> (r: Self)
        ensures
            r.adapter == adapter,
            r.ident.name is None,
            r.ident.appearance is None,
    {
        Self { adapter, ident: Default::default() }
    }

    /// Names the device. This never fails.
    pub fn set_name(&mut self, name: &str) -> (res: Result<(), Error>)
        ensures
            res is Ok,
            final(self).adapter == old(self).adapter,
            final(self).ident.name_view() == Some(name@),
            final(self).ident.appearance == old(self).ident.appearance,
    {
        self.ident.name = Some(name.to_owned());
        Ok(())
    }

    /// Says what the device looks like. This never fails.
    pub fn set_appearance(&mut self, appearance: u16) -> (res: Result<(), Error>)
        ensures
            res is Ok,
            final(self).adapter == old(self).adapter,
            final(self).ident.name == old(self).ident.name,
            final(self).ident.appearance == Some(appearance),
    {
        self.ident.appearance = Some(appearance);
        Ok(())
    }

    /// Works out what to publish for `services`.
    pub fn configure_gatt_server<S>(self, services: &[GattService], tx: S) -> (res: Result<
        ServerSetup<A, S>,
        Error,
    >)
        requires
            fits(0, attributes(services@)),
        ensures
            res is Ok <==> all_accepted(attributes(services@)),
            match res {
                Ok(setup) => {
                    &&& setup.adapter == self.adapter
                    &&& setup.advertiser.tx == tx
                    &&& setup.advertiser.service_uuids@ == service_uuid_set(services@)
                    &&& *setup.advertiser.ident == self.ident
                    &&& setup.app_holder.app@ == application_view(services@)
                    &&& setup.app_holder.handle_mapping@ == numbered(
                        attribute_uuids(attributes(services@)),
                    )
                },
                Err(e) => first_error_is(attributes(services@), e.message@),
            },
    {
        let mut service_uuids: BTreeSet<u128> = BTreeSet::new();
        let ghost values = services@.map_values(|s: GattService| s.uuid.value());
        for i in 0..services.len()
            invariant
                values == services@.map_values(|s: GattService| s.uuid.value()),
                service_uuids@ == values.take(i as int).to_set(),
        {
            let uuid = convert_uuid(services[i].uuid);
            service_uuids.insert(uuid);
            proof {
                assert(values.take(i + 1) =~= values.take(i as int).push(uuid));
                assert(values.take(i as int).push(uuid).to_set() =~= values.take(
                    i as int,
                ).to_set().insert(uuid)) by {
                    broadcast use vstd::seq_lib::group_seq_properties;
                }
            }
        }
        assert(values.take(services@.len() as int) =~= values);
        let advertiser = BluerAdvertiser {
            tx,
            service_uuids: Arc::new(service_uuids),
            ident: Arc::new(self.ident),
        };
        match ApplicationFactory::convert(services) {
            Ok(app_holder) => Ok(ServerSetup { adapter: self.adapter, advertiser, app_holder }),
            Err(e) => Err(e),
        }
    }
}

/// Tells when a client and the server have agreed on another MTU.
#[derive(Debug, Clone, Copy)]
pub struct MtuChangeDetector {
    pub negotiated_mtu: Option<u16>,
}

impl MtuChangeDetector {
    /// A received MTU that differs from the last one is news.
    pub open spec fn is_news(self, received_mtu: Option<u16>) -> bool {
        received_mtu is Some && received_mtu != self.negotiated_mtu
    }

    /// The detector after an MTU was received.
    pub open spec fn after(self, received_mtu: Option<u16>) -> Self {
        if received_mtu is Some {
            MtuChangeDetector { negotiated_mtu: received_mtu }
        } else {
            self
        }
    }

    /// Takes note of a received MTU. Returns what to tell the application, if it is news.
    pub fn maybe_emit_mtu_changed<B: Backend>(
        &mut self,
        conn: &BluerConnection,
        received_mtu: Option<u16>,
    ) -> (r: Option<GattServerEvent<B>>)
        ensures
            *final(self) == old(self).after(received_mtu),
            r == (if old(self).is_news(received_mtu) {
                Some(
                    GattServerEvent::<B>::MtuChanged {
                        connection: *conn,
                        mtu: Mtu(received_mtu->0),
                    },
                )
            } else {
                None
            }),
    {
        if received_mtu != self.negotiated_mtu {
            if let Some(mtu) = received_mtu {
                self.negotiated_mtu = Some(mtu);
                return Some(GattServerEvent::MtuChanged { connection: *conn, mtu: Mtu(mtu) });
            }
        }
        None
    }
}

/// The handles that keep the server and its advertisement registered.
pub struct KeepAliveHandles<B: Backend> {
    pub app: Option<B::ApplicationHandle>,
    pub advertisement: Option<B::AdvertisementHandle>,
}

/// What is to be done next.
pub enum Action<B: Backend> {
    /// Tell the application.
    Callback(GattServerEvent<B>),
    /// Ask the Bluetooth daemon to advertise, and report back with `OnAdvStartResult`.
    Advertise(Advertisement),
    /// Let go of a published application.
    ReleaseApplication(B::ApplicationHandle),
    /// Let go of an advertisement.
    ReleaseAdvertisement(B::AdvertisementHandle),
    /// Leave the loop, and let go of all handles.
    Stop,
}

/// The state of the event loop of a server.
pub struct EventLoop<B: Backend> {
    pub handles: KeepAliveHandles<B>,
    pub mtu_change_detector: MtuChangeDetector,
}

/// What is done with the handle of an application that another takes the place of.
pub open spec fn release_application<B: Backend>(held: Option<B::ApplicationHandle>) -> Seq<
    Action<B>,
> {
    match held {
        Some(handle) => seq![Action::ReleaseApplication(handle)],
        None => Seq::empty(),
    }
}

/// What is done with the handle of an advertisement that is over.
pub open spec fn release_advertisement<B: Backend>(held: Option<B::AdvertisementHandle>) -> Seq<
    Action<B>,
> {
    match held {
        Some(handle) => seq![Action::ReleaseAdvertisement(handle)],
        None => Seq::empty(),
    }
}

/// What the application is told of a received MTU.
pub open spec fn mtu_actions<B: Backend>(
    detector: MtuChangeDetector,
    conn: BluerConnection,
    received_mtu: Option<u16>,
) -> Seq<Action<B>> {
    if detector.is_news(received_mtu) {
        seq![
            Action::Callback(
                GattServerEvent::MtuChanged { connection: conn, mtu: Mtu(received_mtu->0) },
            ),
        ]
    } else {
        Seq::empty()
    }
}

impl<B: Backend> EventLoop<B> {
    /// The state after `event`.
    pub open spec fn next_state(self, event: Event<B>) -> Self {
        match event {
            Event::OnStartResult(Ok((handle, _, _))) => EventLoop {
                handles: KeepAliveHandles { app: Some(handle), ..self.handles },
                ..self
            },
            Event::OnAdvStartResult(Ok(handle)) => EventLoop {
                handles: KeepAliveHandles { advertisement: Some(handle), ..self.handles },
                ..self
            },
            Event::RequestAdvStop => EventLoop {
                handles: KeepAliveHandles { advertisement: None, ..self.handles },
                ..self
            },
            Event::OnHandleRead { mtu, .. } | Event::OnHandleWrite { mtu, .. } => EventLoop {
                mtu_change_detector: self.mtu_change_detector.after(mtu),
                ..self
            },
            _ => self,
        }
    }

    /// What is done about `event`.
    pub open spec fn actions(self, event: Event<B>) -> Seq<Action<B>> {
        match event {
            Event::OnStartResult(Ok((_, advertiser, handle_mapping))) => release_application(
                self.handles.app,
            ).push(Action::Callback(GattServerEvent::ServerStarted { advertiser, handle_mapping })),
            Event::OnStartResult(Err(error)) => seq![
                Action::Callback(GattServerEvent::ServerShutdown { error }),
            ],
            Event::OnHandleDrop => seq![Action::Stop],
            Event::RequestAdvStart(adv) => seq![Action::Advertise(adv)],
            Event::OnAdvStartResult(Ok(_)) => release_advertisement(
                self.handles.advertisement,
            ).push(
                Action::Callback(
                    GattServerEvent::AdvertisingStarted { remaining_connections: None },
                ),
            ),
            Event::OnAdvStartResult(Err(error)) => seq![
                Action::Callback(
                    GattServerEvent::AdvertisingStartFail {
                        reason: AdvStartFailedReason::SystemError(error),
                    },
                ),
            ],
            Event::RequestAdvStop => release_advertisement(self.handles.advertisement).push(
                Action::Callback(
                    GattServerEvent::AdvertisingStopped { reason: AdvStopReason::Requested },
                ),
            ),
            Event::OnHandleRead { conn, mtu, handle, responder } => mtu_actions(
                self.mtu_change_detector,
                conn,
                mtu,
            ).push(
                Action::Callback(
                    GattServerEvent::ReadRequest { connection: conn, handle, responder },
                ),
            ),
            Event::OnHandleWrite {
                conn,
                mtu,
                handle,
                responder,
                action,
                offset,
                value,
            } => mtu_actions(self.mtu_change_detector, conn, mtu).push(
                Action::Callback(
                    GattServerEvent::WriteRequest {
                        connection: conn,
                        handle,
                        responder,
                        action,
                        offset,
                        value,
                    },
                ),
            ),
            Event::OnSubscribe { conn, handle, writer } => seq![
                Action::Callback(GattServerEvent::Subscribe { connection: conn, handle, writer }),
            ],
            Event::OnUnsubscribe { conn, handle } => seq![
                Action::Callback(GattServerEvent::Unsubscribe { connection: conn, handle }),
            ],
        }
    }

    /// The state before any event.
    pub open spec fn initial() -> Self {
        EventLoop {
            handles: KeepAliveHandles { app: None, advertisement: None },
            mtu_change_detector: MtuChangeDetector { negotiated_mtu: None },
        }
    }

    pub fn new() -> (r: Self)
        ensures
            r == Self::initial(),
    {
        EventLoop {
            handles: KeepAliveHandles { app: None, advertisement: None },
            mtu_change_detector: MtuChangeDetector { negotiated_mtu: None },
        }
    }

    /// Takes in an event. Returns what is to be done about it, in this order.
    pub fn on_event(&mut self, event: Event<B>) -> (r: Vec<Action<B>>)
        ensures
            *final(self) == old(self).next_state(event),
            r@ == old(self).actions(event),
    {
        let mut actions: Vec<Action<B>> = Vec::new();
        match event {
            Event::OnStartResult(result) => {
                match result {
                    Ok((handle, advertiser, handle_mapping)) => {
                        if let Some(replaced) = self.handles.app.take() {
                            actions.push(Action::ReleaseApplication(replaced));
                        }
                        self.handles.app = Some(handle);
                        actions.push(
                            Action::Callback(
                                GattServerEvent::ServerStarted { advertiser, handle_mapping },
                            ),
                        );
                    },
                    Err(error) => {
                        actions.push(Action::Callback(GattServerEvent::ServerShutdown { error }));
                    },
                }
            },
            Event::OnHandleDrop => {
                actions.push(Action::Stop);
            },
            Event::RequestAdvStart(adv) => {
                actions.push(Action::Advertise(adv));
            },
            Event::OnAdvStartResult(result) => {
                match result {
                    Ok(handle) => {
                        if let Some(replaced) = self.handles.advertisement.take() {
                            actions.push(Action::ReleaseAdvertisement(replaced));
                        }
                        self.handles.advertisement = Some(handle);
                        actions.push(
                            Action::Callback(
                                GattServerEvent::AdvertisingStarted {
                                    remaining_connections: None,
                                },
                            ),
                        );
                    },
                    Err(error) => {
                        actions.push(
                            Action::Callback(
                                GattServerEvent::AdvertisingStartFail {
                                    reason: AdvStartFailedReason::SystemError(error),
                                },
                            ),
                        );
                    },
                }
            },
            Event::RequestAdvStop => {
                if let Some(handle) = self.handles.advertisement.take() {
                    actions.push(Action::ReleaseAdvertisement(handle));
                }
                actions.push(
                    Action::Callback(
                        GattServerEvent::AdvertisingStopped { reason: AdvStopReason::Requested },
                    ),
                );
            },
            Event::OnHandleRead { conn, mtu, handle, responder } => {
                if let Some(news) = self.mtu_change_detector.maybe_emit_mtu_changed(&conn, mtu) {
                    actions.push(Action::Callback(news));
                }
                actions.push(
                    Action::Callback(
                        GattServerEvent::ReadRequest { connection: conn, handle, responder },
                    ),
                );
            },
            Event::OnHandleWrite { conn, mtu, handle, responder, action, offset, value } => {
                if let Some(news) = self.mtu_change_detector.maybe_emit_mtu_changed(&conn, mtu) {
                    actions.push(Action::Callback(news));
                }
                actions.push(
                    Action::Callback(
                        GattServerEvent::WriteRequest {
                            connection: conn,
                            handle,
                            responder,
                            action,
                            offset,
                            value,
                        },
                    ),
                );
            },
            Event::OnSubscribe { conn, handle, writer } => {
                actions.push(
                    Action::Callback(
                        GattServerEvent::Subscribe { connection: conn, handle, writer },
                    ),
                );
            },
            Event::OnUnsubscribe { conn, handle } => {
                actions.push(
                    Action::Callback(GattServerEvent::Unsubscribe { connection: conn, handle }),
                );
            },
        }
        actions
    }
}

/// An MTU is told to the application once: the same MTU, received again, is no news.
pub proof fn law_mtu_told_once(detector: MtuChangeDetector, received_mtu: Option<u16>)
    ensures
        !detector.after(received_mtu).is_news(received_mtu),
        !detector.is_news(received_mtu) ==> detector.after(received_mtu) == detector,
{
}

/// The MTU that came with an event, if one did.
pub open spec fn received_mtu<B: Backend>(event: Event<B>) -> Option<u16> {
    match event {
        Event::OnHandleRead { mtu, .. } => mtu,
        Event::OnHandleWrite { mtu, .. } => mtu,
        _ => None,
    }
}

/// The state after one event and then the others.
pub open spec fn state_after<B: Backend>(state: EventLoop<B>, events: Seq<Event<B>>) -> EventLoop<B>
    decreases events.len(),
{
    if events.len() == 0 {
        state
    } else {
        state_after(state, events.drop_last()).next_state(events.last())
    }
}

/// The last MTU that came with one of `events`, or `before` if none did.
pub open spec fn last_mtu<B: Backend>(before: Option<u16>, events: Seq<Event<B>>) -> Option<u16>
    decreases events.len(),
{
    if events.len() == 0 {
        before
    } else if received_mtu(events.last()) is Some {
        received_mtu(events.last())
    } else {
        last_mtu(before, events.drop_last())
    }
}

/// After any events, the application has been told of the last MTU that came with one of them:
/// an event tells of an MTU exactly if it brings one other than that.
pub proof fn law_mtu_news<B: Backend>(events: Seq<Event<B>>, event: Event<B>)
    ensures
        ({
            let state = state_after(EventLoop::<B>::initial(), events);
            let known = last_mtu(None, events);
            &&& state.mtu_change_detector.negotiated_mtu == known
            &&& (exists|i: int|
                0 <= i < state.actions(event).len() && (#[trigger] state.actions(
                    event,
                )[i]) matches Action::Callback(GattServerEvent::MtuChanged { .. })) <==> (
            received_mtu(event) is Some && received_mtu(event) != known)
        }),
{
    let initial = EventLoop::<B>::initial();
    let state = state_after(initial, events);
    lemma_negotiated_is_last(events);
    if state.mtu_change_detector.is_news(received_mtu(event)) {
        assert(state.actions(event)[0] matches Action::Callback(GattServerEvent::MtuChanged { .. }));
    }
}

proof fn lemma_negotiated_is_last<B: Backend>(events: Seq<Event<B>>)
    ensures
        state_after(EventLoop::<B>::initial(), events).mtu_change_detector.negotiated_mtu
            == last_mtu(None, events),
    decreases events.len(),
{
    if events.len() > 0 {
        lemma_negotiated_is_last(events.drop_last());
    }
}

/// No handle is lost: a handle that is held stays held until it is released in so many words or
/// the loop stops, and only what was held is released.
pub proof fn law_no_handle_lost<B: Backend>(state: EventLoop<B>, event: Event<B>)
    ensures
        ({
            let next = state.next_state(event);
            let actions = state.actions(event);
            &&& state.handles.app matches Some(h) ==> next.handles.app == Some(h)
                || actions.contains(Action::ReleaseApplication(h))
            &&& state.handles.advertisement matches Some(h) ==> next.handles.advertisement == Some(
                h,
            ) || actions.contains(Action::ReleaseAdvertisement(h))
            &&& forall|i: int|
                0 <= i < actions.len() ==> match #[trigger] actions[i] {
                    Action::ReleaseApplication(h) => state.handles.app == Some(h),
                    Action::ReleaseAdvertisement(h) => state.handles.advertisement == Some(h),
                    _ => true,
                }
        }),
{
    let actions = state.actions(event);
    if let Some(h) = state.handles.app {
        if let Event::OnStartResult(Ok(_)) = event {
            assert(actions[0] == Action::<B>::ReleaseApplication(h));
        }
    }
    if let Some(h) = state.handles.advertisement {
        match event {
            Event::OnAdvStartResult(Ok(_)) | Event::RequestAdvStop => {
                assert(actions[0] == Action::<B>::ReleaseAdvertisement(h));
            },
            _ => {},
        }
    }
}

/// Every event is acted on, and its own action comes last: the loop stops exactly when the
/// server was let go, an advertisement is asked for exactly when the application wants one, and
/// every other event is told to the application.
pub proof fn law_every_event_acted_on<B: Backend>(state: EventLoop<B>, event: Event<B>)
    ensures
        ({
            let actions = state.actions(event);
            &&& actions.len() > 0
            &&& actions.last() == Action::<B>::Stop <==> event == Event::<B>::OnHandleDrop
            &&& (actions.last() matches Action::Advertise(adv) && event
                == Event::<B>::RequestAdvStart(adv)) <==> event is RequestAdvStart
            &&& actions.last() is Callback <==> !(event is OnHandleDrop || event is RequestAdvStart)
        }),
{
}

/// Advertising that was asked to stop is over, whether it ran or not, and the application is
/// told so; asking again changes nothing more.
pub proof fn law_stop_advertising<B: Backend>(state: EventLoop<B>)
    ensures
        ({
            let stopped = state.next_state(Event::RequestAdvStop);
            &&& stopped.handles.advertisement is None
            &&& stopped.handles.app == state.handles.app
            &&& stopped.next_state(Event::RequestAdvStop) == stopped
            &&& stopped.actions(Event::RequestAdvStop) == seq![
                Action::<B>::Callback(
                    GattServerEvent::AdvertisingStopped { reason: AdvStopReason::Requested },
                ),
            ]
        }),
{
    let stopped = state.next_state(Event::RequestAdvStop);
    assert(stopped.actions(Event::RequestAdvStop) =~= seq![
        Action::<B>::Callback(
            GattServerEvent::AdvertisingStopped { reason: AdvStopReason::Requested },
        ),
    ]);
}

/// The application that the last of `events` to start one started, or `before` if none did.
pub open spec fn last_application<B: Backend>(
    before: Option<B::ApplicationHandle>,
    events: Seq<Event<B>>,
) -> Option<B::ApplicationHandle>
    decreases events.len(),
{
    if events.len() == 0 {
        before
    } else {
        match events.last() {
            Event::OnStartResult(Ok((handle, _, _))) => Some(handle),
            _ => last_application(before, events.drop_last()),
        }
    }
}

/// The advertisement that the last of `events` to start one started, unless a stop came after
/// it; `before` if neither came.
pub open spec fn last_advertisement<B: Backend>(
    before: Option<B::AdvertisementHandle>,
    events: Seq<Event<B>>,
) -> Option<B::AdvertisementHandle>
    decreases events.len(),
{
    if events.len() == 0 {
        before
    } else {
        match events.last() {
            Event::OnAdvStartResult(Ok(handle)) => Some(handle),
            Event::RequestAdvStop => None,
            _ => last_advertisement(before, events.drop_last()),
        }
    }
}

/// What runs is kept alive: after any events, the loop holds the application that started last,
/// and the advertisement that started last unless it was asked to stop since.
pub proof fn law_running_is_held<B: Backend>(state: EventLoop<B>, events: Seq<Event<B>>)
    ensures
        state_after(state, events).handles.app == last_application(state.handles.app, events),
        state_after(state, events).handles.advertisement == last_advertisement(
            state.handles.advertisement,
            events,
        ),
    decreases events.len(),
{
    if events.len() > 0 {
        law_running_is_held(state, events.drop_last());
    }
}

} // verus!
