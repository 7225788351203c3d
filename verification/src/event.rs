//! What goes through the event loop of a server, and what comes out of it for the application.

use crate::advertisement::Advertisement;
use crate::connection::BluerConnection;
use crate::descriptors::AttributeHandle;
use crate::err_util::Error;
use crate::uuid_util::UUID;
use vstd::prelude::*;

verus! {

/// The resources that the event loop passes on and never looks into.
pub trait Backend: Sized {
    /// The error of a call to the Bluetooth daemon.
    type SystemError;

    /// Keeps the published application registered until it is dropped.
    type ApplicationHandle;

    /// Keeps an advertisement registered until it is dropped.
    type AdvertisementHandle;

    /// Starts and stops advertisements.
    type Advertiser;

    /// Takes the answer to a request.
    type Responder;

    /// Sends notifications to a subscriber.
    type Writer;
}

/// Why an operation failed: by a finding of the library, or in the Bluetooth daemon.
pub enum SystemError<B: Backend> {
    Generic(Error),
    Backend(B::SystemError),
}

/// What happened, or is asked for.
pub enum Event<B: Backend> {
    OnStartResult(
        Result<
            (B::ApplicationHandle, B::Advertiser, Vec<(UUID, AttributeHandle)>),
            SystemError<B>,
        >,
    ),
    OnHandleDrop,
    RequestAdvStart(Advertisement),
    RequestAdvStop,
    OnAdvStartResult(Result<B::AdvertisementHandle, SystemError<B>>),
    OnHandleRead {
        conn: BluerConnection,
        mtu: Option<u16>,
        handle: AttributeHandle,
        responder: B::Responder,
    },
    OnHandleWrite {
        conn: BluerConnection,
        mtu: Option<u16>,
        handle: AttributeHandle,
        responder: Option<B::Responder>,
        action: WriteAction,
        offset: u16,
        value: Vec<u8>,
    },
    OnSubscribe { conn: BluerConnection, handle: AttributeHandle, writer: B::Writer },
    OnUnsubscribe { conn: BluerConnection, handle: AttributeHandle },
}

/// How a write is to be carried out.
#[derive(Debug, Clone, Copy, PartialEq, Eq, Structural)]
pub enum WriteAction {
    Normal,
}

/// The largest packet that a connection can carry.
#[derive(Debug, Clone, Copy, PartialEq, Eq, Structural)]
pub struct Mtu(pub u16);

/// Why advertising ended.
#[derive(Debug, Clone, Copy, PartialEq, Eq, Structural)]
pub enum AdvStopReason {
    Requested,
}

/// Why advertising did not start.
pub enum AdvStartFailedReason<B: Backend> {
    SystemError(SystemError<B>),
}

/// What the application is told.
pub enum GattServerEvent<B: Backend> {
    ServerStarted { advertiser: B::Advertiser, handle_mapping: Vec<(UUID, AttributeHandle)> },
    ServerShutdown { error: SystemError<B> },
    AdvertisingStarted { remaining_connections: Option<u16> },
    AdvertisingStartFail { reason: AdvStartFailedReason<B> },
    AdvertisingStopped { reason: AdvStopReason },
    MtuChanged { connection: BluerConnection, mtu: Mtu },
    ReadRequest { connection: BluerConnection, handle: AttributeHandle, responder: B::Responder },
    WriteRequest {
        connection: BluerConnection,
        handle: AttributeHandle,
        responder: Option<B::Responder>,
        action: WriteAction,
        offset: u16,
        value: Vec<u8>,
    },
    Subscribe { connection: BluerConnection, handle: AttributeHandle, writer: B::Writer },
    Unsubscribe { connection: BluerConnection, handle: AttributeHandle },
}

} // verus!
