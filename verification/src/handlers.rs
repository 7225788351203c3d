//! What is done about the requests of clients, up to the event loop and back.

use crate::att_error::{att_to_req_error, closest_req_error, AttError, ReqError};
use crate::connection::{BluerConnection, BluetoothAddress};
use crate::descriptors::AttributeHandle;
use crate::event::{Backend, Event, WriteAction};
use crate::responder::{missing_reply, reply_view, response_view, Reply, Response};
use vstd::prelude::*;

verus! {

/// A kind of request that tells who makes it.
pub trait HasConnectionFields {
    type Inner;

    spec fn spec_address(inner: Self::Inner) -> BluetoothAddress;

    spec fn spec_mtu(inner: Self::Inner) -> Option<u16>;

    fn address(inner: &Self::Inner) -> (r: &BluetoothAddress)
        ensures
            *r == Self::spec_address(*inner),
    ;

    fn mtu(inner: &Self::Inner) -> (r: Option<u16>)
        ensures
            r == Self::spec_mtu(*inner),
    ;
}

/// A kind of request that tells where in the value it writes.
pub trait HasWriteFields {
    type Inner;

    spec fn spec_offset(inner: Self::Inner) -> u16;

    fn offset(inner: &Self::Inner) -> (r: u16)
        ensures
            r == Self::spec_offset(*inner),
    ;
}

/// A client reads a descriptor.
#[derive(Debug, Clone, Copy)]
pub struct DescriptorReadRequest {
    pub device_address: BluetoothAddress,
}

/// A client writes to a descriptor.
#[derive(Debug, Clone, Copy)]
pub struct DescriptorWriteRequest {
    pub device_address: BluetoothAddress,
    pub offset: u16,
}

/// A client reads a characteristic.
#[derive(Debug, Clone, Copy)]
pub struct CharacteristicReadRequest {
    pub device_address: BluetoothAddress,
    pub mtu: u16,
}

/// A client writes to a characteristic.
#[derive(Debug, Clone, Copy)]
pub struct CharacteristicWriteRequest {
    pub device_address: BluetoothAddress,
    pub offset: u16,
    pub mtu: u16,
}

pub struct DescriptorReadRequestType;

impl HasConnectionFields for DescriptorReadRequestType {
    type Inner = DescriptorReadRequest;

    open spec fn spec_address(inner: DescriptorReadRequest) -> BluetoothAddress {
        inner.device_address
    }

    open spec fn spec_mtu(inner: DescriptorReadRequest) -> Option<u16> {
        None
    }

    fn address(inner: &DescriptorReadRequest) -> &BluetoothAddress {
        &inner.device_address
    }

    fn mtu(_inner: &DescriptorReadRequest) -> Option<u16> {
        None
    }
}

pub struct DescriptorWriteRequestType;

impl HasConnectionFields for DescriptorWriteRequestType {
    type Inner = DescriptorWriteRequest;

    open spec fn spec_address(inner: DescriptorWriteRequest) -> BluetoothAddress {
        inner.device_address
    }

    open spec fn spec_mtu(inner: DescriptorWriteRequest) -> Option<u16> {
        None
    }

    fn address(inner: &DescriptorWriteRequest) -> &BluetoothAddress {
        &inner.device_address
    }

    fn mtu(_inner: &DescriptorWriteRequest) -> Option<u16> {
        None
    }
}

impl HasWriteFields for DescriptorWriteRequestType {
    type Inner = DescriptorWriteRequest;

    open spec fn spec_offset(inner: DescriptorWriteRequest) -> u16 {
        inner.offset
    }

    fn offset(inner: &DescriptorWriteRequest) -> u16 {
        inner.offset
    }
}

pub struct CharacteristicReadRequestType;

impl HasConnectionFields for CharacteristicReadRequestType {
    type Inner = CharacteristicReadRequest;

    open spec fn spec_address(inner: CharacteristicReadRequest) -> BluetoothAddress {
        inner.device_address
    }

    open spec fn spec_mtu(inner: CharacteristicReadRequest) -> Option<u16> {
        Some(inner.mtu)
    }

    fn address(inner: &CharacteristicReadRequest) -> &BluetoothAddress {
        &inner.device_address
    }

    fn mtu(inner: &CharacteristicReadRequest) -> Option<u16> {
        Some(inner.mtu)
    }
}

pub struct CharacteristicWriteRequestType;

impl HasConnectionFields for CharacteristicWriteRequestType {
    type Inner = CharacteristicWriteRequest;

    open spec fn spec_address(inner: CharacteristicWriteRequest) -> BluetoothAddress {
        inner.device_address
    }

    open spec fn spec_mtu(inner: CharacteristicWriteRequest) -> Option<u16> {
        Some(inner.mtu)
    }

    fn address(inner: &CharacteristicWriteRequest) -> &BluetoothAddress {
        &inner.device_address
    }

    fn mtu(inner: &CharacteristicWriteRequest) -> Option<u16> {
        Some(inner.mtu)
    }
}

impl HasWriteFields for CharacteristicWriteRequestType {
    type Inner = CharacteristicWriteRequest;

    open spec fn spec_offset(inner: CharacteristicWriteRequest) -> u16 {
        inner.offset
    }

    fn offset(inner: &CharacteristicWriteRequest) -> u16 {
        inner.offset
    }
}

/// How far a read request got.
#[derive(Debug)]
pub enum ReadProgress {
    /// The event loop is gone, so the request did not reach it.
    NotDelivered,
    /// The request got there, and went away unanswered.
    Unanswered,
    /// The request was answered.
    Answered(Reply),
}

/// What a client gets that reads.
pub open spec fn read_result(progress: ReadProgress) -> Result<Vec<u8>, ReqError> {
    match progress {
        ReadProgress::NotDelivered | ReadProgress::Unanswered => Err(ReqError::Failed),
        ReadProgress::Answered(Err(e)) => Err(closest_req_error(e)),
        ReadProgress::Answered(Ok((offset, value))) => if offset > 0 {
            Err(ReqError::InvalidOffset)
        } else {
            Ok(value)
        },
    }
}

/// Handles the reads of one attribute.
#[derive(Debug, Clone, Copy)]
pub struct ReadHandler {
    pub handle: AttributeHandle,
}

impl ReadHandler {
    /// The event that a read request sets off.
    pub fn request<T: HasConnectionFields, B: Backend>(
        &self,
        req: &T::Inner,
        responder: B::Responder,
    ) -> (r: Event<B>)
        ensures
            r == (Event::<B>::OnHandleRead {
                conn: BluerConnection { address: T::spec_address(*req) },
                mtu: T::spec_mtu(*req),
                handle: self.handle,
                responder,
            }),
    {
        Event::OnHandleRead {
            conn: BluerConnection::new(T::address(req)),
            mtu: T::mtu(req),
            handle: self.handle,
            responder,
        }
    }

    /// What the client gets. An answer must hold the value from its start.
    pub fn finish(progress: ReadProgress) -> (res: Result<Vec<u8>, ReqError>)
        ensures
            res == read_result(progress),
    {
        let reply = match progress {
            ReadProgress::NotDelivered => {
                return Err(ReqError::Failed);
            },
            ReadProgress::Unanswered => {
                return Err(ReqError::Failed);
            },
            ReadProgress::Answered(reply) => reply,
        };
        let response = match reply {
            Ok(response) => response,
            Err(e) => {
                return Err(att_to_req_error(e));
            },
        };
        if response.0 > 0 {
            return Err(ReqError::InvalidOffset);
        }
        Ok(response.1)
    }
}

/// Handles the writes to one attribute.
#[derive(Debug, Clone, Copy)]
pub struct WriteHandler {
    pub handle: AttributeHandle,
}

impl WriteHandler {
    /// The event that a write request sets off. Nobody waits for an answer.
    pub fn request<T, B: Backend>(
        &self,
        value: Vec<u8>,
        req: &<T as HasConnectionFields>::Inner,
    ) -> (r: Event<B>) where
        T: HasConnectionFields + HasWriteFields<Inner = <T as HasConnectionFields>::Inner>,

        ensures
            r == (Event::<B>::OnHandleWrite {
                conn: BluerConnection { address: T::spec_address(*req) },
                mtu: T::spec_mtu(*req),
                handle: self.handle,
                responder: None,
                action: WriteAction::Normal,
                offset: T::spec_offset(*req),
                value,
            }),
    {
        Event::OnHandleWrite {
            conn: BluerConnection::new(T::address(req)),
            mtu: T::mtu(req),
            handle: self.handle,
            responder: None,
            action: WriteAction::Normal,
            offset: T::offset(req),
            value,
        }
    }

    /// What the client gets.
    pub fn finish(delivered: bool) -> (res: Result<(), ReqError>)
        ensures
            res == (if delivered {
                Ok::<(), ReqError>(())
            } else {
                Err(ReqError::Failed)
            }),
    {
        if delivered {
            Ok(())
        } else {
            Err(ReqError::Failed)
        }
    }
}

/// How the sending of a notification ended.
#[derive(Debug, Clone, Copy, PartialEq, Eq, Structural)]
pub enum NotifyOutcome {
    Sent,
    /// It failed, since the client has stopped the session.
    Stopped,
    /// It failed for another reason.
    Failed,
}

/// What happened in a notification session.
#[derive(Debug)]
pub enum NotifyInput {
    /// The event of the subscription was sent to the event loop, which may be gone.
    SubscribeSent { delivered: bool },
    /// The application wants to send a value.
    Value(Vec<u8>),
    /// The application will not send any more values.
    WriterGone,
    /// A notification was sent.
    Notified(NotifyOutcome),
}

/// What a notification session does next.
pub enum NotifyStep<B: Backend> {
    /// Wait for a value from the application.
    AwaitValue,
    /// Send the event to the event loop, then wait for a value from the application.
    Report(Event<B>),
    /// Send a notification to the client.
    Notify(Vec<u8>),
    /// End the session.
    End,
}

/// Handles the subscriptions to one characteristic.
#[derive(Debug, Clone, Copy)]
pub struct NotifyHandler {
    pub handle: AttributeHandle,
}

impl NotifyHandler {
    /// The event that a subscription sets off. BlueZ does not tell who subscribes.
    pub fn request<B: Backend>(&self, writer: B::Writer) -> (r: Event<B>)
        ensures
            r matches Event::OnSubscribe { conn, handle, writer: w } && conn.is_unknown()
                && handle == self.handle && w == writer,
    {
        Event::OnSubscribe { conn: BluerConnection::unknown(), handle: self.handle, writer }
    }

    /// `step` is what follows `input`. A session that the event loop knows of goes on until the
    /// application sends no more, even where a notification fails. That the client has
    /// stopped the session is reported each time it shows.
    pub open spec fn follows<B: Backend>(self, input: NotifyInput, step: NotifyStep<B>) -> bool {
        match input {
            NotifyInput::SubscribeSent { delivered } => if delivered {
                step == NotifyStep::<B>::AwaitValue
            } else {
                step == NotifyStep::<B>::End
            },
            NotifyInput::Value(value) => step == NotifyStep::<B>::Notify(value),
            NotifyInput::WriterGone => step == NotifyStep::<B>::End,
            NotifyInput::Notified(NotifyOutcome::Stopped) => {
                step matches NotifyStep::Report(Event::OnUnsubscribe { conn, handle })
                    && conn.is_unknown() && handle == self.handle
            },
            NotifyInput::Notified(_) => step == NotifyStep::<B>::AwaitValue,
        }
    }

    /// Tells what a session does next.
    pub fn next_step<B: Backend>(&self, input: NotifyInput) -> (r: NotifyStep<B>)
        ensures
            self.follows(input, r),
    {
        match input {
            NotifyInput::SubscribeSent { delivered } => {
                if delivered {
                    NotifyStep::AwaitValue
                } else {
                    NotifyStep::End
                }
            },
            NotifyInput::Value(value) => NotifyStep::Notify(value),
            NotifyInput::WriterGone => NotifyStep::End,
            NotifyInput::Notified(outcome) => match outcome {
                NotifyOutcome::Stopped => NotifyStep::Report(
                    Event::OnUnsubscribe { conn: BluerConnection::unknown(), handle: self.handle },
                ),
                _ => NotifyStep::AwaitValue,
            },
        }
    }
}

/// A client reads what the application answered: a whole value arrives unchanged, a value that
/// does not start at its beginning is refused, and an error arrives as the one of BlueZ that
/// comes closest.
pub proof fn law_read_gets_answer(response: Result<Response<'_>, AttError>, reply: Reply)
    requires
        reply_view(reply) == response_view(response),
    ensures
        match response {
            Ok(r) => if r.offset == 0 {
                read_result(ReadProgress::Answered(reply)) matches Ok(value) && value@ == r.value@
            } else {
                read_result(ReadProgress::Answered(reply)) == Err::<Vec<u8>, ReqError>(
                    ReqError::InvalidOffset,
                )
            },
            Err(e) => read_result(ReadProgress::Answered(reply)) == Err::<Vec<u8>, ReqError>(
                closest_req_error(e),
            ),
        },
{
}

/// A read that the application leaves unanswered fails, by whichever way it gets lost.
pub proof fn law_unanswered_read_fails()
    ensures
        read_result(ReadProgress::Answered(missing_reply())) == Err::<Vec<u8>, ReqError>(ReqError::Failed),
        read_result(ReadProgress::Unanswered) == Err::<Vec<u8>, ReqError>(ReqError::Failed),
        read_result(ReadProgress::NotDelivered) == Err::<Vec<u8>, ReqError>(ReqError::Failed),
{
}

/// A subscription that the event loop knows of ends only with the application: a notification
/// that fails, even for a client that has stopped, does not end it.
pub proof fn law_session_ends_with_writer<B: Backend>(
    handler: NotifyHandler,
    input: NotifyInput,
    step: NotifyStep<B>,
)
    requires
        handler.follows(input, step),
    ensures
        step is End <==> input is WriterGone || input == (NotifyInput::SubscribeSent {
            delivered: false,
        }),
        step is Report <==> input == NotifyInput::Notified(NotifyOutcome::Stopped),
{
}

} // verus!
