//! The errors with which requests of clients are answered.

use vstd::prelude::*;

verus! {

/// The errors of the attribute protocol, with which an application may answer.
#[derive(Debug, Clone, Copy, PartialEq, Eq, Structural)]
pub enum AttError {
    InvalidHandle,
    ReadNotPermitted,
    WriteNotPermitted,
    InvalidPdu,
    InsufficientAuthentication,
    RequestNotSupported,
    InvalidOffset,
    InsufficientAuthorization,
    PrepareQueueFull,
    AttributeNotFound,
    AttributeTooLong,
    InsufficientKeySize,
    InvalidAttributeValueLength,
    Unlikely,
    InsufficientEncryption,
    UnsupportedGroupType,
    InsufficientResources,
}

/// The errors that BlueZ takes for an answer.
#[derive(Debug, Clone, Copy, PartialEq, Eq, Structural)]
pub enum ReqError {
    Failed,
    InProgress,
    InvalidOffset,
    InvalidValueLength,
    NotPermitted,
    NotAuthorized,
    NotSupported,
}

/// The answer of BlueZ that comes closest to an error of the attribute protocol.
pub open spec fn closest_req_error(e: AttError) -> ReqError {
    match e {
        AttError::ReadNotPermitted | AttError::WriteNotPermitted => ReqError::NotPermitted,
        AttError::InvalidPdu | AttError::RequestNotSupported => ReqError::NotSupported,
        AttError::InsufficientAuthentication
        | AttError::InsufficientAuthorization => ReqError::NotAuthorized,
        AttError::InvalidOffset => ReqError::InvalidOffset,
        AttError::InvalidAttributeValueLength => ReqError::InvalidValueLength,
        _ => ReqError::Failed,
    }
}

/// Turns an error of the attribute protocol into one that BlueZ takes.
pub fn att_to_req_error(e: AttError) -> (r: ReqError)
    ensures
        r == closest_req_error(e),
{
    match e {
        AttError::InvalidHandle => ReqError::Failed,
        AttError::ReadNotPermitted => ReqError::NotPermitted,
        AttError::WriteNotPermitted => ReqError::NotPermitted,
        AttError::InvalidPdu => ReqError::NotSupported,
        AttError::InsufficientAuthentication => ReqError::NotAuthorized,
        AttError::RequestNotSupported => ReqError::NotSupported,
        AttError::InvalidOffset => ReqError::InvalidOffset,
        AttError::InsufficientAuthorization => ReqError::NotAuthorized,
        AttError::PrepareQueueFull => ReqError::Failed,
        AttError::AttributeNotFound => ReqError::Failed,
        AttError::AttributeTooLong => ReqError::Failed,
        AttError::InsufficientKeySize => ReqError::Failed,
        AttError::InvalidAttributeValueLength => ReqError::InvalidValueLength,
        AttError::Unlikely => ReqError::Failed,
        AttError::InsufficientEncryption => ReqError::Failed,
        AttError::UnsupportedGroupType => ReqError::Failed,
        AttError::InsufficientResources => ReqError::Failed,
    }
}

} // verus!
