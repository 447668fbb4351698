//! The message types of the IPC protocol.

use vstd::prelude::*;
use crate::error::LatticeError;
use crate::query::lexer::{decimal_chars, push_decimal};
use crate::text::string_of;

pub mod frame;
pub mod requests;
pub mod handlers;

verus! {

/// Largest IPC message (100 MiB).
pub const MAX_MESSAGE_SIZE: u32 = 104857600;

/// Kinds of IPC messages; each travels as its 16-bit code.
#[derive(Debug, Clone, Copy, PartialEq, Eq, Structural)]
pub enum MessageType {
    Unknown,
    ShareRequest,
    ShareResponse,
    RevokeRequest,
    RevokeResponse,
    FetchRequest,
    FetchResponse,
    SyncEvent,
    SyncAck,
    StatusRequest,
    StatusResponse,
    ShutdownRequest,
    ShutdownResponse,
    WatchRegisterRequest,
    WatchRegisterResponse,
    WatchUnregisterRequest,
    WatchUnregisterResponse,
    WatchListRequest,
    WatchListResponse,
    WatchStatusRequest,
    WatchStatusResponse,
    Error,
}

/// The wire code of a message type.
pub open spec fn message_code(t: MessageType) -> u16 {
    match t {
        MessageType::Unknown => 0,
        MessageType::ShareRequest => 101,
        MessageType::ShareResponse => 102,
        MessageType::RevokeRequest => 103,
        MessageType::RevokeResponse => 104,
        MessageType::FetchRequest => 105,
        MessageType::FetchResponse => 106,
        MessageType::SyncEvent => 201,
        MessageType::SyncAck => 202,
        MessageType::StatusRequest => 301,
        MessageType::StatusResponse => 302,
        MessageType::ShutdownRequest => 303,
        MessageType::ShutdownResponse => 304,
        MessageType::WatchRegisterRequest => 401,
        MessageType::WatchRegisterResponse => 402,
        MessageType::WatchUnregisterRequest => 403,
        MessageType::WatchUnregisterResponse => 404,
        MessageType::WatchListRequest => 405,
        MessageType::WatchListResponse => 406,
        MessageType::WatchStatusRequest => 407,
        MessageType::WatchStatusResponse => 408,
        MessageType::Error => 999,
    }
}

impl MessageType {
    /// The wire code.
    pub fn code(&self) -> (r: u16)
        ensures
            r == message_code(*self),
    {
        match self {
            MessageType::Unknown => 0,
            MessageType::ShareRequest => 101,
            MessageType::ShareResponse => 102,
            MessageType::RevokeRequest => 103,
            MessageType::RevokeResponse => 104,
            MessageType::FetchRequest => 105,
            MessageType::FetchResponse => 106,
            MessageType::SyncEvent => 201,
            MessageType::SyncAck => 202,
            MessageType::StatusRequest => 301,
            MessageType::StatusResponse => 302,
            MessageType::ShutdownRequest => 303,
            MessageType::ShutdownResponse => 304,
            MessageType::WatchRegisterRequest => 401,
            MessageType::WatchRegisterResponse => 402,
            MessageType::WatchUnregisterRequest => 403,
            MessageType::WatchUnregisterResponse => 404,
            MessageType::WatchListRequest => 405,
            MessageType::WatchListResponse => 406,
            MessageType::WatchStatusRequest => 407,
            MessageType::WatchStatusResponse => 408,
            MessageType::Error => 999,
        }
    }

    /// The message type with this wire code; an unknown code is an error
    /// naming it.
    pub fn from_u16(value: u16) -> (r: Result<MessageType, LatticeError>)
        ensures
            (exists|t: MessageType| message_code(t) == value) <==> r is Ok,
            r matches Ok(t) ==> message_code(t) == value,
            r matches Err(e) ==> (e matches LatticeError::InvalidPredicate(m)
                && m@ == "Unknown message type: "@ + decimal_chars(value as nat)),
    {
        let t = match value {
            0 => MessageType::Unknown,
            101 => MessageType::ShareRequest,
            102 => MessageType::ShareResponse,
            103 => MessageType::RevokeRequest,
            104 => MessageType::RevokeResponse,
            105 => MessageType::FetchRequest,
            106 => MessageType::FetchResponse,
            201 => MessageType::SyncEvent,
            202 => MessageType::SyncAck,
            301 => MessageType::StatusRequest,
            302 => MessageType::StatusResponse,
            303 => MessageType::ShutdownRequest,
            304 => MessageType::ShutdownResponse,
            401 => MessageType::WatchRegisterRequest,
            402 => MessageType::WatchRegisterResponse,
            403 => MessageType::WatchUnregisterRequest,
            404 => MessageType::WatchUnregisterResponse,
            405 => MessageType::WatchListRequest,
            406 => MessageType::WatchListResponse,
            407 => MessageType::WatchStatusRequest,
            408 => MessageType::WatchStatusResponse,
            999 => MessageType::Error,
            _ => {
                let mut m = string_of("Unknown message type: ");
                push_decimal(&mut m, value as u64);
                proof {
                    assert forall|t: MessageType| message_code(t) != value by {
                        match t {
                            MessageType::Unknown => {},
                            _ => {},
                        }
                    }
                }
                return Err(LatticeError::InvalidPredicate(m));
            },
        };
        assert(message_code(t) == value);
        Ok(t)
    }
}

/// A message type's code reads back as that type.
pub proof fn lemma_code_roundtrip(t: MessageType, u: MessageType)
    requires
        message_code(t) == message_code(u),
    ensures
        t == u,
{
}

} // verus!
