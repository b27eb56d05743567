//! Errors of the session layer.
use vstd::prelude::*;

use crate::message::EncodeError;
use crate::store::StoreError;

verus! {

/// Why a session could not be set up or an operation on its store failed.
#[derive(Debug, Clone, PartialEq, Eq)]
pub enum SessionError {
    /// The schedule configuration is invalid; the text says why.
    InvalidSchedule(String),
    /// A store operation failed.
    Store(StoreError),
}

/// Outcome of a successful message send operation.
#[derive(Debug, Clone, PartialEq, Eq)]
pub enum SendOutcome {
    /// Message was persisted and sent with the given sequence number.
    Sent { sequence_number: u64 },
    /// Message was dropped by the application callback.
    Dropped,
}

/// Error that can occur when sending a message.
#[derive(Debug, Clone, PartialEq, Eq)]
pub enum SendError {
    /// The session is disconnected.
    Disconnected,
    /// The message could not be persisted.
    Persist(StoreError),
    /// The sequence number could not be updated.
    SequenceNumber(StoreError),
    /// The application asked for the session to be terminated.
    SessionTerminated,
    /// The confirmation channel closed before the outcome was known.
    ConfirmationLost,
}

/// Why a message the session meant to send was not sent.
#[derive(Debug, Clone, PartialEq, Eq)]
pub enum InternalSendError {
    /// The message could not be persisted.
    Persist(StoreError),
    /// The sender sequence number could not be advanced.
    SequenceNumber(StoreError),
}

/// Why handling an event failed; the session then logs out and disconnects.
#[derive(Debug, Clone, PartialEq, Eq)]
pub enum SessionOperationError {
    /// A field the message must have is missing.
    MissingField(String),
    /// A stored message could not be read back as a FIX message.
    StoredMessageParse(String),
    /// A store operation failed.
    Store(StoreError),
    /// A message could not be sent; the context says which.
    Send { context: String, source: InternalSendError },
}

/// A short description of the failure `e`.
pub open spec fn operation_error_text(e: SessionOperationError) -> Seq<char> {
    match e {
        SessionOperationError::MissingField(f) => "missing field "@ + f@,
        SessionOperationError::StoredMessageParse(m) => m@,
        SessionOperationError::Store(_) => "store operation failed"@,
        SessionOperationError::Send { context, .. } => "failed to send "@ + context@,
    }
}

impl SessionOperationError {
    /// A short description of the failure.
    pub fn describe(&self) -> (r: String)
        ensures
            r@ == operation_error_text(*self),
    {
        match self {
            SessionOperationError::MissingField(f) => String::from_str("missing field ").concat(f.as_str()),
            SessionOperationError::StoredMessageParse(m) => m.clone(),
            SessionOperationError::Store(_) => String::from_str("store operation failed"),
            SessionOperationError::Send { context, .. } => String::from_str("failed to send ").concat(
                context.as_str(),
            ),
        }
    }
}

/// The session's task has ended, so a request to it cannot be delivered or answered.
#[derive(Debug, Clone, PartialEq, Eq)]
pub struct SessionGone(pub String);

impl SessionGone {
    /// A description of the failure.
    pub fn describe(&self) -> (r: String)
        ensures
            r@ == "session task terminated"@,
    {
        String::from_str("session task terminated")
    }
}

impl SendError {
    /// The error a caller of the session sees for a failed send.
    pub fn from_internal(e: InternalSendError) -> (r: SendError)
        ensures
            match e {
                InternalSendError::Persist(s) => r == SendError::Persist(s),
                InternalSendError::SequenceNumber(s) => r == SendError::SequenceNumber(s),
            },
    {
        match e {
            InternalSendError::Persist(s) => SendError::Persist(s),
            InternalSendError::SequenceNumber(s) => SendError::SequenceNumber(s),
        }
    }
}

} // verus!
