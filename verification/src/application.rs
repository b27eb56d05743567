//! What the user's application decides about the messages that pass through
//! the session.
use vstd::prelude::*;

use crate::message::{Message, OutboundMessage};
use crate::session::info::Status;

verus! {

/// The application users of the engine implement to hook into the session.
///
/// The session's logic holds for every answer these methods give.
pub trait Application {
    type Outbound: OutboundMessage;

    /// Called when a message is handed to the engine to be sent to the counterparty,
    /// before the message is persisted in the message store.
    fn on_outbound_message(&self, msg: &Self::Outbound) -> OutboundDecision;

    /// Called when a message is received from the counterparty, after the session
    /// layer has verified it.
    fn on_inbound_message(&self, msg: &Message) -> InboundDecision;

    /// Called when the session is logged out (delivered from the session's
    /// `AppNotice::LoggedOut`).
    fn on_logout(&mut self, reason: &str);

    /// Called when the session is logged on (delivered from `AppNotice::LoggedOn`).
    fn on_logon(&mut self);

    /// Called after every state transition that changes the status (delivered
    /// from `AppNotice::StateChange`).
    fn on_state_change(&self, from: &Status, to: &Status);
}

/// A notification the session owes the application: the runtime delivers each,
/// in order, by calling the `Application` method of the same name.
#[derive(Clone, Debug, PartialEq, Eq)]
pub enum AppNotice {
    /// `on_state_change(from, to)`: a transition changed the status.
    StateChange { from: Status, to: Status },
    /// `on_logon()`: the session is logged on.
    LoggedOn,
    /// `on_logout(reason)`: the session was logged out for `reason`.
    LoggedOut(&'static str),
}

/// Standard FIX Business Reject Reason values (tag 380).
#[derive(Clone, Copy, Debug, PartialEq, Eq)]
pub enum BusinessRejectReason {
    Other,
    UnknownId,
    UnknownSecurity,
    UnsupportedMessageType,
    ApplicationNotAvailable,
    ConditionallyRequiredFieldMissing,
    NotAuthorized,
    DeliverToFirmNotAvailable,
}

impl BusinessRejectReason {
    pub open spec fn spec_code(self) -> u64 {
        match self {
            BusinessRejectReason::Other => 0,
            BusinessRejectReason::UnknownId => 1,
            BusinessRejectReason::UnknownSecurity => 2,
            BusinessRejectReason::UnsupportedMessageType => 3,
            BusinessRejectReason::ApplicationNotAvailable => 4,
            BusinessRejectReason::ConditionallyRequiredFieldMissing => 5,
            BusinessRejectReason::NotAuthorized => 6,
            BusinessRejectReason::DeliverToFirmNotAvailable => 7,
        }
    }

    pub open spec fn spec_from_code(code: u64) -> Option<BusinessRejectReason> {
        if code == 0 {
            Some(BusinessRejectReason::Other)
        } else if code == 1 {
            Some(BusinessRejectReason::UnknownId)
        } else if code == 2 {
            Some(BusinessRejectReason::UnknownSecurity)
        } else if code == 3 {
            Some(BusinessRejectReason::UnsupportedMessageType)
        } else if code == 4 {
            Some(BusinessRejectReason::ApplicationNotAvailable)
        } else if code == 5 {
            Some(BusinessRejectReason::ConditionallyRequiredFieldMissing)
        } else if code == 6 {
            Some(BusinessRejectReason::NotAuthorized)
        } else if code == 7 {
            Some(BusinessRejectReason::DeliverToFirmNotAvailable)
        } else {
            None
        }
    }

    /// The number that stands for the reason on the wire.
    pub fn code(&self) -> (r: u64)
        ensures
            r == self.spec_code(),
    {
        match self {
            BusinessRejectReason::Other => 0,
            BusinessRejectReason::UnknownId => 1,
            BusinessRejectReason::UnknownSecurity => 2,
            BusinessRejectReason::UnsupportedMessageType => 3,
            BusinessRejectReason::ApplicationNotAvailable => 4,
            BusinessRejectReason::ConditionallyRequiredFieldMissing => 5,
            BusinessRejectReason::NotAuthorized => 6,
            BusinessRejectReason::DeliverToFirmNotAvailable => 7,
        }
    }

    /// The reason a wire number stands for, where it stands for one.
    pub fn from_code(code: u64) -> (r: Option<BusinessRejectReason>)
        ensures
            r == Self::spec_from_code(code),
    {
        if code == 0 {
            Some(BusinessRejectReason::Other)
        } else if code == 1 {
            Some(BusinessRejectReason::UnknownId)
        } else if code == 2 {
            Some(BusinessRejectReason::UnknownSecurity)
        } else if code == 3 {
            Some(BusinessRejectReason::UnsupportedMessageType)
        } else if code == 4 {
            Some(BusinessRejectReason::ApplicationNotAvailable)
        } else if code == 5 {
            Some(BusinessRejectReason::ConditionallyRequiredFieldMissing)
        } else if code == 6 {
            Some(BusinessRejectReason::NotAuthorized)
        } else if code == 7 {
            Some(BusinessRejectReason::DeliverToFirmNotAvailable)
        } else {
            None
        }
    }
}

/// Every reason reads back from its own wire number.
pub proof fn lemma_business_reject_reason_code(r: BusinessRejectReason)
    ensures
        BusinessRejectReason::spec_from_code(r.spec_code()) == Some(r),
{
}

/// The application's answer to an inbound application message.
pub enum InboundDecision {
    Accept,
    Reject { reason: BusinessRejectReason, text: Option<String> },
    TerminateSession,
}

/// The application's answer to a message it asked the session to send.
#[derive(Clone, Copy, Debug, PartialEq, Eq)]
pub enum OutboundDecision {
    Send,
    Drop,
    TerminateSession,
}

} // verus!
