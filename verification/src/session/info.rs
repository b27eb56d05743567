//! What the session reports about itself to monitoring code.
use vstd::prelude::*;

verus! {

/// The status of the session as reported to external consumers.
///
/// These correspond to the session's states without their internals.
#[derive(Clone, Copy, Debug, PartialEq, Eq, Structural)]
pub enum Status {
    AwaitingLogon,
    AwaitingResend { begin: u64, end: u64, attempts: u64 },
    AwaitingLogout,
    Active,
    LoggedOut,
    Disconnected,
}

/// Information about the session's current state.
#[derive(Clone, Copy, Debug, PartialEq, Eq, Structural)]
pub struct SessionInfo {
    pub next_sender_seq_number: u64,
    pub next_target_seq_number: u64,
    pub status: Status,
}

} // verus!
