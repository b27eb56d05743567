//! Answers the session gives to the connection loop.
use vstd::prelude::*;

verus! {

/// The response to a request to be told when the schedule lets us connect.
#[derive(Debug, Clone, Copy, PartialEq, Eq, Structural)]
pub enum ScheduleResponse {
    /// The schedule indicates we should connect.
    InSchedule,
    /// The session should be shut down due to an unrecoverable error.
    Shutdown,
}

} // verus!
