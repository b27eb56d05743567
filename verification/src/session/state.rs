//! The states of a session and the transitions between them.
//!
//! Deadlines are milliseconds on the caller's monotonic clock.
use vstd::prelude::*;

use crate::message::Message;
use crate::session::info::Status;
use crate::transport::WriterMessage;

verus! {

/// Attempts at asking the counterparty to resend the same gap before giving up.
pub const MAX_RESEND_ATTEMPTS: u64 = 3;

/// `round(heartbeat_interval * 1.2)`, saturating: how long we wait for the peer
/// before sending a TestRequest.
pub open spec fn spec_peer_interval(heartbeat_interval: u64) -> u64 {
    let v = (heartbeat_interval * 12 + 5) / 10;
    if v <= u64::MAX {
        v as u64
    } else {
        u64::MAX
    }
}

/// The interval (seconds) after which a silent peer is sent a TestRequest:
/// the heartbeat interval times 1.2, rounded.
pub fn calculate_peer_interval(heartbeat_interval: u64) -> (r: u64)
    ensures
        r == spec_peer_interval(heartbeat_interval),
{
    let v: u128 = (heartbeat_interval as u128 * 12 + 5) / 10;
    if v <= u64::MAX as u128 {
        v as u64
    } else {
        u64::MAX
    }
}

/// `now` plus `secs` seconds, in milliseconds, saturating.
pub open spec fn spec_deadline(now: u64, secs: u64) -> u64 {
    if now + secs * 1000 <= u64::MAX {
        (now + secs * 1000) as u64
    } else {
        u64::MAX
    }
}

pub fn deadline_after(now: u64, secs: u64) -> (r: u64)
    ensures
        r == spec_deadline(now, secs),
{
    let v: u128 = now as u128 + secs as u128 * 1000;
    if v <= u64::MAX as u128 {
        v as u64
    } else {
        u64::MAX
    }
}

/// We have connected, sent (or are about to send) a Logon and await the response.
pub struct AwaitingLogonState {
    /// Whether we have sent Logon: guards against sending it twice.
    pub logon_sent: bool,
    /// When we expect the Logon response at the latest.
    pub logon_timeout: u64,
}

/// We are waiting for the counterparty to resend a gap.
pub struct AwaitingResendState {
    /// The beginning of the gap we're waiting for the target to resend.
    pub begin_seq_number: u64,
    /// The end of the gap we're waiting for the target to resend.
    pub end_seq_number: u64,
    /// Inbound messages beyond the gap, received while the resend is under way.
    pub inbound_queue: Vec<Message>,
    /// How many times we have asked for this gap.
    pub resend_attempts: u64,
}

/// We have sent a Logout and wait for the counterparty's.
pub struct AwaitingLogoutState {
    /// When we expect the Logout response at the latest.
    pub logout_timeout: u64,
    /// Whether we should reconnect after we've fully logged out.
    pub reconnect: bool,
}

/// Both sides are logged on.
pub struct ActiveState {
    /// When we should send the next heartbeat.
    pub heartbeat_deadline: u64,
    /// When the next message from the counterparty is expected at the latest.
    pub peer_deadline: u64,
    /// The ID of the TestRequest we sent when the peer timer expired.
    pub sent_test_request_id: Option<String>,
}

/// There is no connection.
pub struct DisconnectedState {
    /// Whether we should attempt to reconnect.
    pub reconnect: bool,
    /// Whether the connection loop waits to be told when the schedule resumes.
    pub schedule_awaiter: bool,
    /// Why we are disconnected.
    pub reason: String,
}

pub enum SessionState {
    AwaitingLogon(AwaitingLogonState),
    AwaitingResend(AwaitingResendState),
    AwaitingLogout(AwaitingLogoutState),
    Active(ActiveState),
    Disconnected(DisconnectedState),
}

/// What asking for a (new) resend of a gap results in.
#[derive(Debug, Clone, Copy, PartialEq, Eq, Structural)]
pub enum AwaitingResendTransitionOutcome {
    Success,
    BeginSeqNumberTooLow,
    AttemptsExceeded,
}

impl AwaitingResendState {
    /// The attempt count stays within its limit.
    pub open spec fn wf(&self) -> bool {
        1 <= self.resend_attempts <= MAX_RESEND_ATTEMPTS
    }

    pub fn new(begin_seq_number: u64, end_seq_number: u64) -> (r: Self)
        ensures
            r.begin_seq_number == begin_seq_number,
            r.end_seq_number == end_seq_number,
            r.inbound_queue@.len() == 0,
            r.resend_attempts == 1,
            r.wf(),
    {
        AwaitingResendState {
            begin_seq_number,
            end_seq_number,
            inbound_queue: Vec::new(),
            resend_attempts: 1,
        }
    }

    /// Records a request for the gap `begin_seq_number..=end_seq_number`: the same
    /// gap start counts as another attempt (refused past the limit), a later start
    /// restarts the count, and an earlier start is refused.
    pub fn update(&mut self, begin_seq_number: u64, end_seq_number: u64) -> (r: AwaitingResendTransitionOutcome)
        requires
            old(self).wf(),
        ensures
            final(self).wf(),
            final(self).inbound_queue == old(self).inbound_queue,
            r == (if begin_seq_number == old(self).begin_seq_number {
                if old(self).resend_attempts + 1 > MAX_RESEND_ATTEMPTS {
                    AwaitingResendTransitionOutcome::AttemptsExceeded
                } else {
                    AwaitingResendTransitionOutcome::Success
                }
            } else if begin_seq_number < old(self).begin_seq_number {
                AwaitingResendTransitionOutcome::BeginSeqNumberTooLow
            } else {
                AwaitingResendTransitionOutcome::Success
            }),
            r == AwaitingResendTransitionOutcome::Success ==> {
                &&& final(self).begin_seq_number == begin_seq_number
                &&& final(self).end_seq_number == end_seq_number
                &&& final(self).resend_attempts == if begin_seq_number == old(self).begin_seq_number {
                    old(self).resend_attempts + 1
                } else {
                    1
                }
            },
            r != AwaitingResendTransitionOutcome::Success ==> {
                &&& final(self).begin_seq_number == old(self).begin_seq_number
                &&& final(self).end_seq_number == old(self).end_seq_number
                &&& final(self).resend_attempts == old(self).resend_attempts
            },
    {
        let resend_attempts = if self.begin_seq_number == begin_seq_number {
            if self.resend_attempts + 1 > MAX_RESEND_ATTEMPTS {
                return AwaitingResendTransitionOutcome::AttemptsExceeded;
            }
            self.resend_attempts + 1
        } else if begin_seq_number < self.begin_seq_number {
            return AwaitingResendTransitionOutcome::BeginSeqNumberTooLow;
        } else {
            1
        };
        self.resend_attempts = resend_attempts;
        self.begin_seq_number = begin_seq_number;
        self.end_seq_number = end_seq_number;
        AwaitingResendTransitionOutcome::Success
    }
}

/// Whether a session state has a connection to the counterparty.
pub open spec fn is_connected_state(s: &SessionState) -> bool {
    !(s is Disconnected)
}

impl SessionState {
    /// Every awaiting-resend state keeps its attempt count within the limit.
    pub open spec fn wf(&self) -> bool {
        match self {
            SessionState::AwaitingResend(r) => r.wf(),
            _ => true,
        }
    }

    pub open spec fn spec_status(&self) -> Status {
        match self {
            SessionState::AwaitingLogon(_) => Status::AwaitingLogon,
            SessionState::AwaitingResend(r) => Status::AwaitingResend {
                begin: r.begin_seq_number,
                end: r.end_seq_number,
                attempts: r.resend_attempts,
            },
            SessionState::AwaitingLogout(_) => Status::AwaitingLogout,
            SessionState::Active(_) => Status::Active,
            SessionState::Disconnected(_) => Status::Disconnected,
        }
    }

    pub open spec fn spec_expected_test_response_id(&self) -> Option<String> {
        match self {
            SessionState::Active(a) => a.sent_test_request_id,
            _ => None,
        }
    }

    pub fn new_disconnected(reconnect: bool, reason: &str) -> (r: Self)
        ensures
            r matches SessionState::Disconnected(d) && d.reconnect == reconnect && !d.schedule_awaiter
                && d.reason@ == reason@,
    {
        SessionState::Disconnected(
            DisconnectedState { reconnect, schedule_awaiter: false, reason: reason.to_owned() },
        )
    }

    /// The active state entered at `now`, its timers running from then.
    pub fn new_active(heartbeat_interval: u64, now: u64) -> (r: Self)
        ensures
            r matches SessionState::Active(a) && a.heartbeat_deadline == spec_deadline(
                now,
                heartbeat_interval,
            ) && a.peer_deadline == spec_deadline(now, spec_peer_interval(heartbeat_interval))
                && a.sent_test_request_id is None,
    {
        let peer_interval = calculate_peer_interval(heartbeat_interval);
        SessionState::Active(
            ActiveState {
                heartbeat_deadline: deadline_after(now, heartbeat_interval),
                peer_deadline: deadline_after(now, peer_interval),
                sent_test_request_id: None,
            },
        )
    }

    /// Whether the connection loop should reconnect: only a disconnected state
    /// can say no.
    pub fn should_reconnect(&self) -> (r: bool)
        ensures
            r == match self {
                SessionState::Disconnected(d) => d.reconnect,
                _ => true,
            },
    {
        match self {
            SessionState::Disconnected(d) => d.reconnect,
            _ => true,
        }
    }

    /// Hands an encoded message to the writer where the state allows its type:
    /// anything but Logon when logged on; Logon once and Logout while awaiting
    /// Logon; only Logout while awaiting Logout; nothing when disconnected.
    pub fn send_message(&mut self, message_type: &[u8], raw: Vec<u8>, outbox: &mut Vec<WriterMessage>)
        ensures
            final(outbox)@ == old(outbox)@ + if spec_may_send(old(self), message_type@) {
                seq![WriterMessage::SendMessage(raw)]
            } else {
                seq![]
            },
            match *old(self) {
                SessionState::AwaitingLogon(s) => (*final(self)) matches SessionState::AwaitingLogon(t)
                    && t.logon_timeout == s.logon_timeout && t.logon_sent == (s.logon_sent
                    || message_type@ == seq![65u8]),
                _ => *final(self) == *old(self),
            },
    {
        let is_logon = message_type.len() == 1 && message_type[0] == 65u8;
        let is_logout = message_type.len() == 1 && message_type[0] == 53u8;
        assert(is_logon == (message_type@ == seq![65u8])) by {
            if message_type@ == seq![65u8] {
                assert(message_type@.len() == 1);
            }
            if is_logon {
                assert(message_type@ =~= seq![65u8]);
            }
        }
        assert(is_logout == (message_type@ == seq![53u8])) by {
            if message_type@ == seq![53u8] {
                assert(message_type@.len() == 1);
            }
            if is_logout {
                assert(message_type@ =~= seq![53u8]);
            }
        }
        match self {
            SessionState::Active(_) | SessionState::AwaitingResend(_) => {
                if !is_logon {
                    outbox.push(WriterMessage::SendMessage(raw));
                }
            },
            SessionState::AwaitingLogon(s) => {
                if is_logon {
                    if !s.logon_sent {
                        outbox.push(WriterMessage::SendMessage(raw));
                        s.logon_sent = true;
                    }
                } else if is_logout {
                    outbox.push(WriterMessage::SendMessage(raw));
                }
            },
            SessionState::AwaitingLogout(_) => {
                // Logout is allowed: we first move to AwaitingLogout, then send it
                if is_logout {
                    outbox.push(WriterMessage::SendMessage(raw));
                }
            },
            SessionState::Disconnected(_) => {},
        }
    }

    /// Asks the writer to close the connection, where there is one.
    pub fn disconnect_writer(&self, outbox: &mut Vec<WriterMessage>)
        ensures
            final(outbox)@ == old(outbox)@ + if is_connected_state(self) {
                seq![WriterMessage::Disconnect]
            } else {
                seq![]
            },
    {
        if self.is_connected() {
            outbox.push(WriterMessage::Disconnect);
        }
    }

    pub fn try_transition_to_awaiting_logout(&mut self, logout_timeout: u64, reconnect: bool, now: u64) -> (r: bool)
        ensures
            r == (is_connected_state(old(self)) && !((*old(self)) is AwaitingLogout)),
            r ==> ((*final(self)) matches SessionState::AwaitingLogout(s) && s.reconnect == reconnect
                && s.logout_timeout == spec_deadline(now, logout_timeout)),
            !r ==> *final(self) == *old(self),
    {
        if let SessionState::AwaitingLogout(_) = self {
            return false;
        }
        if self.is_connected() {
            *self = SessionState::AwaitingLogout(
                AwaitingLogoutState { logout_timeout: deadline_after(now, logout_timeout), reconnect },
            );
            true
        } else {
            false
        }
    }

    /// Moves to awaiting the resend of `begin..=end`, or records another request
    /// for a gap while already awaiting one.
    pub fn try_transition_to_awaiting_resend(&mut self, begin: u64, end: u64) -> (r: AwaitingResendTransitionOutcome)
        requires
            old(self).wf(),
        ensures
            final(self).wf(),
            match *old(self) {
                SessionState::AwaitingLogon(_) | SessionState::Active(_) => r
                    == AwaitingResendTransitionOutcome::Success && ((*final(self)) matches SessionState::AwaitingResend(s)
                    && s.begin_seq_number == begin && s.end_seq_number == end && s.resend_attempts
                    == 1 && s.inbound_queue@.len() == 0),
                SessionState::AwaitingResend(s) => (*final(self)) matches SessionState::AwaitingResend(t)
                    && t.inbound_queue == s.inbound_queue && r == (if begin == s.begin_seq_number {
                    if s.resend_attempts + 1 > MAX_RESEND_ATTEMPTS {
                        AwaitingResendTransitionOutcome::AttemptsExceeded
                    } else {
                        AwaitingResendTransitionOutcome::Success
                    }
                } else if begin < s.begin_seq_number {
                    AwaitingResendTransitionOutcome::BeginSeqNumberTooLow
                } else {
                    AwaitingResendTransitionOutcome::Success
                }) && (r == AwaitingResendTransitionOutcome::Success ==> t.begin_seq_number == begin
                    && t.end_seq_number == end && t.resend_attempts == if begin == s.begin_seq_number {
                    s.resend_attempts + 1
                } else {
                    1
                }) && (r != AwaitingResendTransitionOutcome::Success ==> t == s),
                _ => r == AwaitingResendTransitionOutcome::Success ==> false,
            },
            !((*old(self)) is AwaitingLogon || (*old(self)) is Active || (*old(self)) is AwaitingResend)
                ==> *final(self) == *old(self),
    {
        match self {
            SessionState::AwaitingLogon(_) | SessionState::Active(_) => {
                *self = SessionState::AwaitingResend(AwaitingResendState::new(begin, end));
                AwaitingResendTransitionOutcome::Success
            },
            SessionState::AwaitingResend(state) => state.update(begin, end),
            _ => AwaitingResendTransitionOutcome::BeginSeqNumberTooLow,
        }
    }

    /// Registers the connection loop's wish to hear when the schedule resumes.
    /// Only a disconnected state without an earlier registration keeps it;
    /// otherwise the loop is told at once to shut down.
    pub fn register_schedule_awaiter(&mut self) -> (r: Option<crate::session::event::ScheduleResponse>)
        ensures
            match *old(self) {
                SessionState::Disconnected(d) => if d.schedule_awaiter {
                    r == Some(crate::session::event::ScheduleResponse::Shutdown) && *final(self) == *old(self)
                } else {
                    r is None && ((*final(self)) matches SessionState::Disconnected(e) && e.schedule_awaiter
                        && e.reconnect == d.reconnect && e.reason == d.reason)
                },
                _ => r == Some(crate::session::event::ScheduleResponse::Shutdown) && *final(self) == *old(self),
            },
    {
        match self {
            SessionState::Disconnected(state) => {
                if state.schedule_awaiter {
                    Some(crate::session::event::ScheduleResponse::Shutdown)
                } else {
                    state.schedule_awaiter = true;
                    None
                }
            },
            _ => Some(crate::session::event::ScheduleResponse::Shutdown),
        }
    }

    /// Takes the schedule awaiter of a disconnected state: `true` when one was
    /// registered, which is then told that the schedule is active.
    pub fn notify_schedule_awaiter(&mut self) -> (r: bool)
        ensures
            match *old(self) {
                SessionState::Disconnected(d) => r == d.schedule_awaiter && ((*final(self)) matches SessionState::Disconnected(e)
                    && !e.schedule_awaiter && e.reconnect == d.reconnect && e.reason == d.reason),
                _ => !r && *final(self) == *old(self),
            },
    {
        match self {
            SessionState::Disconnected(state) => {
                let had = state.schedule_awaiter;
                state.schedule_awaiter = false;
                had
            },
            _ => false,
        }
    }

    pub fn heartbeat_deadline(&self) -> (r: Option<u64>)
        ensures
            r == match self {
                SessionState::Active(a) => Some(a.heartbeat_deadline),
                _ => None,
            },
    {
        match self {
            SessionState::Active(a) => Some(a.heartbeat_deadline),
            _ => None,
        }
    }

    pub fn reset_heartbeat_timer(&mut self, heartbeat_interval: u64, now: u64)
        ensures
            match *old(self) {
                SessionState::Active(a) => (*final(self)) matches SessionState::Active(b)
                    && b.heartbeat_deadline == spec_deadline(now, heartbeat_interval) && b.peer_deadline
                    == a.peer_deadline && b.sent_test_request_id == a.sent_test_request_id,
                _ => *final(self) == *old(self),
            },
    {
        if let SessionState::Active(a) = self {
            a.heartbeat_deadline = deadline_after(now, heartbeat_interval);
        }
    }

    pub fn peer_deadline(&self) -> (r: Option<u64>)
        ensures
            r == match self {
                SessionState::Active(a) => Some(a.peer_deadline),
                SessionState::AwaitingLogon(s) => Some(s.logon_timeout),
                SessionState::AwaitingLogout(s) => Some(s.logout_timeout),
                _ => None,
            },
    {
        match self {
            SessionState::Active(a) => Some(a.peer_deadline),
            SessionState::AwaitingLogon(s) => Some(s.logon_timeout),
            SessionState::AwaitingLogout(s) => Some(s.logout_timeout),
            _ => None,
        }
    }

    pub fn reset_peer_timer(&mut self, heartbeat_interval: u64, test_request_id: Option<String>, now: u64)
        ensures
            match *old(self) {
                SessionState::Active(a) => (*final(self)) matches SessionState::Active(b)
                    && b.peer_deadline == spec_deadline(now, spec_peer_interval(heartbeat_interval))
                    && b.heartbeat_deadline == a.heartbeat_deadline && b.sent_test_request_id
                    == test_request_id,
                _ => *final(self) == *old(self),
            },
    {
        if let SessionState::Active(a) = self {
            let interval = calculate_peer_interval(heartbeat_interval);
            a.peer_deadline = deadline_after(now, interval);
            a.sent_test_request_id = test_request_id;
        }
    }

    pub fn expected_test_response_id(&self) -> (r: Option<&String>)
        ensures
            match r {
                Some(id) => self.spec_expected_test_response_id() == Some(*id),
                None => self.spec_expected_test_response_id() is None,
            },
    {
        match self {
            SessionState::Active(a) => match &a.sent_test_request_id {
                Some(id) => Some(id),
                None => None,
            },
            _ => None,
        }
    }

    pub fn is_connected(&self) -> (r: bool)
        ensures
            r == is_connected_state(self),
    {
        match self {
            SessionState::Disconnected(_) => false,
            _ => true,
        }
    }

    pub fn is_logged_on(&self) -> (r: bool)
        ensures
            r == (self is Active || self is AwaitingResend),
    {
        match self {
            SessionState::Active(_) | SessionState::AwaitingResend(_) => true,
            _ => false,
        }
    }

    pub fn is_expecting_test_response(&self) -> (r: bool)
        ensures
            r == self.spec_expected_test_response_id() is Some,
    {
        self.expected_test_response_id().is_some()
    }

    pub fn is_awaiting_logon(&self) -> (r: bool)
        ensures
            r == self is AwaitingLogon,
    {
        match self {
            SessionState::AwaitingLogon(_) => true,
            _ => false,
        }
    }

    pub fn is_awaiting_logout(&self) -> (r: bool)
        ensures
            r == self is AwaitingLogout,
    {
        match self {
            SessionState::AwaitingLogout(_) => true,
            _ => false,
        }
    }

    pub fn as_status(&self) -> (r: Status)
        ensures
            r == self.spec_status(),
    {
        match self {
            SessionState::AwaitingLogon(_) => Status::AwaitingLogon,
            SessionState::AwaitingResend(s) => Status::AwaitingResend {
                begin: s.begin_seq_number,
                end: s.end_seq_number,
                attempts: s.resend_attempts,
            },
            SessionState::AwaitingLogout(_) => Status::AwaitingLogout,
            SessionState::Active(_) => Status::Active,
            SessionState::Disconnected(_) => Status::Disconnected,
        }
    }
}

/// Whether a state hands a message of this type to the writer.
pub open spec fn spec_may_send(s: &SessionState, message_type: Seq<u8>) -> bool {
    match s {
        SessionState::Active(_) | SessionState::AwaitingResend(_) => message_type != seq![65u8],
        SessionState::AwaitingLogon(l) => (message_type == seq![65u8] && !l.logon_sent)
            || message_type == seq![53u8],
        SessionState::AwaitingLogout(_) => message_type == seq![53u8],
        SessionState::Disconnected(_) => false,
    }
}

/// The peer may stay silent for the heartbeat interval times 1.2, rounded to
/// the nearest second, before it is sent a TestRequest: never less than the
/// heartbeat interval, and the largest number of seconds where that does not fit.
pub proof fn law_peer_interval(heartbeat_interval: u64)
    ensures
        spec_peer_interval(heartbeat_interval) >= heartbeat_interval,
        heartbeat_interval * 12 + 5 < 10 * (u64::MAX as int + 1) ==> -5 < 10 * spec_peer_interval(heartbeat_interval) as int
            - 12 * heartbeat_interval <= 5,
        heartbeat_interval * 12 + 5 >= 10 * (u64::MAX as int + 1) ==> spec_peer_interval(heartbeat_interval) == u64::MAX,
{
}

/// Which message types each state hands to the writer: a logged-on session
/// (active or awaiting a resend) every type but Logon; one awaiting Logon its
/// one Logon and a Logout; one logging out only its Logout; a disconnected one none.
pub proof fn law_who_may_send(s: SessionState, message_type: Seq<u8>)
    ensures
        s is Active || s is AwaitingResend ==> (spec_may_send(&s, message_type) <==> message_type != seq![65u8]),
        s matches SessionState::AwaitingLogon(l) ==> (spec_may_send(&s, message_type) <==> (message_type
            == seq![53u8] || (message_type == seq![65u8] && !l.logon_sent))),
        s is AwaitingLogout ==> (spec_may_send(&s, message_type) <==> message_type == seq![53u8]),
        s is Disconnected ==> !spec_may_send(&s, message_type),
{
}

} // verus!
