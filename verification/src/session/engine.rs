//! The session: how each event — a message from the peer, a connection, a
//! timer, a request from the application or an administrator — changes the
//! state, the store and what is handed to the writer.
//!
//! The caller runs the event loop: it hands each event to the session with the
//! current time, then performs what the session queued in `outbox` (for the
//! connection's writer) and `schedule_replies` (for the connection loop).
use vstd::prelude::*;
use vstd::utf8::encode_utf8;

use crate::application::{AppNotice, Application, InboundDecision, OutboundDecision};
use crate::config::SessionConfig;
use crate::message::logon::{EncryptMethod, Logon, ResetSeqNumConfig, ResetSeqNumFlag};
use crate::message::logout::Logout;
use crate::message::reject::{opt_chars, Reject, SessionRejectReason};
use crate::message::verification_issue::{
    CompIdType, InvalidReason, MessageError, MessageErrorView, VerificationIssue, VerificationIssueView,
};
use crate::message::resend_request::ResendRequest;
use crate::message::verification::{issue_view, spec_verify_message, verify_message_at};
use crate::message::business_reject::BusinessReject;
use crate::message::heartbeat::Heartbeat;
use crate::message::parser::decode;
use crate::message::sequence_reset::SequenceReset;
use crate::message::verification::seq_num_or_zero;
use crate::message::{
    field_bool, field_u64, generate_message_at, is_admin_bytes, is_admin_type, lookup,
    prepare_message_for_resend_at, spec_encode, spec_prepare_for_resend, Message, MessageView,
    OutboundMessage, BEGIN_SEQ_NO, END_SEQ_NO, GAP_FILL_FLAG, MSG_SEQ_NUM, NEW_SEQ_NO, TEST_REQ_ID,
};
use crate::timestamp::fix_timestamp_text;
use crate::session::ctx::{prepared, send_blocked, spec_outbound_bytes, Moment, SessionCtx};
use crate::session::error::{
    InternalSendError, SendError, SendOutcome, SessionError, SessionOperationError,
};
use crate::session::event::ScheduleResponse;
use crate::session::info::{SessionInfo, Status};
use crate::session::state::{
    is_connected_state, spec_deadline, spec_may_send, ActiveState, AwaitingLogonState,
    AwaitingLogoutState, DisconnectedState, SessionState,
};
use crate::message::test_request::TestRequest;
use crate::session_schedule::{
    schedule_matches_config, spec_schedule_kind, SessionPeriodComparison, SessionSchedule,
};
use crate::store::{MessageStore, StoreError};
use crate::transport::{actions, lemma_actions_push, WriterAction, WriterMessage};

verus! {

/// Message types the session handles itself.
pub const HEARTBEAT_TYPE: u8 = 48;
pub const TEST_REQUEST_TYPE: u8 = 49;
pub const RESEND_REQUEST_TYPE: u8 = 50;
pub const REJECT_TYPE: u8 = 51;
pub const SEQUENCE_RESET_TYPE: u8 = 52;
pub const LOGOUT_TYPE: u8 = 53;
pub const LOGON_TYPE: u8 = 65;

/// Whether a message is of the one-character type `t`.
pub open spec fn is_type(m: MessageView, t: u8) -> bool {
    m.msg_type == seq![t]
}

/// Whether `message` is of the one-character type `t`.
pub fn has_type(message: &Message, t: u8) -> (r: bool)
    ensures
        r == is_type(message@, t),
{
    let r = message.msg_type.len() == 1 && message.msg_type[0] == t;
    assert(r == (message@.msg_type =~= seq![t]));
    r
}

/// A one-character ASCII type text is encoded as that one byte.
pub proof fn lemma_ascii_type_bytes(c: char)
    requires
        '\0' <= c <= '\u{7f}',
    ensures
        encode_utf8(seq![c]) == seq![c as u8],
{
    vstd::utf8::is_ascii_chars_encode_utf8(seq![c]);
    assert(encode_utf8(seq![c]) =~= seq![c as u8]);
}

/// The type text of a Logon is the byte `A`.
pub proof fn lemma_logon_type_bytes()
    ensures
        encode_utf8(seq!['A']) == seq![LOGON_TYPE],
{
    lemma_ascii_type_bytes('A');
}

/// Whole seconds since the epoch (rounded down) of `millis` milliseconds.
pub open spec fn spec_utc_secs(millis: i64) -> int {
    millis / 1000
}

pub fn utc_secs(millis: i64) -> (r: i64)
    ensures
        r == spec_utc_secs(millis),
{
    if millis >= 0 {
        millis / 1000
    } else {
        -((-(millis + 1)) / 1000) - 1
    }
}

/// What a handler decides about the session state.
pub enum TransitionResult {
    Stay,
    TransitionTo(SessionState),
}

/// Where a message error leads: `None` to stay, `Some(reconnect)` to a
/// disconnection after a Logout, reconnecting or not.
pub open spec fn error_transition(e: MessageErrorView) -> Option<bool> {
    match e {
        MessageErrorView::SeqNumberTooLow { possible_duplicate, .. } => if possible_duplicate {
            None
        } else {
            Some(false)
        },
        MessageErrorView::IncorrectBeginString(_) => Some(true),
        MessageErrorView::IncorrectCompId { .. } => Some(true),
        _ => None,
    }
}

/// The Reject a message error is answered with first, where there is one: the
/// rejected sequence number and the reason.
pub open spec fn error_reject(e: MessageErrorView) -> Option<(u64, SessionRejectReason)> {
    match e {
        MessageErrorView::IncorrectCompId { msg_seq_num, .. } => Some(
            (msg_seq_num, SessionRejectReason::ValueIsIncorrect),
        ),
        MessageErrorView::SendingTimeAccuracyIssue { msg_seq_num } => Some(
            (msg_seq_num, SessionRejectReason::SendingtimeAccuracyProblem),
        ),
        MessageErrorView::SendingTimeMissing { msg_seq_num } => Some(
            (msg_seq_num, SessionRejectReason::SendingtimeAccuracyProblem),
        ),
        MessageErrorView::OriginalSendingTimeMissing { msg_seq_num } => Some(
            (msg_seq_num, SessionRejectReason::RequiredTagMissing),
        ),
        MessageErrorView::OriginalSendingTimeAfterSendingTime { msg_seq_num, .. } => Some(
            (msg_seq_num, SessionRejectReason::SendingtimeAccuracyProblem),
        ),
        _ => None,
    }
}

/// Whether `r` is a Reject of `ref_seq_num` for `reason`.
pub open spec fn is_reject_for(r: Reject, ref_seq_num: u64, reason: SessionRejectReason) -> bool {
    r.ref_seq_num == ref_seq_num && r.session_reject_reason == Some(reason) && r.ref_tag_id is None
        && r.ref_msg_type is None && r.text is Some
}

/// The sequence number a message error's Reject refers to.
pub open spec fn error_reject_seq(e: MessageErrorView) -> u64 {
    match error_reject(e) {
        Some(p) => p.0,
        None => 0,
    }
}

/// The reason a message error's Reject gives.
pub open spec fn error_reject_reason(e: MessageErrorView) -> SessionRejectReason {
    match error_reject(e) {
        Some(p) => p.1,
        None => SessionRejectReason::Other,
    }
}

/// The sequence number checks a message gets: whether a number above the one
/// we expect is a gap, and whether one below it is an error. A ResendRequest
/// or a Reject is never a gap; a SequenceReset is checked only when it fills a
/// gap; a Logout is not checked.
pub open spec fn spec_flags(m: MessageView) -> (bool, bool) {
    if is_type(m, RESEND_REQUEST_TYPE) || is_type(m, REJECT_TYPE) {
        (false, true)
    } else if is_type(m, SEQUENCE_RESET_TYPE) {
        let gap_fill = field_bool(m.body, GAP_FILL_FLAG) == Some(true);
        (gap_fill, gap_fill)
    } else if is_type(m, LOGOUT_TYPE) {
        (false, false)
    } else {
        (true, true)
    }
}

/// The sequence number checks for `message`.
pub fn verification_flags(message: &Message) -> (r: (bool, bool))
    ensures
        r == spec_flags(message@),
{
    if has_type(message, RESEND_REQUEST_TYPE) || has_type(message, REJECT_TYPE) {
        (false, true)
    } else if has_type(message, SEQUENCE_RESET_TYPE) {
        let gap_fill = match message.get_bool(GAP_FILL_FLAG) {
            Some(b) => b,
            None => false,
        };
        (gap_fill, gap_fill)
    } else if has_type(message, LOGOUT_TYPE) {
        (false, false)
    } else {
        (true, true)
    }
}

/// The outcome of verifying an inbound message in the current state.
pub enum VerificationResult {
    /// The message passed: its handler runs.
    Passed,
    /// A problem was found and answered: the transition applies and the message
    /// is not handled further.
    Issue(TransitionResult),
}

/// Whether a Heartbeat answers the TestRequest the state is waiting on.
pub open spec fn answers_test_request(s: SessionState, m: MessageView) -> bool {
    s.spec_expected_test_response_id() matches Some(id) && lookup(m.body, TEST_REQ_ID) == Some(
        encode_utf8(id@),
    )
}

/// The gap fill that stands in for skipped admin messages from `begin`,
/// moving the peer on to `new_seq_no`.
pub open spec fn gap_fill_bytes(config: SessionConfig, begin: u64, new_seq_no: u64, utc_now: i64) -> Seq<u8> {
    spec_outbound_bytes(config, begin, utc_now, SequenceReset { gap_fill: true, new_seq_no })
}

/// A stored message as it is resent: prepared for resend (possible duplicate,
/// fresh SendingTime) when the clock has a FIX timestamp text, as stored
/// otherwise. A message whose preparation fails goes out as the preparation
/// left it.
pub open spec fn resent_view(m: MessageView, utc_now: i64) -> MessageView {
    match fix_timestamp_text(utc_now) {
        Some(t) => spec_prepare_for_resend(m, t).0,
        None => m,
    }
}

/// Walking the stored messages in order: the writer actions so far, where the
/// current run of admin messages started, and the last sequence number seen.
/// Application messages are resent; each run of admin messages becomes one gap
/// fill from its first sequence number to the next resent message's.
pub open spec fn resend_walk(ms: Seq<MessageView>, config: SessionConfig, utc_now: i64) -> (Seq<WriterAction>, Option<u64>, u64)
    decreases ms.len(),
{
    if ms.len() == 0 {
        (seq![], None, 0)
    } else {
        let prev = resend_walk(ms.drop_last(), config, utc_now);
        let m = ms.last();
        let n = seq_num_or_zero(m);
        if is_admin_type(m.msg_type) {
            (
                prev.0,
                if prev.1 is None {
                    Some(n)
                } else {
                    prev.1
                },
                n,
            )
        } else {
            let with_gap = match prev.1 {
                Some(b) => prev.0.push(WriterAction::Send(gap_fill_bytes(config, b, n, utc_now))),
                None => prev.0,
            };
            (with_gap.push(WriterAction::Send(spec_encode(resent_view(m, utc_now)))), None, n)
        }
    }
}

/// What resending the stored messages `ms` hands to the writer: the walk, and a
/// final gap fill up to the last sequence number when they end in admin messages.
pub open spec fn resend_actions(ms: Seq<MessageView>, config: SessionConfig, utc_now: i64) -> Seq<WriterAction> {
    let w = resend_walk(ms, config, utc_now);
    match w.1 {
        Some(b) => w.0.push(WriterAction::Send(gap_fill_bytes(config, b, w.2, utc_now))),
        None => w.0,
    }
}

/// The walk over stored administrative messages only: no action yet, the run
/// starting at the first of them, the last sequence number seen.
proof fn lemma_walk_admin(ms: Seq<MessageView>, config: SessionConfig, utc_now: i64)
    requires
        ms.len() > 0,
        forall|i: int| 0 <= i < ms.len() ==> is_admin_type(#[trigger] ms[i].msg_type),
    ensures
        resend_walk(ms, config, utc_now) == (
            Seq::<WriterAction>::empty(),
            Some(seq_num_or_zero(ms[0])),
            seq_num_or_zero(ms.last()),
        ),
    decreases ms.len(),
{
    if ms.len() > 1 {
        let p = ms.drop_last();
        assert(forall|i: int| 0 <= i < p.len() ==> is_admin_type(#[trigger] p[i].msg_type)) by {
            assert forall|i: int| 0 <= i < p.len() implies is_admin_type(#[trigger] p[i].msg_type) by {
                assert(p[i] == ms[i]);
            }
        }
        lemma_walk_admin(p, config, utc_now);
        assert(p[0] == ms[0]);
    } else {
        assert(ms.drop_last() =~= Seq::<MessageView>::empty());
        assert(resend_walk(ms.drop_last(), config, utc_now) == (Seq::<WriterAction>::empty(), None::<u64>, 0u64));
        assert(ms.last() == ms[0]);
    }
}

/// Resending only administrative messages sends a single gap fill, from the
/// sequence number of the first of them to that of the last.
pub proof fn law_resend_admin_run(ms: Seq<MessageView>, config: SessionConfig, utc_now: i64)
    requires
        ms.len() > 0,
        forall|i: int| 0 <= i < ms.len() ==> is_admin_type(#[trigger] ms[i].msg_type),
    ensures
        resend_actions(ms, config, utc_now) == seq![
            WriterAction::Send(
                gap_fill_bytes(config, seq_num_or_zero(ms[0]), seq_num_or_zero(ms.last()), utc_now),
            ),
        ],
{
    lemma_walk_admin(ms, config, utc_now);
    assert(Seq::<WriterAction>::empty().push(
        WriterAction::Send(
            gap_fill_bytes(config, seq_num_or_zero(ms[0]), seq_num_or_zero(ms.last()), utc_now),
        ),
    ) =~= seq![
        WriterAction::Send(
            gap_fill_bytes(config, seq_num_or_zero(ms[0]), seq_num_or_zero(ms.last()), utc_now),
        ),
    ]);
}

/// Resending only application messages resends each of them, in order,
/// prepared for resend.
pub proof fn law_resend_app_messages(ms: Seq<MessageView>, config: SessionConfig, utc_now: i64)
    requires
        forall|i: int| 0 <= i < ms.len() ==> !is_admin_type(#[trigger] ms[i].msg_type),
    ensures
        resend_actions(ms, config, utc_now) == ms.map_values(
            |m: MessageView| WriterAction::Send(spec_encode(resent_view(m, utc_now))),
        ),
        resend_walk(ms, config, utc_now).1 is None,
    decreases ms.len(),
{
    if ms.len() > 0 {
        let p = ms.drop_last();
        assert forall|i: int| 0 <= i < p.len() implies !is_admin_type(#[trigger] p[i].msg_type) by {
            assert(p[i] == ms[i]);
        }
        law_resend_app_messages(p, config, utc_now);
        assert(ms.map_values(|m: MessageView| WriterAction::Send(spec_encode(resent_view(m, utc_now))))
            =~= p.map_values(|m: MessageView| WriterAction::Send(spec_encode(resent_view(m, utc_now)))).push(
            WriterAction::Send(spec_encode(resent_view(ms.last(), utc_now))),
        ));
    } else {
        assert(ms.map_values(|m: MessageView| WriterAction::Send(spec_encode(resent_view(m, utc_now))))
            =~= Seq::<WriterAction>::empty());
    }
}

/// A resent message keeps its BeginString, its type, its sequence number and
/// its body; only SendingTime, OrigSendingTime and PossDupFlag may change.
pub proof fn law_resent_keeps_identity(m: MessageView, utc_now: i64, tag: u32)
    requires
        tag != crate::message::SENDING_TIME,
        tag != crate::message::ORIG_SENDING_TIME,
        tag != crate::message::POSS_DUP_FLAG,
    ensures
        resent_view(m, utc_now).begin_string == m.begin_string,
        resent_view(m, utc_now).msg_type == m.msg_type,
        resent_view(m, utc_now).body == m.body,
        lookup(resent_view(m, utc_now).header, tag) == lookup(m.header, tag),
{
    if let Some(t) = fix_timestamp_text(utc_now) {
        let h = m.header;
        let p = crate::message::pop_field(h, crate::message::SENDING_TIME);
        crate::message::lemma_lookup_pop(h, crate::message::SENDING_TIME, tag);
        if lookup(h, crate::message::SENDING_TIME) is None {
        } else if field_bool(h, crate::message::POSS_DUP_FLAG) == Some(true) && lookup(
            h,
            crate::message::ORIG_SENDING_TIME,
        ) is Some {
            crate::message::lemma_lookup_set(p, crate::message::SENDING_TIME, t, tag);
        } else if let Some(orig) = crate::timestamp::fix_timestamp_value(
            lookup(h, crate::message::SENDING_TIME)->0,
        ) {
            if let Some(orig_text) = fix_timestamp_text(orig) {
                let a = crate::message::set_field(p, crate::message::ORIG_SENDING_TIME, orig_text);
                let b = crate::message::set_field(a, crate::message::SENDING_TIME, t);
                crate::message::lemma_lookup_set(p, crate::message::ORIG_SENDING_TIME, orig_text, tag);
                crate::message::lemma_lookup_set(a, crate::message::SENDING_TIME, t, tag);
                crate::message::lemma_lookup_set(
                    b,
                    crate::message::POSS_DUP_FLAG,
                    crate::message::bool_text(true),
                    tag,
                );
            }
        }
    }
}

/// Whether the message views `ms` are what the stored bytes `raws` encode.
pub open spec fn decodes_to(raws: Seq<Seq<u8>>, ms: Seq<MessageView>) -> bool {
    &&& ms.len() == raws.len()
    &&& forall|i: int|
        #![trigger ms[i]]
        0 <= i < ms.len() ==> crate::message::parser::readable(ms[i]) && spec_encode(ms[i]) == raws[i]
}

/// The views of queued messages.
pub open spec fn queue_view(q: Seq<Message>) -> Seq<MessageView> {
    q.map_values(|m: Message| m@)
}

/// The last message of ours a ResendRequest can ask for: the one before our next.
pub open spec fn last_sent(next_sender: u64) -> u64 {
    if next_sender == 0 {
        0
    } else {
        (next_sender - 1) as u64
    }
}

/// The end of the range a ResendRequest asks for: everything up to our last
/// message when it says 0, never beyond our last message otherwise.
pub open spec fn resend_end(requested: u64, next_sender: u64) -> u64 {
    if requested == 0 {
        last_sent(next_sender)
    } else if requested < last_sent(next_sender) {
        requested
    } else {
        last_sent(next_sender)
    }
}

/// Whether bytes are no FIX message the engine can read.
pub open spec fn decode_fails(raw: Seq<u8>) -> bool {
    forall|m: MessageView| crate::message::parser::readable(m) ==> #[trigger] spec_encode(m) != raw
}

/// Administrative requests to a session.
pub enum AdminRequest {
    /// Log out gracefully, then reconnect or not.
    InitiateGracefulShutdown { reconnect: bool },
    /// Report the session's state.
    RequestSessionInfo,
    /// Reset both sequence numbers at the next Logon, once.
    ResetSequenceNumbersOnNextLogon,
}

/// Events the connection loop hands to the session.
pub enum SessionEvent {
    /// Bytes of one FIX message arrived from the peer.
    FixMessageReceived(Vec<u8>),
    /// The connection is gone, for this reason.
    Disconnected(String),
    /// A connection to the peer is up.
    Connected,
    /// The loop asks whether to reconnect.
    ShouldReconnect,
    /// The loop asks to be told when the schedule lets it connect.
    AwaitSchedule,
}

/// The session's immediate answer to an event, where the event asks for one.
#[derive(Debug, Clone, Copy, PartialEq, Eq)]
pub enum EventReply {
    ShouldReconnect(bool),
    Schedule(ScheduleResponse),
}

/// The TestReqID of the TestRequest sent when the peer is silent: `TEST_`
/// followed by the sequence number we expect next.
pub open spec fn test_request_id(next_target: u64) -> Seq<char> {
    "TEST_"@ + crate::decimal::dec_chars(next_target as nat)
}

/// Why a session could not be created.
#[derive(Debug, Clone, PartialEq, Eq)]
pub enum SessionCreationError {
    /// No data dictionary is configured and the engine has none built in for
    /// this FIX version.
    UnsupportedBeginString(String),
    /// The schedule configuration is invalid.
    Schedule(SessionError),
}

/// A FIX session: its configuration, store and application, its schedule, its
/// state, and what it has queued for the writer and the connection loop.
pub struct Session<A, S> {
    pub ctx: SessionCtx<A, S>,
    pub schedule: SessionSchedule,
    pub state: SessionState,
    /// Whether the next Logon resets both sequence numbers, once.
    pub reset_on_next_logon: bool,
    /// Instructions for the connection's writer, oldest first.
    pub outbox: Vec<WriterMessage>,
    /// Answers owed to the connection loop waiting for the schedule.
    pub schedule_replies: Vec<ScheduleResponse>,
    /// Notifications owed to the application, oldest first.
    pub notices: Vec<AppNotice>,
}

/// The Logon we send: no encryption, our heartbeat interval, and either a reset of
/// both sequence numbers or the sequence number we expect next.
pub open spec fn spec_logon(heartbeat_interval: u64, reset: bool, next_target: u64) -> Logon {
    Logon {
        encrypt_method: EncryptMethod::NoEncryption,
        heartbeat_interval,
        reset_seq_num_flag: if reset {
            ResetSeqNumFlag::Yes
        } else {
            ResetSeqNumFlag::No
        },
        next_expected_msg_seq_num: if reset {
            None
        } else {
            Some(next_target)
        },
    }
}

/// The state after a message of type `t` was handed to it: a Logon is sent once.
pub open spec fn state_after_send(s: SessionState, t: Seq<u8>) -> SessionState {
    match s {
        SessionState::AwaitingLogon(l) => SessionState::AwaitingLogon(
            AwaitingLogonState {
                logon_sent: l.logon_sent || t == seq![LOGON_TYPE],
                logon_timeout: l.logon_timeout,
            },
        ),
        _ => s,
    }
}

/// The state once the heartbeat timer restarts at `now`: only an active
/// session has one.
pub open spec fn heartbeat_reset(s: SessionState, interval: u64, now: u64) -> SessionState {
    match s {
        SessionState::Active(a) => SessionState::Active(
            ActiveState {
                heartbeat_deadline: spec_deadline(now, interval),
                peer_deadline: a.peer_deadline,
                sent_test_request_id: a.sent_test_request_id,
            },
        ),
        _ => s,
    }
}

/// Whether the writer queue went from that of `before` to that of `after` by a
/// Logout with Text `reason` (where it could be sent and stored) followed by a
/// disconnection.
pub open spec fn logged_out_and_terminated<A, S: MessageStore>(
    before: Session<A, S>,
    after: Session<A, S>,
    reason: Seq<char>,
    now: Moment,
) -> bool {
    ||| actions(after.outbox@) =~= actions(before.outbox@).push(WriterAction::Disconnect)
    ||| logout_then_disconnect(before, after, reason, now)
}

/// Whether the writer queue went from that of `before` to that of `after` by a
/// Logout with Text `reason`, stored with the next sender sequence number,
/// followed by a disconnection.
pub open spec fn logout_then_disconnect<A, S: MessageStore>(
    before: Session<A, S>,
    after: Session<A, S>,
    reason: Seq<char>,
    now: Moment,
) -> bool {
    exists|lo: Logout|
        #[trigger] is_logout_with(lo, reason) && prepared(
            before.ctx.store,
            after.ctx.store,
            before.ctx.config,
            lo,
            now.utc_millis,
            before.ctx.store.spec_next_sender(),
            out_bytes(before, before.ctx.store.spec_next_sender(), now, lo),
        ) && actions(after.outbox@) =~= actions(before.outbox@).push(
            WriterAction::Send(out_bytes(before, before.ctx.store.spec_next_sender(), now, lo)),
        ).push(WriterAction::Disconnect)
}

/// Whether a Reject of `seq` for `reason` with Text `text` went from `before` to
/// the writer, stored with the next sender sequence number, giving `after`.
pub open spec fn reject_sent<A, S: MessageStore>(
    before: Session<A, S>,
    after: Session<A, S>,
    seq: u64,
    reason: SessionRejectReason,
    text: Seq<char>,
    now: Moment,
) -> bool {
    exists|rj: Reject|
        #[trigger] is_reject_for(rj, seq, reason) && rj.text->0@ == text && prepared(
            before.ctx.store,
            after.ctx.store,
            before.ctx.config,
            rj,
            now.utc_millis,
            before.ctx.store.spec_next_sender(),
            out_bytes(before, before.ctx.store.spec_next_sender(), now, rj),
        ) && actions(after.outbox@) == actions(before.outbox@).push(
            WriterAction::Send(out_bytes(before, before.ctx.store.spec_next_sender(), now, rj)),
        )
}

/// What answering a message with a Reject does: the Reject goes out where the
/// store takes it, which a store that never fails does whenever the send is not
/// blocked; otherwise nothing is sent.
pub open spec fn reject_answered<A: Application, S: MessageStore>(
    before: Session<A, S>,
    after: Session<A, S>,
    seq: u64,
    reason: SessionRejectReason,
    text: Seq<char>,
    now: Moment,
) -> bool {
    &&& after.ctx.config == before.ctx.config
    &&& after.keeps_setup(&before)
    &&& after.state == before.state
    &&& after.wf() == before.wf()
    &&& after.ctx.store.spec_next_target() == before.ctx.store.spec_next_target()
    &&& (after.outbox@ == before.outbox@ || reject_sent(before, after, seq, reason, text, now))
    &&& (send_blocked(before.ctx.store, now.utc_millis) ==> after.outbox@ == before.outbox@
        && after.ctx.store == before.ctx.store)
    &&& (before.ctx.store.spec_never_fails() && !send_blocked(before.ctx.store, now.utc_millis)
        ==> reject_sent(before, after, seq, reason, text, now))
}

/// What logging out for `reason` and closing the connection does: a Logout
/// where the store takes it (which a store that never fails does whenever the
/// send is not blocked), then a disconnection.
pub open spec fn logout_answered<A, S: MessageStore>(
    before: Session<A, S>,
    after: Session<A, S>,
    reason: Seq<char>,
    now: Moment,
) -> bool {
    &&& logged_out_and_terminated(before, after, reason, now)
    &&& (before.ctx.store.spec_never_fails() && !send_blocked(before.ctx.store, now.utc_millis)
        ==> logout_then_disconnect(before, after, reason, now))
}

/// What counting one more message received does: only the target sequence
/// number moves, by one where the store takes it (always, for a store that
/// never fails, below the largest number).
pub open spec fn counted_received<A, S: MessageStore>(before: Session<A, S>, after: Session<A, S>) -> bool {
    &&& after.ctx.config == before.ctx.config
    &&& after.state == before.state
    &&& after.outbox == before.outbox
    &&& after.ctx.store.spec_next_sender() == before.ctx.store.spec_next_sender()
    &&& (before.ctx.store.spec_next_target() == u64::MAX ==> after.ctx.store == before.ctx.store)
    &&& (before.ctx.store.spec_never_fails() && before.ctx.store.spec_next_target() < u64::MAX
        ==> after.ctx.store.spec_next_target() == before.ctx.store.spec_next_target() + 1)
}

/// The Text of the Logout sent for a sequence number that is too low.
pub open spec fn too_low_text(expected: u64, actual: u64) -> Seq<char> {
    "sequence number too low (actual "@ + crate::decimal::dec_chars(actual as nat) + ", expected "@
        + crate::decimal::dec_chars(expected as nat) + ")"@
}

/// The Text of the Logout sent for a BeginString we do not speak.
pub open spec fn begin_string_text(received: Seq<char>) -> Seq<char> {
    "beginString="@ + received + " is not supported"@
}

/// The Text of the Reject sent for a wrong comp ID.
pub open spec fn comp_id_text(received: Seq<char>) -> Seq<char> {
    "invalid comp ID "@ + received
}

/// The state once a waiting connection loop has been told the schedule allows it.
pub open spec fn notified(s: SessionState) -> SessionState {
    match s {
        SessionState::Disconnected(d) => SessionState::Disconnected(
            DisconnectedState { reconnect: d.reconnect, schedule_awaiter: false, reason: d.reason },
        ),
        _ => s,
    }
}

/// Whether a store is as a reset at `t` (seconds since the epoch) leaves it.
pub open spec fn store_fresh<S: MessageStore>(store: S, t: int) -> bool {
    &&& store.spec_next_sender() == 1
    &&& store.spec_next_target() == 1
    &&& store.spec_creation_time() == t
    &&& forall|b: u64, e: u64| #[trigger] store.spec_slice(b, e) == Seq::<Seq<u8>>::empty()
}

/// Whether the writer queue became `after` from that of `before` by
/// terminating its connection for `reason` at `now`: where there is a
/// connection, a Logout with Text `reason` (where it could be sent) and a
/// Disconnect; nothing otherwise.
pub open spec fn terminated<A, S: MessageStore>(
    before: Session<A, S>,
    after: Seq<WriterMessage>,
    reason: Seq<char>,
    now: Moment,
) -> bool {
    if is_connected_state(&before.state) {
        &&& (actions(after) =~= actions(before.outbox@).push(WriterAction::Disconnect) || exists|lo: Logout|
            #[trigger] is_logout_with(lo, reason) && actions(after) =~= actions(before.outbox@).push(
                WriterAction::Send(out_bytes(before, before.ctx.store.spec_next_sender(), now, lo)),
            ).push(WriterAction::Disconnect))
        &&& (before.ctx.store.spec_never_fails() && !send_blocked(before.ctx.store, now.utc_millis) ==> exists|
            lo: Logout,
        |
            #[trigger] is_logout_with(lo, reason) && actions(after) =~= actions(before.outbox@).push(
                WriterAction::Send(out_bytes(before, before.ctx.store.spec_next_sender(), now, lo)),
            ).push(WriterAction::Disconnect))
    } else {
        after == before.outbox@
    }
}

/// The Heartbeat sent when our heartbeat interval elapses.
pub open spec fn plain_heartbeat() -> Heartbeat {
    Heartbeat { test_req_id: None }
}

/// What a successful send of `message` at `now` does: it takes the next sender
/// sequence number and is stored, it goes to the writer where the state lets
/// it, and the state records a Logon sent.
pub open spec fn sent<A, S: MessageStore, M: OutboundMessage>(
    before: Session<A, S>,
    after: Session<A, S>,
    message: M,
    now: Moment,
) -> bool {
    let n = before.ctx.store.spec_next_sender();
    let raw = out_bytes(before, n, now, message);
    &&& prepared(before.ctx.store, after.ctx.store, before.ctx.config, message, now.utc_millis, n, raw)
    &&& actions(after.outbox@) == actions(before.outbox@) + if spec_may_send(
        &before.state,
        encode_utf8(message.spec_message_type()),
    ) {
        seq![WriterAction::Send(raw)]
    } else {
        seq![]
    }
}

/// Whether `m` is a Logout whose Text is `text`.
pub open spec fn is_logout_with(m: Logout, text: Seq<char>) -> bool {
    m.text matches Some(t) && t@ == text
}

/// The writer actions for a disconnect: one where there is a connection.
pub open spec fn disconnect_actions(s: SessionState) -> Seq<WriterAction> {
    if is_connected_state(&s) {
        seq![WriterAction::Disconnect]
    } else {
        seq![]
    }
}

/// The bytes a send of `message` at `now` writes when it takes sequence number `n`.
pub open spec fn out_bytes<A, S, M: OutboundMessage>(s: Session<A, S>, n: u64, now: Moment, message: M) -> Seq<u8> {
    spec_outbound_bytes(s.ctx.config, n, now.utc_millis, message)
}

/// What handling a Heartbeat `m` at `now` does to the session, `r` being the result.
pub open spec fn heartbeat_handled<A: Application, S: MessageStore>(
    before: Session<A, S>,
    after: Session<A, S>,
    m: MessageView,
    now: Moment,
    r: Result<(), SessionOperationError>,
) -> bool {
    &&& (after.outbox == before.outbox)
    &&& (after.ctx.store.spec_next_sender() == before.ctx.store.spec_next_sender())
    &&& (r is Ok ==> after.ctx.store.spec_next_target() == before.ctx.store.spec_next_target() + 1)
    &&& (answers_test_request(before.state, m) ==> (after.state matches SessionState::Active(a)
            && a.sent_test_request_id is None && a.peer_deadline == spec_deadline(
            now.monotonic_millis,
            crate::session::state::spec_peer_interval(before.ctx.config.heartbeat_interval),
        )))
    &&& (!answers_test_request(before.state, m) ==> after.state == before.state)
}

/// What handling a TestRequest `m` at `now` does to the session, `r` being the result.
pub open spec fn test_request_handled<A: Application, S: MessageStore>(
    before: Session<A, S>,
    after: Session<A, S>,
    m: MessageView,
    now: Moment,
    r: Result<(), SessionOperationError>,
) -> bool {
    &&& (after.state.spec_status() == before.state.spec_status())
    &&& (!is_connected_state(&before.state) ==> r is Ok && after == before)
    &&& (is_connected_state(&before.state) && lookup(m.body, TEST_REQ_ID) is None ==> r
            is Err && after == before)
    &&& (r is Ok && is_connected_state(&before.state) ==> {
            &&& after.ctx.store.spec_next_target() == before.ctx.store.spec_next_target() + 1
            &&& after.ctx.store.spec_next_sender() == before.ctx.store.spec_next_sender() + 1
            &&& exists|hb: Heartbeat|
                #[trigger] hb.test_req_id matches Some(t) && Some(encode_utf8(t@)) == lookup(
                    m.body,
                    TEST_REQ_ID,
                ) && actions(after.outbox@) == actions(before.outbox@).push(
                    WriterAction::Send(
                        out_bytes(before, before.ctx.store.spec_next_sender(), now, hb),
                    ),
                )
        })
}

/// What handling a ResendRequest `m` at `now` does to the session, `r` being the result.
pub open spec fn resend_request_handled<A: Application, S: MessageStore>(
    before: Session<A, S>,
    after: Session<A, S>,
    m: MessageView,
    now: Moment,
    r: Result<(), SessionOperationError>,
) -> bool {
    &&& (after.state.spec_status() == before.state.spec_status())
    &&& (!is_connected_state(&before.state) ==> r is Ok && after == before)
    &&& (is_connected_state(&before.state) && r is Ok ==> {
            let msg_seq_num = seq_num_or_zero(m);
            let expected = before.ctx.store.spec_next_target();
            &&& match before.state {
                SessionState::AwaitingResend(st) => after.state matches SessionState::AwaitingResend(t)
                    && t.begin_seq_number == st.begin_seq_number && t.end_seq_number == st.end_seq_number
                    && t.resend_attempts == st.resend_attempts && queue_view(t.inbound_queue@) == if msg_seq_num > expected {
                    queue_view(st.inbound_queue@).push(m)
                } else {
                    queue_view(st.inbound_queue@)
                },
                _ => after.state.spec_status() == before.state.spec_status(),
            }
            &&& match (field_u64(m.body, BEGIN_SEQ_NO), field_u64(m.body, END_SEQ_NO)) {
                (Some(b), Some(e)) => {
                    &&& after.ctx.store.spec_next_target() == if msg_seq_num == expected {
                        expected + 1
                    } else {
                        expected as int
                    }
                    &&& exists|ms: Seq<MessageView>|
                        #[trigger] decodes_to(
                            before.ctx.store.spec_slice(b, resend_end(e, before.ctx.store.spec_next_sender())),
                            ms,
                        ) && actions(after.outbox@) == actions(before.outbox@) + resend_actions(
                            ms,
                            before.ctx.config,
                            now.utc_millis,
                        )
                },
                _ => after.ctx.store.spec_next_target() == expected && exists|rj: Reject|
                    #[trigger] is_reject_for(rj, msg_seq_num, SessionRejectReason::RequiredTagMissing)
                        && actions(after.outbox@) == actions(before.outbox@).push(
                        WriterAction::Send(out_bytes(before, before.ctx.store.spec_next_sender(), now, rj)),
                    ),
            }
        })
    &&& (is_connected_state(&before.state) && before.ctx.store.spec_never_fails() && match (
        field_u64(m.body, BEGIN_SEQ_NO),
        field_u64(m.body, END_SEQ_NO),
    ) {
        (Some(b), Some(e)) => {
            let slice = before.ctx.store.spec_slice(b, resend_end(e, before.ctx.store.spec_next_sender()));
            &&& seq_num_or_zero(m) == before.ctx.store.spec_next_target() ==> before.ctx.store.spec_next_target()
                < u64::MAX
            &&& fix_timestamp_text(now.utc_millis) is Some
            &&& forall|j: int| 0 <= j < slice.len() ==> !decode_fails(#[trigger] slice[j])
        },
        _ => !send_blocked(before.ctx.store, now.utc_millis),
    } ==> r is Ok)
    &&& (r matches Err(SessionOperationError::Store(_)) ==> !before.ctx.store.spec_never_fails()
        || before.ctx.store.spec_next_target() == u64::MAX)
}

/// What handling a Reject does to the session, `r` being the result.
pub open spec fn reject_handled<A: Application, S: MessageStore>(
    before: Session<A, S>,
    after: Session<A, S>,
    r: Result<(), SessionOperationError>,
) -> bool {
    &&& (after.outbox == before.outbox)
    &&& (after.state == before.state)
    &&& (after.ctx.store.spec_next_sender() == before.ctx.store.spec_next_sender())
    &&& (r is Ok ==> after.ctx.store.spec_next_target() == before.ctx.store.spec_next_target() + 1)
    &&& (before.ctx.store.spec_next_target() == u64::MAX ==> r is Err && after.ctx.store == before.ctx.store)
    &&& (before.ctx.store.spec_never_fails() && before.ctx.store.spec_next_target() < u64::MAX ==> r is Ok)
}

/// What handling a SequenceReset `m` at `now` does to the session, `r` being the result.
pub open spec fn sequence_reset_handled<A: Application, S: MessageStore>(
    before: Session<A, S>,
    after: Session<A, S>,
    m: MessageView,
    now: Moment,
    r: Result<(), SessionOperationError>,
) -> bool {
    &&& (after.state.spec_status() == before.state.spec_status())
    &&& (!is_connected_state(&before.state) ==> r is Ok && after == before)
    &&& (is_connected_state(&before.state) && r is Ok ==> match field_u64(m.body, NEW_SEQ_NO) {
            Some(n) => if n > before.ctx.store.spec_next_target() {
                after.ctx.store.spec_next_target() == n && after.outbox == before.outbox
            } else {
                after.ctx.store.spec_next_target() == before.ctx.store.spec_next_target()
                    && exists|rj: Reject|
                    #[trigger] is_reject_for(
                        rj,
                        seq_num_or_zero(m),
                        SessionRejectReason::ValueIsIncorrect,
                    ) && actions(after.outbox@) == actions(before.outbox@).push(
                        WriterAction::Send(
                            out_bytes(before, before.ctx.store.spec_next_sender(), now, rj),
                        ),
                    )
            },
            None => after.ctx.store.spec_next_target() == before.ctx.store.spec_next_target()
                && exists|rj: Reject|
                #[trigger] is_reject_for(
                    rj,
                    seq_num_or_zero(m),
                    SessionRejectReason::RequiredTagMissing,
                ) && actions(after.outbox@) == actions(before.outbox@).push(
                    WriterAction::Send(
                        out_bytes(before, before.ctx.store.spec_next_sender(), now, rj),
                    ),
                ),
        })
    &&& (is_connected_state(&before.state) && before.ctx.store.spec_never_fails() && match field_u64(
        m.body,
        NEW_SEQ_NO,
    ) {
        Some(n) => n > before.ctx.store.spec_next_target() || !send_blocked(before.ctx.store, now.utc_millis),
        None => !send_blocked(before.ctx.store, now.utc_millis),
    } ==> r is Ok)
    &&& (r matches Err(SessionOperationError::Store(_)) ==> !before.ctx.store.spec_never_fails())
}

/// What handling a Logout at `now` does to the session, `r` being the result.
pub open spec fn logout_handled<A: Application, S: MessageStore>(
    before: Session<A, S>,
    after: Session<A, S>,
    now: Moment,
    r: Result<(), SessionOperationError>,
) -> bool {
    &&& (r is Ok ==> {
            &&& after.state is Disconnected
            &&& before.state is Disconnected ==> after.state == before.state
            &&& before.state matches SessionState::AwaitingLogout(l) ==> (after.state matches SessionState::Disconnected(d)
                && d.reconnect == l.reconnect)
            &&& (before.state is Active || before.state is AwaitingResend || before.state is AwaitingLogon)
                ==> (after.state matches SessionState::Disconnected(d) && d.reconnect)
            &&& after.ctx.store.spec_next_target() == before.ctx.store.spec_next_target() + 1
        })
    &&& (r is Ok && !(before.state is Active || before.state is AwaitingResend) ==> actions(
            after.outbox@,
        ) == actions(before.outbox@) + disconnect_actions(before.state))
    &&& (r is Ok && (before.state is Active || before.state is AwaitingResend) ==> exists|lo: Logout|
            #[trigger] is_logout_with(lo, "Logout acknowledged"@) && actions(after.outbox@)
                == actions(before.outbox@).push(
                WriterAction::Send(out_bytes(before, before.ctx.store.spec_next_sender(), now, lo)),
            ).push(WriterAction::Disconnect))
    &&& (before.ctx.store.spec_never_fails() && before.ctx.store.spec_next_target() < u64::MAX && ((
    before.state is Active || before.state is AwaitingResend) ==> !send_blocked(before.ctx.store, now.utc_millis))
        ==> r is Ok)
    &&& (r is Ok ==> after.notices@ == before.notices@.push(AppNotice::LoggedOut("peer has logged us out"))
        + status_notice(before.state, after.state))
}

/// What handling a Logon at `now` does to the session, `r` being the result.
pub open spec fn logon_handled<A: Application, S: MessageStore>(
    before: Session<A, S>,
    after: Session<A, S>,
    now: Moment,
    r: Result<(), SessionOperationError>,
) -> bool {
    &&& (after.outbox == before.outbox)
    &&& (after.ctx.store.spec_next_sender() == before.ctx.store.spec_next_sender())
    &&& (before.state is AwaitingLogon ==> {
            &&& after.state matches SessionState::Active(a) && a.heartbeat_deadline
                == spec_deadline(now.monotonic_millis, before.ctx.config.heartbeat_interval)
                && a.sent_test_request_id is None
            &&& r is Ok ==> after.ctx.store.spec_next_target() == before.ctx.store.spec_next_target() + 1
        })
    &&& (!(before.state is AwaitingLogon) ==> after.state == before.state
            && after.ctx.store == before.ctx.store && r is Ok)
    &&& (before.state is AwaitingLogon ==> after.notices@ == (before.notices@ + status_notice(
        before.state,
        after.state,
    )).push(AppNotice::LoggedOn))
    &&& (!(before.state is AwaitingLogon) ==> after.notices == before.notices)
}

/// What carrying out the application's `decision` on the inbound application
/// message `m` at `now` does to the session, `r` being the result.
pub open spec fn inbound_decided<A: Application, S: MessageStore>(
    before: Session<A, S>,
    after: Session<A, S>,
    m: MessageView,
    decision: InboundDecision,
    now: Moment,
    r: Result<(), SessionOperationError>,
) -> bool {
    &&& (after.state.spec_status() == before.state.spec_status())
    &&& (r is Ok ==> after.ctx.store.spec_next_target() == before.ctx.store.spec_next_target() + 1)
    &&& (r is Ok ==> match decision {
            InboundDecision::Accept => after.outbox == before.outbox && after.state
                == before.state && after.ctx.store.spec_next_sender()
                == before.ctx.store.spec_next_sender(),
            InboundDecision::Reject { reason, text } => {
                &&& after.ctx.store.spec_next_sender() == before.ctx.store.spec_next_sender() + 1
                &&& vstd::utf8::valid_utf8(m.msg_type)
                &&& exists|br: BusinessReject|
                    #[trigger] br.reason == reason && br.ref_msg_type@ == vstd::utf8::decode_utf8(
                        m.msg_type,
                    ) && br.ref_seq_num == Some(seq_num_or_zero(m)) && opt_chars(br.text)
                        == opt_chars(text)
                        && actions(after.outbox@) == actions(before.outbox@) + if spec_may_send(
                        &before.state,
                        seq![106u8],
                    ) {
                        seq![WriterAction::Send(out_bytes(before, before.ctx.store.spec_next_sender(), now, br))]
                    } else {
                        seq![]
                    }
            },
            InboundDecision::TerminateSession => after.state == before.state
                && actions(after.outbox@) == actions(before.outbox@) + disconnect_actions(before.state)
                && after.ctx.store.spec_next_sender() == before.ctx.store.spec_next_sender(),
        })
    &&& (decision matches InboundDecision::Reject { .. } && !vstd::utf8::valid_utf8(m.msg_type)) ==> (r matches Err(
        SessionOperationError::MissingField(f),
    ) && f@ == "MSG_TYPE"@ && after == before)
}

/// What the session sends for a message with error `e`: a Logout and a
/// disconnection when the error ends the session, a Reject where the error
/// calls for one, nothing otherwise.
pub open spec fn error_answered<A: Application, S: MessageStore>(
    before: Session<A, S>,
    after: Session<A, S>,
    e: MessageErrorView,
    now: Moment,
) -> bool {
    &&& error_transition(e) is Some ==> actions(after.outbox@).last() == WriterAction::Disconnect
        && actions(before.outbox@).is_prefix_of(actions(after.outbox@))
    &&& error_reject(e) is None && error_transition(e) is None ==> after.outbox@ =~= before.outbox@
        && after.ctx.store == before.ctx.store
    &&& error_reject(e) is Some && error_transition(e) is None ==> (after.outbox@ =~= before.outbox@
        || exists|rj: Reject|
        #[trigger] is_reject_for(rj, error_reject_seq(e), error_reject_reason(e)) && actions(after.outbox@)
            =~= actions(before.outbox@).push(
            WriterAction::Send(out_bytes(before, before.ctx.store.spec_next_sender(), now, rj)),
        ))
    &&& error_reject(e) is Some && error_transition(e) is None ==> exists|mid: Session<A, S>|
        #[trigger] reject_answered(before, mid, error_reject_seq(e), error_reject_reason(e), error_text(e), now)
            && counted_received(mid, after)
    &&& error_reject(e) is None && error_transition(e) is Some ==> logout_answered(
        before,
        after,
        error_logout_text(e),
        now,
    )
    &&& error_reject(e) is Some && error_transition(e) is Some ==> exists|mid: Session<A, S>|
        #[trigger] reject_answered(before, mid, error_reject_seq(e), error_reject_reason(e), error_text(e), now)
            && logout_answered(mid, after, error_logout_text(e), now)
}

/// The Text of the Reject a message error is answered with.
pub open spec fn error_text(e: MessageErrorView) -> Seq<char> {
    match e {
        MessageErrorView::IncorrectCompId { comp_id, .. } => comp_id_text(comp_id),
        MessageErrorView::SendingTimeAccuracyIssue { .. } => "unexpected sending time"@,
        MessageErrorView::SendingTimeMissing { .. } => "sending time missing"@,
        MessageErrorView::OriginalSendingTimeMissing { .. } => "original sending time is required"@,
        MessageErrorView::OriginalSendingTimeAfterSendingTime { .. } => "original sending time is after sending time"@,
        _ => Seq::empty(),
    }
}

/// The Text of the Logout a message error that ends the session is answered with.
pub open spec fn error_logout_text(e: MessageErrorView) -> Seq<char> {
    match e {
        MessageErrorView::SeqNumberTooLow { expected, actual, .. } => too_low_text(expected, actual),
        MessageErrorView::IncorrectBeginString(b) => begin_string_text(b),
        _ => "incorrect comp ID received"@,
    }
}

/// What answering a message the data dictionary refused with a Reject of
/// `reason` and Text `text` does: nothing without a MsgSeqNum; otherwise the
/// Reject is sent as any message is, owed when the store never fails and the
/// send is not blocked.
pub open spec fn invalid_rejected<A: Application, S: MessageStore>(
    before: Session<A, S>,
    after: Session<A, S>,
    m: MessageView,
    reason: SessionRejectReason,
    text: Seq<char>,
    now: Moment,
    r: Result<(), SessionOperationError>,
) -> bool {
    match field_u64(m.header, MSG_SEQ_NUM) {
        None => r is Ok && after == before,
        Some(n) => {
            &&& after.notices == before.notices
            &&& before.ctx.store.spec_never_fails() && !send_blocked(before.ctx.store, now.utc_millis) ==> r is Ok
            &&& r is Ok ==> exists|rj: Reject|
                #[trigger] is_reject_for(rj, n, reason) && rj.text->0@ == text && sent(before, after, rj, now)
                    && after.state == state_after_send(before.state, seq![REJECT_TYPE])
            &&& r is Err ==> after.outbox == before.outbox && after.state == before.state && r matches Err(
                SessionOperationError::Send { .. },
            )
        },
    }
}

/// What answering a message of a type the data dictionary does not know does:
/// while connected and where it has a MsgSeqNum, a Reject goes straight to the
/// writer (where the store takes it), and the message counts as received when
/// it carries the number expected next.
pub open spec fn invalid_type_answered<A: Application, S: MessageStore>(
    before: Session<A, S>,
    after: Session<A, S>,
    m: MessageView,
    msg_type: Seq<char>,
    now: Moment,
) -> bool {
    if !is_connected_state(&before.state) {
        after == before
    } else {
        match field_u64(m.header, MSG_SEQ_NUM) {
            None => after == before,
            Some(n) => exists|mid: Session<A, S>|
                #[trigger] reject_answered(
                    before,
                    mid,
                    n,
                    SessionRejectReason::InvalidMsgtype,
                    "invalid message type "@ + msg_type,
                    now,
                ) && mid.notices == before.notices && if mid.ctx.store.spec_next_target() == n {
                    counted_received(mid, after) && after.notices == mid.notices
                } else {
                    after == mid
                },
        }
    }
}

/// What a session does with a message that failed verification with `issue`:
/// an invalid message leads to the transition its error calls for; a gap is
/// met with a ResendRequest, or with a disconnection once the resend of the same
/// gap has been asked for too often or the gap starts before the one awaited.
pub open spec fn issue_handled<A: Application, S: MessageStore>(
    before: Session<A, S>,
    after: Session<A, S>,
    issue: VerificationIssueView,
    now: Moment,
    r: Result<(), SessionOperationError>,
) -> bool {
    match issue {
        VerificationIssueView::InvalidMessage(e) => r is Ok && error_answered(before, after, e, now) && match error_transition(e) {
            None => after.state == before.state,
            Some(reconnect) => after.state matches SessionState::Disconnected(d) && d.reconnect == reconnect,
        },
        VerificationIssueView::SequenceGap { expected, actual } => {
            let request = out_bytes(
                before,
                before.ctx.store.spec_next_sender(),
                now,
                ResendRequest { begin_seq_no: expected, end_seq_no: actual },
            );
            match before.state {
                SessionState::AwaitingLogon(_) | SessionState::Active(_) => {
                    &&& before.ctx.store.spec_never_fails() && !send_blocked(before.ctx.store, now.utc_millis)
                        ==> r is Ok
                    &&& r is Ok ==> {
                        &&& after.state matches SessionState::AwaitingResend(st) && st.begin_seq_number == expected
                            && st.end_seq_number == actual && st.resend_attempts == 1 && st.inbound_queue@.len() == 0
                        &&& actions(after.outbox@) == actions(before.outbox@).push(WriterAction::Send(request))
                    }
                },
                SessionState::AwaitingResend(st) => if (expected == st.begin_seq_number
                    && st.resend_attempts + 1 > crate::session::state::MAX_RESEND_ATTEMPTS) || expected
                    < st.begin_seq_number {
                    &&& r is Ok
                    &&& after.state matches SessionState::Disconnected(d) && !d.reconnect
                    &&& actions(after.outbox@) == actions(before.outbox@).push(WriterAction::Disconnect)
                } else {
                    &&& after.state matches SessionState::AwaitingResend(t) && t.begin_seq_number == expected
                        && t.end_seq_number == actual && t.inbound_queue == st.inbound_queue
                        && t.resend_attempts == if expected == st.begin_seq_number {
                        st.resend_attempts + 1
                    } else {
                        1
                    }
                    &&& r is Ok ==> actions(after.outbox@) == actions(before.outbox@).push(
                        WriterAction::Send(request),
                    )
                    &&& before.ctx.store.spec_never_fails() && !send_blocked(before.ctx.store, now.utc_millis)
                        ==> r is Ok
                },
                _ => r is Ok && after == before,
            }
        },
    }
}

/// What handling a verified message `m` does, by its type: each session
/// message type has its handler, and any other type goes to the application.
pub open spec fn dispatched<A: Application, S: MessageStore>(
    before: Session<A, S>,
    after: Session<A, S>,
    m: MessageView,
    now: Moment,
    r: Result<(), SessionOperationError>,
) -> bool {
    if is_type(m, HEARTBEAT_TYPE) {
        heartbeat_handled(before, after, m, now, r)
    } else if is_type(m, TEST_REQUEST_TYPE) {
        test_request_handled(before, after, m, now, r)
    } else if is_type(m, RESEND_REQUEST_TYPE) {
        resend_request_handled(before, after, m, now, r)
    } else if is_type(m, REJECT_TYPE) {
        reject_handled(before, after, r)
    } else if is_type(m, SEQUENCE_RESET_TYPE) {
        sequence_reset_handled(before, after, m, now, r)
    } else if is_type(m, LOGOUT_TYPE) {
        logout_handled(before, after, now, r)
    } else if is_type(m, LOGON_TYPE) {
        logon_handled(before, after, now, r)
    } else {
        exists|d: InboundDecision| #[trigger] inbound_decided(before, after, m, d, now, r)
    }
}

/// What processing the decoded message `m` at `now` does: while awaiting a
/// resend, a message beyond the gap is queued; while awaiting the peer's Logon,
/// anything else drops the connection; otherwise a message that passes
/// verification goes to its handler, and one that fails is dealt with by its issue.
pub open spec fn message_processed<A: Application, S: MessageStore>(
    before: Session<A, S>,
    after: Session<A, S>,
    m: MessageView,
    now: Moment,
    r: Result<(), SessionOperationError>,
) -> bool {
    &&& (match before.state {
            SessionState::AwaitingResend(st) => seq_num_or_zero(m) > st.end_seq_number
                && !is_type(m, RESEND_REQUEST_TYPE) ==> {
                &&& r is Ok
                &&& after.state matches SessionState::AwaitingResend(t) && t.begin_seq_number
                    == st.begin_seq_number && t.end_seq_number == st.end_seq_number
                    && t.resend_attempts == st.resend_attempts && queue_view(t.inbound_queue@)
                    == queue_view(st.inbound_queue@).push(m)
                &&& after.ctx.store == before.ctx.store
                &&& after.outbox == before.outbox
            },
            _ => true,
        })
    &&& (before.state is AwaitingLogon && !is_type(m, LOGON_TYPE) ==> {
            &&& r is Ok
            &&& after.state == before.state
            &&& after.ctx.store == before.ctx.store
            &&& actions(after.outbox@) == actions(before.outbox@).push(WriterAction::Disconnect)
        })
    &&& (!(before.state matches SessionState::AwaitingResend(st) && seq_num_or_zero(m)
            > st.end_seq_number && !is_type(m, RESEND_REQUEST_TYPE)) && !(before.state is AwaitingLogon
            && !is_type(m, LOGON_TYPE)) ==> match before.verification_of(m, now) {
            None => dispatched(before, after, m, now, r),
            Some(issue) => issue_handled(before, after, issue, now, r),
        })
}

/// What counting one more message received does, `r` being the result.
pub open spec fn target_counted<A: Application, S: MessageStore>(
    before: Session<A, S>,
    after: Session<A, S>,
    r: Result<(), SessionOperationError>,
) -> bool {
    &&& after.ctx.config == before.ctx.config
    &&& after.ctx.application == before.ctx.application
    &&& after.keeps_setup(&before)
    &&& after.state == before.state
    &&& after.outbox == before.outbox
    &&& after.ctx.store.spec_next_sender() == before.ctx.store.spec_next_sender()
    &&& after.ctx.store.spec_creation_time() == before.ctx.store.spec_creation_time()
    &&& forall|b: u64, e: u64| #[trigger] after.ctx.store.spec_slice(b, e) == before.ctx.store.spec_slice(b, e)
    &&& r is Ok ==> after.ctx.store.spec_next_target() == before.ctx.store.spec_next_target() + 1
    &&& before.ctx.store.spec_next_target() == u64::MAX ==> r is Err && after.ctx.store == before.ctx.store
}

/// One step of replaying a queued message: a queued ResendRequest, answered
/// when it arrived, only counts as received; any other message is processed.
pub open spec fn replay_step<A: Application, S: MessageStore>(
    before: Session<A, S>,
    m: MessageView,
    after: Session<A, S>,
    now: Moment,
    r: Result<(), SessionOperationError>,
) -> bool {
    if is_type(m, RESEND_REQUEST_TYPE) {
        target_counted(before, after, r)
    } else {
        message_processed(before, after, m, now, r)
    }
}

/// What replaying the queued messages `q` in order from `s` does: each step as
/// `replay_step`, the first failure ending the replay with that failure.
pub open spec fn replayed<A: Application, S: MessageStore>(
    s: Session<A, S>,
    q: Seq<MessageView>,
    after: Session<A, S>,
    now: Moment,
    r: Result<(), SessionOperationError>,
) -> bool
    decreases q.len(),
{
    if q.len() == 0 {
        after == s && r is Ok
    } else {
        exists|mid: Session<A, S>, r1: Result<(), SessionOperationError>|
            #[trigger] replay_step(s, q[0], mid, now, r1) && if r1 is Ok {
                replayed(mid, q.drop_first(), after, now, r)
            } else {
                after == mid && r == r1
            }
    }
}

/// Whether `e` is the session `s` as it becomes active at `now` when an awaited
/// resend is complete, the application being owed the status change.
pub open spec fn resend_completed<A, S>(s: Session<A, S>, e: Session<A, S>, now: Moment) -> bool {
    &&& e.notices@ == s.notices@ + status_notice(s.state, e.state)
    &&& e == Session {
        notices: e.notices,
        state: SessionState::Active(
            ActiveState {
                heartbeat_deadline: spec_deadline(now.monotonic_millis, s.ctx.config.heartbeat_interval),
                peer_deadline: spec_deadline(
                    now.monotonic_millis,
                    crate::session::state::spec_peer_interval(s.ctx.config.heartbeat_interval),
                ),
                sent_test_request_id: None,
            },
        ),
        ..s
    }
}

/// A replay that went through one more step.
proof fn lemma_replayed_extend<A: Application, S: MessageStore>(
    s: Session<A, S>,
    p: Seq<MessageView>,
    cur: Session<A, S>,
    m: MessageView,
    next: Session<A, S>,
    now: Moment,
    r1: Result<(), SessionOperationError>,
)
    requires
        replayed(s, p, cur, now, Ok(())),
        replay_step(cur, m, next, now, r1),
    ensures
        replayed(s, p.push(m), next, now, r1),
    decreases p.len(),
{
    if p.len() == 0 {
        assert(p.push(m) =~= seq![m]);
        assert(seq![m].drop_first() =~= Seq::<MessageView>::empty());
        assert(replay_step(s, seq![m][0], next, now, r1));
        assert(replayed(next, seq![m].drop_first(), next, now, r1) || r1 is Err);
    } else {
        let (mid0, r0) = choose|mid: Session<A, S>, r0: Result<(), SessionOperationError>|
            #[trigger] replay_step(s, p[0], mid, now, r0) && if r0 is Ok {
                replayed(mid, p.drop_first(), cur, now, Ok(()))
            } else {
                cur == mid && Ok::<(), SessionOperationError>(()) == r0
            };
        lemma_replayed_extend(mid0, p.drop_first(), cur, m, next, now, r1);
        assert(p.push(m).drop_first() =~= p.drop_first().push(m));
        assert(p.push(m)[0] == p[0]);
        assert(replay_step(s, p.push(m)[0], mid0, now, r0));
    }
}

/// A replay that failed on a prefix of the queue failed on the whole queue.
proof fn lemma_replayed_failed<A: Application, S: MessageStore>(
    s: Session<A, S>,
    p: Seq<MessageView>,
    q: Seq<MessageView>,
    after: Session<A, S>,
    now: Moment,
    r: Result<(), SessionOperationError>,
)
    requires
        replayed(s, p, after, now, r),
        r is Err,
        p.is_prefix_of(q),
    ensures
        replayed(s, q, after, now, r),
    decreases p.len(),
{
    let (mid0, r0) = choose|mid: Session<A, S>, r0: Result<(), SessionOperationError>|
        #[trigger] replay_step(s, p[0], mid, now, r0) && if r0 is Ok {
            replayed(mid, p.drop_first(), after, now, r)
        } else {
            after == mid && r == r0
        };
    assert(q[0] == p[0]);
    if r0 is Ok {
        assert(p.drop_first().is_prefix_of(q.drop_first())) by {
            assert forall|i: int| 0 <= i < p.drop_first().len() implies p.drop_first()[i] == q.drop_first()[i] by {
                assert(p[i + 1] == q[i + 1]);
            }
        }
        lemma_replayed_failed(mid0, p.drop_first(), q.drop_first(), after, now, r);
    }
    assert(replay_step(s, q[0], mid0, now, r0));
}

/// What checking for the end of an awaited resend at `now` does.
pub open spec fn resend_checked<A: Application, S: MessageStore>(
    before: Session<A, S>,
    after: Session<A, S>,
    now: Moment,
    r: Result<(), SessionOperationError>,
) -> bool {
    &&& (!(before.state matches SessionState::AwaitingResend(st) && before.ctx.store.spec_next_target()
            > st.end_seq_number) ==> r is Ok && after == before)
    &&& (match before.state {
            SessionState::AwaitingResend(st) => before.ctx.store.spec_next_target() > st.end_seq_number
                && st.inbound_queue@.len() == 0 ==> r is Ok && (after.state matches SessionState::Active(a)
                && a.sent_test_request_id is None && a.heartbeat_deadline == spec_deadline(
                now.monotonic_millis,
                before.ctx.config.heartbeat_interval,
            )),
            _ => true,
        })
    &&& match before.state {
        SessionState::AwaitingResend(st) => before.ctx.store.spec_next_target() > st.end_seq_number
            ==> exists|e: Session<A, S>|
            #[trigger] resend_completed(before, e, now) && replayed(e, queue_view(st.inbound_queue@), after, now, r),
        _ => true,
    }
}

/// The state once a message from the peer restarts its timer at `now`.
pub open spec fn peer_reset(s: SessionState, interval: u64, now: u64) -> SessionState {
    match s {
        SessionState::Active(a) => SessionState::Active(
            ActiveState {
                heartbeat_deadline: a.heartbeat_deadline,
                peer_deadline: spec_deadline(now, crate::session::state::spec_peer_interval(interval)),
                sent_test_request_id: None,
            },
        ),
        _ => s,
    }
}

/// The session once bytes from the peer arrive at `now`: any message restarts
/// the peer timer, unless we await the answer to a TestRequest.
pub open spec fn touched<A, S>(s: Session<A, S>, now: Moment) -> Session<A, S> {
    if s.state.spec_expected_test_response_id() is Some {
        s
    } else {
        Session { state: peer_reset(s.state, s.ctx.config.heartbeat_interval, now.monotonic_millis), ..s }
    }
}

/// What checking the schedule at `now` does to the session.
pub open spec fn schedule_checked<A: Application, S: MessageStore>(
    before: Session<A, S>,
    after: Session<A, S>,
    now: Moment,
) -> bool {
    &&& (after.schedule == before.schedule)
    &&& (after.reset_on_next_logon == before.reset_on_next_logon)
    &&& (({
            let t = spec_utc_secs(now.utc_millis);
            if before.schedule.spec_is_active_at(t as i64) {
                &&& after.schedule_replies@ =~= before.schedule_replies@ + if before.state matches SessionState::Disconnected(d)
                    && d.schedule_awaiter {
                    seq![ScheduleResponse::InSchedule]
                } else {
                    seq![]
                }
                &&& match before.schedule.spec_same_period(
                    before.ctx.store.spec_creation_time(),
                    t as i64,
                    t as i64,
                ) {
                    Some(SessionPeriodComparison::SamePeriod) => after.ctx.store == before.ctx.store
                        && after.outbox == before.outbox && after.state == notified(
                        before.state,
                    ),
                    Some(SessionPeriodComparison::DifferentPeriod) => terminated(
                        before,
                        after.outbox@,
                        "session period changed"@,
                        now,
                    ) && ((store_fresh(after.ctx.store, t) && after.state == notified(before.state)) || (
                    after.state matches SessionState::Disconnected(d) && !d.reconnect)) && (before.ctx.store.spec_never_fails()
                        ==> store_fresh(after.ctx.store, t) && after.state == notified(before.state)),
                    Some(_) => terminated(before, after.outbox@, "creation time outside schedule"@, now) && ((
                    store_fresh(after.ctx.store, t) && after.state == notified(before.state))
                        || (after.state matches SessionState::Disconnected(d) && !d.reconnect)) && (
                    before.ctx.store.spec_never_fails() ==> store_fresh(after.ctx.store, t) && after.state
                        == notified(before.state)),
                    None => terminated(before, after.outbox@, "internal error"@, now)
                        && after.state == notified(before.state),
                }
            } else {
                &&& after.schedule_replies == before.schedule_replies
                &&& after.ctx.store.spec_next_target() == before.ctx.store.spec_next_target()
                &&& is_connected_state(&before.state) && !(before.state is AwaitingLogout) ==> (after.state matches SessionState::AwaitingLogout(l)
                    && l.reconnect)
                &&& is_connected_state(&before.state) ==> exists|r1: Result<(), SessionOperationError>|
                    #[trigger] logout_initiated(before, after, "End of session time"@, true, now, r1)
                &&& !is_connected_state(&before.state) ==> after == before
            }
        }))
}

/// What the bytes `raw` of one inbound message, arriving at `now`, do to the session.
pub open spec fn incoming_handled<A: Application, S: MessageStore>(
    before: Session<A, S>,
    after: Session<A, S>,
    raw: Seq<u8>,
    now: Moment,
    r: Result<(), SessionOperationError>,
) -> bool {
    &&& (decode_fails(raw) ==> r is Ok && after == touched(before, now))
    &&& (forall|v: MessageView|
            crate::message::parser::readable(v) && #[trigger] spec_encode(v) == raw ==> exists|
                mid: Session<A, S>,
                r1: Result<(), SessionOperationError>,
            |
                #[trigger] message_processed(touched(before, now), mid, v, now, r1) && if r1 is Ok {
                    resend_checked(mid, after, now, r)
                } else {
                    r == r1 && after == mid
                })
}

/// What losing the connection, for `reason`, does to the session.
pub open spec fn disconnected<A: Application, S: MessageStore>(
    before: Session<A, S>,
    after: Session<A, S>,
    reason: Seq<char>,
) -> bool {
    &&& (after.ctx.store == before.ctx.store)
    &&& (match before.state {
            SessionState::Active(_) | SessionState::AwaitingLogon(_) | SessionState::AwaitingResend(_) => {
                &&& after.state matches SessionState::Disconnected(d) && d.reconnect && d.reason@ == reason
                &&& actions(after.outbox@) =~= actions(before.outbox@).push(WriterAction::Disconnect)
            },
            SessionState::Disconnected(_) => after.state == before.state && after.outbox
                == before.outbox,
            SessionState::AwaitingLogout(l) => {
                &&& after.state matches SessionState::Disconnected(d) && d.reconnect == l.reconnect
                    && d.reason@ == reason
                &&& after.outbox == before.outbox
            },
        })
}

/// What a new connection at `now` does to the session.
pub open spec fn connected<A: Application, S: MessageStore>(
    before: Session<A, S>,
    after: Session<A, S>,
    now: Moment,
    r: Result<(), SessionOperationError>,
) -> bool {
    &&& (!after.reset_on_next_logon)
    &&& (after.schedule == before.schedule)
    &&& (after.schedule_replies == before.schedule_replies)
    &&& (after.state matches SessionState::AwaitingLogon(l) && l.logon_timeout == spec_deadline(
            now.monotonic_millis,
            before.ctx.config.logon_timeout,
        ))
    &&& (r is Ok ==> {
            let reset = before.resets_on_logon();
            let n = if reset {
                1u64
            } else {
                before.ctx.store.spec_next_sender()
            };
            let logon = spec_logon(
                before.ctx.config.heartbeat_interval,
                reset,
                before.ctx.store.spec_next_target(),
            );
            &&& after.state matches SessionState::AwaitingLogon(l) && l.logon_sent
            &&& after.ctx.store.spec_next_sender() == n + 1
            &&& after.ctx.store.spec_next_target() == if reset {
                1
            } else {
                before.ctx.store.spec_next_target()
            }
            &&& actions(after.outbox@) =~= actions(before.outbox@).push(
                WriterAction::Send(out_bytes(before, n, now, logon)),
            )
        })
}

/// What a failure `e` in handling an event does to the session.
pub open spec fn fatal_handled<A: Application, S: MessageStore>(
    before: Session<A, S>,
    after: Session<A, S>,
    e: SessionOperationError,
    now: Moment,
) -> bool {
    &&& (terminated(before, after.outbox@, "internal error"@, now))
    &&& (after.state matches SessionState::Disconnected(d) && d.reconnect && d.reason@
            == crate::session::error::operation_error_text(e))
}

/// What carrying out the application's `decision` on the outbound `message`
/// at `now` does to the session, `r` being the result.
pub open spec fn outbound_decided<A: Application, S: MessageStore>(
    before: Session<A, S>,
    after: Session<A, S>,
    message: A::Outbound,
    decision: OutboundDecision,
    now: Moment,
    r: Result<SendOutcome, SendError>,
) -> bool {
    &&& (after.state.spec_status() == before.state.spec_status())
    &&& (after.ctx.store.spec_next_target() == before.ctx.store.spec_next_target())
    &&& (match decision {
            OutboundDecision::Send => match r {
                Ok(SendOutcome::Sent { sequence_number }) => {
                    &&& sequence_number == before.ctx.store.spec_next_sender()
                    &&& after.ctx.store.spec_next_sender() == sequence_number + 1
                    &&& actions(after.outbox@) =~= actions(before.outbox@) + if spec_may_send(
                        &before.state,
                        encode_utf8(message.spec_message_type()),
                    ) {
                        seq![WriterAction::Send(out_bytes(before, sequence_number, now, message))]
                    } else {
                        seq![]
                    }
                },
                Ok(SendOutcome::Dropped) => false,
                Err(e) => !(e is Disconnected) && !(e is SessionTerminated) && after.outbox == before.outbox,
            },
            OutboundDecision::Drop => r == Ok::<SendOutcome, SendError>(SendOutcome::Dropped)
                && after == before,
            OutboundDecision::TerminateSession => r == Err::<SendOutcome, SendError>(SendError::SessionTerminated)
                && after.state == before.state && after.ctx == before.ctx
                && actions(after.outbox@) =~= actions(before.outbox@) + disconnect_actions(before.state),
        })
}

/// What starting a graceful logout for `reason`, to reconnect or not, at `now` does.
pub open spec fn logout_initiated<A: Application, S: MessageStore>(
    before: Session<A, S>,
    after: Session<A, S>,
    reason: Seq<char>,
    reconnect: bool,
    now: Moment,
    r: Result<(), SessionOperationError>,
) -> bool {
    &&& (after.ctx.store.spec_next_target() == before.ctx.store.spec_next_target())
    &&& (after.ctx.store.spec_creation_time() == before.ctx.store.spec_creation_time())
    &&& (r is Ok && is_connected_state(&before.state) && !(before.state is AwaitingLogout)
        ==> after.ctx.store.spec_next_sender() == before.ctx.store.spec_next_sender() + 1)
    &&& (before.ctx.store.spec_never_fails() && !send_blocked(before.ctx.store, now.utc_millis) ==> r is Ok)
    &&& (is_connected_state(&before.state) && !(before.state is AwaitingLogout) ==> {
            &&& after.state matches SessionState::AwaitingLogout(l) && l.reconnect == reconnect
                && l.logout_timeout == spec_deadline(now.monotonic_millis, before.ctx.config.logout_timeout)
            &&& r is Ok ==> exists|lo: Logout|
                #[trigger] is_logout_with(lo, reason) && actions(after.outbox@) =~= actions(
                    before.outbox@,
                ).push(
                    WriterAction::Send(out_bytes(before, before.ctx.store.spec_next_sender(), now, lo)),
                )
        })
    &&& (!(is_connected_state(&before.state) && !(before.state is AwaitingLogout)) ==> r is Ok
            && after == before)
}

/// The notification a transition from `from` to `to` owes the application: a
/// status change, where the status changes.
pub open spec fn status_notice(from: SessionState, to: SessionState) -> Seq<AppNotice> {
    if from.spec_status() != to.spec_status() {
        seq![AppNotice::StateChange { from: from.spec_status(), to: to.spec_status() }]
    } else {
        seq![]
    }
}

/// The session once a connection loop waits on its schedule: a disconnected
/// session holds the wait, unless one is already held.
pub open spec fn schedule_awaited<A, S>(s: Session<A, S>) -> Session<A, S> {
    match s.state {
        SessionState::Disconnected(d) => Session {
            state: SessionState::Disconnected(
                DisconnectedState { reconnect: d.reconnect, schedule_awaiter: true, reason: d.reason },
            ),
            ..s
        },
        _ => s,
    }
}

/// Whether a connection loop asking to wait on the schedule is refused at
/// once: the session is connected, or another loop already waits.
pub open spec fn schedule_wait_refused(s: SessionState) -> bool {
    match s {
        SessionState::Disconnected(d) => d.schedule_awaiter,
        _ => true,
    }
}

/// Whether the connection loop should reconnect: only a disconnected session
/// can say no.
pub open spec fn spec_should_reconnect(s: SessionState) -> bool {
    match s {
        SessionState::Disconnected(d) => d.reconnect,
        _ => true,
    }
}

impl<A: Application, S: MessageStore> Session<A, S> {
    /// The session's own invariant: its state is well formed.
    pub open spec fn wf(&self) -> bool {
        &&& self.state.wf()
        &&& self.ctx.store.spec_obeys()
    }

    /// Everything but the state, the store, the writer's queue and the
    /// application is as it was.
    pub open spec fn keeps_setup(&self, other: &Self) -> bool {
        &&& self.ctx.config == other.ctx.config
        &&& self.schedule == other.schedule
        &&& self.reset_on_next_logon == other.reset_on_next_logon
        &&& self.schedule_replies == other.schedule_replies
        &&& self.ctx.store.spec_never_fails() == other.ctx.store.spec_never_fails()
    }

    /// A disconnected session for `config`: the schedule comes from the
    /// configuration, and a configuration with no data dictionary must name FIX 4.4.
    pub fn new(config: SessionConfig, application: A, store: S) -> (r: Result<Self, SessionCreationError>)
        ensures
            match r {
                Ok(s) => {
                    &&& config.data_dictionary_path is Some || config.begin_string@ == "FIX.4.4"@
                    &&& s.ctx.config == config
                    &&& s.ctx.store == store
                    &&& s.ctx.application == application
                    &&& match config.schedule {
                        None => s.schedule is NonStop,
                        Some(c) => schedule_matches_config(s.schedule, c),
                    }
                    &&& s.state matches SessionState::Disconnected(d) && d.reconnect
                        && !d.schedule_awaiter
                    &&& !s.reset_on_next_logon
                    &&& s.outbox@.len() == 0
                    &&& s.schedule_replies@.len() == 0
                    &&& s.wf() == store.spec_obeys()
                },
                Err(SessionCreationError::UnsupportedBeginString(b)) => config.data_dictionary_path is None
                    && config.begin_string@ != "FIX.4.4"@ && b@ == config.begin_string@,
                Err(SessionCreationError::Schedule(_)) => (config.data_dictionary_path is Some
                    || config.begin_string@ == "FIX.4.4"@) && (config.schedule matches Some(c)
                    && spec_schedule_kind(c) is Err),
            },
    {
        if config.data_dictionary_path.is_none() {
            let supported = String::from_str("FIX.4.4");
            proof {
                reveal_strlit("FIX.4.4");
            }
            if !(config.begin_string == supported) {
                return Err(SessionCreationError::UnsupportedBeginString(config.begin_string.clone()));
            }
        }
        let schedule = match SessionSchedule::try_from_optional(config.schedule.as_ref()) {
            Ok(s) => s,
            Err(e) => return Err(SessionCreationError::Schedule(e)),
        };
        Ok(
            Session {
                ctx: SessionCtx { config, store, application },
                schedule,
                state: SessionState::new_disconnected(true, "initialising"),
                reset_on_next_logon: false,
                outbox: Vec::new(),
                schedule_replies: Vec::new(),
                notices: Vec::new(),
            },
        )
    }

    /// Enters `new_state`, telling the application when the status changes.
    pub fn apply_transition(&mut self, new_state: SessionState)
        requires
            new_state.wf(),
            old(self).ctx.store.spec_obeys(),
        ensures
            final(self).state == new_state,
            final(self).ctx == old(self).ctx,
            final(self).keeps_setup(old(self)),
            final(self).outbox == old(self).outbox,
            final(self).wf(),
            final(self).notices@ == old(self).notices@ + status_notice(old(self).state, new_state),
    {
        let old_status = self.state.as_status();
        self.state = new_state;
        let new_status = self.state.as_status();
        if old_status != new_status {
            self.notices.push(AppNotice::StateChange { from: old_status, to: new_status });
        }
    }

    pub fn reset_heartbeat_timer(&mut self, now: Moment)
        requires
            old(self).wf(),
        ensures
            final(self).notices == old(self).notices,
            final(self).ctx == old(self).ctx,
            final(self).keeps_setup(old(self)),
            final(self).outbox == old(self).outbox,
            final(self).state.spec_status() == old(self).state.spec_status(),
            final(self).wf(),
            match old(self).state {
                SessionState::Active(a) => final(self).state matches SessionState::Active(b)
                    && b.heartbeat_deadline == spec_deadline(
                    now.monotonic_millis,
                    old(self).ctx.config.heartbeat_interval,
                ) && b.peer_deadline == a.peer_deadline && b.sent_test_request_id
                    == a.sent_test_request_id,
                _ => final(self).state == old(self).state,
            },
    {
        let hb = self.ctx.config.heartbeat_interval;
        self.state.reset_heartbeat_timer(hb, now.monotonic_millis);
    }

    pub fn reset_peer_timer(&mut self, test_request_id: Option<String>, now: Moment)
        requires
            old(self).wf(),
        ensures
            final(self).notices == old(self).notices,
            final(self).ctx == old(self).ctx,
            final(self).keeps_setup(old(self)),
            final(self).outbox == old(self).outbox,
            final(self).state.spec_status() == old(self).state.spec_status(),
            final(self).wf(),
            match old(self).state {
                SessionState::Active(a) => final(self).state matches SessionState::Active(b)
                    && b.peer_deadline == spec_deadline(
                    now.monotonic_millis,
                    crate::session::state::spec_peer_interval(old(self).ctx.config.heartbeat_interval),
                ) && b.heartbeat_deadline == a.heartbeat_deadline && b.sent_test_request_id
                    == test_request_id,
                _ => final(self).state == old(self).state,
            },
    {
        let hb = self.ctx.config.heartbeat_interval;
        self.state.reset_peer_timer(hb, test_request_id, now.monotonic_millis);
    }

    /// Prepares `message` and hands it to the writer where the state allows its type.
    pub fn send_message<M: OutboundMessage>(&mut self, message: &M, now: Moment) -> (r: Result<
        u64,
        InternalSendError,
    >)
        requires
            message.spec_obeys(),
            old(self).wf(),
        ensures
            final(self).notices == old(self).notices,
            final(self).ctx.config == old(self).ctx.config,
            final(self).ctx.application == old(self).ctx.application,
            final(self).keeps_setup(old(self)),
            final(self).state.spec_status() == old(self).state.spec_status(),
            final(self).wf(),
            final(self).ctx.store.spec_next_target() == old(self).ctx.store.spec_next_target(),
            final(self).ctx.store.spec_creation_time() == old(self).ctx.store.spec_creation_time(),
            send_blocked(old(self).ctx.store, now.utc_millis) ==> r is Err && final(self).ctx.store
                == old(self).ctx.store,
            old(self).ctx.store.spec_never_fails() && !send_blocked(old(self).ctx.store, now.utc_millis) ==> r is Ok,
            match r {
                Ok(n) => {
                    &&& prepared(
                        old(self).ctx.store,
                        final(self).ctx.store,
                        old(self).ctx.config,
                        *message,
                        now.utc_millis,
                        n,
                        out_bytes(*old(self), n, now, *message),
                    )
                    &&& actions(final(self).outbox@) == actions(old(self).outbox@) + if spec_may_send(
                        &old(self).state,
                        encode_utf8(message.spec_message_type()),
                    ) {
                        seq![WriterAction::Send(out_bytes(*old(self), n, now, *message))]
                    } else {
                        seq![]
                    }
                    &&& final(self).state == state_after_send(
                        old(self).state,
                        encode_utf8(message.spec_message_type()),
                    )
                },
                Err(_) => final(self).outbox == old(self).outbox && final(self).state
                    == old(self).state,
            },
    {
        match self.ctx.prepare_message(message, now.utc_millis) {
            Ok(p) => {
                let crate::session::ctx::PreparedMessage { seq_num, raw } = p;
                let ghost raw_view = raw@;
                let message_type = crate::decimal::str_bytes(message.message_type());
                let ghost before = self.outbox@;
                self.state.send_message(message_type.as_slice(), raw, &mut self.outbox);
                proof {
                    if spec_may_send(&old(self).state, encode_utf8(message.spec_message_type())) {
                        lemma_actions_push(before, WriterMessage::SendMessage(raw));
                    }
                    assert(actions(self.outbox@) =~= actions(before) + if spec_may_send(
                        &old(self).state,
                        encode_utf8(message.spec_message_type()),
                    ) {
                        seq![WriterAction::Send(raw_view)]
                    } else {
                        seq![]
                    });
                }
                Ok(seq_num)
            },
            Err(e) => Err(e),
        }
    }

    /// Whether the Logon we send next resets both sequence numbers.
    pub open spec fn resets_on_logon(&self) -> bool {
        self.ctx.config.reset_on_logon || self.reset_on_next_logon
    }

    /// Counts one more message received from the peer.
    pub fn increment_target(&mut self) -> (r: Result<(), SessionOperationError>)
        requires
            old(self).ctx.store.spec_obeys(),
        ensures
            final(self).notices == old(self).notices,
            final(self).ctx.config == old(self).ctx.config,
            final(self).ctx.application == old(self).ctx.application,
            final(self).keeps_setup(old(self)),
            final(self).state == old(self).state,
            final(self).outbox == old(self).outbox,
            final(self).wf() == old(self).wf(),
            final(self).ctx.store.spec_next_sender() == old(self).ctx.store.spec_next_sender(),
            final(self).ctx.store.spec_creation_time() == old(self).ctx.store.spec_creation_time(),
            forall|b: u64, e: u64| #[trigger] final(self).ctx.store.spec_slice(b, e)
                == old(self).ctx.store.spec_slice(b, e),
            old(self).ctx.store.spec_next_target() == u64::MAX ==> r is Err && final(self).ctx.store
                == old(self).ctx.store,
            r is Ok ==> final(self).ctx.store.spec_next_target() == old(self).ctx.store.spec_next_target() + 1,
            old(self).ctx.store.spec_never_fails() && old(self).ctx.store.spec_next_target() < u64::MAX ==> r is Ok,
    {
        if self.ctx.store.next_target_seq_number() == u64::MAX {
            return Err(
                SessionOperationError::Store(
                    StoreError::SequenceNumber(
                        String::from_str("target sequence numbers are exhausted"),
                    ),
                ),
            );
        }
        match self.ctx.store.increment_target_seq_number() {
            Ok(()) => Ok(()),
            Err(e) => Err(SessionOperationError::Store(e)),
        }
    }

    /// Sends our Logon: resetting both sequence numbers first where the
    /// configuration or a one-off request says so, otherwise telling the peer
    /// which sequence number we expect next. A one-off reset request is used up.
    pub fn send_logon(&mut self, now: Moment) -> (r: Result<(), SessionOperationError>)
        requires
            old(self).wf(),
        ensures
            final(self).wf(),
            !final(self).reset_on_next_logon,
            final(self).ctx.config == old(self).ctx.config,
            final(self).ctx.application == old(self).ctx.application,
            final(self).schedule == old(self).schedule,
            final(self).schedule_replies == old(self).schedule_replies,
            final(self).state.spec_status() == old(self).state.spec_status(),
            final(self).state == if r is Ok {
                state_after_send(old(self).state, seq![LOGON_TYPE])
            } else {
                old(self).state
            },
            r is Ok ==> {
                let reset = old(self).resets_on_logon();
                let n = if reset {
                    1u64
                } else {
                    old(self).ctx.store.spec_next_sender()
                };
                let logon = spec_logon(
                    old(self).ctx.config.heartbeat_interval,
                    reset,
                    old(self).ctx.store.spec_next_target(),
                );
                &&& final(self).ctx.store.spec_next_sender() == n + 1
                &&& final(self).ctx.store.spec_next_target() == if reset {
                    1
                } else {
                    old(self).ctx.store.spec_next_target()
                }
                &&& reset ==> final(self).ctx.store.spec_creation_time() == spec_utc_secs(now.utc_millis)
                &&& !reset ==> final(self).ctx.store.spec_creation_time() == old(self).ctx.store.spec_creation_time()
                &&& actions(final(self).outbox@) == actions(old(self).outbox@) + if spec_may_send(
                    &old(self).state,
                    seq![LOGON_TYPE],
                ) {
                    seq![WriterAction::Send(out_bytes(*old(self), n, now, logon))]
                } else {
                    seq![]
                }
            },
    {
        let reset = self.ctx.config.reset_on_logon || self.reset_on_next_logon;
        let reset_config = if reset {
            match self.ctx.store.reset(utc_secs(now.utc_millis)) {
                Ok(()) => {},
                Err(e) => {
                    self.reset_on_next_logon = false;
                    return Err(SessionOperationError::Store(e));
                },
            }
            ResetSeqNumConfig::Reset
        } else {
            ResetSeqNumConfig::NoReset(Some(self.ctx.store.next_target_seq_number()))
        };
        self.reset_on_next_logon = false;
        let logon = Logon::new(self.ctx.config.heartbeat_interval, reset_config);
        assert(logon == spec_logon(
            old(self).ctx.config.heartbeat_interval,
            reset,
            old(self).ctx.store.spec_next_target(),
        ));
        proof {
            lemma_logon_type_bytes();
        }
        match self.send_message(&logon, now) {
            Ok(_) => Ok(()),
            Err(e) => Err(SessionOperationError::Send { context: String::from_str("logon"), source: e }),
        }
    }

    /// Asks the writer to close the connection, where there is one.
    pub fn disconnect_writer(&mut self)
        ensures
            final(self).notices == old(self).notices,
            final(self).ctx == old(self).ctx,
            final(self).keeps_setup(old(self)),
            final(self).state == old(self).state,
            actions(final(self).outbox@) == actions(old(self).outbox@) + disconnect_actions(old(self).state),
    {
        let ghost before = self.outbox@;
        self.state.disconnect_writer(&mut self.outbox);
        proof {
            if is_connected_state(&self.state) {
                lemma_actions_push(before, WriterMessage::Disconnect);
            }
            assert(actions(self.outbox@) =~= actions(before) + disconnect_actions(old(self).state));
        }
    }

    /// A connection to the peer is up: we await its Logon and send ours.
    pub fn on_connect(&mut self, now: Moment) -> (r: Result<(), SessionOperationError>)
        requires
            old(self).wf(),
        ensures
            final(self).wf(),
            final(self).ctx.config == old(self).ctx.config,
            connected(*old(self), *final(self), now, r),
    {
        let timeout = crate::session::state::deadline_after(
            now.monotonic_millis,
            self.ctx.config.logon_timeout,
        );
        self.apply_transition(
            SessionState::AwaitingLogon(AwaitingLogonState { logon_sent: false, logon_timeout: timeout }),
        );
        let r = self.send_logon(now);
        proof {
            if r is Ok {
                assert(spec_may_send(&SessionState::AwaitingLogon(AwaitingLogonState { logon_sent: false, logon_timeout: timeout }), seq![LOGON_TYPE]));
            }
        }
        r
    }

    /// The connection is gone.
    pub fn on_disconnect(&mut self, reason: &str)
        requires
            old(self).wf(),
        ensures
            final(self).wf(),
            final(self).ctx.config == old(self).ctx.config,
            final(self).keeps_setup(old(self)),
            disconnected(*old(self), *final(self), reason@),
    {
        match &self.state {
            SessionState::Active(_) | SessionState::AwaitingLogon(_) | SessionState::AwaitingResend(_) => {
                self.disconnect_writer();
                self.apply_transition(SessionState::new_disconnected(true, reason));
            },
            SessionState::Disconnected(_) => {},
            SessionState::AwaitingLogout(l) => {
                let reconnect = l.reconnect;
                self.apply_transition(SessionState::new_disconnected(reconnect, reason));
            },
        }
    }

    /// The peer's Logon: while awaiting it, the session becomes active.
    pub fn on_logon(&mut self, now: Moment) -> (r: Result<(), SessionOperationError>)
        requires
            old(self).wf(),
        ensures
            final(self).wf(),
            final(self).ctx.config == old(self).ctx.config,
            final(self).keeps_setup(old(self)),
            logon_handled(*old(self), *final(self), now, r),
    {
        if let SessionState::AwaitingLogon(_) = &self.state {
            let active = SessionState::new_active(self.ctx.config.heartbeat_interval, now.monotonic_millis);
            self.apply_transition(active);
            self.notices.push(AppNotice::LoggedOn);
            self.increment_target()
        } else {
            Ok(())
        }
    }

    /// Sends a Logout with `reason` as its Text, where the state allows it.
    pub fn send_logout(&mut self, reason: &str, now: Moment) -> (r: Result<(), SessionOperationError>)
        requires
            old(self).wf(),
        ensures
            final(self).notices == old(self).notices,
            final(self).ctx.config == old(self).ctx.config,
            final(self).ctx.application == old(self).ctx.application,
            final(self).keeps_setup(old(self)),
            final(self).state.spec_status() == old(self).state.spec_status(),
            final(self).wf(),
            final(self).ctx.store.spec_next_target() == old(self).ctx.store.spec_next_target(),
            final(self).ctx.store.spec_creation_time() == old(self).ctx.store.spec_creation_time(),
            r is Ok ==> final(self).ctx.store.spec_next_sender() == old(self).ctx.store.spec_next_sender() + 1,
            r is Err ==> final(self).outbox == old(self).outbox && final(self).state == old(self).state,
            send_blocked(old(self).ctx.store, now.utc_millis) ==> r is Err,
            old(self).ctx.store.spec_never_fails() && !send_blocked(old(self).ctx.store, now.utc_millis) ==> r is Ok,
            r is Ok ==> final(self).state == state_after_send(old(self).state, seq![LOGOUT_TYPE]),
            r is Ok ==> exists|lo: Logout|
                #[trigger] is_logout_with(lo, reason@) && actions(final(self).outbox@) == actions(
                    old(self).outbox@,
                ) + if spec_may_send(&old(self).state, seq![LOGOUT_TYPE]) {
                    seq![WriterAction::Send(out_bytes(*old(self), old(self).ctx.store.spec_next_sender(), now, lo))]
                } else {
                    seq![]
                },
    {
        let logout = Logout::with_reason(String::from_str(reason));
        proof {
            lemma_ascii_type_bytes('5');
        }
        match self.send_message(&logout, now) {
            Ok(_) => {
                assert(is_logout_with(logout, reason@));
                Ok(())
            },
            Err(e) => Err(SessionOperationError::Send { context: String::from_str("logout"), source: e }),
        }
    }

    /// The peer's Logout: acknowledged when we are logged on, then the
    /// connection is closed and the session is disconnected — keeping our own
    /// choice to reconnect when we started the logout, reconnecting otherwise.
    pub fn on_logout(&mut self, now: Moment) -> (r: Result<(), SessionOperationError>)
        requires
            old(self).wf(),
        ensures
            final(self).wf(),
            final(self).ctx.config == old(self).ctx.config,
            final(self).keeps_setup(old(self)),
            logout_handled(*old(self), *final(self), now, r),
    {
        let ghost mut lo: Logout = arbitrary();
        if self.state.is_logged_on() {
            match self.send_logout("Logout acknowledged", now) {
                Ok(()) => {},
                Err(e) => return Err(e),
            }
            proof {
                lo = choose|lo: Logout|
                    #[trigger] is_logout_with(lo, "Logout acknowledged"@) && actions(self.outbox@)
                        == actions(old(self).outbox@) + if spec_may_send(&old(self).state, seq![LOGOUT_TYPE]) {
                        seq![WriterAction::Send(out_bytes(*old(self), old(self).ctx.store.spec_next_sender(), now, lo))]
                    } else {
                        seq![]
                    };
                assert(seq![LOGOUT_TYPE][0] != seq![LOGON_TYPE][0]);
                assert(spec_may_send(&old(self).state, seq![LOGOUT_TYPE]));
            }
        }
        let ghost mid = self.outbox@;
        self.notices.push(AppNotice::LoggedOut("peer has logged us out"));
        match &self.state {
            SessionState::Disconnected(_) => {},
            SessionState::AwaitingLogout(l) => {
                let reconnect = l.reconnect;
                self.disconnect_writer();
                self.apply_transition(SessionState::new_disconnected(reconnect, "logout completed"));
            },
            _ => {
                self.disconnect_writer();
                self.apply_transition(SessionState::new_disconnected(true, "peer has logged us out"));
            },
        }
        let r = self.increment_target();
        proof {
            if old(self).state is Active || old(self).state is AwaitingResend {
                assert(actions(self.outbox@) =~= actions(old(self).outbox@).push(
                    WriterAction::Send(out_bytes(*old(self), old(self).ctx.store.spec_next_sender(), now, lo)),
                ).push(WriterAction::Disconnect));
            } else {
                assert(actions(self.outbox@) =~= actions(old(self).outbox@) + disconnect_actions(old(self).state));
            }
        }
        r
    }

    /// Sends `message` straight to the writer; `true` when it went out.
    pub fn send_direct<M: OutboundMessage>(&mut self, message: &M, now: Moment) -> (sent: bool)
        requires
            message.spec_obeys(),
            old(self).wf(),
        ensures
            final(self).notices == old(self).notices,
            final(self).ctx.config == old(self).ctx.config,
            final(self).ctx.application == old(self).ctx.application,
            final(self).keeps_setup(old(self)),
            final(self).state == old(self).state,
            final(self).wf(),
            final(self).ctx.store.spec_next_target() == old(self).ctx.store.spec_next_target(),
            send_blocked(old(self).ctx.store, now.utc_millis) ==> !sent && final(self).ctx.store
                == old(self).ctx.store,
            sent ==> prepared(
                old(self).ctx.store,
                final(self).ctx.store,
                old(self).ctx.config,
                *message,
                now.utc_millis,
                old(self).ctx.store.spec_next_sender(),
                out_bytes(*old(self), old(self).ctx.store.spec_next_sender(), now, *message),
            ) && actions(final(self).outbox@) == actions(old(self).outbox@).push(
                WriterAction::Send(
                    out_bytes(*old(self), old(self).ctx.store.spec_next_sender(), now, *message),
                ),
            ),
            !sent ==> final(self).outbox@ == old(self).outbox@,
            old(self).ctx.store.spec_never_fails() && !send_blocked(old(self).ctx.store, now.utc_millis) ==> sent,
    {
        match self.ctx.send_message(&mut self.outbox, message, now.utc_millis) {
            Ok(_) => true,
            Err(_) => false,
        }
    }

    /// Counts one more message received, where the store can; a failure is
    /// left for the next message to run into.
    fn count_received(&mut self)
        requires
            old(self).ctx.store.spec_obeys(),
        ensures
            final(self).ctx.config == old(self).ctx.config,
            final(self).ctx.application == old(self).ctx.application,
            final(self).keeps_setup(old(self)),
            final(self).state == old(self).state,
            final(self).outbox@ == old(self).outbox@,
            final(self).wf() == old(self).wf(),
            final(self).ctx.store.spec_next_sender() == old(self).ctx.store.spec_next_sender(),
            old(self).ctx.store.spec_next_target() == u64::MAX ==> final(self).ctx.store == old(self).ctx.store,
            old(self).ctx.store.spec_never_fails() && old(self).ctx.store.spec_next_target() < u64::MAX ==> final(self).ctx.store.spec_next_target()
                == old(self).ctx.store.spec_next_target() + 1,
            counted_received(*old(self), *final(self)),
            final(self).notices == old(self).notices,
    {
        let _ = self.increment_target();
    }

    /// Sends a Logout with `reason` and closes the connection.
    pub fn logout_and_terminate(&mut self, reason: &str, now: Moment)
        requires
            old(self).wf(),
        ensures
            final(self).ctx.config == old(self).ctx.config,
            final(self).keeps_setup(old(self)),
            final(self).state == old(self).state,
            final(self).wf(),
            final(self).ctx.store.spec_next_target() == old(self).ctx.store.spec_next_target(),
            send_blocked(old(self).ctx.store, now.utc_millis) ==> actions(final(self).outbox@)
                == actions(old(self).outbox@).push(WriterAction::Disconnect),
            logged_out_and_terminated(*old(self), *final(self), reason@, now),
            logout_answered(*old(self), *final(self), reason@, now),
    {
        let logout = Logout::with_reason(String::from_str(reason));
        let sent = self.send_direct(&logout, now);
        proof {
            lemma_actions_push(self.outbox@, WriterMessage::Disconnect);
        }
        self.outbox.push(WriterMessage::Disconnect);
        proof {
            if sent {
                assert(is_logout_with(logout, reason@));
            }
        }
    }

    /// Sends a Reject for a SendingTime problem and counts the message received.
    pub fn handle_sending_time_accuracy_problem(&mut self, msg_seq_num: u64, text: &str, now: Moment)
        requires
            old(self).wf(),
        ensures
            final(self).ctx.config == old(self).ctx.config,
            final(self).keeps_setup(old(self)),
            final(self).state == old(self).state,
            final(self).wf(),
            send_blocked(old(self).ctx.store, now.utc_millis) ==> final(self).outbox@ == old(self).outbox@,
            old(self).ctx.store.spec_never_fails() && !send_blocked(old(self).ctx.store, now.utc_millis) ==> exists|rj: Reject|
                #[trigger] is_reject_for(rj, msg_seq_num, SessionRejectReason::SendingtimeAccuracyProblem) && rj.text->0@ == text@
                    && actions(final(self).outbox@) == actions(old(self).outbox@).push(
                    WriterAction::Send(out_bytes(*old(self), old(self).ctx.store.spec_next_sender(), now, rj)),
                ),
            old(self).ctx.store.spec_next_target() == u64::MAX ==> final(self).ctx.store.spec_next_target() == u64::MAX,
            old(self).ctx.store.spec_never_fails() && old(self).ctx.store.spec_next_target() < u64::MAX ==> final(self).ctx.store.spec_next_target()
                == old(self).ctx.store.spec_next_target() + 1,
            old(self).ctx.store.spec_never_fails() && !send_blocked(old(self).ctx.store, now.utc_millis) ==> final(self).ctx.store.spec_next_sender() == old(self).ctx.store.spec_next_sender() + 1,
            exists|mid: Session<A, S>|
                #[trigger] reject_answered(*old(self), mid, msg_seq_num, SessionRejectReason::SendingtimeAccuracyProblem, text@, now)
                    && counted_received(mid, *final(self)),
            final(self).outbox@ == old(self).outbox@ || exists|rj: Reject|
                #[trigger] is_reject_for(rj, msg_seq_num, SessionRejectReason::SendingtimeAccuracyProblem)
                    && rj.text->0@ == text@ && actions(final(self).outbox@) == actions(old(self).outbox@).push(
                    WriterAction::Send(out_bytes(*old(self), old(self).ctx.store.spec_next_sender(), now, rj)),
                ),
    {
        self.send_reject(msg_seq_num, SessionRejectReason::SendingtimeAccuracyProblem, text, now);
        self.count_received();
    }

    /// Sends a Reject for a missing OrigSendingTime and counts the message received.
    pub fn handle_original_sending_time_missing(&mut self, msg_seq_num: u64, now: Moment)
        requires
            old(self).wf(),
        ensures
            final(self).ctx.config == old(self).ctx.config,
            final(self).keeps_setup(old(self)),
            final(self).state == old(self).state,
            final(self).wf(),
            send_blocked(old(self).ctx.store, now.utc_millis) ==> final(self).outbox@ == old(self).outbox@,
            old(self).ctx.store.spec_never_fails() && !send_blocked(old(self).ctx.store, now.utc_millis) ==> exists|rj: Reject|
                #[trigger] is_reject_for(rj, msg_seq_num, SessionRejectReason::RequiredTagMissing) && rj.text->0@ == "original sending time is required"@
                    && actions(final(self).outbox@) == actions(old(self).outbox@).push(
                    WriterAction::Send(out_bytes(*old(self), old(self).ctx.store.spec_next_sender(), now, rj)),
                ),
            old(self).ctx.store.spec_next_target() == u64::MAX ==> final(self).ctx.store.spec_next_target() == u64::MAX,
            old(self).ctx.store.spec_never_fails() && old(self).ctx.store.spec_next_target() < u64::MAX ==> final(self).ctx.store.spec_next_target()
                == old(self).ctx.store.spec_next_target() + 1,
            old(self).ctx.store.spec_never_fails() && !send_blocked(old(self).ctx.store, now.utc_millis) ==> final(self).ctx.store.spec_next_sender() == old(self).ctx.store.spec_next_sender() + 1,
            exists|mid: Session<A, S>|
                #[trigger] reject_answered(*old(self), mid, msg_seq_num, SessionRejectReason::RequiredTagMissing, "original sending time is required"@, now)
                    && counted_received(mid, *final(self)),
            final(self).outbox@ == old(self).outbox@ || exists|rj: Reject|
                #[trigger] is_reject_for(rj, msg_seq_num, SessionRejectReason::RequiredTagMissing)
                    && rj.text->0@ == "original sending time is required"@ && actions(final(self).outbox@)
                    == actions(old(self).outbox@).push(
                    WriterAction::Send(out_bytes(*old(self), old(self).ctx.store.spec_next_sender(), now, rj)),
                ),
    {
        self.send_reject(
            msg_seq_num,
            SessionRejectReason::RequiredTagMissing,
            "original sending time is required",
            now,
        );
        self.count_received();
    }

    /// Sends a Reject of `msg_seq_num` for `reason` with `text`, straight to the writer.
    pub fn send_reject(&mut self, msg_seq_num: u64, reason: SessionRejectReason, text: &str, now: Moment) -> (sent: bool)
        requires
            old(self).wf(),
        ensures
            final(self).notices == old(self).notices,
            final(self).ctx.config == old(self).ctx.config,
            final(self).ctx.application == old(self).ctx.application,
            final(self).keeps_setup(old(self)),
            final(self).state == old(self).state,
            final(self).wf(),
            final(self).ctx.store.spec_next_target() == old(self).ctx.store.spec_next_target(),
            send_blocked(old(self).ctx.store, now.utc_millis) ==> !sent && final(self).ctx.store
                == old(self).ctx.store,
            !sent ==> final(self).outbox@ == old(self).outbox@,
            old(self).ctx.store.spec_never_fails() && !send_blocked(old(self).ctx.store, now.utc_millis) ==> sent,
            sent ==> final(self).ctx.store.spec_next_sender() == old(self).ctx.store.spec_next_sender() + 1,
            reject_answered(*old(self), *final(self), msg_seq_num, reason, text@, now),
            sent ==> exists|rj: Reject|
                #[trigger] is_reject_for(rj, msg_seq_num, reason) && rj.text->0@ == text@ && actions(
                    final(self).outbox@,
                ) == actions(old(self).outbox@).push(
                    WriterAction::Send(out_bytes(*old(self), old(self).ctx.store.spec_next_sender(), now, rj)),
                ),
    {
        let reject = Reject::new(msg_seq_num).session_reject_reason(reason).text(text);
        let sent = self.send_direct(&reject, now);
        assert(sent ==> is_reject_for(reject, msg_seq_num, reason));
        sent
    }

    /// The peer's sequence number is lower than we expect: ignored for a
    /// possible duplicate, otherwise we log out and stop without reconnecting.
    pub fn handle_sequence_number_too_low(
        &mut self,
        expected: u64,
        actual: u64,
        possible_duplicate: bool,
        now: Moment,
    ) -> (r: TransitionResult)
        requires
            old(self).wf(),
        ensures
            final(self).ctx.config == old(self).ctx.config,
            final(self).keeps_setup(old(self)),
            final(self).state == old(self).state,
            final(self).wf(),
            final(self).ctx.store.spec_next_target() == old(self).ctx.store.spec_next_target(),
            possible_duplicate ==> r is Stay && final(self).outbox@ == old(self).outbox@
                && final(self).ctx.store == old(self).ctx.store,
            !possible_duplicate ==> {
                &&& r matches TransitionResult::TransitionTo(SessionState::Disconnected(d)) && !d.reconnect
                    && d.reason@ == "sequence number too low (actual "@ + crate::decimal::dec_chars(actual as nat)
                    + ", expected "@ + crate::decimal::dec_chars(expected as nat) + ")"@
                &&& actions(final(self).outbox@).last() == WriterAction::Disconnect
                &&& actions(old(self).outbox@).is_prefix_of(actions(final(self).outbox@))
                &&& logout_answered(*old(self), *final(self), too_low_text(expected, actual), now)
            },
    {
        if possible_duplicate {
            return TransitionResult::Stay;
        }
        let mut reason = crate::decimal::text_with_number("sequence number too low (actual ", actual);
        reason.append(", expected ");
        crate::decimal::append_decimal(&mut reason, expected);
        reason.append(")");
        assert(reason@ =~= too_low_text(expected, actual));
        self.logout_and_terminate(reason.as_str(), now);
        TransitionResult::TransitionTo(SessionState::new_disconnected(false, reason.as_str()))
    }

    /// The peer speaks another FIX version: we log out and disconnect.
    pub fn handle_incorrect_begin_string(&mut self, received_begin_string: &str, now: Moment) -> (r: TransitionResult)
        requires
            old(self).wf(),
        ensures
            final(self).ctx.config == old(self).ctx.config,
            final(self).keeps_setup(old(self)),
            final(self).state == old(self).state,
            final(self).wf(),
            final(self).ctx.store.spec_next_target() == old(self).ctx.store.spec_next_target(),
            r matches TransitionResult::TransitionTo(SessionState::Disconnected(d)) && d.reconnect
                && d.reason@ == "incorrect begin string"@,
            actions(final(self).outbox@).last() == WriterAction::Disconnect,
            actions(old(self).outbox@).is_prefix_of(actions(final(self).outbox@)),
            logout_answered(*old(self), *final(self), begin_string_text(received_begin_string@), now),
    {
        let reason = String::from_str("beginString=").concat(received_begin_string).concat(
            " is not supported",
        );
        assert(reason@ =~= begin_string_text(received_begin_string@));
        self.logout_and_terminate(reason.as_str(), now);
        proof {
            assert(actions(self.outbox@).subrange(0, actions(old(self).outbox@).len() as int)
                =~= actions(old(self).outbox@));
        }
        TransitionResult::TransitionTo(SessionState::new_disconnected(true, "incorrect begin string"))
    }

    /// The peer used the wrong comp ID: we reject the message, log out and disconnect.
    pub fn handle_incorrect_comp_id(
        &mut self,
        received_comp_id: &str,
        comp_id_type: CompIdType,
        msg_seq_num: u64,
        now: Moment,
    ) -> (r: TransitionResult)
        requires
            old(self).wf(),
        ensures
            final(self).ctx.config == old(self).ctx.config,
            final(self).keeps_setup(old(self)),
            final(self).state == old(self).state,
            final(self).wf(),
            final(self).ctx.store.spec_next_target() == old(self).ctx.store.spec_next_target(),
            r matches TransitionResult::TransitionTo(SessionState::Disconnected(d)) && d.reconnect
                && d.reason@ == "incorrect comp ID"@,
            actions(final(self).outbox@).last() == WriterAction::Disconnect,
            actions(old(self).outbox@).is_prefix_of(actions(final(self).outbox@)),
            exists|mid: Session<A, S>|
                #[trigger] reject_answered(
                    *old(self),
                    mid,
                    msg_seq_num,
                    SessionRejectReason::ValueIsIncorrect,
                    comp_id_text(received_comp_id@),
                    now,
                ) && logout_answered(mid, *final(self), "incorrect comp ID received"@, now),
    {
        let text = String::from_str("invalid comp ID ").concat(received_comp_id);
        assert(text@ =~= comp_id_text(received_comp_id@));
        self.send_reject(msg_seq_num, SessionRejectReason::ValueIsIncorrect, text.as_str(), now);
        let ghost mid_s = *self;
        let ghost mid = self.outbox@;
        self.logout_and_terminate("incorrect comp ID received", now);
        proof {
            assert(actions(mid).subrange(0, actions(old(self).outbox@).len() as int)
                =~= actions(old(self).outbox@));
            assert(actions(self.outbox@).subrange(0, actions(mid).len() as int)
                =~= actions(mid));
            assert(actions(self.outbox@).subrange(0, actions(old(self).outbox@).len() as int)
                =~= actions(old(self).outbox@));
        }
        TransitionResult::TransitionTo(SessionState::new_disconnected(true, "incorrect comp ID"))
    }

    /// Answers a message error: a Reject for time problems (the message then
    /// counts as received), a Logout and a disconnection for a wrong version or
    /// comp ID or a sequence number that is too low (unless a possible duplicate).
    pub fn handle_verification_error(&mut self, error: MessageError, now: Moment) -> (r: TransitionResult)
        requires
            old(self).wf(),
        ensures
            final(self).ctx.config == old(self).ctx.config,
            final(self).keeps_setup(old(self)),
            final(self).state == old(self).state,
            final(self).wf(),
            match error_transition(error@) {
                None => r is Stay,
                Some(reconnect) => r matches TransitionResult::TransitionTo(SessionState::Disconnected(d))
                    && d.reconnect == reconnect,
            },
            error_answered(*old(self), *final(self), error@, now),
    {
        match &error {
            MessageError::SeqNumberTooLow { expected, actual, possible_duplicate } => {
                let r = self.handle_sequence_number_too_low(*expected, *actual, *possible_duplicate, now);
                if *possible_duplicate {
                    assert(self.outbox@ =~= old(self).outbox@);
                }
                assert(error_answered(*old(self), *self, error@, now));
                r
            },
            MessageError::IncorrectBeginString(begin_string) => {
                let r = self.handle_incorrect_begin_string(begin_string.as_str(), now);
                assert(error_answered(*old(self), *self, error@, now));
                r
            },
            MessageError::IncorrectCompId { comp_id, comp_id_type, msg_seq_num } => {
                assert(error_reject_seq(error@) == *msg_seq_num);
                assert(error_reject_reason(error@) == SessionRejectReason::ValueIsIncorrect);
                assert(error_text(error@) == comp_id_text(comp_id@));
                assert(error_logout_text(error@) == "incorrect comp ID received"@);
                let r = self.handle_incorrect_comp_id(comp_id.as_str(), *comp_id_type, *msg_seq_num, now);
                assert(error_answered(*old(self), *self, error@, now));
                r
            },
            MessageError::SendingTimeAccuracyIssue { msg_seq_num } => {
                assert(error_reject_seq(error@) == *msg_seq_num);
                assert(error_reject_reason(error@) == SessionRejectReason::SendingtimeAccuracyProblem);
                assert(error_text(error@) == "unexpected sending time"@);
                self.handle_sending_time_accuracy_problem(*msg_seq_num, "unexpected sending time", now);
                assert(error_answered(*old(self), *self, error@, now));
                TransitionResult::Stay
            },
            MessageError::SendingTimeMissing { msg_seq_num } => {
                assert(error_reject_seq(error@) == *msg_seq_num);
                assert(error_reject_reason(error@) == SessionRejectReason::SendingtimeAccuracyProblem);
                assert(error_text(error@) == "sending time missing"@);
                self.handle_sending_time_accuracy_problem(*msg_seq_num, "sending time missing", now);
                assert(error_answered(*old(self), *self, error@, now));
                TransitionResult::Stay
            },
            MessageError::OriginalSendingTimeMissing { msg_seq_num } => {
                assert(error_reject_seq(error@) == *msg_seq_num);
                assert(error_reject_reason(error@) == SessionRejectReason::RequiredTagMissing);
                assert(error_text(error@) == "original sending time is required"@);
                self.handle_original_sending_time_missing(*msg_seq_num, now);
                assert(error_answered(*old(self), *self, error@, now));
                TransitionResult::Stay
            },
            MessageError::OriginalSendingTimeAfterSendingTime { msg_seq_num, .. } => {
                assert(error_reject_seq(error@) == *msg_seq_num);
                assert(error_reject_reason(error@) == SessionRejectReason::SendingtimeAccuracyProblem);
                assert(error_text(error@) == "original sending time is after sending time"@);
                self.handle_sending_time_accuracy_problem(
                    *msg_seq_num,
                    "original sending time is after sending time",
                    now,
                );
                assert(error_answered(*old(self), *self, error@, now));
                TransitionResult::Stay
            },
        }
    }

    /// What verifying `message` at `now` finds, with the sequence number we
    /// expect next where the message's type is checked for it.
    pub open spec fn verification_of(&self, m: MessageView, now: Moment) -> Option<VerificationIssueView> {
        let (hi, lo) = spec_flags(m);
        spec_verify_message(
            m,
            self.ctx.config.begin_string@,
            self.ctx.config.sender_comp_id@,
            self.ctx.config.target_comp_id@,
            if hi || lo {
                Some(self.ctx.store.spec_next_target())
            } else {
                None
            },
            hi,
            lo,
            now.utc_millis,
        )
    }

    /// Asks the peer to resend `begin..=end`, straight through the writer.
    fn request_resend(&mut self, begin: u64, end: u64, now: Moment) -> (r: Result<(), SessionOperationError>)
        requires
            old(self).wf(),
        ensures
            final(self).ctx.config == old(self).ctx.config,
            final(self).keeps_setup(old(self)),
            final(self).state == old(self).state,
            final(self).wf(),
            final(self).ctx.store.spec_next_target() == old(self).ctx.store.spec_next_target(),
            r is Ok ==> actions(final(self).outbox@) == actions(old(self).outbox@).push(
                WriterAction::Send(
                    out_bytes(
                        *old(self),
                        old(self).ctx.store.spec_next_sender(),
                        now,
                        ResendRequest { begin_seq_no: begin, end_seq_no: end },
                    ),
                ),
            ),
            r is Err ==> final(self).outbox@ == old(self).outbox@,
            old(self).ctx.store.spec_never_fails() && !send_blocked(old(self).ctx.store, now.utc_millis) ==> r is Ok,
    {
        let request = ResendRequest::new(begin, end);
        if self.send_direct(&request, now) {
            Ok(())
        } else {
            Err(
                SessionOperationError::Send {
                    context: String::from_str("resend request"),
                    source: InternalSendError::Persist(
                        StoreError::PersistMessage {
                            sequence_number: 0,
                            reason: String::from_str("the message was not sent"),
                        },
                    ),
                },
            )
        }
    }

    /// Answers a message the data dictionary refused with a Reject of `reason`
    /// and Text `text`, sent as any message is; `context` names it in an error.
    fn reject_invalid(
        &mut self,
        message: &Message,
        reason: SessionRejectReason,
        text: String,
        context: &str,
        now: Moment,
    ) -> (r: Result<(), SessionOperationError>)
        requires
            old(self).wf(),
        ensures
            final(self).wf(),
            final(self).ctx.config == old(self).ctx.config,
            final(self).keeps_setup(old(self)),
            invalid_rejected(*old(self), *final(self), message@, reason, text@, now, r),
    {
        let n = match message.header_u64(MSG_SEQ_NUM) {
            Some(n) => n,
            None => return Ok(()),
        };
        let reject = Reject::new(n).session_reject_reason(reason).text(text.as_str());
        proof {
            lemma_ascii_type_bytes('3');
        }
        match self.send_message(&reject, now) {
            Ok(_) => {
                assert(is_reject_for(reject, n, reason));
                Ok(())
            },
            Err(e) => Err(SessionOperationError::Send { context: String::from_str(context), source: e }),
        }
    }

    /// Answers what the data dictionary finds wrong with a message that
    /// otherwise reads: an unknown field or group, or a group field out of
    /// order, gets a Reject; an unknown message type gets a Reject and counts
    /// as received when it carries the number expected next; an invalid
    /// component is let pass.
    pub fn handle_invalid_message(&mut self, message: &Message, reason: &InvalidReason, now: Moment) -> (r: Result<
        (),
        SessionOperationError,
    >)
        requires
            old(self).wf(),
        ensures
            final(self).wf(),
            final(self).ctx.config == old(self).ctx.config,
            final(self).keeps_setup(old(self)),
            match reason {
                InvalidReason::InvalidField(tag) => invalid_rejected(
                    *old(self),
                    *final(self),
                    message@,
                    SessionRejectReason::InvalidTagNumber,
                    "invalid field "@ + crate::decimal::dec_chars(*tag as nat),
                    now,
                    r,
                ),
                InvalidReason::InvalidGroup(tag) => invalid_rejected(
                    *old(self),
                    *final(self),
                    message@,
                    SessionRejectReason::InvalidTagNumber,
                    "invalid field "@ + crate::decimal::dec_chars(*tag as nat),
                    now,
                    r,
                ),
                InvalidReason::InvalidOrderInGroup { tag } => invalid_rejected(
                    *old(self),
                    *final(self),
                    message@,
                    SessionRejectReason::RepeatingGroupFieldsOutOfOrder,
                    "field appears in incorrect order:"@ + crate::decimal::dec_chars(*tag as nat),
                    now,
                    r,
                ),
                InvalidReason::InvalidComponent(_) => r is Ok && *final(self) == *old(self),
                InvalidReason::InvalidMsgType(t) => r is Ok && invalid_type_answered(
                    *old(self),
                    *final(self),
                    message@,
                    t@,
                    now,
                ),
            },
    {
        match reason {
            InvalidReason::InvalidField(tag) => {
                let text = crate::decimal::text_with_number("invalid field ", *tag as u64);
                assert(text@ == "invalid field "@ + crate::decimal::dec_chars(*tag as nat));
                self.reject_invalid(message, SessionRejectReason::InvalidTagNumber, text, "reject for invalid field", now)
            },
            InvalidReason::InvalidGroup(tag) => {
                let text = crate::decimal::text_with_number("invalid field ", *tag as u64);
                assert(text@ == "invalid field "@ + crate::decimal::dec_chars(*tag as nat));
                self.reject_invalid(message, SessionRejectReason::InvalidTagNumber, text, "reject for invalid field", now)
            },
            InvalidReason::InvalidOrderInGroup { tag } => {
                let text = crate::decimal::text_with_number("field appears in incorrect order:", *tag as u64);
                assert(text@ == "field appears in incorrect order:"@ + crate::decimal::dec_chars(*tag as nat));
                self.reject_invalid(
                    message,
                    SessionRejectReason::RepeatingGroupFieldsOutOfOrder,
                    text,
                    "reject for invalid group order",
                    now,
                )
            },
            InvalidReason::InvalidComponent(_) => Ok(()),
            InvalidReason::InvalidMsgType(msg_type) => {
                if !self.state.is_connected() {
                    return Ok(());
                }
                let n = match message.header_u64(MSG_SEQ_NUM) {
                    Some(n) => n,
                    None => return Ok(()),
                };
                let text = String::from_str("invalid message type ").concat(msg_type.as_str());
                self.send_reject(n, SessionRejectReason::InvalidMsgtype, text.as_str(), now);
                let ghost mid = *self;
                if self.ctx.store.next_target_seq_number() == n {
                    self.count_received();
                }
                assert(reject_answered(
                    *old(self),
                    mid,
                    n,
                    SessionRejectReason::InvalidMsgtype,
                    "invalid message type "@ + msg_type@,
                    now,
                ));
                Ok(())
            },
        }
    }

    /// Verifies `message` and answers what the verification finds: message
    /// errors as `handle_verification_error` does; a sequence gap, in which the
    /// peer is ahead, by the state — asking for a resend and awaiting it while
    /// logging on or active, asking again (or giving up, without reconnecting,
    /// past the attempts or below the previous gap) while awaiting a resend, and
    /// ignoring it while logging out or disconnected.
    pub fn handle_verification_issue(&mut self, message: &Message, now: Moment) -> (r: Result<
        VerificationResult,
        SessionOperationError,
    >)
        requires
            old(self).wf(),
        ensures
            final(self).wf(),
            final(self).ctx.config == old(self).ctx.config,
            final(self).keeps_setup(old(self)),
            r matches Ok(VerificationResult::Issue(TransitionResult::TransitionTo(ns))) ==> ns.wf(),
            match old(self).verification_of(message@, now) {
                None => r matches Ok(VerificationResult::Passed) && *final(self) == *old(self),
                Some(VerificationIssueView::InvalidMessage(e)) => {
                    &&& final(self).state == old(self).state
                    &&& error_answered(*old(self), *final(self), e, now)
                    &&& r matches Ok(VerificationResult::Issue(t)) && match error_transition(e) {
                        None => t is Stay,
                        Some(reconnect) => t matches TransitionResult::TransitionTo(SessionState::Disconnected(d))
                            && d.reconnect == reconnect,
                    }
                },
                Some(VerificationIssueView::SequenceGap { expected, actual }) => match old(self).state {
                    SessionState::AwaitingLogon(_) | SessionState::Active(_) => {
                        &&& final(self).state == old(self).state
                        &&& old(self).ctx.store.spec_never_fails() && !send_blocked(old(self).ctx.store, now.utc_millis)
                            ==> r is Ok
                        &&& r is Ok ==> (r matches Ok(
                            VerificationResult::Issue(TransitionResult::TransitionTo(SessionState::AwaitingResend(st))),
                        ) && st.begin_seq_number == expected && st.end_seq_number == actual
                            && st.resend_attempts == 1 && st.inbound_queue@.len() == 0)
                        &&& r is Ok ==> actions(final(self).outbox@) == actions(old(self).outbox@).push(
                            WriterAction::Send(
                                out_bytes(
                                    *old(self),
                                    old(self).ctx.store.spec_next_sender(),
                                    now,
                                    ResendRequest { begin_seq_no: expected, end_seq_no: actual },
                                ),
                            ),
                        )
                    },
                    SessionState::AwaitingResend(st) => if expected == st.begin_seq_number
                        && st.resend_attempts + 1 > crate::session::state::MAX_RESEND_ATTEMPTS {
                        &&& r matches Ok(VerificationResult::Issue(TransitionResult::TransitionTo(SessionState::Disconnected(d))))
                            && !d.reconnect
                        &&& actions(final(self).outbox@) == actions(old(self).outbox@).push(WriterAction::Disconnect)
                        &&& final(self).state == old(self).state
                    } else if expected < st.begin_seq_number {
                        &&& r matches Ok(VerificationResult::Issue(TransitionResult::TransitionTo(SessionState::Disconnected(d))))
                            && !d.reconnect
                        &&& actions(final(self).outbox@) == actions(old(self).outbox@).push(WriterAction::Disconnect)
                        &&& final(self).state == old(self).state
                    } else {
                        &&& final(self).state matches SessionState::AwaitingResend(t) && t.begin_seq_number == expected
                            && t.end_seq_number == actual && t.inbound_queue == st.inbound_queue
                            && t.resend_attempts == if expected == st.begin_seq_number {
                            st.resend_attempts + 1
                        } else {
                            1
                        }
                        &&& old(self).ctx.store.spec_never_fails() && !send_blocked(old(self).ctx.store, now.utc_millis)
                            ==> r is Ok
                        &&& r is Ok ==> (r matches Ok(VerificationResult::Issue(t)) && t is Stay)
                        &&& r is Ok ==> actions(final(self).outbox@) == actions(old(self).outbox@).push(
                            WriterAction::Send(
                                out_bytes(
                                    *old(self),
                                    old(self).ctx.store.spec_next_sender(),
                                    now,
                                    ResendRequest { begin_seq_no: expected, end_seq_no: actual },
                                ),
                            ),
                        )
                    },
                    _ => r matches Ok(VerificationResult::Issue(t)) && t is Stay && *final(self) == *old(self),
                },
            },
    {
        let (hi, lo) = verification_flags(message);
        let expected_seq_number = if hi || lo {
            Some(self.ctx.store.next_target_seq_number())
        } else {
            None
        };
        let result = verify_message_at(
            message,
            &self.ctx.config,
            expected_seq_number,
            hi,
            lo,
            now.utc_millis,
        );
        match result {
            Ok(()) => Ok(VerificationResult::Passed),
            Err(VerificationIssue::InvalidMessage(e)) => {
                let t = self.handle_verification_error(e, now);
                Ok(VerificationResult::Issue(t))
            },
            Err(VerificationIssue::SequenceGap { expected, actual }) => {
                match &self.state {
                    SessionState::AwaitingLogon(_) | SessionState::Active(_) => {
                        match self.request_resend(expected, actual, now) {
                            Ok(()) => {},
                            Err(e) => return Err(e),
                        }
                        let st = crate::session::state::AwaitingResendState::new(expected, actual);
                        Ok(
                            VerificationResult::Issue(
                                TransitionResult::TransitionTo(SessionState::AwaitingResend(st)),
                            ),
                        )
                    },
                    SessionState::AwaitingResend(_) => {
                        let outcome = self.state.try_transition_to_awaiting_resend(expected, actual);
                        match outcome {
                            crate::session::state::AwaitingResendTransitionOutcome::Success => {
                                match self.request_resend(expected, actual, now) {
                                    Ok(()) => {},
                                    Err(e) => return Err(e),
                                }
                                Ok(VerificationResult::Issue(TransitionResult::Stay))
                            },
                            crate::session::state::AwaitingResendTransitionOutcome::BeginSeqNumberTooLow => {
                                self.disconnect_writer();
                                Ok(
                                    VerificationResult::Issue(
                                        TransitionResult::TransitionTo(
                                            SessionState::new_disconnected(
                                                false,
                                                "awaiting resend begin seq number unexpectedly lower than the previous resend request's",
                                            ),
                                        ),
                                    ),
                                )
                            },
                            crate::session::state::AwaitingResendTransitionOutcome::AttemptsExceeded => {
                                self.disconnect_writer();
                                Ok(
                                    VerificationResult::Issue(
                                        TransitionResult::TransitionTo(
                                            SessionState::new_disconnected(
                                                false,
                                                "resend request attempts exceeded, manual intervention required",
                                            ),
                                        ),
                                    ),
                                )
                            },
                        }
                    },
                    _ => Ok(VerificationResult::Issue(TransitionResult::Stay)),
                }
            },
        }
    }

    /// The peer's Heartbeat: the answer to our TestRequest stops the wait for
    /// it; the message counts as received.
    pub fn on_heartbeat(&mut self, message: &Message, now: Moment) -> (r: Result<(), SessionOperationError>)
        requires
            old(self).wf(),
        ensures
            final(self).wf(),
            final(self).ctx.config == old(self).ctx.config,
            final(self).keeps_setup(old(self)),
            heartbeat_handled(*old(self), *final(self), message@, now, r),
    {
        let answers = match (self.state.expected_test_response_id(), message.get(TEST_REQ_ID)) {
            (Some(id), Some(v)) => {
                let expected = crate::decimal::str_bytes(id.as_str());
                crate::decimal::bytes_eq(expected.as_slice(), v.as_slice())
            },
            _ => false,
        };
        if answers {
            self.reset_peer_timer(None, now);
        }
        self.increment_target()
    }

    /// The peer's Reject: it only counts as received.
    pub fn on_reject(&mut self) -> (r: Result<(), SessionOperationError>)
        requires
            old(self).wf(),
        ensures
            final(self).wf(),
            final(self).ctx.config == old(self).ctx.config,
            final(self).keeps_setup(old(self)),
            reject_handled(*old(self), *final(self), r),
    {
        self.increment_target()
    }

    /// The peer's TestRequest: counted as received and answered with a
    /// Heartbeat carrying its TestReqID. One without a TestReqID is an error.
    pub fn on_test_request(&mut self, message: &Message, now: Moment) -> (r: Result<(), SessionOperationError>)
        requires
            old(self).wf(),
        ensures
            final(self).wf(),
            final(self).ctx.config == old(self).ctx.config,
            final(self).keeps_setup(old(self)),
            test_request_handled(*old(self), *final(self), message@, now, r),
    {
        if !self.state.is_connected() {
            return Ok(());
        }
        let req_id = match message.get_text(TEST_REQ_ID) {
            Some(t) => t,
            None => return Err(SessionOperationError::MissingField(String::from_str("TestReqID"))),
        };
        proof {
            vstd::utf8::encode_utf8_decode_utf8(vstd::utf8::decode_utf8(lookup(message@.body, TEST_REQ_ID)->0));
            vstd::utf8::decode_utf8_encode_utf8(lookup(message@.body, TEST_REQ_ID)->0);
        }
        match self.increment_target() {
            Ok(()) => {},
            Err(e) => return Err(e),
        }
        let ghost after_count = *self;
        let heartbeat = Heartbeat::for_request(req_id);
        if !self.send_direct(&heartbeat, now) {
            return Err(
                SessionOperationError::Send {
                    context: String::from_str("heartbeat response"),
                    source: InternalSendError::Persist(
                        StoreError::PersistMessage {
                            sequence_number: 0,
                            reason: String::from_str("the message was not sent"),
                        },
                    ),
                },
            );
        }
        assert(out_bytes(after_count, old(self).ctx.store.spec_next_sender(), now, heartbeat)
            == out_bytes(*old(self), old(self).ctx.store.spec_next_sender(), now, heartbeat));
        self.reset_heartbeat_timer(now);
        Ok(())
    }

    /// The peer's SequenceReset: moves the sequence number we expect next up to
    /// its NewSeqNo. One without NewSeqNo, or one that would move it backwards
    /// (or leave it), is rejected and changes nothing.
    pub fn on_sequence_reset(&mut self, message: &Message, now: Moment) -> (r: Result<(), SessionOperationError>)
        requires
            old(self).wf(),
        ensures
            final(self).wf(),
            final(self).ctx.config == old(self).ctx.config,
            final(self).keeps_setup(old(self)),
            sequence_reset_handled(*old(self), *final(self), message@, now, r),
    {
        if !self.state.is_connected() {
            return Ok(());
        }
        let msg_seq_num = match message.header_u64(MSG_SEQ_NUM) {
            Some(n) => n,
            None => 0,
        };
        assert(msg_seq_num == seq_num_or_zero(message@));
        let end = match message.get_u64(NEW_SEQ_NO) {
            Some(n) => n,
            None => {
                let sent = self.send_reject(
                    msg_seq_num,
                    SessionRejectReason::RequiredTagMissing,
                    "missing NewSeqNo tag in sequence reset message",
                    now,
                );
                if !sent {
                    return Err(
                        SessionOperationError::Send {
                            context: String::from_str("reject for missing NEW_SEQ_NO"),
                            source: InternalSendError::Persist(
                        StoreError::PersistMessage {
                            sequence_number: 0,
                            reason: String::from_str("the message was not sent"),
                        },
                    ),
                        },
                    );
                }
                self.reset_heartbeat_timer(now);
                return Ok(());
            },
        };
        if end <= self.ctx.store.next_target_seq_number() {
            let text = crate::decimal::text_with_number(
                "attempt to lower sequence number, invalid value NewSeqNo(36)=",
                end,
            );
            let sent = self.send_reject(
                msg_seq_num,
                SessionRejectReason::ValueIsIncorrect,
                text.as_str(),
                now,
            );
            if !sent {
                return Err(
                    SessionOperationError::Send {
                        context: String::from_str("reject for invalid sequence reset"),
                        source: InternalSendError::Persist(
                        StoreError::PersistMessage {
                            sequence_number: 0,
                            reason: String::from_str("the message was not sent"),
                        },
                    ),
                    },
                );
            }
            self.reset_heartbeat_timer(now);
            return Ok(());
        }
        match self.ctx.store.set_target_seq_number(end - 1) {
            Ok(()) => {},
            Err(e) => return Err(SessionOperationError::Store(e)),
        }
        self.reset_heartbeat_timer(now);
        Ok(())
    }

    /// Sends a gap fill from `begin` moving the peer on to `end`. It is not
    /// stored and takes no sequence number of ours: it stands in for stored ones.
    pub fn send_sequence_reset(&mut self, begin: u64, end: u64, now: Moment) -> (r: Result<(), SessionOperationError>)
        ensures
            final(self).ctx == old(self).ctx,
            final(self).keeps_setup(old(self)),
            final(self).state == old(self).state,
            r is Ok <==> fix_timestamp_text(now.utc_millis) is Some,
            r is Ok ==> actions(final(self).outbox@) == actions(old(self).outbox@).push(
                WriterAction::Send(gap_fill_bytes(old(self).ctx.config, begin, end, now.utc_millis)),
            ),
            r is Err ==> final(self).outbox@ == old(self).outbox@,
            r is Err ==> r matches Err(SessionOperationError::Send { .. }),
    {
        let sending_time = match crate::timestamp::format_timestamp_millis(now.utc_millis) {
            Some(t) => t,
            None => return Err(
                SessionOperationError::Send {
                    context: String::from_str("sequence reset"),
                    source: InternalSendError::Persist(
                        StoreError::PersistMessage {
                            sequence_number: begin,
                            reason: String::from_str("the message was not sent"),
                        },
                    ),
                },
            ),
        };
        let sequence_reset = SequenceReset { gap_fill: true, new_seq_no: end };
        let raw = generate_message_at(
            self.ctx.config.begin_string.as_str(),
            self.ctx.config.sender_comp_id.as_str(),
            self.ctx.config.target_comp_id.as_str(),
            begin,
            sending_time,
            &sequence_reset,
        );
        proof {
            lemma_actions_push(self.outbox@, WriterMessage::SendMessage(raw));
        }
        self.outbox.push(WriterMessage::SendMessage(raw));
        Ok(())
    }

    /// Resends the stored messages `begin..=end`: application messages go out
    /// again as possible duplicates, and each run of admin messages is replaced
    /// by a gap fill. The store and the state are left as they are.
    #[verifier::rlimit(30)]
    pub fn resend_messages(&mut self, begin: u64, end: u64, now: Moment) -> (r: Result<(), SessionOperationError>)
        requires
            old(self).ctx.store.spec_obeys(),
        ensures
            final(self).ctx == old(self).ctx,
            final(self).keeps_setup(old(self)),
            final(self).state == old(self).state,
            r is Ok ==> exists|ms: Seq<MessageView>|
                #[trigger] decodes_to(old(self).ctx.store.spec_slice(begin, end), ms) && actions(
                    final(self).outbox@,
                ) == actions(old(self).outbox@) + resend_actions(ms, old(self).ctx.config, now.utc_millis),
            match r {
                Ok(()) => true,
                Err(SessionOperationError::Store(_)) => !old(self).ctx.store.spec_never_fails(),
                Err(SessionOperationError::StoredMessageParse(_)) => exists|j: int|
                    0 <= j < old(self).ctx.store.spec_slice(begin, end).len() && decode_fails(
                        #[trigger] old(self).ctx.store.spec_slice(begin, end)[j],
                    ),
                Err(SessionOperationError::Send { .. }) => fix_timestamp_text(now.utc_millis) is None,
                Err(_) => false,
            },
            old(self).ctx.store.spec_never_fails() && fix_timestamp_text(now.utc_millis) is Some && (forall|j: int|
                0 <= j < old(self).ctx.store.spec_slice(begin, end).len() ==> !decode_fails(
                    #[trigger] old(self).ctx.store.spec_slice(begin, end)[j],
                )) ==> r is Ok,
    {
        let messages = match self.ctx.store.get_slice(begin, end) {
            Ok(v) => v,
            Err(e) => return Err(SessionOperationError::Store(e)),
        };
        let ghost raws = messages.deep_view();
        let now_text = crate::timestamp::format_timestamp_millis(now.utc_millis);
        let mut reset_start: Option<u64> = None;
        let mut sequence_number: u64 = 0;
        let ghost mut ms: Seq<MessageView> = seq![];
        let ghost start = actions(self.outbox@);
        let ghost config = self.ctx.config;
        let mut i: usize = 0;
        while i < messages.len()
            invariant
                0 <= i <= messages.len(),
                raws == messages.deep_view(),
                raws == old(self).ctx.store.spec_slice(begin, end),
                ms.len() == i,
                forall|j: int|
                    #![trigger ms[j]]
                    0 <= j < i ==> crate::message::parser::readable(ms[j]) && spec_encode(ms[j])
                        == raws[j],
                actions(self.outbox@) == start + resend_walk(ms, config, now.utc_millis).0,
                reset_start == resend_walk(ms, config, now.utc_millis).1,
                sequence_number == resend_walk(ms, config, now.utc_millis).2,
                start == actions(old(self).outbox@),
                config == old(self).ctx.config,
                self.ctx == old(self).ctx,
                self.keeps_setup(old(self)),
                self.state == old(self).state,
                match now_text {
                    Some(t) => fix_timestamp_text(now.utc_millis) == Some(t@),
                    None => fix_timestamp_text(now.utc_millis) is None,
                },
            decreases messages.len() - i,
        {
            let raw = &messages[i];
            assert(raw@ =~= raws[i as int]);
            let mut message = match decode(raw.as_slice()) {
                Some(m) => m,
                None => {
                    assert(decode_fails(raws[i as int]));
                    return Err(
                        SessionOperationError::StoredMessageParse(
                            String::from_str("failed to build message for a stored raw message"),
                        ),
                    );
                },
            };
            let ghost m = message@;
            let ghost prev = resend_walk(ms, config, now.utc_millis);
            let ghost next_ms = ms.push(m);
            assert(next_ms.drop_last() =~= ms);
            let n = match message.header_u64(MSG_SEQ_NUM) {
                Some(v) => v,
                None => 0,
            };
            sequence_number = n;
            if is_admin_bytes(message.msg_type.as_slice()) {
                if reset_start.is_none() {
                    reset_start = Some(n);
                }
            } else {
                match reset_start {
                    Some(b) => {
                        match self.send_sequence_reset(b, n, now) {
                            Ok(()) => {},
                            Err(e) => return Err(e),
                        }
                    },
                    None => {},
                }
                reset_start = None;
                match &now_text {
                    Some(t) => {
                        let _ = prepare_message_for_resend_at(&mut message, crate::decimal::copy_bytes(t.as_slice()));
                    },
                    None => {},
                }
                assert(message@ == resent_view(m, now.utc_millis));
                let bytes = message.encode();
                proof {
                    lemma_actions_push(self.outbox@, WriterMessage::SendMessage(bytes));
                }
                self.outbox.push(WriterMessage::SendMessage(bytes));
            }
            proof {
                let old_ms = ms;
                ms = next_ms;
                assert forall|j: int| #![trigger ms[j]] 0 <= j <= i implies crate::message::parser::readable(ms[j])
                    && spec_encode(ms[j]) == raws[j] by {
                    if j < i {
                        assert(ms[j] == old_ms[j]);
                    } else {
                        assert(ms[j] == m);
                    }
                }
            }
            i = i + 1;
        }
        match reset_start {
            Some(b) => {
                match self.send_sequence_reset(b, sequence_number, now) {
                    Ok(()) => {},
                    Err(e) => return Err(e),
                }
            },
            None => {},
        }
        assert(decodes_to(raws, ms));
        assert(actions(self.outbox@) =~= actions(old(self).outbox@) + resend_actions(ms, config, now.utc_millis));
        Ok(())
    }

    /// The peer's ResendRequest: its range (the end bounded by what we have
    /// sent, 0 meaning everything) is resent, and it counts as received when it
    /// has the sequence number we expect. While we await a resend ourselves, one
    /// from beyond the number we expect is also queued for the sequence
    /// accounting after the gap. One without BeginSeqNo or EndSeqNo is rejected.
    #[verifier::rlimit(50)]
    pub fn on_resend_request(&mut self, message: &Message, now: Moment) -> (r: Result<(), SessionOperationError>)
        requires
            old(self).wf(),
        ensures
            final(self).wf(),
            final(self).ctx.config == old(self).ctx.config,
            final(self).keeps_setup(old(self)),
            resend_request_handled(*old(self), *final(self), message@, now, r),
    {
        if !self.state.is_connected() {
            return Ok(());
        }
        let msg_seq_num = match message.header_u64(MSG_SEQ_NUM) {
            Some(n) => n,
            None => 0,
        };
        assert(msg_seq_num == seq_num_or_zero(message@));
        let expected = self.ctx.store.next_target_seq_number();
        if msg_seq_num > expected {
            if let SessionState::AwaitingResend(st) = &mut self.state {
                let copy = message.copy();
                let ghost q = st.inbound_queue@;
                st.inbound_queue.push(copy);
                assert(queue_view(st.inbound_queue@) =~= queue_view(q).push(message@));
            }
        }
        let ghost queued = *self;
        let begin = match message.get_u64(BEGIN_SEQ_NO) {
            Some(b) => b,
            None => {
                let sent = self.send_reject(
                    msg_seq_num,
                    SessionRejectReason::RequiredTagMissing,
                    "missing begin sequence number for resend request",
                    now,
                );
                if !sent {
                    return Err(
                        SessionOperationError::Send {
                            context: String::from_str("reject for missing BEGIN_SEQ_NO"),
                            source: InternalSendError::Persist(
                        StoreError::PersistMessage {
                            sequence_number: 0,
                            reason: String::from_str("the message was not sent"),
                        },
                    ),
                        },
                    );
                }
                self.reset_heartbeat_timer(now);
                return Ok(());
            },
        };
        let requested_end = match message.get_u64(END_SEQ_NO) {
            Some(e) => e,
            None => {
                let sent = self.send_reject(
                    msg_seq_num,
                    SessionRejectReason::RequiredTagMissing,
                    "missing end sequence number for resend request",
                    now,
                );
                if !sent {
                    return Err(
                        SessionOperationError::Send {
                            context: String::from_str("reject for missing END_SEQ_NO"),
                            source: InternalSendError::Persist(
                        StoreError::PersistMessage {
                            sequence_number: 0,
                            reason: String::from_str("the message was not sent"),
                        },
                    ),
                        },
                    );
                }
                self.reset_heartbeat_timer(now);
                return Ok(());
            },
        };
        let next_sender = self.ctx.store.next_sender_seq_number();
        let last = if next_sender == 0 {
            0
        } else {
            next_sender - 1
        };
        let end = if requested_end == 0 {
            last
        } else if requested_end < last {
            requested_end
        } else {
            last
        };
        if msg_seq_num == expected {
            match self.increment_target() {
                Ok(()) => {},
                Err(e) => return Err(e),
            }
        }
        let ghost mid = *self;
        assert(mid.ctx.store.spec_slice(begin, end) == old(self).ctx.store.spec_slice(begin, end));
        assert(end == resend_end(requested_end, old(self).ctx.store.spec_next_sender()));
        match self.resend_messages(begin, end, now) {
            Ok(()) => {},
            Err(e) => return Err(e),
        }
        proof {
            let ms = choose|ms: Seq<MessageView>|
                #[trigger] decodes_to(mid.ctx.store.spec_slice(begin, end), ms) && actions(self.outbox@)
                    == actions(mid.outbox@) + resend_actions(ms, mid.ctx.config, now.utc_millis);
            assert(mid.ctx.store.spec_slice(begin, end) == old(self).ctx.store.spec_slice(begin, end));
            assert(end == resend_end(requested_end, old(self).ctx.store.spec_next_sender()));
            assert(decodes_to(old(self).ctx.store.spec_slice(begin, end), ms));
        }
        self.reset_heartbeat_timer(now);
        Ok(())
    }

    /// Carries out the application's decision on an inbound application
    /// message: nothing more to do when it accepts, a BusinessMessageReject
    /// when it rejects, a disconnection when it terminates the session. The
    /// message counts as received in every case.
    pub fn apply_inbound_decision(&mut self, message: &Message, decision: InboundDecision, now: Moment) -> (r: Result<
        (),
        SessionOperationError,
    >)
        requires
            old(self).wf(),
        ensures
            final(self).wf(),
            final(self).ctx.config == old(self).ctx.config,
            final(self).keeps_setup(old(self)),
            inbound_decided(*old(self), *final(self), message@, decision, now, r),
    {
        match decision {
            InboundDecision::Accept => {},
            InboundDecision::Reject { reason, text } => {
                let msg_type = match crate::clock::utf8_text(message.msg_type.as_slice()) {
                    Some(t) => t,
                    None => return Err(SessionOperationError::MissingField(String::from_str("MSG_TYPE"))),
                };
                let msg_seq_num = match message.header_u64(MSG_SEQ_NUM) {
                    Some(n) => n,
                    None => 0,
                };
                let mut reject = BusinessReject::new(msg_type.as_str(), reason).ref_seq_num(msg_seq_num);
                match text {
                    Some(t) => {
                        reject = reject.text(t.as_str());
                    },
                    None => {},
                }
                proof {
                    lemma_ascii_type_bytes('j');
                }
                match self.send_message(&reject, now) {
                    Ok(_) => {},
                    Err(e) => return Err(
                        SessionOperationError::Send {
                            context: String::from_str("business message reject"),
                            source: e,
                        },
                    ),
                }
            },
            InboundDecision::TerminateSession => {
                self.disconnect_writer();
            },
        }
        self.increment_target()
    }

    /// Hands an inbound application message to the application and carries
    /// out its decision; the message counts as received whatever it decides.
    pub fn process_app_message(&mut self, message: &Message, now: Moment) -> (r: Result<(), SessionOperationError>)
        requires
            old(self).wf(),
        ensures
            final(self).wf(),
            final(self).ctx.config == old(self).ctx.config,
            final(self).keeps_setup(old(self)),
            exists|d: InboundDecision| #[trigger] inbound_decided(*old(self), *final(self), message@, d, now, r),
    {
        let decision = self.ctx.application.on_inbound_message(message);
        self.apply_inbound_decision(message, decision, now)
    }

    /// Handles one inbound message: queued while it lies beyond a gap we await;
    /// anything but a Logon while awaiting the peer's Logon drops the connection;
    /// otherwise it is verified, and a message that passes goes to the handler
    /// of its type, application messages to the application.
    pub fn process_message(&mut self, message: Message, now: Moment) -> (r: Result<(), SessionOperationError>)
        requires
            old(self).wf(),
        ensures
            final(self).wf(),
            final(self).ctx.config == old(self).ctx.config,
            final(self).keeps_setup(old(self)),
            message_processed(*old(self), *final(self), message@, now, r),
    {
        let msg_seq_num = match message.header_u64(MSG_SEQ_NUM) {
            Some(n) => n,
            None => 0,
        };
        let is_resend_request = has_type(&message, RESEND_REQUEST_TYPE);
        if let SessionState::AwaitingResend(st) = &mut self.state {
            if msg_seq_num > st.end_seq_number && !is_resend_request {
                let ghost q = st.inbound_queue@;
                let ghost v = message@;
                st.inbound_queue.push(message);
                assert(queue_view(st.inbound_queue@) =~= queue_view(q).push(v));
                return Ok(());
            }
        }
        if self.state.is_awaiting_logon() && !has_type(&message, LOGON_TYPE) {
            self.disconnect_writer();
            assert(actions(self.outbox@) =~= actions(old(self).outbox@).push(WriterAction::Disconnect));
            return Ok(());
        }
        match self.handle_verification_issue(&message, now) {
            Err(e) => return Err(e),
            Ok(VerificationResult::Issue(t)) => {
                match t {
                    TransitionResult::TransitionTo(new_state) => self.apply_transition(new_state),
                    TransitionResult::Stay => {},
                }
                return Ok(());
            },
            Ok(VerificationResult::Passed) => {},
        }
        if has_type(&message, HEARTBEAT_TYPE) {
            self.on_heartbeat(&message, now)
        } else if has_type(&message, TEST_REQUEST_TYPE) {
            self.on_test_request(&message, now)
        } else if has_type(&message, RESEND_REQUEST_TYPE) {
            self.on_resend_request(&message, now)
        } else if has_type(&message, REJECT_TYPE) {
            self.on_reject()
        } else if has_type(&message, SEQUENCE_RESET_TYPE) {
            self.on_sequence_reset(&message, now)
        } else if has_type(&message, LOGOUT_TYPE) {
            self.on_logout(now)
        } else if has_type(&message, LOGON_TYPE) {
            self.on_logon(now)
        } else {
            self.process_app_message(&message, now)
        }
    }

    /// Ends a resend we await once the sequence number we expect is past the
    /// gap: the session becomes active and the messages queued meanwhile are
    /// handled in order (a queued ResendRequest, already answered, only counts
    /// as received).
    pub fn check_end_of_resend(&mut self, now: Moment) -> (r: Result<(), SessionOperationError>)
        requires
            old(self).wf(),
        ensures
            final(self).wf(),
            final(self).ctx.config == old(self).ctx.config,
            final(self).keeps_setup(old(self)),
            resend_checked(*old(self), *final(self), now, r),
    {
        let next_target = self.ctx.store.next_target_seq_number();
        let mut queue: Vec<Message> = Vec::new();
        if let SessionState::AwaitingResend(st) = &mut self.state {
            if next_target > st.end_seq_number {
                std::mem::swap(&mut queue, &mut st.inbound_queue);
            } else {
                return Ok(());
            }
        } else {
            return Ok(());
        }
        let ghost q = queue_view(queue@);
        let active = SessionState::new_active(self.ctx.config.heartbeat_interval, now.monotonic_millis);
        self.apply_transition(active);
        let ghost entered = *self;
        assert(resend_completed(*old(self), entered, now));
        assert(q.take(0) =~= Seq::<MessageView>::empty());
        let mut i: usize = 0;
        while i < queue.len()
            invariant
                0 <= i <= queue.len(),
                self.wf(),
                self.ctx.config == old(self).ctx.config,
                self.keeps_setup(old(self)),
                q == queue_view(queue@),
                old(self).state matches SessionState::AwaitingResend(st) && old(self).ctx.store.spec_next_target()
                    > st.end_seq_number && q == queue_view(st.inbound_queue@),
                resend_completed(*old(self), entered, now),
                replayed(entered, q.take(i as int), *self, now, Ok(())),
            decreases queue.len() - i,
        {
            let msg = queue[i].copy();
            let ghost cur = *self;
            assert(msg@ == q[i as int]);
            let r1 = if has_type(&msg, RESEND_REQUEST_TYPE) {
                self.increment_target()
            } else {
                self.process_message(msg, now)
            };
            proof {
                assert(replay_step(cur, q[i as int], *self, now, r1));
                lemma_replayed_extend(entered, q.take(i as int), cur, q[i as int], *self, now, r1);
                assert(q.take(i as int).push(q[i as int]) =~= q.take(i + 1));
                if r1 is Err {
                    assert(q.take(i + 1).is_prefix_of(q));
                    lemma_replayed_failed(entered, q.take(i + 1), q, *self, now, r1);
                }
            }
            match r1 {
                Ok(u) => {
                    assert(r1 == Ok::<(), SessionOperationError>(u));
                },
                Err(e) => return Err(e),
            }
            i = i + 1;
        }
        assert(q.take(i as int) =~= q);
        assert(resend_completed(*old(self), entered, now) && replayed(entered, q, *self, now, Ok(())));
        Ok(())
    }

    /// Bytes from the peer: any traffic shows the peer is alive unless we wait
    /// for the answer to a TestRequest; a garbled message is dropped as a
    /// transmission error; a readable one is handled, then a completed resend
    /// is ended.
    pub fn on_incoming(&mut self, raw: &[u8], now: Moment) -> (r: Result<(), SessionOperationError>)
        requires
            old(self).wf(),
        ensures
            final(self).wf(),
            final(self).ctx.config == old(self).ctx.config,
            final(self).keeps_setup(old(self)),
            incoming_handled(*old(self), *final(self), raw@, now, r),
    {
        if !self.state.is_expecting_test_response() {
            self.reset_peer_timer(None, now);
        }
        let ghost t0 = *self;
        assert(t0 == touched(*old(self), now));
        match decode(raw) {
            Some(message) => {
                let ghost v0 = message@;
                proof {
                    assert forall|v: MessageView|
                        crate::message::parser::readable(v) && spec_encode(v) == raw@ implies v == v0 by {
                        crate::message::parser::law_encoding_determines_message(v, v0);
                    }
                }
                let r1 = self.process_message(message, now);
                let ghost mid = *self;
                assert(message_processed(t0, mid, v0, now, r1));
                match r1 {
                    Ok(()) => {},
                    Err(e) => return Err(e),
                }
                self.check_end_of_resend(now)
            },
            None => Ok(()),
        }
    }

    /// Logs out and closes the connection, where there is one.
    pub fn terminate(&mut self, reason: &str, now: Moment)
        requires
            old(self).wf(),
        ensures
            final(self).ctx.config == old(self).ctx.config,
            final(self).keeps_setup(old(self)),
            final(self).state == old(self).state,
            final(self).wf(),
            final(self).ctx.store.spec_next_target() == old(self).ctx.store.spec_next_target(),
            !is_connected_state(&old(self).state) ==> *final(self) == *old(self),
            is_connected_state(&old(self).state) ==> logged_out_and_terminated(*old(self), *final(self), reason@, now),
            terminated(*old(self), final(self).outbox@, reason@, now),
    {
        if self.state.is_connected() {
            self.logout_and_terminate(reason, now);
        }
    }

    /// Starts a graceful logout: the session awaits the peer's Logout (until the
    /// logout timeout) and sends ours. Nothing happens without a connection or
    /// when a logout is already under way.
    pub fn initiate_graceful_logout(&mut self, reason: &str, reconnect: bool, now: Moment) -> (r: Result<(), SessionOperationError>)
        requires
            old(self).wf(),
        ensures
            final(self).wf(),
            final(self).ctx.config == old(self).ctx.config,
            final(self).keeps_setup(old(self)),
            logout_initiated(*old(self), *final(self), reason@, reconnect, now, r),
    {
        if self.state.is_connected() && !self.state.is_awaiting_logout() {
            let timeout = crate::session::state::deadline_after(
                now.monotonic_millis,
                self.ctx.config.logout_timeout,
            );
            self.apply_transition(
                SessionState::AwaitingLogout(AwaitingLogoutState { logout_timeout: timeout, reconnect }),
            );
            let ghost mid = *self;
            let r = self.send_logout(reason, now);
            proof {
                if r is Ok {
                    assert(spec_may_send(&mid.state, seq![LOGOUT_TYPE]));
                    let lo = choose|lo: Logout|
                        #[trigger] is_logout_with(lo, reason@) && actions(self.outbox@) == actions(mid.outbox@)
                            + if spec_may_send(&mid.state, seq![LOGOUT_TYPE]) {
                            seq![WriterAction::Send(out_bytes(mid, mid.ctx.store.spec_next_sender(), now, lo))]
                        } else {
                            seq![]
                        };
                    assert(actions(self.outbox@) =~= actions(old(self).outbox@).push(
                        WriterAction::Send(out_bytes(*old(self), old(self).ctx.store.spec_next_sender(), now, lo)),
                    ));
                }
            }
            r
        } else {
            Ok(())
        }
    }

    /// Our heartbeat interval elapsed: we send a Heartbeat and restart the timer.
    pub fn handle_heartbeat_timeout(&mut self, now: Moment)
        requires
            old(self).wf(),
        ensures
            final(self).wf(),
            final(self).ctx.config == old(self).ctx.config,
            final(self).keeps_setup(old(self)),
            final(self).state.spec_status() == old(self).state.spec_status(),
            final(self).ctx.store.spec_next_target() == old(self).ctx.store.spec_next_target(),
            send_blocked(old(self).ctx.store, now.utc_millis) ==> final(self).ctx.store == old(
                self,
            ).ctx.store,
            (final(self).outbox == old(self).outbox && final(self).state == old(self).state) || (sent(
                *old(self),
                *final(self),
                plain_heartbeat(),
                now,
            ) && final(self).state == heartbeat_reset(
                old(self).state,
                old(self).ctx.config.heartbeat_interval,
                now.monotonic_millis,
            )),
            send_blocked(old(self).ctx.store, now.utc_millis) ==> final(self).outbox == old(self).outbox
                && final(self).state == old(self).state,
            old(self).ctx.store.spec_never_fails() && !send_blocked(old(self).ctx.store, now.utc_millis) ==> sent(*old(self), *final(self), plain_heartbeat(), now) && final(self).state
                == heartbeat_reset(old(self).state, old(self).ctx.config.heartbeat_interval, now.monotonic_millis),
    {
        let heartbeat = Heartbeat::new();
        proof {
            assert(heartbeat == plain_heartbeat());
            lemma_ascii_type_bytes('0');
            assert(encode_utf8(heartbeat.spec_message_type())[0] != LOGON_TYPE);
        }
        match self.send_message(&heartbeat, now) {
            Ok(_) => self.reset_heartbeat_timer(now),
            Err(_) => {},
        }
    }

    /// The peer stayed silent past its deadline: without an answer to our
    /// TestRequest we log out and disconnect (to reconnect); while logging on
    /// or off we drop the connection; otherwise we send a TestRequest and wait
    /// for its answer.
    pub fn handle_peer_timeout(&mut self, now: Moment)
        requires
            old(self).wf(),
        ensures
            final(self).wf(),
            final(self).ctx.config == old(self).ctx.config,
            final(self).keeps_setup(old(self)),
            final(self).ctx.store.spec_next_target() == old(self).ctx.store.spec_next_target(),
            old(self).state.spec_expected_test_response_id() is Some ==> (final(self).state matches SessionState::Disconnected(d)
                && d.reconnect) && logged_out_and_terminated(*old(self), *final(self), "peer timeout"@, now),
            old(self).state is AwaitingLogon || old(self).state is AwaitingLogout ==> final(self).state
                == old(self).state && final(self).ctx.store == old(self).ctx.store && actions(
                final(self).outbox@,
            ) == actions(old(self).outbox@).push(WriterAction::Disconnect),
            old(self).state matches SessionState::Active(a) && a.sent_test_request_id is None ==> (final(self).state matches SessionState::Active(b)
                && b.sent_test_request_id matches Some(id) && id@ == test_request_id(
                old(self).ctx.store.spec_next_target(),
            ) && b.peer_deadline == spec_deadline(
                now.monotonic_millis,
                crate::session::state::spec_peer_interval(old(self).ctx.config.heartbeat_interval),
            )),
            old(self).state.spec_expected_test_response_id() is None && !(old(self).state is AwaitingLogon
                || old(self).state is AwaitingLogout) ==> (final(self).outbox == old(self).outbox || (exists|
                t: TestRequest,
            |
                t.test_req_id@ == test_request_id(old(self).ctx.store.spec_next_target())
                    && #[trigger] sent(*old(self), *final(self), t, now))),
            old(self).state.spec_expected_test_response_id() is None && !(old(self).state is AwaitingLogon
                || old(self).state is AwaitingLogout || old(self).state is Active) ==> final(self).state
                == old(self).state,
            old(self).state.spec_expected_test_response_id() is Some ==> logout_answered(
                *old(self),
                *final(self),
                "peer timeout"@,
                now,
            ),
            old(self).state.spec_expected_test_response_id() is None && !(old(self).state is AwaitingLogon
                || old(self).state is AwaitingLogout) && old(self).ctx.store.spec_never_fails() && !send_blocked(
                old(self).ctx.store,
                now.utc_millis,
            ) ==> exists|t: TestRequest|
                t.test_req_id@ == test_request_id(old(self).ctx.store.spec_next_target())
                    && #[trigger] sent(*old(self), *final(self), t, now),
    {
        if self.state.is_expecting_test_response() {
            self.logout_and_terminate("peer timeout", now);
            self.apply_transition(SessionState::new_disconnected(true, "peer timeout"));
        } else if self.state.is_awaiting_logon() || self.state.is_awaiting_logout() {
            self.disconnect_writer();
        } else {
            let req_id = crate::decimal::text_with_number("TEST_", self.ctx.store.next_target_seq_number());
            let request = TestRequest::new(req_id.clone());
            match self.send_message(&request, now) {
                Ok(_) => self.reset_heartbeat_timer(now),
                Err(_) => {},
            }
            self.reset_peer_timer(Some(req_id), now);
            proof {
                if self.outbox != old(self).outbox {
                    assert(sent(*old(self), *self, request, now));
                }
            }
        }
    }

    /// Checks the schedule at `now`. Inside it, a waiting connection loop is
    /// told to connect, and a store from another session period (or created
    /// outside the schedule) is reset after logging out — a failed reset
    /// disconnects without reconnecting. Outside it, a connected session logs
    /// out gracefully, to reconnect when the schedule resumes.
    pub fn handle_schedule_check(&mut self, now: Moment)
        requires
            old(self).wf(),
        ensures
            final(self).wf(),
            final(self).ctx.config == old(self).ctx.config,
            schedule_checked(*old(self), *final(self), now),
    {
        let t = utc_secs(now.utc_millis);
        if self.schedule.is_active_at(t) {
            if self.state.notify_schedule_awaiter() {
                self.schedule_replies.push(ScheduleResponse::InSchedule);
            }
            let creation_time = self.ctx.store.creation_time();
            match self.schedule.is_same_session_period_at(creation_time, t, t) {
                Ok(SessionPeriodComparison::SamePeriod) => {},
                Ok(SessionPeriodComparison::DifferentPeriod) => {
                    self.terminate("session period changed", now);
                    match self.ctx.store.reset(t) {
                        Ok(()) => {},
                        Err(_) => {
                            self.apply_transition(
                                SessionState::new_disconnected(false, "unexpected error in reset"),
                            );
                        },
                    }
                },
                Ok(SessionPeriodComparison::OutsideSessionTime { .. }) => {
                    self.terminate("creation time outside schedule", now);
                    match self.ctx.store.reset(t) {
                        Ok(()) => {},
                        Err(_) => {
                            self.apply_transition(
                                SessionState::new_disconnected(false, "unexpected error in reset"),
                            );
                        },
                    }
                },
                Err(_) => {
                    self.terminate("internal error", now);
                },
            }
        } else if self.state.is_connected() {
            let _ = self.initiate_graceful_logout("End of session time", true, now);
        }
    }

    /// Carries out the application's decision on a message it asked us to send:
    /// sent (its sequence number is returned), dropped, or the session is
    /// terminated.
    pub fn apply_outbound_decision(&mut self, message: &A::Outbound, decision: OutboundDecision, now: Moment) -> (r: Result<
        SendOutcome,
        SendError,
    >)
        requires
            message.spec_obeys(),
            old(self).wf(),
        ensures
            final(self).wf(),
            final(self).ctx.config == old(self).ctx.config,
            final(self).keeps_setup(old(self)),
            outbound_decided(*old(self), *final(self), *message, decision, now, r),
    {
        match decision {
            OutboundDecision::Send => {
                match self.send_message(message, now) {
                    Ok(sequence_number) => Ok(SendOutcome::Sent { sequence_number }),
                    Err(e) => Err(SendError::from_internal(e)),
                }
            },
            OutboundDecision::Drop => Ok(SendOutcome::Dropped),
            OutboundDecision::TerminateSession => {
                self.disconnect_writer();
                Err(SendError::SessionTerminated)
            },
        }
    }

    /// A message the application asks us to send: refused unless the session is
    /// logged on (active, or awaiting a resend), otherwise handed to the
    /// application's outbound hook and its decision carried out.
    pub fn send_app_message(&mut self, message: A::Outbound, now: Moment) -> (r: Result<SendOutcome, SendError>)
        requires
            message.spec_obeys(),
            old(self).wf(),
        ensures
            final(self).wf(),
            final(self).ctx.config == old(self).ctx.config,
            final(self).keeps_setup(old(self)),
            final(self).state.spec_status() == old(self).state.spec_status(),
            final(self).ctx.store.spec_next_target() == old(self).ctx.store.spec_next_target(),
            !(old(self).state is Active || old(self).state is AwaitingResend) ==> r == Err::<SendOutcome, SendError>(SendError::Disconnected)
                && *final(self) == *old(self),
            r matches Ok(SendOutcome::Sent { sequence_number }) ==> sequence_number == old(self).ctx.store.spec_next_sender()
                && final(self).ctx.store.spec_next_sender() == sequence_number + 1,
            (old(self).state is Active || old(self).state is AwaitingResend) ==> exists|d: OutboundDecision|
                #[trigger] outbound_decided(*old(self), *final(self), message, d, now, r),
    {
        if !self.state.is_logged_on() {
            return Err(SendError::Disconnected);
        }
        let decision = self.ctx.application.on_outbound_message(&message);
        self.apply_outbound_decision(&message, decision, now)
    }

    /// Carries out an administrative request; a request for the session's
    /// state is answered.
    pub fn handle_admin_request(&mut self, request: AdminRequest, now: Moment) -> (r: Option<SessionInfo>)
        requires
            old(self).wf(),
        ensures
            final(self).wf(),
            final(self).ctx.config == old(self).ctx.config,
            match request {
                AdminRequest::InitiateGracefulShutdown { reconnect } => r is None && exists|
                    r1: Result<(), SessionOperationError>,
                | #[trigger] logout_initiated(*old(self), *final(self), "explicitly requested"@, reconnect, now, r1),
                AdminRequest::RequestSessionInfo => *final(self) == *old(self) && (r matches Some(info)
                    && info.next_sender_seq_number == old(self).ctx.store.spec_next_sender()
                    && info.next_target_seq_number == old(self).ctx.store.spec_next_target()
                    && info.status == old(self).state.spec_status()),
                AdminRequest::ResetSequenceNumbersOnNextLogon => r is None && final(self).reset_on_next_logon
                    && final(self).state == old(self).state && final(self).ctx == old(self).ctx
                    && final(self).outbox == old(self).outbox,
            },
    {
        match request {
            AdminRequest::InitiateGracefulShutdown { reconnect } => {
                let _ = self.initiate_graceful_logout("explicitly requested", reconnect, now);
                None
            },
            AdminRequest::RequestSessionInfo => Some(self.get_session_info()),
            AdminRequest::ResetSequenceNumbersOnNextLogon => {
                self.reset_on_next_logon = true;
                None
            },
        }
    }

    /// A failure while handling an inbound message is fatal to the connection:
    /// we log out, disconnect and will reconnect.
    pub fn handle_fatal_error(&mut self, error: SessionOperationError, now: Moment)
        requires
            old(self).wf(),
        ensures
            final(self).wf(),
            final(self).ctx.config == old(self).ctx.config,
            final(self).keeps_setup(old(self)),
            fatal_handled(*old(self), *final(self), error, now),
    {
        let reason = error.describe();
        self.terminate("internal error", now);
        self.apply_transition(SessionState::new_disconnected(true, reason.as_str()));
    }

    /// Handles one event from the connection loop at `now`: the schedule is
    /// checked first, then the event; an event that asks a question is answered.
    pub fn handle_session_event(&mut self, event: SessionEvent, now: Moment) -> (r: Option<EventReply>)
        requires
            old(self).wf(),
        ensures
            final(self).wf(),
            final(self).ctx.config == old(self).ctx.config,
            exists|mid: Session<A, S>|
                #[trigger] schedule_checked(*old(self), mid, now) && match event {
                    SessionEvent::FixMessageReceived(raw) => r is None && exists|
                        mid2: Session<A, S>,
                        r1: Result<(), SessionOperationError>,
                    |
                        #[trigger] incoming_handled(mid, mid2, raw@, now, r1) && match r1 {
                            Ok(_) => *final(self) == mid2,
                            Err(e) => fatal_handled(mid2, *final(self), e, now),
                        },
                    SessionEvent::Disconnected(reason) => r is None && disconnected(mid, *final(self), reason@),
                    SessionEvent::Connected => r is None && exists|r1: Result<(), SessionOperationError>|
                        #[trigger] connected(mid, *final(self), now, r1),
                    SessionEvent::ShouldReconnect => *final(self) == mid && r == Some(
                        EventReply::ShouldReconnect(spec_should_reconnect(mid.state)),
                    ),
                    SessionEvent::AwaitSchedule => if schedule_wait_refused(mid.state) {
                        *final(self) == mid && r == Some(EventReply::Schedule(ScheduleResponse::Shutdown))
                    } else {
                        *final(self) == schedule_awaited(mid) && r is None
                    },
                },
    {
        self.handle_schedule_check(now);
        let ghost mid = *self;
        match event {
            SessionEvent::FixMessageReceived(raw) => {
                let r1 = self.on_incoming(raw.as_slice(), now);
                let ghost mid2 = *self;
                match r1 {
                    Ok(()) => {},
                    Err(e) => self.handle_fatal_error(e, now),
                }
                assert(incoming_handled(mid, mid2, raw@, now, r1));
                None
            },
            SessionEvent::Disconnected(reason) => {
                self.on_disconnect(reason.as_str());
                None
            },
            SessionEvent::Connected => {
                let _ = self.on_connect(now);
                None
            },
            SessionEvent::ShouldReconnect => Some(EventReply::ShouldReconnect(self.state.should_reconnect())),
            SessionEvent::AwaitSchedule => match self.state.register_schedule_awaiter() {
                Some(response) => Some(EventReply::Schedule(response)),
                None => None,
            },
        }
    }

    /// What the session reports about itself.
    pub fn get_session_info(&self) -> (r: SessionInfo)
        requires
            self.ctx.store.spec_obeys(),
        ensures
            r.next_sender_seq_number == self.ctx.store.spec_next_sender(),
            r.next_target_seq_number == self.ctx.store.spec_next_target(),
            r.status == self.state.spec_status(),
    {
        SessionInfo {
            next_sender_seq_number: self.ctx.store.next_sender_seq_number(),
            next_target_seq_number: self.ctx.store.next_target_seq_number(),
            status: self.state.as_status(),
        }
    }
}

/// The range a ResendRequest asks for ends at its EndSeqNo where that is no
/// later than the last message we sent, and at the last message we sent where
/// EndSeqNo is later or 0 ("everything").
pub proof fn law_resend_range(requested: u64, next_sender: u64)
    requires
        next_sender >= 1,
    ensures
        0 < requested <= next_sender - 1 ==> resend_end(requested, next_sender) == requested,
        requested > next_sender - 1 ==> resend_end(requested, next_sender) == next_sender - 1,
        requested == 0 ==> resend_end(requested, next_sender) == next_sender - 1,
{
}

/// A ResendRequest from BeginSeqNo `b` to a non-zero EndSeqNo `e`, answered
/// while connected, resends the stored messages numbered `b` to the earlier of
/// `e` and the last number sent (application messages again, each run of
/// administrative ones as one gap fill), and nothing else.
pub proof fn law_resend_request_range<A: Application, S: MessageStore>(
    before: Session<A, S>,
    after: Session<A, S>,
    m: MessageView,
    now: Moment,
    b: u64,
    e: u64,
    end: u64,
)
    requires
        resend_request_handled(before, after, m, now, Ok(())),
        is_connected_state(&before.state),
        field_u64(m.body, BEGIN_SEQ_NO) == Some(b),
        field_u64(m.body, END_SEQ_NO) == Some(e),
        0 < e,
        before.ctx.store.spec_next_sender() >= 1,
        end == (if e < before.ctx.store.spec_next_sender() {
            e
        } else {
            (before.ctx.store.spec_next_sender() - 1) as u64
        }),
    ensures
        exists|ms: Seq<MessageView>|
            #[trigger] decodes_to(before.ctx.store.spec_slice(b, end), ms) && actions(after.outbox@)
                == actions(before.outbox@) + resend_actions(ms, before.ctx.config, now.utc_millis),
{
    law_resend_range(e, before.ctx.store.spec_next_sender());
    assert(resend_end(e, before.ctx.store.spec_next_sender()) == end);
}

/// A SequenceReset received while connected moves the number expected next up
/// to its NewSeqNo where that is higher, sending nothing, and is owed success
/// then with a store that never fails; a NewSeqNo no higher than the number
/// expected is answered with a Reject (ValueIsIncorrect) and changes nothing.
pub proof fn law_sequence_reset_moves_forward<A: Application, S: MessageStore>(
    before: Session<A, S>,
    after: Session<A, S>,
    m: MessageView,
    now: Moment,
    r: Result<(), SessionOperationError>,
    n: u64,
)
    requires
        sequence_reset_handled(before, after, m, now, r),
        is_connected_state(&before.state),
        field_u64(m.body, NEW_SEQ_NO) == Some(n),
    ensures
        n > before.ctx.store.spec_next_target() && before.ctx.store.spec_never_fails() ==> r is Ok,
        r is Ok && n > before.ctx.store.spec_next_target() ==> after.ctx.store.spec_next_target() == n
            && after.outbox == before.outbox,
        r is Ok && n <= before.ctx.store.spec_next_target() ==> after.ctx.store.spec_next_target()
            == before.ctx.store.spec_next_target() && exists|rj: Reject|
            #[trigger] is_reject_for(rj, seq_num_or_zero(m), SessionRejectReason::ValueIsIncorrect)
                && actions(after.outbox@) == actions(before.outbox@).push(
                WriterAction::Send(out_bytes(before, before.ctx.store.spec_next_sender(), now, rj)),
            ),
{
}

/// An application message the application lets through, sent while logged
/// on (active or awaiting a resend), goes to the writer with the sequence
/// number it took, whatever its type but Logon.
pub proof fn law_app_message_sent_while_logged_on<A: Application, S: MessageStore>(
    before: Session<A, S>,
    after: Session<A, S>,
    message: A::Outbound,
    now: Moment,
    n: u64,
)
    requires
        outbound_decided(
            before,
            after,
            message,
            OutboundDecision::Send,
            now,
            Ok(SendOutcome::Sent { sequence_number: n }),
        ),
        before.state is Active || before.state is AwaitingResend,
        encode_utf8(message.spec_message_type()) != seq![65u8],
    ensures
        n == before.ctx.store.spec_next_sender(),
        actions(after.outbox@) == actions(before.outbox@).push(WriterAction::Send(out_bytes(before, n, now, message))),
{
    crate::session::state::law_who_may_send(before.state, encode_utf8(message.spec_message_type()));
    assert(actions(before.outbox@) + seq![WriterAction::Send(out_bytes(before, n, now, message))]
        =~= actions(before.outbox@).push(WriterAction::Send(out_bytes(before, n, now, message))));
}

} // verus!
