use hotfix::application::{
    AppNotice, Application, BusinessRejectReason, InboundDecision, OutboundDecision,
};
use hotfix::calendar::{LocalTime, TimeZone};
use hotfix::config::SessionConfig;
use hotfix::message::parser::decode;
use hotfix::message::verification_issue::{CompIdType, InvalidReason, MessageError};
use hotfix::message::{
    Message, OutboundMessage, BEGIN_SEQ_NO, END_SEQ_NO, GAP_FILL_FLAG, MSG_SEQ_NUM, NEW_SEQ_NO,
    ORIG_SENDING_TIME, POSS_DUP_FLAG, REF_SEQ_NUM, RESET_SEQ_NUM_FLAG, SENDER_COMP_ID,
    SENDING_TIME, SESSION_REJECT_REASON, TARGET_COMP_ID, TEST_REQ_ID, TEXT,
};
use hotfix::session::ctx::Moment;
use hotfix::session::engine::{
    AdminRequest, EventReply, Session, SessionCreationError, SessionEvent, TransitionResult,
};
use hotfix::session::error::{SendError, SendOutcome};
use hotfix::session::event::ScheduleResponse;
use hotfix::session::info::Status;
use hotfix::session::state::SessionState;
use hotfix::session_schedule::SessionSchedule;
use hotfix::store::in_memory::InMemoryMessageStore;
use hotfix::store::MessageStore;
use hotfix::transport::WriterMessage;

/// An order the application sends.
struct NewOrder {
    id: String,
}

impl OutboundMessage for NewOrder {
    fn write(&self, msg: &mut Message) {
        msg.set(11, self.id.as_bytes().to_vec());
    }

    fn message_type(&self) -> &str {
        "D"
    }
}

/// An application with fixed answers that counts what it is told.
struct TestApp {
    inbound: fn() -> InboundDecision,
    outbound: OutboundDecision,
    logons: usize,
    logouts: usize,
}

fn accept() -> InboundDecision {
    InboundDecision::Accept
}

fn reject_with_text() -> InboundDecision {
    InboundDecision::Reject {
        reason: BusinessRejectReason::UnknownSecurity,
        text: Some("no such security".to_string()),
    }
}

fn terminate() -> InboundDecision {
    InboundDecision::TerminateSession
}

impl Application for TestApp {
    type Outbound = NewOrder;

    fn on_outbound_message(&self, _msg: &NewOrder) -> OutboundDecision {
        self.outbound
    }

    fn on_inbound_message(&self, _msg: &Message) -> InboundDecision {
        (self.inbound)()
    }

    fn on_logout(&mut self, _reason: &str) {
        self.logouts += 1;
    }

    fn on_logon(&mut self) {
        self.logons += 1;
    }

    fn on_state_change(&self, _from: &Status, _to: &Status) {}
}

/// Hands the notifications the session owes to its application, as the runtime does.
fn deliver(session: &mut Session<TestApp, InMemoryMessageStore>) {
    for notice in std::mem::take(&mut session.notices) {
        match notice {
            AppNotice::StateChange { from, to } => session.ctx.application.on_state_change(&from, &to),
            AppNotice::LoggedOn => session.ctx.application.on_logon(),
            AppNotice::LoggedOut(reason) => session.ctx.application.on_logout(reason),
        }
    }
}

fn app() -> TestApp {
    TestApp { inbound: accept, outbound: OutboundDecision::Send, logons: 0, logouts: 0 }
}

fn config() -> SessionConfig {
    SessionConfig {
        begin_string: "FIX.4.4".to_string(),
        sender_comp_id: "SENDER".to_string(),
        target_comp_id: "TARGET".to_string(),
        data_dictionary_path: None,
        connection_host: "localhost".to_string(),
        connection_port: 9876,
        tls_config: None,
        heartbeat_interval: 30,
        logon_timeout: 10,
        logout_timeout: 2,
        reconnect_interval: 30,
        reset_on_logon: false,
        schedule: None,
    }
}

fn now() -> Moment {
    Moment { utc_millis: chrono::Utc::now().timestamp_millis(), monotonic_millis: 1_000 }
}

fn new_session(application: TestApp) -> Session<TestApp, InMemoryMessageStore> {
    let store = InMemoryMessageStore::new(chrono::Utc::now().timestamp());
    Session::new(config(), application, store).ok().unwrap()
}

/// The messages the session handed to the writer, decoded, and whether a
/// disconnect followed each.
fn sent(session: &mut Session<TestApp, InMemoryMessageStore>) -> Vec<Option<Message>> {
    let out = std::mem::take(&mut session.outbox);
    out.into_iter()
        .map(|m| match m {
            WriterMessage::SendMessage(bytes) => Some(decode(&bytes).expect("sent bytes decode")),
            WriterMessage::Disconnect => None,
        })
        .collect()
}

fn msg_type(m: &Message) -> String {
    String::from_utf8(m.msg_type.clone()).unwrap()
}

fn body_text(m: &Message, tag: u32) -> Option<String> {
    m.get(tag).map(|v| String::from_utf8(v.clone()).unwrap())
}

fn fix_time(millis: i64) -> Vec<u8> {
    chrono::DateTime::from_timestamp_millis(millis)
        .unwrap()
        .format("%Y%m%d-%H:%M:%S%.3f")
        .to_string()
        .into_bytes()
}

/// A message from the peer with the right comp IDs and a fresh SendingTime.
fn peer_message(msg_type: &str, seq: u64, at: Moment) -> Message {
    let mut m = Message::new("FIX.4.4", msg_type);
    m.header_set(SENDER_COMP_ID, b"TARGET".to_vec());
    m.header_set(TARGET_COMP_ID, b"SENDER".to_vec());
    m.header_set(MSG_SEQ_NUM, seq.to_string().into_bytes());
    m.header_set(SENDING_TIME, fix_time(at.utc_millis));
    m
}

/// A session that has logged on: our Logon went out and the peer's came back.
fn logged_on(application: TestApp) -> Session<TestApp, InMemoryMessageStore> {
    let mut session = new_session(application);
    let t = now();
    session.on_connect(t).unwrap();
    let logon = peer_message("A", 1, t);
    session.on_incoming(&logon.encode(), t).unwrap();
    assert_eq!(session.state.as_status(), Status::Active);
    sent(&mut session);
    session
}

#[test]
fn unsupported_begin_string_without_dictionary_is_refused() {
    let mut cfg = config();
    cfg.begin_string = "FIX.4.2".to_string();
    let store = InMemoryMessageStore::new(0);
    let r = Session::new(cfg, app(), store);
    assert!(matches!(r, Err(SessionCreationError::UnsupportedBeginString(b)) if b == "FIX.4.2"));
}

#[test]
fn begin_string_with_dictionary_is_accepted() {
    let mut cfg = config();
    cfg.begin_string = "FIX.4.2".to_string();
    cfg.data_dictionary_path = Some("./spec/FIX42.xml".to_string());
    let store = InMemoryMessageStore::new(0);
    assert!(Session::new(cfg, app(), store).is_ok());
}

#[test]
fn new_session_is_disconnected_and_reconnects() {
    let session = new_session(app());
    assert_eq!(session.state.as_status(), Status::Disconnected);
    assert!(session.state.should_reconnect());
    let info = session.get_session_info();
    assert_eq!(info.next_sender_seq_number, 1);
    assert_eq!(info.next_target_seq_number, 1);
}

#[test]
fn connecting_sends_logon_and_awaits_the_peers() {
    let mut session = new_session(app());
    session.on_connect(now()).unwrap();
    assert_eq!(session.state.as_status(), Status::AwaitingLogon);
    let out = sent(&mut session);
    assert_eq!(out.len(), 1);
    let logon = out[0].as_ref().unwrap();
    assert_eq!(msg_type(logon), "A");
    assert_eq!(logon.header_u64(MSG_SEQ_NUM), Some(1));
    assert_eq!(body_text(logon, 108).as_deref(), Some("30"));
    assert_eq!(body_text(logon, RESET_SEQ_NUM_FLAG).as_deref(), Some("N"));
    assert_eq!(body_text(logon, 789).as_deref(), Some("1"));
    assert_eq!(session.ctx.store.next_sender_seq_number(), 2);
}

#[test]
fn reset_on_next_logon_is_used_once() {
    let mut session = new_session(app());
    assert!(session
        .handle_admin_request(AdminRequest::ResetSequenceNumbersOnNextLogon, now())
        .is_none());
    session.on_connect(now()).unwrap();
    let out = sent(&mut session);
    let logon = out[0].as_ref().unwrap();
    assert_eq!(body_text(logon, RESET_SEQ_NUM_FLAG).as_deref(), Some("Y"));
    assert!(logon.get(789).is_none());
    assert!(!session.reset_on_next_logon);
}

#[test]
fn peer_logon_activates_the_session() {
    let mut session = new_session(app());
    let t = now();
    session.on_connect(t).unwrap();
    let logon = peer_message("A", 1, t);
    session.on_incoming(&logon.encode(), t).unwrap();
    assert_eq!(session.state.as_status(), Status::Active);
    assert_eq!(
        session.notices[session.notices.len() - 2..].to_vec(),
        vec![
            AppNotice::StateChange { from: Status::AwaitingLogon, to: Status::Active },
            AppNotice::LoggedOn,
        ]
    );
    deliver(&mut session);
    assert_eq!(session.ctx.application.logons, 1);
    assert_eq!(session.ctx.store.next_target_seq_number(), 2);
}

#[test]
fn anything_but_logon_while_awaiting_logon_disconnects() {
    let mut session = new_session(app());
    let t = now();
    session.on_connect(t).unwrap();
    sent(&mut session);
    let hb = peer_message("0", 1, t);
    session.on_incoming(&hb.encode(), t).unwrap();
    let out = sent(&mut session);
    assert_eq!(out.len(), 1);
    assert!(out[0].is_none());
}

#[test]
fn garbled_bytes_are_dropped() {
    let mut session = logged_on(app());
    session.on_incoming(b"not a valid FIX message", now()).unwrap();
    assert!(session.outbox.is_empty());
    assert_eq!(session.state.as_status(), Status::Active);
    assert_eq!(session.ctx.store.next_target_seq_number(), 2);
}

#[test]
fn heartbeat_counts_as_received() {
    let mut session = logged_on(app());
    let t = now();
    session.on_incoming(&peer_message("0", 2, t).encode(), t).unwrap();
    assert_eq!(session.ctx.store.next_target_seq_number(), 3);
    assert!(session.outbox.is_empty());
}

#[test]
fn test_request_is_answered_with_its_id() {
    let mut session = logged_on(app());
    let t = now();
    let mut tr = peer_message("1", 2, t);
    tr.set(TEST_REQ_ID, b"PING-7".to_vec());
    session.on_incoming(&tr.encode(), t).unwrap();
    let out = sent(&mut session);
    assert_eq!(out.len(), 1);
    let hb = out[0].as_ref().unwrap();
    assert_eq!(msg_type(hb), "0");
    assert_eq!(body_text(hb, TEST_REQ_ID).as_deref(), Some("PING-7"));
    assert_eq!(session.ctx.store.next_target_seq_number(), 3);
}

#[test]
fn test_request_without_id_is_fatal() {
    let mut session = logged_on(app());
    let t = now();
    let tr = peer_message("1", 2, t);
    assert!(session.on_incoming(&tr.encode(), t).is_err());
    assert_eq!(
        session.handle_session_event(SessionEvent::FixMessageReceived(tr.encode()), t),
        None
    );
    assert_eq!(session.state.as_status(), Status::Disconnected);
    assert!(session.state.should_reconnect());
}

#[test]
fn sequence_gap_asks_for_a_resend() {
    let mut session = logged_on(app());
    let t = now();
    session.on_incoming(&peer_message("0", 5, t).encode(), t).unwrap();
    assert_eq!(
        session.state.as_status(),
        Status::AwaitingResend { begin: 2, end: 5, attempts: 1 }
    );
    let out = sent(&mut session);
    let rr = out[0].as_ref().unwrap();
    assert_eq!(msg_type(rr), "2");
    assert_eq!(rr.get_u64(BEGIN_SEQ_NO), Some(2));
    assert_eq!(rr.get_u64(END_SEQ_NO), Some(5));
}

#[test]
fn resend_completes_and_replays_the_queue() {
    let mut session = logged_on(app());
    let t = now();
    session.on_incoming(&peer_message("0", 5, t).encode(), t).unwrap();
    sent(&mut session);
    // a message beyond the gap is queued
    session.on_incoming(&peer_message("0", 6, t).encode(), t).unwrap();
    assert_eq!(session.ctx.store.next_target_seq_number(), 2);
    // the gap is filled, 2..=5
    for seq in 2..=5 {
        let mut m = peer_message("0", seq, t);
        m.header_set(POSS_DUP_FLAG, b"Y".to_vec());
        m.header_set(ORIG_SENDING_TIME, fix_time(t.utc_millis));
        session.on_incoming(&m.encode(), t).unwrap();
    }
    assert_eq!(session.state.as_status(), Status::Active);
    // the queued message 6 was handled after the gap
    assert_eq!(session.ctx.store.next_target_seq_number(), 7);
}

#[test]
fn sequence_number_too_low_logs_out_without_reconnecting() {
    let mut session = logged_on(app());
    let t = now();
    session.on_incoming(&peer_message("0", 2, t).encode(), t).unwrap();
    session.on_incoming(&peer_message("0", 1, t).encode(), t).unwrap();
    let out = sent(&mut session);
    assert_eq!(msg_type(out[0].as_ref().unwrap()), "5");
    let text = body_text(out[0].as_ref().unwrap(), TEXT).unwrap();
    assert_eq!(text, "sequence number too low (actual 1, expected 3)");
    assert!(out[1].is_none());
    assert_eq!(session.state.as_status(), Status::Disconnected);
    assert!(!session.state.should_reconnect());
}

#[test]
fn handle_sequence_number_too_low_possible_duplicate_returns_stay() {
    let mut session = logged_on(app());
    let r = session.handle_sequence_number_too_low(5, 1, true, now());
    assert!(matches!(r, TransitionResult::Stay));
    assert!(session.outbox.is_empty());
    assert_eq!(session.ctx.store.next_sender_seq_number(), 2);
}

#[test]
fn handle_incorrect_begin_string_returns_transition_to_disconnected() {
    let mut session = logged_on(app());
    let r = session.handle_incorrect_begin_string("FIX.4.0", now());
    assert!(matches!(r, TransitionResult::TransitionTo(SessionState::Disconnected(_))));
    let out = sent(&mut session);
    let logout = out[0].as_ref().unwrap();
    assert_eq!(msg_type(logout), "5");
    assert!(body_text(logout, TEXT).unwrap().contains("FIX.4.0"));
    assert!(out[1].is_none());
    assert_eq!(session.ctx.store.next_sender_seq_number(), 3);
}

#[test]
fn handle_incorrect_comp_id_returns_transition_to_disconnected() {
    let mut session = logged_on(app());
    let r = session.handle_incorrect_comp_id("BAD_COMP", CompIdType::Sender, 1, now());
    assert!(matches!(r, TransitionResult::TransitionTo(SessionState::Disconnected(_))));
    let out = sent(&mut session);
    let reject = out[0].as_ref().unwrap();
    assert_eq!(msg_type(reject), "3");
    assert!(body_text(reject, TEXT).unwrap().contains("BAD_COMP"));
    assert_eq!(msg_type(out[1].as_ref().unwrap()), "5");
    assert!(out[2].is_none());
    assert_eq!(session.ctx.store.next_sender_seq_number(), 4);
}

#[test]
fn handle_sending_time_accuracy_problem_sends_reject() {
    let mut session = logged_on(app());
    session.handle_sending_time_accuracy_problem(42, "bad time", now());
    let out = sent(&mut session);
    let reject = out[0].as_ref().unwrap();
    assert_eq!(msg_type(reject), "3");
    assert_eq!(reject.get_u64(REF_SEQ_NUM), Some(42));
    assert_eq!(reject.get_u64(SESSION_REJECT_REASON), Some(10));
    assert!(body_text(reject, TEXT).unwrap().contains("bad time"));
    assert_eq!(session.ctx.store.next_target_seq_number(), 3);
    assert_eq!(session.ctx.store.next_sender_seq_number(), 3);
}

#[test]
fn handle_original_sending_time_missing_sends_reject() {
    let mut session = logged_on(app());
    session.handle_original_sending_time_missing(7, now());
    let out = sent(&mut session);
    let reject = out[0].as_ref().unwrap();
    assert_eq!(msg_type(reject), "3");
    assert_eq!(reject.get_u64(SESSION_REJECT_REASON), Some(1));
    assert!(body_text(reject, TEXT).unwrap().contains("original sending time"));
    assert_eq!(session.ctx.store.next_target_seq_number(), 3);
}

#[test]
fn verification_error_with_stale_sending_time_is_rejected() {
    let mut session = logged_on(app());
    let t = now();
    let stale = Moment { utc_millis: t.utc_millis - 300_000, monotonic_millis: t.monotonic_millis };
    session.on_incoming(&peer_message("0", 2, stale).encode(), t).unwrap();
    let out = sent(&mut session);
    let reject = out[0].as_ref().unwrap();
    assert_eq!(msg_type(reject), "3");
    assert_eq!(reject.get_u64(SESSION_REJECT_REASON), Some(10));
    assert_eq!(session.state.as_status(), Status::Active);
    let r = session.handle_verification_error(MessageError::SendingTimeMissing { msg_seq_num: 3 }, t);
    assert!(matches!(r, TransitionResult::Stay));
}

#[test]
fn sequence_reset_moves_the_expected_number_up() {
    let mut session = logged_on(app());
    let t = now();
    let mut sr = peer_message("4", 2, t);
    sr.set(NEW_SEQ_NO, b"10".to_vec());
    session.on_incoming(&sr.encode(), t).unwrap();
    assert_eq!(session.ctx.store.next_target_seq_number(), 10);
    assert!(session.outbox.is_empty());
}

#[test]
fn sequence_reset_backwards_is_rejected() {
    let mut session = logged_on(app());
    let t = now();
    let mut sr = peer_message("4", 2, t);
    sr.set(NEW_SEQ_NO, b"2".to_vec());
    session.on_incoming(&sr.encode(), t).unwrap();
    assert_eq!(session.ctx.store.next_target_seq_number(), 2);
    let out = sent(&mut session);
    let reject = out[0].as_ref().unwrap();
    assert_eq!(msg_type(reject), "3");
    assert_eq!(reject.get_u64(SESSION_REJECT_REASON), Some(5));
    assert_eq!(
        body_text(reject, TEXT).as_deref(),
        Some("attempt to lower sequence number, invalid value NewSeqNo(36)=2")
    );
}

#[test]
fn sequence_reset_without_new_seq_no_is_rejected() {
    let mut session = logged_on(app());
    let t = now();
    let sr = peer_message("4", 2, t);
    session.on_incoming(&sr.encode(), t).unwrap();
    let out = sent(&mut session);
    let reject = out[0].as_ref().unwrap();
    assert_eq!(reject.get_u64(SESSION_REJECT_REASON), Some(1));
    assert_eq!(session.ctx.store.next_target_seq_number(), 2);
}

#[test]
fn resend_request_replays_app_messages_and_fills_admin_gaps() {
    let mut session = logged_on(app());
    let t = now();
    // 2: an order, 3: a heartbeat, 4: an order
    let r = session.send_app_message(NewOrder { id: "A1".to_string() }, t);
    assert_eq!(r, Ok(SendOutcome::Sent { sequence_number: 2 }));
    session.handle_heartbeat_timeout(t);
    session.send_app_message(NewOrder { id: "A2".to_string() }, t).unwrap();
    sent(&mut session);
    let mut rr = peer_message("2", 2, t);
    rr.set(BEGIN_SEQ_NO, b"1".to_vec());
    rr.set(END_SEQ_NO, b"0".to_vec());
    session.on_incoming(&rr.encode(), t).unwrap();
    let out = sent(&mut session);
    let types: Vec<String> = out.iter().map(|m| msg_type(m.as_ref().unwrap())).collect();
    // 1 (our Logon) is admin: gap fill up to 2; 2 resent; 3 gap fill up to 4; 4 resent
    assert_eq!(types, vec!["4", "D", "4", "D"]);
    let gf = out[0].as_ref().unwrap();
    assert_eq!(gf.header_u64(MSG_SEQ_NUM), Some(1));
    assert_eq!(gf.get_u64(NEW_SEQ_NO), Some(2));
    assert_eq!(gf.get_bool(GAP_FILL_FLAG), Some(true));
    let resent = out[1].as_ref().unwrap();
    assert_eq!(resent.header_u64(MSG_SEQ_NUM), Some(2));
    assert_eq!(resent.header_bool(POSS_DUP_FLAG), Some(true));
    assert!(resent.header_get(ORIG_SENDING_TIME).is_some());
    assert_eq!(body_text(resent, 11).as_deref(), Some("A1"));
    assert_eq!(out[2].as_ref().unwrap().get_u64(NEW_SEQ_NO), Some(4));
    assert_eq!(session.ctx.store.next_target_seq_number(), 3);
}

#[test]
fn resend_of_admin_messages_only_is_one_gap_fill() {
    let mut session = logged_on(app());
    let t = now();
    session.handle_heartbeat_timeout(t);
    session.handle_heartbeat_timeout(t);
    sent(&mut session);
    session.resend_messages(1, 3, t).unwrap();
    let out = sent(&mut session);
    assert_eq!(out.len(), 1);
    let gf = out[0].as_ref().unwrap();
    assert_eq!(msg_type(gf), "4");
    assert_eq!(gf.header_u64(MSG_SEQ_NUM), Some(1));
    assert_eq!(gf.get_u64(NEW_SEQ_NO), Some(3));
}

#[test]
fn resend_request_without_begin_is_rejected() {
    let mut session = logged_on(app());
    let t = now();
    let mut rr = peer_message("2", 2, t);
    rr.set(END_SEQ_NO, b"0".to_vec());
    session.on_incoming(&rr.encode(), t).unwrap();
    let out = sent(&mut session);
    assert_eq!(out.len(), 1);
    assert_eq!(out[0].as_ref().unwrap().get_u64(SESSION_REJECT_REASON), Some(1));
}

#[test]
fn peer_logout_is_acknowledged_and_disconnects() {
    let mut session = logged_on(app());
    let t = now();
    session.on_incoming(&peer_message("5", 2, t).encode(), t).unwrap();
    let out = sent(&mut session);
    let ack = out[0].as_ref().unwrap();
    assert_eq!(msg_type(ack), "5");
    assert_eq!(body_text(ack, TEXT).as_deref(), Some("Logout acknowledged"));
    assert!(out[1].is_none());
    assert_eq!(session.state.as_status(), Status::Disconnected);
    assert!(session.state.should_reconnect());
    assert!(session.notices.contains(&AppNotice::LoggedOut("peer has logged us out")));
    deliver(&mut session);
    assert_eq!(session.ctx.application.logouts, 1);
}

#[test]
fn graceful_shutdown_awaits_the_peers_logout() {
    let mut session = logged_on(app());
    let t = now();
    let info = session.handle_admin_request(AdminRequest::InitiateGracefulShutdown { reconnect: false }, t);
    assert!(info.is_none());
    assert_eq!(session.state.as_status(), Status::AwaitingLogout);
    let out = sent(&mut session);
    assert_eq!(body_text(out[0].as_ref().unwrap(), TEXT).as_deref(), Some("explicitly requested"));
    session.on_incoming(&peer_message("5", 2, t).encode(), t).unwrap();
    assert_eq!(session.state.as_status(), Status::Disconnected);
    assert!(!session.state.should_reconnect());
}

#[test]
fn app_rejection_sends_business_message_reject() {
    let mut application = app();
    application.inbound = reject_with_text;
    let mut session = logged_on(application);
    let t = now();
    session.on_incoming(&peer_message("D", 2, t).encode(), t).unwrap();
    let out = sent(&mut session);
    let br = out[0].as_ref().unwrap();
    assert_eq!(msg_type(br), "j");
    assert_eq!(body_text(br, 372).as_deref(), Some("D"));
    assert_eq!(br.get_u64(380), Some(2));
    assert_eq!(br.get_u64(REF_SEQ_NUM), Some(2));
    assert_eq!(body_text(br, TEXT).as_deref(), Some("no such security"));
    assert_eq!(session.ctx.store.next_target_seq_number(), 3);
}

#[test]
fn app_termination_disconnects() {
    let mut application = app();
    application.inbound = terminate;
    let mut session = logged_on(application);
    let t = now();
    session.on_incoming(&peer_message("D", 2, t).encode(), t).unwrap();
    let out = sent(&mut session);
    assert_eq!(out.len(), 1);
    assert!(out[0].is_none());
    assert_eq!(session.ctx.store.next_target_seq_number(), 3);
}

#[test]
fn sending_while_disconnected_is_refused() {
    let mut session = new_session(app());
    let r = session.send_app_message(NewOrder { id: "X".to_string() }, now());
    assert_eq!(r, Err(SendError::Disconnected));
}

#[test]
fn sending_while_awaiting_logon_is_refused() {
    let mut session = new_session(app());
    session.on_connect(now()).unwrap();
    sent(&mut session);
    let r = session.send_app_message(NewOrder { id: "X".to_string() }, now());
    assert_eq!(r, Err(SendError::Disconnected));
    assert!(sent(&mut session).is_empty());
    assert_eq!(session.ctx.store.next_sender_seq_number(), 2);
}

#[test]
fn application_can_drop_or_terminate_outbound_messages() {
    let mut application = app();
    application.outbound = OutboundDecision::Drop;
    let mut session = logged_on(application);
    let r = session.send_app_message(NewOrder { id: "X".to_string() }, now());
    assert_eq!(r, Ok(SendOutcome::Dropped));
    assert!(session.outbox.is_empty());
    session.ctx.application.outbound = OutboundDecision::TerminateSession;
    let r = session.send_app_message(NewOrder { id: "X".to_string() }, now());
    assert_eq!(r, Err(SendError::SessionTerminated));
    assert!(matches!(session.outbox[0], WriterMessage::Disconnect));
}

#[test]
fn silent_peer_gets_a_test_request_then_is_dropped() {
    let mut session = logged_on(app());
    let t = now();
    session.handle_peer_timeout(t);
    let out = sent(&mut session);
    let tr = out[0].as_ref().unwrap();
    assert_eq!(msg_type(tr), "1");
    assert_eq!(body_text(tr, TEST_REQ_ID).as_deref(), Some("TEST_2"));
    assert!(session.state.is_expecting_test_response());
    session.handle_peer_timeout(t);
    let out = sent(&mut session);
    assert_eq!(msg_type(out[0].as_ref().unwrap()), "5");
    assert!(out[1].is_none());
    assert_eq!(session.state.as_status(), Status::Disconnected);
    assert!(session.state.should_reconnect());
}

#[test]
fn answer_to_test_request_stops_the_wait() {
    let mut session = logged_on(app());
    let t = now();
    session.handle_peer_timeout(t);
    sent(&mut session);
    let mut hb = peer_message("0", 2, t);
    hb.set(TEST_REQ_ID, b"TEST_2".to_vec());
    session.on_incoming(&hb.encode(), t).unwrap();
    assert!(!session.state.is_expecting_test_response());
}

#[test]
fn disconnect_event_disconnects_and_reconnects() {
    let mut session = logged_on(app());
    let reply = session.handle_session_event(SessionEvent::Disconnected("received EOF".to_string()), now());
    assert_eq!(reply, None);
    assert_eq!(session.state.as_status(), Status::Disconnected);
    assert_eq!(
        session.handle_session_event(SessionEvent::ShouldReconnect, now()),
        Some(EventReply::ShouldReconnect(true))
    );
}

#[test]
fn schedule_awaiter_is_told_when_in_schedule() {
    let mut session = new_session(app());
    let t = now();
    assert_eq!(session.handle_session_event(SessionEvent::AwaitSchedule, t), None);
    session.handle_schedule_check(t);
    assert_eq!(session.schedule_replies, vec![ScheduleResponse::InSchedule]);
    // each event checks the schedule first, so a pending awaiter is told before the next registers
    assert_eq!(session.handle_session_event(SessionEvent::AwaitSchedule, t), None);
    assert_eq!(session.handle_session_event(SessionEvent::AwaitSchedule, t), None);
    assert_eq!(
        session.schedule_replies,
        vec![ScheduleResponse::InSchedule, ScheduleResponse::InSchedule]
    );
    // a second registration while one is pending is refused
    assert_eq!(session.state.register_schedule_awaiter(), Some(ScheduleResponse::Shutdown));
}

#[test]
fn test_handle_schedule_check_active_same_period() {
    let mut session = logged_on(app());
    session.handle_schedule_check(now());
    assert!(session.state.is_logged_on());
    assert_eq!(session.ctx.store.next_sender_seq_number(), 2);
}

#[test]
fn test_handle_schedule_check_active_different_period() {
    let mut session = logged_on(app());
    session.schedule = SessionSchedule::Daily {
        start_time: LocalTime::from_hms(0, 0, 0).unwrap(),
        end_time: LocalTime::from_hms(23, 59, 59).unwrap(),
        timezone: TimeZone::utc(),
    };
    let t = now();
    let yesterday = t.utc_millis / 1000 - 86_400;
    session.ctx.store = InMemoryMessageStore::new(yesterday);
    session.handle_schedule_check(t);
    if session.schedule.is_active_at(t.utc_millis / 1000) {
        // the store was reset after logging out
        assert_eq!(session.ctx.store.next_sender_seq_number(), 1);
        assert_eq!(session.ctx.store.creation_time(), t.utc_millis / 1000);
    }
}

#[test]
fn test_handle_schedule_check_inactive_connected() {
    let mut session = logged_on(app());
    let t = now();
    let hour = (t.utc_millis / 3_600_000 % 24) as u32;
    let start = (hour + 12) % 24;
    session.schedule = SessionSchedule::Daily {
        start_time: LocalTime::from_hms(start, 0, 0).unwrap(),
        end_time: LocalTime::from_hms((start + 1) % 24, 0, 0).unwrap(),
        timezone: TimeZone::utc(),
    };
    session.handle_schedule_check(t);
    assert!(session.state.is_awaiting_logout());
    let out = sent(&mut session);
    assert_eq!(body_text(out[0].as_ref().unwrap(), TEXT).as_deref(), Some("End of session time"));
}

#[test]
fn test_handle_schedule_check_inactive_disconnected() {
    let mut session = new_session(app());
    let t = now();
    let hour = (t.utc_millis / 3_600_000 % 24) as u32;
    let start = (hour + 12) % 24;
    session.schedule = SessionSchedule::Daily {
        start_time: LocalTime::from_hms(start, 0, 0).unwrap(),
        end_time: LocalTime::from_hms((start + 1) % 24, 0, 0).unwrap(),
        timezone: TimeZone::utc(),
    };
    session.handle_schedule_check(t);
    assert_eq!(session.state.as_status(), Status::Disconnected);
    assert!(session.state.should_reconnect());
}

#[test]
fn session_info_is_reported() {
    let mut session = logged_on(app());
    let info = session.handle_admin_request(AdminRequest::RequestSessionInfo, now()).unwrap();
    assert_eq!(info.next_sender_seq_number, 2);
    assert_eq!(info.next_target_seq_number, 2);
    assert_eq!(info.status, Status::Active);
}

#[test]
fn handle_invalid_msg_type_sends_reject_for_message_with_seq_num() {
    let mut session = new_session(app());
    session.state = SessionState::new_active(30, 0);
    let mut message = Message::new("FIX.4.4", "ZZ");
    message.header_set(MSG_SEQ_NUM, b"1".to_vec());
    session
        .handle_invalid_message(&message, &InvalidReason::InvalidMsgType("ZZ".to_string()), now())
        .unwrap();
    let out = sent(&mut session);
    let reject = out[0].as_ref().unwrap();
    assert_eq!(msg_type(reject), "3");
    let text = body_text(reject, TEXT).expect("expected Text(58) field");
    assert!(text.contains("ZZ"), "reject text should mention the invalid msg type, got: {text}");
    assert_eq!(session.ctx.store.next_sender_seq_number(), 2);
    assert_eq!(session.ctx.store.next_target_seq_number(), 2);
}

#[test]
fn invalid_fields_and_group_order_are_rejected() {
    let mut session = logged_on(app());
    let t = now();
    let message = peer_message("D", 2, t);
    session.handle_invalid_message(&message, &InvalidReason::InvalidField(9999), t).unwrap();
    session
        .handle_invalid_message(&message, &InvalidReason::InvalidOrderInGroup { tag: 448 }, t)
        .unwrap();
    let out = sent(&mut session);
    assert_eq!(out.len(), 2);
    let first = out[0].as_ref().unwrap();
    assert_eq!(first.get_u64(SESSION_REJECT_REASON), Some(0));
    assert_eq!(body_text(first, TEXT).as_deref(), Some("invalid field 9999"));
    let second = out[1].as_ref().unwrap();
    assert_eq!(second.get_u64(SESSION_REJECT_REASON), Some(15));
    assert_eq!(body_text(second, TEXT).as_deref(), Some("field appears in incorrect order:448"));
    // the target sequence number is not counted for these
    assert_eq!(session.ctx.store.next_target_seq_number(), 2);
}

#[test]
fn invalid_components_and_messages_without_seq_num_are_let_pass() {
    let mut session = logged_on(app());
    let t = now();
    let message = peer_message("D", 2, t);
    session
        .handle_invalid_message(&message, &InvalidReason::InvalidComponent("Instrument".to_string()), t)
        .unwrap();
    let no_seq = Message::new("FIX.4.4", "ZZ");
    session
        .handle_invalid_message(&no_seq, &InvalidReason::InvalidMsgType("ZZ".to_string()), t)
        .unwrap();
    assert!(sent(&mut session).is_empty());
}
