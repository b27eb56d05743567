use hotfix::application::BusinessRejectReason;
use hotfix::message::business_reject::BusinessReject;
use hotfix::message::reject::{Reject, SessionRejectReason};
use hotfix::message::{
    prepare_message_for_resend, Message, OutboundMessage, BUSINESS_REJECT_REASON, MSG_SEQ_NUM,
    ORIG_SENDING_TIME, POSS_DUP_FLAG, REF_MSG_TYPE, REF_SEQ_NUM, REF_TAG_ID, SENDER_COMP_ID,
    SENDING_TIME, SESSION_REJECT_REASON, TARGET_COMP_ID, TEXT,
};
use hotfix::session::state::{AwaitingResendState, AwaitingResendTransitionOutcome};

fn text(msg: &Message, tag: u32) -> Option<String> {
    msg.get(tag).map(|v| String::from_utf8(v.clone()).unwrap())
}

fn reject_reason(msg: &Message) -> Option<SessionRejectReason> {
    msg.get_u64(SESSION_REJECT_REASON).and_then(SessionRejectReason::from_code)
}

fn business_reason(msg: &Message) -> Option<BusinessRejectReason> {
    msg.get_u64(BUSINESS_REJECT_REASON).and_then(BusinessRejectReason::from_code)
}

#[test]
fn test_write_reject_with_required_fields_only() {
    let reject = Reject::new(123);

    let mut msg = Message::new("FIX.4.4", "3");
    reject.write(&mut msg);

    assert_eq!(msg.get_u64(REF_SEQ_NUM).unwrap(), 123);
    assert!(msg.get_u64(REF_TAG_ID).is_none());
    assert!(msg.get(REF_MSG_TYPE).is_none());
    assert!(reject_reason(&msg).is_none());
    assert!(msg.get(TEXT).is_none());
}

#[test]
fn test_write_reject_with_all_fields() {
    let reject = Reject::new(456)
        .ref_tag_id(35)
        .ref_msg_type("8")
        .session_reject_reason(SessionRejectReason::InvalidTagNumber)
        .text("Invalid message format");

    let mut msg = Message::new("FIX.4.4", "3");
    reject.write(&mut msg);

    assert_eq!(msg.get_u64(REF_SEQ_NUM).unwrap(), 456);
    assert_eq!(msg.get_u64(REF_TAG_ID).unwrap(), 35);
    assert_eq!(text(&msg, REF_MSG_TYPE).unwrap(), "8");
    assert_eq!(reject_reason(&msg).unwrap(), SessionRejectReason::InvalidTagNumber);
    assert_eq!(text(&msg, TEXT).unwrap(), "Invalid message format");
}

#[test]
fn test_parse_reject_with_required_fields_only() {
    let mut msg = Message::new("FIX.4.4", "3");
    msg.set(REF_SEQ_NUM, b"999".to_vec());

    let parsed = Reject::parse(&msg).unwrap();

    assert_eq!(parsed.ref_seq_num, 999);
    assert!(parsed.ref_tag_id.is_none());
    assert!(parsed.ref_msg_type.is_none());
    assert!(parsed.session_reject_reason.is_none());
    assert!(parsed.text.is_none());
}

#[test]
fn test_parse_reject_with_all_fields() {
    let mut msg = Message::new("FIX.4.4", "3");
    msg.set(REF_SEQ_NUM, b"777".to_vec());
    msg.set(REF_TAG_ID, b"40".to_vec());
    msg.set(REF_MSG_TYPE, b"D".to_vec());
    msg.set(SESSION_REJECT_REASON, b"2".to_vec());
    msg.set(TEXT, b"Field not allowed".to_vec());

    let parsed = Reject::parse(&msg).unwrap();

    assert_eq!(parsed.ref_seq_num, 777);
    assert_eq!(parsed.ref_tag_id, Some(40));
    assert_eq!(parsed.ref_msg_type, Some("D".to_string()));
    assert_eq!(
        parsed.session_reject_reason,
        Some(SessionRejectReason::TagNotDefinedForThisMessageType)
    );
    assert_eq!(parsed.text, Some("Field not allowed".to_string()));
}

#[test]
fn reject_test_round_trip_serialization() {
    let original = Reject::new(555)
        .ref_tag_id(44)
        .ref_msg_type("F")
        .session_reject_reason(SessionRejectReason::ValueIsIncorrect)
        .text("Price field is invalid");

    let mut msg = Message::new("FIX.4.4", "3");
    original.write(&mut msg);

    let parsed = Reject::parse(&msg).unwrap();

    assert_eq!(parsed.ref_seq_num, original.ref_seq_num);
    assert_eq!(parsed.ref_tag_id, original.ref_tag_id);
    assert_eq!(parsed.ref_msg_type, original.ref_msg_type);
    assert_eq!(parsed.session_reject_reason, original.session_reject_reason);
    assert_eq!(parsed.text, original.text);
}

#[test]
fn reject_test_round_trip_with_minimal_fields() {
    let original = Reject::new(111);

    let mut msg = Message::new("FIX.4.4", "3");
    original.write(&mut msg);

    let parsed = Reject::parse(&msg).unwrap();

    assert_eq!(parsed.ref_seq_num, original.ref_seq_num);
    assert_eq!(parsed.ref_tag_id, original.ref_tag_id);
    assert_eq!(parsed.ref_msg_type, original.ref_msg_type);
    assert_eq!(parsed.session_reject_reason, original.session_reject_reason);
    assert_eq!(parsed.text, original.text);
}

#[test]
fn reject_without_ref_seq_num_does_not_parse() {
    let mut msg = Message::new("FIX.4.4", "3");
    msg.set(TEXT, b"no reference".to_vec());
    assert!(Reject::parse(&msg).is_none());
}

#[test]
fn session_reject_reason_codes_round_trip() {
    for code in (0..=17).chain([99]) {
        let reason = SessionRejectReason::from_code(code).unwrap();
        assert_eq!(reason.code(), code);
    }
    assert!(SessionRejectReason::from_code(18).is_none());
    assert!(SessionRejectReason::from_code(98).is_none());
}

#[test]
fn test_write_business_reject_with_required_fields_only() {
    let reject = BusinessReject::new("D", BusinessRejectReason::UnsupportedMessageType);

    let mut msg = Message::new("FIX.4.4", "j");
    reject.write(&mut msg);

    assert_eq!(text(&msg, REF_MSG_TYPE).unwrap(), "D");
    assert_eq!(
        business_reason(&msg).unwrap(),
        BusinessRejectReason::UnsupportedMessageType
    );
    assert!(msg.get_u64(REF_SEQ_NUM).is_none());
    assert!(msg.get(TEXT).is_none());
}

#[test]
fn test_write_business_reject_with_all_fields() {
    let reject = BusinessReject::new("8", BusinessRejectReason::NotAuthorized)
        .ref_seq_num(456)
        .text("Not authorized for execution reports");

    let mut msg = Message::new("FIX.4.4", "j");
    reject.write(&mut msg);

    assert_eq!(text(&msg, REF_MSG_TYPE).unwrap(), "8");
    assert_eq!(business_reason(&msg).unwrap(), BusinessRejectReason::NotAuthorized);
    assert_eq!(msg.get_u64(REF_SEQ_NUM).unwrap(), 456);
    assert_eq!(text(&msg, TEXT).unwrap(), "Not authorized for execution reports");
}

#[test]
fn business_reject_test_round_trip_serialization() {
    let original = BusinessReject::new("D", BusinessRejectReason::ConditionallyRequiredFieldMissing)
        .ref_seq_num(789)
        .text("ClOrdID is required");

    let mut msg = Message::new("FIX.4.4", "j");
    original.write(&mut msg);

    let parsed = BusinessReject::parse(&msg).unwrap();

    assert_eq!(parsed.ref_msg_type, original.ref_msg_type);
    assert_eq!(parsed.reason, original.reason);
    assert_eq!(parsed.ref_seq_num, original.ref_seq_num);
    assert_eq!(parsed.text, original.text);
}

#[test]
fn business_reject_test_round_trip_with_minimal_fields() {
    let original = BusinessReject::new("0", BusinessRejectReason::Other);

    let mut msg = Message::new("FIX.4.4", "j");
    original.write(&mut msg);

    let parsed = BusinessReject::parse(&msg).unwrap();

    assert_eq!(parsed.ref_msg_type, original.ref_msg_type);
    assert_eq!(parsed.reason, original.reason);
    assert_eq!(parsed.ref_seq_num, original.ref_seq_num);
    assert_eq!(parsed.text, original.text);
}

#[test]
fn test_message_type() {
    let reject = BusinessReject::new("D", BusinessRejectReason::Other);
    assert_eq!(reject.message_type(), "j");
}

#[test]
fn test_all_reject_reasons_round_trip() {
    let reasons = [
        BusinessRejectReason::Other,
        BusinessRejectReason::UnknownId,
        BusinessRejectReason::UnknownSecurity,
        BusinessRejectReason::UnsupportedMessageType,
        BusinessRejectReason::ApplicationNotAvailable,
        BusinessRejectReason::ConditionallyRequiredFieldMissing,
        BusinessRejectReason::NotAuthorized,
        BusinessRejectReason::DeliverToFirmNotAvailable,
    ];

    for reason in reasons {
        let reject = BusinessReject::new("D", reason);
        let mut msg = Message::new("FIX.4.4", "j");
        reject.write(&mut msg);

        let parsed = BusinessReject::parse(&msg).unwrap();
        assert_eq!(parsed.reason, reason, "Round-trip failed for {reason:?}");
    }
}

#[test]
fn business_reject_with_unknown_reason_does_not_parse() {
    let mut msg = Message::new("FIX.4.4", "j");
    msg.set(REF_MSG_TYPE, b"D".to_vec());
    msg.set(BUSINESS_REJECT_REASON, b"42".to_vec());
    assert!(BusinessReject::parse(&msg).is_none());
}

fn now_ts() -> Vec<u8> {
    chrono::Utc::now()
        .format("%Y%m%d-%H:%M:%S%.3f")
        .to_string()
        .into_bytes()
}

fn build_test_message() -> Message {
    let mut msg = Message::new("FIX.4.4", "D");
    msg.header_set(SENDER_COMP_ID, b"SND".to_vec());
    msg.header_set(TARGET_COMP_ID, b"TGT".to_vec());
    msg.header_set(MSG_SEQ_NUM, b"1".to_vec());
    msg.header_set(SENDING_TIME, now_ts());
    msg
}

#[test]
fn first_resend_sets_poss_dup_and_orig_sending_time() {
    let mut msg = build_test_message();
    prepare_message_for_resend(&mut msg).unwrap();
    assert!(
        msg.header_bool(POSS_DUP_FLAG).unwrap(),
        "PossDupFlag must be set on first resend"
    );
    // Presence checks only (values may be equal or different depending on clock granularity)
    assert!(
        msg.header_get(ORIG_SENDING_TIME).is_some(),
        "OrigSendingTime must be present"
    );
    assert!(
        msg.header_get(SENDING_TIME).is_some(),
        "SendingTime must be present after resend"
    );
}

#[test]
fn subsequent_resend_preserves_orig_sending_time() {
    let mut msg = build_test_message();
    prepare_message_for_resend(&mut msg).unwrap();
    let orig_first = msg.header_get(ORIG_SENDING_TIME).unwrap().clone();
    let sending_first = msg.header_get(SENDING_TIME).unwrap().clone();
    assert!(
        msg.header_bool(POSS_DUP_FLAG).unwrap(),
        "PossDupFlag must be set after first resend"
    );

    // Second resend
    prepare_message_for_resend(&mut msg).unwrap();
    let orig_second = msg.header_get(ORIG_SENDING_TIME).unwrap().clone();
    let sending_second = msg.header_get(SENDING_TIME).unwrap().clone();
    assert!(
        msg.header_bool(POSS_DUP_FLAG).unwrap(),
        "PossDupFlag must remain set on subsequent resends"
    );

    assert_eq!(
        orig_first, orig_second,
        "OrigSendingTime must remain constant across resends"
    );
    assert!(
        sending_first >= orig_first,
        "First resend SendingTime must be >= original"
    );
    assert!(
        sending_second >= sending_first,
        "Second resend SendingTime must be >= first resend SendingTime"
    );
}

#[test]
fn resend_without_sending_time_is_refused() {
    let mut msg = Message::new("FIX.4.4", "D");
    assert_eq!(
        prepare_message_for_resend(&mut msg),
        Err("Missing SendingTime (52)")
    );
}

#[test]
fn resend_with_unreadable_sending_time_is_refused() {
    let mut msg = Message::new("FIX.4.4", "D");
    msg.header_set(SENDING_TIME, b"yesterday".to_vec());
    assert_eq!(
        prepare_message_for_resend(&mut msg),
        Err("Invalid original SendingTime format")
    );
}

#[test]
fn test_update_begin_seq_number_too_low() {
    let mut state = AwaitingResendState::new(1, 5);
    let result = state.update(0, 5);
    assert!(matches!(
        result,
        AwaitingResendTransitionOutcome::BeginSeqNumberTooLow
    ));
}

#[test]
fn test_update_attempts_exceeded() {
    let mut state = AwaitingResendState::new(1, 5);

    // we can update twice more without hitting the limit
    let result = state.update(1, 5);
    assert!(matches!(result, AwaitingResendTransitionOutcome::Success));
    let result = state.update(1, 5);
    assert!(matches!(result, AwaitingResendTransitionOutcome::Success));

    // the fourth time with the same begin seq number, we get an error
    let result = state.update(1, 5);
    assert!(matches!(
        result,
        AwaitingResendTransitionOutcome::AttemptsExceeded
    ));
}

#[test]
fn update_with_later_gap_restarts_the_attempts() {
    let mut state = AwaitingResendState::new(1, 5);
    assert_eq!(state.update(1, 5), AwaitingResendTransitionOutcome::Success);
    assert_eq!(state.resend_attempts, 2);
    assert_eq!(state.update(3, 9), AwaitingResendTransitionOutcome::Success);
    assert_eq!(state.resend_attempts, 1);
    assert_eq!(state.begin_seq_number, 3);
    assert_eq!(state.end_seq_number, 9);
}
