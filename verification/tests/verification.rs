use chrono::Duration;
use hotfix::config::SessionConfig;
use hotfix::message::verification::verify_message;
use hotfix::message::verification_issue::{CompIdType, MessageError, VerificationIssue};
use hotfix::message::{
    Message, MSG_SEQ_NUM, ORIG_SENDING_TIME, POSS_DUP_FLAG, SENDER_COMP_ID, SENDING_TIME,
    TARGET_COMP_ID,
};

/// A value that can be written into a field.
trait FieldValue {
    fn bytes(self) -> Vec<u8>;
}

impl FieldValue for &str {
    fn bytes(self) -> Vec<u8> {
        self.as_bytes().to_vec()
    }
}

impl FieldValue for u64 {
    fn bytes(self) -> Vec<u8> {
        self.to_string().into_bytes()
    }
}

impl FieldValue for bool {
    fn bytes(self) -> Vec<u8> {
        if self { b"Y".to_vec() } else { b"N".to_vec() }
    }
}

impl FieldValue for Vec<u8> {
    fn bytes(self) -> Vec<u8> {
        self
    }
}

/// Sets a header field.
fn hset(msg: &mut Message, tag: u32, value: impl FieldValue) {
    msg.header_set(tag, value.bytes());
}

/// The FIX timestamp text of an instant.
fn ts(dt: chrono::DateTime<chrono::Utc>) -> Vec<u8> {
    dt.format("%Y%m%d-%H:%M:%S%.3f").to_string().into_bytes()
}

/// The FIX timestamp text of now.
fn now_ts() -> Vec<u8> {
    ts(chrono::Utc::now())
}

fn build_test_config() -> SessionConfig {
    SessionConfig {
        begin_string: "FIX.4.4".to_string(),
        sender_comp_id: "SENDER".to_string(),
        target_comp_id: "TARGET".to_string(),
        data_dictionary_path: None,
        connection_host: "localhost".to_string(),
        connection_port: 9999,
        tls_config: None,
        heartbeat_interval: 0,
        logon_timeout: 0,
        logout_timeout: 0,
        reconnect_interval: 0,
        reset_on_logon: false,
        schedule: None,
    }
}

fn build_test_message(
    begin_string: &str,
    sender_comp_id: &str,
    target_comp_id: &str,
    seq_num: u64,
) -> Message {
    let mut msg = Message::new(begin_string, "D");
    hset(&mut msg, SENDER_COMP_ID, sender_comp_id);
    hset(&mut msg, TARGET_COMP_ID, target_comp_id);
    hset(&mut msg, MSG_SEQ_NUM, seq_num);
    hset(&mut msg, SENDING_TIME, now_ts());
    msg
}


#[test]
fn test_verify_message_happy_path() {
    let config = build_test_config();
    let msg = build_test_message("FIX.4.4", "TARGET", "SENDER", 42);

    let result = verify_message(&msg, &config, Some(42), true, true);

    assert!(result.is_ok());
}

#[test]
fn test_incorrect_begin_string() {
    let config = build_test_config();
    let msg = build_test_message("FIX.4.2", "TARGET", "SENDER", 42);

    let result = verify_message(&msg, &config, Some(42), true, true);

    assert!(matches!(
        result,
        Err(VerificationIssue::InvalidMessage(
            MessageError::IncorrectBeginString(_)
        ))
    ));
    if let Err(VerificationIssue::InvalidMessage(MessageError::IncorrectBeginString(
        begin_string,
    ))) = result
    {
        assert_eq!(begin_string, "FIX.4.2");
    }
}

#[test]
fn test_incorrect_sender_comp_id() {
    let config = build_test_config();
    let msg = build_test_message("FIX.4.4", "WRONG_SENDER", "SENDER", 42);

    let result = verify_message(&msg, &config, Some(42), true, true);

    assert!(matches!(
        result,
        Err(VerificationIssue::InvalidMessage(
            MessageError::IncorrectCompId {
                comp_id_type: CompIdType::Sender,
                ..
            }
        ))
    ));
    if let Err(VerificationIssue::InvalidMessage(MessageError::IncorrectCompId {
        comp_id,
        comp_id_type,
        msg_seq_num,
    })) = result
    {
        assert_eq!(comp_id, "WRONG_SENDER");
        assert!(matches!(comp_id_type, CompIdType::Sender));
        assert_eq!(msg_seq_num, 42);
    }
}

#[test]
fn test_incorrect_target_comp_id() {
    let config = build_test_config();
    let msg = build_test_message("FIX.4.4", "TARGET", "WRONG_TARGET", 42);

    let result = verify_message(&msg, &config, Some(42), true, true);

    assert!(matches!(
        result,
        Err(VerificationIssue::InvalidMessage(
            MessageError::IncorrectCompId {
                comp_id_type: CompIdType::Target,
                ..
            }
        ))
    ));
    if let Err(VerificationIssue::InvalidMessage(MessageError::IncorrectCompId {
        comp_id,
        comp_id_type,
        msg_seq_num,
    })) = result
    {
        assert_eq!(comp_id, "WRONG_TARGET");
        assert!(matches!(comp_id_type, CompIdType::Target));
        assert_eq!(msg_seq_num, 42);
    }
}

#[test]
fn test_seq_number_too_low() {
    let config = build_test_config();
    let msg = build_test_message("FIX.4.4", "TARGET", "SENDER", 40);

    let result = verify_message(&msg, &config, Some(42), true, true);

    assert!(matches!(
        result,
        Err(VerificationIssue::InvalidMessage(
            MessageError::SeqNumberTooLow { .. }
        ))
    ));
    if let Err(VerificationIssue::InvalidMessage(MessageError::SeqNumberTooLow {
        expected,
        actual,
        possible_duplicate,
    })) = result
    {
        assert_eq!(expected, 42);
        assert_eq!(actual, 40);
        assert!(!possible_duplicate);
    }
}

#[test]
fn test_seq_number_too_low_with_poss_dup_flag() {
    let config = build_test_config();
    let mut msg = build_test_message("FIX.4.4", "TARGET", "SENDER", 40);
    let sending_time = msg.header_get(SENDING_TIME).unwrap().clone();
    hset(&mut msg, POSS_DUP_FLAG, true);
    hset(&mut msg, ORIG_SENDING_TIME, sending_time);

    let result = verify_message(&msg, &config, Some(42), true, true);

    assert!(matches!(
        result,
        Err(VerificationIssue::InvalidMessage(
            MessageError::SeqNumberTooLow { .. }
        ))
    ));
    if let Err(VerificationIssue::InvalidMessage(MessageError::SeqNumberTooLow {
        expected,
        actual,
        possible_duplicate,
    })) = result
    {
        assert_eq!(expected, 42);
        assert_eq!(actual, 40);
        assert!(possible_duplicate);
    }
}

#[test]
fn test_seq_number_too_high() {
    let config = build_test_config();
    let msg = build_test_message("FIX.4.4", "TARGET", "SENDER", 50);

    let result = verify_message(&msg, &config, Some(42), true, true);

    assert!(matches!(result, Err(VerificationIssue::SequenceGap { .. })));
    if let Err(VerificationIssue::SequenceGap { expected, actual }) = result {
        assert_eq!(expected, 42);
        assert_eq!(actual, 50);
    }
}

#[test]
fn test_poss_dup_flag_missing_orig_sending_time() {
    let config = build_test_config();
    let mut msg = build_test_message("FIX.4.4", "TARGET", "SENDER", 42);
    hset(&mut msg, POSS_DUP_FLAG, true);
    // Don't set OrigSendingTime

    let result = verify_message(&msg, &config, Some(42), true, true);

    assert!(matches!(
        result,
        Err(VerificationIssue::InvalidMessage(
            MessageError::OriginalSendingTimeMissing { .. }
        ))
    ));
    if let Err(VerificationIssue::InvalidMessage(MessageError::OriginalSendingTimeMissing {
        msg_seq_num,
    })) = result
    {
        assert_eq!(msg_seq_num, 42);
    }
}

#[test]
fn test_poss_dup_flag_with_valid_orig_sending_time() {
    let config = build_test_config();
    let mut msg = build_test_message("FIX.4.4", "TARGET", "SENDER", 42);

    let now = chrono::Utc::now();
    let orig_time = ts(now);
    let sending_time = ts(now + Duration::milliseconds(10));

    hset(&mut msg, POSS_DUP_FLAG, true);
    hset(&mut msg, ORIG_SENDING_TIME, orig_time);
    msg.header_pop(SENDING_TIME);
    hset(&mut msg, SENDING_TIME, sending_time);

    let result = verify_message(&msg, &config, Some(42), true, true);

    assert!(result.is_ok());
}

#[test]
fn test_orig_sending_time_after_sending_time() {
    let config = build_test_config();
    let mut msg = build_test_message("FIX.4.4", "TARGET", "SENDER", 42);

    let now = chrono::Utc::now();
    let sending_time = ts(now);
    let orig_time = ts(now + Duration::milliseconds(10));

    hset(&mut msg, POSS_DUP_FLAG, true);
    hset(&mut msg, ORIG_SENDING_TIME, orig_time);
    msg.header_pop(SENDING_TIME);
    hset(&mut msg, SENDING_TIME, sending_time);

    let result = verify_message(&msg, &config, Some(42), true, true);

    assert!(matches!(
        result,
        Err(VerificationIssue::InvalidMessage(
            MessageError::OriginalSendingTimeAfterSendingTime { .. }
        ))
    ));
    if let Err(VerificationIssue::InvalidMessage(
        MessageError::OriginalSendingTimeAfterSendingTime {
            msg_seq_num,
            original_sending_time,
            sending_time: st,
        },
    )) = result
    {
        assert_eq!(msg_seq_num, 42);
        assert!(original_sending_time > st);
    }
}

#[test]
fn test_poss_dup_flag_with_equal_timestamps() {
    let config = build_test_config();
    let mut msg = build_test_message("FIX.4.4", "TARGET", "SENDER", 42);

    let timestamp = now_ts();

    hset(&mut msg, POSS_DUP_FLAG, true);
    hset(&mut msg, ORIG_SENDING_TIME, timestamp.clone());
    msg.header_pop(SENDING_TIME);
    hset(&mut msg, SENDING_TIME, timestamp);

    let result = verify_message(&msg, &config, Some(42), true, true);

    // equal timestamps should be valid (orig <= sending)
    assert!(result.is_ok());
}

#[test]
fn test_missing_begin_string() {
    let config = build_test_config();
    let mut msg = Message::new("FIX.4.4", "D");
    hset(&mut msg, SENDER_COMP_ID, "TARGET");
    hset(&mut msg, TARGET_COMP_ID, "SENDER");
    hset(&mut msg, MSG_SEQ_NUM, 42u64);
    hset(&mut msg, SENDING_TIME, now_ts());

    // remove begin string, which is automatically added by `Message::new`
    msg.begin_string = Vec::new();

    let result = verify_message(&msg, &config, Some(42), true, true);

    assert!(matches!(
        result,
        Err(VerificationIssue::InvalidMessage(
            MessageError::IncorrectBeginString(_)
        ))
    ));
}

#[test]
fn test_missing_sender_comp_id() {
    let config = build_test_config();
    let mut msg = Message::new("FIX.4.4", "D");
    hset(&mut msg, TARGET_COMP_ID, "SENDER");
    hset(&mut msg, MSG_SEQ_NUM, 42u64);
    hset(&mut msg, SENDING_TIME, now_ts());

    let result = verify_message(&msg, &config, Some(42), true, true);

    assert!(matches!(
        result,
        Err(VerificationIssue::InvalidMessage(
            MessageError::IncorrectCompId {
                comp_id_type: CompIdType::Sender,
                ..
            }
        ))
    ));
}

#[test]
fn test_missing_target_comp_id() {
    let config = build_test_config();
    let mut msg = Message::new("FIX.4.4", "D");
    hset(&mut msg, SENDER_COMP_ID, "TARGET");
    hset(&mut msg, MSG_SEQ_NUM, 42u64);
    hset(&mut msg, SENDING_TIME, now_ts());

    let result = verify_message(&msg, &config, Some(42), true, true);

    assert!(matches!(
        result,
        Err(VerificationIssue::InvalidMessage(
            MessageError::IncorrectCompId {
                comp_id_type: CompIdType::Target,
                ..
            }
        ))
    ));
}

#[test]
fn test_missing_seq_number() {
    let config = build_test_config();
    let mut msg = Message::new("FIX.4.4", "D");
    hset(&mut msg, SENDER_COMP_ID, "TARGET");
    hset(&mut msg, TARGET_COMP_ID, "SENDER");
    hset(&mut msg, SENDING_TIME, now_ts());

    let result = verify_message(&msg, &config, Some(42), true, true);

    // missing seq num defaults to 0, which will be too low
    assert!(matches!(
        result,
        Err(VerificationIssue::InvalidMessage(
            MessageError::SeqNumberTooLow { .. }
        ))
    ));
}

#[test]
fn test_seq_number_zero_when_expecting_one() {
    let config = build_test_config();
    let msg = build_test_message("FIX.4.4", "TARGET", "SENDER", 0);

    let result = verify_message(&msg, &config, Some(1), true, true);

    assert!(matches!(
        result,
        Err(VerificationIssue::InvalidMessage(
            MessageError::SeqNumberTooLow { .. }
        ))
    ));
}

#[test]
fn test_first_message_with_seq_num_one() {
    let config = build_test_config();
    let msg = build_test_message("FIX.4.4", "TARGET", "SENDER", 1);

    let result = verify_message(&msg, &config, Some(1), true, true);

    assert!(result.is_ok());
}

#[test]
fn test_verification_order_begin_string_checked_first() {
    let config = build_test_config();
    // wrong begin string AND wrong seq num - begin string error should come first
    let msg = build_test_message("FIX.4.2", "TARGET", "SENDER", 100);

    let result = verify_message(&msg, &config, Some(42), true, true);

    assert!(matches!(
        result,
        Err(VerificationIssue::InvalidMessage(
            MessageError::IncorrectBeginString(_)
        ))
    ));
}

#[test]
fn test_verification_order_sender_comp_id_checked_before_target() {
    let config = build_test_config();
    // wrong sender and wrong target - sender error should come first
    let msg = build_test_message("FIX.4.4", "WRONG_SENDER", "WRONG_TARGET", 42);

    let result = verify_message(&msg, &config, Some(42), true, true);

    assert!(matches!(
        result,
        Err(VerificationIssue::InvalidMessage(
            MessageError::IncorrectCompId {
                comp_id_type: CompIdType::Sender,
                ..
            }
        ))
    ));
}

#[test]
fn test_missing_sending_time() {
    let config = build_test_config();
    let mut msg = Message::new("FIX.4.4", "D");
    hset(&mut msg, SENDER_COMP_ID, "TARGET");
    hset(&mut msg, TARGET_COMP_ID, "SENDER");
    hset(&mut msg, MSG_SEQ_NUM, 42u64);

    let result = verify_message(&msg, &config, Some(42), true, true);

    assert!(matches!(
        result,
        Err(VerificationIssue::InvalidMessage(
            MessageError::SendingTimeMissing { .. }
        ))
    ));
    if let Err(VerificationIssue::InvalidMessage(MessageError::SendingTimeMissing {
        msg_seq_num,
    })) = result
    {
        assert_eq!(msg_seq_num, 42);
    }
}

#[test]
fn test_sending_time_too_far_in_past() {

    let config = build_test_config();
    let mut msg = Message::new("FIX.4.4", "D");
    hset(&mut msg, SENDER_COMP_ID, "TARGET");
    hset(&mut msg, TARGET_COMP_ID, "SENDER");
    hset(&mut msg, MSG_SEQ_NUM, 42u64);

    // set sending time to 122 seconds in the past (beyond the 120 second threshold,
    // with margin to account for millisecond truncation in Timestamp)
    let now = chrono::Utc::now();
    let past_time = now - Duration::seconds(122);
    let past_timestamp = ts(past_time);
    hset(&mut msg, SENDING_TIME, past_timestamp);

    let result = verify_message(&msg, &config, Some(42), true, true);

    assert!(matches!(
        result,
        Err(VerificationIssue::InvalidMessage(
            MessageError::SendingTimeAccuracyIssue { .. }
        ))
    ));
    if let Err(VerificationIssue::InvalidMessage(MessageError::SendingTimeAccuracyIssue {
        msg_seq_num,
    })) = result
    {
        assert_eq!(msg_seq_num, 42);
    }
}

#[test]
fn test_sending_time_too_far_in_future() {

    let config = build_test_config();
    let mut msg = Message::new("FIX.4.4", "D");
    hset(&mut msg, SENDER_COMP_ID, "TARGET");
    hset(&mut msg, TARGET_COMP_ID, "SENDER");
    hset(&mut msg, MSG_SEQ_NUM, 42u64);

    // set sending time to 122 seconds in the future (beyond the 120 second threshold,
    // with margin to account for millisecond truncation in Timestamp)
    let now = chrono::Utc::now();
    let future_time = now + Duration::seconds(122);
    let future_timestamp = ts(future_time);
    hset(&mut msg, SENDING_TIME, future_timestamp);

    let result = verify_message(&msg, &config, Some(42), true, true);

    assert!(matches!(
        result,
        Err(VerificationIssue::InvalidMessage(
            MessageError::SendingTimeAccuracyIssue { .. }
        ))
    ));
    if let Err(VerificationIssue::InvalidMessage(MessageError::SendingTimeAccuracyIssue {
        msg_seq_num,
    })) = result
    {
        assert_eq!(msg_seq_num, 42);
    }
}

#[test]
fn test_sending_time_at_threshold_boundary() {

    let config = build_test_config();
    let mut msg = Message::new("FIX.4.4", "D");
    hset(&mut msg, SENDER_COMP_ID, "TARGET");
    hset(&mut msg, TARGET_COMP_ID, "SENDER");
    hset(&mut msg, MSG_SEQ_NUM, 42u64);

    // set sending time to exactly 120 seconds in the past (at the threshold)
    let now = chrono::Utc::now();
    let boundary_time = now - Duration::seconds(120);
    let boundary_timestamp = ts(boundary_time);
    hset(&mut msg, SENDING_TIME, boundary_timestamp);

    let result = verify_message(&msg, &config, Some(42), true, true);

    assert!(result.is_ok());
}

#[test]
fn test_sending_time_within_threshold() {

    let config = build_test_config();
    let mut msg = Message::new("FIX.4.4", "D");
    hset(&mut msg, SENDER_COMP_ID, "TARGET");
    hset(&mut msg, TARGET_COMP_ID, "SENDER");
    hset(&mut msg, MSG_SEQ_NUM, 42u64);

    // set sending time to 60 seconds in the past (within the threshold)
    let now = chrono::Utc::now();
    let valid_time = now - Duration::seconds(60);
    let valid_timestamp = ts(valid_time);
    hset(&mut msg, SENDING_TIME, valid_timestamp);

    let result = verify_message(&msg, &config, Some(42), true, true);

    assert!(result.is_ok());
}

#[test]
fn test_seq_number_too_high_skipped_when_check_too_high_false() {
    let config = build_test_config();
    let msg = build_test_message("FIX.4.4", "TARGET", "SENDER", 50);

    // With check_too_high=false, seq 50 > expected 42 should be OK
    let result = verify_message(&msg, &config, Some(42), false, true);

    assert!(result.is_ok());
}

#[test]
fn test_seq_number_too_low_skipped_when_check_too_low_false() {
    let config = build_test_config();
    let msg = build_test_message("FIX.4.4", "TARGET", "SENDER", 40);

    // With check_too_low=false, seq 40 < expected 42 should be OK
    let result = verify_message(&msg, &config, Some(42), true, false);

    assert!(result.is_ok());
}

#[test]
fn test_both_checks_disabled() {
    let config = build_test_config();
    // Seq number too high
    let msg_high = build_test_message("FIX.4.4", "TARGET", "SENDER", 50);
    assert!(verify_message(&msg_high, &config, Some(42), false, false).is_ok());

    // Seq number too low
    let msg_low = build_test_message("FIX.4.4", "TARGET", "SENDER", 40);
    assert!(verify_message(&msg_low, &config, Some(42), false, false).is_ok());

    // Seq number matches
    let msg_match = build_test_message("FIX.4.4", "TARGET", "SENDER", 42);
    assert!(verify_message(&msg_match, &config, Some(42), false, false).is_ok());
}

#[test]
fn test_check_too_high_true_still_catches_too_high() {
    let config = build_test_config();
    let msg = build_test_message("FIX.4.4", "TARGET", "SENDER", 50);

    let result = verify_message(&msg, &config, Some(42), true, false);

    assert!(matches!(result, Err(VerificationIssue::SequenceGap { .. })));
}

#[test]
fn test_check_too_low_true_still_catches_too_low() {
    let config = build_test_config();
    let msg = build_test_message("FIX.4.4", "TARGET", "SENDER", 40);

    let result = verify_message(&msg, &config, Some(42), false, true);

    assert!(matches!(
        result,
        Err(VerificationIssue::InvalidMessage(
            MessageError::SeqNumberTooLow { .. }
        ))
    ));
}

#[test]
fn test_non_seq_checks_still_applied_when_seq_checks_disabled() {
    let config = build_test_config();

    // Wrong sender comp ID should still be caught even with both seq checks disabled
    let msg = build_test_message("FIX.4.4", "WRONG_SENDER", "SENDER", 42);
    let result = verify_message(&msg, &config, Some(42), false, false);
    assert!(matches!(
        result,
        Err(VerificationIssue::InvalidMessage(
            MessageError::IncorrectCompId { .. }
        ))
    ));

    // Wrong begin string should still be caught
    let msg = build_test_message("FIX.4.2", "TARGET", "SENDER", 42);
    let result = verify_message(&msg, &config, Some(42), false, false);
    assert!(matches!(
        result,
        Err(VerificationIssue::InvalidMessage(
            MessageError::IncorrectBeginString(_)
        ))
    ));
}

