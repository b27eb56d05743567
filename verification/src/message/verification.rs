//! Verification of inbound messages against the session configuration and
//! the expected sequence number.
use vstd::prelude::*;
use vstd::utf8::{decode_utf8, valid_utf8};

use crate::timestamp::fix_timestamp_value;
use crate::config::SessionConfig;
use crate::message::verification_issue::{
    CompIdType, MessageError, MessageErrorView, VerificationIssue, VerificationIssueView,
};
use crate::message::{
    field_bool, field_u64, get_field, lookup, Message, MessageView, MSG_SEQ_NUM,
    ORIG_SENDING_TIME, POSS_DUP_FLAG, SENDER_COMP_ID, SENDING_TIME, TARGET_COMP_ID,
};

verus! {

/// Maximum allowed difference in seconds between SendingTime and the current time.
pub const SENDING_TIME_THRESHOLD: u64 = 120;

/// The text a field reads as: its UTF-8 decoding, or empty where it is absent
/// or not valid UTF-8.
pub open spec fn text_or_empty(v: Option<Seq<u8>>) -> Seq<char> {
    match v {
        Some(b) => if valid_utf8(b) {
            decode_utf8(b)
        } else {
            seq![]
        },
        None => seq![],
    }
}

/// The message's MsgSeqNum, 0 where it is missing or not a number.
pub open spec fn seq_num_or_zero(m: MessageView) -> u64 {
    match field_u64(m.header, MSG_SEQ_NUM) {
        Some(n) => n,
        None => 0,
    }
}

/// Whether the message is marked as a possible duplicate.
pub open spec fn is_possible_duplicate(m: MessageView) -> bool {
    field_bool(m.header, POSS_DUP_FLAG) == Some(true)
}

pub open spec fn abs_diff(a: i64, b: i64) -> nat {
    if a >= b {
        (a - b) as nat
    } else {
        (b - a) as nat
    }
}

/// Whether a SendingTime is too far from the current time: more than the
/// threshold in whole seconds (both in milliseconds since the epoch).
pub open spec fn sending_time_inaccurate(sending: i64, now: i64) -> bool {
    abs_diff(sending, now) / 1000 > SENDING_TIME_THRESHOLD
}

/// The outcome of the sequence number check: a gap when the peer is ahead
/// (if checked), too low when it is behind (if checked).
pub open spec fn spec_check_sequence_number(
    actual: u64,
    expected: u64,
    possible_duplicate: bool,
    check_too_high: bool,
    check_too_low: bool,
) -> Option<VerificationIssueView> {
    if actual > expected && check_too_high {
        Some(VerificationIssueView::SequenceGap { expected, actual })
    } else if actual < expected && check_too_low {
        Some(
            VerificationIssueView::InvalidMessage(
                MessageErrorView::SeqNumberTooLow { expected, actual, possible_duplicate },
            ),
        )
    } else {
        None
    }
}

/// The outcome of verifying a message, `None` where it passes. The checks run in
/// order: BeginString, SenderCompID (must be our TargetCompID), TargetCompID
/// (must be our SenderCompID), SendingTime, OrigSendingTime for possible
/// duplicates, then the sequence number where one is expected.
pub open spec fn spec_verify_message(
    m: MessageView,
    begin_string: Seq<char>,
    sender_comp_id: Seq<char>,
    target_comp_id: Seq<char>,
    expected_seq_number: Option<u64>,
    check_too_high: bool,
    check_too_low: bool,
    now: i64,
) -> Option<VerificationIssueView> {
    let seq_num = seq_num_or_zero(m);
    let begin = text_or_empty(Some(m.begin_string));
    let their_sender = text_or_empty(lookup(m.header, SENDER_COMP_ID));
    let their_target = text_or_empty(lookup(m.header, TARGET_COMP_ID));
    if begin != begin_string {
        Some(VerificationIssueView::InvalidMessage(MessageErrorView::IncorrectBeginString(begin)))
    } else if their_sender != target_comp_id {
        Some(
            VerificationIssueView::InvalidMessage(
                MessageErrorView::IncorrectCompId {
                    comp_id: their_sender,
                    comp_id_type: CompIdType::Sender,
                    msg_seq_num: seq_num,
                },
            ),
        )
    } else if their_target != sender_comp_id {
        Some(
            VerificationIssueView::InvalidMessage(
                MessageErrorView::IncorrectCompId {
                    comp_id: their_target,
                    comp_id_type: CompIdType::Target,
                    msg_seq_num: seq_num,
                },
            ),
        )
    } else {
        let sending = match lookup(m.header, SENDING_TIME) {
            Some(t) => fix_timestamp_value(t),
            None => None,
        };
        match sending {
            None => Some(
                VerificationIssueView::InvalidMessage(
                    MessageErrorView::SendingTimeMissing { msg_seq_num: seq_num },
                ),
            ),
            Some(st) => if sending_time_inaccurate(st, now) {
                Some(
                    VerificationIssueView::InvalidMessage(
                        MessageErrorView::SendingTimeAccuracyIssue { msg_seq_num: seq_num },
                    ),
                )
            } else {
                let orig = match lookup(m.header, ORIG_SENDING_TIME) {
                    Some(t) => fix_timestamp_value(t),
                    None => None,
                };
                if is_possible_duplicate(m) && orig is None {
                    Some(
                        VerificationIssueView::InvalidMessage(
                            MessageErrorView::OriginalSendingTimeMissing { msg_seq_num: seq_num },
                        ),
                    )
                } else if is_possible_duplicate(m) && orig->0 > st {
                    Some(
                        VerificationIssueView::InvalidMessage(
                            MessageErrorView::OriginalSendingTimeAfterSendingTime {
                                msg_seq_num: seq_num,
                                original_sending_time: orig->0,
                                sending_time: st,
                            },
                        ),
                    )
                } else {
                    match expected_seq_number {
                        Some(e) => spec_check_sequence_number(
                            seq_num,
                            e,
                            is_possible_duplicate(m),
                            check_too_high,
                            check_too_low,
                        ),
                        None => None,
                    }
                }
            },
        }
    }
}

pub open spec fn issue_view(r: Result<(), VerificationIssue>) -> Option<VerificationIssueView> {
    match r {
        Ok(_) => None,
        Err(e) => Some(e@),
    }
}

pub open spec fn error_view(r: Result<(), MessageError>) -> Option<MessageErrorView> {
    match r {
        Ok(_) => None,
        Err(e) => Some(e@),
    }
}

/// The text of a field: its UTF-8 decoding, or empty.
fn field_text_or_empty(v: Option<&Vec<u8>>) -> (r: String)
    ensures
        r@ == text_or_empty(
            match v {
                Some(b) => Some(b@),
                None => None,
            },
        ),
{
    match v {
        Some(b) => match crate::clock::utf8_text(b.as_slice()) {
            Some(s) => s,
            None => String::new(),
        },
        None => String::new(),
    }
}

fn check_begin_string(message: &Message, expected_begin_string: &String) -> (r: Result<(), MessageError>)
    ensures
        error_view(r) == if text_or_empty(Some(message@.begin_string)) != expected_begin_string@ {
            Some(MessageErrorView::IncorrectBeginString(text_or_empty(Some(message@.begin_string))))
        } else {
            None
        },
{
    let begin_string = field_text_or_empty(Some(&message.begin_string));
    if begin_string != *expected_begin_string {
        return Err(MessageError::IncorrectBeginString(begin_string));
    }
    Ok(())
}

fn check_comp_id(
    message: &Message,
    tag: u32,
    comp_id_type: CompIdType,
    msg_seq_num: u64,
    expected_comp_id: &String,
) -> (r: Result<(), MessageError>)
    ensures
        error_view(r) == if text_or_empty(lookup(message@.header, tag)) != expected_comp_id@ {
            Some(
                MessageErrorView::IncorrectCompId {
                    comp_id: text_or_empty(lookup(message@.header, tag)),
                    comp_id_type,
                    msg_seq_num,
                },
            )
        } else {
            None
        },
{
    let actual = field_text_or_empty(message.header_get(tag));
    if actual != *expected_comp_id {
        return Err(MessageError::IncorrectCompId { comp_id: actual, comp_id_type, msg_seq_num });
    }
    Ok(())
}

/// Reads a timestamp field, in milliseconds since the epoch.
fn header_timestamp(message: &Message, tag: u32) -> (r: Option<i64>)
    ensures
        r == match lookup(message@.header, tag) {
            Some(t) => fix_timestamp_value(t),
            None => None,
        },
{
    match message.header_get(tag) {
        Some(t) => crate::timestamp::parse_timestamp_millis(t.as_slice()),
        None => None,
    }
}

/// Whether `sending` is too far from `now`.
pub fn is_sending_time_inaccurate(sending: i64, now: i64) -> (r: bool)
    ensures
        r == sending_time_inaccurate(sending, now),
{
    let d: i128 = sending as i128 - now as i128;
    let ad: i128 = if d < 0 {
        -d
    } else {
        d
    };
    ad / 1000 > SENDING_TIME_THRESHOLD as i128
}

/// Compares the peer's sequence number with the one we expect.
pub fn check_sequence_number(
    actual_seq_number: u64,
    expected_seq_number: u64,
    possible_duplicate: bool,
    check_too_high: bool,
    check_too_low: bool,
) -> (r: Result<(), VerificationIssue>)
    ensures
        issue_view(r) == spec_check_sequence_number(
            actual_seq_number,
            expected_seq_number,
            possible_duplicate,
            check_too_high,
            check_too_low,
        ),
{
    if actual_seq_number > expected_seq_number && check_too_high {
        return Err(
            VerificationIssue::SequenceGap {
                expected: expected_seq_number,
                actual: actual_seq_number,
            },
        );
    }
    if actual_seq_number < expected_seq_number && check_too_low {
        return Err(
            VerificationIssue::InvalidMessage(
                MessageError::SeqNumberTooLow {
                    expected: expected_seq_number,
                    actual: actual_seq_number,
                    possible_duplicate,
                },
            ),
        );
    }
    Ok(())
}

/// Verifies `message` with `now` (milliseconds since the epoch) as the current time.
pub fn verify_message_at(
    message: &Message,
    config: &SessionConfig,
    expected_seq_number: Option<u64>,
    check_too_high: bool,
    check_too_low: bool,
    now: i64,
) -> (r: Result<(), VerificationIssue>)
    ensures
        issue_view(r) == spec_verify_message(
            message@,
            config.begin_string@,
            config.sender_comp_id@,
            config.target_comp_id@,
            expected_seq_number,
            check_too_high,
            check_too_low,
            now,
        ),
{
    match check_begin_string(message, &config.begin_string) {
        Err(e) => return Err(VerificationIssue::InvalidMessage(e)),
        Ok(()) => {},
    }
    let actual_seq_number = match message.header_u64(MSG_SEQ_NUM) {
        Some(n) => n,
        None => 0,
    };
    // our TargetCompId is the SenderCompId we expect from them, and vice versa
    match check_comp_id(
        message,
        SENDER_COMP_ID,
        CompIdType::Sender,
        actual_seq_number,
        &config.target_comp_id,
    ) {
        Err(e) => return Err(VerificationIssue::InvalidMessage(e)),
        Ok(()) => {},
    }
    match check_comp_id(
        message,
        TARGET_COMP_ID,
        CompIdType::Target,
        actual_seq_number,
        &config.sender_comp_id,
    ) {
        Err(e) => return Err(VerificationIssue::InvalidMessage(e)),
        Ok(()) => {},
    }
    let sending_time = match header_timestamp(message, SENDING_TIME) {
        Some(st) => st,
        None => return Err(
            VerificationIssue::InvalidMessage(
                MessageError::SendingTimeMissing { msg_seq_num: actual_seq_number },
            ),
        ),
    };
    if is_sending_time_inaccurate(sending_time, now) {
        return Err(
            VerificationIssue::InvalidMessage(
                MessageError::SendingTimeAccuracyIssue { msg_seq_num: actual_seq_number },
            ),
        );
    }
    let possible_duplicate = match message.header_bool(POSS_DUP_FLAG) {
        Some(b) => b,
        None => false,
    };
    if possible_duplicate {
        match header_timestamp(message, ORIG_SENDING_TIME) {
            None => return Err(
                VerificationIssue::InvalidMessage(
                    MessageError::OriginalSendingTimeMissing { msg_seq_num: actual_seq_number },
                ),
            ),
            Some(original_sending_time) => {
                if original_sending_time > sending_time {
                    return Err(
                        VerificationIssue::InvalidMessage(
                            MessageError::OriginalSendingTimeAfterSendingTime {
                                msg_seq_num: actual_seq_number,
                                original_sending_time,
                                sending_time,
                            },
                        ),
                    );
                }
            },
        }
    }
    match expected_seq_number {
        Some(expected) => check_sequence_number(
            actual_seq_number,
            expected,
            possible_duplicate,
            check_too_high,
            check_too_low,
        ),
        None => Ok(()),
    }
}

/// Verifies `message` against the session configuration, the expected sequence
/// number (where one is given) and the current time.
pub fn verify_message(
    message: &Message,
    config: &SessionConfig,
    expected_seq_number: Option<u64>,
    check_too_high: bool,
    check_too_low: bool,
) -> (r: Result<(), VerificationIssue>)
    ensures
        exists|now: i64|
            issue_view(r) == #[trigger] spec_verify_message(
                message@,
                config.begin_string@,
                config.sender_comp_id@,
                config.target_comp_id@,
                expected_seq_number,
                check_too_high,
                check_too_low,
                now,
            ),
{
    let now = crate::clock::utc_now_millis();
    verify_message_at(message, config, expected_seq_number, check_too_high, check_too_low, now)
}

} // verus!
