//! What verifying an inbound message can find.
use vstd::prelude::*;

verus! {

/// Which comp ID of a message was wrong.
#[derive(Clone, Copy, Debug, PartialEq, Eq, Structural)]
pub enum CompIdType {
    Sender,
    Target,
}

/// A problem with the message itself, which has a fixed response whatever the
/// session state.
#[derive(Clone, Debug, PartialEq, Eq)]
pub enum MessageError {
    /// The message's sequence number is lower than we expected.
    SeqNumberTooLow { expected: u64, actual: u64, possible_duplicate: bool },
    /// The begin string is different from our expectations.
    IncorrectBeginString(String),
    /// The comp ID is different from our expectations.
    IncorrectCompId { comp_id: String, comp_id_type: CompIdType, msg_seq_num: u64 },
    /// The sending time is not within the latency threshold.
    SendingTimeAccuracyIssue { msg_seq_num: u64 },
    /// The sending time field is missing from the message.
    SendingTimeMissing { msg_seq_num: u64 },
    /// Original sending time is not provided despite PossDupFlag being set.
    OriginalSendingTimeMissing { msg_seq_num: u64 },
    /// The original sending time (milliseconds since the epoch) is after the
    /// sending time of the message.
    OriginalSendingTimeAfterSendingTime {
        msg_seq_num: u64,
        original_sending_time: i64,
        sending_time: i64,
    },
}

/// The result of verifying a message that is not `Ok`: a sequence gap, which
/// each session state answers in its own way, or a problem with the message.
#[derive(Clone, Debug, PartialEq, Eq)]
pub enum VerificationIssue {
    /// The counterparty is ahead of us: we need to request a resend.
    SequenceGap { expected: u64, actual: u64 },
    /// The message has an actual problem that needs to be handled.
    InvalidMessage(MessageError),
}

/// `MessageError` with its texts as character sequences.
pub enum MessageErrorView {
    SeqNumberTooLow { expected: u64, actual: u64, possible_duplicate: bool },
    IncorrectBeginString(Seq<char>),
    IncorrectCompId { comp_id: Seq<char>, comp_id_type: CompIdType, msg_seq_num: u64 },
    SendingTimeAccuracyIssue { msg_seq_num: u64 },
    SendingTimeMissing { msg_seq_num: u64 },
    OriginalSendingTimeMissing { msg_seq_num: u64 },
    OriginalSendingTimeAfterSendingTime {
        msg_seq_num: u64,
        original_sending_time: i64,
        sending_time: i64,
    },
}

pub enum VerificationIssueView {
    SequenceGap { expected: u64, actual: u64 },
    InvalidMessage(MessageErrorView),
}

impl View for MessageError {
    type V = MessageErrorView;

    open spec fn view(&self) -> MessageErrorView {
        match *self {
            MessageError::SeqNumberTooLow { expected, actual, possible_duplicate } =>
                MessageErrorView::SeqNumberTooLow { expected, actual, possible_duplicate },
            MessageError::IncorrectBeginString(s) => MessageErrorView::IncorrectBeginString(s@),
            MessageError::IncorrectCompId { comp_id, comp_id_type, msg_seq_num } =>
                MessageErrorView::IncorrectCompId { comp_id: comp_id@, comp_id_type, msg_seq_num },
            MessageError::SendingTimeAccuracyIssue { msg_seq_num } =>
                MessageErrorView::SendingTimeAccuracyIssue { msg_seq_num },
            MessageError::SendingTimeMissing { msg_seq_num } =>
                MessageErrorView::SendingTimeMissing { msg_seq_num },
            MessageError::OriginalSendingTimeMissing { msg_seq_num } =>
                MessageErrorView::OriginalSendingTimeMissing { msg_seq_num },
            MessageError::OriginalSendingTimeAfterSendingTime {
                msg_seq_num,
                original_sending_time,
                sending_time,
            } => MessageErrorView::OriginalSendingTimeAfterSendingTime {
                msg_seq_num,
                original_sending_time,
                sending_time,
            },
        }
    }
}

impl View for VerificationIssue {
    type V = VerificationIssueView;

    open spec fn view(&self) -> VerificationIssueView {
        match *self {
            VerificationIssue::SequenceGap { expected, actual } =>
                VerificationIssueView::SequenceGap { expected, actual },
            VerificationIssue::InvalidMessage(e) => VerificationIssueView::InvalidMessage(e@),
        }
    }
}

/// What a data dictionary finds wrong with a message that otherwise reads.
#[derive(Clone, Debug, PartialEq, Eq)]
pub enum InvalidReason {
    /// A field the message type does not define, by its tag.
    InvalidField(u32),
    /// A repeating group the message type does not define, by its tag.
    InvalidGroup(u32),
    /// A component that is not valid, by its name.
    InvalidComponent(String),
    /// A message type the dictionary does not know.
    InvalidMsgType(String),
    /// A field of a repeating group out of its order, by its tag.
    InvalidOrderInGroup { tag: u32 },
}

} // verus!
