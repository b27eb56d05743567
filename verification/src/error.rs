//! Errors of message verification and of the schedule configuration.
use vstd::prelude::*;

use crate::decimal::{append_decimal, dec_chars};

verus! {

/// Why a received message failed verification.
#[derive(Debug, Clone, PartialEq, Eq)]
pub enum MessageVerificationError {
    /// The message's sequence number is lower than we expected.
    SeqNumberTooLow { expected: u64, actual: u64 },
    /// The message's sequence number is higher than we expected.
    SeqNumberTooHigh { expected: u64, actual: u64 },
    /// The begin string is different from our expectations.
    IncorrectBeginString(String),
    /// The comp ID is different from our expectations.
    IncorrectCompId(String),
}

/// The text of a sequence-number error: what we expected and what arrived.
pub open spec fn seq_number_text(kind: Seq<char>, expected: u64, actual: u64) -> Seq<char> {
    "sequence number too "@ + kind + " (expected "@ + dec_chars(expected as nat) + ", actual "@
        + dec_chars(actual as nat) + ")"@
}

impl MessageVerificationError {
    /// A description of the failure.
    pub fn describe(&self) -> (r: String)
        ensures
            match self {
                MessageVerificationError::SeqNumberTooLow { expected, actual } => r@ == seq_number_text(
                    "low"@,
                    *expected,
                    *actual,
                ),
                MessageVerificationError::SeqNumberTooHigh { expected, actual } => r@
                    == seq_number_text("high"@, *expected, *actual),
                MessageVerificationError::IncorrectBeginString(b) => r@ == "incorrect begin string "@
                    + b@,
                MessageVerificationError::IncorrectCompId(c) => r@ == "incorrect comp id "@ + c@,
            },
    {
        match self {
            MessageVerificationError::SeqNumberTooLow { expected, actual } => {
                seq_number_message("low", *expected, *actual)
            },
            MessageVerificationError::SeqNumberTooHigh { expected, actual } => {
                seq_number_message("high", *expected, *actual)
            },
            MessageVerificationError::IncorrectBeginString(b) => String::from_str(
                "incorrect begin string ",
            ).concat(b.as_str()),
            MessageVerificationError::IncorrectCompId(c) => String::from_str(
                "incorrect comp id ",
            ).concat(c.as_str()),
        }
    }
}

fn seq_number_message(kind: &str, expected: u64, actual: u64) -> (r: String)
    ensures
        r@ == seq_number_text(kind@, expected, actual),
{
    let mut s = String::from_str("sequence number too ");
    s.append(kind);
    s.append(" (expected ");
    append_decimal(&mut s, expected);
    s.append(", actual ");
    append_decimal(&mut s, actual);
    s.append(")");
    s
}

/// Why a schedule configuration was refused.
#[derive(Debug, Clone, PartialEq, Eq)]
pub enum SessionError {
    /// The schedule configuration is invalid; the text says why.
    InvalidSchedule(String),
}

impl SessionError {
    /// A description of the failure.
    pub fn describe(&self) -> (r: String)
        ensures
            match self {
                SessionError::InvalidSchedule(m) => r@ == "Schedule configuration is invalid: "@ + m@,
            },
    {
        match self {
            SessionError::InvalidSchedule(m) => String::from_str(
                "Schedule configuration is invalid: ",
            ).concat(m.as_str()),
        }
    }
}

} // verus!
