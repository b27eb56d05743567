//! Reject (35=3), the session-level reject.
use vstd::prelude::*;
use vstd::utf8::encode_utf8;

use crate::decimal::{dec_text, format_u64, str_bytes};
use crate::message::business_reject::text_of;
use crate::message::{
    field_u64, lemma_lookup_set, lookup, set_field, Message, MessageView, OutboundMessage, REF_MSG_TYPE,
    REF_SEQ_NUM, REF_TAG_ID, SESSION_REJECT_REASON, TEXT,
};

verus! {

/// SessionRejectReason (373).
#[derive(Clone, Copy, Debug, PartialEq, Eq)]
pub enum SessionRejectReason {
    InvalidTagNumber,
    RequiredTagMissing,
    TagNotDefinedForThisMessageType,
    UndefinedTag,
    TagSpecifiedWithoutAValue,
    ValueIsIncorrect,
    IncorrectDataFormatForValue,
    DecryptionProblem,
    SignatureProblem,
    CompidProblem,
    SendingtimeAccuracyProblem,
    InvalidMsgtype,
    XmlValidationError,
    TagAppearsMoreThanOnce,
    TagSpecifiedOutOfRequiredOrder,
    RepeatingGroupFieldsOutOfOrder,
    IncorrectNumingroupCountForRepeatingGroup,
    NonDataValueIncludesFieldDelimiter,
    Other,
}

impl SessionRejectReason {
    pub open spec fn spec_code(self) -> u64 {
        match self {
            SessionRejectReason::InvalidTagNumber => 0,
            SessionRejectReason::RequiredTagMissing => 1,
            SessionRejectReason::TagNotDefinedForThisMessageType => 2,
            SessionRejectReason::UndefinedTag => 3,
            SessionRejectReason::TagSpecifiedWithoutAValue => 4,
            SessionRejectReason::ValueIsIncorrect => 5,
            SessionRejectReason::IncorrectDataFormatForValue => 6,
            SessionRejectReason::DecryptionProblem => 7,
            SessionRejectReason::SignatureProblem => 8,
            SessionRejectReason::CompidProblem => 9,
            SessionRejectReason::SendingtimeAccuracyProblem => 10,
            SessionRejectReason::InvalidMsgtype => 11,
            SessionRejectReason::XmlValidationError => 12,
            SessionRejectReason::TagAppearsMoreThanOnce => 13,
            SessionRejectReason::TagSpecifiedOutOfRequiredOrder => 14,
            SessionRejectReason::RepeatingGroupFieldsOutOfOrder => 15,
            SessionRejectReason::IncorrectNumingroupCountForRepeatingGroup => 16,
            SessionRejectReason::NonDataValueIncludesFieldDelimiter => 17,
            SessionRejectReason::Other => 99,
        }
    }

    pub open spec fn spec_from_code(code: u64) -> Option<SessionRejectReason> {
        if code == 0 {
            Some(SessionRejectReason::InvalidTagNumber)
        } else if code == 1 {
            Some(SessionRejectReason::RequiredTagMissing)
        } else if code == 2 {
            Some(SessionRejectReason::TagNotDefinedForThisMessageType)
        } else if code == 3 {
            Some(SessionRejectReason::UndefinedTag)
        } else if code == 4 {
            Some(SessionRejectReason::TagSpecifiedWithoutAValue)
        } else if code == 5 {
            Some(SessionRejectReason::ValueIsIncorrect)
        } else if code == 6 {
            Some(SessionRejectReason::IncorrectDataFormatForValue)
        } else if code == 7 {
            Some(SessionRejectReason::DecryptionProblem)
        } else if code == 8 {
            Some(SessionRejectReason::SignatureProblem)
        } else if code == 9 {
            Some(SessionRejectReason::CompidProblem)
        } else if code == 10 {
            Some(SessionRejectReason::SendingtimeAccuracyProblem)
        } else if code == 11 {
            Some(SessionRejectReason::InvalidMsgtype)
        } else if code == 12 {
            Some(SessionRejectReason::XmlValidationError)
        } else if code == 13 {
            Some(SessionRejectReason::TagAppearsMoreThanOnce)
        } else if code == 14 {
            Some(SessionRejectReason::TagSpecifiedOutOfRequiredOrder)
        } else if code == 15 {
            Some(SessionRejectReason::RepeatingGroupFieldsOutOfOrder)
        } else if code == 16 {
            Some(SessionRejectReason::IncorrectNumingroupCountForRepeatingGroup)
        } else if code == 17 {
            Some(SessionRejectReason::NonDataValueIncludesFieldDelimiter)
        } else if code == 99 {
            Some(SessionRejectReason::Other)
        } else {
            None
        }
    }

    /// The number that stands for the reason on the wire.
    pub fn code(&self) -> (r: u64)
        ensures
            r == self.spec_code(),
    {
        match self {
            SessionRejectReason::InvalidTagNumber => 0,
            SessionRejectReason::RequiredTagMissing => 1,
            SessionRejectReason::TagNotDefinedForThisMessageType => 2,
            SessionRejectReason::UndefinedTag => 3,
            SessionRejectReason::TagSpecifiedWithoutAValue => 4,
            SessionRejectReason::ValueIsIncorrect => 5,
            SessionRejectReason::IncorrectDataFormatForValue => 6,
            SessionRejectReason::DecryptionProblem => 7,
            SessionRejectReason::SignatureProblem => 8,
            SessionRejectReason::CompidProblem => 9,
            SessionRejectReason::SendingtimeAccuracyProblem => 10,
            SessionRejectReason::InvalidMsgtype => 11,
            SessionRejectReason::XmlValidationError => 12,
            SessionRejectReason::TagAppearsMoreThanOnce => 13,
            SessionRejectReason::TagSpecifiedOutOfRequiredOrder => 14,
            SessionRejectReason::RepeatingGroupFieldsOutOfOrder => 15,
            SessionRejectReason::IncorrectNumingroupCountForRepeatingGroup => 16,
            SessionRejectReason::NonDataValueIncludesFieldDelimiter => 17,
            SessionRejectReason::Other => 99,
        }
    }

    /// The reason a wire number stands for, where it stands for one.
    pub fn from_code(code: u64) -> (r: Option<SessionRejectReason>)
        ensures
            r == Self::spec_from_code(code),
    {
        if code == 0 {
            Some(SessionRejectReason::InvalidTagNumber)
        } else if code == 1 {
            Some(SessionRejectReason::RequiredTagMissing)
        } else if code == 2 {
            Some(SessionRejectReason::TagNotDefinedForThisMessageType)
        } else if code == 3 {
            Some(SessionRejectReason::UndefinedTag)
        } else if code == 4 {
            Some(SessionRejectReason::TagSpecifiedWithoutAValue)
        } else if code == 5 {
            Some(SessionRejectReason::ValueIsIncorrect)
        } else if code == 6 {
            Some(SessionRejectReason::IncorrectDataFormatForValue)
        } else if code == 7 {
            Some(SessionRejectReason::DecryptionProblem)
        } else if code == 8 {
            Some(SessionRejectReason::SignatureProblem)
        } else if code == 9 {
            Some(SessionRejectReason::CompidProblem)
        } else if code == 10 {
            Some(SessionRejectReason::SendingtimeAccuracyProblem)
        } else if code == 11 {
            Some(SessionRejectReason::InvalidMsgtype)
        } else if code == 12 {
            Some(SessionRejectReason::XmlValidationError)
        } else if code == 13 {
            Some(SessionRejectReason::TagAppearsMoreThanOnce)
        } else if code == 14 {
            Some(SessionRejectReason::TagSpecifiedOutOfRequiredOrder)
        } else if code == 15 {
            Some(SessionRejectReason::RepeatingGroupFieldsOutOfOrder)
        } else if code == 16 {
            Some(SessionRejectReason::IncorrectNumingroupCountForRepeatingGroup)
        } else if code == 17 {
            Some(SessionRejectReason::NonDataValueIncludesFieldDelimiter)
        } else if code == 99 {
            Some(SessionRejectReason::Other)
        } else {
            None
        }
    }
}

/// A session-level Reject of the message with sequence number `ref_seq_num`.
#[derive(Clone, Debug)]
pub struct Reject {
    pub ref_seq_num: u64,
    pub ref_tag_id: Option<u64>,
    pub ref_msg_type: Option<String>,
    pub session_reject_reason: Option<SessionRejectReason>,
    pub text: Option<String>,
}

pub open spec fn opt_chars(s: Option<String>) -> Option<Seq<char>> {
    match s {
        Some(t) => Some(t@),
        None => None,
    }
}

impl Reject {
    pub fn new(ref_seq_num: u64) -> (r: Self)
        ensures
            r.ref_seq_num == ref_seq_num,
            r.ref_tag_id is None,
            r.ref_msg_type is None,
            r.session_reject_reason is None,
            r.text is None,
    {
        Reject {
            ref_seq_num,
            ref_tag_id: None,
            ref_msg_type: None,
            session_reject_reason: None,
            text: None,
        }
    }

    pub fn ref_tag_id(self, ref_tag_id: u64) -> (r: Self)
        ensures
            r == (Reject { ref_tag_id: Some(ref_tag_id), ..self }),
    {
        Reject { ref_tag_id: Some(ref_tag_id), ..self }
    }

    pub fn ref_msg_type(self, ref_msg_type: &str) -> (r: Self)
        ensures
            r.ref_seq_num == self.ref_seq_num,
            r.ref_tag_id == self.ref_tag_id,
            r.ref_msg_type matches Some(t) && t@ == ref_msg_type@,
            r.session_reject_reason == self.session_reject_reason,
            r.text == self.text,
    {
        Reject { ref_msg_type: Some(ref_msg_type.to_owned()), ..self }
    }

    pub fn session_reject_reason(self, session_reject_reason: SessionRejectReason) -> (r: Self)
        ensures
            r == (Reject { session_reject_reason: Some(session_reject_reason), ..self }),
    {
        Reject { session_reject_reason: Some(session_reject_reason), ..self }
    }

    pub fn text(self, text: &str) -> (r: Self)
        ensures
            r.ref_seq_num == self.ref_seq_num,
            r.ref_tag_id == self.ref_tag_id,
            r.ref_msg_type == self.ref_msg_type,
            r.session_reject_reason == self.session_reject_reason,
            r.text matches Some(t) && t@ == text@,
    {
        Reject { text: Some(text.to_owned()), ..self }
    }

    /// Reads a Reject: `None` where RefSeqNum is missing. A SessionRejectReason
    /// that is not a known code reads as absent.
    pub fn parse(message: &Message) -> (r: Option<Self>)
        ensures
            match r {
                Some(p) => field_u64(message@.body, REF_SEQ_NUM) == Some(p.ref_seq_num)
                    && p.ref_tag_id == field_u64(message@.body, REF_TAG_ID)
                    && opt_chars(p.ref_msg_type) == text_of(lookup(message@.body, REF_MSG_TYPE))
                    && p.session_reject_reason == match field_u64(message@.body, SESSION_REJECT_REASON) {
                        Some(c) => SessionRejectReason::spec_from_code(c),
                        None => None,
                    }
                    && opt_chars(p.text) == text_of(lookup(message@.body, TEXT)),
                None => field_u64(message@.body, REF_SEQ_NUM) is None,
            },
    {
        let ref_seq_num = match message.get_u64(REF_SEQ_NUM) {
            Some(n) => n,
            None => return None,
        };
        let session_reject_reason = match message.get_u64(SESSION_REJECT_REASON) {
            Some(c) => SessionRejectReason::from_code(c),
            None => None,
        };
        Some(Reject {
            ref_seq_num,
            ref_tag_id: message.get_u64(REF_TAG_ID),
            ref_msg_type: message.get_text(REF_MSG_TYPE),
            session_reject_reason,
            text: message.get_text(TEXT),
        })
    }
}

impl OutboundMessage for Reject {
    open spec fn spec_obeys(&self) -> bool {
        true
    }

    open spec fn spec_message_type(&self) -> Seq<char> {
        seq!['3']
    }

    open spec fn spec_write(&self, m: MessageView) -> MessageView {
        let b1 = set_field(m.body, REF_SEQ_NUM, dec_text(self.ref_seq_num as nat));
        let b2 = match self.ref_tag_id {
            Some(t) => set_field(b1, REF_TAG_ID, dec_text(t as nat)),
            None => b1,
        };
        let b3 = match self.ref_msg_type {
            Some(t) => set_field(b2, REF_MSG_TYPE, encode_utf8(t@)),
            None => b2,
        };
        let b4 = match self.session_reject_reason {
            Some(r) => set_field(b3, SESSION_REJECT_REASON, dec_text(r.spec_code() as nat)),
            None => b3,
        };
        let b5 = match self.text {
            Some(t) => set_field(b4, TEXT, encode_utf8(t@)),
            None => b4,
        };
        m.with_body(b5)
    }

    fn write(&self, msg: &mut Message) {
        msg.set(REF_SEQ_NUM, format_u64(self.ref_seq_num));
        match self.ref_tag_id {
            Some(t) => msg.set(REF_TAG_ID, format_u64(t)),
            None => {},
        }
        match &self.ref_msg_type {
            Some(t) => msg.set(REF_MSG_TYPE, str_bytes(t.as_str())),
            None => {},
        }
        match self.session_reject_reason {
            Some(r) => msg.set(SESSION_REJECT_REASON, format_u64(r.code())),
            None => {},
        }
        match &self.text {
            Some(t) => msg.set(TEXT, str_bytes(t.as_str())),
            None => {},
        }
    }

    fn message_type(&self) -> (r: &str) {
        proof {
            reveal_strlit("3");
        }
        "3"
    }
}

/// Every reason reads back from its own wire number.
pub proof fn lemma_session_reject_reason_code(r: SessionRejectReason)
    ensures
        SessionRejectReason::spec_from_code(r.spec_code()) == Some(r),
{
}

/// A Reject written into a message whose body holds none of its optional
/// fields reads back as itself: RefSeqNum, RefTagID, RefMsgType,
/// SessionRejectReason and Text each give back what was written.
pub proof fn law_reject_round_trip(r: Reject, m: MessageView)
    requires
        lookup(m.body, REF_TAG_ID) is None,
        lookup(m.body, REF_MSG_TYPE) is None,
        lookup(m.body, SESSION_REJECT_REASON) is None,
        lookup(m.body, TEXT) is None,
    ensures
        ({
            let b = r.spec_write(m).body;
            &&& field_u64(b, REF_SEQ_NUM) == Some(r.ref_seq_num)
            &&& field_u64(b, REF_TAG_ID) == r.ref_tag_id
            &&& text_of(lookup(b, REF_MSG_TYPE)) == opt_chars(r.ref_msg_type)
            &&& match field_u64(b, SESSION_REJECT_REASON) {
                Some(c) => SessionRejectReason::spec_from_code(c),
                None => None,
            } == r.session_reject_reason
            &&& text_of(lookup(b, TEXT)) == opt_chars(r.text)
        }),
{
    let b1 = set_field(m.body, REF_SEQ_NUM, dec_text(r.ref_seq_num as nat));
    let b2 = match r.ref_tag_id {
        Some(t) => set_field(b1, REF_TAG_ID, dec_text(t as nat)),
        None => b1,
    };
    let b3 = match r.ref_msg_type {
        Some(t) => set_field(b2, REF_MSG_TYPE, encode_utf8(t@)),
        None => b2,
    };
    let b4 = match r.session_reject_reason {
        Some(x) => set_field(b3, SESSION_REJECT_REASON, dec_text(x.spec_code() as nat)),
        None => b3,
    };
    let b5 = match r.text {
        Some(t) => set_field(b4, TEXT, encode_utf8(t@)),
        None => b4,
    };
    lemma_lookup_set(m.body, REF_SEQ_NUM, dec_text(r.ref_seq_num as nat), REF_TAG_ID);
    lemma_lookup_set(m.body, REF_SEQ_NUM, dec_text(r.ref_seq_num as nat), REF_MSG_TYPE);
    lemma_lookup_set(m.body, REF_SEQ_NUM, dec_text(r.ref_seq_num as nat), SESSION_REJECT_REASON);
    lemma_lookup_set(m.body, REF_SEQ_NUM, dec_text(r.ref_seq_num as nat), TEXT);
    match r.ref_tag_id {
        Some(t) => {
            lemma_lookup_set(b1, REF_TAG_ID, dec_text(t as nat), REF_SEQ_NUM);
            lemma_lookup_set(b1, REF_TAG_ID, dec_text(t as nat), REF_MSG_TYPE);
            lemma_lookup_set(b1, REF_TAG_ID, dec_text(t as nat), SESSION_REJECT_REASON);
            lemma_lookup_set(b1, REF_TAG_ID, dec_text(t as nat), TEXT);
            crate::decimal::lemma_parse_dec_text(t);
        },
        None => {},
    }
    match r.ref_msg_type {
        Some(t) => {
            lemma_lookup_set(b2, REF_MSG_TYPE, encode_utf8(t@), REF_SEQ_NUM);
            lemma_lookup_set(b2, REF_MSG_TYPE, encode_utf8(t@), REF_TAG_ID);
            lemma_lookup_set(b2, REF_MSG_TYPE, encode_utf8(t@), SESSION_REJECT_REASON);
            lemma_lookup_set(b2, REF_MSG_TYPE, encode_utf8(t@), TEXT);
            vstd::utf8::encode_utf8_valid_utf8(t@);
            vstd::utf8::encode_utf8_decode_utf8(t@);
        },
        None => {},
    }
    match r.session_reject_reason {
        Some(x) => {
            lemma_lookup_set(b3, SESSION_REJECT_REASON, dec_text(x.spec_code() as nat), REF_SEQ_NUM);
            lemma_lookup_set(b3, SESSION_REJECT_REASON, dec_text(x.spec_code() as nat), REF_TAG_ID);
            lemma_lookup_set(b3, SESSION_REJECT_REASON, dec_text(x.spec_code() as nat), REF_MSG_TYPE);
            lemma_lookup_set(b3, SESSION_REJECT_REASON, dec_text(x.spec_code() as nat), TEXT);
            crate::decimal::lemma_parse_dec_text(x.spec_code());
            lemma_session_reject_reason_code(x);
        },
        None => {},
    }
    match r.text {
        Some(t) => {
            lemma_lookup_set(b4, TEXT, encode_utf8(t@), REF_SEQ_NUM);
            lemma_lookup_set(b4, TEXT, encode_utf8(t@), REF_TAG_ID);
            lemma_lookup_set(b4, TEXT, encode_utf8(t@), REF_MSG_TYPE);
            lemma_lookup_set(b4, TEXT, encode_utf8(t@), SESSION_REJECT_REASON);
            vstd::utf8::encode_utf8_valid_utf8(t@);
            vstd::utf8::encode_utf8_decode_utf8(t@);
        },
        None => {},
    }
    crate::decimal::lemma_parse_dec_text(r.ref_seq_num);
}

} // verus!
