//! BusinessMessageReject (35=j).
use vstd::prelude::*;
use vstd::utf8::{decode_utf8, encode_utf8};

use crate::application::BusinessRejectReason;
use crate::decimal::{dec_text, format_u64, spec_parse_u64, str_bytes};
use crate::message::{
    lemma_lookup_set, lookup, set_field, field_u64, Message, MessageView, OutboundMessage, BUSINESS_REJECT_REASON,
    REF_MSG_TYPE, REF_SEQ_NUM, TEXT,
};

verus! {

/// A BusinessMessageReject of an application message of type `ref_msg_type`.
#[derive(Clone, Debug)]
pub struct BusinessReject {
    pub ref_msg_type: String,
    pub reason: BusinessRejectReason,
    pub ref_seq_num: Option<u64>,
    pub text: Option<String>,
}

/// Text read back from a field: its UTF-8 decoding, where it is valid UTF-8.
pub open spec fn text_of(v: Option<Seq<u8>>) -> Option<Seq<char>> {
    match v {
        Some(b) => if vstd::utf8::valid_utf8(b) {
            Some(decode_utf8(b))
        } else {
            None
        },
        None => None,
    }
}

/// The BusinessRejectReason a message body holds, where it holds a known one.
pub open spec fn reason_of(body: Seq<(u32, Seq<u8>)>) -> Option<BusinessRejectReason> {
    match field_u64(body, BUSINESS_REJECT_REASON) {
        Some(c) => BusinessRejectReason::spec_from_code(c),
        None => None,
    }
}

impl BusinessReject {
    pub fn new(ref_msg_type: &str, reason: BusinessRejectReason) -> (r: Self)
        ensures
            r.ref_msg_type@ == ref_msg_type@,
            r.reason == reason,
            r.ref_seq_num is None,
            r.text is None,
    {
        BusinessReject {
            ref_msg_type: ref_msg_type.to_owned(),
            reason,
            ref_seq_num: None,
            text: None,
        }
    }

    pub fn ref_seq_num(self, ref_seq_num: u64) -> (r: Self)
        ensures
            r.ref_msg_type == self.ref_msg_type,
            r.reason == self.reason,
            r.ref_seq_num == Some(ref_seq_num),
            r.text == self.text,
    {
        BusinessReject { ref_seq_num: Some(ref_seq_num), ..self }
    }

    pub fn text(self, text: &str) -> (r: Self)
        ensures
            r.ref_msg_type == self.ref_msg_type,
            r.reason == self.reason,
            r.ref_seq_num == self.ref_seq_num,
            r.text matches Some(t) && t@ == text@,
    {
        BusinessReject { text: Some(text.to_owned()), ..self }
    }

    /// Reads a BusinessMessageReject: `None` where RefMsgType or a known
    /// BusinessRejectReason is missing.
    pub fn parse(message: &Message) -> (r: Option<Self>)
        ensures
            match r {
                Some(p) => {
                    &&& text_of(lookup(message@.body, REF_MSG_TYPE)) == Some(p.ref_msg_type@)
                    &&& reason_of(message@.body) == Some(p.reason)
                    &&& p.ref_seq_num == field_u64(message@.body, REF_SEQ_NUM)
                    &&& text_of(lookup(message@.body, TEXT)) == match p.text {
                        Some(t) => Some(t@),
                        None => None::<Seq<char>>,
                    }
                },
                None => text_of(lookup(message@.body, REF_MSG_TYPE)) is None
                    || reason_of(message@.body) is None,
            },
    {
        let ref_msg_type = match message.get_text(REF_MSG_TYPE) {
            Some(t) => t,
            None => return None,
        };
        let reason = match message.get_u64(BUSINESS_REJECT_REASON) {
            Some(c) => match BusinessRejectReason::from_code(c) {
                Some(reason) => reason,
                None => return None,
            },
            None => return None,
        };
        Some(BusinessReject {
            ref_msg_type,
            reason,
            ref_seq_num: message.get_u64(REF_SEQ_NUM),
            text: message.get_text(TEXT),
        })
    }
}

impl OutboundMessage for BusinessReject {
    open spec fn spec_obeys(&self) -> bool {
        true
    }

    open spec fn spec_message_type(&self) -> Seq<char> {
        seq!['j']
    }

    open spec fn spec_write(&self, m: MessageView) -> MessageView {
        let b1 = set_field(
            set_field(m.body, REF_MSG_TYPE, encode_utf8(self.ref_msg_type@)),
            BUSINESS_REJECT_REASON,
            dec_text(self.reason.spec_code() as nat),
        );
        let b2 = match self.ref_seq_num {
            Some(n) => set_field(b1, REF_SEQ_NUM, dec_text(n as nat)),
            None => b1,
        };
        let b3 = match self.text {
            Some(t) => set_field(b2, TEXT, encode_utf8(t@)),
            None => b2,
        };
        m.with_body(b3)
    }

    fn write(&self, msg: &mut Message) {
        msg.set(REF_MSG_TYPE, str_bytes(self.ref_msg_type.as_str()));
        msg.set(BUSINESS_REJECT_REASON, format_u64(self.reason.code()));
        match self.ref_seq_num {
            Some(n) => msg.set(REF_SEQ_NUM, format_u64(n)),
            None => {},
        }
        match &self.text {
            Some(t) => msg.set(TEXT, str_bytes(t.as_str())),
            None => {},
        }
    }

    fn message_type(&self) -> (r: &str) {
        proof {
            reveal_strlit("j");
        }
        "j"
    }
}

/// A BusinessMessageReject written into a message whose body holds none of
/// its optional fields reads back as itself: RefMsgType, the reason, RefSeqNum
/// and Text each give back what was written.
pub proof fn law_business_reject_round_trip(r: BusinessReject, m: MessageView)
    requires
        lookup(m.body, REF_SEQ_NUM) is None,
        lookup(m.body, TEXT) is None,
    ensures
        ({
            let b = r.spec_write(m).body;
            &&& text_of(lookup(b, REF_MSG_TYPE)) == Some(r.ref_msg_type@)
            &&& reason_of(b) == Some(r.reason)
            &&& field_u64(b, REF_SEQ_NUM) == r.ref_seq_num
            &&& text_of(lookup(b, TEXT)) == match r.text {
                Some(t) => Some(t@),
                None => None::<Seq<char>>,
            }
        }),
{
    let code = dec_text(r.reason.spec_code() as nat);
    let b0 = set_field(m.body, REF_MSG_TYPE, encode_utf8(r.ref_msg_type@));
    let b1 = set_field(b0, BUSINESS_REJECT_REASON, code);
    let b2 = match r.ref_seq_num {
        Some(n) => set_field(b1, REF_SEQ_NUM, dec_text(n as nat)),
        None => b1,
    };
    lemma_lookup_set(m.body, REF_MSG_TYPE, encode_utf8(r.ref_msg_type@), REF_SEQ_NUM);
    lemma_lookup_set(m.body, REF_MSG_TYPE, encode_utf8(r.ref_msg_type@), TEXT);
    lemma_lookup_set(b0, BUSINESS_REJECT_REASON, code, REF_MSG_TYPE);
    lemma_lookup_set(b0, BUSINESS_REJECT_REASON, code, REF_SEQ_NUM);
    lemma_lookup_set(b0, BUSINESS_REJECT_REASON, code, TEXT);
    vstd::utf8::encode_utf8_valid_utf8(r.ref_msg_type@);
    vstd::utf8::encode_utf8_decode_utf8(r.ref_msg_type@);
    crate::decimal::lemma_parse_dec_text(r.reason.spec_code());
    crate::application::lemma_business_reject_reason_code(r.reason);
    match r.ref_seq_num {
        Some(n) => {
            lemma_lookup_set(b1, REF_SEQ_NUM, dec_text(n as nat), REF_MSG_TYPE);
            lemma_lookup_set(b1, REF_SEQ_NUM, dec_text(n as nat), BUSINESS_REJECT_REASON);
            lemma_lookup_set(b1, REF_SEQ_NUM, dec_text(n as nat), TEXT);
            crate::decimal::lemma_parse_dec_text(n);
        },
        None => {},
    }
    match r.text {
        Some(t) => {
            lemma_lookup_set(b2, TEXT, encode_utf8(t@), REF_MSG_TYPE);
            lemma_lookup_set(b2, TEXT, encode_utf8(t@), BUSINESS_REJECT_REASON);
            lemma_lookup_set(b2, TEXT, encode_utf8(t@), REF_SEQ_NUM);
            vstd::utf8::encode_utf8_valid_utf8(t@);
            vstd::utf8::encode_utf8_decode_utf8(t@);
        },
        None => {},
    }
}

} // verus!
