//! ResendRequest (35=2).
use vstd::prelude::*;

use crate::decimal::{dec_text, format_u64};
use crate::message::{
    set_field, Message, MessageView, OutboundMessage, BEGIN_SEQ_NO, END_SEQ_NO,
};

verus! {

/// A ResendRequest for the messages `begin_seq_no..=end_seq_no`.
#[derive(Clone, Copy, Debug, PartialEq, Eq)]
pub struct ResendRequest {
    pub begin_seq_no: u64,
    pub end_seq_no: u64,
}

impl ResendRequest {
    pub fn new(begin: u64, end: u64) -> (r: Self)
        ensures
            r.begin_seq_no == begin,
            r.end_seq_no == end,
    {
        ResendRequest { begin_seq_no: begin, end_seq_no: end }
    }
}

impl OutboundMessage for ResendRequest {
    open spec fn spec_obeys(&self) -> bool {
        true
    }

    open spec fn spec_message_type(&self) -> Seq<char> {
        seq!['2']
    }

    open spec fn spec_write(&self, m: MessageView) -> MessageView {
        m.with_body(
            set_field(
                set_field(m.body, BEGIN_SEQ_NO, dec_text(self.begin_seq_no as nat)),
                END_SEQ_NO,
                dec_text(self.end_seq_no as nat),
            ),
        )
    }

    fn write(&self, msg: &mut Message) {
        msg.set(BEGIN_SEQ_NO, format_u64(self.begin_seq_no));
        msg.set(END_SEQ_NO, format_u64(self.end_seq_no));
    }

    fn message_type(&self) -> (r: &str) {
        proof {
            reveal_strlit("2");
        }
        "2"
    }
}

} // verus!
