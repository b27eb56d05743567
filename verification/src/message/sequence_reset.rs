//! SequenceReset (35=4).
use vstd::prelude::*;

use crate::decimal::{dec_text, format_u64};
use crate::message::{
    bool_text, copy_field_value, format_bool, lookup, set_field, Message, MessageView,
    OutboundMessage, GAP_FILL_FLAG, NEW_SEQ_NO, ORIG_SENDING_TIME, POSS_DUP_FLAG, SENDING_TIME,
};

verus! {

/// A SequenceReset moving the peer's expected sequence number to `new_seq_no`.
///
/// It is always sent as a possible duplicate: its SendingTime is copied to
/// OrigSendingTime and PossDupFlag is set.
#[derive(Clone, Copy, Debug, PartialEq, Eq)]
pub struct SequenceReset {
    pub gap_fill: bool,
    pub new_seq_no: u64,
}

impl OutboundMessage for SequenceReset {
    open spec fn spec_obeys(&self) -> bool {
        true
    }

    /// Its OrigSendingTime is the header's SendingTime.
    open spec fn spec_needs_sending_time(&self) -> bool {
        true
    }

    open spec fn spec_message_type(&self) -> Seq<char> {
        seq!['4']
    }

    open spec fn spec_write(&self, m: MessageView) -> MessageView {
        let m1 = m.with_body(
            set_field(
                set_field(m.body, GAP_FILL_FLAG, bool_text(self.gap_fill)),
                NEW_SEQ_NO,
                dec_text(self.new_seq_no as nat),
            ),
        );
        let h = match lookup(m1.header, SENDING_TIME) {
            Some(t) => set_field(m1.header, ORIG_SENDING_TIME, t),
            None => m1.header,
        };
        m1.with_header(set_field(h, POSS_DUP_FLAG, bool_text(true)))
    }

    fn write(&self, msg: &mut Message) {
        msg.set(GAP_FILL_FLAG, format_bool(self.gap_fill));
        msg.set(NEW_SEQ_NO, format_u64(self.new_seq_no));
        match copy_field_value(&msg.header, SENDING_TIME) {
            Some(t) => msg.header_set(ORIG_SENDING_TIME, t),
            None => {},
        }
        msg.header_set(POSS_DUP_FLAG, format_bool(true));
    }

    fn message_type(&self) -> (r: &str) {
        proof {
            reveal_strlit("4");
        }
        "4"
    }
}

} // verus!
