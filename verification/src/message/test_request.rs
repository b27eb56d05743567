//! TestRequest (35=1).
use vstd::prelude::*;
use vstd::utf8::encode_utf8;

use crate::decimal::str_bytes;
use crate::message::{set_field, Message, MessageView, OutboundMessage, TEST_REQ_ID};

verus! {

/// A TestRequest, asking the peer for a Heartbeat carrying the same TestReqID.
#[derive(Clone, Debug)]
pub struct TestRequest {
    pub test_req_id: String,
}

impl TestRequest {
    pub fn new(test_req_id: String) -> (r: Self)
        ensures
            r.test_req_id == test_req_id,
    {
        TestRequest { test_req_id }
    }
}

impl OutboundMessage for TestRequest {
    open spec fn spec_obeys(&self) -> bool {
        true
    }

    open spec fn spec_message_type(&self) -> Seq<char> {
        seq!['1']
    }

    open spec fn spec_write(&self, m: MessageView) -> MessageView {
        m.with_body(set_field(m.body, TEST_REQ_ID, encode_utf8(self.test_req_id@)))
    }

    fn write(&self, msg: &mut Message) {
        msg.set(TEST_REQ_ID, str_bytes(self.test_req_id.as_str()));
    }

    fn message_type(&self) -> (r: &str) {
        proof {
            reveal_strlit("1");
        }
        "1"
    }
}

} // verus!
