//! Heartbeat (35=0).
use vstd::prelude::*;
use vstd::utf8::encode_utf8;

use crate::decimal::str_bytes;
use crate::message::{set_field, Message, MessageView, OutboundMessage, TEST_REQ_ID};

verus! {

/// A Heartbeat, answering a TestRequest when it carries its TestReqID.
#[derive(Clone, Debug)]
pub struct Heartbeat {
    pub test_req_id: Option<String>,
}

impl Heartbeat {
    /// A plain heartbeat, sent when the heartbeat interval elapses.
    pub fn new() -> (r: Self)
        ensures
            r.test_req_id is None,
    {
        Heartbeat { test_req_id: None }
    }

    /// The heartbeat that answers the TestRequest with ID `test_req_id`.
    pub fn for_request(test_req_id: String) -> (r: Self)
        ensures
            r.test_req_id == Some(test_req_id),
    {
        Heartbeat { test_req_id: Some(test_req_id) }
    }
}

impl OutboundMessage for Heartbeat {
    open spec fn spec_obeys(&self) -> bool {
        true
    }

    open spec fn spec_message_type(&self) -> Seq<char> {
        seq!['0']
    }

    open spec fn spec_write(&self, m: MessageView) -> MessageView {
        match self.test_req_id {
            Some(id) => m.with_body(set_field(m.body, TEST_REQ_ID, encode_utf8(id@))),
            None => m,
        }
    }

    fn write(&self, msg: &mut Message) {
        match &self.test_req_id {
            Some(id) => msg.set(TEST_REQ_ID, str_bytes(id.as_str())),
            None => {},
        }
    }

    fn message_type(&self) -> (r: &str) {
        proof {
            reveal_strlit("0");
        }
        "0"
    }
}

} // verus!
