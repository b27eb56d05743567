//! Logout (35=5).
use vstd::prelude::*;
use vstd::utf8::encode_utf8;

use crate::decimal::str_bytes;
use crate::message::{set_field, Message, MessageView, OutboundMessage, TEXT};

verus! {

/// A Logout, with the reason as Text where there is one.
#[derive(Clone, Debug)]
pub struct Logout {
    pub text: Option<String>,
}

impl Logout {
    pub fn new() -> (r: Self)
        ensures
            r.text is None,
    {
        Logout { text: None }
    }

    pub fn with_reason(reason: String) -> (r: Self)
        ensures
            r.text == Some(reason),
    {
        Logout { text: Some(reason) }
    }
}

impl OutboundMessage for Logout {
    open spec fn spec_obeys(&self) -> bool {
        true
    }

    open spec fn spec_message_type(&self) -> Seq<char> {
        seq!['5']
    }

    open spec fn spec_write(&self, m: MessageView) -> MessageView {
        match self.text {
            Some(t) => m.with_body(set_field(m.body, TEXT, encode_utf8(t@))),
            None => m,
        }
    }

    fn write(&self, msg: &mut Message) {
        match &self.text {
            Some(t) => msg.set(TEXT, str_bytes(t.as_str())),
            None => {},
        }
    }

    fn message_type(&self) -> (r: &str) {
        proof {
            reveal_strlit("5");
        }
        "5"
    }
}

} // verus!
