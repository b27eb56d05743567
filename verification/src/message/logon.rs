//! Logon (35=A).
use vstd::prelude::*;

use crate::decimal::{dec_text, digit_byte, format_u64};
use crate::message::{
    bool_text, format_bool, lemma_lookup_set, set_field, Message, MessageView, OutboundMessage, ENCRYPT_METHOD,
    HEART_BT_INT, NEXT_EXPECTED_MSG_SEQ_NUM, RESET_SEQ_NUM_FLAG,
};

verus! {

/// EncryptMethod (98).
#[derive(Debug, Copy, Clone, PartialEq, Eq, Hash)]
pub enum EncryptMethod {
    NoEncryption,
    Pkcs,
    Des,
    PkcsDes,
    PgpDes,
    PgpDesMd5,
    PemDesMd5,
}

impl EncryptMethod {
    /// The digit that stands for the method on the wire.
    pub open spec fn spec_code(self) -> nat {
        match self {
            EncryptMethod::NoEncryption => 0,
            EncryptMethod::Pkcs => 1,
            EncryptMethod::Des => 2,
            EncryptMethod::PkcsDes => 3,
            EncryptMethod::PgpDes => 4,
            EncryptMethod::PgpDesMd5 => 5,
            EncryptMethod::PemDesMd5 => 6,
        }
    }

    pub fn code(&self) -> (r: u8)
        ensures
            r == self.spec_code(),
    {
        match self {
            EncryptMethod::NoEncryption => 0,
            EncryptMethod::Pkcs => 1,
            EncryptMethod::Des => 2,
            EncryptMethod::PkcsDes => 3,
            EncryptMethod::PgpDes => 4,
            EncryptMethod::PgpDesMd5 => 5,
            EncryptMethod::PemDesMd5 => 6,
        }
    }
}

/// ResetSeqNumFlag (141).
#[derive(Debug, Copy, Clone, PartialEq, Eq, Hash)]
pub enum ResetSeqNumFlag {
    Yes,
    No,
}

/// Whether a Logon asks the peer to reset both sequence numbers, and otherwise
/// which sequence number we expect from it next, where we say so.
pub enum ResetSeqNumConfig {
    Reset,
    NoReset(Option<u64>),
}

/// A Logon.
#[derive(Clone, Debug)]
pub struct Logon {
    pub encrypt_method: EncryptMethod,
    pub heartbeat_interval: u64,
    pub reset_seq_num_flag: ResetSeqNumFlag,
    pub next_expected_msg_seq_num: Option<u64>,
}

impl Logon {
    pub fn new(heartbeat_interval: u64, reset_config: ResetSeqNumConfig) -> (r: Self)
        ensures
            r.encrypt_method == EncryptMethod::NoEncryption,
            r.heartbeat_interval == heartbeat_interval,
            match reset_config {
                ResetSeqNumConfig::Reset => r.reset_seq_num_flag == ResetSeqNumFlag::Yes
                    && r.next_expected_msg_seq_num is None,
                ResetSeqNumConfig::NoReset(next) => r.reset_seq_num_flag == ResetSeqNumFlag::No
                    && r.next_expected_msg_seq_num == next,
            },
    {
        let (reset_seq_num_flag, next_expected_msg_seq_num) = match reset_config {
            ResetSeqNumConfig::Reset => (ResetSeqNumFlag::Yes, None),
            ResetSeqNumConfig::NoReset(next) => (ResetSeqNumFlag::No, next),
        };
        Logon {
            encrypt_method: EncryptMethod::NoEncryption,
            heartbeat_interval,
            reset_seq_num_flag,
            next_expected_msg_seq_num,
        }
    }
}

impl OutboundMessage for Logon {
    open spec fn spec_obeys(&self) -> bool {
        true
    }

    open spec fn spec_message_type(&self) -> Seq<char> {
        seq!['A']
    }

    open spec fn spec_write(&self, m: MessageView) -> MessageView {
        let b = set_field(
            set_field(
                set_field(m.body, ENCRYPT_METHOD, seq![digit_byte(self.encrypt_method.spec_code())]),
                HEART_BT_INT,
                dec_text(self.heartbeat_interval as nat),
            ),
            RESET_SEQ_NUM_FLAG,
            bool_text(self.reset_seq_num_flag == ResetSeqNumFlag::Yes),
        );
        match self.next_expected_msg_seq_num {
            Some(next) => m.with_body(set_field(b, NEXT_EXPECTED_MSG_SEQ_NUM, dec_text(next as nat))),
            None => m.with_body(b),
        }
    }

    fn write(&self, msg: &mut Message) {
        let mut method: Vec<u8> = Vec::new();
        method.push(48u8 + self.encrypt_method.code());
        assert(method@ =~= seq![digit_byte(self.encrypt_method.spec_code())]);
        msg.set(ENCRYPT_METHOD, method);
        msg.set(HEART_BT_INT, format_u64(self.heartbeat_interval));
        let reset = match self.reset_seq_num_flag {
            ResetSeqNumFlag::Yes => true,
            ResetSeqNumFlag::No => false,
        };
        msg.set(RESET_SEQ_NUM_FLAG, format_bool(reset));
        match self.next_expected_msg_seq_num {
            Some(next) => msg.set(NEXT_EXPECTED_MSG_SEQ_NUM, format_u64(next)),
            None => {},
        }
    }

    fn message_type(&self) -> (r: &str) {
        proof {
            reveal_strlit("A");
        }
        "A"
    }
}

/// The FIX code of EncryptMethod (98) as the Logon writes it: "0" for none,
/// then "1" PKCS, "2" DES, "3" PKCS/DES, "4" PGP/DES, "5" PGP/DES-MD5, "6" PEM/DES-MD5.
pub open spec fn encrypt_method_text(e: EncryptMethod) -> Seq<u8> {
    match e {
        EncryptMethod::NoEncryption => seq![48u8],
        EncryptMethod::Pkcs => seq![49u8],
        EncryptMethod::Des => seq![50u8],
        EncryptMethod::PkcsDes => seq![51u8],
        EncryptMethod::PgpDes => seq![52u8],
        EncryptMethod::PgpDesMd5 => seq![53u8],
        EncryptMethod::PemDesMd5 => seq![54u8],
    }
}

/// A written Logon carries its encrypt method's FIX code as EncryptMethod,
/// "0" for no encryption, its heartbeat interval in decimal as HeartBtInt, "Y"
/// or "N" as ResetSeqNumFlag, and NextExpectedMsgSeqNum where it has one.
pub proof fn law_logon_fields(lo: Logon, m: MessageView)
    ensures
        crate::message::lookup(lo.spec_write(m).body, ENCRYPT_METHOD) == Some(encrypt_method_text(lo.encrypt_method)),
        lo.encrypt_method == EncryptMethod::NoEncryption ==> crate::message::lookup(lo.spec_write(m).body, ENCRYPT_METHOD)
            == Some(seq![48u8]),
        crate::message::lookup(lo.spec_write(m).body, HEART_BT_INT) == Some(dec_text(lo.heartbeat_interval as nat)),
        crate::message::lookup(lo.spec_write(m).body, RESET_SEQ_NUM_FLAG) == Some(
            if lo.reset_seq_num_flag == ResetSeqNumFlag::Yes {
                seq![89u8]
            } else {
                seq![78u8]
            },
        ),
        crate::message::lookup(lo.spec_write(m).body, NEXT_EXPECTED_MSG_SEQ_NUM) == match lo.next_expected_msg_seq_num {
            Some(n) => Some(dec_text(n as nat)),
            None => crate::message::lookup(m.body, NEXT_EXPECTED_MSG_SEQ_NUM),
        },
{
    let a = set_field(m.body, ENCRYPT_METHOD, seq![digit_byte(lo.encrypt_method.spec_code())]);
    let b = set_field(a, HEART_BT_INT, dec_text(lo.heartbeat_interval as nat));
    let c = set_field(b, RESET_SEQ_NUM_FLAG, bool_text(lo.reset_seq_num_flag == ResetSeqNumFlag::Yes));
    lemma_lookup_set(m.body, ENCRYPT_METHOD, seq![digit_byte(lo.encrypt_method.spec_code())], ENCRYPT_METHOD);
    lemma_lookup_set(a, HEART_BT_INT, dec_text(lo.heartbeat_interval as nat), ENCRYPT_METHOD);
    lemma_lookup_set(a, HEART_BT_INT, dec_text(lo.heartbeat_interval as nat), HEART_BT_INT);
    lemma_lookup_set(b, RESET_SEQ_NUM_FLAG, bool_text(lo.reset_seq_num_flag == ResetSeqNumFlag::Yes), ENCRYPT_METHOD);
    lemma_lookup_set(b, RESET_SEQ_NUM_FLAG, bool_text(lo.reset_seq_num_flag == ResetSeqNumFlag::Yes), HEART_BT_INT);
    lemma_lookup_set(b, RESET_SEQ_NUM_FLAG, bool_text(lo.reset_seq_num_flag == ResetSeqNumFlag::Yes), RESET_SEQ_NUM_FLAG);
    lemma_lookup_set(m.body, ENCRYPT_METHOD, seq![digit_byte(lo.encrypt_method.spec_code())], NEXT_EXPECTED_MSG_SEQ_NUM);
    lemma_lookup_set(a, HEART_BT_INT, dec_text(lo.heartbeat_interval as nat), NEXT_EXPECTED_MSG_SEQ_NUM);
    lemma_lookup_set(b, RESET_SEQ_NUM_FLAG, bool_text(lo.reset_seq_num_flag == ResetSeqNumFlag::Yes), NEXT_EXPECTED_MSG_SEQ_NUM);
    match lo.next_expected_msg_seq_num {
        Some(n) => {
            lemma_lookup_set(c, NEXT_EXPECTED_MSG_SEQ_NUM, dec_text(n as nat), ENCRYPT_METHOD);
            lemma_lookup_set(c, NEXT_EXPECTED_MSG_SEQ_NUM, dec_text(n as nat), HEART_BT_INT);
            lemma_lookup_set(c, NEXT_EXPECTED_MSG_SEQ_NUM, dec_text(n as nat), RESET_SEQ_NUM_FLAG);
            lemma_lookup_set(c, NEXT_EXPECTED_MSG_SEQ_NUM, dec_text(n as nat), NEXT_EXPECTED_MSG_SEQ_NUM);
        },
        None => {},
    }
}

} // verus!
