//! FIX messages as ordered tag=value fields, their wire encoding, and the
//! session-level messages the engine writes itself.
use vstd::prelude::*;
use vstd::string::StringSliceAdditionalSpecFns;
use vstd::utf8::encode_utf8;

use crate::timestamp::{fix_timestamp_text, fix_timestamp_value};
use crate::decimal::{
    append_bytes, copy_bytes, dec_text, digit_byte, format_u64, parse_u64, spec_parse_u64, str_bytes,
    three_digit_text, write_u64,
};

pub mod business_reject;
pub mod heartbeat;
pub mod logon;
pub mod logout;
pub mod parser;
pub mod reject;
pub mod resend_request;
pub mod sequence_reset;
pub mod test_request;
pub mod verification;
pub mod verification_issue;

verus! {

pub const BEGIN_SEQ_NO: u32 = 7;
pub const BEGIN_STRING: u32 = 8;
pub const BODY_LENGTH: u32 = 9;
pub const CHECK_SUM: u32 = 10;
pub const END_SEQ_NO: u32 = 16;
pub const MSG_SEQ_NUM: u32 = 34;
pub const MSG_TYPE: u32 = 35;
pub const NEW_SEQ_NO: u32 = 36;
pub const POSS_DUP_FLAG: u32 = 43;
pub const REF_SEQ_NUM: u32 = 45;
pub const SENDER_COMP_ID: u32 = 49;
pub const SENDING_TIME: u32 = 52;
pub const TARGET_COMP_ID: u32 = 56;
pub const TEXT: u32 = 58;
pub const ENCRYPT_METHOD: u32 = 98;
pub const HEART_BT_INT: u32 = 108;
pub const TEST_REQ_ID: u32 = 112;
pub const ORIG_SENDING_TIME: u32 = 122;
pub const GAP_FILL_FLAG: u32 = 123;
pub const RESET_SEQ_NUM_FLAG: u32 = 141;
pub const REF_TAG_ID: u32 = 371;
pub const REF_MSG_TYPE: u32 = 372;
pub const SESSION_REJECT_REASON: u32 = 373;
pub const BUSINESS_REJECT_REASON: u32 = 380;
pub const NEXT_EXPECTED_MSG_SEQ_NUM: u32 = 789;

/// The field separator of the tag=value encoding (SOH).
pub const SOH: u8 = 1;

/// One tag=value field.
pub struct Field {
    pub tag: u32,
    pub value: Vec<u8>,
}

impl View for Field {
    type V = (u32, Seq<u8>);

    open spec fn view(&self) -> (u32, Seq<u8>) {
        (self.tag, self.value@)
    }
}

pub open spec fn fields_view(fs: Seq<Field>) -> Seq<(u32, Seq<u8>)> {
    fs.map_values(|f: Field| f@)
}

/// Index of the first field with `tag`, or the number of fields when none has it.
pub open spec fn tag_index(fs: Seq<(u32, Seq<u8>)>, tag: u32) -> int
    decreases fs.len(),
{
    if fs.len() == 0 {
        0
    } else if fs[0].0 == tag {
        0
    } else {
        1 + tag_index(fs.drop_first(), tag)
    }
}

/// The value of the first field with `tag`.
pub open spec fn lookup(fs: Seq<(u32, Seq<u8>)>, tag: u32) -> Option<Seq<u8>> {
    let i = tag_index(fs, tag);
    if i < fs.len() {
        Some(fs[i].1)
    } else {
        None
    }
}

/// Setting a field replaces the first field with the tag in place, or appends one.
pub open spec fn set_field(fs: Seq<(u32, Seq<u8>)>, tag: u32, value: Seq<u8>) -> Seq<(u32, Seq<u8>)> {
    let i = tag_index(fs, tag);
    if i < fs.len() {
        fs.update(i, (tag, value))
    } else {
        fs.push((tag, value))
    }
}

/// Popping a field removes the first field with the tag.
pub open spec fn pop_field(fs: Seq<(u32, Seq<u8>)>, tag: u32) -> Seq<(u32, Seq<u8>)> {
    let i = tag_index(fs, tag);
    if i < fs.len() {
        fs.remove(i)
    } else {
        fs
    }
}

/// A FIX boolean: `Y` is true, `N` is false.
pub open spec fn spec_parse_bool(v: Seq<u8>) -> Option<bool> {
    if v == seq![89u8] {
        Some(true)
    } else if v == seq![78u8] {
        Some(false)
    } else {
        None
    }
}

pub open spec fn bool_text(b: bool) -> Seq<u8> {
    if b {
        seq![89u8]
    } else {
        seq![78u8]
    }
}

/// The integer value of the first field with `tag`.
pub open spec fn field_u64(fs: Seq<(u32, Seq<u8>)>, tag: u32) -> Option<u64> {
    match lookup(fs, tag) {
        Some(v) => spec_parse_u64(v),
        None => None,
    }
}

/// The boolean value of the first field with `tag`.
pub open spec fn field_bool(fs: Seq<(u32, Seq<u8>)>, tag: u32) -> Option<bool> {
    match lookup(fs, tag) {
        Some(v) => spec_parse_bool(v),
        None => None,
    }
}

pub proof fn lemma_tag_index(fs: Seq<(u32, Seq<u8>)>, tag: u32)
    ensures
        0 <= tag_index(fs, tag) <= fs.len(),
        forall|j: int| 0 <= j < tag_index(fs, tag) ==> #[trigger] fs[j].0 != tag,
        tag_index(fs, tag) < fs.len() ==> fs[tag_index(fs, tag)].0 == tag,
    decreases fs.len(),
{
    if fs.len() > 0 && fs[0].0 != tag {
        lemma_tag_index(fs.drop_first(), tag);
        assert forall|j: int| 0 <= j < tag_index(fs, tag) implies #[trigger] fs[j].0 != tag by {
            if j > 0 {
                assert(fs[j] == fs.drop_first()[j - 1]);
            }
        }
    }
}

/// What a lookup finds after a field is set: the new value under its tag, and
/// what was there before under every other tag.
pub proof fn lemma_lookup_set(fs: Seq<(u32, Seq<u8>)>, tag: u32, value: Seq<u8>, other: u32)
    ensures
        lookup(set_field(fs, tag, value), tag) == Some(value),
        other != tag ==> lookup(set_field(fs, tag, value), other) == lookup(fs, other),
{
    lemma_tag_index(fs, tag);
    lemma_tag_index(fs, other);
    let i = tag_index(fs, tag);
    let g = set_field(fs, tag, value);
    assert forall|j: int| 0 <= j < i implies #[trigger] g[j].0 != tag by {
        assert(g[j] == fs[j]);
    }
    lemma_tag_index_unique(g, tag, i);
    if other != tag {
        let k = tag_index(fs, other);
        if k < i || (k == fs.len() && i == fs.len()) {
            assert forall|j: int| 0 <= j < k implies #[trigger] g[j].0 != other by {
                assert(g[j] == fs[j]);
            }
            if k < fs.len() {
                assert(g[k] == fs[k]);
            } else {
                assert(g[k].0 == tag);
            }
            if k == fs.len() {
                assert forall|j: int| 0 <= j < g.len() implies #[trigger] g[j].0 != other by {
                    if j < fs.len() {
                        assert(g[j] == fs[j]);
                    }
                }
                lemma_tag_index_unique(g, other, g.len() as int);
            } else {
                lemma_tag_index_unique(g, other, k);
            }
        } else {
            assert forall|j: int| 0 <= j < k implies #[trigger] g[j].0 != other by {
                if j != i {
                    assert(g[j] == fs[j]);
                }
            }
            if k < fs.len() {
                assert(g[k] == fs[k]);
                lemma_tag_index_unique(g, other, k);
            } else {
                assert forall|j: int| 0 <= j < g.len() implies #[trigger] g[j].0 != other by {
                    if j < fs.len() && j != i {
                        assert(g[j] == fs[j]);
                    }
                }
                lemma_tag_index_unique(g, other, g.len() as int);
            }
        }
    }
}

/// Popping a field leaves what a lookup finds under every other tag.
pub proof fn lemma_lookup_pop(fs: Seq<(u32, Seq<u8>)>, tag: u32, other: u32)
    requires
        other != tag,
    ensures
        lookup(pop_field(fs, tag), other) == lookup(fs, other),
{
    lemma_tag_index(fs, tag);
    lemma_tag_index(fs, other);
    let i = tag_index(fs, tag);
    if i < fs.len() {
        let g = fs.remove(i);
        let k = tag_index(fs, other);
        if k < i {
            assert forall|j: int| 0 <= j < k implies #[trigger] g[j].0 != other by {
                assert(g[j] == fs[j]);
            }
            assert(g[k] == fs[k]);
            lemma_tag_index_unique(g, other, k);
        } else {
            assert(k != i);
            assert forall|j: int| 0 <= j < k - 1 implies #[trigger] g[j].0 != other by {
                if j < i {
                    assert(g[j] == fs[j]);
                } else {
                    assert(g[j] == fs[j + 1]);
                }
            }
            if k < fs.len() {
                assert(g[k - 1] == fs[k]);
                lemma_tag_index_unique(g, other, k - 1);
            } else {
                lemma_tag_index_unique(g, other, k - 1);
            }
        }
    }
}

/// Setting a tag that no field has appends the field.
pub proof fn lemma_set_new_tag(fs: Seq<(u32, Seq<u8>)>, tag: u32, value: Seq<u8>)
    requires
        forall|j: int| 0 <= j < fs.len() ==> #[trigger] fs[j].0 != tag,
    ensures
        set_field(fs, tag, value) == fs.push((tag, value)),
        lookup(fs, tag) is None,
{
    lemma_tag_index_unique(fs, tag, fs.len() as int);
}

/// The first index holding `tag` is the one before which no field has it.
pub proof fn lemma_tag_index_unique(fs: Seq<(u32, Seq<u8>)>, tag: u32, i: int)
    requires
        0 <= i <= fs.len(),
        forall|j: int| 0 <= j < i ==> #[trigger] fs[j].0 != tag,
        i < fs.len() ==> fs[i].0 == tag,
    ensures
        tag_index(fs, tag) == i,
    decreases fs.len(),
{
    if fs.len() > 0 && i > 0 {
        assert(fs[0].0 != tag);
        assert forall|j: int| 0 <= j < i - 1 implies #[trigger] fs.drop_first()[j].0 != tag by {
            assert(fs.drop_first()[j] == fs[j + 1]);
        }
        lemma_tag_index_unique(fs.drop_first(), tag, i - 1);
    }
}

/// Index of the first field with `tag` (the length when there is none).
pub fn find_tag(fs: &Vec<Field>, tag: u32) -> (r: usize)
    ensures
        r == tag_index(fields_view(fs@), tag),
        r <= fs.len(),
{
    let ghost v = fields_view(fs@);
    let mut i: usize = 0;
    while i < fs.len()
        invariant
            0 <= i <= fs.len(),
            v == fields_view(fs@),
            forall|j: int| 0 <= j < i ==> #[trigger] v[j].0 != tag,
        decreases fs.len() - i,
    {
        if fs[i].tag == tag {
            proof {
                lemma_tag_index_unique(v, tag, i as int);
            }
            return i;
        }
        i = i + 1;
    }
    proof {
        lemma_tag_index_unique(v, tag, i as int);
    }
    i
}

/// The value of the first field with `tag`.
pub fn get_field(fs: &Vec<Field>, tag: u32) -> (r: Option<&Vec<u8>>)
    ensures
        match r {
            Some(v) => lookup(fields_view(fs@), tag) == Some(v@),
            None => lookup(fields_view(fs@), tag) is None,
        },
{
    let i = find_tag(fs, tag);
    if i < fs.len() {
        Some(&fs[i].value)
    } else {
        None
    }
}

/// A copy of the value of the first field with `tag`.
pub fn copy_field_value(fs: &Vec<Field>, tag: u32) -> (r: Option<Vec<u8>>)
    ensures
        match r {
            Some(v) => lookup(fields_view(fs@), tag) == Some(v@),
            None => lookup(fields_view(fs@), tag) is None,
        },
{
    match get_field(fs, tag) {
        Some(v) => Some(crate::decimal::copy_bytes(v.as_slice())),
        None => None,
    }
}

/// Sets a field: replaces the first one with `tag` or appends it.
pub fn put_field(fs: &mut Vec<Field>, tag: u32, value: Vec<u8>)
    ensures
        fields_view(final(fs)@) == set_field(fields_view(old(fs)@), tag, value@),
{
    let i = find_tag(fs, tag);
    let ghost v = value@;
    if i < fs.len() {
        fs.set(i, Field { tag, value });
        assert(fields_view(fs@) =~= set_field(fields_view(old(fs)@), tag, v));
    } else {
        fs.push(Field { tag, value });
        assert(fields_view(fs@) =~= set_field(fields_view(old(fs)@), tag, v));
    }
}

/// Removes the first field with `tag`, giving its value.
pub fn take_field(fs: &mut Vec<Field>, tag: u32) -> (r: Option<Vec<u8>>)
    ensures
        fields_view(final(fs)@) == pop_field(fields_view(old(fs)@), tag),
        match r {
            Some(v) => lookup(fields_view(old(fs)@), tag) == Some(v@),
            None => lookup(fields_view(old(fs)@), tag) is None,
        },
{
    let i = find_tag(fs, tag);
    if i < fs.len() {
        let f = fs.remove(i);
        assert(fields_view(fs@) =~= pop_field(fields_view(old(fs)@), tag));
        Some(f.value)
    } else {
        None
    }
}

/// A FIX message: BeginString, MsgType, the other header fields and the body,
/// each part in order. BodyLength and CheckSum are computed when encoding.
pub struct Message {
    pub begin_string: Vec<u8>,
    pub msg_type: Vec<u8>,
    pub header: Vec<Field>,
    pub body: Vec<Field>,
}

#[verifier::ext_equal]
pub struct MessageView {
    pub begin_string: Seq<u8>,
    pub msg_type: Seq<u8>,
    pub header: Seq<(u32, Seq<u8>)>,
    pub body: Seq<(u32, Seq<u8>)>,
}

impl View for Message {
    type V = MessageView;

    open spec fn view(&self) -> MessageView {
        MessageView {
            begin_string: self.begin_string@,
            msg_type: self.msg_type@,
            header: fields_view(self.header@),
            body: fields_view(self.body@),
        }
    }
}

impl MessageView {
    pub open spec fn with_header(self, header: Seq<(u32, Seq<u8>)>) -> MessageView {
        MessageView { header, ..self }
    }

    pub open spec fn with_body(self, body: Seq<(u32, Seq<u8>)>) -> MessageView {
        MessageView { body, ..self }
    }
}

/// The empty message of a FIX version and a message type.
pub open spec fn spec_new_message(begin_string: Seq<char>, msg_type: Seq<char>) -> MessageView {
    MessageView {
        begin_string: encode_utf8(begin_string),
        msg_type: encode_utf8(msg_type),
        header: seq![],
        body: seq![],
    }
}

/// The bytes of one `tag=value<SOH>` field.
pub open spec fn field_text(tag: u32, value: Seq<u8>) -> Seq<u8> {
    dec_text(tag as nat) + seq![61u8] + value + seq![SOH]
}

/// The bytes of a run of fields, in order.
pub open spec fn fields_text(fs: Seq<(u32, Seq<u8>)>) -> Seq<u8>
    decreases fs.len(),
{
    if fs.len() == 0 {
        seq![]
    } else {
        fields_text(fs.drop_last()) + field_text(fs.last().0, fs.last().1)
    }
}

/// What BodyLength counts: MsgType, the header and the body.
pub open spec fn body_text(m: MessageView) -> Seq<u8> {
    field_text(MSG_TYPE, m.msg_type) + fields_text(m.header) + fields_text(m.body)
}

pub open spec fn byte_sum(s: Seq<u8>) -> nat
    decreases s.len(),
{
    if s.len() == 0 {
        0
    } else {
        byte_sum(s.drop_last()) + s.last() as nat
    }
}

/// Everything of the encoding before the CheckSum field.
pub open spec fn checked_text(m: MessageView) -> Seq<u8> {
    field_text(BEGIN_STRING, m.begin_string) + field_text(BODY_LENGTH, dec_text(body_text(m).len()))
        + body_text(m)
}

/// The wire encoding: BeginString, BodyLength, MsgType, header, body and the
/// CheckSum, the byte sum of all that precedes it modulo 256 in three digits.
pub open spec fn spec_encode(m: MessageView) -> Seq<u8> {
    checked_text(m) + field_text(CHECK_SUM, three_digit_text(byte_sum(checked_text(m)) % 256))
}

/// Appends one `tag=value<SOH>` field.
pub fn write_field(out: &mut Vec<u8>, tag: u32, value: &[u8])
    ensures
        final(out)@ == old(out)@ + field_text(tag, value@),
{
    write_u64(tag as u64, out);
    out.push(61u8);
    append_bytes(out, value);
    out.push(SOH);
    assert(out@ =~= old(out)@ + field_text(tag, value@));
}

/// Appends a run of fields.
pub fn write_fields(out: &mut Vec<u8>, fs: &Vec<Field>)
    ensures
        final(out)@ == old(out)@ + fields_text(fields_view(fs@)),
{
    let ghost v = fields_view(fs@);
    let mut i: usize = 0;
    while i < fs.len()
        invariant
            0 <= i <= fs.len(),
            v == fields_view(fs@),
            out@ == old(out)@ + fields_text(v.subrange(0, i as int)),
        decreases fs.len() - i,
    {
        let ghost before = out@;
        write_field(out, fs[i].tag, fs[i].value.as_slice());
        proof {
            let s = v.subrange(0, i as int + 1);
            assert(s.drop_last() =~= v.subrange(0, i as int));
            assert(s.last() == v[i as int]);
        }
        i = i + 1;
        assert(out@ =~= old(out)@ + fields_text(v.subrange(0, i as int)));
    }
    assert(v.subrange(0, fs.len() as int) =~= v);
}

/// The byte sum of `s` modulo 256.
pub fn checksum(s: &[u8]) -> (r: u64)
    ensures
        r == byte_sum(s@) % 256,
        r < 256,
{
    let mut acc: u64 = 0;
    let mut i: usize = 0;
    while i < s.len()
        invariant
            0 <= i <= s.len(),
            acc == byte_sum(s@.subrange(0, i as int)) % 256,
        decreases s.len() - i,
    {
        let ghost p = s@.subrange(0, i as int + 1);
        proof {
            assert(p.drop_last() =~= s@.subrange(0, i as int));
            vstd::arithmetic::div_mod::lemma_add_mod_noop(
                byte_sum(s@.subrange(0, i as int)) as int,
                s@[i as int] as int,
                256,
            );
            vstd::arithmetic::div_mod::lemma_small_mod(s@[i as int] as nat, 256);
        }
        acc = (acc + s[i] as u64) % 256;
        i = i + 1;
    }
    assert(s@.subrange(0, s.len() as int) =~= s@);
    acc
}

/// Three-digit zero-padded text of a number below 1000.
pub fn three_digits(n: u64) -> (r: Vec<u8>)
    requires
        n < 1000,
    ensures
        r@ == three_digit_text(n as nat),
{
    let mut out: Vec<u8> = Vec::new();
    out.push((48 + (n / 100) % 10) as u8);
    out.push((48 + (n / 10) % 10) as u8);
    out.push((48 + n % 10) as u8);
    assert(out@ =~= three_digit_text(n as nat));
    out
}

/// A copy of the fields.
pub fn copy_fields(fs: &Vec<Field>) -> (r: Vec<Field>)
    ensures
        fields_view(r@) == fields_view(fs@),
{
    let mut out: Vec<Field> = Vec::new();
    let mut i: usize = 0;
    while i < fs.len()
        invariant
            0 <= i <= fs.len(),
            fields_view(out@) == fields_view(fs@.subrange(0, i as int)),
        decreases fs.len() - i,
    {
        let f = Field { tag: fs[i].tag, value: copy_bytes(fs[i].value.as_slice()) };
        proof {
            assert(fields_view(out@.push(f)) =~= fields_view(out@).push(f@));
            assert(fs@.subrange(0, i as int + 1) =~= fs@.subrange(0, i as int).push(fs@[i as int]));
            assert(fields_view(fs@.subrange(0, i as int + 1)) =~= fields_view(
                fs@.subrange(0, i as int),
            ).push(fs@[i as int]@));
        }
        out.push(f);
        i = i + 1;
    }
    assert(fs@.subrange(0, fs.len() as int) =~= fs@);
    out
}

impl Message {
    /// An empty message of the FIX version `begin_string` and type `msg_type`.
    pub fn new(begin_string: &str, msg_type: &str) -> (r: Message)
        ensures
            r@ == spec_new_message(begin_string@, msg_type@),
    {
        let r = Message {
            begin_string: str_bytes(begin_string),
            msg_type: str_bytes(msg_type),
            header: Vec::new(),
            body: Vec::new(),
        };
        assert(r@.header =~= Seq::<(u32, Seq<u8>)>::empty());
        assert(r@.body =~= Seq::<(u32, Seq<u8>)>::empty());
        r
    }

    /// A copy of the message.
    pub fn copy(&self) -> (r: Message)
        ensures
            r@ == self@,
    {
        Message {
            begin_string: copy_bytes(self.begin_string.as_slice()),
            msg_type: copy_bytes(self.msg_type.as_slice()),
            header: copy_fields(&self.header),
            body: copy_fields(&self.body),
        }
    }

    pub fn header_get(&self, tag: u32) -> (r: Option<&Vec<u8>>)
        ensures
            match r {
                Some(v) => lookup(self@.header, tag) == Some(v@),
                None => lookup(self@.header, tag) is None,
            },
    {
        get_field(&self.header, tag)
    }

    pub fn header_set(&mut self, tag: u32, value: Vec<u8>)
        ensures
            final(self)@ == old(self)@.with_header(set_field(old(self)@.header, tag, value@)),
    {
        put_field(&mut self.header, tag, value);
    }

    pub fn header_pop(&mut self, tag: u32) -> (r: Option<Vec<u8>>)
        ensures
            final(self)@ == old(self)@.with_header(pop_field(old(self)@.header, tag)),
            match r {
                Some(v) => lookup(old(self)@.header, tag) == Some(v@),
                None => lookup(old(self)@.header, tag) is None,
            },
    {
        take_field(&mut self.header, tag)
    }

    pub fn get(&self, tag: u32) -> (r: Option<&Vec<u8>>)
        ensures
            match r {
                Some(v) => lookup(self@.body, tag) == Some(v@),
                None => lookup(self@.body, tag) is None,
            },
    {
        get_field(&self.body, tag)
    }

    pub fn set(&mut self, tag: u32, value: Vec<u8>)
        ensures
            final(self)@ == old(self)@.with_body(set_field(old(self)@.body, tag, value@)),
    {
        put_field(&mut self.body, tag, value);
    }

    pub fn pop(&mut self, tag: u32) -> (r: Option<Vec<u8>>)
        ensures
            final(self)@ == old(self)@.with_body(pop_field(old(self)@.body, tag)),
            match r {
                Some(v) => lookup(old(self)@.body, tag) == Some(v@),
                None => lookup(old(self)@.body, tag) is None,
            },
    {
        take_field(&mut self.body, tag)
    }

    /// The integer value of a header field.
    pub fn header_u64(&self, tag: u32) -> (r: Option<u64>)
        ensures
            r == field_u64(self@.header, tag),
    {
        match self.header_get(tag) {
            Some(v) => parse_u64(v.as_slice()),
            None => None,
        }
    }

    /// The boolean value of a header field.
    pub fn header_bool(&self, tag: u32) -> (r: Option<bool>)
        ensures
            r == field_bool(self@.header, tag),
    {
        match self.header_get(tag) {
            Some(v) => parse_bool(v.as_slice()),
            None => None,
        }
    }

    /// The integer value of a body field.
    pub fn get_u64(&self, tag: u32) -> (r: Option<u64>)
        ensures
            r == field_u64(self@.body, tag),
    {
        match self.get(tag) {
            Some(v) => parse_u64(v.as_slice()),
            None => None,
        }
    }

    /// The boolean value of a body field.
    pub fn get_bool(&self, tag: u32) -> (r: Option<bool>)
        ensures
            r == field_bool(self@.body, tag),
    {
        match self.get(tag) {
            Some(v) => parse_bool(v.as_slice()),
            None => None,
        }
    }

    /// The text of a body field, where it is valid UTF-8.
    pub fn get_text(&self, tag: u32) -> (r: Option<String>)
        ensures
            match lookup(self@.body, tag) {
                Some(v) => match r {
                    Some(s) => vstd::utf8::valid_utf8(v) && s@ == vstd::utf8::decode_utf8(v),
                    None => !vstd::utf8::valid_utf8(v),
                },
                None => r is None,
            },
    {
        match self.get(tag) {
            Some(v) => crate::clock::utf8_text(v.as_slice()),
            None => None,
        }
    }

    /// The wire encoding of the message.
    pub fn encode(&self) -> (r: Vec<u8>)
        ensures
            r@ == spec_encode(self@),
    {
        let mut body: Vec<u8> = Vec::new();
        write_field(&mut body, MSG_TYPE, self.msg_type.as_slice());
        write_fields(&mut body, &self.header);
        write_fields(&mut body, &self.body);
        assert(body@ =~= body_text(self@));
        let mut out: Vec<u8> = Vec::new();
        write_field(&mut out, BEGIN_STRING, self.begin_string.as_slice());
        let len_text = format_u64(body.len() as u64);
        write_field(&mut out, BODY_LENGTH, len_text.as_slice());
        append_bytes(&mut out, body.as_slice());
        assert(out@ =~= checked_text(self@));
        let c = checksum(out.as_slice());
        let c_text = three_digits(c);
        write_field(&mut out, CHECK_SUM, c_text.as_slice());
        out
    }
}

/// Parses a FIX boolean.
pub fn parse_bool(v: &[u8]) -> (r: Option<bool>)
    ensures
        r == spec_parse_bool(v@),
{
    if v.len() == 1 && v[0] == 89u8 {
        assert(v@ =~= seq![89u8]);
        Some(true)
    } else if v.len() == 1 && v[0] == 78u8 {
        assert(v@ =~= seq![78u8]);
        Some(false)
    } else {
        proof {
            if v@ == seq![89u8] || v@ == seq![78u8] {
                assert(v@.len() == 1);
            }
        }
        None
    }
}

/// The FIX text of a boolean.
pub fn format_bool(b: bool) -> (r: Vec<u8>)
    ensures
        r@ == bool_text(b),
{
    let mut v: Vec<u8> = Vec::new();
    if b {
        v.push(89u8);
    } else {
        v.push(78u8);
    }
    assert(v@ =~= bool_text(b));
    v
}

/// Message types of the session layer (Logon, Heartbeat, TestRequest,
/// ResendRequest, Reject, SequenceReset and Logout).
pub open spec fn is_admin_type(t: Seq<u8>) -> bool {
    t.len() == 1 && (t[0] == 65 || (48 <= t[0] && t[0] <= 53))
}

pub open spec fn is_admin_chars(t: Seq<char>) -> bool {
    t.len() == 1 && (t[0] == 'A' || ('0' <= t[0] && t[0] <= '5'))
}

/// Whether `message_type` is one of the session-layer (administrative) message types.
pub fn is_admin(message_type: &str) -> (r: bool)
    ensures
        r == is_admin_chars(message_type@),
{
    let n = message_type.unicode_len();
    if n != 1 {
        return false;
    }
    let c = message_type.get_char(0);
    c == 'A' || ('0' <= c && c <= '5')
}

/// Whether the MsgType bytes are a session-layer message type.
pub fn is_admin_bytes(message_type: &[u8]) -> (r: bool)
    ensures
        r == is_admin_type(message_type@),
{
    message_type.len() == 1 && (message_type[0] == 65u8 || (48u8 <= message_type[0]
        && message_type[0] <= 53u8))
}

/// A message the engine can write: its type and the fields it adds. The engine
/// encodes, and states what it sends of, messages that keep this contract.
pub trait OutboundMessage {
    /// Whether this message keeps the contract `write` and `message_type` state:
    /// set by the verified messages, which define the spec functions. A message
    /// written outside verified code keeps the defaults, under which neither
    /// method promises anything.
    open spec fn spec_obeys(&self) -> bool {
        false
    }

    open spec fn spec_message_type(&self) -> Seq<char> {
        Seq::empty()
    }

    open spec fn spec_write(&self, m: MessageView) -> MessageView {
        m
    }

    /// Whether writing the message reads the header's SendingTime, which must
    /// then be there.
    open spec fn spec_needs_sending_time(&self) -> bool {
        false
    }

    /// Writes the message's fields; the engine calls it once the standard
    /// header, SendingTime included, is in place.
    fn write(&self, msg: &mut Message)
        requires
            self.spec_needs_sending_time() ==> lookup(old(msg)@.header, SENDING_TIME) is Some,
        ensures
            self.spec_obeys() ==> final(msg)@ == self.spec_write(old(msg)@),
    ;

    fn message_type(&self) -> (r: &str)
        ensures
            self.spec_obeys() ==> r@ == self.spec_message_type(),
    ;
}

/// The header the engine gives every message it sends.
pub open spec fn spec_standard_header(
    begin_string: Seq<char>,
    msg_type: Seq<char>,
    sender_comp_id: Seq<char>,
    target_comp_id: Seq<char>,
    msg_seq_num: u64,
    sending_time: Seq<u8>,
) -> MessageView {
    MessageView {
        begin_string: encode_utf8(begin_string),
        msg_type: encode_utf8(msg_type),
        header: seq![
            (SENDER_COMP_ID, encode_utf8(sender_comp_id)),
            (TARGET_COMP_ID, encode_utf8(target_comp_id)),
            (MSG_SEQ_NUM, dec_text(msg_seq_num as nat)),
            (SENDING_TIME, sending_time),
        ],
        body: seq![],
    }
}

/// The message a sender writes: the standard header, then what the message adds.
pub open spec fn spec_build<M: OutboundMessage>(
    begin_string: Seq<char>,
    sender_comp_id: Seq<char>,
    target_comp_id: Seq<char>,
    msg_seq_num: u64,
    sending_time: Seq<u8>,
    message: M,
) -> MessageView {
    message.spec_write(
        spec_standard_header(
            begin_string,
            message.spec_message_type(),
            sender_comp_id,
            target_comp_id,
            msg_seq_num,
            sending_time,
        ),
    )
}

/// The message `message` becomes when sent with the given header values.
pub fn build_message<M: OutboundMessage>(
    begin_string: &str,
    sender_comp_id: &str,
    target_comp_id: &str,
    msg_seq_num: u64,
    sending_time: Vec<u8>,
    message: &M,
) -> (r: Message)
    requires
        message.spec_obeys(),
    ensures
        r@ == spec_build(
            begin_string@,
            sender_comp_id@,
            target_comp_id@,
            msg_seq_num,
            sending_time@,
            *message,
        ),
{
    let mut msg = Message::new(begin_string, message.message_type());
    let ghost h0 = msg@.header;
    proof {
        lemma_set_new_tag(h0, SENDER_COMP_ID, encode_utf8(sender_comp_id@));
    }
    msg.header_set(SENDER_COMP_ID, str_bytes(sender_comp_id));
    let ghost h1 = msg@.header;
    proof {
        lemma_set_new_tag(h1, TARGET_COMP_ID, encode_utf8(target_comp_id@));
    }
    msg.header_set(TARGET_COMP_ID, str_bytes(target_comp_id));
    let ghost h2 = msg@.header;
    proof {
        lemma_set_new_tag(h2, MSG_SEQ_NUM, dec_text(msg_seq_num as nat));
    }
    msg.header_set(MSG_SEQ_NUM, format_u64(msg_seq_num));
    let ghost h3 = msg@.header;
    let ghost st = sending_time@;
    proof {
        lemma_set_new_tag(h3, SENDING_TIME, st);
    }
    msg.header_set(SENDING_TIME, sending_time);
    proof {
        lemma_lookup_set(h3, SENDING_TIME, st, SENDING_TIME);
    }
    assert(msg@.header =~= spec_standard_header(
        begin_string@,
        message.spec_message_type(),
        sender_comp_id@,
        target_comp_id@,
        msg_seq_num,
        st,
    ).header);
    assert(msg@ =~= spec_standard_header(
        begin_string@,
        message.spec_message_type(),
        sender_comp_id@,
        target_comp_id@,
        msg_seq_num,
        st,
    ));
    assert(lookup(msg@.header, SENDING_TIME) is Some);
    message.write(&mut msg);
    msg
}

/// The encoding of `message` sent with the given header values.
pub fn generate_message_at<M: OutboundMessage>(
    begin_string: &str,
    sender_comp_id: &str,
    target_comp_id: &str,
    msg_seq_num: u64,
    sending_time: Vec<u8>,
    message: &M,
) -> (r: Vec<u8>)
    requires
        message.spec_obeys(),
    ensures
        r@ == spec_encode(
            spec_build(
                begin_string@,
                sender_comp_id@,
                target_comp_id@,
                msg_seq_num,
                sending_time@,
                *message,
            ),
        ),
{
    let msg = build_message(
        begin_string,
        sender_comp_id,
        target_comp_id,
        msg_seq_num,
        sending_time,
        message,
    );
    msg.encode()
}

/// Why a message could not be encoded.
#[derive(Debug, Clone, Copy, PartialEq, Eq)]
pub enum EncodeError {
    /// The clock reads a time that has no FIX timestamp text.
    SendingTimeOutOfRange,
}

/// Encodes `message` with the standard header and the current time as SendingTime.
pub fn generate_message<M: OutboundMessage>(
    begin_string: &str,
    sender_comp_id: &str,
    target_comp_id: &str,
    msg_seq_num: u64,
    message: &M,
) -> (r: Result<Vec<u8>, EncodeError>)
    requires
        message.spec_obeys(),
    ensures
        match r {
            Ok(bytes) => exists|now: i64|
                #[trigger] fix_timestamp_text(now) is Some && bytes@ == spec_encode(
                    spec_build(
                        begin_string@,
                        sender_comp_id@,
                        target_comp_id@,
                        msg_seq_num,
                        fix_timestamp_text(now)->0,
                        *message,
                    ),
                ),
            Err(e) => e == EncodeError::SendingTimeOutOfRange && exists|now: i64|
                #[trigger] fix_timestamp_text(now) is None,
        },
{
    let now = crate::clock::utc_now_millis();
    match crate::timestamp::format_timestamp_millis(now) {
        Some(t) => Ok(
            generate_message_at(begin_string, sender_comp_id, target_comp_id, msg_seq_num, t, message),
        ),
        None => Err(EncodeError::SendingTimeOutOfRange),
    }
}

/// What preparing a stored message for resend does, with `now_text` the new SendingTime.
///
/// A message not yet marked as a possible duplicate with an OrigSendingTime gets its
/// SendingTime moved to OrigSendingTime (re-written in canonical form), a fresh
/// SendingTime and PossDupFlag=Y; one already marked only gets a fresh SendingTime.
pub open spec fn spec_prepare_for_resend(m: MessageView, now_text: Seq<u8>) -> (MessageView, Result<(), &'static str>) {
    let h = m.header;
    if lookup(h, SENDING_TIME) is None {
        (m, Err("Missing SendingTime (52)"))
    } else if field_bool(h, POSS_DUP_FLAG) == Some(true) && lookup(h, ORIG_SENDING_TIME) is Some {
        (m.with_header(set_field(pop_field(h, SENDING_TIME), SENDING_TIME, now_text)), Ok(()))
    } else {
        let popped = pop_field(h, SENDING_TIME);
        match fix_timestamp_value(lookup(h, SENDING_TIME)->0) {
            None => (m.with_header(popped), Err("Invalid original SendingTime format")),
            Some(orig) => match fix_timestamp_text(orig) {
                None => (m.with_header(popped), Err("Invalid original SendingTime format")),
                Some(orig_text) => (
                    m.with_header(
                        set_field(
                            set_field(
                                set_field(popped, ORIG_SENDING_TIME, orig_text),
                                SENDING_TIME,
                                now_text,
                            ),
                            POSS_DUP_FLAG,
                            bool_text(true),
                        ),
                    ),
                    Ok(()),
                ),
            },
        }
    }
}

/// Preparing for the first time a message whose SendingTime is the FIX text of
/// an instant succeeds and moves that very text to OrigSendingTime: the new
/// SendingTime is `now_text` and PossDupFlag is set.
pub proof fn law_first_resend_keeps_sending_time(m: MessageView, now_text: Seq<u8>, sent_at: i64)
    requires
        crate::timestamp::fix_timestamp_text(sent_at) is Some,
        lookup(m.header, SENDING_TIME) == crate::timestamp::fix_timestamp_text(sent_at),
        !(field_bool(m.header, POSS_DUP_FLAG) == Some(true) && lookup(m.header, ORIG_SENDING_TIME) is Some),
    ensures
        ({
            let (m1, r) = spec_prepare_for_resend(m, now_text);
            &&& r is Ok
            &&& lookup(m1.header, ORIG_SENDING_TIME) == lookup(m.header, SENDING_TIME)
            &&& lookup(m1.header, SENDING_TIME) == Some(now_text)
            &&& lookup(m1.header, POSS_DUP_FLAG) == Some(bool_text(true))
            &&& m1.body == m.body
        }),
{
    crate::timestamp::law_timestamp_round_trip(sent_at);
    let h = m.header;
    let popped = pop_field(h, SENDING_TIME);
    let orig_text = fix_timestamp_text(fix_timestamp_value(lookup(h, SENDING_TIME)->0)->0)->0;
    let a = set_field(popped, ORIG_SENDING_TIME, orig_text);
    let b = set_field(a, SENDING_TIME, now_text);
    lemma_lookup_set(popped, ORIG_SENDING_TIME, orig_text, ORIG_SENDING_TIME);
    lemma_lookup_set(a, SENDING_TIME, now_text, ORIG_SENDING_TIME);
    lemma_lookup_set(a, SENDING_TIME, now_text, SENDING_TIME);
    lemma_lookup_set(b, POSS_DUP_FLAG, bool_text(true), POSS_DUP_FLAG);
    lemma_lookup_set(b, POSS_DUP_FLAG, bool_text(true), ORIG_SENDING_TIME);
    lemma_lookup_set(b, POSS_DUP_FLAG, bool_text(true), SENDING_TIME);
}

/// Preparing an already prepared message for resend again succeeds, keeps its
/// OrigSendingTime, its PossDupFlag and its body, and gives it the new SendingTime.
pub proof fn law_resend_preparation_again(m: MessageView, t1: Seq<u8>, t2: Seq<u8>)
    requires
        spec_prepare_for_resend(m, t1).1 is Ok,
    ensures
        ({
            let m1 = spec_prepare_for_resend(m, t1).0;
            let (m2, r2) = spec_prepare_for_resend(m1, t2);
            &&& r2 is Ok
            &&& lookup(m2.header, SENDING_TIME) == Some(t2)
            &&& lookup(m2.header, ORIG_SENDING_TIME) == lookup(m1.header, ORIG_SENDING_TIME)
            &&& lookup(m2.header, POSS_DUP_FLAG) == lookup(m1.header, POSS_DUP_FLAG)
            &&& lookup(m1.header, POSS_DUP_FLAG) == Some(bool_text(true))
            &&& m2.body == m.body
        }),
{
    let h = m.header;
    let m1 = spec_prepare_for_resend(m, t1).0;
    let h1 = m1.header;
    if field_bool(h, POSS_DUP_FLAG) == Some(true) && lookup(h, ORIG_SENDING_TIME) is Some {
        let p = pop_field(h, SENDING_TIME);
        lemma_lookup_set(p, SENDING_TIME, t1, POSS_DUP_FLAG);
        lemma_lookup_set(p, SENDING_TIME, t1, ORIG_SENDING_TIME);
        lemma_lookup_pop(h, SENDING_TIME, POSS_DUP_FLAG);
        lemma_lookup_pop(h, SENDING_TIME, ORIG_SENDING_TIME);
        assert(spec_parse_bool(lookup(h, POSS_DUP_FLAG)->0) == Some(true));
        assert(lookup(h, POSS_DUP_FLAG)->0 =~= seq![89u8]);
    } else {
        let popped = pop_field(h, SENDING_TIME);
        let orig_text = fix_timestamp_text(fix_timestamp_value(lookup(h, SENDING_TIME)->0)->0)->0;
        let a = set_field(popped, ORIG_SENDING_TIME, orig_text);
        let b = set_field(a, SENDING_TIME, t1);
        lemma_lookup_set(popped, ORIG_SENDING_TIME, orig_text, ORIG_SENDING_TIME);
        lemma_lookup_set(a, SENDING_TIME, t1, ORIG_SENDING_TIME);
        lemma_lookup_set(a, SENDING_TIME, t1, SENDING_TIME);
        lemma_lookup_set(b, POSS_DUP_FLAG, bool_text(true), POSS_DUP_FLAG);
        lemma_lookup_set(b, POSS_DUP_FLAG, bool_text(true), ORIG_SENDING_TIME);
        lemma_lookup_set(b, POSS_DUP_FLAG, bool_text(true), SENDING_TIME);
    }
    assert(lookup(h1, SENDING_TIME) is Some);
    assert(field_bool(h1, POSS_DUP_FLAG) == Some(true));
    assert(lookup(h1, ORIG_SENDING_TIME) is Some);
    let p1 = pop_field(h1, SENDING_TIME);
    lemma_lookup_set(p1, SENDING_TIME, t2, SENDING_TIME);
    lemma_lookup_set(p1, SENDING_TIME, t2, ORIG_SENDING_TIME);
    lemma_lookup_set(p1, SENDING_TIME, t2, POSS_DUP_FLAG);
    lemma_lookup_pop(h1, SENDING_TIME, ORIG_SENDING_TIME);
    lemma_lookup_pop(h1, SENDING_TIME, POSS_DUP_FLAG);
}

/// Prepares a stored message for resend (PossDupFlag logic), `now_text` being the
/// SendingTime to give it.
pub fn prepare_message_for_resend_at(msg: &mut Message, now_text: Vec<u8>) -> (r: Result<(), &'static str>)
    ensures
        (final(msg)@, r) == spec_prepare_for_resend(old(msg)@, now_text@),
{
    if msg.header_get(SENDING_TIME).is_none() {
        return Err("Missing SendingTime (52)");
    }
    let already_poss_dup = match msg.header_bool(POSS_DUP_FLAG) {
        Some(b) => b,
        None => false,
    };
    let has_orig_sending_time = msg.header_get(ORIG_SENDING_TIME).is_some();
    if already_poss_dup && has_orig_sending_time {
        let _ = msg.header_pop(SENDING_TIME);
        msg.header_set(SENDING_TIME, now_text);
        return Ok(());
    }
    let original = msg.header_pop(SENDING_TIME);
    match original {
        Some(original) => {
            let parsed = crate::timestamp::parse_timestamp_millis(original.as_slice());
            match parsed {
                None => Err("Invalid original SendingTime format"),
                Some(ts) => match crate::timestamp::format_timestamp_millis(ts) {
                    None => Err("Invalid original SendingTime format"),
                    Some(orig_text) => {
                        msg.header_set(ORIG_SENDING_TIME, orig_text);
                        msg.header_set(SENDING_TIME, now_text);
                        msg.header_set(POSS_DUP_FLAG, format_bool(true));
                        Ok(())
                    },
                },
            }
        },
        None => Err("Failed to extract original SendingTime"),
    }
}

/// Prepares a stored message for resend per the FIX spec, with the current time
/// as the new SendingTime.
pub fn prepare_message_for_resend(msg: &mut Message) -> (r: Result<(), &'static str>)
    ensures
        lookup(old(msg)@.header, SENDING_TIME) is None ==> r == Err::<(), &'static str>("Missing SendingTime (52)")
            && final(msg)@ == old(msg)@,
        lookup(old(msg)@.header, SENDING_TIME) is Some ==> (r == Err::<(), &'static str>(
            "Failed to obtain current SendingTime",
        ) && final(msg)@ == old(msg)@ && exists|now: i64| #[trigger] fix_timestamp_text(now) is None) || exists|
            now: i64,
        |
            #[trigger] fix_timestamp_text(now) is Some && (final(msg)@, r) == spec_prepare_for_resend(
                old(msg)@,
                fix_timestamp_text(now)->0,
            ),
{
    if msg.header_get(SENDING_TIME).is_none() {
        return Err("Missing SendingTime (52)");
    }
    let now = crate::clock::utc_now_millis();
    match crate::timestamp::format_timestamp_millis(now) {
        Some(t) => {
            let ghost tv = t@;
            let r = prepare_message_for_resend_at(msg, t);
            assert((final(msg)@, r) == spec_prepare_for_resend(old(msg)@, tv));
            r
        },
        None => Err("Failed to obtain current SendingTime"),
    }
}

} // verus!
