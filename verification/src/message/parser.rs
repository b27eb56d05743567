//! Reading FIX messages from bytes.
use vstd::prelude::*;

use crate::decimal::{
    bytes_eq, copy_bytes, dec_text, format_u64, is_digit, lemma_dec_text_digits,
    lemma_parse_dec_text, parse_u64, spec_parse_u64, three_digit_text,
};
use crate::message::{
    body_text, byte_sum, checked_text, field_text, fields_text, fields_view, spec_encode, Field,
    Message, MessageView, BEGIN_STRING, BODY_LENGTH, CHECK_SUM, MSG_TYPE, SOH,
};

verus! {

/// Tags of the FIX 4.4 standard header (besides BeginString, BodyLength and MsgType).
pub open spec fn is_header_tag(tag: u32) -> bool {
    tag == 49 || tag == 56 || tag == 115 || tag == 128 || tag == 90 || tag == 91 || tag == 34
        || tag == 50 || tag == 142 || tag == 57 || tag == 143 || tag == 116 || tag == 144 || tag
        == 129 || tag == 145 || tag == 43 || tag == 97 || tag == 52 || tag == 122 || tag == 212
        || tag == 213 || tag == 347 || tag == 369 || tag == 627 || tag == 628 || tag == 629 || tag
        == 630
}

pub fn header_tag(tag: u32) -> (r: bool)
    ensures
        r == is_header_tag(tag),
{
    tag == 49 || tag == 56 || tag == 115 || tag == 128 || tag == 90 || tag == 91 || tag == 34
        || tag == 50 || tag == 142 || tag == 57 || tag == 143 || tag == 116 || tag == 144 || tag
        == 129 || tag == 145 || tag == 43 || tag == 97 || tag == 52 || tag == 122 || tag == 212
        || tag == 213 || tag == 347 || tag == 369 || tag == 627 || tag == 628 || tag == 629 || tag
        == 630
}

/// Whether a field value survives the tag=value framing: it holds no SOH.
pub open spec fn value_ok(v: Seq<u8>) -> bool {
    forall|i: int| 0 <= i < v.len() ==> v[i] != SOH
}

/// Whether every value of a run of fields holds no SOH.
pub open spec fn fields_ok(fs: Seq<(u32, Seq<u8>)>) -> bool {
    forall|i: int| 0 <= i < fs.len() ==> value_ok(#[trigger] fs[i].1)
}

/// A message that reads back from its encoding: no value holds SOH, the header
/// holds standard-header tags only, and the body does not begin with one.
pub open spec fn readable(m: MessageView) -> bool {
    &&& value_ok(m.begin_string)
    &&& value_ok(m.msg_type)
    &&& fields_ok(m.header)
    &&& fields_ok(m.body)
    &&& forall|i: int| 0 <= i < m.header.len() ==> is_header_tag(#[trigger] m.header[i].0)
    &&& m.body.len() > 0 ==> !is_header_tag(m.body[0].0)
}

/// The fields of the encoding of `m`, in order.
pub open spec fn wire_fields(m: MessageView) -> Seq<(u32, Seq<u8>)> {
    seq![
        (BEGIN_STRING, m.begin_string),
        (BODY_LENGTH, dec_text(body_text(m).len())),
        (MSG_TYPE, m.msg_type),
    ] + m.header + m.body + seq![(CHECK_SUM, three_digit_text(byte_sum(checked_text(m)) % 256))]
}

/// The index of the first `=` or SOH in `s` at or after `i`, or the length.
pub open spec fn tag_end(s: Seq<u8>, i: int) -> int
    decreases s.len() - i,
{
    if i < 0 || i >= s.len() {
        s.len() as int
    } else if s[i] == 61u8 || s[i] == SOH {
        i
    } else {
        tag_end(s, i + 1)
    }
}

/// The index of the first SOH in `s` at or after `i`, or the length.
pub open spec fn value_end(s: Seq<u8>, i: int) -> int
    decreases s.len() - i,
{
    if i < 0 || i >= s.len() {
        s.len() as int
    } else if s[i] == SOH {
        i
    } else {
        value_end(s, i + 1)
    }
}

/// The fields that `s` holds, read front to back: `None` where a field lacks
/// its `=` or its closing SOH, or a tag is not the canonical decimal text of a `u32`.
pub open spec fn split_fields(s: Seq<u8>) -> Option<Seq<(u32, Seq<u8>)>>
    decreases s.len(),
{
    if s.len() == 0 {
        Some(seq![])
    } else {
        let eq = tag_end(s, 0);
        let end = value_end(s, eq + 1);
        if eq < 0 || eq >= s.len() || s[eq] != 61u8 || end < eq + 1 || end >= s.len() {
            None
        } else {
            match spec_parse_u64(s.subrange(0, eq)) {
                None => None,
                Some(tag) => if tag > u32::MAX || dec_text(tag as nat) != s.subrange(0, eq) {
                    None
                } else {
                    match split_fields(s.subrange(end + 1, s.len() as int)) {
                        None => None,
                        Some(rest) => Some(seq![(tag as u32, s.subrange(eq + 1, end))] + rest),
                    }
                },
            }
        }
    }
}

/// `a` in front of what `o` holds, if anything.
pub open spec fn prepend(
    a: Seq<(u32, Seq<u8>)>,
    o: Option<Seq<(u32, Seq<u8>)>>,
) -> Option<Seq<(u32, Seq<u8>)>> {
    match o {
        Some(r) => Some(a + r),
        None => None,
    }
}

proof fn lemma_tag_end(s: Seq<u8>, i: int)
    requires
        0 <= i <= s.len(),
    ensures
        i <= tag_end(s, i) <= s.len(),
        forall|k: int| i <= k < tag_end(s, i) ==> s[k] != 61u8 && s[k] != SOH,
        tag_end(s, i) < s.len() ==> s[tag_end(s, i)] == 61u8 || s[tag_end(s, i)] == SOH,
    decreases s.len() - i,
{
    if i < s.len() && s[i] != 61u8 && s[i] != SOH {
        lemma_tag_end(s, i + 1);
    }
}

proof fn lemma_tag_end_at(s: Seq<u8>, i: int, k: int)
    requires
        0 <= i <= k <= s.len(),
        forall|j: int| i <= j < k ==> s[j] != 61u8 && s[j] != SOH,
        k < s.len() ==> s[k] == 61u8 || s[k] == SOH,
    ensures
        tag_end(s, i) == k,
    decreases k - i,
{
    if i < k {
        lemma_tag_end_at(s, i + 1, k);
    }
}

proof fn lemma_value_end(s: Seq<u8>, i: int)
    requires
        0 <= i <= s.len(),
    ensures
        i <= value_end(s, i) <= s.len(),
        forall|k: int| i <= k < value_end(s, i) ==> s[k] != SOH,
        value_end(s, i) < s.len() ==> s[value_end(s, i)] == SOH,
    decreases s.len() - i,
{
    if i < s.len() && s[i] != SOH {
        lemma_value_end(s, i + 1);
    }
}

proof fn lemma_value_end_at(s: Seq<u8>, i: int, k: int)
    requires
        0 <= i <= k <= s.len(),
        forall|j: int| i <= j < k ==> s[j] != SOH,
        k < s.len() ==> s[k] == SOH,
    ensures
        value_end(s, i) == k,
    decreases k - i,
{
    if i < k {
        lemma_value_end_at(s, i + 1, k);
    }
}

/// The text of one field as a run.
proof fn lemma_fields_text_one(f: (u32, Seq<u8>))
    ensures
        fields_text(seq![f]) == field_text(f.0, f.1),
{
    let s = seq![f];
    assert(s.drop_last() =~= Seq::<(u32, Seq<u8>)>::empty());
    assert(s.last() == f);
    assert(fields_text(s.drop_last()) =~= Seq::<u8>::empty());
    assert(Seq::<u8>::empty() + field_text(f.0, f.1) =~= field_text(f.0, f.1));
}

/// The text of two runs of fields is the text of the first, then the second.
pub proof fn lemma_fields_text_add(a: Seq<(u32, Seq<u8>)>, b: Seq<(u32, Seq<u8>)>)
    ensures
        fields_text(a + b) == fields_text(a) + fields_text(b),
    decreases b.len(),
{
    if b.len() == 0 {
        assert(a + b =~= a);
        assert(fields_text(b) =~= Seq::<u8>::empty());
        assert(fields_text(a) + fields_text(b) =~= fields_text(a));
    } else {
        lemma_fields_text_add(a, b.drop_last());
        assert((a + b).drop_last() =~= a + b.drop_last());
        assert((a + b).last() == b.last());
        assert(fields_text(a + b) =~= fields_text(a) + fields_text(b));
    }
}

/// Reading the text of fields whose values hold no SOH gives those fields back.
pub proof fn lemma_split_complete(fs: Seq<(u32, Seq<u8>)>)
    requires
        fields_ok(fs),
    ensures
        split_fields(fields_text(fs)) == Some(fs),
    decreases fs.len(),
{
    if fs.len() > 0 {
        let f = fs[0];
        let rest = fs.subrange(1, fs.len() as int);
        assert(fs =~= seq![f] + rest);
        assert(fields_ok(rest)) by {
            assert forall|i: int| 0 <= i < rest.len() implies value_ok(#[trigger] rest[i].1) by {
                assert(rest[i] == fs[i + 1]);
            }
        }
        lemma_fields_text_add(seq![f], rest);
        lemma_fields_text_one(f);
        let s = fields_text(fs);
        let d = dec_text(f.0 as nat);
        let v = f.1;
        let rs = fields_text(rest);
        assert(s =~= d + seq![61u8] + v + seq![SOH] + rs);
        lemma_dec_text_digits(f.0 as nat);
        let l = d.len() as int;
        assert forall|j: int| 0 <= j < l implies s[j] != 61u8 && s[j] != SOH by {
            assert(s[j] == d[j]);
            assert(is_digit(d[j]));
        }
        lemma_tag_end_at(s, 0, l);
        assert(value_ok(v));
        assert forall|j: int| l + 1 <= j < l + 1 + v.len() implies s[j] != SOH by {
            assert(s[j] == v[j - l - 1]);
        }
        lemma_value_end_at(s, l + 1, l + 1 + v.len());
        assert(s.subrange(0, l) =~= d);
        lemma_parse_dec_text(f.0 as u64);
        assert(s.subrange(l + 1, l + 1 + v.len()) =~= v);
        assert(s.subrange(l + 2 + v.len(), s.len() as int) =~= rs);
        lemma_split_complete(rest);
    } else {
        assert(fields_text(fs) =~= Seq::<u8>::empty());
    }
}

/// What `split_fields` reads is a run of fields whose text is the input.
pub proof fn lemma_split_sound(s: Seq<u8>)
    ensures
        split_fields(s) matches Some(fs) ==> fields_ok(fs) && fields_text(fs) == s,
    decreases s.len(),
{
    if s.len() > 0 {
        let eq = tag_end(s, 0);
        lemma_tag_end(s, 0);
        if 0 <= eq < s.len() {
            lemma_value_end(s, eq + 1);
        }
        let end = value_end(s, eq + 1);
        if !(eq < 0 || eq >= s.len() || s[eq] != 61u8 || end < eq + 1 || end >= s.len()) {
            if let Some(tag) = spec_parse_u64(s.subrange(0, eq)) {
                if !(tag > u32::MAX || dec_text(tag as nat) != s.subrange(0, eq)) {
                    let rs = s.subrange(end + 1, s.len() as int);
                    lemma_split_sound(rs);
                    if let Some(rest) = split_fields(rs) {
                        let v = s.subrange(eq + 1, end);
                        let f = (tag as u32, v);
                        assert(value_ok(v));
                        let fs = seq![f] + rest;
                        assert(fields_ok(fs)) by {
                            assert forall|i: int| 0 <= i < fs.len() implies value_ok(
                                #[trigger] fs[i].1,
                            ) by {
                                if i > 0 {
                                    assert(fs[i] == rest[i - 1]);
                                }
                            }
                        }
                        lemma_fields_text_add(seq![f], rest);
                        lemma_fields_text_one(f);
                        assert(s =~= s.subrange(0, eq) + seq![61u8] + v + seq![SOH] + rs);
                    }
                }
            }
        }
    }
}

/// Fields whose values hold no SOH are determined by their text.
pub proof fn lemma_fields_text_unique(a: Seq<(u32, Seq<u8>)>, b: Seq<(u32, Seq<u8>)>)
    requires
        fields_ok(a),
        fields_ok(b),
        fields_text(a) == fields_text(b),
    ensures
        a == b,
{
    lemma_split_complete(a);
    lemma_split_complete(b);
}

/// Readable messages with the same encoding are the same message: what
/// `decode` reads from the encoding of a readable message is that message.
pub proof fn law_encoding_determines_message(a: MessageView, b: MessageView)
    requires
        readable(a),
        readable(b),
        spec_encode(a) == spec_encode(b),
    ensures
        a == b,
{
    lemma_encode_wire(a);
    lemma_encode_wire(b);
    lemma_wire_ok(a);
    lemma_wire_ok(b);
    lemma_fields_text_unique(wire_fields(a), wire_fields(b));
    let wa = wire_fields(a);
    let wb = wire_fields(b);
    assert(wa[0] == wb[0] && wa[2] == wb[2]);
    assert(wa.len() == wb.len());
    let n = wa.len() as int;
    assert(a.header + a.body =~= wa.subrange(3, n - 1));
    assert(b.header + b.body =~= wb.subrange(3, n - 1));
    lemma_header_split(a.header, a.body, b.header, b.body);
    assert(a =~= b);
}

/// The encoding of a message is the text of its wire fields.
pub proof fn lemma_encode_wire(m: MessageView)
    ensures
        spec_encode(m) == fields_text(wire_fields(m)),
{
    let a = seq![
        (BEGIN_STRING, m.begin_string),
        (BODY_LENGTH, dec_text(body_text(m).len())),
        (MSG_TYPE, m.msg_type),
    ];
    let c = seq![(CHECK_SUM, three_digit_text(byte_sum(checked_text(m)) % 256))];
    lemma_fields_text_add(a + m.header + m.body, c);
    lemma_fields_text_add(a + m.header, m.body);
    lemma_fields_text_add(a, m.header);
    lemma_fields_text_one(c[0]);
    assert(c =~= seq![c[0]]);
    let x = (BEGIN_STRING, m.begin_string);
    let y = (BODY_LENGTH, dec_text(body_text(m).len()));
    let z = (MSG_TYPE, m.msg_type);
    assert(a =~= seq![x] + seq![y] + seq![z]);
    lemma_fields_text_add(seq![x] + seq![y], seq![z]);
    lemma_fields_text_add(seq![x], seq![y]);
    lemma_fields_text_one(x);
    lemma_fields_text_one(y);
    lemma_fields_text_one(z);
    assert(spec_encode(m) =~= fields_text(wire_fields(m)));
}

/// The wire fields of a readable message hold no SOH.
pub proof fn lemma_wire_ok(m: MessageView)
    requires
        readable(m),
    ensures
        fields_ok(wire_fields(m)),
{
    let w = wire_fields(m);
    let bl = dec_text(body_text(m).len());
    let cs = three_digit_text(byte_sum(checked_text(m)) % 256);
    lemma_dec_text_digits(body_text(m).len());
    assert(value_ok(bl)) by {
        assert forall|i: int| 0 <= i < bl.len() implies bl[i] != SOH by {
            assert(is_digit(bl[i]));
        }
    }
    assert(value_ok(cs));
    let hl = m.header.len() as int;
    let bodyl = m.body.len() as int;
    assert forall|i: int| 0 <= i < w.len() implies value_ok(#[trigger] w[i].1) by {
        if 3 <= i < 3 + hl {
            assert(w[i] == m.header[i - 3]);
        } else if 3 + hl <= i < 3 + hl + bodyl {
            assert(w[i] == m.body[i - 3 - hl]);
        }
    }
}

/// Splits `tag=value<SOH>` fields front to back. `None` where the bytes do not
/// end with a separator, a field lacks `=`, or a tag is not a canonical decimal `u32`.
pub fn parse_fields(bytes: &[u8]) -> (r: Option<Vec<Field>>)
    ensures
        match r {
            Some(fs) => split_fields(bytes@) == Some(fields_view(fs@)),
            None => split_fields(bytes@) is None,
        },
{
    let mut fields: Vec<Field> = Vec::new();
    let mut pos: usize = 0;
    assert(bytes@.subrange(0, bytes@.len() as int) =~= bytes@);
    assert(fields_view(fields@) =~= Seq::<(u32, Seq<u8>)>::empty());
    assert(prepend(fields_view(fields@), split_fields(bytes@)) =~= split_fields(bytes@)) by {
        if let Some(r) = split_fields(bytes@) {
            assert(fields_view(fields@) + r =~= r);
        }
    }
    while pos < bytes.len()
        invariant
            0 <= pos <= bytes.len(),
            split_fields(bytes@) == prepend(
                fields_view(fields@),
                split_fields(bytes@.subrange(pos as int, bytes@.len() as int)),
            ),
        decreases bytes.len() - pos,
    {
        let ghost s = bytes@.subrange(pos as int, bytes@.len() as int);
        let mut eq = pos;
        while eq < bytes.len() && bytes[eq] != 61u8 && bytes[eq] != SOH
            invariant
                pos <= eq <= bytes.len(),
                forall|k: int| pos <= k < eq ==> bytes@[k] != 61u8 && bytes@[k] != SOH,
            decreases bytes.len() - eq,
        {
            eq = eq + 1;
        }
        proof {
            lemma_tag_end_at(s, 0, eq - pos);
        }
        if eq == bytes.len() || bytes[eq] != 61u8 {
            return None;
        }
        let mut end = eq + 1;
        while end < bytes.len() && bytes[end] != SOH
            invariant
                eq + 1 <= end <= bytes.len(),
                forall|k: int| eq + 1 <= k < end ==> bytes@[k] != SOH,
            decreases bytes.len() - end,
        {
            end = end + 1;
        }
        proof {
            lemma_value_end_at(s, eq - pos + 1, end - pos);
        }
        if end == bytes.len() {
            return None;
        }
        let tag_bytes = &bytes[pos..eq];
        assert(tag_bytes@ =~= s.subrange(0, eq - pos));
        let tag = match parse_u64(tag_bytes) {
            Some(t) => t,
            None => return None,
        };
        if tag > u32::MAX as u64 {
            return None;
        }
        let canonical = format_u64(tag);
        if !bytes_eq(canonical.as_slice(), tag_bytes) {
            return None;
        }
        let value = copy_bytes(&bytes[eq + 1..end]);
        let ghost before = fields_view(fields@);
        let ghost rest = bytes@.subrange(end + 1, bytes@.len() as int);
        proof {
            assert(value@ =~= s.subrange(eq - pos + 1, end - pos));
            assert(s.subrange(end - pos + 1, s.len() as int) =~= rest);
        }
        fields.push(Field { tag: tag as u32, value });
        proof {
            let now = fields_view(fields@);
            assert(now =~= before + seq![(tag as u32, value@)]);
            match split_fields(rest) {
                Some(r) => {
                    assert(now + r =~= before + (seq![(tag as u32, value@)] + r));
                },
                None => {},
            }
        }
        pos = end + 1;
    }
    proof {
        assert(bytes@.subrange(pos as int, bytes@.len() as int) =~= Seq::<u8>::empty());
        assert(fields_view(fields@) + Seq::<(u32, Seq<u8>)>::empty() =~= fields_view(fields@));
    }
    Some(fields)
}

/// A split of the fields after MsgType into a header of standard-header tags
/// and a body that does not begin with one is the only such split.
proof fn lemma_header_split(
    h: Seq<(u32, Seq<u8>)>,
    b: Seq<(u32, Seq<u8>)>,
    vh: Seq<(u32, Seq<u8>)>,
    vb: Seq<(u32, Seq<u8>)>,
)
    requires
        h + b == vh + vb,
        forall|i: int| 0 <= i < h.len() ==> is_header_tag(#[trigger] h[i].0),
        b.len() > 0 ==> !is_header_tag(b[0].0),
        forall|i: int| 0 <= i < vh.len() ==> is_header_tag(#[trigger] vh[i].0),
        vb.len() > 0 ==> !is_header_tag(vb[0].0),
    ensures
        h == vh,
        b == vb,
{
    let hb = h + b;
    if h.len() < vh.len() {
        assert(hb[h.len() as int] == b[0]);
        assert((vh + vb)[h.len() as int] == vh[h.len() as int]);
    } else if h.len() > vh.len() {
        assert(hb[vh.len() as int] == h[vh.len() as int]);
        assert((vh + vb)[vh.len() as int] == vb[0]);
    } else {
        assert(h =~= hb.subrange(0, h.len() as int));
        assert(vh =~= (vh + vb).subrange(0, vh.len() as int));
        assert(b =~= hb.subrange(h.len() as int, hb.len() as int));
        assert(vb =~= (vh + vb).subrange(vh.len() as int, hb.len() as int));
    }
}

/// Reads one encoded FIX message: BeginString, BodyLength and MsgType first,
/// then the header fields, the body and the CheckSum. A message comes back
/// exactly when the bytes are the encoding of a readable message, BodyLength
/// and CheckSum included; `None` marks a garbled message.
pub fn decode(bytes: &[u8]) -> (r: Option<Message>)
    ensures
        match r {
            Some(m) => readable(m@) && spec_encode(m@) == bytes@,
            None => forall|v: MessageView| readable(v) ==> spec_encode(v) != bytes@,
        },
{
    let fields = match parse_fields(bytes) {
        Some(fs) => fs,
        None => {
            proof {
                assert forall|v: MessageView| readable(v) implies spec_encode(v) != bytes@ by {
                    lemma_encode_wire(v);
                    lemma_wire_ok(v);
                    lemma_split_complete(wire_fields(v));
                }
            }
            return None;
        },
    };
    let ghost f = fields_view(fields@);
    proof {
        lemma_split_sound(bytes@);
        assert forall|v: MessageView| readable(v) && spec_encode(v) == bytes@ implies wire_fields(v)
            == f by {
            lemma_encode_wire(v);
            lemma_wire_ok(v);
            lemma_split_complete(wire_fields(v));
        }
    }
    let n = fields.len();
    if n < 4 || fields[0].tag != BEGIN_STRING || fields[1].tag != BODY_LENGTH || fields[2].tag
        != MSG_TYPE || fields[n - 1].tag != CHECK_SUM {
        proof {
            assert forall|v: MessageView| readable(v) implies spec_encode(v) != bytes@ by {
                if spec_encode(v) == bytes@ {
                    let w = wire_fields(v);
                    assert(w == f);
                    assert(w[0].0 == BEGIN_STRING && w[1].0 == BODY_LENGTH && w[2].0 == MSG_TYPE);
                    assert(w[w.len() - 1].0 == CHECK_SUM);
                    assert(f[n - 1] == fields@[n - 1]@);
                }
            }
        }
        return None;
    }
    let mut header: Vec<Field> = Vec::new();
    let mut body: Vec<Field> = Vec::new();
    let mut i: usize = 3;
    let mut in_header = true;
    assert(fields_view(header@) + fields_view(body@) =~= f.subrange(3, 3));
    while i < n - 1
        invariant
            3 <= i <= n - 1,
            n == fields.len(),
            f == fields_view(fields@),
            fields_view(header@) + fields_view(body@) == f.subrange(3, i as int),
            forall|k: int|
                0 <= k < fields_view(header@).len() ==> is_header_tag(
                    #[trigger] fields_view(header@)[k].0,
                ),
            in_header ==> body@.len() == 0,
            !in_header ==> body@.len() > 0 && !is_header_tag(body@[0].tag),
        decreases n - 1 - i,
    {
        let fld = &fields[i];
        let value = copy_bytes(fld.value.as_slice());
        let ghost h0 = fields_view(header@);
        let ghost b0 = fields_view(body@);
        let ghost fi = f[i as int];
        assert(fi == fields@[i as int]@);
        assert(fi == (fld.tag, value@));
        if in_header && header_tag(fld.tag) {
            header.push(Field { tag: fld.tag, value });
            assert(fields_view(header@) =~= h0.push(fi));
            assert(b0 =~= Seq::<(u32, Seq<u8>)>::empty());
            assert(fields_view(header@) + fields_view(body@) =~= (h0 + b0).push(fi));
        } else {
            in_header = false;
            body.push(Field { tag: fld.tag, value });
            assert(fields_view(body@) =~= b0.push(fi));
            assert(fields_view(header@) + fields_view(body@) =~= (h0 + b0).push(fi));
        }
        assert(f.subrange(3, i + 1) =~= f.subrange(3, i as int).push(fi));
        i = i + 1;
    }
    let m = Message {
        begin_string: copy_bytes(fields[0].value.as_slice()),
        msg_type: copy_bytes(fields[2].value.as_slice()),
        header,
        body,
    };
    let ghost hv = m@.header;
    let ghost bv = m@.body;
    proof {
        assert(f[0] == fields@[0]@ && f[2] == fields@[2]@);
        assert(value_ok(f[0].1) && value_ok(f[2].1));
        assert forall|k: int| 0 <= k < hv.len() implies value_ok(#[trigger] hv[k].1) by {
            assert(hv[k] == (hv + bv)[k]);
            assert((hv + bv)[k] == f[3 + k]);
        }
        assert forall|k: int| 0 <= k < bv.len() implies value_ok(#[trigger] bv[k].1) by {
            assert(bv[k] == (hv + bv)[hv.len() + k]);
            assert((hv + bv)[hv.len() + k] == f[3 + hv.len() + k]);
        }
        if bv.len() > 0 {
            assert(bv[0].0 == m.body@[0].tag);
        }
        assert(readable(m@));
    }
    let encoded = m.encode();
    if bytes_eq(encoded.as_slice(), bytes) {
        Some(m)
    } else {
        proof {
            assert forall|v: MessageView| readable(v) implies spec_encode(v) != bytes@ by {
                if spec_encode(v) == bytes@ {
                    let w = wire_fields(v);
                    assert(w == f);
                    let nn = n as int;
                    assert(f.subrange(3, nn - 1) =~= v.header + v.body) by {
                        assert(w.len() == 4 + v.header.len() + v.body.len());
                        assert forall|k: int| 0 <= k < nn - 4 implies f.subrange(3, nn - 1)[k] == (
                        v.header + v.body)[k] by {
                            assert(f.subrange(3, nn - 1)[k] == w[3 + k]);
                        }
                    }
                    lemma_header_split(hv, bv, v.header, v.body);
                    assert(w[0] == f[0] && w[2] == f[2]);
                    assert(m@ =~= v);
                }
            }
        }
        None
    }
}

} // verus!
