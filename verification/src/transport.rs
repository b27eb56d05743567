//! What the session hands to the connection's writer, and the framing of the
//! inbound byte stream into FIX messages.
use vstd::prelude::*;

use crate::decimal::{
    append_bytes, copy_bytes, dec_text, is_digit, lemma_dec_text_digits, parse_u64, spec_parse_u64,
    three_digit_text,
};
use crate::message::{body_text, byte_sum, checked_text, field_text, spec_encode, MessageView, SOH};
use crate::message::parser::value_ok;

verus! {

/// An instruction for the writer half of the connection.
#[derive(Debug)]
pub enum WriterMessage {
    /// Write these encoded bytes.
    SendMessage(Vec<u8>),
    /// Close the connection.
    Disconnect,
}

/// A message for the reader half of the connection; the reader takes no
/// instructions yet.
#[derive(Clone, Debug)]
pub struct ReaderMessage;

/// What a writer instruction asks for, as bytes.
pub enum WriterAction {
    Send(Seq<u8>),
    Disconnect,
}

impl View for WriterMessage {
    type V = WriterAction;

    open spec fn view(&self) -> WriterAction {
        match self {
            WriterMessage::SendMessage(b) => WriterAction::Send(b@),
            WriterMessage::Disconnect => WriterAction::Disconnect,
        }
    }
}

/// The actions a sequence of writer instructions asks for, in order.
pub open spec fn actions(s: Seq<WriterMessage>) -> Seq<WriterAction> {
    s.map_values(|m: WriterMessage| m@)
}

/// Appending an instruction appends its action.
pub proof fn lemma_actions_push(s: Seq<WriterMessage>, m: WriterMessage)
    ensures
        actions(s.push(m)) == actions(s).push(m@),
{
    assert(actions(s.push(m)) =~= actions(s).push(m@));
}

/// How the bytes at the front of the inbound stream begin.
#[derive(Debug, Clone, Copy, PartialEq, Eq, Structural)]
pub enum FrameStatus {
    /// A whole message of this many bytes.
    Complete(usize),
    /// The start of a message whose end has not arrived yet.
    Incomplete,
    /// Not the start of a message.
    Malformed,
}

/// The index of the first SOH at or after `i`, or the length when there is none.
pub open spec fn soh_from(b: Seq<u8>, i: int) -> int
    decreases b.len() - i,
{
    if i >= b.len() || i < 0 {
        b.len() as int
    } else if b[i] == SOH {
        i
    } else {
        soh_from(b, i + 1)
    }
}

/// The index of the first byte at or after `i` that is no ASCII digit, or the length.
pub open spec fn digits_from(b: Seq<u8>, i: int) -> int
    decreases b.len() - i,
{
    if i >= b.len() || i < 0 {
        b.len() as int
    } else if !is_digit(b[i]) {
        i
    } else {
        digits_from(b, i + 1)
    }
}

/// How the bytes `b` begin. A message is `8=` (BeginString) up to SOH, then
/// `9=` with the decimal BodyLength and SOH, then BodyLength bytes, then the
/// seven bytes of `10=nnn` and SOH. Bytes that cannot begin such a message are
/// malformed; a beginning that is right so far but cut short is incomplete.
pub open spec fn frame_status(b: Seq<u8>) -> FrameStatus {
    if b.len() == 0 {
        FrameStatus::Incomplete
    } else if b[0] != 56u8 {
        FrameStatus::Malformed
    } else if b.len() < 2 {
        FrameStatus::Incomplete
    } else if b[1] != 61u8 {
        FrameStatus::Malformed
    } else {
        let i1 = soh_from(b, 2);
        let p = i1 + 1;
        if p >= b.len() {
            FrameStatus::Incomplete
        } else if b[p] != 57u8 {
            FrameStatus::Malformed
        } else if p + 1 >= b.len() {
            FrameStatus::Incomplete
        } else if b[p + 1] != 61u8 {
            FrameStatus::Malformed
        } else {
            let d = digits_from(b, p + 2);
            if d >= b.len() {
                FrameStatus::Incomplete
            } else if b[d] != SOH {
                FrameStatus::Malformed
            } else {
                match spec_parse_u64(b.subrange(p + 2, d)) {
                    None => FrameStatus::Malformed,
                    Some(body_length) => {
                        let total = d + 1 + body_length + 7;
                        if total > b.len() {
                            FrameStatus::Incomplete
                        } else {
                            FrameStatus::Complete(total as usize)
                        }
                    },
                }
            }
        }
    }
}

/// The messages at the front of `b`, in order, and the bytes left for later:
/// whole messages are taken, a malformed byte is dropped, and an incomplete
/// message is kept.
pub open spec fn split_frames(b: Seq<u8>) -> (Seq<Seq<u8>>, Seq<u8>)
    decreases b.len(),
{
    match frame_status(b) {
        FrameStatus::Complete(n) => if 0 < n <= b.len() {
            let rest = split_frames(b.subrange(n as int, b.len() as int));
            (seq![b.subrange(0, n as int)] + rest.0, rest.1)
        } else {
            (seq![], b)
        },
        FrameStatus::Incomplete => (seq![], b),
        FrameStatus::Malformed => if b.len() > 0 {
            split_frames(b.subrange(1, b.len() as int))
        } else {
            (seq![], b)
        },
    }
}

/// The index of the first SOH in `b` at or after `i`.
fn find_soh(b: &[u8], i: usize) -> (r: usize)
    requires
        i <= b@.len(),
    ensures
        r == soh_from(b@, i as int),
        i <= r <= b@.len(),
{
    let mut j = i;
    while j < b.len()
        invariant
            i <= j <= b@.len(),
            soh_from(b@, i as int) == soh_from(b@, j as int),
        decreases b@.len() - j,
    {
        if b[j] == SOH {
            return j;
        }
        j = j + 1;
    }
    j
}

/// The index of the first byte in `b` at or after `i` that is no digit.
fn find_non_digit(b: &[u8], i: usize) -> (r: usize)
    requires
        i <= b@.len(),
    ensures
        r == digits_from(b@, i as int),
        i <= r <= b@.len(),
{
    let mut j = i;
    while j < b.len()
        invariant
            i <= j <= b@.len(),
            digits_from(b@, i as int) == digits_from(b@, j as int),
        decreases b@.len() - j,
    {
        if !(48u8 <= b[j] && b[j] <= 57u8) {
            return j;
        }
        j = j + 1;
    }
    j
}

/// How the bytes `b` begin.
pub fn frame_status_of(b: &[u8]) -> (r: FrameStatus)
    ensures
        r == frame_status(b@),
{
    let n = b.len();
    if n == 0 {
        return FrameStatus::Incomplete;
    }
    if b[0] != 56u8 {
        return FrameStatus::Malformed;
    }
    if n < 2 {
        return FrameStatus::Incomplete;
    }
    if b[1] != 61u8 {
        return FrameStatus::Malformed;
    }
    let i1 = find_soh(b, 2);
    if i1 >= n || i1 + 1 >= n {
        return FrameStatus::Incomplete;
    }
    let p = i1 + 1;
    if b[p] != 57u8 {
        return FrameStatus::Malformed;
    }
    if p + 1 >= n {
        return FrameStatus::Incomplete;
    }
    if b[p + 1] != 61u8 {
        return FrameStatus::Malformed;
    }
    let d = find_non_digit(b, p + 2);
    if d >= n {
        return FrameStatus::Incomplete;
    }
    if b[d] != SOH {
        return FrameStatus::Malformed;
    }
    let digits = vstd::slice::slice_subrange(b, p + 2, d);
    let body_length = match parse_u64(digits) {
        Some(v) => v,
        None => return FrameStatus::Malformed,
    };
    let total: u128 = d as u128 + 1 + body_length as u128 + 7;
    if total > n as u128 {
        FrameStatus::Incomplete
    } else {
        FrameStatus::Complete(total as usize)
    }
}

/// Splits the inbound byte stream into FIX messages, keeping an incomplete
/// one until the rest of it arrives.
pub struct Parser {
    buffer: Vec<u8>,
}

impl Parser {
    /// The bytes kept for the next call.
    pub closed spec fn pending(&self) -> Seq<u8> {
        self.buffer@
    }

    pub fn new() -> (r: Parser)
        ensures
            r.pending().len() == 0,
    {
        Parser { buffer: Vec::new() }
    }

    /// Takes the next bytes read from the connection and gives the messages
    /// they complete, in order.
    pub fn parse(&mut self, data: &[u8]) -> (r: Vec<Vec<u8>>)
        ensures
            (r.deep_view(), final(self).pending()) == split_frames(old(self).pending() + data@),
    {
        let mut all: Vec<u8> = Vec::new();
        std::mem::swap(&mut all, &mut self.buffer);
        append_bytes(&mut all, data);
        let ghost total = all@;
        assert(total == old(self).pending() + data@);
        let mut out: Vec<Vec<u8>> = Vec::new();
        let mut start: usize = 0;
        assert(out.deep_view() =~= Seq::<Seq<u8>>::empty());
        assert(total.subrange(0, total.len() as int) =~= total);
        assert(out.deep_view() + split_frames(total).0 =~= split_frames(total).0);
        loop
            invariant
                0 <= start <= all@.len(),
                all@ == total,
                split_frames(total) == (
                    out.deep_view() + split_frames(total.subrange(start as int, total.len() as int)).0,
                    split_frames(total.subrange(start as int, total.len() as int)).1,
                ),
            ensures
                0 <= start <= all@.len(),
                all@ == total,
                split_frames(total.subrange(start as int, total.len() as int)) == (
                    Seq::<Seq<u8>>::empty(),
                    total.subrange(start as int, total.len() as int),
                ),
                split_frames(total) == (
                    out.deep_view() + split_frames(total.subrange(start as int, total.len() as int)).0,
                    split_frames(total.subrange(start as int, total.len() as int)).1,
                ),
            decreases total.len() - start,
        {
            let rest = vstd::slice::slice_subrange(all.as_slice(), start, all.len());
            let ghost rv = rest@;
            match frame_status_of(rest) {
                FrameStatus::Complete(n) => {
                    if n == 0 || n > rest.len() {
                        break;
                    }
                    let frame = copy_bytes(vstd::slice::slice_subrange(rest, 0, n));
                    proof {
                        assert(rv.subrange(n as int, rv.len() as int) =~= total.subrange(
                            start + n,
                            total.len() as int,
                        ));
                        assert(frame.deep_view() =~= frame@);
                    }
                    let ghost before = out.deep_view();
                    out.push(frame);
                    assert(out.deep_view() =~= before.push(frame@));
                    start = start + n;
                },
                FrameStatus::Incomplete => break,
                FrameStatus::Malformed => {
                    proof {
                        assert(rv.subrange(1, rv.len() as int) =~= total.subrange(
                            start + 1,
                            total.len() as int,
                        ));
                    }
                    start = start + 1;
                },
            }
        }
        let left = copy_bytes(vstd::slice::slice_subrange(all.as_slice(), start, all.len()));
        self.buffer = left;
        assert(split_frames(total.subrange(start as int, total.len() as int)).0 =~= Seq::<Seq<u8>>::empty());
        assert(out.deep_view() + Seq::<Seq<u8>>::empty() =~= out.deep_view());
        out
    }
}

/// The first SOH at or after `i` lies between `i` and the end.
proof fn lemma_soh_bounds(b: Seq<u8>, i: int)
    requires
        0 <= i <= b.len(),
    ensures
        i <= soh_from(b, i) <= b.len(),
    decreases b.len() - i,
{
    if i < b.len() && b[i] != SOH {
        lemma_soh_bounds(b, i + 1);
    }
}

/// The first non-digit at or after `i` lies between `i` and the end.
proof fn lemma_digits_bounds(b: Seq<u8>, i: int)
    requires
        0 <= i <= b.len(),
    ensures
        i <= digits_from(b, i) <= b.len(),
    decreases b.len() - i,
{
    if i < b.len() && is_digit(b[i]) {
        lemma_digits_bounds(b, i + 1);
    }
}

/// Extra bytes after `x` do not move the first SOH found within `x`.
proof fn lemma_soh_prefix(x: Seq<u8>, y: Seq<u8>, i: int)
    requires
        0 <= i,
        soh_from(x, i) < x.len(),
    ensures
        soh_from(x + y, i) == soh_from(x, i),
    decreases x.len() - i,
{
    assert((x + y)[i] == x[i]);
    if x[i] != SOH {
        lemma_soh_prefix(x, y, i + 1);
    }
}

/// Extra bytes after `x` do not move the first non-digit found within `x`.
proof fn lemma_digits_prefix(x: Seq<u8>, y: Seq<u8>, i: int)
    requires
        0 <= i,
        digits_from(x, i) < x.len(),
    ensures
        digits_from(x + y, i) == digits_from(x, i),
    decreases x.len() - i,
{
    assert((x + y)[i] == x[i]);
    if is_digit(x[i]) {
        lemma_digits_prefix(x, y, i + 1);
    }
}

/// Whether the front of the stream is whole or malformed is decided by the
/// bytes already there: more bytes do not change it.
proof fn lemma_frame_status_prefix(x: Seq<u8>, y: Seq<u8>)
    requires
        !(frame_status(x) is Incomplete),
    ensures
        frame_status(x + y) == frame_status(x),
{
    let b = x + y;
    if x.len() == 0 {
    } else if x[0] != 56u8 {
        assert(b[0] == x[0]);
    } else if x.len() < 2 {
    } else if x[1] != 61u8 {
        assert(b[0] == x[0] && b[1] == x[1]);
    } else {
        assert(b[0] == x[0] && b[1] == x[1]);
        let i1 = soh_from(x, 2);
        let p = i1 + 1;
        lemma_soh_bounds(x, 2);
        if p >= x.len() {
        } else {
            lemma_soh_prefix(x, y, 2);
            assert(b[p] == x[p]);
            if x[p] != 57u8 {
            } else if p + 1 >= x.len() {
            } else {
                assert(b[p + 1] == x[p + 1]);
                if x[p + 1] != 61u8 {
                } else {
                    let d = digits_from(x, p + 2);
                    lemma_digits_bounds(x, p + 2);
                    if d >= x.len() {
                    } else {
                        lemma_digits_prefix(x, y, p + 2);
                        assert(b[d] == x[d]);
                        assert(b.subrange(p + 2, d) =~= x.subrange(p + 2, d));
                    }
                }
            }
        }
    }
}

/// A whole message at the front has a positive length within the bytes there.
proof fn lemma_complete_bounds(x: Seq<u8>)
    requires
        frame_status(x) is Complete,
        x.len() <= usize::MAX,
    ensures
        0 < frame_status(x)->Complete_0 <= x.len(),
{
    lemma_soh_bounds(x, 2);
    let p = soh_from(x, 2) + 1;
    if p + 2 <= x.len() {
        lemma_digits_bounds(x, p + 2);
    }
}

/// Feeding the stream in two pieces gives the same messages as feeding it at
/// once: the messages of the first piece, then those of what it left over
/// followed by the second piece.
pub proof fn law_split_in_pieces(x: Seq<u8>, y: Seq<u8>)
    requires
        x.len() + y.len() <= usize::MAX,
    ensures
        split_frames(x + y) == (
            split_frames(x).0 + split_frames(split_frames(x).1 + y).0,
            split_frames(split_frames(x).1 + y).1,
        ),
    decreases x.len(),
{
    match frame_status(x) {
        FrameStatus::Complete(n) => {
            lemma_frame_status_prefix(x, y);
            lemma_complete_bounds(x);
            if 0 < n <= x.len() {
                let rest = x.subrange(n as int, x.len() as int);
                assert((x + y).subrange(n as int, (x + y).len() as int) =~= rest + y);
                assert((x + y).subrange(0, n as int) =~= x.subrange(0, n as int));
                law_split_in_pieces(rest, y);
                assert(split_frames(x + y).0 =~= split_frames(x).0 + split_frames(split_frames(x).1 + y).0);
            }
        },
        FrameStatus::Incomplete => {
            assert(split_frames(x).0 + split_frames(split_frames(x).1 + y).0 =~= split_frames(x + y).0);
        },
        FrameStatus::Malformed => {
            lemma_frame_status_prefix(x, y);
            if x.len() > 0 {
                let rest = x.subrange(1, x.len() as int);
                assert((x + y).subrange(1, (x + y).len() as int) =~= rest + y);
                law_split_in_pieces(rest, y);
            } else {
            }
        },
    }
}

/// The chunks read from a connection, one after another.
pub open spec fn concat_chunks(chunks: Seq<Seq<u8>>) -> Seq<u8>
    decreases chunks.len(),
{
    if chunks.len() == 0 {
        seq![]
    } else {
        chunks[0] + concat_chunks(chunks.drop_first())
    }
}

/// What a parser keeping `pending` gives when fed `chunks` one read at a time:
/// the messages of every read, in order, and the bytes it keeps at the end.
pub open spec fn feed_chunks(pending: Seq<u8>, chunks: Seq<Seq<u8>>) -> (Seq<Seq<u8>>, Seq<u8>)
    decreases chunks.len(),
{
    if chunks.len() == 0 {
        (seq![], pending)
    } else {
        let first = split_frames(pending + chunks[0]);
        let rest = feed_chunks(first.1, chunks.drop_first());
        (first.0 + rest.0, rest.1)
    }
}

/// What is left after splitting yields no message and stays as it is.
proof fn lemma_leftover_stays(b: Seq<u8>)
    ensures
        split_frames(split_frames(b).1) == (Seq::<Seq<u8>>::empty(), split_frames(b).1),
    decreases b.len(),
{
    match frame_status(b) {
        FrameStatus::Complete(n) => {
            if 0 < n <= b.len() {
                lemma_leftover_stays(b.subrange(n as int, b.len() as int));
            }
        },
        FrameStatus::Incomplete => {},
        FrameStatus::Malformed => {
            if b.len() > 0 {
                lemma_leftover_stays(b.subrange(1, b.len() as int));
            }
        },
    }
}

/// Feeding chunks to a parser that keeps bytes yielding no message gives what
/// splitting those bytes and all the chunks at once gives.
proof fn lemma_feed_chunks(pending: Seq<u8>, chunks: Seq<Seq<u8>>)
    requires
        split_frames(pending) == (Seq::<Seq<u8>>::empty(), pending),
        pending.len() + concat_chunks(chunks).len() <= usize::MAX,
    ensures
        feed_chunks(pending, chunks) == split_frames(pending + concat_chunks(chunks)),
    decreases chunks.len(),
{
    if chunks.len() == 0 {
        assert(pending + concat_chunks(chunks) =~= pending);
    } else {
        let c = chunks[0];
        let rest = chunks.drop_first();
        assert(concat_chunks(chunks) == c + concat_chunks(rest));
        law_split_in_pieces(pending + c, concat_chunks(rest));
        let left = split_frames(pending + c).1;
        lemma_leftover_stays(pending + c);
        assert(pending + concat_chunks(chunks) =~= (pending + c) + concat_chunks(rest));
        lemma_split_leftover_len(pending + c);
        lemma_feed_chunks(left, rest);
    }
}

/// What is left after splitting is no longer than what was split.
proof fn lemma_split_leftover_len(b: Seq<u8>)
    ensures
        split_frames(b).1.len() <= b.len(),
    decreases b.len(),
{
    match frame_status(b) {
        FrameStatus::Complete(n) => {
            if 0 < n <= b.len() {
                lemma_split_leftover_len(b.subrange(n as int, b.len() as int));
            }
        },
        FrameStatus::Incomplete => {},
        FrameStatus::Malformed => {
            if b.len() > 0 {
                lemma_split_leftover_len(b.subrange(1, b.len() as int));
            }
        },
    }
}

/// However the stream is cut into reads, a fresh parser fed them one at a time
/// gives the messages, and keeps the bytes, that splitting the whole stream
/// at once gives.
pub proof fn law_any_number_of_reads(chunks: Seq<Seq<u8>>)
    requires
        concat_chunks(chunks).len() <= usize::MAX,
    ensures
        feed_chunks(Seq::<u8>::empty(), chunks) == split_frames(concat_chunks(chunks)),
{
    let e = Seq::<u8>::empty();
    assert(split_frames(e) == (Seq::<Seq<u8>>::empty(), e)) by {
        lemma_leftover_stays(e);
        assert(e.len() == 0);
    }
    lemma_feed_chunks(e, chunks);
    assert(e + concat_chunks(chunks) =~= concat_chunks(chunks));
}

/// A whole message followed by more bytes is taken off as it is, and the rest
/// is split as it would be on its own.
pub proof fn law_whole_message_first(f: Seq<u8>, r: Seq<u8>)
    requires
        frame_status(f) == FrameStatus::Complete(f.len() as usize),
        f.len() + r.len() <= usize::MAX,
    ensures
        split_frames(f + r) == (seq![f] + split_frames(r).0, split_frames(r).1),
{
    lemma_frame_status_prefix(f, r);
    assert(f.len() > 0) by {
        if f.len() == 0 {
            assert(frame_status(f) is Incomplete);
        }
    }
    assert((f + r).subrange(f.len() as int, (f + r).len() as int) =~= r);
    assert((f + r).subrange(0, f.len() as int) =~= f);
}

/// The first SOH at or after `i` is at `k` when none comes before it.
proof fn lemma_soh_at(b: Seq<u8>, i: int, k: int)
    requires
        0 <= i <= k < b.len(),
        forall|j: int| i <= j < k ==> b[j] != SOH,
        b[k] == SOH,
    ensures
        soh_from(b, i) == k,
    decreases k - i,
{
    if i < k {
        lemma_soh_at(b, i + 1, k);
    }
}

/// The first non-digit at or after `i` is at `k` when only digits come before it.
proof fn lemma_digits_at(b: Seq<u8>, i: int, k: int)
    requires
        0 <= i <= k < b.len(),
        forall|j: int| i <= j < k ==> is_digit(b[j]),
        !is_digit(b[k]),
    ensures
        digits_from(b, i) == k,
    decreases k - i,
{
    if i < k {
        lemma_digits_at(b, i + 1, k);
    }
}

/// The encoding of a message whose BeginString holds no SOH is one whole frame.
pub proof fn law_encoded_message_is_a_frame(m: MessageView)
    requires
        value_ok(m.begin_string),
        spec_encode(m).len() <= usize::MAX,
    ensures
        frame_status(spec_encode(m)) == FrameStatus::Complete(spec_encode(m).len() as usize),
{
    let e = spec_encode(m);
    let bs = m.begin_string;
    let n = body_text(m).len();
    let bl = dec_text(n);
    let bt = body_text(m);
    let cs = three_digit_text(byte_sum(checked_text(m)) % 256);
    assert(dec_text(8) =~= seq![56u8]);
    assert(dec_text(9) =~= seq![57u8]);
    assert(dec_text(1) =~= seq![49u8]);
    assert(dec_text(10) =~= seq![49u8, 48u8]);
    let l = bs.len() as int;
    assert(e =~= seq![56u8, 61u8] + bs + seq![SOH] + seq![57u8, 61u8] + bl + seq![SOH] + bt + seq![
        49u8,
        48u8,
        61u8,
    ] + cs + seq![SOH]);
    lemma_dec_text_digits(n);
    assert forall|j: int| 2 <= j < 2 + l implies e[j] != SOH by {
        assert(e[j] == bs[j - 2]);
    }
    lemma_soh_at(e, 2, 2 + l);
    let p = 3 + l;
    assert(e[p] == 57u8 && e[p + 1] == 61u8);
    assert forall|j: int| p + 2 <= j < p + 2 + bl.len() implies is_digit(e[j]) by {
        assert(e[j] == bl[j - p - 2]);
        assert(is_digit(bl[j - p - 2]));
    }
    let d = p + 2 + bl.len();
    assert(e[d] == SOH);
    lemma_digits_at(e, p + 2, d);
    assert(e.subrange(p + 2, d) =~= bl);
    assert(n <= u64::MAX);
    assert(spec_parse_u64(bl) == Some(n as u64));
}

/// The encodings of `ms`, one after another.
pub open spec fn stream_of(ms: Seq<MessageView>) -> Seq<u8>
    decreases ms.len(),
{
    if ms.len() == 0 {
        seq![]
    } else {
        spec_encode(ms[0]) + stream_of(ms.drop_first())
    }
}

/// What the writer sends reads back: the stream of encoded messages splits
/// into exactly those encodings, with nothing left over.
pub proof fn law_stream_reads_back(ms: Seq<MessageView>)
    requires
        forall|i: int| 0 <= i < ms.len() ==> value_ok(#[trigger] ms[i].begin_string),
        stream_of(ms).len() <= usize::MAX,
    ensures
        split_frames(stream_of(ms)) == (ms.map_values(|m: MessageView| spec_encode(m)), Seq::<u8>::empty()),
    decreases ms.len(),
{
    if ms.len() == 0 {
        assert(ms.map_values(|m: MessageView| spec_encode(m)) =~= Seq::<Seq<u8>>::empty());
        assert(frame_status(Seq::<u8>::empty()) is Incomplete);
    } else {
        let rest = ms.drop_first();
        assert forall|i: int| 0 <= i < rest.len() implies value_ok(#[trigger] rest[i].begin_string) by {
            assert(rest[i] == ms[i + 1]);
        }
        assert(value_ok(ms[0].begin_string));
        law_encoded_message_is_a_frame(ms[0]);
        law_whole_message_first(spec_encode(ms[0]), stream_of(rest));
        law_stream_reads_back(rest);
        assert(ms.map_values(|m: MessageView| spec_encode(m)) =~= seq![spec_encode(ms[0])]
            + rest.map_values(|m: MessageView| spec_encode(m)));
    }
}

} // verus!
