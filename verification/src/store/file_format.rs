//! The text formats of the file store: the sequence-number file
//! (`sender : target`, each zero-padded to twenty digits) and the index file,
//! one `sequence,offset,size` line per stored message locating it in the
//! body file.
use vstd::prelude::*;

use crate::clock::{format_rfc3339_secs, parse_rfc3339_secs, rfc3339_text, rfc3339_value, utf8_text};
use crate::decimal::{append_bytes, copy_bytes, dec_text, parse_u64, spec_parse_u64, write_u64};

verus! {

broadcast use vstd::std_specs::hash::group_hash_axioms;

/// ASCII whitespace, as trimmed around the values in the store's files.
pub open spec fn is_ws(b: u8) -> bool {
    b == 32 || b == 9 || b == 10 || b == 11 || b == 12 || b == 13
}

/// The index of the first byte at or after `i` that is not whitespace, or the length.
pub open spec fn first_non_ws(s: Seq<u8>, i: int) -> int
    decreases s.len() - i,
{
    if i < 0 || i >= s.len() {
        s.len() as int
    } else if is_ws(s[i]) {
        first_non_ws(s, i + 1)
    } else {
        i
    }
}

/// One past the last byte before `j` that is not whitespace, or 0.
pub open spec fn end_non_ws(s: Seq<u8>, j: int) -> int
    decreases j,
{
    if j <= 0 || j > s.len() {
        0
    } else if is_ws(s[j - 1]) {
        end_non_ws(s, j - 1)
    } else {
        j
    }
}

/// `s` without leading and trailing whitespace.
pub open spec fn trim(s: Seq<u8>) -> Seq<u8> {
    let a = first_non_ws(s, 0);
    let b = end_non_ws(s, s.len() as int);
    if a < b {
        s.subrange(a, b)
    } else {
        seq![]
    }
}

/// The index of the first `sep` at or after `i`, or the length.
pub open spec fn first_sep(s: Seq<u8>, sep: u8, i: int) -> int
    decreases s.len() - i,
{
    if i < 0 || i >= s.len() {
        s.len() as int
    } else if s[i] == sep {
        i
    } else {
        first_sep(s, sep, i + 1)
    }
}

/// The pieces of `s` between the separators `sep`, in order.
pub open spec fn split_on(s: Seq<u8>, sep: u8) -> Seq<Seq<u8>>
    decreases s.len(),
{
    let k = first_sep(s, sep, 0);
    if k >= s.len() || k < 0 {
        seq![s]
    } else {
        seq![s.subrange(0, k)] + split_on(s.subrange(k + 1, s.len() as int), sep)
    }
}

/// An unsigned integer as Rust's `u64::from_str` reads it: an optional `+`
/// and a non-empty run of digits whose value fits.
pub open spec fn parse_unsigned(s: Seq<u8>) -> Option<u64> {
    if s.len() > 0 && s[0] == 43u8 {
        spec_parse_u64(s.drop_first())
    } else {
        spec_parse_u64(s)
    }
}

/// `k` zero digits.
pub open spec fn zeros(k: nat) -> Seq<u8> {
    Seq::new(k, |i: int| 48u8)
}

/// The decimal text of `n` padded with zeros to twenty digits.
pub open spec fn pad20(n: u64) -> Seq<u8> {
    zeros((20 - dec_text(n as nat).len()) as nat) + dec_text(n as nat)
}

/// The content of the sequence-number file.
pub open spec fn spec_seqnums_text(sender: u64, target: u64) -> Seq<u8> {
    pad20(sender) + seq![32u8, 58u8, 32u8] + pad20(target)
}

/// The two numbers of a sequence-number file: two numbers around one colon,
/// whitespace aside.
pub open spec fn spec_parse_seqnums(content: Seq<u8>) -> Option<(u64, u64)> {
    let parts = split_on(trim(content), 58u8);
    if parts.len() != 2 {
        None
    } else {
        match (parse_unsigned(trim(parts[0])), parse_unsigned(trim(parts[1]))) {
            (Some(s), Some(t)) => Some((s, t)),
            _ => None,
        }
    }
}

/// The sequence numbers a store starts from: zero for a missing or blank file.
pub open spec fn spec_initial_seqnums(content: Option<Seq<u8>>) -> Option<(u64, u64)> {
    match content {
        None => Some((0, 0)),
        Some(c) => if trim(c).len() == 0 {
            Some((0, 0))
        } else {
            spec_parse_seqnums(c)
        },
    }
}

/// One line of the index file, without its newline.
pub open spec fn spec_index_line(seq_num: u64, offset: u64, size: u64) -> Seq<u8> {
    dec_text(seq_num as nat) + seq![44u8] + dec_text(offset as nat) + seq![44u8] + dec_text(size as nat)
}

/// The entry an index line records: three numbers separated by commas, the
/// line trimmed of whitespace.
pub open spec fn spec_parse_index_line(line: Seq<u8>) -> Option<(u64, u64, u64)> {
    let parts = split_on(trim(line), 44u8);
    if parts.len() != 3 {
        None
    } else {
        match (parse_unsigned(parts[0]), parse_unsigned(parts[1]), parse_unsigned(parts[2])) {
            (Some(a), Some(b), Some(c)) => Some((a, b, c)),
            _ => None,
        }
    }
}

/// Where a stored message lies in the body file.
#[derive(Clone, Copy, Debug, PartialEq, Eq, Structural)]
pub struct MessageDef {
    pub offset: u64,
    pub size: u64,
}

/// The index `m` becomes after the lines of `content`, read in order: each
/// readable line records where its message lies, a later line for the same
/// sequence number replacing an earlier one, and unreadable lines are skipped.
pub open spec fn index_after(m: Map<u64, MessageDef>, content: Seq<u8>) -> Map<u64, MessageDef>
    decreases content.len(),
{
    let k = first_sep(content, 10u8, 0);
    let line = if k >= content.len() || k < 0 {
        content
    } else {
        content.subrange(0, k)
    };
    let m2 = match spec_parse_index_line(line) {
        Some((s, o, z)) => m.insert(s, MessageDef { offset: o, size: z }),
        None => m,
    };
    if k >= content.len() || k < 0 {
        m2
    } else {
        index_after(m2, content.subrange(k + 1, content.len() as int))
    }
}

/// The locations of the stored messages numbered `begin..=end`, in order,
/// skipping numbers that are not in the index.
pub open spec fn spec_locations(m: Map<u64, MessageDef>, begin: int, end: int) -> Seq<MessageDef>
    decreases end - begin + 1,
{
    if end < begin {
        seq![]
    } else {
        let rest = spec_locations(m, begin, end - 1);
        if m.contains_key(end as u64) && 0 <= end <= u64::MAX {
            rest.push(m[end as u64])
        } else {
            rest
        }
    }
}

fn first_non_ws_exec(s: &[u8], i: usize) -> (r: usize)
    requires
        i <= s@.len(),
    ensures
        r == first_non_ws(s@, i as int),
        i <= r <= s@.len(),
{
    let mut j = i;
    while j < s.len()
        invariant
            i <= j <= s@.len(),
            first_non_ws(s@, i as int) == first_non_ws(s@, j as int),
        decreases s@.len() - j,
    {
        let b = s[j];
        if !(b == 32 || b == 9 || b == 10 || b == 11 || b == 12 || b == 13) {
            return j;
        }
        j = j + 1;
    }
    j
}

fn end_non_ws_exec(s: &[u8], j: usize) -> (r: usize)
    requires
        j <= s@.len(),
    ensures
        r == end_non_ws(s@, j as int),
        r <= j,
{
    let mut k = j;
    while k > 0
        invariant
            k <= j <= s@.len(),
            end_non_ws(s@, j as int) == end_non_ws(s@, k as int),
        decreases k,
    {
        let b = s[k - 1];
        if !(b == 32 || b == 9 || b == 10 || b == 11 || b == 12 || b == 13) {
            return k;
        }
        k = k - 1;
    }
    k
}

/// `s` without leading and trailing whitespace.
pub fn trim_bytes(s: &[u8]) -> (r: Vec<u8>)
    ensures
        r@ == trim(s@),
{
    let a = first_non_ws_exec(s, 0);
    let b = end_non_ws_exec(s, s.len());
    if a < b {
        copy_bytes(vstd::slice::slice_subrange(s, a, b))
    } else {
        Vec::new()
    }
}

fn first_sep_exec(s: &[u8], sep: u8, i: usize) -> (r: usize)
    requires
        i <= s@.len(),
    ensures
        r == first_sep(s@, sep, i as int),
        i <= r <= s@.len(),
{
    let mut j = i;
    while j < s.len()
        invariant
            i <= j <= s@.len(),
            first_sep(s@, sep, i as int) == first_sep(s@, sep, j as int),
        decreases s@.len() - j,
    {
        if s[j] == sep {
            return j;
        }
        j = j + 1;
    }
    j
}

/// The pieces of `s` between the separators `sep`.
pub fn split_bytes(s: &[u8], sep: u8) -> (r: Vec<Vec<u8>>)
    ensures
        r.deep_view() == split_on(s@, sep),
{
    let mut out: Vec<Vec<u8>> = Vec::new();
    let mut start: usize = 0;
    assert(out.deep_view() =~= Seq::<Seq<u8>>::empty());
    assert(s@.subrange(0, s@.len() as int) =~= s@);
    loop
        invariant
            0 <= start <= s@.len(),
            split_on(s@, sep) == out.deep_view() + split_on(s@.subrange(start as int, s@.len() as int), sep),
        decreases s@.len() - start,
    {
        let rest = vstd::slice::slice_subrange(s, start, s.len());
        let k = first_sep_exec(rest, sep, 0);
        let piece = copy_bytes(vstd::slice::slice_subrange(rest, 0, k));
        let ghost before = out.deep_view();
        proof {
            assert(piece.deep_view() =~= piece@);
        }
        out.push(piece);
        assert(out.deep_view() =~= before.push(piece@));
        if k >= rest.len() {
            assert(rest@.subrange(0, k as int) =~= rest@);
            assert(split_on(s@, sep) =~= out.deep_view());
            return out;
        }
        assert(rest@.subrange(k + 1, rest@.len() as int) =~= s@.subrange(
            start + k + 1,
            s@.len() as int,
        ));
        start = start + k + 1;
    }
}

/// Reads an unsigned integer as Rust's `u64::from_str` does.
pub fn parse_unsigned_bytes(s: &[u8]) -> (r: Option<u64>)
    ensures
        r == parse_unsigned(s@),
{
    if s.len() > 0 && s[0] == 43u8 {
        let rest = vstd::slice::slice_subrange(s, 1, s.len());
        assert(rest@ =~= s@.drop_first());
        parse_u64(rest)
    } else {
        parse_u64(s)
    }
}

/// Appends the decimal text of `n` zero-padded to twenty digits.
fn write_pad20(out: &mut Vec<u8>, n: u64)
    ensures
        final(out)@ == old(out)@ + pad20(n),
{
    let mut digits: Vec<u8> = Vec::new();
    write_u64(n, &mut digits);
    proof {
        crate::decimal::lemma_dec_text_digits(n as nat);
        lemma_dec_text_len(n as nat);
    }
    let ghost start = out@;
    let pad = 20 - digits.len();
    let mut i: usize = 0;
    while i < pad
        invariant
            0 <= i <= pad,
            pad == 20 - dec_text(n as nat).len(),
            digits@ == dec_text(n as nat),
            out@ == start + zeros(i as nat),
        decreases pad - i,
    {
        out.push(48u8);
        i = i + 1;
        assert(out@ =~= start + zeros(i as nat));
    }
    append_bytes(out, digits.as_slice());
    assert(out@ =~= start + pad20(n));
}

/// The decimal text of a `u64` has at most twenty digits.
proof fn lemma_dec_text_len(n: nat)
    requires
        n <= u64::MAX,
    ensures
        1 <= dec_text(n).len() <= 20,
{
    assert(pow10(20) == 100000000000000000000nat) by {
        reveal_with_fuel(pow10, 21);
    }
    lemma_dec_text_len_bound(n, 20);
}

proof fn lemma_dec_text_len_bound(n: nat, k: nat)
    requires
        n < pow10(k),
        k >= 1,
    ensures
        1 <= dec_text(n).len() <= k,
    decreases n,
{
    if n >= 10 {
        lemma_pow10_step(k);
        lemma_dec_text_len_bound(n / 10, (k - 1) as nat);
    }
}

/// Ten to the power `k`.
pub open spec fn pow10(k: nat) -> nat
    decreases k,
{
    if k == 0 {
        1
    } else {
        10 * pow10((k - 1) as nat)
    }
}

proof fn lemma_pow10_step(k: nat)
    requires
        k >= 1,
    ensures
        k >= 2 || pow10(k) == 10,
        pow10(k) == 10 * pow10((k - 1) as nat),
{
}

/// The content of the sequence-number file for `sender` and `target`.
pub fn seqnums_text(sender: u64, target: u64) -> (r: Vec<u8>)
    ensures
        r@ == spec_seqnums_text(sender, target),
{
    let mut out: Vec<u8> = Vec::new();
    write_pad20(&mut out, sender);
    out.push(32u8);
    out.push(58u8);
    out.push(32u8);
    write_pad20(&mut out, target);
    assert(out@ =~= spec_seqnums_text(sender, target));
    out
}

/// Reads the sequence-number file: `None` where it does not hold two numbers
/// around one colon.
pub fn parse_seqnums(content: &[u8]) -> (r: Option<(u64, u64)>)
    ensures
        r == spec_parse_seqnums(content@),
{
    let trimmed = trim_bytes(content);
    let parts = split_bytes(trimmed.as_slice(), 58u8);
    if parts.len() != 2 {
        return None;
    }
    assert(parts[0]@ == parts.deep_view()[0] && parts[1]@ == parts.deep_view()[1]);
    let sender = parse_unsigned_bytes(trim_bytes(parts[0].as_slice()).as_slice());
    let target = parse_unsigned_bytes(trim_bytes(parts[1].as_slice()).as_slice());
    match (sender, target) {
        (Some(s), Some(t)) => Some((s, t)),
        _ => None,
    }
}

/// The sequence numbers a store starts from, given the sequence-number file's
/// content where the file exists: zero for a missing or blank file, `None` for
/// one that cannot be read.
pub fn initial_seqnums(content: Option<&[u8]>) -> (r: Option<(u64, u64)>)
    ensures
        r == spec_initial_seqnums(
            match content {
                Some(c) => Some(c@),
                None => None,
            },
        ),
{
    match content {
        None => Some((0, 0)),
        Some(c) => {
            let t = trim_bytes(c);
            if t.len() == 0 {
                Some((0, 0))
            } else {
                parse_seqnums(c)
            }
        },
    }
}

/// The creation time (seconds since the epoch) a session file records: its
/// content, trimmed of whitespace, read as an RFC 3339 date-time.
pub open spec fn spec_session_time(content: Seq<u8>) -> Option<i64> {
    if vstd::utf8::valid_utf8(trim(content)) {
        rfc3339_value(vstd::utf8::decode_utf8(trim(content)))
    } else {
        None
    }
}

/// Reads the session file: `None` where it holds no RFC 3339 date-time.
pub fn parse_session_time(content: &[u8]) -> (r: Option<i64>)
    ensures
        r == spec_session_time(content@),
{
    let t = trim_bytes(content);
    match utf8_text(t.as_slice()) {
        Some(text) => parse_rfc3339_secs(text.as_str()),
        None => None,
    }
}

/// The content of the session file for creation time `secs` (seconds since the
/// epoch): its RFC 3339 text, `None` where the instant has none.
pub fn session_time_text(secs: i64) -> (r: Option<String>)
    ensures
        match r {
            Some(t) => rfc3339_text(secs) == Some(t@),
            None => rfc3339_text(secs) is None,
        },
{
    format_rfc3339_secs(secs)
}

/// One line of the index file, newline included.
pub fn index_line(seq_num: u64, offset: u64, size: u64) -> (r: Vec<u8>)
    ensures
        r@ == spec_index_line(seq_num, offset, size).push(10u8),
{
    let mut out: Vec<u8> = Vec::new();
    write_u64(seq_num, &mut out);
    out.push(44u8);
    write_u64(offset, &mut out);
    out.push(44u8);
    write_u64(size, &mut out);
    out.push(10u8);
    assert(out@ =~= spec_index_line(seq_num, offset, size).push(10u8));
    out
}

/// Reads one line of the index file.
pub fn parse_index_line(line: &[u8]) -> (r: Option<(u64, u64, u64)>)
    ensures
        r == spec_parse_index_line(line@),
{
    let trimmed = trim_bytes(line);
    let parts = split_bytes(trimmed.as_slice(), 44u8);
    if parts.len() != 3 {
        return None;
    }
    assert(parts[0]@ == parts.deep_view()[0] && parts[1]@ == parts.deep_view()[1] && parts[2]@
        == parts.deep_view()[2]);
    match (
        parse_unsigned_bytes(parts[0].as_slice()),
        parse_unsigned_bytes(parts[1].as_slice()),
        parse_unsigned_bytes(parts[2].as_slice()),
    ) {
        (Some(a), Some(b), Some(c)) => Some((a, b, c)),
        _ => None,
    }
}

/// Where each stored message lies in the body file, by sequence number.
pub struct MessageIndex {
    entries: std::collections::HashMap<u64, MessageDef>,
}

impl View for MessageIndex {
    type V = Map<u64, MessageDef>;

    closed spec fn view(&self) -> Map<u64, MessageDef> {
        self.entries@
    }
}

impl MessageIndex {
    pub fn new() -> (r: Self)
        ensures
            r@ == Map::<u64, MessageDef>::empty(),
    {
        MessageIndex { entries: std::collections::HashMap::new() }
    }

    /// Records where the message `seq_num` lies, replacing an earlier record.
    pub fn insert(&mut self, seq_num: u64, def: MessageDef)
        ensures
            final(self)@ == old(self)@.insert(seq_num, def),
    {
        self.entries.insert(seq_num, def);
    }

    /// Where the message `seq_num` lies, where it is recorded.
    pub fn get(&self, seq_num: u64) -> (r: Option<MessageDef>)
        ensures
            match r {
                Some(d) => self@.contains_key(seq_num) && self@[seq_num] == d,
                None => !self@.contains_key(seq_num),
            },
    {
        match self.entries.get(&seq_num) {
            Some(d) => Some(*d),
            None => None,
        }
    }

    /// The index the lines of an index file's `content` record.
    pub fn load(content: &[u8]) -> (r: Self)
        ensures
            r@ == index_after(Map::empty(), content@),
    {
        let mut index = MessageIndex::new();
        let mut start: usize = 0;
        assert(content@.subrange(0, content@.len() as int) =~= content@);
        loop
            invariant
                0 <= start <= content@.len(),
                index_after(Map::empty(), content@) == index_after(
                    index@,
                    content@.subrange(start as int, content@.len() as int),
                ),
            decreases content@.len() - start,
        {
            let rest = vstd::slice::slice_subrange(content, start, content.len());
            let k = first_sep_exec(rest, 10u8, 0);
            let line = vstd::slice::slice_subrange(rest, 0, k);
            if k >= rest.len() {
                assert(line@ =~= rest@);
            }
            match parse_index_line(line) {
                Some((s, o, z)) => index.insert(s, MessageDef { offset: o, size: z }),
                None => {},
            }
            if k >= rest.len() {
                return index;
            }
            assert(rest@.subrange(k + 1, rest@.len() as int) =~= content@.subrange(
                start + k + 1,
                content@.len() as int,
            ));
            start = start + k + 1;
        }
    }

    /// The locations of the messages numbered `begin..=end`, in order, skipping
    /// numbers without a record.
    pub fn locations(&self, begin: u64, end: u64) -> (r: Vec<MessageDef>)
        ensures
            r@ == spec_locations(self@, begin as int, end as int),
    {
        let mut out: Vec<MessageDef> = Vec::new();
        if end < begin {
            return out;
        }
        let mut n: u64 = begin;
        assert(out@ =~= spec_locations(self@, begin as int, begin as int - 1));
        loop
            invariant
                begin <= n <= end,
                out@ == spec_locations(self@, begin as int, n as int - 1),
            decreases end - n,
        {
            match self.get(n) {
                Some(d) => out.push(d),
                None => {},
            }
            if n == end {
                return out;
            }
            n = n + 1;
        }
    }
}

/// A separator that does not occur in `a` is first found right after it.
proof fn lemma_first_sep_after(a: Seq<u8>, sep: u8, b: Seq<u8>, i: int)
    requires
        0 <= i <= a.len(),
        forall|j: int| 0 <= j < a.len() ==> a[j] != sep,
    ensures
        first_sep(a + seq![sep] + b, sep, i) == a.len(),
    decreases a.len() - i,
{
    let s = a + seq![sep] + b;
    if i < a.len() {
        assert(s[i] == a[i]);
        lemma_first_sep_after(a, sep, b, i + 1);
    } else {
        assert(s[i] == sep);
    }
}

/// A separator that does not occur in `a` is not found in it.
proof fn lemma_first_sep_none(a: Seq<u8>, sep: u8, i: int)
    requires
        0 <= i <= a.len(),
        forall|j: int| 0 <= j < a.len() ==> a[j] != sep,
    ensures
        first_sep(a, sep, i) == a.len(),
    decreases a.len() - i,
{
    if i < a.len() {
        lemma_first_sep_none(a, sep, i + 1);
    }
}

/// Splitting `a`, a separator and `b`, where `a` holds no separator.
proof fn lemma_split_on_concat(a: Seq<u8>, sep: u8, b: Seq<u8>)
    requires
        forall|j: int| 0 <= j < a.len() ==> a[j] != sep,
    ensures
        split_on(a + seq![sep] + b, sep) == seq![a] + split_on(b, sep),
{
    let s = a + seq![sep] + b;
    lemma_first_sep_after(a, sep, b, 0);
    assert(s.subrange(0, a.len() as int) =~= a);
    assert(s.subrange(a.len() as int + 1, s.len() as int) =~= b);
}

/// Splitting a piece that holds no separator gives the piece.
proof fn lemma_split_on_single(a: Seq<u8>, sep: u8)
    requires
        forall|j: int| 0 <= j < a.len() ==> a[j] != sep,
    ensures
        split_on(a, sep) == seq![a],
{
    lemma_first_sep_none(a, sep, 0);
}

/// Trimming text that neither starts nor ends with whitespace keeps it.
proof fn lemma_trim_keeps(s: Seq<u8>)
    requires
        s.len() > 0,
        !is_ws(s[0]),
        !is_ws(s[s.len() - 1]),
    ensures
        trim(s) == s,
{
    assert(s.subrange(0, s.len() as int) =~= s);
}

/// Decimal digits are neither whitespace nor a separator of the store's files.
proof fn lemma_digits_plain(s: Seq<u8>)
    requires
        crate::decimal::all_digits(s),
    ensures
        forall|j: int| 0 <= j < s.len() ==> !is_ws(#[trigger] s[j]) && s[j] != 44u8 && s[j] != 58u8
            && s[j] != 10u8 && s[j] != 43u8,
{
    assert forall|j: int| 0 <= j < s.len() implies !is_ws(#[trigger] s[j]) && s[j] != 44u8 && s[j] != 58u8
        && s[j] != 10u8 && s[j] != 43u8 by {
        assert(crate::decimal::is_digit(s[j]));
    }
}

/// A number's decimal text reads back as the number.
proof fn lemma_parse_unsigned_dec(n: u64)
    ensures
        parse_unsigned(dec_text(n as nat)) == Some(n),
        crate::decimal::all_digits(dec_text(n as nat)),
        dec_text(n as nat).len() > 0,
{
    crate::decimal::lemma_dec_text_digits(n as nat);
    crate::decimal::lemma_parse_dec_text(n);
    assert(crate::decimal::is_digit(dec_text(n as nat)[0]));
}

/// Leading zeros do not change the value of a run of digits.
proof fn lemma_dec_value_zeros(k: nat, s: Seq<u8>)
    ensures
        crate::decimal::dec_value(zeros(k) + s) == crate::decimal::dec_value(s),
    decreases s.len(), k,
{
    let z = zeros(k);
    if s.len() == 0 {
        assert(z + s =~= z);
        if k > 0 {
            assert(z.drop_last() =~= zeros((k - 1) as nat));
            lemma_dec_value_zeros((k - 1) as nat, seq![]);
            assert(zeros((k - 1) as nat) + Seq::<u8>::empty() =~= zeros((k - 1) as nat));
        }
    } else {
        assert((z + s).drop_last() =~= z + s.drop_last());
        lemma_dec_value_zeros(k, s.drop_last());
    }
}

/// A number zero-padded to twenty digits reads back as the number.
proof fn lemma_parse_pad20(n: u64)
    ensures
        parse_unsigned(pad20(n)) == Some(n),
        crate::decimal::all_digits(pad20(n)),
        pad20(n).len() == 20,
{
    lemma_parse_unsigned_dec(n);
    lemma_dec_text_len(n as nat);
    let t = dec_text(n as nat);
    let z = zeros((20 - t.len()) as nat);
    lemma_dec_value_zeros((20 - t.len()) as nat, t);
    assert forall|j: int| 0 <= j < pad20(n).len() implies #[trigger] crate::decimal::is_digit(pad20(n)[j]) by {
        if j >= z.len() {
            assert(pad20(n)[j] == t[j - z.len()]);
        }
    }
    assert(crate::decimal::is_digit(pad20(n)[0]));
    assert(pad20(n) =~= z + t);
    crate::decimal::lemma_dec_text_digits(n as nat);
    assert(crate::decimal::dec_value(pad20(n)) == n);
}

/// An index line reads back as the entry written, with or without its newline.
pub proof fn law_index_line_round_trip(seq_num: u64, offset: u64, size: u64)
    ensures
        spec_parse_index_line(spec_index_line(seq_num, offset, size)) == Some((seq_num, offset, size)),
        spec_parse_index_line(spec_index_line(seq_num, offset, size).push(10u8)) == Some(
            (seq_num, offset, size),
        ),
{
    let a = dec_text(seq_num as nat);
    let b = dec_text(offset as nat);
    let c = dec_text(size as nat);
    lemma_parse_unsigned_dec(seq_num);
    lemma_parse_unsigned_dec(offset);
    lemma_parse_unsigned_dec(size);
    lemma_digits_plain(a);
    lemma_digits_plain(b);
    lemma_digits_plain(c);
    let line = spec_index_line(seq_num, offset, size);
    assert(line =~= a + seq![44u8] + (b + seq![44u8] + c));
    lemma_trim_keeps(line);
    lemma_split_on_concat(a, 44u8, b + seq![44u8] + c);
    lemma_split_on_concat(b, 44u8, c);
    lemma_split_on_single(c, 44u8);
    assert(split_on(line, 44u8) =~= seq![a, b, c]);
    let with_newline = line.push(10u8);
    assert(first_non_ws(with_newline, 0) == 0) by {
        assert(with_newline[0] == line[0]);
    }
    assert(end_non_ws(with_newline, line.len() as int) == line.len()) by {
        assert(with_newline[line.len() - 1] == line[line.len() - 1]);
    }
    assert(is_ws(with_newline[with_newline.len() - 1]));
    assert(end_non_ws(with_newline, with_newline.len() as int) == line.len());
    assert(trim(with_newline) =~= line);
}

/// The sequence-number file reads back as the numbers written.
pub proof fn law_seqnums_round_trip(sender: u64, target: u64)
    ensures
        spec_parse_seqnums(spec_seqnums_text(sender, target)) == Some((sender, target)),
        spec_initial_seqnums(Some(spec_seqnums_text(sender, target))) == Some((sender, target)),
{
    let a = pad20(sender);
    let b = pad20(target);
    lemma_parse_pad20(sender);
    lemma_parse_pad20(target);
    lemma_digits_plain(a);
    lemma_digits_plain(b);
    let text = spec_seqnums_text(sender, target);
    let left = a + seq![32u8];
    let right = seq![32u8] + b;
    assert(text =~= left + seq![58u8] + right);
    lemma_trim_keeps(text);
    assert forall|j: int| 0 <= j < left.len() implies left[j] != 58u8 by {
        if j < a.len() {
            assert(left[j] == a[j]);
        }
    }
    assert forall|j: int| 0 <= j < right.len() implies right[j] != 58u8 by {
        if j > 0 {
            assert(right[j] == b[j - 1]);
        }
    }
    lemma_split_on_concat(left, 58u8, right);
    lemma_split_on_single(right, 58u8);
    assert(split_on(text, 58u8) =~= seq![left, right]);
    assert(first_non_ws(left, 0) == 0) by {
        assert(left[0] == a[0]);
    }
    assert(end_non_ws(left, a.len() as int) == a.len()) by {
        assert(left[a.len() - 1] == a[a.len() - 1]);
    }
    assert(is_ws(left[left.len() - 1]));
    assert(end_non_ws(left, left.len() as int) == a.len());
    assert(trim(left) =~= a);
    assert(first_non_ws(right, 1) == 1) by {
        assert(right[1] == b[0]);
    }
    assert(is_ws(right[0]));
    assert(first_non_ws(right, 0) == 1);
    assert(!is_ws(right[right.len() - 1])) by {
        assert(right[right.len() - 1] == b[b.len() - 1]);
    }
    assert(end_non_ws(right, right.len() as int) == right.len());
    assert(trim(right) =~= b);
    assert(trim(text).len() > 0);
}

/// Reading back index lines written in order gives, for each sequence number,
/// the last location written for it: a written line is read as the entry it
/// records, and the reading goes on with the rest.
pub proof fn law_index_read_back(m: Map<u64, MessageDef>, seq_num: u64, def: MessageDef, rest: Seq<u8>)
    ensures
        index_after(m, spec_index_line(seq_num, def.offset, def.size).push(10u8) + rest) == index_after(
            m.insert(seq_num, def),
            rest,
        ),
{
    let line = spec_index_line(seq_num, def.offset, def.size);
    law_index_line_round_trip(seq_num, def.offset, def.size);
    let a = dec_text(seq_num as nat);
    let b = dec_text(def.offset as nat);
    let c = dec_text(def.size as nat);
    lemma_parse_unsigned_dec(seq_num);
    lemma_parse_unsigned_dec(def.offset);
    lemma_parse_unsigned_dec(def.size);
    lemma_digits_plain(a);
    lemma_digits_plain(b);
    lemma_digits_plain(c);
    assert forall|j: int| 0 <= j < line.len() implies line[j] != 10u8 by {
        assert(line =~= a + seq![44u8] + b + seq![44u8] + c);
        if j < a.len() {
            assert(line[j] == a[j]);
        } else if j == a.len() {
        } else if j < a.len() + 1 + b.len() {
            assert(line[j] == b[j - a.len() - 1]);
        } else if j == a.len() + 1 + b.len() {
        } else {
            assert(line[j] == c[j - a.len() - 2 - b.len()]);
        }
    }
    let content = line.push(10u8) + rest;
    assert(content =~= line + seq![10u8] + rest);
    lemma_first_sep_after(line, 10u8, rest, 0);
    assert(content.subrange(0, line.len() as int) =~= line);
    assert(content.subrange(line.len() as int + 1, content.len() as int) =~= rest);
}

} // verus!
