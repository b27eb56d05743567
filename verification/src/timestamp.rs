//! The FIX UTCTimestamp text, `YYYYMMDD-HH:MM:SS` with an optional fraction of
//! a second, and the instant (milliseconds since the Unix epoch) it denotes.
use vstd::prelude::*;

use crate::decimal::{all_digits, dec_value, digit_byte, is_digit};

verus! {

/// Whether `y` is a leap year of the proleptic Gregorian calendar.
pub open spec fn is_leap(y: int) -> bool {
    y % 4 == 0 && (y % 100 != 0 || y % 400 == 0)
}

/// The days of year `y`.
pub open spec fn year_len(y: int) -> int {
    if is_leap(y) {
        366
    } else {
        365
    }
}

/// The days of month `m` (1 to 12) of year `y`.
pub open spec fn month_len(y: int, m: int) -> int {
    if m == 2 {
        if is_leap(y) {
            29
        } else {
            28
        }
    } else if m == 4 || m == 6 || m == 9 || m == 11 {
        30
    } else {
        31
    }
}

/// The leap years before year `y`, counted from year 0 (itself a leap year) on.
pub open spec fn leaps_before(y: int) -> int {
    (y - 1) / 4 - (y - 1) / 100 + (y - 1) / 400
}

/// Days from 1970-01-01 to the first of January of year `y`.
pub open spec fn days_before_year(y: int) -> int {
    365 * (y - 1970) + leaps_before(y) - 477
}

/// Days from the first of January of year `y` to the first of month `m`.
pub open spec fn days_before_month(y: int, m: int) -> int
    decreases m,
{
    if m <= 1 {
        0
    } else {
        days_before_month(y, m - 1) + month_len(y, m - 1)
    }
}

/// Milliseconds since the Unix epoch of a date and time of day in UTC.
pub open spec fn civil_millis(y: int, m: int, d: int, h: int, mi: int, s: int, ms: int) -> int {
    (days_before_year(y) + days_before_month(y, m) + d - 1) * 86400000 + h * 3600000 + mi * 60000 + s
        * 1000 + ms
}

/// The earliest and the first past the latest day (since 1970-01-01) with a
/// four-digit year: 0000-01-01 and 10000-01-01.
pub open spec fn first_day() -> int {
    -719528
}

pub open spec fn end_day() -> int {
    2932897
}

/// The number `n` as exactly `w` decimal digits, the high ones dropped.
pub open spec fn fixed_digits(n: nat, w: nat) -> Seq<u8>
    decreases w,
{
    if w == 0 {
        seq![]
    } else {
        fixed_digits(n / 10, (w - 1) as nat).push(digit_byte(n % 10))
    }
}

/// Ten to the power `w`.
pub open spec fn pow10(w: nat) -> nat
    decreases w,
{
    if w == 0 {
        1
    } else {
        10 * pow10((w - 1) as nat)
    }
}

/// Whether the bytes `a..b` of `t` are digits.
pub open spec fn digits_at(t: Seq<u8>, a: int, b: int) -> bool {
    all_digits(t.subrange(a, b))
}

/// The number the digits `a..b` of `t` denote.
pub open spec fn value_at(t: Seq<u8>, a: int, b: int) -> int {
    dec_value(t.subrange(a, b)) as int
}

/// Whether `t` has the form `YYYYMMDD-HH:MM:SS`, optionally followed by a dot
/// and one to nine digits.
pub open spec fn timestamp_shape(t: Seq<u8>) -> bool {
    &&& (t.len() == 17 || (19 <= t.len() <= 27 && t[17] == 46))
    &&& t[8] == 45 && t[11] == 58 && t[14] == 58
    &&& digits_at(t, 0, 4) && digits_at(t, 4, 6) && digits_at(t, 6, 8)
    &&& digits_at(t, 9, 11) && digits_at(t, 12, 14) && digits_at(t, 15, 17)
    &&& t.len() > 17 ==> digits_at(t, 18, t.len() as int)
}

/// The milliseconds of the fraction of `t`: its first three digits, the
/// missing ones counting as zeros.
pub open spec fn fraction_millis(t: Seq<u8>) -> int {
    let k = t.len() - 18;
    if t.len() <= 17 {
        0
    } else if k >= 3 {
        value_at(t, 18, 21)
    } else if k == 2 {
        value_at(t, 18, 20) * 10
    } else {
        value_at(t, 18, 19) * 100
    }
}

/// The instant (milliseconds since the epoch) that a FIX UTCTimestamp text
/// denotes, or `None` where the text is not such a timestamp: a date with a
/// four-digit year, hours below 24, minutes and seconds below 60.
pub open spec fn fix_timestamp_value(t: Seq<u8>) -> Option<i64> {
    if timestamp_shape(t) {
        let y = value_at(t, 0, 4);
        let m = value_at(t, 4, 6);
        let d = value_at(t, 6, 8);
        let h = value_at(t, 9, 11);
        let mi = value_at(t, 12, 14);
        let s = value_at(t, 15, 17);
        if 1 <= m <= 12 && 1 <= d <= month_len(y, m) && h < 24 && mi < 60 && s < 60 {
            Some(civil_millis(y, m, d, h, mi, s, fraction_millis(t)) as i64)
        } else {
            None
        }
    } else {
        None
    }
}

/// The year holding day `d` of year `y` (counted from its first of January,
/// possibly outside it) and the day of that year.
pub open spec fn year_of(y: int, d: int) -> (int, int)
    decreases (if d < 0 {
        400 - d
    } else {
        d
    }),
{
    if d < 0 {
        year_of(y - 1, d + year_len(y - 1))
    } else if d >= year_len(y) {
        year_of(y + 1, d - year_len(y))
    } else {
        (y, d)
    }
}

/// The month holding day `d` of year `y`, counted from the first of month `m`,
/// and the day of that month (from 0).
pub open spec fn month_of(y: int, m: int, d: int) -> (int, int)
    decreases 12 - m,
{
    if m < 12 && d >= month_len(y, m) {
        month_of(y, m + 1, d - month_len(y, m))
    } else {
        (m, d)
    }
}

/// The FIX UTCTimestamp text, with milliseconds, of the instant `millis`, or
/// `None` where its year has more than four digits or is before year 0.
pub open spec fn fix_timestamp_text(millis: i64) -> Option<Seq<u8>> {
    let days = millis as int / 86400000;
    let r = millis as int % 86400000;
    if first_day() <= days < end_day() {
        let (y, doy) = year_of(1970, days);
        let (m, dom) = month_of(y, 1, doy);
        Some(
            fixed_digits(y as nat, 4) + fixed_digits(m as nat, 2) + fixed_digits((dom + 1) as nat, 2)
                + seq![45u8] + fixed_digits((r / 3600000) as nat, 2) + seq![58u8] + fixed_digits(
                ((r / 60000) % 60) as nat,
                2,
            ) + seq![58u8] + fixed_digits(((r / 1000) % 60) as nat, 2) + seq![46u8] + fixed_digits(
                (r % 1000) as nat,
                3,
            ),
        )
    } else {
        None
    }
}

/// Each year moves the first of January on by the days of the year.
pub proof fn lemma_year_step(y: int)
    ensures
        days_before_year(y + 1) == days_before_year(y) + year_len(y),
{
}

/// Later years start at least 365 days a year later.
pub proof fn lemma_years_apart(a: int, b: int)
    requires
        a <= b,
    ensures
        days_before_year(a) + 365 * (b - a) <= days_before_year(b),
    decreases b - a,
{
    if a < b {
        lemma_years_apart(a, b - 1);
        lemma_year_step(b - 1);
    }
}

/// `year_of` finds the year holding the day, and the day within it.
pub proof fn lemma_year_of(y: int, d: int)
    ensures
        days_before_year(year_of(y, d).0) + year_of(y, d).1 == days_before_year(y) + d,
        0 <= year_of(y, d).1 < year_len(year_of(y, d).0),
    decreases (if d < 0 {
        400 - d
    } else {
        d
    }),
{
    if d < 0 {
        lemma_year_step(y - 1);
        lemma_year_of(y - 1, d + year_len(y - 1));
    } else if d >= year_len(y) {
        lemma_year_step(y);
        lemma_year_of(y + 1, d - year_len(y));
    }
}

/// A day from 0000-01-01 to 9999-12-31 lies in a year with four digits.
pub proof fn lemma_year_range(days: int)
    requires
        first_day() <= days < end_day(),
    ensures
        0 <= year_of(1970, days).0 <= 9999,
{
    lemma_year_of(1970, days);
    let y = year_of(1970, days).0;
    assert(days_before_year(1970) == 0);
    assert(days_before_year(0) == first_day());
    assert(days_before_year(10000) == end_day());
    if y > 9999 {
        lemma_years_apart(10000, y);
    }
    if y < 0 {
        lemma_year_step(y);
        lemma_years_apart(y + 1, 0);
    }
}

/// The months of a year add up to the year.
pub proof fn lemma_months_fill_year(y: int)
    ensures
        days_before_month(y, 13) == year_len(y),
{
    reveal_with_fuel(days_before_month, 13);
}

/// `month_of` finds the month holding a day of the year, and the day within it.
pub proof fn lemma_month_of(y: int, m: int, d: int)
    requires
        1 <= m <= 12,
        0 <= d,
        days_before_month(y, m) + d < days_before_month(y, 13),
    ensures
        1 <= month_of(y, m, d).0 <= 12,
        days_before_month(y, month_of(y, m, d).0) + month_of(y, m, d).1 == days_before_month(y, m) + d,
        0 <= month_of(y, m, d).1 < month_len(y, month_of(y, m, d).0),
    decreases 12 - m,
{
    if m < 12 && d >= month_len(y, m) {
        lemma_month_of(y, m + 1, d - month_len(y, m));
    } else if m == 12 {
        assert(days_before_month(y, 13) == days_before_month(y, 12) + month_len(y, 12));
    }
}

/// Fixed-width digits read back as the number, where it has at most that many digits.
pub proof fn lemma_fixed_digits(n: nat, w: nat)
    requires
        n < pow10(w),
    ensures
        fixed_digits(n, w).len() == w,
        all_digits(fixed_digits(n, w)),
        dec_value(fixed_digits(n, w)) == n,
    decreases w,
{
    if w > 0 {
        lemma_fixed_digits(n / 10, (w - 1) as nat);
        let s = fixed_digits(n, w);
        assert(s.drop_last() =~= fixed_digits(n / 10, (w - 1) as nat));
        assert forall|i: int| 0 <= i < s.len() implies #[trigger] is_digit(s[i]) by {
            if i < s.len() - 1 {
                assert(s[i] == fixed_digits(n / 10, (w - 1) as nat)[i]);
            }
        }
    }
}

/// Milliseconds within a day split into hours, minutes, seconds and milliseconds.
pub proof fn lemma_time_of_day(r: int)
    requires
        0 <= r < 86400000,
    ensures
        r / 3600000 < 24,
        r / 3600000 * 3600000 + (r / 60000) % 60 * 60000 + (r / 1000) % 60 * 1000 + r % 1000 == r,
{
    let s = r / 1000;
    let m = s / 60;
    assert(r == 1000 * s + r % 1000);
    assert(s == 60 * m + s % 60);
    assert(r / 60000 == m);
    assert(m == 60 * (m / 60) + m % 60);
    assert(r / 3600000 == m / 60);
}

/// Reading back the FIX timestamp text of an instant gives the instant, and
/// writing the value read from that text gives the same text again.
pub proof fn law_timestamp_round_trip(millis: i64)
    requires
        fix_timestamp_text(millis) is Some,
    ensures
        fix_timestamp_value(fix_timestamp_text(millis)->0) == Some(millis),
        fix_timestamp_text(fix_timestamp_value(fix_timestamp_text(millis)->0)->0) == fix_timestamp_text(millis),
{
    let days = millis as int / 86400000;
    let r = millis as int % 86400000;
    lemma_year_of(1970, days);
    lemma_year_range(days);
    let (y, doy) = year_of(1970, days);
    lemma_months_fill_year(y);
    lemma_month_of(y, 1, doy);
    let (m, dom) = month_of(y, 1, doy);
    lemma_time_of_day(r);
    let h = r / 3600000;
    let mi = (r / 60000) % 60;
    let s = (r / 1000) % 60;
    let ms = r % 1000;
    reveal_with_fuel(pow10, 5);
    lemma_fixed_digits(y as nat, 4);
    lemma_fixed_digits(m as nat, 2);
    lemma_fixed_digits((dom + 1) as nat, 2);
    lemma_fixed_digits(h as nat, 2);
    lemma_fixed_digits(mi as nat, 2);
    lemma_fixed_digits(s as nat, 2);
    lemma_fixed_digits(ms as nat, 3);
    let t = fix_timestamp_text(millis)->0;
    assert(t.len() == 21);
    assert(t.subrange(0, 4) =~= fixed_digits(y as nat, 4));
    assert(t.subrange(4, 6) =~= fixed_digits(m as nat, 2));
    assert(t.subrange(6, 8) =~= fixed_digits((dom + 1) as nat, 2));
    assert(t.subrange(9, 11) =~= fixed_digits(h as nat, 2));
    assert(t.subrange(12, 14) =~= fixed_digits(mi as nat, 2));
    assert(t.subrange(15, 17) =~= fixed_digits(s as nat, 2));
    assert(t.subrange(18, 21) =~= fixed_digits(ms as nat, 3));
    assert(t[8] == 45 && t[11] == 58 && t[14] == 58 && t[17] == 46);
    assert(timestamp_shape(t));
    assert(days_before_year(1970) == 0);
    assert(civil_millis(y, m, dom + 1, h, mi, s, ms) == millis);
}

/// Decimal digits are worth less than ten to the power of their count.
pub proof fn lemma_dec_value_bound(s: Seq<u8>)
    requires
        all_digits(s),
    ensures
        dec_value(s) < pow10(s.len()),
    decreases s.len(),
{
    if s.len() > 0 {
        let p = s.drop_last();
        assert(all_digits(p)) by {
            assert forall|i: int| 0 <= i < p.len() implies #[trigger] is_digit(p[i]) by {
                assert(p[i] == s[i]);
                assert(is_digit(s[i]));
            }
        }
        lemma_dec_value_bound(p);
        assert(is_digit(s[s.len() - 1]));
    }
}

/// The digits `a..b` of `t`, where they are all digits.
fn digits_value_at(t: &[u8], a: usize, b: usize) -> (r: Option<u64>)
    requires
        a <= b <= t.len(),
        b - a <= 9,
    ensures
        r is Some <==> digits_at(t@, a as int, b as int),
        r matches Some(v) ==> v == value_at(t@, a as int, b as int),
{
    let mut v: u64 = 0;
    let mut i: usize = a;
    while i < b
        invariant
            a <= i <= b <= t.len(),
            b - a <= 9,
            all_digits(t@.subrange(a as int, i as int)),
            v == dec_value(t@.subrange(a as int, i as int)),
            v < pow10((i - a) as nat),
            pow10((i - a) as nat) <= 1000000000,
        decreases b - i,
    {
        let c = t[i];
        let ghost s = t@.subrange(a as int, i as int + 1);
        assert(s.drop_last() =~= t@.subrange(a as int, i as int));
        if c < 48 || c > 57 {
            assert(!is_digit(s[s.len() - 1]));
            assert forall|j: int| i + 1 <= j <= b implies !all_digits(#[trigger] t@.subrange(a as int, j)) by {
                assert(t@.subrange(a as int, j)[i - a] == c);
            }
            return None;
        }
        assert(all_digits(s)) by {
            assert forall|j: int| 0 <= j < s.len() implies #[trigger] is_digit(s[j]) by {
                if j < s.len() - 1 {
                    assert(s[j] == t@.subrange(a as int, i as int)[j]);
                }
            }
        }
        reveal_with_fuel(pow10, 2);
        v = v * 10 + (c - 48) as u64;
        i = i + 1;
        proof {
            lemma_dec_value_bound(t@.subrange(a as int, i as int));
            if (i - a) as nat <= 9 {
                reveal_with_fuel(pow10, 10);
            }
        }
    }
    Some(v)
}

fn is_leap_year(y: i64) -> (r: bool)
    ensures
        r == is_leap(y as int),
{
    y % 4 == 0 && (y % 100 != 0 || y % 400 == 0)
}

fn year_length(y: i64) -> (r: i64)
    ensures
        r == year_len(y as int),
{
    if is_leap_year(y) {
        366
    } else {
        365
    }
}

fn month_length(y: i64, m: i64) -> (r: i64)
    ensures
        r == month_len(y as int, m as int),
{
    if m == 2 {
        if is_leap_year(y) {
            29
        } else {
            28
        }
    } else if m == 4 || m == 6 || m == 9 || m == 11 {
        30
    } else {
        31
    }
}

/// Days from 1970-01-01 to the first of January of a four-digit year.
fn days_before_year_of(y: i64) -> (r: i64)
    requires
        0 <= y <= 9999,
    ensures
        r == days_before_year(y as int),
{
    assert((y + 399) / 4 == (y - 1) / 4 + 100);
    assert((y + 399) / 100 == (y - 1) / 100 + 4);
    assert((y + 399) / 400 == (y - 1) / 400 + 1);
    365 * (y - 1970) + (y + 399) / 4 - (y + 399) / 100 + (y + 399) / 400 - 97 - 477
}

/// Days from the first of January to the first of month `m`.
fn days_before_month_of(y: i64, m: i64) -> (r: i64)
    requires
        1 <= m <= 12,
    ensures
        r == days_before_month(y as int, m as int),
        0 <= r <= 341,
{
    let mut k: i64 = 1;
    let mut acc: i64 = 0;
    while k < m
        invariant
            1 <= k <= m <= 12,
            acc == days_before_month(y as int, k as int),
            0 <= acc <= 31 * (k - 1),
        decreases m - k,
    {
        acc = acc + month_length(y, k);
        k = k + 1;
    }
    acc
}

/// Reads a FIX UTCTimestamp text: the instant it denotes, in milliseconds
/// since the epoch, or `None` where the text is not such a timestamp.
pub fn parse_timestamp_millis(text: &[u8]) -> (r: Option<i64>)
    ensures
        r == fix_timestamp_value(text@),
{
    let n = text.len();
    if !(n == 17 || (19 <= n && n <= 27 && text[17] == 46)) {
        return None;
    }
    if text[8] != 45 || text[11] != 58 || text[14] != 58 {
        return None;
    }
    let y = match digits_value_at(text, 0, 4) {
        Some(v) => v,
        None => return None,
    };
    let m = match digits_value_at(text, 4, 6) {
        Some(v) => v,
        None => return None,
    };
    let d = match digits_value_at(text, 6, 8) {
        Some(v) => v,
        None => return None,
    };
    let h = match digits_value_at(text, 9, 11) {
        Some(v) => v,
        None => return None,
    };
    let mi = match digits_value_at(text, 12, 14) {
        Some(v) => v,
        None => return None,
    };
    let s = match digits_value_at(text, 15, 17) {
        Some(v) => v,
        None => return None,
    };
    let ms: u64 = if n == 17 {
        0
    } else {
        match digits_value_at(text, 18, n) {
            Some(_) => {},
            None => return None,
        }
        let k = n - 18;
        let c = if k >= 3 { 21 } else { n };
        proof {
            assert forall|j: int| 0 <= j < c - 18 implies #[trigger] is_digit(text@.subrange(18, c as int)[j]) by {
                assert(text@.subrange(18, c as int)[j] == text@.subrange(18, n as int)[j]);
            }
        }
        let f = match digits_value_at(text, 18, c) {
            Some(v) => v,
            None => return None,
        };
        proof {
            lemma_dec_value_bound(text@.subrange(18, c as int));
            reveal_with_fuel(pow10, 4);
        }
        if k >= 3 {
            f
        } else if k == 2 {
            f * 10
        } else {
            f * 100
        }
    };
    proof {
        reveal_with_fuel(pow10, 5);
        lemma_dec_value_bound(text@.subrange(0, 4));
        lemma_dec_value_bound(text@.subrange(4, 6));
        lemma_dec_value_bound(text@.subrange(6, 8));
        lemma_dec_value_bound(text@.subrange(9, 11));
        lemma_dec_value_bound(text@.subrange(12, 14));
        lemma_dec_value_bound(text@.subrange(15, 17));
        if n > 17 {
            lemma_dec_value_bound(text@.subrange(18, if n - 18 >= 3 { 21 } else { n as int }));
        }
    }
    let yi = y as i64;
    let mo = m as i64;
    if !(1 <= mo && mo <= 12) {
        return None;
    }
    let ml = month_length(yi, mo);
    if !(1 <= d && d as i64 <= ml && h < 24 && mi < 60 && s < 60) {
        return None;
    }
    proof {
        lemma_years_apart(0, yi as int);
        lemma_years_apart(yi as int, 10000);
        assert(days_before_year(0) == first_day());
        assert(days_before_year(10000) == end_day());
    }
    let days = days_before_year_of(yi) + days_before_month_of(yi, mo) + d as i64 - 1;
    assert(-719530 <= days <= 2933300);
    Some(days * 86400000 + h as i64 * 3600000 + mi as i64 * 60000 + s as i64 * 1000 + ms as i64)
}

/// Appends `n` as exactly `w` decimal digits, the high ones dropped.
fn push_fixed(out: &mut Vec<u8>, n: u64, w: u64)
    ensures
        final(out)@ == old(out)@ + fixed_digits(n as nat, w as nat),
    decreases w,
{
    if w > 0 {
        push_fixed(out, n / 10, w - 1);
        out.push(48 + (n % 10) as u8);
    } else {
        assert(old(out)@ + fixed_digits(n as nat, 0) =~= old(out)@);
    }
}

/// Writes the FIX UTCTimestamp text, with milliseconds, of the instant
/// `millis` (milliseconds since the epoch); `None` where its year is not one
/// of four digits.
pub fn format_timestamp_millis(millis: i64) -> (r: Option<Vec<u8>>)
    ensures
        match r {
            Some(t) => fix_timestamp_text(millis) == Some(t@),
            None => fix_timestamp_text(millis) is None,
        },
{
    let mut days: i64 = millis / 86400000;
    let mut rest: i64 = millis % 86400000;
    if rest < 0 {
        rest = rest + 86400000;
        days = days - 1;
    }
    assert(days == millis as int / 86400000 && rest == millis as int % 86400000);
    if days < -719528 || days >= 2932897 {
        return None;
    }
    let ghost total = days as int;
    let mut y: i64 = 1970;
    let mut d: i64 = days;
    proof {
        assert(days_before_year(1970) == 0);
        assert(days_before_year(0) == first_day());
        assert(days_before_year(10000) == end_day());
    }
    while d < 0 || d >= year_length(y)
        invariant
            0 <= y <= 9999,
            days_before_year(y as int) + d == total,
            first_day() <= total < end_day(),
            year_of(y as int, d as int) == year_of(1970, total),
            days_before_year(0) == first_day(),
            days_before_year(10000) == end_day(),
        decreases (if d < 0 {
            400 - d
        } else {
            d as int
        }),
    {
        if d < 0 {
            proof {
                if y == 0 {
                    assert(false);
                }
                lemma_year_step(y - 1);
            }
            y = y - 1;
            d = d + year_length(y);
        } else {
            proof {
                lemma_year_step(y as int);
                if y + 1 >= 10000 {
                    lemma_years_apart(10000, y + 1);
                }
            }
            d = d - year_length(y);
            y = y + 1;
        }
    }
    let mut m: i64 = 1;
    let mut dd: i64 = d;
    while m < 12 && dd >= month_length(y, m)
        invariant
            1 <= m <= 12,
            0 <= dd <= 366,
            month_of(y as int, m as int, dd as int) == month_of(y as int, 1, d as int),
        decreases 12 - m,
    {
        dd = dd - month_length(y, m);
        m = m + 1;
    }
    let h = rest / 3600000;
    let mi = (rest / 60000) % 60;
    let s = (rest / 1000) % 60;
    let ms = rest % 1000;
    let mut out: Vec<u8> = Vec::new();
    push_fixed(&mut out, y as u64, 4);
    push_fixed(&mut out, m as u64, 2);
    push_fixed(&mut out, (dd + 1) as u64, 2);
    out.push(45);
    push_fixed(&mut out, h as u64, 2);
    out.push(58);
    push_fixed(&mut out, mi as u64, 2);
    out.push(58);
    push_fixed(&mut out, s as u64, 2);
    out.push(46);
    push_fixed(&mut out, ms as u64, 3);
    assert(out@ =~= fix_timestamp_text(millis)->0);
    Some(out)
}

} // verus!
