//! The calls this library makes into `chrono`, `chrono-tz` and `std` for what
//! it cannot compute on its own: the clock, the time-zone database, RFC 3339
//! date-times and UTF-8 text.
use vstd::prelude::*;
use chrono::{Offset, TimeZone};

verus! {

/// The offset from UTC, in seconds, that the IANA time zone `tz_name` has at
/// the instant `utc_secs` (seconds since the Unix epoch), or `None` where the
/// name is unknown or the instant out of `chrono`'s range.
pub uninterp spec fn tz_offset_at(utc_secs: i64, tz_name: Seq<char>) -> Option<i32>;

/// The single UTC instant (seconds since the epoch) at which the local wall
/// clock of `tz_name` reads `local_secs` (seconds since 1970-01-01T00:00 local),
/// or `None` where that wall-clock time is skipped or repeated by a transition,
/// the name is unknown or the value out of range.
pub uninterp spec fn tz_local_single(local_secs: i64, tz_name: Seq<char>) -> Option<i64>;

/// The instant (seconds since the epoch) that `text` denotes when `chrono` parses
/// it as a `DateTime<Utc>` (an RFC 3339 date-time), or `None` where it is not one.
pub uninterp spec fn rfc3339_value(text: Seq<char>) -> Option<i64>;

/// The RFC 3339 text `chrono` gives for the instant `secs` (seconds since the
/// epoch), or `None` out of `chrono`'s range.
pub uninterp spec fn rfc3339_text(secs: i64) -> Option<Seq<char>>;

#[verifier::external_type_specification]
#[verifier::external_body]
pub struct ExSystemTime(std::time::SystemTime);

/// Calls `std::time::SystemTime::now`. Nothing is claimed of the value: it is
/// the time.
#[verifier::external_body]
fn system_now() -> std::time::SystemTime {
    std::time::SystemTime::now()
}

/// Calls `SystemTime::duration_since(UNIX_EPOCH)` on `t` and gives whether `t`
/// is at or after the epoch, with the whole seconds and the milliseconds of the
/// distance (from the `Ok` duration, or from the error's `duration`, the amount by
/// which `t` lies before the epoch). Claimed: the milliseconds are below 1000, as
/// `Duration::subsec_millis` documents.
#[verifier::external_body]
fn since_epoch(t: &std::time::SystemTime) -> (r: (bool, u64, u32))
    ensures
        r.2 < 1000,
{
    match t.duration_since(std::time::UNIX_EPOCH) {
        Ok(d) => (true, d.as_secs(), d.subsec_millis()),
        Err(e) => (false, e.duration().as_secs(), e.duration().subsec_millis()),
    }
}

/// The current time in milliseconds since the Unix epoch, read from the system
/// clock; a clock set before the epoch gives a negative value.
pub(crate) fn utc_now_millis() -> (r: i64) {
    let t = system_now();
    let (after, secs, millis) = since_epoch(&t);
    let m: i64 = if secs >= 9_223_372_036_854_775 {
        i64::MAX
    } else {
        secs as i64 * 1000 + millis as i64
    };
    if after {
        m
    } else {
        -m
    }
}

/// Calls `chrono_tz::Tz::from_str` on `tz_name` and then
/// `TimeZone::offset_from_utc_datetime`, giving `FixedOffset::local_minus_utc`.
/// Claimed: the result is `tz_offset_at` of the arguments, and an offset is
/// strictly within one day, as `chrono::FixedOffset` documents for every offset.
#[verifier::external_body]
pub(crate) fn utc_offset_secs(utc_secs: i64, tz_name: &str) -> (r: Option<i32>)
    ensures
        r == tz_offset_at(utc_secs, tz_name@),
        r matches Some(o) ==> -86400 < o && o < 86400,
{
    let tz: chrono_tz::Tz = tz_name.parse().ok()?;
    let utc = chrono::DateTime::from_timestamp(utc_secs, 0)?;
    Some(tz.offset_from_utc_datetime(&utc.naive_utc()).fix().local_minus_utc())
}

/// Calls `chrono_tz::Tz::from_str` on `tz_name` and then
/// `TimeZone::from_local_datetime(..).single()` on the naive date-time that is
/// `local_secs` after 1970-01-01T00:00, giving the instant's Unix timestamp.
/// Claimed: the result is `tz_local_single` of the arguments.
#[verifier::external_body]
pub(crate) fn local_to_utc_secs(local_secs: i64, tz_name: &str) -> (r: Option<i64>)
    ensures
        r == tz_local_single(local_secs, tz_name@),
{
    let tz: chrono_tz::Tz = tz_name.parse().ok()?;
    let naive = chrono::DateTime::from_timestamp(local_secs, 0)?.naive_utc();
    tz.from_local_datetime(&naive).single().map(|dt| dt.timestamp())
}

/// Calls `str::parse::<chrono::DateTime<chrono::Utc>>` on `text` and takes the
/// Unix timestamp of the result. Claimed: the result is `rfc3339_value` of the text.
#[verifier::external_body]
pub(crate) fn parse_rfc3339_secs(text: &str) -> (r: Option<i64>)
    ensures
        r == rfc3339_value(text@),
{
    let dt = text.parse::<chrono::DateTime<chrono::Utc>>().ok()?;
    Some(dt.timestamp())
}

/// Calls `chrono::DateTime::from_timestamp(secs, 0)` and `DateTime::to_rfc3339`.
/// Claimed: the text is `rfc3339_text` of `secs`, and `None` comes exactly where
/// that name is `None`.
#[verifier::external_body]
pub(crate) fn format_rfc3339_secs(secs: i64) -> (r: Option<String>)
    ensures
        match r {
            Some(t) => rfc3339_text(secs) == Some(t@),
            None => rfc3339_text(secs) is None,
        },
{
    let dt = chrono::DateTime::from_timestamp(secs, 0)?;
    Some(dt.to_rfc3339())
}

/// Calls `std::str::from_utf8` and copies the text into a `String`.
/// Claimed, as the standard library documents: text comes back exactly when the
/// bytes are valid UTF-8, and it is their decoding.
#[verifier::external_body]
pub(crate) fn utf8_text(bytes: &[u8]) -> (r: Option<String>)
    ensures
        r is Some <==> vstd::utf8::valid_utf8(bytes@),
        r matches Some(s) ==> s@ == vstd::utf8::decode_utf8(bytes@),
{
    std::str::from_utf8(bytes).ok().map(|s| s.to_string())
}

} // verus!
