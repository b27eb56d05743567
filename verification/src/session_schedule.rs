//! When a session may be connected: non-stop, daily, on chosen weekdays, or
//! across a weekly window, each in a time zone.
use vstd::prelude::*;

use crate::calendar::{LocalTime, TimeZone, Weekday};
use crate::clock::{tz_local_single, tz_offset_at};
use crate::config::ScheduleConfig;
use crate::session::error::SessionError;

verus! {

/// Result of comparing two times to determine if they fall within the same session period.
#[derive(Debug, Clone, Copy, PartialEq, Eq, Structural)]
pub enum SessionPeriodComparison {
    SamePeriod,
    DifferentPeriod,
    OutsideSessionTime { which: WhichTime },
}

#[derive(Debug, Clone, Copy, PartialEq, Eq, Structural)]
pub enum WhichTime {
    First,
    Second,
    Both,
}

/// Why the bounds of a session period could not be computed.
#[derive(Debug, Clone, PartialEq, Eq)]
pub enum ScheduleError {
    /// The local date (days since 1970-01-01) and time of day fall in a
    /// time-zone transition, or out of range.
    AmbiguousOrMissingTime { date: i64, time: LocalTime, timezone: TimeZone },
    /// A date computation overflowed.
    DateCalculationOverflow { context: String },
}

/// A session schedule. Instants are seconds since the Unix epoch (UTC).
#[derive(Clone, Debug)]
pub enum SessionSchedule {
    NonStop,
    Daily { start_time: LocalTime, end_time: LocalTime, timezone: TimeZone },
    Weekdays {
        start_time: LocalTime,
        end_time: LocalTime,
        weekdays: Vec<Weekday>,
        timezone: TimeZone,
    },
    Weekly {
        start_day: Weekday,
        start_time: LocalTime,
        end_day: Weekday,
        end_time: LocalTime,
        timezone: TimeZone,
    },
}

/// Local wall-clock seconds (since 1970-01-01T00:00 local) at instant `utc` in `tz`.
pub open spec fn local_secs_of(utc: i64, tz: Seq<char>) -> Option<int> {
    match tz_offset_at(utc, tz) {
        Some(o) => Some(utc + o),
        None => None,
    }
}

/// The local date (days since 1970-01-01) of local wall-clock seconds.
pub open spec fn day_of(local: int) -> int {
    local / 86400
}

/// The local time of day (seconds since midnight) of local wall-clock seconds.
pub open spec fn time_of_day(local: int) -> int {
    local % 86400
}

/// The weekday of a local date (1970-01-01 was a Thursday).
pub open spec fn weekday_of_day(day: int) -> Weekday {
    Weekday::from_index(day + 3)
}

/// Daily window: `[start, end)`, wrapping past midnight when `end <= start`.
pub open spec fn spec_check_daily(tod: int, start: int, end: int) -> bool {
    if start < end {
        start <= tod && tod < end
    } else {
        tod >= start || tod < end
    }
}

/// Weekday window: the daily window, on days whose session started on one of
/// the listed weekdays.
pub open spec fn spec_check_weekdays(
    tod: int,
    weekday: Weekday,
    weekdays: Seq<Weekday>,
    start: int,
    end: int,
) -> bool {
    if start < end {
        weekdays.contains(weekday) && start <= tod && tod < end
    } else if end <= tod && tod < start {
        false
    } else if tod >= start {
        weekdays.contains(weekday)
    } else {
        weekdays.contains(Weekday::from_index(weekday.index() as int + 6))
    }
}

/// Position in the week: seconds since Monday 00:00.
pub open spec fn weekly_position(day: Weekday, tod: int) -> int {
    day.index() * 86400 + tod
}

/// Weekly window from (start day, time) to (end day, time), wrapping past the
/// end of the week when the end comes first.
pub open spec fn spec_check_weekly(
    weekday: Weekday,
    tod: int,
    start_day: Weekday,
    start: int,
    end_day: Weekday,
    end: int,
) -> bool {
    let s = weekly_position(start_day, start);
    let e = weekly_position(end_day, end);
    let n = weekly_position(weekday, tod);
    if s < e {
        s <= n && n < e
    } else {
        n >= s || n < e
    }
}

impl SessionSchedule {
    pub open spec fn timezone_name(self) -> Seq<char> {
        match self {
            SessionSchedule::NonStop => seq![],
            SessionSchedule::Daily { timezone, .. } => timezone.name@,
            SessionSchedule::Weekdays { timezone, .. } => timezone.name@,
            SessionSchedule::Weekly { timezone, .. } => timezone.name@,
        }
    }

    /// Whether the schedule is active at the instant `utc` (seconds since the epoch).
    pub open spec fn spec_is_active_at(self, utc: i64) -> bool {
        match self {
            SessionSchedule::NonStop => true,
            _ => match local_secs_of(utc, self.timezone_name()) {
                None => false,
                Some(l) => {
                    let tod = time_of_day(l);
                    let wd = weekday_of_day(day_of(l));
                    match self {
                        SessionSchedule::Daily { start_time, end_time, .. } => spec_check_daily(
                            tod,
                            start_time.seconds() as int,
                            end_time.seconds() as int,
                        ),
                        SessionSchedule::Weekdays { start_time, end_time, weekdays, .. } =>
                            spec_check_weekdays(
                            tod,
                            wd,
                            weekdays@,
                            start_time.seconds() as int,
                            end_time.seconds() as int,
                        ),
                        SessionSchedule::Weekly {
                            start_day,
                            start_time,
                            end_day,
                            end_time,
                            ..
                        } => spec_check_weekly(
                            wd,
                            tod,
                            start_day,
                            start_time.seconds() as int,
                            end_day,
                            end_time.seconds() as int,
                        ),
                        SessionSchedule::NonStop => true,
                    }
                },
            },
        }
    }
}

/// Days added to local seconds to make them non-negative before dividing.
pub const DAY_SHIFT: u128 = 106751991167302;

/// The local date, time of day and weekday of local wall-clock seconds.
pub struct LocalParts {
    pub day: i64,
    pub time_of_day: u32,
    pub weekday: Weekday,
}

/// Splits local wall-clock seconds into date, time of day and weekday.
pub fn local_parts(local: i128) -> (r: LocalParts)
    requires
        i64::MIN - 86400 <= local <= i64::MAX + 86400,
    ensures
        r.day == day_of(local as int),
        r.time_of_day == time_of_day(local as int),
        r.weekday == weekday_of_day(day_of(local as int)),
{
    let shifted: u128 = (local + (DAY_SHIFT * 86400) as i128) as u128;
    let q: u128 = shifted / 86400;
    let rem: u128 = shifted % 86400;
    proof {
        let l = local as int;
        vstd::arithmetic::div_mod::lemma_fundamental_div_mod(l, 86400);
        vstd::arithmetic::div_mod::lemma_mod_bound(l, 86400);
        vstd::arithmetic::div_mod::lemma_fundamental_div_mod_converse(
            shifted as int,
            86400,
            l / 86400 + DAY_SHIFT as int,
            l % 86400,
        );
        let a = (DAY_SHIFT as int + 2) / 7;
        assert(DAY_SHIFT as int + 2 == 7 * a);
        vstd::arithmetic::div_mod::lemma_mod_multiples_vanish(a, l / 86400 + 3, 7);
        assert(q as int + 5 == 7 * a + (l / 86400 + 3));
    }
    let day: i64 = (q as i128 - DAY_SHIFT as i128) as i64;
    let wd = Weekday::from_days_from_monday(((q + 5) % 7) as u32);
    LocalParts { day, time_of_day: rem as u32, weekday: wd }
}

impl SessionSchedule {
    fn timezone_str(&self) -> (r: &str)
        ensures
            r@ == self.timezone_name(),
    {
        match self {
            SessionSchedule::NonStop => {
                proof {
                    reveal_strlit("");
                }
                ""
            },
            SessionSchedule::Daily { timezone, .. } => timezone.name.as_str(),
            SessionSchedule::Weekdays { timezone, .. } => timezone.name.as_str(),
            SessionSchedule::Weekly { timezone, .. } => timezone.name.as_str(),
        }
    }

    /// Whether the schedule is active at the instant `datetime` (seconds since the epoch).
    pub fn is_active_at(&self, datetime: i64) -> (r: bool)
        ensures
            r == self.spec_is_active_at(datetime),
    {
        if let SessionSchedule::NonStop = self {
            return true;
        }
        let offset = match crate::clock::utc_offset_secs(datetime, self.timezone_str()) {
            Some(o) => o,
            None => return false,
        };
        let parts = local_parts(datetime as i128 + offset as i128);
        let tod = parts.time_of_day;
        match self {
            SessionSchedule::NonStop => true,
            SessionSchedule::Daily { start_time, end_time, .. } => {
                check_daily_schedule(tod, start_time, end_time)
            },
            SessionSchedule::Weekdays { start_time, end_time, weekdays, .. } => {
                check_weekdays_schedule(tod, parts.weekday, weekdays, start_time, end_time)
            },
            SessionSchedule::Weekly { start_day, start_time, end_day, end_time, .. } => {
                check_weekly_schedule(tod, parts.weekday, start_day, start_time, end_day, end_time)
            },
        }
    }
}

fn check_daily_schedule(tod: u32, start_time: &LocalTime, end_time: &LocalTime) -> (r: bool)
    ensures
        r == spec_check_daily(tod as int, start_time.seconds() as int, end_time.seconds() as int),
{
    let start = start_time.num_seconds_from_midnight();
    let end = end_time.num_seconds_from_midnight();
    if start < end {
        tod >= start && tod < end
    } else {
        tod >= start || tod < end
    }
}

/// Whether `weekdays` holds `day`.
pub fn contains_weekday(weekdays: &Vec<Weekday>, day: Weekday) -> (r: bool)
    ensures
        r == weekdays@.contains(day),
{
    let mut i: usize = 0;
    while i < weekdays.len()
        invariant
            0 <= i <= weekdays.len(),
            forall|j: int| 0 <= j < i ==> weekdays@[j] != day,
        decreases weekdays.len() - i,
    {
        if weekdays[i] == day {
            assert(weekdays@[i as int] == day);
            return true;
        }
        i = i + 1;
    }
    false
}

fn check_weekdays_schedule(
    tod: u32,
    weekday: Weekday,
    weekdays: &Vec<Weekday>,
    start_time: &LocalTime,
    end_time: &LocalTime,
) -> (r: bool)
    ensures
        r == spec_check_weekdays(
            tod as int,
            weekday,
            weekdays@,
            start_time.seconds() as int,
            end_time.seconds() as int,
        ),
{
    let start = start_time.num_seconds_from_midnight();
    let end = end_time.num_seconds_from_midnight();
    if start < end {
        // the schedule doesn't span midnight
        contains_weekday(weekdays, weekday) && tod >= start && tod < end
    } else {
        // the schedule spans midnight
        if tod >= end && tod < start {
            return false;
        }
        let target_day = if tod >= start {
            weekday
        } else {
            weekday.pred()
        };
        contains_weekday(weekdays, target_day)
    }
}

/// Seconds since Monday 00:00 of a weekday and a time of day.
pub fn weekly_seconds(day: &Weekday, time: &LocalTime) -> (r: u32)
    ensures
        r == weekly_position(*day, time.seconds() as int),
{
    day.num_days_from_monday() * 86400 + time.num_seconds_from_midnight()
}

fn check_weekly_schedule(
    tod: u32,
    weekday: Weekday,
    start_day: &Weekday,
    start_time: &LocalTime,
    end_day: &Weekday,
    end_time: &LocalTime,
) -> (r: bool)
    requires
        tod < 86400,
    ensures
        r == spec_check_weekly(
            weekday,
            tod as int,
            *start_day,
            start_time.seconds() as int,
            *end_day,
            end_time.seconds() as int,
        ),
{
    let start_pos = weekly_seconds(start_day, start_time);
    let end_pos = weekly_seconds(end_day, end_time);
    let now_pos = weekday.num_days_from_monday() * 86400 + tod;
    if start_pos < end_pos {
        // e.g., Mon 09:00 -> Fri 17:00
        start_pos <= now_pos && now_pos < end_pos
    } else {
        // e.g., Sun 18:00 -> Fri 17:00
        now_pos >= start_pos || now_pos < end_pos
    }
}


/// Whether local wall-clock seconds of a date and time of day fit in an `i64`.
pub open spec fn local_in_range(day: int, tod: int) -> bool {
    i64::MIN <= day * 86400 + tod <= i64::MAX
}

/// The UTC instant at which the local wall clock of `tz` shows time of day
/// `tod` on date `day`, where there is exactly one.
pub open spec fn spec_construct_utc(day: int, tod: int, tz: Seq<char>) -> Option<i64> {
    if local_in_range(day, tod) {
        tz_local_single((day * 86400 + tod) as i64, tz)
    } else {
        None
    }
}

/// The error for a date and time that has no single UTC instant.
pub open spec fn is_construct_error(e: ScheduleError, day: int, time: LocalTime, tz: Seq<char>) -> bool {
    if local_in_range(day, time.seconds() as int) {
        e matches ScheduleError::AmbiguousOrMissingTime { date, time: t, timezone } && date == day
            && t == time && timezone.name@ == tz
    } else {
        e is DateCalculationOverflow
    }
}

/// Start and end dates of the daily period around local seconds `l`: it started
/// today if the start time has passed, else yesterday; it ends on the start
/// date, or the day after when the end time comes before the start time.
pub open spec fn single_day_bounds_days(l: int, start: int, end: int) -> (int, int) {
    let day = day_of(l);
    if time_of_day(l) >= start {
        (day, if end < start {
            day + 1
        } else {
            day
        })
    } else {
        (day - 1, day)
    }
}

/// Start and end dates of the weekly period around local seconds `l`: the most
/// recent start day whose start time has passed, and the end day after it
/// (a full week later when the end does not come after the start on the same day).
pub open spec fn weekly_bounds_days(
    l: int,
    start_day: Weekday,
    start: int,
    end_day: Weekday,
    end: int,
) -> (int, int) {
    let day = day_of(l);
    let curr = weekday_of_day(day).index() as int;
    let diff = (curr - start_day.index() as int) % 7;
    let back = if diff == 0 && time_of_day(l) < start {
        7
    } else {
        diff
    };
    let d0 = (end_day.index() as int - start_day.index() as int) % 7;
    let duration = if d0 == 0 && end <= start {
        7
    } else {
        d0
    };
    (day - back, day - back + duration)
}

/// The instant a thousand weeks after `now`, saturating.
pub open spec fn far_future(now: i64) -> i64 {
    if now + 604800000 <= i64::MAX {
        (now + 604800000) as i64
    } else {
        i64::MAX
    }
}

impl SessionSchedule {
    pub open spec fn start_seconds(self) -> int {
        match self {
            SessionSchedule::NonStop => 0,
            SessionSchedule::Daily { start_time, .. } => start_time.seconds() as int,
            SessionSchedule::Weekdays { start_time, .. } => start_time.seconds() as int,
            SessionSchedule::Weekly { start_time, .. } => start_time.seconds() as int,
        }
    }

    pub open spec fn end_seconds(self) -> int {
        match self {
            SessionSchedule::NonStop => 0,
            SessionSchedule::Daily { end_time, .. } => end_time.seconds() as int,
            SessionSchedule::Weekdays { end_time, .. } => end_time.seconds() as int,
            SessionSchedule::Weekly { end_time, .. } => end_time.seconds() as int,
        }
    }

    /// Start and end dates of the session period around instant `utc`.
    pub open spec fn bounds_days(self, utc: i64) -> (int, int) {
        let l = local_secs_of(utc, self.timezone_name())->0;
        match self {
            SessionSchedule::Weekly { start_day, end_day, .. } => weekly_bounds_days(
                l,
                start_day,
                self.start_seconds(),
                end_day,
                self.end_seconds(),
            ),
            _ => single_day_bounds_days(l, self.start_seconds(), self.end_seconds()),
        }
    }

    /// The session period `[start, end)` around instant `utc`, where both ends
    /// are single instants; for a non-stop schedule, from the epoch to a
    /// thousand weeks after `now`.
    pub open spec fn spec_session_bounds(self, utc: i64, now: i64) -> Option<(i64, i64)> {
        match self {
            SessionSchedule::NonStop => Some((0, far_future(now))),
            _ => {
                let (sd, ed) = self.bounds_days(utc);
                match spec_construct_utc(sd, self.start_seconds(), self.timezone_name()) {
                    None => None,
                    Some(s) => match spec_construct_utc(ed, self.end_seconds(), self.timezone_name()) {
                        None => None,
                        Some(e) => Some((s, e)),
                    },
                }
            },
        }
    }

    /// The error the bounds computation reports where it fails: that of the
    /// start of the period, or else that of its end.
    pub open spec fn is_bounds_error(self, utc: i64, e: ScheduleError) -> bool {
        match self {
            SessionSchedule::NonStop => false,
            SessionSchedule::Daily { start_time, end_time, .. } => self.is_bounds_error_with(utc, e, start_time, end_time),
            SessionSchedule::Weekdays { start_time, end_time, .. } => self.is_bounds_error_with(utc, e, start_time, end_time),
            SessionSchedule::Weekly { start_time, end_time, .. } => self.is_bounds_error_with(utc, e, start_time, end_time),
        }
    }

    pub open spec fn is_bounds_error_with(self, utc: i64, e: ScheduleError, start_time: LocalTime, end_time: LocalTime) -> bool {
        let (sd, ed) = self.bounds_days(utc);
        if spec_construct_utc(sd, self.start_seconds(), self.timezone_name()) is None {
            is_construct_error(e, sd, start_time, self.timezone_name())
        } else {
            is_construct_error(e, ed, end_time, self.timezone_name())
        }
    }

    /// Whether two instants fall in the same session period: the periods are
    /// compared only when both instants are within session time.
    pub open spec fn spec_same_period(self, dt1: i64, dt2: i64, now: i64) -> Option<SessionPeriodComparison> {
        let a1 = self.spec_is_active_at(dt1);
        let a2 = self.spec_is_active_at(dt2);
        if !a1 && !a2 {
            Some(SessionPeriodComparison::OutsideSessionTime { which: WhichTime::Both })
        } else if !a1 {
            Some(SessionPeriodComparison::OutsideSessionTime { which: WhichTime::First })
        } else if !a2 {
            Some(SessionPeriodComparison::OutsideSessionTime { which: WhichTime::Second })
        } else {
            match self.spec_session_bounds(dt1, now) {
                None => None,
                Some((s, e)) => if s <= dt2 && dt2 < e {
                    Some(SessionPeriodComparison::SamePeriod)
                } else {
                    Some(SessionPeriodComparison::DifferentPeriod)
                },
            }
        }
    }
}

/// Local wall-clock seconds are their date's midnight plus their time of day,
/// which lies within the day.
pub proof fn lemma_day_and_time(l: int)
    ensures
        l == day_of(l) * 86400 + time_of_day(l),
        0 <= time_of_day(l) < 86400,
{
}

/// A local time inside a daily window of positive length lies within the
/// period computed around it: the period starts no later and ends after it.
pub proof fn law_daily_time_within_its_period(l: int, start: int, end: int)
    requires
        0 <= start < 86400,
        0 <= end < 86400,
        start != end,
        spec_check_daily(time_of_day(l), start, end),
    ensures
        ({
            let (sd, ed) = single_day_bounds_days(l, start, end);
            sd * 86400 + start <= l < ed * 86400 + end
        }),
{
    lemma_day_and_time(l);
}

/// A local time inside a weekly window lies within the period computed around
/// it: the period starts no later and ends after it.
pub proof fn law_weekly_time_within_its_period(
    l: int,
    start_day: Weekday,
    start: int,
    end_day: Weekday,
    end: int,
)
    requires
        0 <= start < 86400,
        0 <= end < 86400,
        spec_check_weekly(weekday_of_day(day_of(l)), time_of_day(l), start_day, start, end_day, end),
    ensures
        ({
            let (sd, ed) = weekly_bounds_days(l, start_day, start, end_day, end);
            sd * 86400 + start <= l < ed * 86400 + end
        }),
{
    lemma_day_and_time(l);
    let day = day_of(l);
    let tod = time_of_day(l);
    let curr = weekday_of_day(day).index() as int;
    let si = start_day.index() as int;
    let ei = end_day.index() as int;
    let diff = (curr - si) % 7;
    if curr >= si {
        assert(diff == curr - si);
    } else {
        assert(diff == curr - si + 7);
    }
    let d0 = (ei - si) % 7;
    if ei >= si {
        assert(d0 == ei - si);
    } else {
        assert(d0 == ei - si + 7);
    }
}

/// A local time within the daily period around a time inside the window has
/// that same period around it.
proof fn lemma_daily_same_period(l1: int, l2: int, start: int, end: int)
    requires
        0 <= start < 86400,
        0 <= end < 86400,
        start != end,
        spec_check_daily(time_of_day(l1), start, end),
        ({
            let (sd, ed) = single_day_bounds_days(l1, start, end);
            sd * 86400 + start <= l2 < ed * 86400 + end
        }),
    ensures
        single_day_bounds_days(l2, start, end) == single_day_bounds_days(l1, start, end),
{
    lemma_day_and_time(l1);
    lemma_day_and_time(l2);
}

/// The weekday number of a local date: 1970-01-01 was a Thursday.
proof fn lemma_weekday_index(day: int)
    ensures
        weekday_of_day(day).index() == (day + 3) % 7,
{
}

/// Days from the start of a weekly window to its end: a full week where the end
/// does not come after the start on the same day.
pub open spec fn weekly_duration(start_day: Weekday, start: int, end_day: Weekday, end: int) -> int {
    let d0 = (end_day.index() as int - start_day.index() as int) % 7;
    if d0 == 0 && end <= start {
        7
    } else {
        d0
    }
}

/// The start date of the weekly period around `l` falls on the start day, the
/// period starts within the week before `l`, and it lasts the window's days.
proof fn lemma_weekly_start(l: int, start_day: Weekday, start: int, end_day: Weekday, end: int)
    requires
        0 <= start < 86400,
        0 <= end < 86400,
    ensures
        ({
            let (sd, ed) = weekly_bounds_days(l, start_day, start, end_day, end);
            &&& (sd + 3) % 7 == start_day.index()
            &&& sd * 86400 + start <= l < sd * 86400 + start + 7 * 86400
            &&& ed == sd + weekly_duration(start_day, start, end_day, end)
        }),
{
    lemma_day_and_time(l);
    let day = day_of(l);
    lemma_weekday_index(day);
    let curr = weekday_of_day(day).index() as int;
    let si = start_day.index() as int;
    let diff = (curr - si) % 7;
    if curr >= si {
        assert(diff == curr - si);
    } else {
        assert(diff == curr - si + 7);
    }
}

/// A local time within the weekly period around a time inside the window has
/// that same period around it.
proof fn lemma_weekly_same_period(
    l1: int,
    l2: int,
    start_day: Weekday,
    start: int,
    end_day: Weekday,
    end: int,
)
    requires
        0 <= start < 86400,
        0 <= end < 86400,
        ({
            let (sd, ed) = weekly_bounds_days(l1, start_day, start, end_day, end);
            sd * 86400 + start <= l2 < ed * 86400 + end
        }),
    ensures
        weekly_bounds_days(l2, start_day, start, end_day, end) == weekly_bounds_days(
            l1,
            start_day,
            start,
            end_day,
            end,
        ),
{
    let sd1 = weekly_bounds_days(l1, start_day, start, end_day, end).0;
    let sd2 = weekly_bounds_days(l2, start_day, start, end_day, end).0;
    lemma_weekly_start(l1, start_day, start, end_day, end);
    lemma_weekly_start(l2, start_day, start, end_day, end);
    let si = start_day.index() as int;
    let ei = end_day.index() as int;
    let d0 = (ei - si) % 7;
    if ei >= si {
        assert(d0 == ei - si);
    } else {
        assert(d0 == ei - si + 7);
    }
    let dur = weekly_duration(start_day, start, end_day, end);
    assert(dur <= 7);
    assert(sd1 * 86400 + start <= l2 < sd1 * 86400 + start + 7 * 86400);
    assert(-7 < sd1 - sd2 < 7);
    let q1 = (sd1 + 3) / 7;
    let q2 = (sd2 + 3) / 7;
    assert(sd1 + 3 == 7 * q1 + si);
    assert(sd2 + 3 == 7 * q2 + si);
    assert(q1 == q2);
}

/// The window of a schedule has positive length where its start and end are
/// two times of one day: daily and weekday windows whose start and end differ.
pub open spec fn has_proper_window(s: SessionSchedule) -> bool {
    match s {
        SessionSchedule::Daily { start_time, end_time, .. } => start_time.seconds() != end_time.seconds(),
        SessionSchedule::Weekdays { start_time, end_time, .. } => start_time.seconds()
            != end_time.seconds(),
        _ => true,
    }
}

/// Whether the time zone's offset at the start and at the end of the period
/// computed around `utc` is its offset at `utc`: no clock change falls inside.
pub open spec fn offset_steady_over_period(s: SessionSchedule, utc: i64) -> bool {
    let tz = s.timezone_name();
    let l = local_secs_of(utc, tz)->0;
    let (sd, ed) = s.bounds_days(utc);
    &&& (spec_construct_utc(sd, s.start_seconds(), tz) matches Some(b) ==> b == sd * 86400 + s.start_seconds() - (l - utc))
    &&& (spec_construct_utc(ed, s.end_seconds(), tz) matches Some(b) ==> b == ed * 86400 + s.end_seconds() - (l - utc))
}

/// An instant at which the schedule is active is in the same session period as
/// itself: the period computed around it starts no later and ends after it.
/// Stated for windows of positive length, where no clock change of the time
/// zone falls inside the period, and, for a non-stop schedule, for instants from
/// the epoch to a thousand weeks after `now`.
pub proof fn law_active_instant_in_its_own_period(s: SessionSchedule, t: i64, now: i64)
    requires
        s.spec_is_active_at(t),
        has_proper_window(s),
        s.start_seconds() < 86400 && s.end_seconds() < 86400,
        s is NonStop ==> 0 <= t < far_future(now),
        s !is NonStop ==> offset_steady_over_period(s, t),
    ensures
        s.spec_session_bounds(t, now) matches Some((b, e)) ==> b <= t < e,
        s.spec_session_bounds(t, now) is Some ==> s.spec_same_period(t, t, now) == Some(
            SessionPeriodComparison::SamePeriod,
        ),
{
    match s {
        SessionSchedule::NonStop => {},
        SessionSchedule::Weekly { start_day, start_time, end_day, end_time, .. } => {
            let l = local_secs_of(t, s.timezone_name())->0;
            law_weekly_time_within_its_period(
                l,
                start_day,
                start_time.seconds() as int,
                end_day,
                end_time.seconds() as int,
            );
        },
        SessionSchedule::Daily { start_time, end_time, .. } => {
            let l = local_secs_of(t, s.timezone_name())->0;
            law_daily_time_within_its_period(l, start_time.seconds() as int, end_time.seconds() as int);
        },
        SessionSchedule::Weekdays { start_time, end_time, .. } => {
            let l = local_secs_of(t, s.timezone_name())->0;
            law_daily_time_within_its_period(l, start_time.seconds() as int, end_time.seconds() as int);
        },
    }
}

/// Comparing the session periods of two instants in the same period gives the
/// same answer the other way round. Stated for windows of positive length,
/// where the time zone's offset is the same at both instants and no clock change
/// falls inside the period, and, for a non-stop schedule, where the first
/// instant lies from the epoch to a thousand weeks after `now`.
pub proof fn law_same_period_is_symmetric(s: SessionSchedule, t1: i64, t2: i64, now: i64)
    requires
        has_proper_window(s),
        s.start_seconds() < 86400 && s.end_seconds() < 86400,
        s is NonStop ==> 0 <= t1 < far_future(now),
        s !is NonStop ==> offset_steady_over_period(s, t1) && tz_offset_at(t1, s.timezone_name())
            == tz_offset_at(t2, s.timezone_name()),
        s.spec_same_period(t1, t2, now) == Some(SessionPeriodComparison::SamePeriod),
    ensures
        s.spec_same_period(t2, t1, now) == Some(SessionPeriodComparison::SamePeriod),
{
    law_active_instant_in_its_own_period(s, t1, now);
    if !(s is NonStop) {
        let tz = s.timezone_name();
        let l1 = local_secs_of(t1, tz)->0;
        let l2 = local_secs_of(t2, tz)->0;
        match s {
            SessionSchedule::Weekly { start_day, start_time, end_day, end_time, .. } => {
                lemma_weekly_same_period(
                    l1,
                    l2,
                    start_day,
                    start_time.seconds() as int,
                    end_day,
                    end_time.seconds() as int,
                );
            },
            SessionSchedule::Daily { start_time, end_time, .. } => {
                lemma_daily_same_period(l1, l2, start_time.seconds() as int, end_time.seconds() as int);
            },
            SessionSchedule::Weekdays { start_time, end_time, .. } => {
                lemma_daily_same_period(l1, l2, start_time.seconds() as int, end_time.seconds() as int);
            },
            SessionSchedule::NonStop => {},
        }
        assert(s.bounds_days(t2) == s.bounds_days(t1));
    }
}

/// The comparison of two instants taken the other way round: which one is
/// outside session time swaps, the rest stays.
pub open spec fn swapped(c: SessionPeriodComparison) -> SessionPeriodComparison {
    match c {
        SessionPeriodComparison::OutsideSessionTime { which: WhichTime::First } =>
            SessionPeriodComparison::OutsideSessionTime { which: WhichTime::Second },
        SessionPeriodComparison::OutsideSessionTime { which: WhichTime::Second } =>
            SessionPeriodComparison::OutsideSessionTime { which: WhichTime::First },
        _ => c,
    }
}

/// Comparing two instants the other way round gives the swapped answer, where
/// both comparisons can be made. Stated for windows of positive length (a
/// daily window from a time to that same time is not compared symmetrically:
/// the period around an instant before that time is the day up to it, the one
/// around an instant after it is empty), where
/// the time zone's offset is the same at both instants and no clock change
/// falls inside the period around either, and, for a non-stop schedule, for
/// instants from the epoch to a thousand weeks after `now`.
pub proof fn law_period_comparison_swaps(s: SessionSchedule, t1: i64, t2: i64, now: i64)
    requires
        has_proper_window(s),
        s.start_seconds() < 86400 && s.end_seconds() < 86400,
        s is NonStop ==> 0 <= t1 < far_future(now) && 0 <= t2 < far_future(now),
        s !is NonStop ==> offset_steady_over_period(s, t1) && offset_steady_over_period(s, t2)
            && tz_offset_at(t1, s.timezone_name()) == tz_offset_at(t2, s.timezone_name()),
        s.spec_same_period(t1, t2, now) is Some,
        s.spec_same_period(t2, t1, now) is Some,
    ensures
        s.spec_same_period(t2, t1, now) == Some(swapped(s.spec_same_period(t1, t2, now)->0)),
{
    if s.spec_same_period(t1, t2, now) == Some(SessionPeriodComparison::SamePeriod) {
        law_same_period_is_symmetric(s, t1, t2, now);
    } else if s.spec_same_period(t2, t1, now) == Some(SessionPeriodComparison::SamePeriod) {
        law_same_period_is_symmetric(s, t2, t1, now);
    }
}

/// The UTC instant of a local date and time in `tz`, where there is exactly one.
pub fn construct_utc(day: i64, time: &LocalTime, timezone: &TimeZone) -> (r: Result<i64, ScheduleError>)
    ensures
        match r {
            Ok(u) => spec_construct_utc(day as int, time.seconds() as int, timezone.name@) == Some(u),
            Err(e) => spec_construct_utc(day as int, time.seconds() as int, timezone.name@) is None
                && is_construct_error(e, day as int, *time, timezone.name@),
        },
{
    let local: i128 = day as i128 * 86400 + time.num_seconds_from_midnight() as i128;
    if local < i64::MIN as i128 || local > i64::MAX as i128 {
        return Err(
            ScheduleError::DateCalculationOverflow {
                context: "local date and time out of range".to_owned(),
            },
        );
    }
    match crate::clock::local_to_utc_secs(local as i64, timezone.name.as_str()) {
        Some(u) => Ok(u),
        None => Err(
            ScheduleError::AmbiguousOrMissingTime {
                date: day,
                time: *time,
                timezone: TimeZone { name: timezone.name.clone() },
            },
        ),
    }
}

/// `(a - b) mod 7` for weekday numbers.
fn weekday_diff(a: u32, b: u32) -> (r: u32)
    requires
        a < 7,
        b < 7,
    ensures
        r == (a as int - b as int) % 7,
        r < 7,
{
    if a >= b {
        a - b
    } else {
        a + 7 - b
    }
}

impl SessionSchedule {
    fn get_session_bounds(&self, datetime: i64, now: i64) -> (r: Result<(i64, i64), ScheduleError>)
        requires
            self !is NonStop ==> local_secs_of(datetime, self.timezone_name()) is Some,
        ensures
            match r {
                Ok(b) => self.spec_session_bounds(datetime, now) == Some(b),
                Err(e) => self.spec_session_bounds(datetime, now) is None && self.is_bounds_error(datetime, e),
            },
    {
        let (start_time, end_time, timezone) = match self {
            SessionSchedule::NonStop => {
                let end = if now <= i64::MAX - 604800000 {
                    now + 604800000
                } else {
                    i64::MAX
                };
                return Ok((0, end));
            },
            SessionSchedule::Daily { start_time, end_time, timezone } => (start_time, end_time, timezone),
            SessionSchedule::Weekdays { start_time, end_time, timezone, .. } => (start_time, end_time, timezone),
            SessionSchedule::Weekly { start_time, end_time, timezone, .. } => (start_time, end_time, timezone),
        };
        let offset = match crate::clock::utc_offset_secs(datetime, timezone.name.as_str()) {
            Some(o) => o,
            None => {
                assert(false);
                return Ok((0, 0));
            },
        };
        let parts = local_parts(datetime as i128 + offset as i128);
        let start = start_time.num_seconds_from_midnight();
        let end = end_time.num_seconds_from_midnight();
        let (start_day, end_day): (i64, i64) = match self {
            SessionSchedule::Weekly { start_day, end_day, .. } => {
                let curr = parts.weekday.num_days_from_monday();
                let s = start_day.num_days_from_monday();
                let e = end_day.num_days_from_monday();
                let diff = weekday_diff(curr, s);
                let back: i64 = if diff == 0 && parts.time_of_day < start {
                    7
                } else {
                    diff as i64
                };
                let d0 = weekday_diff(e, s);
                let duration: i64 = if d0 == 0 && end <= start {
                    7
                } else {
                    d0 as i64
                };
                (parts.day - back, parts.day - back + duration)
            },
            _ => {
                if parts.time_of_day >= start {
                    (parts.day, if end < start {
                        parts.day + 1
                    } else {
                        parts.day
                    })
                } else {
                    (parts.day - 1, parts.day)
                }
            },
        };
        assert((start_day as int, end_day as int) == self.bounds_days(datetime));
        let s = construct_utc(start_day, start_time, timezone)?;
        let e = construct_utc(end_day, end_time, timezone)?;
        Ok((s, e))
    }

    /// Compares the session periods of two instants, `now` being the current
    /// time (which bounds the period of a non-stop schedule).
    pub fn is_same_session_period_at(&self, dt1: i64, dt2: i64, now: i64) -> (r: Result<SessionPeriodComparison, ScheduleError>)
        ensures
            match r {
                Ok(c) => self.spec_same_period(dt1, dt2, now) == Some(c),
                Err(e) => self.spec_same_period(dt1, dt2, now) is None && self.is_bounds_error(dt1, e),
            },
    {
        let dt1_active = self.is_active_at(dt1);
        let dt2_active = self.is_active_at(dt2);
        if !dt1_active || !dt2_active {
            let which = if !dt1_active && !dt2_active {
                WhichTime::Both
            } else if !dt1_active {
                WhichTime::First
            } else {
                WhichTime::Second
            };
            return Ok(SessionPeriodComparison::OutsideSessionTime { which });
        }
        let (start, end) = self.get_session_bounds(dt1, now)?;
        if start <= dt2 && dt2 < end {
            Ok(SessionPeriodComparison::SamePeriod)
        } else {
            Ok(SessionPeriodComparison::DifferentPeriod)
        }
    }

    /// Compares the session periods of two instants (seconds since the epoch).
    pub fn is_same_session_period(&self, dt1: i64, dt2: i64) -> (r: Result<SessionPeriodComparison, ScheduleError>)
        ensures
            exists|now: i64|
                match r {
                    Ok(c) => #[trigger] self.spec_same_period(dt1, dt2, now) == Some(c),
                    Err(e) => self.spec_same_period(dt1, dt2, now) is None && self.is_bounds_error(dt1, e),
                },
    {
        let now_millis = crate::clock::utc_now_millis();
        let now = now_millis / 1000;
        self.is_same_session_period_at(dt1, dt2, now)
    }
}


/// The kind of schedule a configuration describes.
pub enum ScheduleKind {
    NonStop,
    Daily,
    Weekdays,
    Weekly,
}

/// The time zone a configuration names, UTC when it names none.
pub open spec fn configured_tz(c: ScheduleConfig) -> Seq<char> {
    match c.timezone {
        Some(tz) => tz.name@,
        None => seq!['U', 'T', 'C'],
    }
}

/// What a schedule configuration describes, or the text of the error it gives:
/// nothing configured is non-stop; start and end times alone are daily (non-stop
/// when equal), or on the listed weekdays (where equal times are refused); start
/// and end days with times are weekly (without weekdays; on the same day the end
/// must come before the start, and equal times are non-stop); anything else is
/// refused.
pub open spec fn spec_schedule_kind(c: ScheduleConfig) -> Result<ScheduleKind, Seq<char>> {
    if c.start_time is None && c.end_time is None && c.start_day is None && c.end_day is None
        && c.timezone is None && c.weekdays@.len() == 0 {
        Ok(ScheduleKind::NonStop)
    } else if c.start_time is Some && c.end_time is Some && c.start_day is None && c.end_day is None {
        let equal = c.start_time->0.seconds() == c.end_time->0.seconds();
        if c.weekdays@.len() == 0 {
            if equal {
                Ok(ScheduleKind::NonStop)
            } else {
                Ok(ScheduleKind::Daily)
            }
        } else if equal {
            Err("Start and end times cannot be equal when weekdays is set"@)
        } else {
            Ok(ScheduleKind::Weekdays)
        }
    } else if c.start_time is Some && c.end_time is Some && c.start_day is Some && c.end_day is Some {
        if c.weekdays@.len() != 0 {
            Err("weekly sessions cannot have weekdays specified"@)
        } else if c.start_day->0 == c.end_day->0 && c.start_time->0.seconds()
            < c.end_time->0.seconds() {
            Err(
                "Incorrect weekly schedule: start time must be after end time for same day weekly schedule"@,
            )
        } else if c.start_day->0 == c.end_day->0 && c.start_time->0.seconds()
            == c.end_time->0.seconds() {
            Ok(ScheduleKind::NonStop)
        } else {
            Ok(ScheduleKind::Weekly)
        }
    } else {
        Err("invalid schedule configuration: incomplete or conflicting parameters"@)
    }
}

/// Whether `s` is the schedule that configuration `c` describes.
pub open spec fn schedule_matches_config(s: SessionSchedule, c: ScheduleConfig) -> bool {
    match spec_schedule_kind(c) {
        Ok(ScheduleKind::NonStop) => s is NonStop,
        Ok(ScheduleKind::Daily) => s matches SessionSchedule::Daily { start_time, end_time, timezone }
            && start_time == c.start_time->0 && end_time == c.end_time->0 && timezone.name@
            == configured_tz(c),
        Ok(ScheduleKind::Weekdays) => s matches SessionSchedule::Weekdays {
            start_time,
            end_time,
            weekdays,
            timezone,
        } && start_time == c.start_time->0 && end_time == c.end_time->0 && weekdays@ == c.weekdays@
            && timezone.name@ == configured_tz(c),
        Ok(ScheduleKind::Weekly) => s matches SessionSchedule::Weekly {
            start_day,
            start_time,
            end_day,
            end_time,
            timezone,
        } && start_day == c.start_day->0 && start_time == c.start_time->0 && end_day
            == c.end_day->0 && end_time == c.end_time->0 && timezone.name@ == configured_tz(c),
        Err(_) => false,
    }
}

/// A copy of a list of weekdays.
pub fn copy_weekdays(weekdays: &Vec<Weekday>) -> (r: Vec<Weekday>)
    ensures
        r@ == weekdays@,
{
    let mut out: Vec<Weekday> = Vec::new();
    let mut i: usize = 0;
    while i < weekdays.len()
        invariant
            0 <= i <= weekdays.len(),
            out@ == weekdays@.subrange(0, i as int),
        decreases weekdays.len() - i,
    {
        out.push(weekdays[i]);
        i = i + 1;
        assert(out@ =~= weekdays@.subrange(0, i as int));
    }
    assert(weekdays@.subrange(0, weekdays.len() as int) =~= weekdays@);
    out
}

fn configured_timezone(timezone: &Option<TimeZone>) -> (r: TimeZone)
    ensures
        r.name@ == match timezone {
            Some(tz) => tz.name@,
            None => seq!['U', 'T', 'C'],
        },
{
    match timezone {
        Some(tz) => TimeZone { name: tz.name.clone() },
        None => TimeZone::utc(),
    }
}

fn invalid_schedule(msg: &str) -> (r: SessionError)
    ensures
        r matches SessionError::InvalidSchedule(m) && m@ == msg@,
{
    SessionError::InvalidSchedule(msg.to_owned())
}

impl SessionSchedule {
    /// The schedule a configuration describes.
    pub fn try_from(config: &ScheduleConfig) -> (r: Result<SessionSchedule, SessionError>)
        ensures
            match r {
                Ok(s) => schedule_matches_config(s, *config),
                Err(e) => spec_schedule_kind(*config) matches Err(msg)
                    && e == SessionError::InvalidSchedule(msg_string(e))
                    && msg_string(e)@ == msg,
            },
    {
        let no_weekdays = config.weekdays.len() == 0;
        match (&config.start_time, &config.end_time, &config.start_day, &config.end_day) {
            (None, None, None, None) => {
                if no_weekdays && config.timezone.is_none() {
                    return Ok(SessionSchedule::NonStop);
                }
            },
            (Some(start), Some(end), None, None) => {
                let equal = start.num_seconds_from_midnight() == end.num_seconds_from_midnight();
                if no_weekdays {
                    if equal {
                        return Ok(SessionSchedule::NonStop);
                    }
                    return Ok(
                        SessionSchedule::Daily {
                            start_time: *start,
                            end_time: *end,
                            timezone: configured_timezone(&config.timezone),
                        },
                    );
                } else if equal {
                    return Err(invalid_schedule("Start and end times cannot be equal when weekdays is set"));
                } else {
                    return Ok(
                        SessionSchedule::Weekdays {
                            start_time: *start,
                            end_time: *end,
                            weekdays: copy_weekdays(&config.weekdays),
                            timezone: configured_timezone(&config.timezone),
                        },
                    );
                }
            },
            (Some(start), Some(end), Some(start_day), Some(end_day)) => {
                // weekdays should be empty for weekly sessions
                if !no_weekdays {
                    return Err(invalid_schedule("weekly sessions cannot have weekdays specified"));
                }
                let s = start.num_seconds_from_midnight();
                let e = end.num_seconds_from_midnight();
                if *start_day == *end_day && s < e {
                    return Err(
                        invalid_schedule(
                            "Incorrect weekly schedule: start time must be after end time for same day weekly schedule",
                        ),
                    );
                }
                if *start_day == *end_day && s == e {
                    return Ok(SessionSchedule::NonStop);
                }
                return Ok(
                    SessionSchedule::Weekly {
                        start_day: *start_day,
                        start_time: *start,
                        end_day: *end_day,
                        end_time: *end,
                        timezone: configured_timezone(&config.timezone),
                    },
                );
            },
            _ => {},
        }
        Err(invalid_schedule("invalid schedule configuration: incomplete or conflicting parameters"))
    }

    /// The schedule an optional configuration describes: non-stop when there is none.
    pub fn try_from_optional(config: Option<&ScheduleConfig>) -> (r: Result<SessionSchedule, SessionError>)
        ensures
            match config {
                None => r matches Ok(s) && s is NonStop,
                Some(c) => match r {
                    Ok(s) => schedule_matches_config(s, *c),
                    Err(e) => spec_schedule_kind(*c) matches Err(msg) && msg_string(e)@ == msg,
                },
            },
    {
        match config {
            None => Ok(SessionSchedule::NonStop),
            Some(c) => SessionSchedule::try_from(c),
        }
    }
}

/// The text of an invalid-schedule error.
pub open spec fn msg_string(e: SessionError) -> String {
    match e {
        SessionError::InvalidSchedule(m) => m,
        SessionError::Store(_) => arbitrary(),
    }
}

} // verus!
