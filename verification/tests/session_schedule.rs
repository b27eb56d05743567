use chrono::{NaiveDate, TimeZone as _};
use hotfix::calendar::{LocalTime, TimeZone, Weekday};
use hotfix::config::ScheduleConfig;
use hotfix::session::error::SessionError;
use hotfix::session_schedule::{
    construct_utc, ScheduleError, SessionPeriodComparison, SessionSchedule, WhichTime,
};

/// Seconds since the epoch of a UTC date and time.
fn utc_dt(y: i32, m: u32, d: u32, h: u32, mi: u32, s: u32) -> i64 {
    chrono::Utc
        .from_utc_datetime(
            &NaiveDate::from_ymd_opt(y, m, d)
                .unwrap()
                .and_hms_opt(h, mi, s)
                .unwrap(),
        )
        .timestamp()
}

/// Seconds since the epoch of an RFC 3339 timestamp.
fn rfc3339(text: &str) -> i64 {
    chrono::DateTime::parse_from_rfc3339(text).unwrap().timestamp()
}

/// Days since 1970-01-01 of a date.
fn days(y: i32, m: u32, d: u32) -> i64 {
    let date = NaiveDate::from_ymd_opt(y, m, d).unwrap();
    (date - NaiveDate::from_ymd_opt(1970, 1, 1).unwrap()).num_days()
}

/// A time of day.
fn t(h: u32, m: u32, s: u32) -> LocalTime {
    LocalTime::from_hms(h, m, s).unwrap()
}

/// The current time, in seconds since the epoch.
fn now_secs() -> i64 {
    chrono::Utc::now().timestamp()
}


#[test]
fn test_active_at_non_stop_schedule() {
    // non-stop schedules are always active
    let schedule = SessionSchedule::NonStop;
    assert!(schedule.is_active_at(now_secs()))
}

#[test]
fn test_active_at_daily_schedule_utc() {
    let schedule = SessionSchedule::Daily {
        start_time: t(9, 0, 0),
        end_time: t(17, 0, 0),
        timezone: TimeZone::utc(),
    };

    // just before start time (8:59:59)
    let before_start = utc_dt(2024, 1, 1, 8, 59, 59);
    assert!(!schedule.is_active_at(before_start));

    // just after start time (9:00:01)
    let after_start = utc_dt(2024, 1, 1, 9, 0, 1);
    assert!(schedule.is_active_at(after_start));

    // in the middle (13:00:00)
    let middle = utc_dt(2024, 1, 1, 13, 0, 0);
    assert!(schedule.is_active_at(middle));

    // just before end time (16:59:59)
    let before_end = utc_dt(2024, 1, 1, 16, 59, 59);
    assert!(schedule.is_active_at(before_end));

    // at end time (17:00:00) - we expect false at exactly the end time (non-inclusive)
    let at_end = utc_dt(2024, 1, 1, 17, 0, 0);
    assert!(!schedule.is_active_at(at_end));

    // after end time (17:00:01)
    let after_end = utc_dt(2024, 1, 1, 17, 0, 1);
    assert!(!schedule.is_active_at(after_end));
}

#[test]
fn test_active_at_daily_schedule_london() {
    // we'll use 27/06/2025 as the date
    // London is an hour ahead of UTC
    let schedule = SessionSchedule::Daily {
        start_time: t(9, 0, 0),
        end_time: t(17, 0, 0),
        timezone: TimeZone::named("Europe/London"),
    };

    let before_start = utc_dt(2025, 6, 27, 7, 59, 59);
    assert!(!schedule.is_active_at(before_start));

    // 8AM UTC is 9AM London time, so already in session
    let at_start = utc_dt(2025, 6, 27, 8, 0, 0);
    assert!(schedule.is_active_at(at_start));

    // 4PM UTC is 5PM London time, so already out of session
    let at_end = utc_dt(2025, 6, 27, 16, 0, 0);
    assert!(!schedule.is_active_at(at_end));
}

#[test]
fn test_active_at_daily_schedule_london_end_before_start() {
    // we'll use 27/06/2025 as the date
    // London is an hour ahead of UTC
    let schedule_1 = SessionSchedule::Daily {
        start_time: t(9, 0, 0),
        end_time: t(2, 0, 0),
        timezone: TimeZone::named("Europe/London"),
    };

    let before_start = utc_dt(2025, 6, 27, 7, 59, 59);
    assert!(!schedule_1.is_active_at(before_start));

    let at_start = utc_dt(2025, 6, 27, 8, 0, 0);
    assert!(schedule_1.is_active_at(at_start));

    let before_end = utc_dt(2025, 6, 27, 0, 59, 59);
    assert!(schedule_1.is_active_at(before_end));

    let at_end = utc_dt(2025, 6, 27, 1, 0, 0);
    assert!(!schedule_1.is_active_at(at_end));
}

#[test]
fn test_active_at_daily_schedule_london_end_before_start_tz_crossing_midnight() {
    // we'll use 27/06/2025 as the date
    // London is an hour ahead of UTC
    let schedule_1 = SessionSchedule::Daily {
        start_time: t(9, 0, 0),
        end_time: t(0, 30, 0),
        timezone: TimeZone::named("Europe/London"),
    };

    let before_start = utc_dt(2025, 6, 27, 7, 59, 59);
    assert!(!schedule_1.is_active_at(before_start));

    let at_start = utc_dt(2025, 6, 27, 8, 0, 0);
    assert!(schedule_1.is_active_at(at_start));

    let before_end = utc_dt(2025, 6, 27, 23, 29, 59);
    assert!(schedule_1.is_active_at(before_end));

    let at_end = utc_dt(2025, 6, 27, 23, 30, 0);
    assert!(!schedule_1.is_active_at(at_end));
}

#[test]
fn test_active_at_weekdays_schedule_utc() {
    // Monday to Friday, 9AM to 5PM UTC
    let schedule = SessionSchedule::Weekdays {
        start_time: t(9, 0, 0),
        end_time: t(17, 0, 0),
        weekdays: vec![
            Weekday::Mon,
            Weekday::Tue,
            Weekday::Wed,
            Weekday::Thu,
            Weekday::Fri,
        ],
        timezone: TimeZone::utc(),
    };

    // Monday 8:59:59 - before start time
    let monday_before_start = utc_dt(2025, 6, 30, 8, 59, 59); // Monday
    assert!(!schedule.is_active_at(monday_before_start));

    // Monday 9:00:01 - after start time
    let monday_after_start = utc_dt(2025, 6, 30, 9, 0, 1); // Monday
    assert!(schedule.is_active_at(monday_after_start));

    // Friday 16:59:59 - just before end time on a valid day
    let friday_before_end = utc_dt(2025, 7, 4, 16, 59, 59); // Friday
    assert!(schedule.is_active_at(friday_before_end));

    // Friday 17:00:00 - at end time on a valid day (exclusive end)
    let friday_at_end = utc_dt(2025, 7, 4, 17, 0, 0); // Friday
    assert!(!schedule.is_active_at(friday_at_end));

    // Saturday 12:00:00 - middle of day on weekend
    let saturday = utc_dt(2025, 7, 5, 12, 0, 0); // Saturday
    assert!(!schedule.is_active_at(saturday));
}

#[test]
fn test_active_at_weekdays_schedule_london() {
    // Monday to Friday, 9AM to 5PM London time
    // During summer (June), London is UTC+1
    let schedule = SessionSchedule::Weekdays {
        start_time: t(9, 0, 0),
        end_time: t(17, 0, 0),
        weekdays: vec![
            Weekday::Mon,
            Weekday::Tue,
            Weekday::Wed,
            Weekday::Thu,
            Weekday::Fri,
        ],
        timezone: TimeZone::named("Europe/London"),
    };

    // Monday 7:59:59 UTC = 8:59:59 London - before start time
    let monday_before_start = utc_dt(2025, 6, 30, 7, 59, 59); // Monday
    assert!(!schedule.is_active_at(monday_before_start));

    // Monday 8:00:01 UTC = 9:00:01 London - after start time
    let monday_after_start = utc_dt(2025, 6, 30, 8, 0, 1); // Monday
    assert!(schedule.is_active_at(monday_after_start));

    // Friday 15:59:59 UTC = 16:59:59 London - just before end time
    let friday_before_end = utc_dt(2025, 7, 4, 15, 59, 59); // Friday
    assert!(schedule.is_active_at(friday_before_end));

    // Friday 16:00:00 UTC = 17:00:00 London - at end time (exclusive)
    let friday_at_end = utc_dt(2025, 7, 4, 16, 0, 0); // Friday
    assert!(!schedule.is_active_at(friday_at_end));
}

#[test]
fn test_active_at_weekdays_schedule_newyork() {
    // Monday to Friday, 9:30AM to 4PM New York time
    // During summer (June), New York is UTC-4
    let schedule = SessionSchedule::Weekdays {
        start_time: t(9, 30, 0),
        end_time: t(16, 0, 0),
        weekdays: vec![
            Weekday::Mon,
            Weekday::Tue,
            Weekday::Wed,
            Weekday::Thu,
            Weekday::Fri,
        ],
        timezone: TimeZone::named("America/New_York"),
    };

    // Monday 13:29:59 UTC = 9:29:59 NY - just before start time
    let monday_before_start = utc_dt(2025, 6, 30, 13, 29, 59); // Monday
    assert!(!schedule.is_active_at(monday_before_start));

    // Monday 13:30:01 UTC = 9:30:01 NY - just after start time
    let monday_after_start = utc_dt(2025, 6, 30, 13, 30, 1); // Monday
    assert!(schedule.is_active_at(monday_after_start));

    // Tuesday 19:59:59 UTC = 15:59:59 NY - just before end time
    let tuesday_before_end = utc_dt(2025, 7, 1, 19, 59, 59); // Tuesday
    assert!(schedule.is_active_at(tuesday_before_end));

    // Tuesday 20:00:00 UTC = 16:00:00 NY - at end time (exclusive)
    let tuesday_at_end = utc_dt(2025, 7, 1, 20, 0, 0); // Tuesday
    assert!(!schedule.is_active_at(tuesday_at_end));
}

#[test]
fn test_active_at_weekdays_schedule_sydney_crossing_midnight() {
    // Monday to Friday, 10PM to 6AM Sydney time (crosses midnight)
    // In June, Sydney is UTC+10
    let schedule = SessionSchedule::Weekdays {
        start_time: t(22, 0, 0),
        end_time: t(6, 0, 0),
        weekdays: vec![
            Weekday::Mon,
            Weekday::Tue,
            Weekday::Wed,
            Weekday::Thu,
            Weekday::Fri,
        ],
        timezone: TimeZone::named("Australia/Sydney"),
    };

    // Monday 11:59:59 UTC = 21:59:59 Sydney - just before start time
    let monday_before_start = utc_dt(2025, 6, 30, 11, 59, 59); // Monday
    assert!(!schedule.is_active_at(monday_before_start));

    // Monday 12:00:01 UTC = 22:00:01 Sydney - just after start time
    let monday_after_start = utc_dt(2025, 6, 30, 12, 0, 1); // Monday
    assert!(schedule.is_active_at(monday_after_start));

    // Tuesday 19:59:59 UTC = 5:59:59 Sydney Wednesday - just before end time
    let tuesday_before_end = utc_dt(2025, 7, 1, 19, 59, 59); // Tuesday
    assert!(schedule.is_active_at(tuesday_before_end));

    // Tuesday 20:00:00 UTC = 6:00:00 Sydney Wednesday - at end time (exclusive)
    let tuesday_at_end = utc_dt(2025, 7, 1, 20, 0, 0); // Tuesday
    assert!(!schedule.is_active_at(tuesday_at_end));

    // Wednesday 10:00:00 UTC = 20:00:00 Sydney - during inactive period
    let wednesday_inactive = utc_dt(2025, 7, 2, 10, 0, 0); // Wednesday
    assert!(!schedule.is_active_at(wednesday_inactive));
}

#[test]
fn test_active_at_weekdays_schedule_only_weekend() {
    // Weekend schedule (Saturday and Sunday), 10AM to 4PM UTC
    let schedule = SessionSchedule::Weekdays {
        start_time: t(10, 0, 0),
        end_time: t(16, 0, 0),
        weekdays: vec![Weekday::Sat, Weekday::Sun],
        timezone: TimeZone::utc(),
    };

    // Friday 12:00:00 - should be inactive (weekday)
    let friday = utc_dt(2025, 7, 4, 12, 0, 0); // Friday
    assert!(!schedule.is_active_at(friday));

    // Saturday 9:59:59 - before start time on weekend
    let saturday_before_start = utc_dt(2025, 7, 5, 9, 59, 59); // Saturday
    assert!(!schedule.is_active_at(saturday_before_start));

    // Saturday 10:00:01 - after start time on weekend
    let saturday_after_start = utc_dt(2025, 7, 5, 10, 0, 1); // Saturday
    assert!(schedule.is_active_at(saturday_after_start));

    // Sunday 15:59:59 - before end time on weekend
    let sunday_before_end = utc_dt(2025, 7, 6, 15, 59, 59); // Sunday
    assert!(schedule.is_active_at(sunday_before_end));
}

#[test]
fn test_active_at_weekdays_schedule_overnight_crossing_weekdays() {
    // Monday to Thursday nights, 10PM to 6AM London time
    // During summer (June), London is UTC+1
    let schedule = SessionSchedule::Weekdays {
        start_time: t(22, 0, 0),
        end_time: t(6, 0, 0),
        weekdays: vec![Weekday::Mon, Weekday::Tue, Weekday::Wed, Weekday::Thu],
        timezone: TimeZone::named("Europe/London"),
    };

    // Monday 20:59:59 UTC = 21:59:59 London - just before start time
    let monday_before_start = utc_dt(2025, 6, 30, 20, 59, 59); // Monday
    assert!(!schedule.is_active_at(monday_before_start));

    // Monday 21:00:01 UTC = 22:00:01 London - just after start time
    let monday_after_start = utc_dt(2025, 6, 30, 21, 0, 1); // Monday
    assert!(schedule.is_active_at(monday_after_start));

    // Tuesday 4:59:59 UTC = 5:59:59 London - just before end time, still Monday's session
    let tuesday_before_end = utc_dt(2025, 7, 1, 4, 59, 59); // Tuesday
    assert!(schedule.is_active_at(tuesday_before_end));

    // Tuesday 5:00:00 UTC = 6:00:00 London - at end time, should be inactive
    let tuesday_at_end = utc_dt(2025, 7, 1, 5, 0, 0); // Tuesday
    assert!(!schedule.is_active_at(tuesday_at_end));

    // Friday 21:00:01 UTC = 22:00:01 London - after start time but on Friday which is excluded
    let friday_night = utc_dt(2025, 7, 4, 21, 0, 1); // Friday
    assert!(!schedule.is_active_at(friday_night));

    // Thursday 21:00:01 UTC = 22:00:01 London - Thursday night session should be active
    let thursday_night = utc_dt(2025, 7, 3, 21, 0, 1); // Thursday
    assert!(schedule.is_active_at(thursday_night));

    // Friday 4:59:59 UTC = 5:59:59 London - still Thursday's session ending on Friday morning
    let friday_morning = utc_dt(2025, 7, 4, 4, 59, 59); // Friday
    assert!(schedule.is_active_at(friday_morning));
}

#[test]
fn test_into_non_stop_no_config() {
    let config = ScheduleConfig {
        start_time: None,
        end_time: None,
        start_day: None,
        end_day: None,
        weekdays: vec![],
        timezone: None,
    };

    let schedule = SessionSchedule::try_from(&config).unwrap();
    assert!(matches!(schedule, SessionSchedule::NonStop));
}

#[test]
fn test_into_non_stop_equal_times() {
    let time = t(9, 0, 0);
    let config = ScheduleConfig {
        start_time: Some(time),
        end_time: Some(time),
        start_day: None,
        end_day: None,
        weekdays: vec![],
        timezone: None,
    };

    let schedule = SessionSchedule::try_from(&config).unwrap();
    assert!(matches!(schedule, SessionSchedule::NonStop));
}

#[test]
fn test_into_daily_session() {
    let config = ScheduleConfig {
        start_time: Some(t(9, 0, 0)),
        end_time: Some(t(17, 0, 0)),
        start_day: None,
        end_day: None,
        weekdays: vec![],
        timezone: None,
    };

    let schedule = SessionSchedule::try_from(&config).unwrap();
    match schedule {
        SessionSchedule::Daily {
            start_time,
            end_time,
            timezone,
        } => {
            assert_eq!(start_time, t(9, 0, 0));
            assert_eq!(end_time, t(17, 0, 0));
            assert_eq!(timezone, TimeZone::utc());
        }
        _ => panic!("Expected Daily schedule"),
    }
}

#[test]
fn test_into_weekdays_session() {
    let config = ScheduleConfig {
        start_time: Some(t(9, 0, 0)),
        end_time: Some(t(17, 0, 0)),
        start_day: None,
        end_day: None,
        weekdays: vec![
            Weekday::Mon,
            Weekday::Tue,
            Weekday::Wed,
            Weekday::Thu,
            Weekday::Fri,
        ],
        timezone: Some(TimeZone::named("Europe/London")),
    };

    let schedule = SessionSchedule::try_from(&config).unwrap();
    match schedule {
        SessionSchedule::Weekdays {
            start_time,
            end_time,
            weekdays,
            timezone,
        } => {
            assert_eq!(start_time, t(9, 0, 0));
            assert_eq!(end_time, t(17, 0, 0));
            assert_eq!(
                weekdays,
                vec![
                    Weekday::Mon,
                    Weekday::Tue,
                    Weekday::Wed,
                    Weekday::Thu,
                    Weekday::Fri
                ]
            );
            assert_eq!(timezone, TimeZone::named("Europe/London"));
        }
        _ => panic!("Expected Weekdays schedule"),
    }
}

#[test]
fn test_into_weekly_session_valid() {
    let config = ScheduleConfig {
        start_time: Some(t(18, 0, 0)),
        end_time: Some(t(17, 0, 0)),
        start_day: Some(Weekday::Sun),
        end_day: Some(Weekday::Fri),
        weekdays: vec![],
        timezone: Some(TimeZone::named("America/New_York")),
    };

    let schedule = SessionSchedule::try_from(&config).unwrap();
    match schedule {
        SessionSchedule::Weekly {
            start_day,
            start_time,
            end_day,
            end_time,
            timezone,
        } => {
            assert_eq!(start_day, Weekday::Sun);
            assert_eq!(start_time, t(18, 0, 0));
            assert_eq!(end_day, Weekday::Fri);
            assert_eq!(end_time, t(17, 0, 0));
            assert_eq!(timezone, TimeZone::named("America/New_York"));
        }
        _ => panic!("Expected Weekly schedule"),
    }
}

#[test]
fn test_into_weekly_session_equal_times_distinct_days_valid() {
    let time = t(12, 0, 0);
    let config = ScheduleConfig {
        start_time: Some(time),
        end_time: Some(time),
        start_day: Some(Weekday::Mon),
        end_day: Some(Weekday::Fri),
        weekdays: vec![],
        timezone: None,
    };

    let schedule = SessionSchedule::try_from(&config).unwrap();
    assert!(matches!(schedule, SessionSchedule::Weekly { .. }));
}

#[test]
fn test_into_weekly_session_same_day_and_start_gt_end_valid() {
    let start = t(12, 0, 0);
    let end = t(9, 0, 0);
    let config = ScheduleConfig {
        start_time: Some(start),
        end_time: Some(end),
        start_day: Some(Weekday::Mon),
        end_day: Some(Weekday::Mon),
        weekdays: vec![],
        timezone: None,
    };

    let schedule = SessionSchedule::try_from(&config).unwrap();
    assert!(matches!(schedule, SessionSchedule::Weekly { .. }));
}

#[test]
fn test_into_weekly_session_same_day_and_same_time_collapses_to_nonstop() {
    let config = ScheduleConfig {
        start_time: Some(t(9, 0, 0)),
        end_time: Some(t(9, 0, 0)),
        start_day: Some(Weekday::Mon),
        end_day: Some(Weekday::Mon),
        weekdays: vec![],
        timezone: None,
    };

    let schedule = SessionSchedule::try_from(&config).unwrap();
    assert!(matches!(schedule, SessionSchedule::NonStop));
}

#[test]
fn test_into_weekly_session_same_day_wrong_time_error() {
    let config = ScheduleConfig {
        start_time: Some(t(1, 0, 0)),
        end_time: Some(t(9, 0, 0)),
        start_day: Some(Weekday::Mon),
        end_day: Some(Weekday::Mon),
        weekdays: vec![],
        timezone: None,
    };

    let result = SessionSchedule::try_from(&config);
    assert!(result.is_err());
}

#[test]
fn test_into_invalid_weekly_with_weekdays() {
    let config = ScheduleConfig {
        start_time: Some(t(9, 0, 0)),
        end_time: Some(t(17, 0, 0)),
        start_day: Some(Weekday::Mon),
        end_day: Some(Weekday::Fri),
        weekdays: vec![Weekday::Mon],
        timezone: None,
    };

    let result = SessionSchedule::try_from(&config);
    assert!(result.is_err());
    match result.unwrap_err() {
        SessionError::InvalidSchedule(msg) => {
            assert!(msg.contains("weekly sessions cannot have weekdays specified"));
        }
        other => panic!("unexpected error: {other:?}"),
    }
}

#[test]
fn test_into_invalid_partial_config_start_time_only() {
    let config = ScheduleConfig {
        start_time: Some(t(9, 0, 0)),
        end_time: None,
        start_day: None,
        end_day: None,
        weekdays: vec![],
        timezone: None,
    };

    let result = SessionSchedule::try_from(&config);
    assert!(result.is_err());
}

#[test]
fn test_into_invalid_partial_config_end_time_only() {
    let config = ScheduleConfig {
        start_time: None,
        end_time: Some(t(17, 0, 0)),
        start_day: None,
        end_day: None,
        weekdays: vec![],
        timezone: None,
    };

    let result = SessionSchedule::try_from(&config);
    assert!(result.is_err());
}

#[test]
fn test_into_invalid_partial_config_start_day_only() {
    let config = ScheduleConfig {
        start_time: None,
        end_time: None,
        start_day: Some(Weekday::Mon),
        end_day: None,
        weekdays: vec![],
        timezone: None,
    };

    let result = SessionSchedule::try_from(&config);
    assert!(result.is_err());
}

#[test]
fn test_into_invalid_mixed_config() {
    let config = ScheduleConfig {
        start_time: Some(t(9, 0, 0)),
        end_time: None,
        start_day: Some(Weekday::Mon),
        end_day: None,
        weekdays: vec![],
        timezone: None,
    };

    let result = SessionSchedule::try_from(&config);
    assert!(result.is_err());
}

#[test]
fn test_into_weekdays_with_single_day() {
    let config = ScheduleConfig {
        start_time: Some(t(9, 0, 0)),
        end_time: Some(t(17, 0, 0)),
        start_day: None,
        end_day: None,
        weekdays: vec![Weekday::Sat],
        timezone: None,
    };

    let schedule = SessionSchedule::try_from(&config).unwrap();
    match schedule {
        SessionSchedule::Weekdays { weekdays, .. } => {
            assert_eq!(weekdays, vec![Weekday::Sat]);
        }
        _ => panic!("Expected Weekdays schedule"),
    }
}

#[test]
fn test_into_weekdays_with_equal_times_is_invalid() {
    let time = t(10, 30, 0);
    let config = ScheduleConfig {
        start_time: Some(time),
        end_time: Some(time),
        start_day: None,
        end_day: None,
        weekdays: vec![Weekday::Mon, Weekday::Wed, Weekday::Fri],
        timezone: None,
    };

    let schedule = SessionSchedule::try_from(&config);
    assert!(schedule.is_err());
}

#[test]
fn test_is_same_session_period_nonstop() {
    let schedule = SessionSchedule::NonStop;

    let dt1 = rfc3339("2025-01-15T01:30:00-05:00");
    let dt2 = rfc3339("2026-01-15T23:30:00-05:00");
    assert_eq!(
        schedule.is_same_session_period(dt1, dt2).unwrap(),
        SessionPeriodComparison::SamePeriod
    );
}

#[test]
fn test_is_same_session_period_daily_utc() {
    let schedule = SessionSchedule::Daily {
        start_time: t(9, 0, 0),
        end_time: t(17, 0, 0),
        timezone: TimeZone::utc(),
    };

    // two times within the same session period return SamePeriod
    let dt1 = utc_dt(2025, 6, 27, 10, 0, 0);
    let dt2 = utc_dt(2025, 6, 27, 15, 0, 0);
    assert_eq!(
        schedule.is_same_session_period(dt1, dt2).unwrap(),
        SessionPeriodComparison::SamePeriod
    );
    assert_eq!(
        schedule.is_same_session_period(dt2, dt1).unwrap(),
        SessionPeriodComparison::SamePeriod
    );

    // time for the next session period returns DifferentPeriod
    let dt3 = utc_dt(2025, 6, 28, 10, 0, 0);
    assert_eq!(
        schedule.is_same_session_period(dt1, dt3).unwrap(),
        SessionPeriodComparison::DifferentPeriod
    );
    assert_eq!(
        schedule.is_same_session_period(dt3, dt1).unwrap(),
        SessionPeriodComparison::DifferentPeriod
    );

    // time on the same day but outside session time returns OutsideSessionTime
    let dt4 = utc_dt(2025, 6, 27, 19, 0, 0);
    assert!(matches!(
        schedule.is_same_session_period(dt1, dt4).unwrap(),
        SessionPeriodComparison::OutsideSessionTime {
            which: WhichTime::Second
        }
    ));
    assert!(matches!(
        schedule.is_same_session_period(dt4, dt1).unwrap(),
        SessionPeriodComparison::OutsideSessionTime {
            which: WhichTime::First
        }
    ));
}

#[test]
fn test_is_same_session_period_daily_nyc() {
    let schedule = SessionSchedule::Daily {
        start_time: t(1, 0, 0),
        end_time: t(23, 0, 0),
        timezone: TimeZone::named("America/New_York"),
    };

    // same session period on the same day (both in EST)
    let dt1 = rfc3339("2025-01-15T01:30:00-05:00");
    let dt2 = rfc3339("2025-01-15T22:45:00-05:00");
    assert_eq!(
        schedule.is_same_session_period(dt1, dt2).unwrap(),
        SessionPeriodComparison::SamePeriod
    );

    // different session periods on consecutive days
    let dt3 = rfc3339("2024-01-15T22:30:00-05:00");
    let dt4 = rfc3339("2024-01-16T02:30:00-05:00");
    assert_eq!(
        schedule.is_same_session_period(dt3, dt4).unwrap(),
        SessionPeriodComparison::DifferentPeriod
    );

    // session boundary testing - end of session vs start of next session
    let dt5 = rfc3339("2024-01-15T22:59:59-05:00");
    let dt6 = rfc3339("2024-01-16T01:00:01-05:00");
    assert_eq!(
        schedule.is_same_session_period(dt5, dt6).unwrap(),
        SessionPeriodComparison::DifferentPeriod
    );

    // time that doesn't fall into any session period
    let dt7 = rfc3339("2024-01-15T23:30:00-05:00");
    let dt8 = rfc3339("2024-01-15T10:00:00-05:00");
    assert!(matches!(
        schedule.is_same_session_period(dt7, dt8).unwrap(),
        SessionPeriodComparison::OutsideSessionTime {
            which: WhichTime::First
        }
    ));
}

#[test]
fn test_is_same_session_period_daily_nyc_with_midnight_crossover() {
    // schedule end time is past midnight
    let schedule = SessionSchedule::Daily {
        start_time: t(6, 0, 0),
        end_time: t(1, 0, 0),
        timezone: TimeZone::named("America/New_York"),
    };

    // same session period on consecutive days
    let dt1 = rfc3339("2025-01-15T15:30:00-05:00");
    let dt2 = rfc3339("2025-01-16T00:45:00-05:00");
    assert_eq!(
        schedule.is_same_session_period(dt1, dt2).unwrap(),
        SessionPeriodComparison::SamePeriod
    );
    assert_eq!(
        schedule.is_same_session_period(dt2, dt1).unwrap(),
        SessionPeriodComparison::SamePeriod
    );

    // different session period on the same day
    let dt1 = rfc3339("2025-01-15T15:30:00-05:00");
    let dt2 = rfc3339("2025-01-15T00:45:00-05:00");
    assert_eq!(
        schedule.is_same_session_period(dt1, dt2).unwrap(),
        SessionPeriodComparison::DifferentPeriod
    );
    assert_eq!(
        schedule.is_same_session_period(dt2, dt1).unwrap(),
        SessionPeriodComparison::DifferentPeriod
    );
}

#[test]
fn test_is_same_session_period_weekdays_utc() {
    let schedule = SessionSchedule::Weekdays {
        start_time: t(9, 0, 0),
        end_time: t(17, 0, 0),
        weekdays: vec![
            Weekday::Mon,
            Weekday::Tue,
            Weekday::Wed,
            Weekday::Thu,
            Weekday::Fri,
        ],
        timezone: TimeZone::utc(),
    };

    // 10/07/2025 is a Thursday
    // two times within the same session period return SamePeriod
    let dt1 = utc_dt(2025, 7, 10, 10, 0, 0);
    let dt2 = utc_dt(2025, 7, 10, 15, 0, 0);
    assert_eq!(
        schedule.is_same_session_period(dt1, dt2).unwrap(),
        SessionPeriodComparison::SamePeriod
    );
    assert_eq!(
        schedule.is_same_session_period(dt2, dt1).unwrap(),
        SessionPeriodComparison::SamePeriod
    );

    // time for the next session period returns DifferentPeriod
    let dt3 = utc_dt(2025, 7, 11, 10, 0, 0);
    assert_eq!(
        schedule.is_same_session_period(dt1, dt3).unwrap(),
        SessionPeriodComparison::DifferentPeriod
    );
    assert_eq!(
        schedule.is_same_session_period(dt3, dt1).unwrap(),
        SessionPeriodComparison::DifferentPeriod
    );

    // time on the same day but outside session time returns OutsideSessionTime
    let dt4 = utc_dt(2025, 7, 10, 19, 0, 0);
    assert!(matches!(
        schedule.is_same_session_period(dt1, dt4).unwrap(),
        SessionPeriodComparison::OutsideSessionTime {
            which: WhichTime::Second
        }
    ));
    assert!(matches!(
        schedule.is_same_session_period(dt4, dt1).unwrap(),
        SessionPeriodComparison::OutsideSessionTime {
            which: WhichTime::First
        }
    ));

    // time falls on the Saturday (outside session period) returns OutsideSessionTime
    let dt5 = utc_dt(2025, 7, 12, 13, 0, 0);
    assert!(matches!(
        schedule.is_same_session_period(dt1, dt5).unwrap(),
        SessionPeriodComparison::OutsideSessionTime {
            which: WhichTime::Second
        }
    ));
    assert!(matches!(
        schedule.is_same_session_period(dt5, dt1).unwrap(),
        SessionPeriodComparison::OutsideSessionTime {
            which: WhichTime::First
        }
    ));
}

#[test]
fn test_active_at_weekly_schedule_utc() {
    // Mon 09:00 → Wed 17:00 UTC
    let schedule = SessionSchedule::Weekly {
        start_day: Weekday::Mon,
        start_time: t(9, 0, 0),
        end_day: Weekday::Wed,
        end_time: t(17, 0, 0),
        timezone: TimeZone::utc(),
    };

    // Sunday before — inactive
    assert!(!schedule.is_active_at(utc_dt(2025, 6, 29, 12, 0, 0)));
    // Monday 8:59:59 — inactive (before start)
    assert!(!schedule.is_active_at(utc_dt(2025, 6, 30, 8, 59, 59)));
    // Monday 9:00:00 — active (inclusive start)
    assert!(schedule.is_active_at(utc_dt(2025, 6, 30, 9, 0, 0)));
    // Tuesday 03:00 — active (mid-session, full day)
    assert!(schedule.is_active_at(utc_dt(2025, 7, 1, 3, 0, 0)));
    // Wednesday 16:59:59 — active
    assert!(schedule.is_active_at(utc_dt(2025, 7, 2, 16, 59, 59)));
    // Wednesday 17:00:00 — inactive (exclusive end)
    assert!(!schedule.is_active_at(utc_dt(2025, 7, 2, 17, 0, 0)));
    // Thursday — inactive
    assert!(!schedule.is_active_at(utc_dt(2025, 7, 3, 10, 0, 0)));
    // Saturday — inactive
    assert!(!schedule.is_active_at(utc_dt(2025, 7, 5, 12, 0, 0)));
}

#[test]
fn test_active_at_weekly_schedule_24x5_new_york() {
    // Classic 24/5 FIX trading week: Sun 18:00 → Fri 17:00 New York time.
    // In January, New York is EST (UTC-5).
    let schedule = SessionSchedule::Weekly {
        start_day: Weekday::Sun,
        start_time: t(18, 0, 0),
        end_day: Weekday::Fri,
        end_time: t(17, 0, 0),
        timezone: TimeZone::named("America/New_York"),
    };

    // Sun Jan 12, 2025 22:59:59 UTC = 17:59:59 NY — just before start
    assert!(!schedule.is_active_at(utc_dt(2025, 1, 12, 22, 59, 59)));
    // Sun Jan 12, 2025 23:00:01 UTC = 18:00:01 NY — just after start
    assert!(schedule.is_active_at(utc_dt(2025, 1, 12, 23, 0, 1)));
    // Wed Jan 15, 2025 12:00 UTC = 07:00 NY — mid session
    assert!(schedule.is_active_at(utc_dt(2025, 1, 15, 12, 0, 0)));
    // Fri Jan 17, 2025 21:59:59 UTC = 16:59:59 NY — just before end
    assert!(schedule.is_active_at(utc_dt(2025, 1, 17, 21, 59, 59)));
    // Fri Jan 17, 2025 22:00:00 UTC = 17:00:00 NY — at end (exclusive)
    assert!(!schedule.is_active_at(utc_dt(2025, 1, 17, 22, 0, 0)));
    // Sat Jan 18, 2025 12:00 UTC = 07:00 NY Sat — outside session window
    assert!(!schedule.is_active_at(utc_dt(2025, 1, 18, 12, 0, 0)));
    // Sun Jan 19, 2025 12:00 UTC = 07:00 NY Sun — before next session
    assert!(!schedule.is_active_at(utc_dt(2025, 1, 19, 12, 0, 0)));
}

#[test]
fn test_active_at_weekly_schedule_london() {
    // Mon 09:00 → Fri 17:00 London time. June 2025: London is UTC+1 (BST).
    let schedule = SessionSchedule::Weekly {
        start_day: Weekday::Mon,
        start_time: t(9, 0, 0),
        end_day: Weekday::Fri,
        end_time: t(17, 0, 0),
        timezone: TimeZone::named("Europe/London"),
    };

    // Mon Jun 30, 2025 07:59:59 UTC = 08:59:59 London — before start
    assert!(!schedule.is_active_at(utc_dt(2025, 6, 30, 7, 59, 59)));
    // Mon Jun 30, 2025 08:00:01 UTC = 09:00:01 London — after start
    assert!(schedule.is_active_at(utc_dt(2025, 6, 30, 8, 0, 1)));
    // Fri Jul 4, 2025 15:59:59 UTC = 16:59:59 London — just before end
    assert!(schedule.is_active_at(utc_dt(2025, 7, 4, 15, 59, 59)));
    // Fri Jul 4, 2025 16:00:00 UTC = 17:00:00 London — at end (exclusive)
    assert!(!schedule.is_active_at(utc_dt(2025, 7, 4, 16, 0, 0)));
}

#[test]
fn test_active_at_weekly_schedule_short_window() {
    // Short cross-day window: Tue 22:00 → Wed 06:00 UTC (8h, crosses midnight)
    let schedule = SessionSchedule::Weekly {
        start_day: Weekday::Tue,
        start_time: t(22, 0, 0),
        end_day: Weekday::Wed,
        end_time: t(6, 0, 0),
        timezone: TimeZone::utc(),
    };

    // Tue 21:59:59 — inactive
    assert!(!schedule.is_active_at(utc_dt(2025, 7, 1, 21, 59, 59)));
    // Tue 22:00:00 — active
    assert!(schedule.is_active_at(utc_dt(2025, 7, 1, 22, 0, 0)));
    // Tue 23:30 — active
    assert!(schedule.is_active_at(utc_dt(2025, 7, 1, 23, 30, 0)));
    // Wed 02:00 — active (across midnight)
    assert!(schedule.is_active_at(utc_dt(2025, 7, 2, 2, 0, 0)));
    // Wed 05:59:59 — active
    assert!(schedule.is_active_at(utc_dt(2025, 7, 2, 5, 59, 59)));
    // Wed 06:00:00 — inactive (exclusive end)
    assert!(!schedule.is_active_at(utc_dt(2025, 7, 2, 6, 0, 0)));
    // Wed 12:00 — inactive
    assert!(!schedule.is_active_at(utc_dt(2025, 7, 2, 12, 0, 0)));
}

#[test]
fn test_active_at_weekly_schedule_full_week_minus_gap() {
    // Very wide window: Mon 02:00 → Sun 23:00 UTC
    let schedule = SessionSchedule::Weekly {
        start_day: Weekday::Mon,
        start_time: t(2, 0, 0),
        end_day: Weekday::Sun,
        end_time: t(23, 0, 0),
        timezone: TimeZone::utc(),
    };

    // Mon 01:59:59 — inactive (just before start)
    assert!(!schedule.is_active_at(utc_dt(2025, 6, 30, 1, 59, 59)));
    // Mon 02:00:00 — active
    assert!(schedule.is_active_at(utc_dt(2025, 6, 30, 2, 0, 0)));
    // Mid-week — active
    assert!(schedule.is_active_at(utc_dt(2025, 7, 2, 12, 0, 0)));
    // Sat — active
    assert!(schedule.is_active_at(utc_dt(2025, 7, 5, 18, 0, 0)));
    // Sun 22:59:59 — active
    assert!(schedule.is_active_at(utc_dt(2025, 7, 6, 22, 59, 59)));
    // Sun 23:00:00 — inactive (exclusive end)
    assert!(!schedule.is_active_at(utc_dt(2025, 7, 6, 23, 0, 0)));
}

#[test]
fn test_is_same_session_period_weekly_utc() {
    // Mon 09:00 → Fri 17:00 UTC
    let schedule = SessionSchedule::Weekly {
        start_day: Weekday::Mon,
        start_time: t(9, 0, 0),
        end_day: Weekday::Fri,
        end_time: t(17, 0, 0),
        timezone: TimeZone::utc(),
    };

    let dt_mon = utc_dt(2025, 6, 30, 10, 0, 0);
    let dt_thu = utc_dt(2025, 7, 3, 15, 0, 0);
    assert_eq!(
        schedule.is_same_session_period(dt_mon, dt_thu).unwrap(),
        SessionPeriodComparison::SamePeriod
    );
    assert_eq!(
        schedule.is_same_session_period(dt_thu, dt_mon).unwrap(),
        SessionPeriodComparison::SamePeriod
    );

    // Same time-of-week but next week's session → DifferentPeriod
    let dt_mon_next = utc_dt(2025, 7, 7, 10, 0, 0);
    assert_eq!(
        schedule
            .is_same_session_period(dt_mon, dt_mon_next)
            .unwrap(),
        SessionPeriodComparison::DifferentPeriod
    );

    // Saturday during the gap → OutsideSessionTime
    let dt_sat = utc_dt(2025, 7, 5, 12, 0, 0);
    assert!(matches!(
        schedule.is_same_session_period(dt_mon, dt_sat).unwrap(),
        SessionPeriodComparison::OutsideSessionTime {
            which: WhichTime::Second
        }
    ));
    assert!(matches!(
        schedule.is_same_session_period(dt_sat, dt_mon).unwrap(),
        SessionPeriodComparison::OutsideSessionTime {
            which: WhichTime::First
        }
    ));
}

#[test]
fn test_is_same_session_period_weekly_at_boundary() {
    // Mon 09:00 → Fri 17:00 UTC — verify last-second/first-second of consecutive sessions
    // are classified as DifferentPeriod.
    let schedule = SessionSchedule::Weekly {
        start_day: Weekday::Mon,
        start_time: t(9, 0, 0),
        end_day: Weekday::Fri,
        end_time: t(17, 0, 0),
        timezone: TimeZone::utc(),
    };

    // Last active second of week-of-Jun-30 vs first active second of next week.
    let last_sec = utc_dt(2025, 7, 4, 16, 59, 59);
    let next_first = utc_dt(2025, 7, 7, 9, 0, 0);
    assert_eq!(
        schedule
            .is_same_session_period(last_sec, next_first)
            .unwrap(),
        SessionPeriodComparison::DifferentPeriod
    );
}

#[test]
fn test_is_same_session_period_weekly_24x5_newyork_across_weeks() {
    // Sun 18:00 → Fri 17:00 New York (wrap case). Verify two times that wrap across the
    // calendar week into the same session window are classified as SamePeriod.
    let schedule = SessionSchedule::Weekly {
        start_day: Weekday::Sun,
        start_time: t(18, 0, 0),
        end_day: Weekday::Fri,
        end_time: t(17, 0, 0),
        timezone: TimeZone::named("America/New_York"),
    };

    // Sun Jan 12 23:30 UTC = Sun 18:30 NY — start of session
    let dt_sun = utc_dt(2025, 1, 12, 23, 30, 0);
    // Wed Jan 15 14:00 UTC = Wed 09:00 NY — mid session
    let dt_wed = utc_dt(2025, 1, 15, 14, 0, 0);
    // Fri Jan 17 21:00 UTC = Fri 16:00 NY — near end of same session
    let dt_fri = utc_dt(2025, 1, 17, 21, 0, 0);

    assert_eq!(
        schedule.is_same_session_period(dt_sun, dt_wed).unwrap(),
        SessionPeriodComparison::SamePeriod
    );
    assert_eq!(
        schedule.is_same_session_period(dt_wed, dt_fri).unwrap(),
        SessionPeriodComparison::SamePeriod
    );
    assert_eq!(
        schedule.is_same_session_period(dt_sun, dt_fri).unwrap(),
        SessionPeriodComparison::SamePeriod
    );

    // Following week's Monday (= same session continues from Sun Jan 19 18:00 NY)
    // Sun Jan 19 23:30 UTC = Sun 18:30 NY — start of NEXT session
    let dt_sun_next = utc_dt(2025, 1, 19, 23, 30, 0);
    assert_eq!(
        schedule
            .is_same_session_period(dt_sun, dt_sun_next)
            .unwrap(),
        SessionPeriodComparison::DifferentPeriod
    );
}

#[test]
fn test_is_same_session_period_weekly_within_wrap() {
    // Sun 18:00 → Fri 17:00 UTC (wrap). Use UTC to avoid TZ confusion in the assertions.
    let schedule = SessionSchedule::Weekly {
        start_day: Weekday::Sun,
        start_time: t(18, 0, 0),
        end_day: Weekday::Fri,
        end_time: t(17, 0, 0),
        timezone: TimeZone::utc(),
    };

    // Two times that span the calendar week boundary (Sun → Mon) but within the same
    // weekly session — must be SamePeriod.
    let sun_eve = utc_dt(2025, 6, 29, 19, 0, 0); // Sunday after start
    let mon_morning = utc_dt(2025, 6, 30, 8, 0, 0); // Monday early — same session
    assert_eq!(
        schedule
            .is_same_session_period(sun_eve, mon_morning)
            .unwrap(),
        SessionPeriodComparison::SamePeriod
    );

    // Saturday in the gap → OutsideSessionTime
    let sat = utc_dt(2025, 7, 5, 12, 0, 0);
    assert!(matches!(
        schedule.is_same_session_period(sun_eve, sat).unwrap(),
        SessionPeriodComparison::OutsideSessionTime {
            which: WhichTime::Second
        }
    ));
}

#[test]
fn construct_utc_at_gap() {
    // Test DST gap (spring forward) - 2:30 AM doesn't exist on March 10, 2024 in US/Eastern
    let date = days(2024, 3, 10);
    let time = t(2, 30, 0); // This time is skipped during DST transition
    let timezone = TimeZone::named("US/Eastern");

    let result = construct_utc(date, &time, &timezone);

    assert!(matches!(
        result,
        Err(ScheduleError::AmbiguousOrMissingTime { .. })
    ));
}

#[test]
fn construct_utc_at_fold() {
    // Test DST fold (fall back) - 1:30 AM occurs twice on November 3, 2024 in US/Eastern
    let date = days(2024, 11, 3);
    let time = t(1, 30, 0); // This time exists twice during DST transition
    let timezone = TimeZone::named("US/Eastern");

    let result = construct_utc(date, &time, &timezone);

    assert!(matches!(
        result,
        Err(ScheduleError::AmbiguousOrMissingTime { .. })
    ));
}


#[test]
fn an_active_instant_is_in_its_own_period() {
    let overnight = SessionSchedule::Daily {
        start_time: t(22, 0, 0),
        end_time: t(6, 0, 0),
        timezone: TimeZone::named("Europe/London"),
    };
    let weekdays = SessionSchedule::Weekdays {
        start_time: t(8, 0, 0),
        end_time: t(17, 0, 0),
        weekdays: vec![Weekday::Mon, Weekday::Wed],
        timezone: TimeZone::named("America/New_York"),
    };
    let weekly = SessionSchedule::Weekly {
        start_day: Weekday::Fri,
        start_time: t(18, 0, 0),
        end_day: Weekday::Tue,
        end_time: t(9, 0, 0),
        timezone: TimeZone::utc(),
    };
    let cases = [
        (&overnight, rfc3339("2024-06-12T23:30:00+01:00")),
        (&overnight, rfc3339("2024-06-13T05:59:59+01:00")),
        (&weekdays, rfc3339("2024-06-12T08:00:00-04:00")),
        (&weekly, utc_dt(2024, 6, 16, 3, 0, 0)),
        (&weekly, utc_dt(2024, 6, 14, 18, 0, 0)),
    ];
    for (schedule, instant) in cases {
        assert!(schedule.is_active_at(instant));
        assert_eq!(
            schedule.is_same_session_period(instant, instant).unwrap(),
            SessionPeriodComparison::SamePeriod
        );
    }
}

#[test]
fn a_daily_window_of_no_length_is_not_compared_symmetrically() {
    // A daily schedule from 09:00 to 09:00 (built directly; a configuration
    // with equal times gives a non-stop schedule) is active all day, but the
    // period around an instant before 09:00 is the day up to 09:00, while the
    // period around an instant after 09:00 is empty.
    let schedule = SessionSchedule::Daily {
        start_time: t(9, 0, 0),
        end_time: t(9, 0, 0),
        timezone: TimeZone::utc(),
    };
    let before_nine = utc_dt(2024, 1, 2, 8, 0, 0);
    let after_nine_the_day_before = utc_dt(2024, 1, 1, 10, 0, 0);
    assert_eq!(
        schedule.is_same_session_period(before_nine, after_nine_the_day_before).unwrap(),
        SessionPeriodComparison::SamePeriod
    );
    assert_eq!(
        schedule.is_same_session_period(after_nine_the_day_before, before_nine).unwrap(),
        SessionPeriodComparison::DifferentPeriod
    );
}
