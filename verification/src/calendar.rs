//! Days of the week, times of day and time-zone names, as the session schedule
//! reads them.
use vstd::prelude::*;

verus! {

/// A day of the week.
#[derive(Clone, Copy, Debug, PartialEq, Eq, Structural, Hash)]
pub enum Weekday {
    Mon,
    Tue,
    Wed,
    Thu,
    Fri,
    Sat,
    Sun,
}

impl Weekday {
    /// Days since Monday (Monday is 0).
    pub open spec fn index(self) -> nat {
        match self {
            Weekday::Mon => 0,
            Weekday::Tue => 1,
            Weekday::Wed => 2,
            Weekday::Thu => 3,
            Weekday::Fri => 4,
            Weekday::Sat => 5,
            Weekday::Sun => 6,
        }
    }

    /// The weekday `i` days after Monday, counting modulo a week.
    pub open spec fn from_index(i: int) -> Weekday {
        let k = i % 7;
        if k == 0 {
            Weekday::Mon
        } else if k == 1 {
            Weekday::Tue
        } else if k == 2 {
            Weekday::Wed
        } else if k == 3 {
            Weekday::Thu
        } else if k == 4 {
            Weekday::Fri
        } else if k == 5 {
            Weekday::Sat
        } else {
            Weekday::Sun
        }
    }

    pub fn num_days_from_monday(&self) -> (r: u32)
        ensures
            r == self.index(),
            r < 7,
    {
        match self {
            Weekday::Mon => 0,
            Weekday::Tue => 1,
            Weekday::Wed => 2,
            Weekday::Thu => 3,
            Weekday::Fri => 4,
            Weekday::Sat => 5,
            Weekday::Sun => 6,
        }
    }

    /// The weekday `i` days after Monday, for `i` below a week.
    pub fn from_days_from_monday(i: u32) -> (r: Weekday)
        requires
            i < 7,
        ensures
            r == Weekday::from_index(i as int),
            r.index() == i,
    {
        if i == 0 {
            Weekday::Mon
        } else if i == 1 {
            Weekday::Tue
        } else if i == 2 {
            Weekday::Wed
        } else if i == 3 {
            Weekday::Thu
        } else if i == 4 {
            Weekday::Fri
        } else if i == 5 {
            Weekday::Sat
        } else {
            Weekday::Sun
        }
    }

    /// The previous day of the week.
    pub fn pred(&self) -> (r: Weekday)
        ensures
            r == Weekday::from_index(self.index() as int + 6),
    {
        match self {
            Weekday::Mon => Weekday::Sun,
            Weekday::Tue => Weekday::Mon,
            Weekday::Wed => Weekday::Tue,
            Weekday::Thu => Weekday::Wed,
            Weekday::Fri => Weekday::Thu,
            Weekday::Sat => Weekday::Fri,
            Weekday::Sun => Weekday::Sat,
        }
    }
}

pub const SECONDS_PER_DAY: u32 = 86400;

/// A time of day with second precision.
#[derive(Clone, Copy, Debug, PartialEq, Eq, Structural, Hash)]
pub struct LocalTime {
    secs: u32,
}

impl LocalTime {
    #[verifier::type_invariant]
    spec fn within_a_day(self) -> bool {
        self.secs < 86400
    }

    /// Seconds since midnight.
    pub closed spec fn seconds(self) -> nat {
        self.secs as nat
    }

    /// The time `hour:min:sec`, where each is in range.
    pub fn from_hms(hour: u32, min: u32, sec: u32) -> (r: Option<LocalTime>)
        ensures
            (hour < 24 && min < 60 && sec < 60) <==> r is Some,
            r matches Some(t) ==> t.seconds() == hour * 3600 + min * 60 + sec,
    {
        if hour < 24 && min < 60 && sec < 60 {
            Some(LocalTime { secs: hour * 3600 + min * 60 + sec })
        } else {
            None
        }
    }

    /// The time `secs` seconds after midnight, where that is within a day.
    pub fn from_seconds(secs: u32) -> (r: Option<LocalTime>)
        ensures
            secs < 86400 <==> r is Some,
            r matches Some(t) ==> t.seconds() == secs,
    {
        if secs < 86400 {
            Some(LocalTime { secs })
        } else {
            None
        }
    }

    /// Seconds since midnight.
    pub fn num_seconds_from_midnight(&self) -> (r: u32)
        ensures
            r == self.seconds(),
            r < 86400,
    {
        proof {
            use_type_invariant(self);
        }
        self.secs
    }
}

/// An IANA time zone, by name (such as `Europe/London`).
#[derive(Clone, Debug, PartialEq, Eq)]
pub struct TimeZone {
    pub name: String,
}

impl TimeZone {
    pub fn named(name: &str) -> (r: TimeZone)
        ensures
            r.name@ == name@,
    {
        TimeZone { name: name.to_owned() }
    }

    /// Coordinated Universal Time.
    pub fn utc() -> (r: TimeZone)
        ensures
            r.name@ == seq!['U', 'T', 'C'],
    {
        proof {
            reveal_strlit("UTC");
        }
        TimeZone { name: "UTC".to_owned() }
    }
}

} // verus!
