//! Times of day, points in time and spans of time, all without a time zone.
//!
//! A [`Time`] counts nanoseconds from midnight, a [`DateTime`] is a date with
//! a time, and a [`Duration`] is a signed number of nanoseconds.

use crate::date::in_date_range;
use crate::date::Date;
use crate::date::FIRST_DAY_NUMBER;
use crate::date::LAST_DAY_NUMBER;
use vstd::prelude::*;

verus! {

/// The number of seconds of a day.
pub const SECONDS_PER_DAY: u32 = 86_400;

/// The number of nanoseconds of a second.
pub const NANOS_PER_SECOND: u32 = 1_000_000_000;

/// The number of nanoseconds of a day.
pub const NANOS_PER_DAY: i128 = 86_400_000_000_000;

/// The shortest duration: `i64::MIN` days.
pub const DURATION_MIN: i128 = -796_899_343_984_252_629_811_200_000_000_000;

/// The longest duration: `i64::MAX` days.
pub const DURATION_MAX: i128 = 796_899_343_984_252_629_724_800_000_000_000;

/// A time of day, to the nanosecond.
#[derive(Clone, Copy, Debug, PartialEq, Eq, Structural, PartialOrd, Ord, Hash)]
pub struct Time {
    secs: u32,
    nanos: u32,
}

impl View for Time {
    type V = int;

    /// The nanoseconds since midnight.
    closed spec fn view(&self) -> int {
        self.secs as int * NANOS_PER_SECOND as int + self.nanos as int
    }
}

impl Time {
    #[verifier::type_invariant]
    spec fn in_day(self) -> bool {
        self.secs < SECONDS_PER_DAY && self.nanos < NANOS_PER_SECOND
    }

    /// The time `secs` seconds and `nanos` nanoseconds after midnight, if
    /// that is a time of the day.
    pub fn from_num_seconds_from_midnight(secs: u32, nanos: u32) -> (r: Option<Time>)
        ensures
            secs < SECONDS_PER_DAY && nanos < NANOS_PER_SECOND ==> r is Some && r.unwrap()@ == secs
                * NANOS_PER_SECOND + nanos,
            !(secs < SECONDS_PER_DAY && nanos < NANOS_PER_SECOND) ==> r is None,
    {
        if secs < SECONDS_PER_DAY && nanos < NANOS_PER_SECOND {
            Some(Time { secs, nanos })
        } else {
            None
        }
    }

    /// The time `hour`:`min`:`sec`, if the hour is below 24 and minute and
    /// second are below 60.
    pub fn from_hms(hour: u32, min: u32, sec: u32) -> (r: Option<Time>)
        ensures
            hour < 24 && min < 60 && sec < 60 ==> r is Some && r.unwrap()@ == (hour * 3600 + min
                * 60 + sec) * NANOS_PER_SECOND,
            !(hour < 24 && min < 60 && sec < 60) ==> r is None,
    {
        if hour < 24 && min < 60 && sec < 60 {
            Some(Time { secs: hour * 3600 + min * 60 + sec, nanos: 0 })
        } else {
            None
        }
    }

    /// The whole seconds since midnight.
    pub fn num_seconds_from_midnight(&self) -> (r: u32)
        ensures
            r as int == self@ / (NANOS_PER_SECOND as int),
            r < SECONDS_PER_DAY,
    {
        proof {
            use_type_invariant(self);
        }
        self.secs
    }

    /// The nanoseconds since the last whole second.
    pub fn nanosecond(&self) -> (r: u32)
        ensures
            r as int == self@ % (NANOS_PER_SECOND as int),
            r < NANOS_PER_SECOND,
    {
        proof {
            use_type_invariant(self);
        }
        self.nanos
    }

    /// The nanoseconds since midnight.
    pub fn nanos_from_midnight(&self) -> (r: i128)
        ensures
            r as int == self@,
            0 <= r < NANOS_PER_DAY,
    {
        proof {
            use_type_invariant(self);
        }
        self.secs as i128 * 1_000_000_000 + self.nanos as i128
    }
}

/// A date with a time of day.
#[derive(Clone, Copy, Debug, PartialEq, Eq, Structural, PartialOrd, Ord, Hash)]
pub struct DateTime {
    date: Date,
    time: Time,
}

impl View for DateTime {
    type V = int;

    /// The nanoseconds since the midnight with which day 0 begins.
    closed spec fn view(&self) -> int {
        self.date@ * NANOS_PER_DAY as int + self.time@
    }
}

impl DateTime {
    /// The given time on the given date.
    pub fn new(date: Date, time: Time) -> (r: DateTime)
        ensures
            r@ == date@ * NANOS_PER_DAY + time@,
            r.date_part() == date,
            r.time_part() == time,
    {
        DateTime { date, time }
    }

    /// The date of this point in time.
    pub closed spec fn date_part(self) -> Date {
        self.date
    }

    /// The time of day of this point in time.
    pub closed spec fn time_part(self) -> Time {
        self.time
    }

    /// The date of this point in time.
    pub fn date(&self) -> (r: Date)
        ensures
            r == self.date_part(),
            self@ == r@ * NANOS_PER_DAY + self.time_part()@,
    {
        self.date
    }

    /// The time of day of this point in time.
    pub fn time(&self) -> (r: Time)
        ensures
            r == self.time_part(),
            self@ == self.date_part()@ * NANOS_PER_DAY + r@,
    {
        self.time
    }

    /// Whether this point in time is not later than the other.
    pub fn is_not_after(&self, other: &DateTime) -> (r: bool)
        ensures
            r == (self@ <= other@),
    {
        let own = self.time.nanos_from_midnight();
        let others = other.time.nanos_from_midnight();
        let day = self.date.day_number();
        let other_day = other.date.day_number();
        day < other_day || (day == other_day && own <= others)
    }

    /// The span of time from the other point in time to this one.
    pub fn signed_duration_since(&self, other: &DateTime) -> (r: Duration)
        ensures
            r@ == self@ - other@,
    {
        let own = self.time.nanos_from_midnight();
        let others = other.time.nanos_from_midnight();
        let days: i128 = self.date.day_number() as i128 - other.date.day_number() as i128;
        Duration { nanos: days * NANOS_PER_DAY + (own - others) }
    }

    /// This point in time moved by the duration; `None` where the date of
    /// the result is none that a [`Date`] can hold.
    pub fn checked_add(&self, duration: &Duration) -> (r: Option<DateTime>)
        ensures
            in_date_range((self@ + duration@) / (NANOS_PER_DAY as int)) ==> r is Some
                && r.unwrap()@ == self@ + duration@,
            !in_date_range((self@ + duration@) / (NANOS_PER_DAY as int)) ==> r is None,
    {
        let total: i128 = self.time.nanos_from_midnight() + duration.total_nanoseconds();
        let days: i128 = if total >= 0 {
            total / NANOS_PER_DAY
        } else {
            -((-total + (NANOS_PER_DAY - 1)) / NANOS_PER_DAY)
        };
        let rest: i128 = total - days * NANOS_PER_DAY;
        assert(0 <= rest < NANOS_PER_DAY);
        assert((self@ + duration@) / (NANOS_PER_DAY as int) == self.date@ + days);
        let day: i128 = self.date.day_number() as i128 + days;
        if day < FIRST_DAY_NUMBER as i128 || day > LAST_DAY_NUMBER as i128 {
            return None;
        }
        match Date::from_day_number(day as i32) {
            None => None,
            Some(date) => {
                let secs: u32 = (rest / 1_000_000_000) as u32;
                let nanos: u32 = (rest % 1_000_000_000) as u32;
                Some(DateTime { date, time: Time { secs, nanos } })
            },
        }
    }
}

/// A signed span of time, to the nanosecond, of at most `i64::MAX` days in
/// either direction.
#[derive(Clone, Copy, Debug, PartialEq, Eq, Structural, PartialOrd, Ord, Hash)]
pub struct Duration {
    nanos: i128,
}

impl View for Duration {
    type V = int;

    /// The nanoseconds of the span.
    closed spec fn view(&self) -> int {
        self.nanos as int
    }
}

/// The whole days of a number of nanoseconds, rounded towards zero.
pub open spec fn whole_days(nanos: int) -> int {
    if nanos >= 0 {
        nanos / (NANOS_PER_DAY as int)
    } else {
        -((-nanos) / (NANOS_PER_DAY as int))
    }
}

impl Duration {
    #[verifier::type_invariant]
    spec fn bounded(self) -> bool {
        DURATION_MIN <= self.nanos <= DURATION_MAX
    }

    /// The span of no time.
    pub fn zero() -> (r: Duration)
        ensures
            r@ == 0,
    {
        Duration { nanos: 0 }
    }

    /// The span of the given number of days.
    pub fn days(days: i64) -> (r: Duration)
        ensures
            r@ == days * NANOS_PER_DAY,
    {
        Duration { nanos: days as i128 * NANOS_PER_DAY }
    }

    /// The span of the given number of hours.
    pub fn hours(hours: i64) -> (r: Duration)
        ensures
            r@ == hours * 3_600_000_000_000,
    {
        Duration { nanos: hours as i128 * 3_600_000_000_000 }
    }

    /// The span of the given number of minutes.
    pub fn minutes(minutes: i64) -> (r: Duration)
        ensures
            r@ == minutes * 60_000_000_000,
    {
        Duration { nanos: minutes as i128 * 60_000_000_000 }
    }

    /// The span of the given number of seconds.
    pub fn seconds(seconds: i64) -> (r: Duration)
        ensures
            r@ == seconds * NANOS_PER_SECOND,
    {
        Duration { nanos: seconds as i128 * 1_000_000_000 }
    }

    /// The span of the given number of nanoseconds, if it is not longer than
    /// a duration can be.
    pub fn from_nanoseconds(nanos: i128) -> (r: Option<Duration>)
        ensures
            DURATION_MIN <= nanos <= DURATION_MAX ==> r is Some && r.unwrap()@ == nanos,
            !(DURATION_MIN <= nanos <= DURATION_MAX) ==> r is None,
    {
        if DURATION_MIN <= nanos && nanos <= DURATION_MAX {
            Some(Duration { nanos })
        } else {
            None
        }
    }

    /// The nanoseconds of the span.
    pub fn total_nanoseconds(&self) -> (r: i128)
        ensures
            r as int == self@,
            DURATION_MIN <= r <= DURATION_MAX,
    {
        proof {
            use_type_invariant(self);
        }
        self.nanos
    }

    /// The whole days of the span, rounded towards zero.
    pub fn num_days(&self) -> (r: i64)
        ensures
            r as int == whole_days(self@),
    {
        proof {
            use_type_invariant(self);
        }
        if self.nanos >= 0 {
            (self.nanos / NANOS_PER_DAY) as i64
        } else {
            (-((-self.nanos) / NANOS_PER_DAY)) as i64
        }
    }
}

} // verus!
