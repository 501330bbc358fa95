//! Calendar dates as day numbers of the proleptic Gregorian calendar.
//!
//! A [`Date`] holds the number of its day, counted so that 0001-01-01 is day 1.
//! Order, distance and succession of dates are then integer arithmetic. What
//! the calendar says of a day (its year, month, day of month, day of year and
//! weekday) is read from `chrono`.

use chrono::Datelike;
use chrono::NaiveDate;
use vstd::prelude::*;

verus! {

/// Day number of 0000-01-01, the first date a [`Date`] can hold.
pub const FIRST_DAY_NUMBER: i32 = -365;

/// Day number of 9999-12-31, the last date a [`Date`] can hold.
pub const LAST_DAY_NUMBER: i32 = 3_652_059;

/// The day number of the calendar date `year`-`month`-`day`, or `None` where
/// the calendar has no such date.
pub uninterp spec fn civil_day_number(year: int, month: int, day: int) -> Option<int>;

/// The calendar date `(year, month, day)` of a day number.
pub uninterp spec fn civil_date(day_number: int) -> (int, int, int);

/// The day of the year of a day number, counted from 1.
pub uninterp spec fn civil_ordinal(day_number: int) -> int;

/// The weekday of a day number as the count of days since Monday.
pub uninterp spec fn civil_weekday(day_number: int) -> int;

/// Whether `day_number` is one that a [`Date`] can hold.
pub open spec fn in_date_range(day_number: int) -> bool {
    FIRST_DAY_NUMBER <= day_number <= LAST_DAY_NUMBER
}

/// `NaiveDate::from_ymd_opt` followed by `num_days_from_ce`: the day number of
/// a calendar date, `None` where chrono rejects the date. The contract names
/// the result and adds that the date of the returned day number is the one
/// that was asked for.
#[verifier::external_body]
fn chrono_day_number(year: i32, month: u32, day: u32) -> (r: Option<i32>)
    ensures
        r is Some <==> civil_day_number(year as int, month as int, day as int) is Some,
        r matches Some(n) ==> civil_day_number(year as int, month as int, day as int) == Some(
            n as int,
        ) && civil_date(n as int) == (year as int, month as int, day as int),
{
    match NaiveDate::from_ymd_opt(year, month, day) {
        Some(date) => Some(date.num_days_from_ce()),
        None => None,
    }
}

/// `NaiveDate::from_num_days_from_ce_opt` followed by `year`, `month` and
/// `day`: the calendar date of a day number. The contract names the result
/// and bounds month and day as chrono documents them. It adds that the year
/// lies between 0 and 9999, as it does for the day numbers that are admitted
/// here: those from 0000-01-01 to 9999-12-31.
#[verifier::external_body]
fn chrono_civil_date(day_number: i32) -> (r: (i32, u32, u32))
    requires
        in_date_range(day_number as int),
    ensures
        civil_date(day_number as int) == (r.0 as int, r.1 as int, r.2 as int),
        0 <= r.0 <= 9999,
        1 <= r.1 <= 12,
        1 <= r.2 <= 31,
{
    let date = NaiveDate::from_num_days_from_ce_opt(day_number).unwrap();
    (date.year(), date.month(), date.day())
}

/// `Datelike::ordinal` of the date with the given day number: the day of the
/// year, which chrono documents to lie between 1 and 366.
#[verifier::external_body]
fn chrono_ordinal(day_number: i32) -> (r: u32)
    requires
        in_date_range(day_number as int),
    ensures
        r as int == civil_ordinal(day_number as int),
        1 <= r <= 366,
{
    NaiveDate::from_num_days_from_ce_opt(day_number).unwrap().ordinal()
}

/// `Datelike::weekday` of the date with the given day number, as
/// `Weekday::num_days_from_monday` numbers it: 0 for Monday up to 6 for Sunday.
#[verifier::external_body]
fn chrono_weekday(day_number: i32) -> (r: u32)
    requires
        in_date_range(day_number as int),
    ensures
        r as int == civil_weekday(day_number as int),
        r <= 6,
{
    NaiveDate::from_num_days_from_ce_opt(day_number).unwrap().weekday().num_days_from_monday()
}

/// The weekday that lies `index` days after Monday; Sunday for an index that
/// no weekday has.
pub open spec fn weekday_at(index: int) -> Weekday {
    if index == 0 {
        Weekday::Mon
    } else if index == 1 {
        Weekday::Tue
    } else if index == 2 {
        Weekday::Wed
    } else if index == 3 {
        Weekday::Thu
    } else if index == 4 {
        Weekday::Fri
    } else if index == 5 {
        Weekday::Sat
    } else {
        Weekday::Sun
    }
}

/// A day of the week.
#[derive(Clone, Copy, Debug, PartialEq, Eq, Structural, Hash)]
pub enum Weekday {
    Mon,
    Tue,
    Wed,
    Thu,
    Fri,
    Sat,
    Sun,
}

impl Weekday {
    /// The count of days since Monday: 0 for Monday up to 6 for Sunday.
    pub open spec fn index(self) -> int {
        match self {
            Weekday::Mon => 0,
            Weekday::Tue => 1,
            Weekday::Wed => 2,
            Weekday::Thu => 3,
            Weekday::Fri => 4,
            Weekday::Sat => 5,
            Weekday::Sun => 6,
        }
    }

    /// The count of days since Monday.
    pub fn num_days_from_monday(&self) -> (r: u32)
        ensures
            r as int == self.index(),
    {
        match self {
            Weekday::Mon => 0,
            Weekday::Tue => 1,
            Weekday::Wed => 2,
            Weekday::Thu => 3,
            Weekday::Fri => 4,
            Weekday::Sat => 5,
            Weekday::Sun => 6,
        }
    }

    /// The weekday that lies `index` days after Monday, for `index` up to 6.
    pub fn from_index(index: u32) -> (r: Option<Weekday>)
        ensures
            index <= 6 ==> r == Some(weekday_at(index as int)) && r.unwrap().index() == index,
            index > 6 ==> r is None,
    {
        match index {
            0 => Some(Weekday::Mon),
            1 => Some(Weekday::Tue),
            2 => Some(Weekday::Wed),
            3 => Some(Weekday::Thu),
            4 => Some(Weekday::Fri),
            5 => Some(Weekday::Sat),
            6 => Some(Weekday::Sun),
            _ => None,
        }
    }
}

/// What the calendar says of one day: the number of the day, its year, its
/// month, its day of the month, its day of the year, and its weekday. The
/// fields are plain values, and nothing ties them to each other: the ones
/// that [`Date::calendar`] gives are those of a day of the calendar.
#[derive(Clone, Copy, Debug, PartialEq, Eq, Structural, Hash)]
pub struct CalendarDay {
    /// The number of the day, counted so that 0001-01-01 is day 1.
    pub number: i32,
    /// The year.
    pub year: i32,
    /// The month, from 1 to 12.
    pub month: i32,
    /// The day of the month, from 1.
    pub day: i32,
    /// The day of the year, from 1.
    pub year_day: i32,
    /// The weekday.
    pub weekday: Weekday,
}

/// What the calendar says of the day with the given number.
pub open spec fn calendar_of(day_number: int) -> CalendarDay {
    CalendarDay {
        number: day_number as i32,
        year: civil_date(day_number).0 as i32,
        month: civil_date(day_number).1 as i32,
        day: civil_date(day_number).2 as i32,
        year_day: civil_ordinal(day_number) as i32,
        weekday: weekday_at(civil_weekday(day_number)),
    }
}

/// A calendar date between 0000-01-01 and 9999-12-31, the dates that the
/// four-digit year of the wire formats can express.
#[derive(Clone, Copy, Debug, PartialEq, Eq, Structural, PartialOrd, Ord, Hash)]
pub struct Date {
    days: i32,
}

impl View for Date {
    type V = int;

    closed spec fn view(&self) -> int {
        self.days as int
    }
}

impl Date {
    #[verifier::type_invariant]
    spec fn in_range(self) -> bool {
        in_date_range(self.days as int)
    }

    /// The date `year`-`month`-`day`, if the calendar has it and its year has
    /// at most four digits.
    pub fn from_ymd(year: i32, month: u32, day: u32) -> (r: Option<Date>)
        ensures
            match civil_day_number(year as int, month as int, day as int) {
                Some(n) if in_date_range(n) => r is Some && r.unwrap()@ == n,
                _ => r is None,
            },
            r matches Some(d) ==> civil_date(d@) == (year as int, month as int, day as int),
    {
        match chrono_day_number(year, month, day) {
            Some(n) if FIRST_DAY_NUMBER <= n && n <= LAST_DAY_NUMBER => Some(Date { days: n }),
            _ => None,
        }
    }

    /// The date with the given day number, if it lies in the range of dates.
    pub fn from_day_number(day_number: i32) -> (r: Option<Date>)
        ensures
            in_date_range(day_number as int) ==> r is Some && r.unwrap()@ == day_number,
            !in_date_range(day_number as int) ==> r is None,
    {
        if FIRST_DAY_NUMBER <= day_number && day_number <= LAST_DAY_NUMBER {
            Some(Date { days: day_number })
        } else {
            None
        }
    }

    /// The number of this date's day, counted so that 0001-01-01 is day 1.
    pub fn day_number(&self) -> (r: i32)
        ensures
            r as int == self@,
            in_date_range(self@),
    {
        proof {
            use_type_invariant(self);
        }
        self.days
    }

    /// What the calendar says of this date.
    pub fn calendar(&self) -> (r: CalendarDay)
        ensures
            r == calendar_of(self@),
            r.number as int == self@,
            in_date_range(self@),
            0 <= r.year <= 9999,
            1 <= r.month <= 12,
            1 <= r.day <= 31,
            1 <= r.year_day <= 366,
    {
        let (year, month, day) = self.ymd();
        CalendarDay {
            number: self.days,
            year,
            month: month as i32,
            day: day as i32,
            year_day: self.year_day() as i32,
            weekday: self.weekday(),
        }
    }

    /// The year, month and day of month of this date.
    pub fn ymd(&self) -> (r: (i32, u32, u32))
        ensures
            civil_date(self@) == (r.0 as int, r.1 as int, r.2 as int),
            in_date_range(self@),
            0 <= r.0 <= 9999,
            1 <= r.1 <= 12,
            1 <= r.2 <= 31,
    {
        proof {
            use_type_invariant(self);
        }
        chrono_civil_date(self.days)
    }

    /// The year of this date.
    pub fn year(&self) -> (r: i32)
        ensures
            r as int == civil_date(self@).0,
            0 <= r <= 9999,
    {
        self.ymd().0
    }

    /// The month of this date, from 1 to 12.
    pub fn month(&self) -> (r: u32)
        ensures
            r as int == civil_date(self@).1,
            1 <= r <= 12,
    {
        self.ymd().1
    }

    /// The day of the month of this date, from 1 to 31.
    pub fn day(&self) -> (r: u32)
        ensures
            r as int == civil_date(self@).2,
            1 <= r <= 31,
    {
        self.ymd().2
    }

    /// The day of the year of this date, from 1 to 366.
    pub fn year_day(&self) -> (r: u32)
        ensures
            r as int == civil_ordinal(self@),
            1 <= r <= 366,
    {
        proof {
            use_type_invariant(self);
        }
        chrono_ordinal(self.days)
    }

    /// The weekday of this date.
    pub fn weekday(&self) -> (r: Weekday)
        ensures
            r == weekday_at(civil_weekday(self@)),
            r.index() == civil_weekday(self@),
    {
        proof {
            use_type_invariant(self);
        }
        Weekday::from_index(chrono_weekday(self.days)).unwrap()
    }

    /// The day after this one, or `None` for the last date.
    pub fn succ(&self) -> (r: Option<Date>)
        ensures
            self@ < LAST_DAY_NUMBER ==> r is Some && r.unwrap()@ == self@ + 1,
            self@ >= LAST_DAY_NUMBER ==> r is None,
    {
        proof {
            use_type_invariant(self);
        }
        if self.days < LAST_DAY_NUMBER {
            Some(Date { days: self.days + 1 })
        } else {
            None
        }
    }

    /// The date `days` days after this one, or before it where `days` is
    /// negative; `None` where that is no date.
    pub fn checked_add_days(&self, days: i64) -> (r: Option<Date>)
        ensures
            in_date_range(self@ + days) ==> r is Some && r.unwrap()@ == self@ + days,
            !in_date_range(self@ + days) ==> r is None,
    {
        proof {
            use_type_invariant(self);
        }
        if days < -4_000_000 || days > 4_000_000 {
            return None;
        }
        let sum: i64 = self.days as i64 + days;
        if FIRST_DAY_NUMBER as i64 <= sum && sum <= LAST_DAY_NUMBER as i64 {
            Some(Date { days: sum as i32 })
        } else {
            None
        }
    }

    /// Two dates with the same day number are the same date.
    pub proof fn lemma_view_determines(a: Date, b: Date)
        requires
            a@ == b@,
        ensures
            a == b,
    {
    }
}

/// The month with the given number; December for a number that no month
/// has.
pub open spec fn month_numbered(number: int) -> Month {
    if number == 1 {
        Month::January
    } else if number == 2 {
        Month::February
    } else if number == 3 {
        Month::March
    } else if number == 4 {
        Month::April
    } else if number == 5 {
        Month::May
    } else if number == 6 {
        Month::June
    } else if number == 7 {
        Month::July
    } else if number == 8 {
        Month::August
    } else if number == 9 {
        Month::September
    } else if number == 10 {
        Month::October
    } else if number == 11 {
        Month::November
    } else {
        Month::December
    }
}

/// A month of the year.
#[derive(Clone, Copy, Debug, PartialEq, Eq, Structural, Hash)]
pub enum Month {
    January,
    February,
    March,
    April,
    May,
    June,
    July,
    August,
    September,
    October,
    November,
    December,
}

impl Month {
    /// The number of the month, from 1 for January to 12 for December.
    pub open spec fn number(self) -> int {
        match self {
            Month::January => 1,
            Month::February => 2,
            Month::March => 3,
            Month::April => 4,
            Month::May => 5,
            Month::June => 6,
            Month::July => 7,
            Month::August => 8,
            Month::September => 9,
            Month::October => 10,
            Month::November => 11,
            Month::December => 12,
        }
    }

    /// The number of the month, from 1 for January to 12 for December.
    pub fn number_from_month(&self) -> (r: u32)
        ensures
            r as int == self.number(),
            1 <= r <= 12,
    {
        match self {
            Month::January => 1,
            Month::February => 2,
            Month::March => 3,
            Month::April => 4,
            Month::May => 5,
            Month::June => 6,
            Month::July => 7,
            Month::August => 8,
            Month::September => 9,
            Month::October => 10,
            Month::November => 11,
            Month::December => 12,
        }
    }

    /// The month with the given number, for numbers from 1 to 12.
    pub fn from_number(number: u32) -> (r: Option<Month>)
        ensures
            1 <= number <= 12 ==> r == Some(month_numbered(number as int)) && r.unwrap().number()
                == number,
            !(1 <= number <= 12) ==> r is None,
    {
        match number {
            1 => Some(Month::January),
            2 => Some(Month::February),
            3 => Some(Month::March),
            4 => Some(Month::April),
            5 => Some(Month::May),
            6 => Some(Month::June),
            7 => Some(Month::July),
            8 => Some(Month::August),
            9 => Some(Month::September),
            10 => Some(Month::October),
            11 => Some(Month::November),
            12 => Some(Month::December),
            _ => None,
        }
    }
}

/// Whether the Gregorian calendar gives `year` a 29th of February.
pub open spec fn is_leap_year(year: int) -> bool {
    year % 4 == 0 && (year % 100 != 0 || year % 400 == 0)
}

/// The number of days of `year`.
pub open spec fn year_length(year: int) -> int {
    if is_leap_year(year) {
        366
    } else {
        365
    }
}

/// The number of days of the month `month` of `year`, for months 1 to 12.
pub open spec fn month_length(year: int, month: int) -> int {
    if month == 2 {
        if is_leap_year(year) {
            29
        } else {
            28
        }
    } else if month == 4 || month == 6 || month == 9 || month == 11 {
        30
    } else {
        31
    }
}

/// Whether `year` is a leap year.
pub fn leap_year(year: i32) -> (r: bool)
    ensures
        r == is_leap_year(year as int),
{
    let size: i64 = if year < 0 {
        -(year as i64)
    } else {
        year as i64
    };
    size % 4 == 0 && (size % 100 != 0 || size % 400 == 0)
}

/// The number of days of `year`.
pub fn days_in_year(year: i32) -> (r: i32)
    ensures
        r as int == year_length(year as int),
{
    if leap_year(year) {
        366
    } else {
        365
    }
}

/// The number of days of the month `month` of `year`.
pub fn days_in_month(year: i32, month: i32) -> (r: i32)
    ensures
        r as int == month_length(year as int, month as int),
{
    if month == 2 {
        if leap_year(year) {
            29
        } else {
            28
        }
    } else if month == 4 || month == 6 || month == 9 || month == 11 {
        30
    } else {
        31
    }
}

} // verus!
