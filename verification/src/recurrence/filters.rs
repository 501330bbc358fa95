//! What a rule decides of one day: whether the day passes the rule's
//! filters, and whether it lies far enough from the occurrence before it.
//!
//! Everything here is stated of what the calendar says of a day, which a
//! [`CalendarDay`] holds as plain values.

use crate::date::days_in_month;
use crate::date::days_in_year;
use crate::date::month_length;
use crate::date::year_length;
use crate::date::CalendarDay;
use crate::date::Month;
use crate::recurrence::parser::RuleKey;
use crate::recurrence::RecurrenceFreq;
use crate::recurrence::RecurrenceRule;
use crate::recurrence::RuleView;
use vstd::prelude::*;

verus! {

/// Why a rule cannot be expanded.
#[derive(Clone, Copy, Debug, PartialEq, Eq, Structural)]
pub enum RuleDomainError {
    /// The filter with this key does not go with the rule's frequency.
    IncompatibleFilter(RuleKey),
    /// The filter with this key is not supported.
    UnsupportedFilter(RuleKey),
}

/// The error that keeps a rule from being expanded, if there is one. The
/// filters are looked at in the order `BYWEEKNO`, `BYYEARDAY`, `BYMONTHDAY`,
/// `BYSETPOS`, and the first that is at fault decides.
///
/// `BYWEEKNO` and `BYYEARDAY` go with yearly rules only, and `BYMONTHDAY`
/// does not go with weekly rules. `BYWEEKNO` and `BYSETPOS` are not
/// supported.
pub open spec fn domain_error(rule: RuleView) -> Option<RuleDomainError> {
    if rule.by_week_no is Some {
        if rule.frequency != RecurrenceFreq::Yearly {
            Some(RuleDomainError::IncompatibleFilter(RuleKey::ByWeekNo))
        } else {
            Some(RuleDomainError::UnsupportedFilter(RuleKey::ByWeekNo))
        }
    } else if rule.by_year_day is Some && rule.frequency != RecurrenceFreq::Yearly {
        Some(RuleDomainError::IncompatibleFilter(RuleKey::ByYearDay))
    } else if rule.by_month_day is Some && rule.frequency == RecurrenceFreq::Weekly {
        Some(RuleDomainError::IncompatibleFilter(RuleKey::ByMonthDay))
    } else if rule.by_set_pos is Some {
        Some(RuleDomainError::UnsupportedFilter(RuleKey::BySetPos))
    } else {
        None
    }
}

/// Whether an item of `BYYEARDAY` picks the day: a positive item counts the
/// days of the year from its first, a negative one from its last.
pub open spec fn picks_year_day(item: int, day: CalendarDay) -> bool {
    if item > 0 {
        day.year_day == item
    } else {
        item < 0 && day.year_day == year_length(day.year as int) + 1 + item
    }
}

/// Whether an item of `BYMONTHDAY` picks the day: a positive item counts the
/// days of the month from its first, a negative one from its last.
pub open spec fn picks_month_day(item: int, day: CalendarDay) -> bool {
    if item > 0 {
        day.day == item
    } else {
        item < 0 && day.day == month_length(day.year as int, day.month as int) + 1 + item
    }
}

/// Whether one of the months has the given number.
pub open spec fn holds_month(months: Seq<Month>, number: int) -> bool {
    exists|i: int| 0 <= i < months.len() && (#[trigger] months[i]).number() == number
}

/// Whether one of the items of `BYYEARDAY` picks the day.
pub open spec fn some_picks_year_day(items: Seq<i32>, day: CalendarDay) -> bool {
    exists|i: int| 0 <= i < items.len() && picks_year_day(#[trigger] items[i] as int, day)
}

/// Whether one of the items of `BYMONTHDAY` picks the day.
pub open spec fn some_picks_month_day(items: Seq<i32>, day: CalendarDay) -> bool {
    exists|i: int| 0 <= i < items.len() && picks_month_day(#[trigger] items[i] as int, day)
}

/// Whether the day passes `BYMONTH`: the filter is absent or holds the month
/// of the day.
pub open spec fn passes_by_month(rule: RuleView, day: CalendarDay) -> bool {
    match rule.by_month {
        None => true,
        Some(months) => holds_month(months, day.month as int),
    }
}

/// Whether the day passes `BYYEARDAY`: the filter is absent or one of its
/// items picks the day.
pub open spec fn passes_by_year_day(rule: RuleView, day: CalendarDay) -> bool {
    match rule.by_year_day {
        None => true,
        Some(items) => some_picks_year_day(items, day),
    }
}

/// Whether the day passes `BYMONTHDAY`: the filter is absent or one of its
/// items picks the day.
pub open spec fn passes_by_month_day(rule: RuleView, day: CalendarDay) -> bool {
    match rule.by_month_day {
        None => true,
        Some(items) => some_picks_month_day(items, day),
    }
}

/// Whether the day passes `BYDAY`: the filter is absent or holds the weekday
/// of the day.
pub open spec fn passes_by_day(rule: RuleView, day: CalendarDay) -> bool {
    match rule.by_day {
        None => true,
        Some(days) => days.contains(day.weekday),
    }
}

/// Whether the day fits the rule: it passes each of the rule's filters. No
/// day fits a rule that has `BYWEEKNO` or `BYSETPOS`, which are not
/// supported.
pub open spec fn fits(rule: RuleView, day: CalendarDay) -> bool {
    &&& passes_by_month(rule, day)
    &&& rule.by_week_no is None
    &&& passes_by_year_day(rule, day)
    &&& passes_by_month_day(rule, day)
    &&& passes_by_day(rule, day)
    &&& rule.by_set_pos is None
}

/// The number of the Monday of the week of a day.
pub open spec fn week_start(day: CalendarDay) -> int {
    day.number - day.weekday.index()
}

/// The number of weeks from the week of `b` to the week of `a`, a week being
/// the seven days from a Monday on. Positive where `a` lies in a later week.
pub open spec fn weeks_between(a: CalendarDay, b: CalendarDay) -> int {
    (week_start(a) - week_start(b)) / 7
}

/// The number of steps from the month of `b` forward to the month of `a`,
/// the year left aside: from 0 to 11.
pub open spec fn months_between(a: CalendarDay, b: CalendarDay) -> int {
    (a.month - b.month) % 12
}

/// How many units of the frequency lie between the last occurrence and a
/// day: days, weeks from Monday to Sunday, months of the year, or years.
pub open spec fn interval_diff(frequency: RecurrenceFreq, day: CalendarDay, last: CalendarDay) -> int {
    match frequency {
        RecurrenceFreq::Daily => day.number - last.number,
        RecurrenceFreq::Weekly => weeks_between(day, last),
        RecurrenceFreq::Monthly => months_between(day, last),
        RecurrenceFreq::Yearly => day.year - last.year,
    }
}

/// Whether a day lies far enough from the last occurrence: at least the
/// rule's interval in units of its frequency, or in the same unit.
pub open spec fn spaced_by(rule: RuleView, day: CalendarDay, last: CalendarDay) -> bool {
    let diff = interval_diff(rule.frequency, day, last);
    diff >= rule.interval || diff == 0
}

/// Calculates how many different weeks there are between `a` and `b`, a week
/// being the seven days from a Monday on. Positive where `a` lies in a later
/// week than `b`, negative where it lies in an earlier one, and 0 where both
/// lie in the same week.
pub fn calc_uniq_weeks_between(a: &CalendarDay, b: &CalendarDay) -> (r: i64)
    ensures
        r as int == weeks_between(*a, *b),
{
    let monday_of_a: i64 = a.number as i64 - a.weekday.num_days_from_monday() as i64;
    let monday_of_b: i64 = b.number as i64 - b.weekday.num_days_from_monday() as i64;
    let days: i64 = monday_of_a - monday_of_b;
    if days >= 0 {
        days / 7
    } else {
        -((-days + 6) / 7)
    }
}

/// The number of steps from the month of `b` forward to the month of `a`.
fn calc_months_between(a: &CalendarDay, b: &CalendarDay) -> (r: i64)
    ensures
        r as int == months_between(*a, *b),
{
    let months: i64 = a.month as i64 - b.month as i64;
    if months >= 0 {
        months % 12
    } else {
        let back: i64 = (-months) % 12;
        if back == 0 {
            0
        } else {
            12 - back
        }
    }
}

impl RecurrenceRule {
    /// The error that keeps the rule from being expanded, if there is one.
    pub fn domain_error(&self) -> (r: Option<RuleDomainError>)
        ensures
            r == domain_error(self@),
    {
        if self.by_week_no.is_some() {
            match self.frequency {
                RecurrenceFreq::Yearly => Some(RuleDomainError::UnsupportedFilter(RuleKey::ByWeekNo)),
                _ => Some(RuleDomainError::IncompatibleFilter(RuleKey::ByWeekNo)),
            }
        } else if self.by_year_day.is_some() && !matches!(self.frequency, RecurrenceFreq::Yearly) {
            Some(RuleDomainError::IncompatibleFilter(RuleKey::ByYearDay))
        } else if self.by_month_day.is_some() && matches!(self.frequency, RecurrenceFreq::Weekly) {
            Some(RuleDomainError::IncompatibleFilter(RuleKey::ByMonthDay))
        } else if self.by_set_pos.is_some() {
            Some(RuleDomainError::UnsupportedFilter(RuleKey::BySetPos))
        } else {
            None
        }
    }

    /// Checks whether `day` fits into the BYMONTH property of this rule.
    fn check_by_month(&self, day: &CalendarDay) -> (r: bool)
        ensures
            r == passes_by_month(self@, *day),
    {
        match &self.by_month {
            None => true,
            Some(months) => {
                let mut i: usize = 0;
                while i < months.len()
                    invariant
                        i <= months.len(),
                        self@.by_month == Some(months@),
                        forall|j: int|
                            0 <= j < i ==> (#[trigger] months@[j]).number() != day.month,
                    decreases months.len() - i,
                {
                    if months[i].number_from_month() as i64 == day.month as i64 {
                        assert(months@[i as int].number() == day.month);
                        return true;
                    }
                    i += 1;
                }
                false
            },
        }
    }

    /// Checks whether this rule has no BYWEEKNO property.
    fn check_by_week_no(&self) -> (r: bool)
        ensures
            r == self@.by_week_no is None,
    {
        self.by_week_no.is_none()
    }

    /// Checks whether `day` fits into the BYYEARDAY property of this rule.
    fn check_by_year_day(&self, day: &CalendarDay) -> (r: bool)
        ensures
            r == passes_by_year_day(self@, *day),
    {
        match &self.by_year_day {
            None => true,
            Some(items) => {
                let from_start: i64 = day.year_day as i64;
                let from_end: i64 = from_start - days_in_year(day.year) as i64 - 1;
                let mut i: usize = 0;
                while i < items.len()
                    invariant
                        i <= items.len(),
                        from_start == day.year_day,
                        from_end == day.year_day - year_length(day.year as int) - 1,
                        self@.by_year_day == Some(items@),
                        forall|j: int|
                            0 <= j < i ==> !picks_year_day(#[trigger] items@[j] as int, *day),
                    decreases items.len() - i,
                {
                    let item: i64 = items[i] as i64;
                    if (item > 0 && item == from_start) || (item < 0 && item == from_end) {
                        assert(picks_year_day(items@[i as int] as int, *day));
                        return true;
                    }
                    i += 1;
                }
                false
            },
        }
    }

    /// Checks whether `day` fits into the BYMONTHDAY property of this rule.
    fn check_by_month_day(&self, day: &CalendarDay) -> (r: bool)
        ensures
            r == passes_by_month_day(self@, *day),
    {
        match &self.by_month_day {
            None => true,
            Some(items) => {
                let from_start: i64 = day.day as i64;
                let from_end: i64 = from_start - days_in_month(day.year, day.month) as i64 - 1;
                let mut i: usize = 0;
                while i < items.len()
                    invariant
                        i <= items.len(),
                        from_start == day.day,
                        from_end == day.day - month_length(day.year as int, day.month as int) - 1,
                        self@.by_month_day == Some(items@),
                        forall|j: int|
                            0 <= j < i ==> !picks_month_day(#[trigger] items@[j] as int, *day),
                    decreases items.len() - i,
                {
                    let item: i64 = items[i] as i64;
                    if (item > 0 && item == from_start) || (item < 0 && item == from_end) {
                        assert(picks_month_day(items@[i as int] as int, *day));
                        return true;
                    }
                    i += 1;
                }
                false
            },
        }
    }

    /// Checks whether `day` fits into the BYDAY property of this rule.
    fn check_by_day(&self, day: &CalendarDay) -> (r: bool)
        ensures
            r == passes_by_day(self@, *day),
    {
        match &self.by_day {
            None => true,
            Some(days) => {
                let mut i: usize = 0;
                while i < days.len()
                    invariant
                        i <= days.len(),
                        self@.by_day == Some(days@),
                        forall|j: int| 0 <= j < i ==> days@[j] != day.weekday,
                    decreases days.len() - i,
                {
                    if days[i] == day.weekday {
                        assert(days@[i as int] == day.weekday);
                        return true;
                    }
                    i += 1;
                }
                false
            },
        }
    }

    /// Checks whether this rule has no BYSETPOS property.
    fn check_by_set_pos(&self) -> (r: bool)
        ensures
            r == self@.by_set_pos is None,
    {
        self.by_set_pos.is_none()
    }

    /// Whether `day` fits the rule: it passes each of the rule's filters.
    pub fn fits(&self, day: &CalendarDay) -> (r: bool)
        ensures
            r == fits(self@, *day),
    {
        self.check_by_month(day) && self.check_by_week_no() && self.check_by_year_day(day)
            && self.check_by_month_day(day) && self.check_by_day(day) && self.check_by_set_pos()
    }

    /// Whether `day` lies far enough from the occurrence `last`: at least the
    /// rule's interval in units of its frequency, or in the same unit.
    pub fn is_spaced(&self, day: &CalendarDay, last: &CalendarDay) -> (r: bool)
        ensures
            r == spaced_by(self@, *day, *last),
    {
        let diff: i64 = match self.frequency {
            RecurrenceFreq::Daily => day.number as i64 - last.number as i64,
            RecurrenceFreq::Weekly => calc_uniq_weeks_between(day, last),
            RecurrenceFreq::Monthly => calc_months_between(day, last),
            RecurrenceFreq::Yearly => day.year as i64 - last.year as i64,
        };
        diff >= self.interval as i64 || diff == 0
    }
}

} // verus!
