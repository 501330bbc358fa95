//! A rule bound to a start date, and the dates on which it occurs.
//!
//! [`RecurrenceRuleInstance`] fills in the filters that a rule leaves to its
//! start date. [`RRuleInstances`] then walks the calendar day by day from the
//! start date and hands out, in ascending order, each date that passes the
//! rule's filters and lies far enough from the date handed out before.
//!
//! A rule whose filters do not go with its frequency, or that uses a filter
//! which is not supported, has no occurrences: [`RRuleInstances::next`]
//! returns `None` at once, and [`RRuleInstances::error`] tells why.
//! `BYWEEKNO` and `BYSETPOS` are not supported.
//!
//! The walk ends at the last date that a [`Date`] can hold.
//!
//! A yearly rule that names neither months nor weeks nor days of the year
//! recurs on the day of the year of its start date. Started on the 29th of
//! February, it occurs on the 60th day of every year, which is the 1st of
//! March in a year without a leap day. To recur on the 29th of February of
//! leap years only, a rule names the month and the day of the month.

use crate::date::calendar_of;
use crate::date::in_date_range;
use crate::date::CalendarDay;
use crate::date::Date;
use crate::date::Weekday;
use crate::date::LAST_DAY_NUMBER;
use crate::recurrence::filters::domain_error;
use crate::recurrence::filters::fits;
use crate::recurrence::filters::picks_month_day;
use crate::recurrence::filters::picks_year_day;
use crate::recurrence::filters::spaced_by;
use crate::recurrence::filters::RuleDomainError;
use crate::recurrence::LimitView;
use crate::recurrence::RecurrenceFreq;
use crate::recurrence::RecurrenceLimit;
use crate::recurrence::RecurrenceRule;
use crate::recurrence::RuleView;
use vstd::prelude::*;

verus! {

/// Whether a rule needs nothing from its start date: each filter that its
/// frequency would have inferred is present.
pub open spec fn is_explicit(rule: RuleView) -> bool {
    match rule.frequency {
        RecurrenceFreq::Daily => true,
        RecurrenceFreq::Weekly => rule.by_day is Some,
        RecurrenceFreq::Monthly => rule.by_month_day is Some || rule.by_day is Some,
        RecurrenceFreq::Yearly => if rule.by_month is Some {
            rule.by_month_day is Some
        } else if rule.by_week_no is Some {
            rule.by_day is Some
        } else {
            rule.by_year_day is Some
        },
    }
}

/// The rule with the filters filled in that it leaves to its start date. A
/// filter that the rule has is never changed.
///
/// - Weekly, no `BYDAY`: `BYDAY` is the weekday of the start date.
/// - Monthly, neither `BYMONTHDAY` nor `BYDAY`: `BYMONTHDAY` is the day of the
///   month of the start date.
/// - Yearly with `BYMONTH`: a missing `BYMONTHDAY` is the day of the month of
///   the start date. Yearly without `BYMONTH` but with `BYWEEKNO`: a missing
///   `BYDAY` is the weekday of the start date. Yearly with neither: a missing
///   `BYYEARDAY` is the day of the year of the start date.
pub open spec fn infer(rule: RuleView, start: CalendarDay) -> RuleView {
    if is_explicit(rule) {
        rule
    } else {
        match rule.frequency {
            RecurrenceFreq::Daily => rule,
            RecurrenceFreq::Weekly => RuleView { by_day: Some(seq![start.weekday]), ..rule },
            RecurrenceFreq::Monthly => RuleView { by_month_day: Some(seq![start.day]), ..rule },
            RecurrenceFreq::Yearly => if rule.by_month is Some {
                RuleView { by_month_day: Some(seq![start.day]), ..rule }
            } else if rule.by_week_no is Some {
                RuleView { by_day: Some(seq![start.weekday]), ..rule }
            } else {
                RuleView { by_year_day: Some(seq![start.year_day]), ..rule }
            },
        }
    }
}

/// Whether the day with the given number matches the rule: what the
/// calendar says of it fits the rule.
pub open spec fn matches_filters(rule: RuleView, day: int) -> bool {
    fits(rule, calendar_of(day))
}

/// Whether the day with the given number lies far enough from the last
/// occurrence.
pub open spec fn spaced(rule: RuleView, day: int, last: int) -> bool {
    spaced_by(rule, calendar_of(day), calendar_of(last))
}

/// Whether a day is an occurrence, given the occurrence before it.
pub open spec fn qualifies(rule: RuleView, last: int, day: int) -> bool {
    matches_filters(rule, day) && spaced(rule, day, last)
}

/// Whether a limit leaves room for an occurrence on the start date: a count
/// is above 0, and an end date does not lie before the start date.
pub open spec fn admits_first(limit: LimitView, start: int) -> bool {
    match limit {
        LimitView::Indefinite => true,
        LimitView::Date(until) => start <= until,
        LimitView::Count(count) => count > 0,
    }
}

/// The last day that the walk looks at: the rule's end date, or the last
/// date there is.
pub open spec fn scan_end(limit: LimitView) -> int {
    match limit {
        LimitView::Date(until) if until < LAST_DAY_NUMBER => until,
        _ => LAST_DAY_NUMBER as int,
    }
}

/// The first day from `from` up to `end` that qualifies.
pub open spec fn first_from(rule: RuleView, last: int, from: int, end: int) -> Option<int>
    decreases end - from + 1,
{
    if from > end {
        None
    } else if qualifies(rule, last, from) {
        Some(from)
    } else {
        first_from(rule, last, from + 1, end)
    }
}

/// The state of a walk over the occurrences of a rule.
pub struct InstancesView {
    /// The rule, with its filters filled in.
    pub rule: RuleView,
    /// The day number of the start date.
    pub start: int,
    /// How many occurrences have been handed out.
    pub count: nat,
    /// The occurrence handed out last; the start date before the first.
    pub last: int,
    /// The day at which the walk goes on.
    pub current: int,
}

impl InstancesView {
    /// The state before the first occurrence.
    pub open spec fn initial(rule: RuleView, start: int) -> InstancesView {
        InstancesView { rule, start, count: 0, last: start, current: start }
    }

    /// What holds of every state that a walk reaches.
    pub open spec fn wf(self) -> bool {
        &&& in_date_range(self.start)
        &&& in_date_range(self.last)
        &&& self.start <= self.current <= LAST_DAY_NUMBER + 1
        &&& self.count <= self.current - self.start
        &&& self.count > 0 ==> self.last < self.current
    }

    /// Whether the walk is over before it looks at any day: the rule cannot
    /// be expanded, or its count is used up.
    pub open spec fn is_over(self) -> bool {
        domain_error(self.rule) is Some || (self.rule.limit matches LimitView::Count(count)
            && self.count >= count)
    }

    /// The occurrence that the next step hands out, if there is one.
    pub open spec fn next_occurrence(self) -> Option<int> {
        if self.is_over() {
            None
        } else {
            first_from(self.rule, self.last, self.current, scan_end(self.rule.limit))
        }
    }

    /// The state after the next step.
    pub open spec fn after_next(self) -> InstancesView {
        if self.is_over() {
            self
        } else {
            match self.next_occurrence() {
                Some(day) => InstancesView {
                    count: self.count + 1,
                    last: day,
                    current: day + 1,
                    ..self
                },
                None => InstancesView {
                    current: if self.current > scan_end(self.rule.limit) {
                        self.current
                    } else {
                        scan_end(self.rule.limit) + 1
                    },
                    ..self
                },
            }
        }
    }

    /// The state after `steps` steps.
    pub open spec fn after(self, steps: nat) -> InstancesView
        decreases steps,
    {
        if steps == 0 {
            self
        } else {
            self.after((steps - 1) as nat).after_next()
        }
    }
}

/// What the `n`-th step of a walk over the rule from its start date hands
/// out, counting from 0.
pub open spec fn occurrence(rule: RuleView, start: int, n: nat) -> Option<int> {
    InstancesView::initial(rule, start).after(n).next_occurrence()
}

/// Whether the rule, from its start date on, occurs on the day.
pub open spec fn occurs_on(rule: RuleView, start: int, day: int) -> bool {
    exists|n: nat| occurrence(rule, start, n) == Some(day)
}

/// The mathematical value of a [`RecurrenceRuleInstance`].
pub struct InstanceView {
    /// The rule, with its filters filled in.
    pub rule: RuleView,
    /// The day number of the start date.
    pub start: int,
}

/// Wraps a `RecurrenceRule` along with a start date and makes sure the rule
/// is explicit.
///
/// An explicit rule means there are no values to be inferred. A rule with
/// FREQ=WEEKLY and BYDAY unset is implicit: BYDAY has to be inferred from the
/// event's start date. `RecurrenceRuleInstance::new` does the inference.
pub struct RecurrenceRuleInstance {
    rule: RecurrenceRule,
    start_date: Date,
}

impl View for RecurrenceRuleInstance {
    type V = InstanceView;

    closed spec fn view(&self) -> InstanceView {
        InstanceView { rule: self.rule@, start: self.start_date@ }
    }
}

impl RecurrenceRuleInstance {
    /// Binds a rule to a start date, filling in the filters that the rule
    /// leaves to the start date.
    ///
    /// A start date that matches the filters of the rule as it is given
    /// matches those of the rule as it is filled in, and is then the first
    /// occurrence, unless the rule cannot be expanded or its limit leaves
    /// room for no occurrence.
    pub fn new(rule: &RecurrenceRule, start_date: Date) -> (r: RecurrenceRuleInstance)
        ensures
            r@.rule == infer(rule@, calendar_of(start_date@)),
            r@.start == start_date@,
            in_date_range(r@.start),
            is_explicit(r@.rule),
            matches_filters(rule@, start_date@) ==> matches_filters(r@.rule, start_date@),
            matches_filters(rule@, start_date@) && domain_error(r@.rule) is None && admits_first(
                rule@.limit,
                start_date@,
            ) ==> occurrence(r@.rule, r@.start, 0) == Some(start_date@),
    {
        let start = start_date.calendar();
        let filled = Self::infer_stuff(rule.duplicate(), &start);
        proof {
            if matches_filters(rule@, start_date@) && domain_error(filled@) is None
                && admits_first(rule@.limit, start_date@) {
                crate::recurrence::laws::lemma_first_occurrence_is_start(filled@, start_date@);
            }
        }
        RecurrenceRuleInstance { rule: filled, start_date }
    }

    /// Returns the rule with inferred values where they are not already set:
    /// the values are those of the start date, of which `start` holds what
    /// the calendar says.
    ///
    /// A start date that fits the rule as it is given fits the rule as it is
    /// filled in, where its day of the month and its day of the year are
    /// counted from 1.
    pub fn infer_stuff(rule: RecurrenceRule, start: &CalendarDay) -> (r: RecurrenceRule)
        ensures
            r@ == infer(rule@, *start),
            is_explicit(r@),
            start.day > 0 && start.year_day > 0 && fits(rule@, *start) ==> fits(r@, *start),
    {
        let ghost given = rule@;
        let mut rule = rule;
        match rule.frequency {
            RecurrenceFreq::Daily => {},
            RecurrenceFreq::Weekly => {
                if rule.by_day.is_none() {
                    let mut days: Vec<Weekday> = Vec::new();
                    days.push(start.weekday);
                    rule.by_day = Some(days);
                }
            },
            RecurrenceFreq::Monthly => {
                if rule.by_month_day.is_none() && rule.by_day.is_none() {
                    let mut days: Vec<i32> = Vec::new();
                    days.push(start.day);
                    rule.by_month_day = Some(days);
                }
            },
            RecurrenceFreq::Yearly => {
                if rule.by_month.is_some() {
                    if rule.by_month_day.is_none() {
                        let mut days: Vec<i32> = Vec::new();
                        days.push(start.day);
                        rule.by_month_day = Some(days);
                    }
                } else if rule.by_week_no.is_some() {
                    if rule.by_day.is_none() {
                        let mut days: Vec<Weekday> = Vec::new();
                        days.push(start.weekday);
                        rule.by_day = Some(days);
                    }
                } else if rule.by_year_day.is_none() {
                    let mut days: Vec<i32> = Vec::new();
                    days.push(start.year_day);
                    rule.by_year_day = Some(days);
                }
            },
        }
        proof {
            if start.day > 0 && start.year_day > 0 {
                if rule@.by_day != given.by_day {
                    assert(rule@.by_day->0[0] == start.weekday);
                }
                if rule@.by_month_day != given.by_month_day {
                    assert(picks_month_day(rule@.by_month_day->0[0] as int, *start));
                }
                if rule@.by_year_day != given.by_year_day {
                    assert(picks_year_day(rule@.by_year_day->0[0] as int, *start));
                }
            }
        }
        rule
    }

    /// The rule, with its filters filled in.
    pub fn get_rule(&self) -> (r: &RecurrenceRule)
        ensures
            r@ == self@.rule,
    {
        &self.rule
    }

    /// The start date.
    pub fn get_start_date(&self) -> (r: Date)
        ensures
            r@ == self@.start,
    {
        self.start_date
    }

    /// The walk over the dates on which the rule occurs, before its first
    /// step.
    pub fn calculate_instances(&self) -> (r: RRuleInstances<'_>)
        ensures
            r@ == InstancesView::initial(self@.rule, self@.start),
            r@.wf(),
    {
        RRuleInstances::new(self)
    }

    /// The dates from `from` to `to`, both included, on which the rule
    /// occurs, in ascending order. `from` must not lie after `to`.
    ///
    /// Each of the dates matches the rule's filters. There are no more of
    /// them than the rule's count, and none lies after the rule's end date.
    pub fn instances_between(&self, from: Date, to: Date) -> (r: Vec<Date>)
        requires
            from@ <= to@,
        ensures
            forall|i: int|
                0 <= i < r.len() ==> from@ <= (#[trigger] r[i])@ <= to@ && occurs_on(
                    self@.rule,
                    self@.start,
                    r[i]@,
                ),
            forall|i: int, j: int| 0 <= i < j < r.len() ==> r[i]@ < r[j]@,
            forall|day: int|
                from@ <= day <= to@ && occurs_on(self@.rule, self@.start, day) ==> exists|i: int|
                    0 <= i < r.len() && (#[trigger] r[i])@ == day,
            forall|i: int| 0 <= i < r.len() ==> matches_filters(self@.rule, (#[trigger] r[i])@),
            self@.rule.limit matches LimitView::Count(count) ==> r.len() <= count,
            self@.rule.limit matches LimitView::Date(until) ==> forall|i: int|
                0 <= i < r.len() ==> (#[trigger] r[i])@ <= until,
    {
        let ghost rule = self@.rule;
        let ghost start = self@.start;
        let mut out: Vec<Date> = Vec::new();
        let mut walk = RRuleInstances::new(self);
        let ghost mut steps: nat = 0;
        let ghost mut found: Seq<nat> = Seq::empty();
        loop
            invariant
                in_date_range(start),
                rule == self@.rule,
                start == self@.start,
                walk@ == InstancesView::initial(rule, start).after(steps),
                forall|j: nat| j < steps ==> (#[trigger] occurrence(rule, start, j)) is Some,
                found.len() == out.len(),
                out.len() <= steps,
                rule.limit matches LimitView::Count(count) ==> steps <= count,
                forall|i: int|
                    0 <= i < out.len() ==> (#[trigger] found[i]) < steps && occurrence(
                        rule,
                        start,
                        found[i],
                    ) == Some(out[i]@),
                forall|i: int| 0 <= i < out.len() ==> from@ <= (#[trigger] out[i])@ <= to@,
                forall|i: int, j: int| 0 <= i < j < out.len() ==> out[i]@ < out[j]@,
                forall|j: nat|
                    j < steps && (#[trigger] occurrence(rule, start, j)).unwrap() >= from@
                        ==> exists|i: int| 0 <= i < out.len() && (#[trigger] out[i])@ == occurrence(
                        rule,
                        start,
                        j,
                    ).unwrap(),
            decreases LAST_DAY_NUMBER + 1 - walk@.current,
        {
            proof {
                crate::recurrence::laws::lemma_steps(rule, start, steps);
                crate::recurrence::laws::lemma_step(walk@);
            }
            let next = walk.next();
            let in_window = match next {
                Some(date) => date.day_number() <= to.day_number(),
                None => false,
            };
            if !in_window {
                proof {
                    assert forall|day: int|
                        from@ <= day <= to@ && occurs_on(rule, start, day) implies exists|i: int|
                        0 <= i < out.len() && (#[trigger] out[i])@ == day by {
                        let at = choose|at: nat| occurrence(rule, start, at) == Some(day);
                        if at >= steps {
                            if occurrence(rule, start, steps) is None {
                                crate::recurrence::laws::lemma_over_for_good(
                                    rule,
                                    start,
                                    steps,
                                    at,
                                );
                            } else if at > steps {
                                crate::recurrence::laws::lemma_occurrences_ascend(
                                    rule,
                                    start,
                                    steps,
                                    at,
                                );
                            }
                        } else {
                            assert(occurrence(rule, start, at).unwrap() >= from@);
                        }
                    }
                    assert forall|i: int| 0 <= i < out.len() implies occurs_on(
                        rule,
                        start,
                        (#[trigger] out[i])@,
                    ) && matches_filters(rule, out[i]@) && (rule.limit matches LimitView::Date(
                        until,
                    ) ==> out[i]@ <= until) by {
                        assert(occurrence(rule, start, found[i]) == Some(out[i]@));
                        crate::recurrence::laws::lemma_occurrences_match(rule, start, found[i]);
                        if rule.limit is Date {
                            crate::recurrence::laws::lemma_until_limits(rule, start, found[i]);
                        }
                    }
                }
                return out;
            }
            let date = next.unwrap();
            let ghost earlier = out@;
            if date.day_number() >= from.day_number() {
                proof {
                    assert forall|i: int| 0 <= i < out.len() implies (#[trigger] out[i])@
                        < date@ by {
                        crate::recurrence::laws::lemma_occurrences_ascend(
                            rule,
                            start,
                            found[i],
                            steps,
                        );
                    }
                    found = found.push(steps);
                }
                out.push(date);
            }
            proof {
                if rule.limit is Count {
                    crate::recurrence::laws::lemma_count_limits(rule, start, steps);
                }
                let before = steps;
                steps = steps + 1;
                assert(InstancesView::initial(rule, start).after(steps) == InstancesView::initial(
                    rule,
                    start,
                ).after(before).after_next());
                assert forall|j: nat|
                    j < steps && (#[trigger] occurrence(rule, start, j)).unwrap()
                        >= from@ implies exists|i: int|
                    0 <= i < out.len() && (#[trigger] out[i])@ == occurrence(
                        rule,
                        start,
                        j,
                    ).unwrap() by {
                    if j == before {
                        assert(out[out.len() - 1]@ == date@);
                    } else {
                        let i = choose|i: int|
                            0 <= i < earlier.len() && (#[trigger] earlier[i])@ == occurrence(
                                rule,
                                start,
                                j,
                            ).unwrap();
                        assert(out[i] == earlier[i]);
                    }
                }
            }
        }
    }

    /// Whether `date` matches the rule: what the calendar says of it fits
    /// the rule.
    pub fn matches(&self, date: &Date) -> (r: bool)
        ensures
            r == matches_filters(self@.rule, date@),
    {
        self.rule.fits(&date.calendar())
    }
}

/// The day number of an optional date.
pub open spec fn day_of(date: Option<Date>) -> Option<int> {
    match date {
        Some(date) => Some(date@),
        None => None,
    }
}

/// The walk over the dates on which a rule occurs, from its start date on.
///
/// Each step looks at one day after the other, from the day after the last
/// occurrence on, and hands out the first that matches the rule's filters and
/// lies far enough from the last occurrence. The walk is over when the rule's
/// count is used up, or when no day up to the rule's end date, or up to the
/// last date there is, qualifies.
pub struct RRuleInstances<'rule> {
    rule_instance: &'rule RecurrenceRuleInstance,
    instance_count: u32,
    last_instance_date: Date,
    current_date: i32,
}

impl<'rule> View for RRuleInstances<'rule> {
    type V = InstancesView;

    closed spec fn view(&self) -> InstancesView {
        InstancesView {
            rule: self.rule_instance@.rule,
            start: self.rule_instance@.start,
            count: self.instance_count as nat,
            last: self.last_instance_date@,
            current: self.current_date as int,
        }
    }
}

impl<'rule> RRuleInstances<'rule> {
    #[verifier::type_invariant]
    spec fn well_formed(self) -> bool {
        self@.wf()
    }

    /// The walk over the occurrences of a rule, before its first step.
    pub fn new(rule_instance: &'rule RecurrenceRuleInstance) -> (r: RRuleInstances<'rule>)
        ensures
            r@ == InstancesView::initial(rule_instance@.rule, rule_instance@.start),
            r@.wf(),
    {
        let start = rule_instance.start_date;
        RRuleInstances {
            rule_instance,
            instance_count: 0,
            last_instance_date: start,
            current_date: start.day_number(),
        }
    }

    /// The error that keeps the rule from being expanded, if there is one.
    /// A walk over such a rule hands out nothing.
    pub fn error(&self) -> (r: Option<RuleDomainError>)
        ensures
            r == domain_error(self@.rule),
    {
        self.rule_instance.rule.domain_error()
    }

    /// The next occurrence, or `None` when the walk is over. Once it has
    /// returned `None` it does so for good.
    pub fn next(&mut self) -> (r: Option<Date>)
        ensures
            day_of(r) == old(self)@.next_occurrence(),
            final(self)@ == old(self)@.after_next(),
            final(self)@.wf(),
    {
        proof {
            use_type_invariant(&*self);
        }
        if self.rule_instance.rule.domain_error().is_some() {
            return None;
        }
        let end: i32 = match self.rule_instance.rule.limit {
            RecurrenceLimit::Indefinite => LAST_DAY_NUMBER,
            RecurrenceLimit::Date(until) => {
                if until.day_number() < LAST_DAY_NUMBER {
                    until.day_number()
                } else {
                    LAST_DAY_NUMBER
                }
            },
            RecurrenceLimit::Count(count) => {
                if self.instance_count >= count {
                    return None;
                }
                LAST_DAY_NUMBER
            },
        };
        let ghost before = self@;
        let last = self.last_instance_date.calendar();
        let mut day: i32 = self.current_date;
        while day <= end
            invariant
                self@ == before,
                before == old(self)@,
                last == calendar_of(before.last),
                before.wf(),
                !before.is_over(),
                end as int == scan_end(before.rule.limit),
                before.current <= day,
                day <= end + 1 || day == before.current,
                first_from(before.rule, before.last, before.current, end as int) == first_from(
                    before.rule,
                    before.last,
                    day as int,
                    end as int,
                ),
            decreases end - day + 1,
        {
            let date = Date::from_day_number(day).unwrap();
            let today = date.calendar();
            if self.rule_instance.rule.fits(&today) && self.rule_instance.rule.is_spaced(
                &today,
                &last,
            ) {
                *self = RRuleInstances {
                    rule_instance: self.rule_instance,
                    instance_count: self.instance_count + 1,
                    last_instance_date: date,
                    current_date: day + 1,
                };
                return Some(date);
            }
            day += 1;
        }
        if self.current_date <= end {
            self.current_date = end + 1;
        }
        None
    }
}

} // verus!
