use caser::date::Date;
use caser::date::Month;
use caser::date::Weekday;
use caser::date::CalendarDay;
use caser::recurrence::filters::calc_uniq_weeks_between;
use caser::recurrence::filters::RuleDomainError;
use caser::recurrence::instance::RRuleInstances;
use caser::recurrence::instance::RecurrenceRuleInstance;
use caser::recurrence::parser::RuleKey;
use caser::recurrence::RecurrenceFreq;
use caser::recurrence::RecurrenceLimit;
use caser::recurrence::RecurrenceRule;

fn default_recurrence_rule() -> RecurrenceRule {
    RecurrenceRule {
        frequency: RecurrenceFreq::Daily,
        interval: 1,
        limit: RecurrenceLimit::Indefinite,
        by_month: None,
        by_week_no: None,
        by_year_day: None,
        by_month_day: None,
        by_day: None,
        by_set_pos: None,
    }
}

fn ymd(year: i32, month: u32, day: u32) -> Date {
    Date::from_ymd(year, month, day).unwrap()
}

fn instances_between(rule: RecurrenceRuleInstance, from: Date, to: Date) -> Vec<Date> {
    let mut instances = rule.calculate_instances();
    let mut result = vec![];
    while let Some(date) = instances.next() {
        if date > to {
            break;
        }
        if date >= from {
            result.push(date);
        }
    }
    assert_eq!(result, rule.instances_between(from, to));
    result
}

fn first_instances(rule: &RecurrenceRuleInstance, count: usize) -> Vec<Date> {
    let mut instances = rule.calculate_instances();
    let mut result = vec![];
    while result.len() < count {
        match instances.next() {
            Some(date) => result.push(date),
            None => break,
        }
    }
    result
}

#[test]
fn calc_recurrences_weekly_indefinite() {
    let start_date = ymd(2020, 1, 1);

    let rule = RecurrenceRule {
        frequency: RecurrenceFreq::Weekly,
        limit: RecurrenceLimit::Indefinite,
        by_day: Some(vec![start_date.weekday()]),
        ..default_recurrence_rule()
    };

    let instance = RecurrenceRuleInstance::new(&rule, start_date);

    let result = instances_between(instance, ymd(2020, 1, 1), ymd(2020, 2, 1));

    let expected = [
        ymd(2020, 1, 1),
        ymd(2020, 1, 8),
        ymd(2020, 1, 15),
        ymd(2020, 1, 22),
        ymd(2020, 1, 29),
    ];

    assert_eq!(result, expected);
}

#[test]
fn calc_recurrences_weekly_w_date_limit() {
    let start_date = ymd(2020, 1, 1);

    let rule = RecurrenceRule {
        frequency: RecurrenceFreq::Weekly,
        limit: RecurrenceLimit::Date(ymd(2020, 1, 15)),
        by_day: Some(vec![start_date.weekday()]),
        ..default_recurrence_rule()
    };

    let instance = RecurrenceRuleInstance::new(&rule, start_date);

    let result = instances_between(instance, ymd(2020, 1, 1), ymd(2020, 2, 1));

    let expected = [ymd(2020, 1, 1), ymd(2020, 1, 8), ymd(2020, 1, 15)];

    assert_eq!(result, expected);
}

#[test]
fn calc_recurrences_weekly_w_count_limit() {
    let start_date = ymd(2020, 1, 1);

    let rule = RecurrenceRule {
        frequency: RecurrenceFreq::Weekly,
        limit: RecurrenceLimit::Count(4),
        by_day: Some(vec![start_date.weekday()]),
        ..default_recurrence_rule()
    };

    let instance = RecurrenceRuleInstance::new(&rule, start_date);

    let result = instances_between(instance, ymd(2020, 1, 1), ymd(2020, 2, 1));

    let expected = [ymd(2020, 1, 1), ymd(2020, 1, 8), ymd(2020, 1, 15), ymd(2020, 1, 22)];

    assert_eq!(result, expected);
}

#[test]
fn calc_recurrences_every_two_weeks() {
    let start_date = ymd(2020, 1, 1);

    let rule = RecurrenceRule {
        frequency: RecurrenceFreq::Weekly,
        interval: 2,
        by_day: Some(vec![start_date.weekday()]),
        ..default_recurrence_rule()
    };

    let instance = RecurrenceRuleInstance::new(&rule, start_date);

    let result = instances_between(instance, ymd(2020, 1, 1), ymd(2020, 2, 1));

    let expected = [ymd(2020, 1, 1), ymd(2020, 1, 15), ymd(2020, 1, 29)];

    assert_eq!(result, expected);
}

#[test]
fn infer_by_day() {
    let start_date = ymd(2020, 09, 26);
    let rule = RecurrenceRule::new("FREQ=WEEKLY").unwrap();
    let rule_instance = RecurrenceRuleInstance::new(&rule, start_date);

    assert_eq!(rule_instance.get_rule().by_day, Some(vec![Weekday::Sat]));
}

#[test]
fn infer_by_month_day() {
    let start_date = ymd(2020, 09, 26);
    let rule = RecurrenceRule::new("FREQ=MONTHLY").unwrap();
    let rule_instance = RecurrenceRuleInstance::new(&rule, start_date);

    assert_eq!(rule_instance.get_rule().by_month_day, Some(vec![26]));
}

#[test]
fn yearly_infer_by_month_day() {
    let start_date = ymd(2020, 09, 26);
    let rule = RecurrenceRule::new("FREQ=YEARLY;BYMONTH=2").unwrap();
    let rule_instance = RecurrenceRuleInstance::new(&rule, start_date);

    assert_eq!(rule_instance.get_rule().by_month_day, Some(vec![26]));
}

#[test]
fn yearly_infer_by_day() {
    let start_date = ymd(2020, 09, 26);
    let rule = RecurrenceRule::new("FREQ=YEARLY;BYWEEKNO=2,4,6").unwrap();
    let rule_instance = RecurrenceRuleInstance::new(&rule, start_date);

    assert_eq!(rule_instance.get_rule().by_day, Some(vec![Weekday::Sat]));
}

#[test]
fn yearly_infer_by_year_day() {
    let start_date = ymd(2020, 09, 26);
    let rule = RecurrenceRule::new("FREQ=YEARLY").unwrap();
    let rule_instance = RecurrenceRuleInstance::new(&rule, start_date);

    assert_eq!(rule_instance.get_rule().by_year_day, Some(vec![start_date.year_day() as i32]));
    assert_eq!(rule_instance.get_rule().by_year_day, Some(vec![270]));
}

#[test]
fn weekly_rule_from_text_infers_and_expands() {
    let rule = RecurrenceRule::new("FREQ=WEEKLY").unwrap();
    let instance = RecurrenceRuleInstance::new(&rule, ymd(2020, 1, 1));
    assert_eq!(instance.get_rule().by_day, Some(vec![Weekday::Wed]));
    assert_eq!(instance.get_start_date(), ymd(2020, 1, 1));
    let expected = [
        ymd(2020, 1, 1),
        ymd(2020, 1, 8),
        ymd(2020, 1, 15),
        ymd(2020, 1, 22),
        ymd(2020, 1, 29),
    ];
    assert_eq!(instance.instances_between(ymd(2020, 1, 1), ymd(2020, 1, 31)), expected);
}

#[test]
fn weekly_rule_with_until_from_text() {
    let rule = RecurrenceRule::new("FREQ=WEEKLY;UNTIL=20200115").unwrap();
    let instance = RecurrenceRuleInstance::new(&rule, ymd(2020, 1, 1));
    let all = first_instances(&instance, 100);
    assert_eq!(all, [ymd(2020, 1, 1), ymd(2020, 1, 8), ymd(2020, 1, 15)]);
}

#[test]
fn weekly_rule_with_count_from_text() {
    let rule = RecurrenceRule::new("FREQ=WEEKLY;COUNT=4").unwrap();
    let instance = RecurrenceRuleInstance::new(&rule, ymd(2020, 1, 1));
    let all = first_instances(&instance, 100);
    assert_eq!(all, [ymd(2020, 1, 1), ymd(2020, 1, 8), ymd(2020, 1, 15), ymd(2020, 1, 22)]);
}

#[test]
fn every_two_weeks_from_text() {
    let rule = RecurrenceRule::new("FREQ=WEEKLY;INTERVAL=2").unwrap();
    let instance = RecurrenceRuleInstance::new(&rule, ymd(2020, 1, 1));
    assert_eq!(
        instance.instances_between(ymd(2020, 1, 1), ymd(2020, 1, 31)),
        [ymd(2020, 1, 1), ymd(2020, 1, 15), ymd(2020, 1, 29)]
    );
}

#[test]
fn window_leaves_out_what_lies_before_it() {
    let rule = RecurrenceRule::new("FREQ=WEEKLY").unwrap();
    let instance = RecurrenceRuleInstance::new(&rule, ymd(2020, 1, 1));
    assert_eq!(
        instance.instances_between(ymd(2020, 1, 9), ymd(2020, 1, 22)),
        [ymd(2020, 1, 15), ymd(2020, 1, 22)]
    );
    assert_eq!(instance.instances_between(ymd(2020, 1, 2), ymd(2020, 1, 7)), []);
}

#[test]
fn inference_leaves_given_filters_alone() {
    let rule = RecurrenceRule::new("FREQ=WEEKLY;BYDAY=MO,FR").unwrap();
    let instance = RecurrenceRuleInstance::new(&rule, ymd(2020, 1, 1));
    assert_eq!(instance.get_rule(), &rule);

    let rule = RecurrenceRule::new("FREQ=MONTHLY;BYDAY=MO").unwrap();
    let instance = RecurrenceRuleInstance::new(&rule, ymd(2020, 1, 1));
    assert_eq!(instance.get_rule(), &rule);

    let rule = RecurrenceRule::new("FREQ=YEARLY;BYMONTH=2;BYDAY=MO").unwrap();
    let instance = RecurrenceRuleInstance::new(&rule, ymd(2020, 9, 26));
    assert_eq!(instance.get_rule().by_day, Some(vec![Weekday::Mon]));
    assert_eq!(instance.get_rule().by_month, Some(vec![Month::February]));
    assert_eq!(instance.get_rule().by_month_day, Some(vec![26]));
    assert_eq!(instance.get_rule().by_year_day, None);

    let rule = RecurrenceRule::new("FREQ=DAILY").unwrap();
    let instance = RecurrenceRuleInstance::new(&rule, ymd(2020, 9, 26));
    assert_eq!(instance.get_rule(), &rule);
}

#[test]
fn inference_is_idempotent() {
    for text in ["FREQ=WEEKLY", "FREQ=MONTHLY", "FREQ=YEARLY", "FREQ=YEARLY;BYMONTH=3", "FREQ=DAILY"] {
        let rule = RecurrenceRule::new(text).unwrap();
        let once = RecurrenceRuleInstance::new(&rule, ymd(2020, 9, 26));
        let twice = RecurrenceRuleInstance::new(once.get_rule(), ymd(2020, 9, 26));
        assert_eq!(once.get_rule(), twice.get_rule());
        let elsewhere = RecurrenceRuleInstance::new(once.get_rule(), ymd(2021, 3, 4));
        assert_eq!(once.get_rule(), elsewhere.get_rule());
    }
}

#[test]
fn first_occurrence_is_the_start_date() {
    for text in ["FREQ=DAILY", "FREQ=WEEKLY;INTERVAL=5", "FREQ=MONTHLY", "FREQ=YEARLY;INTERVAL=2"] {
        let rule = RecurrenceRule::new(text).unwrap();
        let start = ymd(2021, 7, 19);
        let instance = RecurrenceRuleInstance::new(&rule, start);
        assert!(instance.matches(&start));
        assert_eq!(instance.calculate_instances().next(), Some(start));
    }
}

#[test]
fn start_date_that_fails_the_filter_is_no_occurrence() {
    let rule = RecurrenceRule::new("FREQ=WEEKLY;BYDAY=MO").unwrap();
    let start = ymd(2020, 1, 1);
    let instance = RecurrenceRuleInstance::new(&rule, start);
    assert!(!instance.matches(&start));
    assert_eq!(first_instances(&instance, 2), [ymd(2020, 1, 6), ymd(2020, 1, 13)]);
}

#[test]
fn occurrences_ascend_and_match() {
    let rule = RecurrenceRule::new("FREQ=MONTHLY;BYMONTHDAY=1,15,-1").unwrap();
    let instance = RecurrenceRuleInstance::new(&rule, ymd(2020, 1, 1));
    let dates = first_instances(&instance, 40);
    assert_eq!(dates.len(), 40);
    for pair in dates.windows(2) {
        assert!(pair[0] < pair[1]);
    }
    for date in &dates {
        assert!(instance.matches(date));
    }
    assert_eq!(
        dates[..7],
        [
            ymd(2020, 1, 1),
            ymd(2020, 1, 15),
            ymd(2020, 1, 31),
            ymd(2020, 2, 1),
            ymd(2020, 2, 15),
            ymd(2020, 2, 29),
            ymd(2020, 3, 1)
        ]
    );
}

#[test]
fn count_bounds_the_number_of_occurrences() {
    let rule = RecurrenceRule::new("FREQ=DAILY;COUNT=3").unwrap();
    let instance = RecurrenceRuleInstance::new(&rule, ymd(2020, 2, 27));
    let mut instances = instance.calculate_instances();
    assert_eq!(instances.next(), Some(ymd(2020, 2, 27)));
    assert_eq!(instances.next(), Some(ymd(2020, 2, 28)));
    assert_eq!(instances.next(), Some(ymd(2020, 2, 29)));
    assert_eq!(instances.next(), None);
    assert_eq!(instances.next(), None);

    let none = RecurrenceRule { limit: RecurrenceLimit::Count(0), ..default_recurrence_rule() };
    let instance = RecurrenceRuleInstance::new(&none, ymd(2020, 2, 27));
    assert_eq!(instance.calculate_instances().next(), None);
}

#[test]
fn until_bounds_the_occurrences() {
    let rule = RecurrenceRule::new("FREQ=DAILY;INTERVAL=3;UNTIL=20200310").unwrap();
    let instance = RecurrenceRuleInstance::new(&rule, ymd(2020, 2, 27));
    let dates = first_instances(&instance, 100);
    assert_eq!(
        dates,
        [ymd(2020, 2, 27), ymd(2020, 3, 1), ymd(2020, 3, 4), ymd(2020, 3, 7), ymd(2020, 3, 10)]
    );

    let before = RecurrenceRule::new("FREQ=DAILY;UNTIL=20200226").unwrap();
    let instance = RecurrenceRuleInstance::new(&before, ymd(2020, 2, 27));
    assert_eq!(first_instances(&instance, 100), []);
}

#[test]
fn two_walks_over_one_rule_agree() {
    let rule = RecurrenceRule::new("FREQ=WEEKLY;INTERVAL=2;BYDAY=TU,TH").unwrap();
    let instance = RecurrenceRuleInstance::new(&rule, ymd(2020, 1, 1));
    let again = RecurrenceRuleInstance::new(&rule.clone(), ymd(2020, 1, 1));
    let mut one = instance.calculate_instances();
    let mut other = RRuleInstances::new(&again);
    for _ in 0..50 {
        assert_eq!(one.next(), other.next());
    }
}

#[test]
fn leap_day_yearly_rule_occurs_on_the_sixtieth_day() {
    let rule = RecurrenceRule::new("FREQ=YEARLY").unwrap();
    let instance = RecurrenceRuleInstance::new(&rule, ymd(2024, 2, 29));
    assert_eq!(instance.get_rule().by_year_day, Some(vec![60]));
    assert_eq!(
        first_instances(&instance, 5),
        [ymd(2024, 2, 29), ymd(2025, 3, 1), ymd(2026, 3, 1), ymd(2027, 3, 1), ymd(2028, 2, 29)]
    );
}

#[test]
fn leap_day_with_month_and_day_occurs_in_leap_years_only() {
    let rule = RecurrenceRule::new("FREQ=YEARLY;BYMONTH=2;BYMONTHDAY=29").unwrap();
    let instance = RecurrenceRuleInstance::new(&rule, ymd(2024, 2, 29));
    assert_eq!(
        first_instances(&instance, 3),
        [ymd(2024, 2, 29), ymd(2028, 2, 29), ymd(2032, 2, 29)]
    );
}

#[test]
fn monthly_on_the_31st_skips_short_months() {
    let rule = RecurrenceRule::new("FREQ=MONTHLY;BYMONTHDAY=31").unwrap();
    let instance = RecurrenceRuleInstance::new(&rule, ymd(2020, 1, 31));
    assert_eq!(
        instance.instances_between(ymd(2020, 1, 1), ymd(2020, 12, 31)),
        [
            ymd(2020, 1, 31),
            ymd(2020, 3, 31),
            ymd(2020, 5, 31),
            ymd(2020, 7, 31),
            ymd(2020, 8, 31),
            ymd(2020, 10, 31),
            ymd(2020, 12, 31)
        ]
    );
}

#[test]
fn monthly_interval_wraps_over_the_year() {
    let rule = RecurrenceRule::new("FREQ=MONTHLY;INTERVAL=5").unwrap();
    let instance = RecurrenceRuleInstance::new(&rule, ymd(2020, 9, 26));
    assert_eq!(
        first_instances(&instance, 4),
        [ymd(2020, 9, 26), ymd(2021, 2, 26), ymd(2021, 7, 26), ymd(2021, 12, 26)]
    );
}

#[test]
fn weekly_interval_crosses_the_year() {
    let rule = RecurrenceRule::new("FREQ=WEEKLY;INTERVAL=2").unwrap();
    let instance = RecurrenceRuleInstance::new(&rule, ymd(2019, 12, 25));
    assert_eq!(
        first_instances(&instance, 4),
        [ymd(2019, 12, 25), ymd(2020, 1, 8), ymd(2020, 1, 22), ymd(2020, 2, 5)]
    );

    let mondays = RecurrenceRule::new("FREQ=WEEKLY").unwrap();
    let instance = RecurrenceRuleInstance::new(&mondays, ymd(2019, 12, 30));
    assert_eq!(
        first_instances(&instance, 3),
        [ymd(2019, 12, 30), ymd(2020, 1, 6), ymd(2020, 1, 13)]
    );
}

#[test]
fn several_weekdays_every_second_week() {
    let rule = RecurrenceRule::new("FREQ=WEEKLY;INTERVAL=2;BYDAY=MO,WE,SU").unwrap();
    let instance = RecurrenceRuleInstance::new(&rule, ymd(2019, 12, 30));
    assert_eq!(
        first_instances(&instance, 6),
        [
            ymd(2019, 12, 30),
            ymd(2020, 1, 1),
            ymd(2020, 1, 5),
            ymd(2020, 1, 13),
            ymd(2020, 1, 15),
            ymd(2020, 1, 19)
        ]
    );
}

#[test]
fn weeks_between_counts_calendar_weeks() {
    let weeks = |a: Date, b: Date| calc_uniq_weeks_between(&a.calendar(), &b.calendar());
    assert_eq!(weeks(ymd(2020, 1, 21), ymd(2020, 1, 1)), 3);
    assert_eq!(weeks(ymd(2020, 1, 1), ymd(2020, 1, 21)), -3);
    assert_eq!(weeks(ymd(2020, 1, 5), ymd(2019, 12, 30)), 0);
    assert_eq!(weeks(ymd(2020, 1, 6), ymd(2020, 1, 5)), 1);
    assert_eq!(weeks(ymd(2020, 1, 6), ymd(2019, 12, 30)), 1);
    assert_eq!(weeks(ymd(2021, 1, 4), ymd(2019, 12, 30)), 53);
    assert_eq!(weeks(ymd(2020, 1, 8), ymd(2020, 1, 8)), 0);
    let wednesday = CalendarDay {
        number: 737425,
        year: 2020,
        month: 1,
        day: 1,
        year_day: 1,
        weekday: Weekday::Wed,
    };
    let tuesday = CalendarDay { number: 737445, day: 21, year_day: 21, weekday: Weekday::Tue, ..wednesday };
    assert_eq!(calc_uniq_weeks_between(&tuesday, &wednesday), 3);
    assert_eq!(calc_uniq_weeks_between(&wednesday, &tuesday), -3);
}

#[test]
fn negative_items_count_from_the_end() {
    let rule = RecurrenceRule::new("FREQ=MONTHLY;BYMONTHDAY=-1").unwrap();
    let instance = RecurrenceRuleInstance::new(&rule, ymd(2020, 1, 31));
    assert_eq!(
        first_instances(&instance, 4),
        [ymd(2020, 1, 31), ymd(2020, 2, 29), ymd(2020, 3, 31), ymd(2020, 4, 30)]
    );

    let rule = RecurrenceRule::new("FREQ=YEARLY;BYYEARDAY=-1,1").unwrap();
    let instance = RecurrenceRuleInstance::new(&rule, ymd(2020, 6, 1));
    assert_eq!(
        first_instances(&instance, 3),
        [ymd(2020, 12, 31), ymd(2021, 1, 1), ymd(2021, 12, 31)]
    );
    let leap = ymd(2020, 12, 31);
    assert_eq!(leap.year_day(), 366);
    assert!(instance.matches(&leap));
    assert!(!instance.matches(&ymd(2020, 12, 30)));
}

#[test]
fn yearly_by_month_filters_months() {
    let rule = RecurrenceRule::new("FREQ=YEARLY;BYMONTH=2,8").unwrap();
    let instance = RecurrenceRuleInstance::new(&rule, ymd(2020, 2, 10));
    assert!(instance.matches(&ymd(2020, 8, 10)));
    assert!(!instance.matches(&ymd(2020, 3, 10)));
    assert!(!instance.matches(&ymd(2020, 8, 11)));
    assert_eq!(
        first_instances(&instance, 4),
        [ymd(2020, 2, 10), ymd(2020, 8, 10), ymd(2021, 2, 10), ymd(2021, 8, 10)]
    );
}

#[test]
fn spacing_counts_from_the_last_occurrence() {
    let rule = RecurrenceRule::new("FREQ=DAILY;INTERVAL=3").unwrap();
    let first = ymd(2020, 1, 1).calendar();
    assert!(rule.is_spaced(&ymd(2020, 1, 4).calendar(), &first));
    assert!(rule.is_spaced(&first, &first));
    assert!(!rule.is_spaced(&ymd(2020, 1, 3).calendar(), &first));

    let monthly = RecurrenceRule::new("FREQ=MONTHLY;INTERVAL=3").unwrap();
    let november = ymd(2020, 11, 5).calendar();
    assert!(!monthly.is_spaced(&ymd(2021, 1, 5).calendar(), &november));
    assert!(monthly.is_spaced(&ymd(2021, 2, 5).calendar(), &november));
    assert!(monthly.is_spaced(&ymd(2021, 11, 5).calendar(), &november));
    assert!(monthly.is_spaced(&ymd(2020, 11, 30).calendar(), &november));

    let rule = RecurrenceRule::new("FREQ=YEARLY;INTERVAL=2").unwrap();
    let instance = RecurrenceRuleInstance::new(&rule, ymd(2020, 1, 1));
    assert!(!rule.is_spaced(&ymd(2021, 1, 1).calendar(), &first));
    assert!(rule.is_spaced(&ymd(2022, 1, 1).calendar(), &first));
    assert_eq!(
        first_instances(&instance, 3),
        [ymd(2020, 1, 1), ymd(2022, 1, 1), ymd(2024, 1, 1)]
    );
}

#[test]
fn rules_that_cannot_be_expanded_hand_out_nothing() {
    let cases = [
        ("FREQ=WEEKLY;BYMONTHDAY=3", RuleDomainError::IncompatibleFilter(RuleKey::ByMonthDay)),
        ("FREQ=DAILY;BYYEARDAY=3", RuleDomainError::IncompatibleFilter(RuleKey::ByYearDay)),
        ("FREQ=MONTHLY;BYYEARDAY=3", RuleDomainError::IncompatibleFilter(RuleKey::ByYearDay)),
        ("FREQ=MONTHLY;BYWEEKNO=3", RuleDomainError::IncompatibleFilter(RuleKey::ByWeekNo)),
        ("FREQ=YEARLY;BYWEEKNO=3", RuleDomainError::UnsupportedFilter(RuleKey::ByWeekNo)),
        ("FREQ=DAILY;BYSETPOS=1", RuleDomainError::UnsupportedFilter(RuleKey::BySetPos)),
        ("FREQ=DAILY;BYSETPOS=1;BYYEARDAY=2", RuleDomainError::IncompatibleFilter(RuleKey::ByYearDay)),
    ];
    for (text, error) in cases {
        let rule = RecurrenceRule::new(text).unwrap();
        let instance = RecurrenceRuleInstance::new(&rule, ymd(2020, 1, 3));
        assert_eq!(rule.domain_error(), Some(error));
        assert_eq!(instance.get_rule().domain_error(), Some(error));
        let mut instances = instance.calculate_instances();
        assert_eq!(instances.error(), Some(error));
        assert_eq!(instances.next(), None);
        assert_eq!(instance.instances_between(ymd(2020, 1, 1), ymd(2021, 1, 1)), []);
    }
    let rule = RecurrenceRule::new("FREQ=YEARLY;BYYEARDAY=3").unwrap();
    let instance = RecurrenceRuleInstance::new(&rule, ymd(2020, 1, 3));
    assert_eq!(instance.get_rule().domain_error(), None);
    assert_eq!(instance.calculate_instances().error(), None);
}

#[test]
fn walk_ends_at_the_last_date() {
    let rule = RecurrenceRule::new("FREQ=MONTHLY;BYMONTH=2;BYMONTHDAY=31").unwrap();
    let instance = RecurrenceRuleInstance::new(&rule, ymd(9990, 1, 1));
    let mut instances = instance.calculate_instances();
    assert_eq!(instances.next(), None);
    assert_eq!(instances.next(), None);

    let daily = RecurrenceRule::new("FREQ=DAILY").unwrap();
    let instance = RecurrenceRuleInstance::new(&daily, ymd(9999, 12, 30));
    assert_eq!(first_instances(&instance, 5), [ymd(9999, 12, 30), ymd(9999, 12, 31)]);
}

#[test]
fn empty_filter_matches_nothing() {
    let rule = RecurrenceRule {
        frequency: RecurrenceFreq::Weekly,
        by_day: Some(vec![]),
        limit: RecurrenceLimit::Date(ymd(2020, 3, 1)),
        ..default_recurrence_rule()
    };
    let instance = RecurrenceRuleInstance::new(&rule, ymd(2020, 1, 1));
    assert_eq!(instance.get_rule().by_day, Some(vec![]));
    assert_eq!(first_instances(&instance, 5), []);
}

#[test]
fn filters_decide_on_what_the_calendar_says() {
    let day = CalendarDay {
        number: 737445,
        year: 2020,
        month: 1,
        day: 21,
        year_day: 21,
        weekday: Weekday::Tue,
    };
    let fits = |text: &str| RecurrenceRule::new(text).unwrap().fits(&day);
    assert!(fits("FREQ=DAILY"));
    assert!(fits("FREQ=YEARLY;BYMONTH=1"));
    assert!(!fits("FREQ=YEARLY;BYMONTH=2,3"));
    assert!(fits("FREQ=MONTHLY;BYMONTHDAY=21"));
    assert!(fits("FREQ=MONTHLY;BYMONTHDAY=1,-11"));
    assert!(!fits("FREQ=MONTHLY;BYMONTHDAY=-21,-10,20,22"));
    assert!(fits("FREQ=YEARLY;BYYEARDAY=21"));
    assert!(fits("FREQ=YEARLY;BYYEARDAY=-346"));
    assert!(!fits("FREQ=YEARLY;BYYEARDAY=-345,-21,20"));
    assert!(fits("FREQ=WEEKLY;BYDAY=MO,TU"));
    assert!(!fits("FREQ=WEEKLY;BYDAY=MO,WE,TH,FR,SA,SU"));
    assert!(fits("FREQ=YEARLY;BYMONTH=1;BYMONTHDAY=21;BYDAY=TU;BYYEARDAY=21"));
    assert!(!fits("FREQ=YEARLY;BYMONTH=1;BYMONTHDAY=21;BYDAY=WE;BYYEARDAY=21"));
    assert!(!fits("FREQ=YEARLY;BYWEEKNO=4"));
    assert!(!fits("FREQ=DAILY;BYSETPOS=1"));
    let common = CalendarDay { year: 2021, ..day };
    let in_common_year = RecurrenceRule::new("FREQ=YEARLY;BYYEARDAY=-345").unwrap();
    assert!(in_common_year.fits(&common));
    let february = CalendarDay { month: 2, day: 19, ..day };
    let from_end = RecurrenceRule::new("FREQ=MONTHLY;BYMONTHDAY=-11").unwrap();
    assert!(from_end.fits(&february));
    assert!(!from_end.fits(&CalendarDay { year: 2021, ..february }));
}

#[test]
fn inference_takes_what_the_calendar_says_of_the_start() {
    let start = CalendarDay {
        number: 737694,
        year: 2020,
        month: 9,
        day: 26,
        year_day: 270,
        weekday: Weekday::Sat,
    };
    let infer = |text: &str| {
        RecurrenceRuleInstance::infer_stuff(RecurrenceRule::new(text).unwrap(), &start).to_string()
    };
    assert_eq!(ymd(2020, 9, 26).calendar(), start);
    assert_eq!(infer("FREQ=DAILY"), "FREQ=DAILY");
    assert_eq!(infer("FREQ=WEEKLY"), "FREQ=WEEKLY;BYDAY=SA");
    assert_eq!(infer("FREQ=WEEKLY;BYDAY=MO"), "FREQ=WEEKLY;BYDAY=MO");
    assert_eq!(infer("FREQ=MONTHLY"), "FREQ=MONTHLY;BYMONTHDAY=26");
    assert_eq!(infer("FREQ=MONTHLY;BYDAY=MO"), "FREQ=MONTHLY;BYDAY=MO");
    assert_eq!(infer("FREQ=MONTHLY;BYMONTHDAY=1"), "FREQ=MONTHLY;BYMONTHDAY=1");
    assert_eq!(infer("FREQ=YEARLY"), "FREQ=YEARLY;BYYEARDAY=270");
    assert_eq!(infer("FREQ=YEARLY;BYYEARDAY=1"), "FREQ=YEARLY;BYYEARDAY=1");
    assert_eq!(infer("FREQ=YEARLY;BYMONTH=2"), "FREQ=YEARLY;BYMONTHDAY=26;BYMONTH=2");
    assert_eq!(infer("FREQ=YEARLY;BYMONTH=2;BYMONTHDAY=3"), "FREQ=YEARLY;BYMONTHDAY=3;BYMONTH=2");
    assert_eq!(infer("FREQ=YEARLY;BYWEEKNO=2,4,6"), "FREQ=YEARLY;BYDAY=SA;BYWEEKNO=2,4,6");
    assert_eq!(infer("FREQ=YEARLY;BYWEEKNO=2;BYDAY=MO"), "FREQ=YEARLY;BYDAY=MO;BYWEEKNO=2");
    assert_eq!(
        infer("FREQ=YEARLY;BYWEEKNO=2;BYMONTH=1"),
        "FREQ=YEARLY;BYWEEKNO=2;BYMONTHDAY=26;BYMONTH=1"
    );
}
