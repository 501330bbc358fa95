use caser::date::Date;
use caser::date::Month;
use caser::date::Weekday;
use caser::recurrence::parser::parse;
use caser::recurrence::parser::read_ymd;
use caser::recurrence::push_ymd;
use caser::recurrence::parser::RRuleParseError;
use caser::recurrence::parser::RuleKey;
use caser::recurrence::vec_to_str;
use caser::recurrence::RecurrenceFreq;
use caser::recurrence::RecurrenceLimit;
use caser::recurrence::RecurrenceRule;

#[test]
fn parse_monthly_with_lists_and_count() {
    let rule = parse("FREQ=MONTHLY;INTERVAL=3;BYMONTHDAY=1,15;COUNT=10").unwrap();
    assert_eq!(rule.frequency, RecurrenceFreq::Monthly);
    assert_eq!(rule.interval, 3);
    assert_eq!(rule.limit, RecurrenceLimit::Count(10));
    assert_eq!(rule.by_month_day, Some(vec![1, 15]));
    assert_eq!(rule.by_day, None);
}

#[test]
fn round_trip_of_monthly_rule() {
    let text = "FREQ=MONTHLY;INTERVAL=3;BYMONTHDAY=1,15;COUNT=10";
    let rule = parse(text).unwrap();
    let printed = rule.to_string();
    assert_eq!(printed, text);
    assert_eq!(parse(&printed).unwrap(), rule);
}

#[test]
fn parse_until_date() {
    let rule = RecurrenceRule::new("FREQ=WEEKLY;UNTIL=20200115;BYDAY=MO,WE").unwrap();
    assert_eq!(rule.limit, RecurrenceLimit::Date(Date::from_ymd(2020, 1, 15).unwrap()));
    assert_eq!(rule.by_day, Some(vec![Weekday::Mon, Weekday::Wed]));
    assert_eq!(rule.to_string(), "FREQ=WEEKLY;BYDAY=MO,WE;UNTIL=20200115");
}

#[test]
fn parse_errors() {
    assert_eq!(parse(""), Err(RRuleParseError::UnknownKey));
    assert_eq!(parse("INTERVAL=2"), Err(RRuleParseError::MissingFreq));
    assert_eq!(parse("FREQ=DAILY;FREQ=DAILY"), Err(RRuleParseError::DuplicateKey));
    assert_eq!(parse("FREQ=HOURLY"), Err(RRuleParseError::BadValue(RuleKey::Freq)));
    assert_eq!(parse("FREQ=DAILY;INTERVAL=0"), Err(RRuleParseError::OutOfRange(RuleKey::Interval)));
    assert_eq!(parse("FREQ=DAILY;COUNT=3;UNTIL=20200101"), Err(RRuleParseError::ConflictingLimit));
    assert_eq!(parse("FREQ=DAILY;UNTIL=20200230"), Err(RRuleParseError::BadValue(RuleKey::Until)));
    assert_eq!(parse("FREQ=YEARLY;BYMONTH=13"), Err(RRuleParseError::OutOfRange(RuleKey::ByMonth)));
    assert_eq!(parse("FREQ=WEEKLY;BYDAY=1MO"), Err(RRuleParseError::BadValue(RuleKey::ByDay)));
}

#[test]
fn months_print_as_numbers() {
    let rule = parse("FREQ=YEARLY;BYMONTH=2,12").unwrap();
    assert_eq!(rule.by_month, Some(vec![Month::February, Month::December]));
    assert_eq!(rule.to_string(), "FREQ=YEARLY;BYMONTH=2,12");
}

#[test]
fn vec_to_str_joins_with_commas() {
    assert_eq!(vec_to_str(vec![1, -15, 0, 2147483647, -2147483648]), "1,-15,0,2147483647,-2147483648");
    assert_eq!(vec_to_str(vec![]), "");
}

#[test]
fn unknown_keys_are_refused() {
    for text in ["FOO=1", "FREQ=DAILY;", ";FREQ=DAILY", "freq=DAILY", "FREQ=DAILY;WKST=MO", "=", " FREQ=DAILY"] {
        assert_eq!(parse(text), Err(RRuleParseError::UnknownKey), "{}", text);
    }
}

#[test]
fn frequency_is_required_once() {
    assert_eq!(parse("COUNT=3"), Err(RRuleParseError::MissingFreq));
    assert_eq!(parse("BYDAY=MO;INTERVAL=2"), Err(RRuleParseError::MissingFreq));
    assert_eq!(parse("FREQ=DAILY;FREQ=WEEKLY"), Err(RRuleParseError::DuplicateKey));
    assert_eq!(parse("FREQ=DAILY;BYDAY=MO;BYDAY=TU"), Err(RRuleParseError::DuplicateKey));
    assert_eq!(parse("COUNT=1;COUNT=x"), Err(RRuleParseError::DuplicateKey));
}

#[test]
fn malformed_values_are_refused() {
    let cases = [
        ("FREQ=", RuleKey::Freq),
        ("FREQ", RuleKey::Freq),
        ("FREQ=daily", RuleKey::Freq),
        ("FREQ=DAILY;INTERVAL=x", RuleKey::Interval),
        ("FREQ=DAILY;INTERVAL=", RuleKey::Interval),
        ("FREQ=DAILY;INTERVAL=+2", RuleKey::Interval),
        ("FREQ=DAILY;INTERVAL=2 ", RuleKey::Interval),
        ("FREQ=DAILY;COUNT=-", RuleKey::Count),
        ("FREQ=DAILY;COUNT=1.5", RuleKey::Count),
        ("FREQ=DAILY;UNTIL=2020011", RuleKey::Until),
        ("FREQ=DAILY;UNTIL=2020-01-15", RuleKey::Until),
        ("FREQ=DAILY;UNTIL=20200115T000000Z", RuleKey::Until),
        ("FREQ=DAILY;UNTIL=20201301", RuleKey::Until),
        ("FREQ=DAILY;UNTIL=20210229", RuleKey::Until),
        ("FREQ=DAILY;UNTIL=2020011x", RuleKey::Until),
        ("FREQ=YEARLY;BYMONTH=Jan", RuleKey::ByMonth),
        ("FREQ=YEARLY;BYMONTH=", RuleKey::ByMonth),
        ("FREQ=YEARLY;BYWEEKNO=1,", RuleKey::ByWeekNo),
        ("FREQ=YEARLY;BYYEARDAY=,1", RuleKey::ByYearDay),
        ("FREQ=MONTHLY;BYMONTHDAY=1,,2", RuleKey::ByMonthDay),
        ("FREQ=WEEKLY;BYDAY=XX", RuleKey::ByDay),
        ("FREQ=WEEKLY;BYDAY=mo", RuleKey::ByDay),
        ("FREQ=WEEKLY;BYDAY=-1FR", RuleKey::ByDay),
        ("FREQ=WEEKLY;BYDAY=MO,", RuleKey::ByDay),
        ("FREQ=WEEKLY;BYDAY=", RuleKey::ByDay),
        ("FREQ=MONTHLY;BYSETPOS=first", RuleKey::BySetPos),
        ("FREQ=MONTHLY;BYSETPOS=--1", RuleKey::BySetPos),
    ];
    for (text, key) in cases {
        assert_eq!(parse(text), Err(RRuleParseError::BadValue(key)), "{}", text);
    }
}

#[test]
fn numbers_out_of_range_are_refused() {
    let cases = [
        ("FREQ=DAILY;INTERVAL=0", RuleKey::Interval),
        ("FREQ=DAILY;INTERVAL=-1", RuleKey::Interval),
        ("FREQ=DAILY;INTERVAL=2147483648", RuleKey::Interval),
        ("FREQ=DAILY;INTERVAL=99999999999999999999999999999999999999999", RuleKey::Interval),
        ("FREQ=DAILY;COUNT=0", RuleKey::Count),
        ("FREQ=DAILY;COUNT=-3", RuleKey::Count),
        ("FREQ=DAILY;COUNT=4294967296", RuleKey::Count),
        ("FREQ=YEARLY;BYMONTH=0", RuleKey::ByMonth),
        ("FREQ=YEARLY;BYMONTH=13", RuleKey::ByMonth),
        ("FREQ=YEARLY;BYMONTH=-1", RuleKey::ByMonth),
        ("FREQ=YEARLY;BYWEEKNO=54", RuleKey::ByWeekNo),
        ("FREQ=YEARLY;BYWEEKNO=-54", RuleKey::ByWeekNo),
        ("FREQ=YEARLY;BYWEEKNO=0", RuleKey::ByWeekNo),
        ("FREQ=YEARLY;BYYEARDAY=367", RuleKey::ByYearDay),
        ("FREQ=YEARLY;BYYEARDAY=-367", RuleKey::ByYearDay),
        ("FREQ=YEARLY;BYYEARDAY=1,0", RuleKey::ByYearDay),
        ("FREQ=MONTHLY;BYMONTHDAY=32", RuleKey::ByMonthDay),
        ("FREQ=MONTHLY;BYMONTHDAY=-32", RuleKey::ByMonthDay),
        ("FREQ=MONTHLY;BYMONTHDAY=-0", RuleKey::ByMonthDay),
        ("FREQ=MONTHLY;BYSETPOS=0", RuleKey::BySetPos),
        ("FREQ=MONTHLY;BYSETPOS=2147483648", RuleKey::BySetPos),
        ("FREQ=MONTHLY;BYSETPOS=-2147483649", RuleKey::BySetPos),
    ];
    for (text, key) in cases {
        assert_eq!(parse(text), Err(RRuleParseError::OutOfRange(key)), "{}", text);
    }
}

#[test]
fn numbers_at_the_ends_of_their_ranges_are_read() {
    let rule = parse(
        "FREQ=YEARLY;INTERVAL=2147483647;COUNT=4294967295;BYMONTH=1,12;BYWEEKNO=-53,53;\
         BYYEARDAY=-366,366;BYMONTHDAY=-31,31;BYSETPOS=-2147483648,2147483647",
    )
    .unwrap();
    assert_eq!(rule.interval, i32::MAX);
    assert_eq!(rule.limit, RecurrenceLimit::Count(u32::MAX));
    assert_eq!(rule.by_month, Some(vec![Month::January, Month::December]));
    assert_eq!(rule.by_week_no, Some(vec![-53, 53]));
    assert_eq!(rule.by_year_day, Some(vec![-366, 366]));
    assert_eq!(rule.by_month_day, Some(vec![-31, 31]));
    assert_eq!(rule.by_set_pos, Some(vec![i32::MIN, i32::MAX]));
    assert_eq!(parse(&rule.to_string()).unwrap(), rule);
}

#[test]
fn both_limits_conflict() {
    assert_eq!(parse("FREQ=DAILY;COUNT=3;UNTIL=20200101"), Err(RRuleParseError::ConflictingLimit));
    assert_eq!(parse("FREQ=DAILY;UNTIL=20200101;COUNT=3"), Err(RRuleParseError::ConflictingLimit));
    assert_eq!(parse("UNTIL=20200101;COUNT=x;FREQ=DAILY"), Err(RRuleParseError::ConflictingLimit));
}

#[test]
fn first_wrong_part_decides_the_error() {
    assert_eq!(parse("FOO=1;FREQ=x"), Err(RRuleParseError::UnknownKey));
    assert_eq!(parse("FREQ=x;FOO=1"), Err(RRuleParseError::BadValue(RuleKey::Freq)));
    assert_eq!(parse("INTERVAL=0;FOO"), Err(RRuleParseError::OutOfRange(RuleKey::Interval)));
    assert_eq!(parse("INTERVAL=0"), Err(RRuleParseError::OutOfRange(RuleKey::Interval)));
    assert_eq!(parse("BYMONTH=1,x,13;FREQ=DAILY"), Err(RRuleParseError::BadValue(RuleKey::ByMonth)));
    assert_eq!(parse("BYMONTH=1,13,x;FREQ=DAILY"), Err(RRuleParseError::OutOfRange(RuleKey::ByMonth)));
}

#[test]
fn parts_may_stand_in_any_order() {
    let one = parse("COUNT=3;BYDAY=SU,SA;INTERVAL=2;FREQ=WEEKLY").unwrap();
    let other = parse("FREQ=WEEKLY;INTERVAL=2;BYDAY=SU,SA;COUNT=3").unwrap();
    assert_eq!(one, other);
    assert_eq!(one.to_string(), "FREQ=WEEKLY;INTERVAL=2;BYDAY=SU,SA;COUNT=3");
}

#[test]
fn defaults_of_a_bare_rule() {
    let rule = parse("FREQ=DAILY").unwrap();
    assert_eq!(
        rule,
        RecurrenceRule {
            frequency: RecurrenceFreq::Daily,
            interval: 1,
            limit: RecurrenceLimit::Indefinite,
            by_month: None,
            by_week_no: None,
            by_year_day: None,
            by_month_day: None,
            by_day: None,
            by_set_pos: None,
        }
    );
    assert_eq!(rule.to_string(), "FREQ=DAILY");
    assert_eq!(rule.duplicate(), rule);
}

#[test]
fn leading_zeros_are_read_and_not_written() {
    let rule = parse("FREQ=DAILY;INTERVAL=007;COUNT=010").unwrap();
    assert_eq!(rule.interval, 7);
    assert_eq!(rule.limit, RecurrenceLimit::Count(10));
    assert_eq!(rule.to_string(), "FREQ=DAILY;INTERVAL=7;COUNT=10");
    let one = parse("FREQ=DAILY;INTERVAL=1").unwrap();
    assert_eq!(one.to_string(), "FREQ=DAILY");
    assert_eq!(parse(&one.to_string()).unwrap(), one);
}

#[test]
fn parts_are_written_in_a_fixed_order() {
    let rule = RecurrenceRule {
        frequency: RecurrenceFreq::Yearly,
        interval: 2,
        limit: RecurrenceLimit::Date(Date::from_ymd(987, 6, 5).unwrap()),
        by_month: Some(vec![Month::March, Month::November]),
        by_week_no: Some(vec![1, -1]),
        by_year_day: Some(vec![100, -100]),
        by_month_day: Some(vec![2, -2]),
        by_day: Some(vec![
            Weekday::Mon,
            Weekday::Tue,
            Weekday::Wed,
            Weekday::Thu,
            Weekday::Fri,
            Weekday::Sat,
            Weekday::Sun,
        ]),
        by_set_pos: Some(vec![3]),
    };
    let text = "FREQ=YEARLY;INTERVAL=2;BYYEARDAY=100,-100;BYDAY=MO,TU,WE,TH,FR,SA,SU;\
                BYWEEKNO=1,-1;BYMONTHDAY=2,-2;BYSETPOS=3;BYMONTH=3,11;UNTIL=09870605";
    assert_eq!(rule.to_string(), text);
    assert_eq!(parse(text).unwrap(), rule);
}

#[test]
fn every_frequency_is_read_and_written() {
    let cases = [
        ("DAILY", RecurrenceFreq::Daily),
        ("WEEKLY", RecurrenceFreq::Weekly),
        ("MONTHLY", RecurrenceFreq::Monthly),
        ("YEARLY", RecurrenceFreq::Yearly),
    ];
    for (word, frequency) in cases {
        assert_eq!(frequency.as_str(), word);
        assert_eq!(frequency.to_string(), word);
        let text = format!("FREQ={}", word);
        let rule = parse(&text).unwrap();
        assert_eq!(rule.frequency, frequency);
        assert_eq!(rule.to_string(), text);
    }
}

#[test]
fn end_dates_at_the_ends_of_the_calendar() {
    let first = parse("FREQ=DAILY;UNTIL=00000101").unwrap();
    assert_eq!(first.limit, RecurrenceLimit::Date(Date::from_ymd(0, 1, 1).unwrap()));
    assert_eq!(first.to_string(), "FREQ=DAILY;UNTIL=00000101");
    let last = parse("FREQ=DAILY;UNTIL=99991231").unwrap();
    assert_eq!(last.limit, RecurrenceLimit::Date(Date::from_ymd(9999, 12, 31).unwrap()));
    assert_eq!(last.to_string(), "FREQ=DAILY;UNTIL=99991231");
    let leap = parse("FREQ=DAILY;UNTIL=20200229").unwrap();
    assert_eq!(parse(&leap.to_string()).unwrap(), leap);
}

#[test]
fn rules_that_the_parser_gives_round_trip() {
    let texts = [
        "FREQ=DAILY",
        "FREQ=WEEKLY;BYDAY=MO",
        "FREQ=MONTHLY;INTERVAL=3;BYMONTHDAY=1,15;COUNT=10",
        "FREQ=YEARLY;BYMONTH=2;BYMONTHDAY=-1;UNTIL=20301231",
        "UNTIL=20200115;FREQ=WEEKLY",
        "BYSETPOS=-1;BYDAY=FR;FREQ=MONTHLY",
        "FREQ=YEARLY;BYWEEKNO=2,4,6;BYYEARDAY=1",
    ];
    for text in texts {
        let rule = parse(text).unwrap();
        let printed = rule.to_string();
        assert_eq!(parse(&printed).unwrap(), rule, "{}", text);
        assert_eq!(parse(&printed).unwrap().to_string(), printed);
    }
}

#[test]
fn rules_that_the_parser_never_gives() {
    let zero = RecurrenceRule { interval: 0, ..parse("FREQ=DAILY").unwrap() };
    assert_eq!(zero.to_string(), "FREQ=DAILY");
    let negative = RecurrenceRule { interval: -4, ..parse("FREQ=DAILY").unwrap() };
    assert_eq!(negative.to_string(), "FREQ=DAILY");
    let empty = RecurrenceRule { by_month: Some(vec![]), ..parse("FREQ=DAILY").unwrap() };
    assert_eq!(empty.to_string(), "FREQ=DAILY;BYMONTH=");
    assert_eq!(parse(&empty.to_string()), Err(RRuleParseError::BadValue(RuleKey::ByMonth)));
}

#[test]
fn eight_digits_write_year_month_and_day() {
    let mut out = String::from("UNTIL=");
    push_ymd(&mut out, 2020, 1, 15);
    assert_eq!(out, "UNTIL=20200115");
    let mut small = String::new();
    push_ymd(&mut small, 0, 1, 1);
    assert_eq!(small, "00000101");
    let mut long = String::new();
    push_ymd(&mut long, 123456, 789, 100);
    assert_eq!(long, "34568900");
    let read = |text: &str| read_ymd(&text.chars().collect());
    assert_eq!(read("20200115"), Some((2020, 1, 15)));
    assert_eq!(read("00000000"), Some((0, 0, 0)));
    assert_eq!(read("99999999"), Some((9999, 99, 99)));
    assert_eq!(read("2020011"), None);
    assert_eq!(read("202001150"), None);
    assert_eq!(read("2020-1-5"), None);
    assert_eq!(read(""), None);
}
