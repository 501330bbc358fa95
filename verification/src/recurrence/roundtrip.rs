//! The round trip of a rule through its text: parsing what the printer wrote
//! gives the rule back.

use crate::date::civil_date;
use crate::date::Month;
use crate::date::Weekday;
use crate::recurrence::date_text;
use crate::recurrence::fixed_digits;
use crate::recurrence::integer_list_text;
use crate::recurrence::integer_texts;
use crate::recurrence::interval_value;
use crate::recurrence::limit_part;
use crate::recurrence::month_list_text;
use crate::recurrence::month_texts;
use crate::recurrence::date_round_trips;
use crate::recurrence::listed;
use crate::recurrence::optional_part;
use crate::recurrence::producible;
use crate::recurrence::well_ranged;
use crate::recurrence::parser::admits;
use crate::recurrence::parser::date_of;
use crate::recurrence::parser::freq_of;
use crate::recurrence::parser::key_of;
use crate::date::month_numbered;
use crate::recurrence::parser::months_numbered;
use crate::recurrence::parser::number_of;
use crate::recurrence::parser::numbers_of;
use crate::recurrence::parser::parse_spec;
use crate::recurrence::parser::part_name;
use crate::recurrence::parser::part_value;
use crate::recurrence::parser::read_parts;
use crate::recurrence::parser::weekday_of;
use crate::recurrence::parser::weekdays_of;
use crate::recurrence::parser::DraftView;
use crate::recurrence::parser::RRuleParseError;
use crate::recurrence::parser::RuleKey;
use crate::recurrence::rule_parts;
use crate::recurrence::rule_text;
use crate::recurrence::weekday_code;
use crate::recurrence::weekday_list_text;
use crate::recurrence::weekday_texts;
use crate::recurrence::LimitView;
use crate::recurrence::RecurrenceFreq;
use crate::recurrence::RuleView;
use crate::text::all_digits;
use crate::text::decimal_value;
use crate::text::free_of;
use crate::text::integer_text;
use crate::text::is_digit;
use crate::text::join;
use crate::text::lemma_index_of;
use crate::text::lemma_integer_text;
use crate::text::lemma_split_join;
use crate::text::power_of_ten;
use crate::text::split;
use vstd::prelude::*;

verus! {

/// Whether none of the pieces holds the character.
pub open spec fn pieces_free(pieces: Seq<Seq<char>>, c: char) -> bool {
    forall|k: int| 0 <= k < pieces.len() ==> free_of(#[trigger] pieces[k], c)
}

/// Whether a text is made of capital letters.
pub open spec fn is_word(text: Seq<char>) -> bool {
    forall|i: int| 0 <= i < text.len() ==> 'A' <= #[trigger] text[i] <= 'Z'
}

/// Joining pieces with commas brings in no semicolon.
proof fn lemma_join_free(pieces: Seq<Seq<char>>)
    requires
        pieces_free(pieces, ';'),
    ensures
        free_of(join(pieces, ','), ';'),
    decreases pieces.len(),
{
    if pieces.len() == 1 {
        assert(free_of(pieces[0], ';'));
    } else if pieces.len() > 1 {
        assert(pieces_free(pieces.drop_last(), ';')) by {
            assert forall|k: int| 0 <= k < pieces.drop_last().len() implies free_of(
                #[trigger] pieces.drop_last()[k],
                ';',
            ) by {
                assert(pieces.drop_last()[k] == pieces[k]);
            }
        }
        lemma_join_free(pieces.drop_last());
        assert(free_of(pieces.last(), ';'));
    }
}

/// The names of the keys are read as their keys, and none holds `=` or `;`.
proof fn lemma_key_names()
    ensures
        key_of("FREQ"@) == Some(RuleKey::Freq),
        key_of("INTERVAL"@) == Some(RuleKey::Interval),
        key_of("COUNT"@) == Some(RuleKey::Count),
        key_of("UNTIL"@) == Some(RuleKey::Until),
        key_of("BYMONTH"@) == Some(RuleKey::ByMonth),
        key_of("BYWEEKNO"@) == Some(RuleKey::ByWeekNo),
        key_of("BYYEARDAY"@) == Some(RuleKey::ByYearDay),
        key_of("BYMONTHDAY"@) == Some(RuleKey::ByMonthDay),
        key_of("BYDAY"@) == Some(RuleKey::ByDay),
        key_of("BYSETPOS"@) == Some(RuleKey::BySetPos),
        is_word("FREQ"@),
        is_word("INTERVAL"@),
        is_word("COUNT"@),
        is_word("UNTIL"@),
        is_word("BYMONTH"@),
        is_word("BYWEEKNO"@),
        is_word("BYYEARDAY"@),
        is_word("BYMONTHDAY"@),
        is_word("BYDAY"@),
        is_word("BYSETPOS"@),
        "FREQ="@ == "FREQ"@.push('='),
        "INTERVAL="@ == "INTERVAL"@.push('='),
        "COUNT="@ == "COUNT"@.push('='),
        "UNTIL="@ == "UNTIL"@.push('='),
        "BYMONTH="@ == "BYMONTH"@.push('='),
        "BYWEEKNO="@ == "BYWEEKNO"@.push('='),
        "BYYEARDAY="@ == "BYYEARDAY"@.push('='),
        "BYMONTHDAY="@ == "BYMONTHDAY"@.push('='),
        "BYDAY="@ == "BYDAY"@.push('='),
        "BYSETPOS="@ == "BYSETPOS"@.push('='),
{
    reveal_strlit("FREQ");
    reveal_strlit("INTERVAL");
    reveal_strlit("COUNT");
    reveal_strlit("UNTIL");
    reveal_strlit("BYMONTH");
    reveal_strlit("BYWEEKNO");
    reveal_strlit("BYYEARDAY");
    reveal_strlit("BYMONTHDAY");
    reveal_strlit("BYDAY");
    reveal_strlit("BYSETPOS");
    reveal_strlit("FREQ=");
    reveal_strlit("INTERVAL=");
    reveal_strlit("COUNT=");
    reveal_strlit("UNTIL=");
    reveal_strlit("BYMONTH=");
    reveal_strlit("BYWEEKNO=");
    reveal_strlit("BYYEARDAY=");
    reveal_strlit("BYMONTHDAY=");
    reveal_strlit("BYDAY=");
    reveal_strlit("BYSETPOS=");
    assert("FREQ"@[0] == 'F');
    assert("INTERVAL"@[0] == 'I');
    assert("COUNT"@[0] == 'C');
    assert("UNTIL"@[0] == 'U');
    assert("BYMONTH"@[2] == 'M');
    assert("BYWEEKNO"@[2] == 'W');
    assert("BYYEARDAY"@[2] == 'Y');
    assert("BYMONTHDAY"@.len() == 10);
    assert("BYMONTH"@.len() == 7);
    assert("BYWEEKNO"@.len() == 8);
    assert("BYYEARDAY"@.len() == 9);
    assert("INTERVAL"@.len() == 8);
    assert("BYDAY"@[2] == 'D');
    assert("BYSETPOS"@[2] == 'S');
}

/// A part made of a name, `=` and a value is cut into that name and that
/// value.
proof fn lemma_part_cut(name: Seq<char>, value: Seq<char>)
    requires
        is_word(name),
    ensures
        part_name(name.push('=') + value) == name,
        part_value(name.push('=') + value) == value,
{
    let part = name.push('=') + value;
    assert forall|i: int| 0 <= i < part.take(name.len() as int).len() implies #[trigger] part.take(
        name.len() as int,
    )[i] != '=' by {
        assert(part[i] == name[i]);
    }
    assert(part[name.len() as int] == '=');
    lemma_index_of(part, '=', name.len() as int);
    assert(part.take(name.len() as int) == name);
    assert(part.skip(name.len() as int + 1) == value);
}

/// Reading one more part, which is written only where its value is present,
/// after parts that were read without error.
proof fn lemma_read_more(
    parts: Seq<Seq<char>>,
    draft: DraftView,
    name: Seq<char>,
    key: RuleKey,
    value: Option<Seq<char>>,
    next: DraftView,
)
    requires
        read_parts(parts) == Ok::<DraftView, RRuleParseError>(draft),
        pieces_free(parts, ';'),
        is_word(name),
        key_of(name) == Some(key),
        value matches Some(text) ==> {
            &&& free_of(text, ';')
            &&& !draft.has(key)
            &&& !draft.conflicts(key)
            &&& draft.with_value(key, text) == Ok::<DraftView, RRuleParseError>(next)
        },
        value is None ==> next == draft,
    ensures
        read_parts(parts + optional_part(name.push('='), value)) == Ok::<
            DraftView,
            RRuleParseError,
        >(next),
        pieces_free(parts + optional_part(name.push('='), value), ';'),
{
    match value {
        None => {
            assert(parts + optional_part(name.push('='), value) == parts);
        },
        Some(text) => {
            let part = name.push('=') + text;
            let more = parts + optional_part(name.push('='), value);
            assert(more == parts.push(part));
            assert(more.drop_last() == parts);
            assert(more.last() == part);
            lemma_part_cut(name, text);
            assert forall|k: int| 0 <= k < more.len() implies free_of(#[trigger] more[k], ';') by {
                if k < parts.len() {
                    assert(more[k] == parts[k]);
                } else {
                    assert forall|i: int| 0 <= i < part.len() implies #[trigger] part[i]
                        != ';' by {
                        if i < name.len() {
                            assert(part[i] == name[i]);
                        } else if i > name.len() {
                            assert(part[i] == text[i - name.len() - 1]);
                        }
                    }
                }
            }
        },
    }
}

/// The word of a frequency is read as that frequency.
proof fn lemma_freq_text(frequency: RecurrenceFreq)
    ensures
        freq_of(frequency.text()) == Some(frequency),
        free_of(frequency.text(), ';'),
{
    reveal_strlit("DAILY");
    reveal_strlit("WEEKLY");
    reveal_strlit("MONTHLY");
    reveal_strlit("YEARLY");
    assert("DAILY"@.len() == 5);
    assert("WEEKLY"@.len() == 6);
    assert("MONTHLY"@.len() == 7);
    assert("YEARLY"@[0] == 'Y');
    assert("WEEKLY"@[0] == 'W');
}

/// The code of a weekday is read as that weekday, and holds neither a comma
/// nor a semicolon.
proof fn lemma_weekday_code(day: Weekday)
    ensures
        weekday_of(weekday_code(day)) == Some(day),
        free_of(weekday_code(day), ','),
        free_of(weekday_code(day), ';'),
{
    reveal_strlit("MO");
    reveal_strlit("TU");
    reveal_strlit("WE");
    reveal_strlit("TH");
    reveal_strlit("FR");
    reveal_strlit("SA");
    reveal_strlit("SU");
    assert("MO"@.len() == 2 && "MO"@[0] == 'M' && "MO"@[1] == 'O');
    assert("TU"@.len() == 2 && "TU"@[0] == 'T' && "TU"@[1] == 'U');
    assert("WE"@.len() == 2 && "WE"@[0] == 'W' && "WE"@[1] == 'E');
    assert("TH"@.len() == 2 && "TH"@[0] == 'T' && "TH"@[1] == 'H');
    assert("FR"@.len() == 2 && "FR"@[0] == 'F' && "FR"@[1] == 'R');
    assert("SA"@.len() == 2 && "SA"@[0] == 'S' && "SA"@[1] == 'A');
    assert("SU"@.len() == 2 && "SU"@[0] == 'S' && "SU"@[1] == 'U');
}

/// The text of a number that a key admits is read as that number, and holds
/// neither a comma nor a semicolon.
proof fn lemma_number_text(key: RuleKey, number: int)
    requires
        admits(key, number),
    ensures
        number_of(key, integer_text(number)) == Ok::<int, RRuleParseError>(number),
        free_of(integer_text(number), ','),
        free_of(integer_text(number), ';'),
{
    lemma_integer_text(number);
}

/// The texts of numbers that a key admits are read as those numbers.
proof fn lemma_numbers_texts(key: RuleKey, list: Seq<i32>)
    requires
        forall|i: int| 0 <= i < list.len() ==> admits(key, #[trigger] list[i] as int),
    ensures
        numbers_of(key, integer_texts(list)) == Ok::<Seq<i32>, RRuleParseError>(list),
        pieces_free(integer_texts(list), ','),
        pieces_free(integer_texts(list), ';'),
    decreases list.len(),
{
    let texts = integer_texts(list);
    if list.len() > 0 {
        lemma_numbers_texts(key, list.drop_last());
        assert(texts.drop_last() == integer_texts(list.drop_last()));
        assert(texts.last() == integer_text(list.last() as int));
        assert(admits(key, list.last() as int));
        lemma_number_text(key, list.last() as int);
        assert(list.drop_last().push(list.last()) == list);
        assert(numbers_of(key, texts.drop_last()) == Ok::<Seq<i32>, RRuleParseError>(
            list.drop_last(),
        ));
    } else {
        assert(list == Seq::<i32>::empty());
    }
    assert forall|k: int| 0 <= k < texts.len() implies free_of(#[trigger] texts[k], ',')
        && free_of(texts[k], ';') by {
        assert(admits(key, list[k] as int));
        lemma_number_text(key, list[k] as int);
    }
}

/// The text of a list of numbers that a key admits is read as that list.
proof fn lemma_number_list(key: RuleKey, list: Seq<i32>)
    requires
        listed(key, Some(list)),
    ensures
        numbers_of(key, split(join(integer_texts(list), ','), ',')) == Ok::<
            Seq<i32>,
            RRuleParseError,
        >(list),
        free_of(join(integer_texts(list), ','), ';'),
{
    lemma_numbers_texts(key, list);
    lemma_split_join(integer_texts(list), ',');
    lemma_join_free(integer_texts(list));
}

/// The numbers of a list of months.
pub open spec fn month_numbers(months: Seq<Month>) -> Seq<i32> {
    months.map_values(|month: Month| month.number() as i32)
}

/// The text of a list of months is read as that list.
proof fn lemma_month_list(months: Seq<Month>)
    requires
        months.len() >= 1,
    ensures
        numbers_of(RuleKey::ByMonth, split(join(month_texts(months), ','), ',')) == Ok::<
            Seq<i32>,
            RRuleParseError,
        >(month_numbers(months)),
        months_numbered(month_numbers(months)) == months,
        free_of(join(month_texts(months), ','), ';'),
{
    let numbers = month_numbers(months);
    assert(month_texts(months) == integer_texts(numbers));
    assert forall|i: int| 0 <= i < numbers.len() implies admits(
        RuleKey::ByMonth,
        #[trigger] numbers[i] as int,
    ) by {
        assert(1 <= months[i].number() <= 12);
    }
    lemma_number_list(RuleKey::ByMonth, numbers);
    assert forall|i: int| 0 <= i < months.len() implies months_numbered(numbers)[i]
        == months[i] by {
        assert(month_numbered(months[i].number()) == months[i]);
    }
    assert(months_numbered(numbers) == months);
}

/// The codes of weekdays are read as those weekdays.
proof fn lemma_weekday_texts(days: Seq<Weekday>)
    ensures
        weekdays_of(weekday_texts(days)) == Ok::<Seq<Weekday>, RRuleParseError>(days),
        pieces_free(weekday_texts(days), ','),
        pieces_free(weekday_texts(days), ';'),
    decreases days.len(),
{
    let texts = weekday_texts(days);
    if days.len() > 0 {
        lemma_weekday_texts(days.drop_last());
        assert(texts.drop_last() == weekday_texts(days.drop_last()));
        assert(texts.last() == weekday_code(days.last()));
        lemma_weekday_code(days.last());
        assert(days.drop_last().push(days.last()) == days);
        assert(weekdays_of(texts.drop_last()) == Ok::<Seq<Weekday>, RRuleParseError>(
            days.drop_last(),
        ));
    } else {
        assert(days == Seq::<Weekday>::empty());
    }
    assert forall|k: int| 0 <= k < texts.len() implies free_of(#[trigger] texts[k], ',')
        && free_of(texts[k], ';') by {
        lemma_weekday_code(days[k]);
    }
}

/// The text of a list of weekdays is read as that list.
proof fn lemma_weekday_list(days: Seq<Weekday>)
    requires
        days.len() >= 1,
    ensures
        weekdays_of(split(join(weekday_texts(days), ','), ',')) == Ok::<
            Seq<Weekday>,
            RRuleParseError,
        >(days),
        free_of(join(weekday_texts(days), ','), ';'),
{
    lemma_weekday_texts(days);
    lemma_split_join(weekday_texts(days), ',');
    lemma_join_free(weekday_texts(days));
}

/// The digits of a number below ten to the power of the width are as many
/// digits as the width, and write the number.
proof fn lemma_fixed_digits(n: nat, width: nat)
    requires
        n < power_of_ten(width),
    ensures
        fixed_digits(n, width).len() == width,
        all_digits(fixed_digits(n, width)),
        decimal_value(fixed_digits(n, width)) == n,
    decreases width,
{
    if width > 0 {
        let shorter = fixed_digits(n / 10, (width - 1) as nat);
        lemma_fixed_digits(n / 10, (width - 1) as nat);
        let digits = fixed_digits(n, width);
        assert(digits.drop_last() == shorter);
        assert forall|i: int| 0 <= i < digits.len() implies is_digit(#[trigger] digits[i]) by {
            if i < digits.len() - 1 {
                assert(digits[i] == shorter[i]);
            }
        }
    }
}

/// The eight digits of a date that can be written and read back are read as
/// that date.
proof fn lemma_date_text(day_number: int)
    requires
        date_round_trips(day_number),
    ensures
        date_of(date_text(day_number)) == Some(day_number),
        free_of(date_text(day_number), ';'),
{
    let date = civil_date(day_number);
    let year = fixed_digits(date.0 as nat, 4);
    let month = fixed_digits(date.1 as nat, 2);
    let day = fixed_digits(date.2 as nat, 2);
    assert(power_of_ten(4) == 10000 && power_of_ten(2) == 100) by {
        reveal_with_fuel(power_of_ten, 5);
    }
    lemma_fixed_digits(date.0 as nat, 4);
    lemma_fixed_digits(date.1 as nat, 2);
    lemma_fixed_digits(date.2 as nat, 2);
    let text = date_text(day_number);
    assert(text == year + month + day);
    assert(text.subrange(0, 4) == year);
    assert(text.subrange(4, 6) == month);
    assert(text.subrange(6, 8) == day);
    assert forall|i: int| 0 <= i < text.len() implies is_digit(#[trigger] text[i]) by {
        if i < 4 {
            assert(text[i] == year[i]);
        } else if i < 6 {
            assert(text[i] == month[i - 4]);
        } else {
            assert(text[i] == day[i - 6]);
        }
    }
}

/// The draft that reading the parts of a rule's text gives, before the part
/// of the limit.
pub open spec fn draft_of_filters(rule: RuleView) -> DraftView {
    DraftView {
        frequency: Some(rule.frequency),
        interval: if rule.interval > 1 {
            Some(rule.interval)
        } else {
            None
        },
        count: None,
        until: None,
        by_month: rule.by_month,
        by_week_no: rule.by_week_no,
        by_year_day: rule.by_year_day,
        by_month_day: rule.by_month_day,
        by_day: rule.by_day,
        by_set_pos: rule.by_set_pos,
    }
}

/// The parts of a rule's text before the part of the limit.
pub open spec fn filter_parts(rule: RuleView) -> Seq<Seq<char>> {
    seq!["FREQ="@ + rule.frequency.text()] + optional_part(
        "INTERVAL="@,
        interval_value(rule.interval),
    ) + optional_part("BYYEARDAY="@, integer_list_text(rule.by_year_day)) + optional_part(
        "BYDAY="@,
        weekday_list_text(rule.by_day),
    ) + optional_part("BYWEEKNO="@, integer_list_text(rule.by_week_no)) + optional_part(
        "BYMONTHDAY="@,
        integer_list_text(rule.by_month_day),
    ) + optional_part("BYSETPOS="@, integer_list_text(rule.by_set_pos)) + optional_part(
        "BYMONTH="@,
        month_list_text(rule.by_month),
    )
}

/// Reading a part that holds a list of numbers.
proof fn lemma_read_numbers(
    parts: Seq<Seq<char>>,
    draft: DraftView,
    name: Seq<char>,
    key: RuleKey,
    list: Option<Seq<i32>>,
    next: DraftView,
)
    requires
        read_parts(parts) == Ok::<DraftView, RRuleParseError>(draft),
        pieces_free(parts, ';'),
        is_word(name),
        key_of(name) == Some(key),
        key == RuleKey::ByWeekNo || key == RuleKey::ByYearDay || key == RuleKey::ByMonthDay || key
            == RuleKey::BySetPos,
        listed(key, list),
        !draft.has(key),
        list is None ==> next == draft,
        list matches Some(numbers) ==> next == match key {
            RuleKey::ByWeekNo => DraftView { by_week_no: Some(numbers), ..draft },
            RuleKey::ByYearDay => DraftView { by_year_day: Some(numbers), ..draft },
            RuleKey::ByMonthDay => DraftView { by_month_day: Some(numbers), ..draft },
            _ => DraftView { by_set_pos: Some(numbers), ..draft },
        },
    ensures
        read_parts(parts + optional_part(name.push('='), integer_list_text(list))) == Ok::<
            DraftView,
            RRuleParseError,
        >(next),
        pieces_free(parts + optional_part(name.push('='), integer_list_text(list)), ';'),
{
    if let Some(numbers) = list {
        lemma_number_list(key, numbers);
    }
    lemma_read_more(parts, draft, name, key, integer_list_text(list), next);
}

/// Reading the parts of a rule's text that stand before the limit.
proof fn lemma_read_filters(rule: RuleView)
    requires
        well_ranged(rule),
    ensures
        read_parts(filter_parts(rule)) == Ok::<DraftView, RRuleParseError>(draft_of_filters(rule)),
        pieces_free(filter_parts(rule), ';'),
        filter_parts(rule).len() >= 1,
{
    lemma_key_names();
    let none = Seq::<Seq<char>>::empty();
    let e = DraftView::empty();

    let draft0 = DraftView { frequency: Some(rule.frequency), ..e };
    lemma_freq_text(rule.frequency);
    lemma_read_more(none, e, "FREQ"@, RuleKey::Freq, Some(rule.frequency.text()), draft0);
    let parts0 = seq!["FREQ="@ + rule.frequency.text()];
    assert(none + optional_part("FREQ"@.push('='), Some(rule.frequency.text())) == parts0);

    let draft1 = DraftView { interval: draft_of_filters(rule).interval, ..draft0 };
    if rule.interval > 1 {
        lemma_number_text(RuleKey::Interval, rule.interval as int);
    }
    lemma_read_more(parts0, draft0, "INTERVAL"@, RuleKey::Interval, interval_value(rule.interval), draft1);
    let parts1 = parts0 + optional_part("INTERVAL="@, interval_value(rule.interval));

    let draft2 = DraftView { by_year_day: rule.by_year_day, ..draft1 };
    lemma_read_numbers(parts1, draft1, "BYYEARDAY"@, RuleKey::ByYearDay, rule.by_year_day, draft2);
    let parts2 = parts1 + optional_part("BYYEARDAY="@, integer_list_text(rule.by_year_day));

    let draft3 = DraftView { by_day: rule.by_day, ..draft2 };
    if let Some(days) = rule.by_day {
        lemma_weekday_list(days);
    }
    lemma_read_more(parts2, draft2, "BYDAY"@, RuleKey::ByDay, weekday_list_text(rule.by_day), draft3);
    let parts3 = parts2 + optional_part("BYDAY="@, weekday_list_text(rule.by_day));

    let draft4 = DraftView { by_week_no: rule.by_week_no, ..draft3 };
    lemma_read_numbers(parts3, draft3, "BYWEEKNO"@, RuleKey::ByWeekNo, rule.by_week_no, draft4);
    let parts4 = parts3 + optional_part("BYWEEKNO="@, integer_list_text(rule.by_week_no));

    let draft5 = DraftView { by_month_day: rule.by_month_day, ..draft4 };
    lemma_read_numbers(parts4, draft4, "BYMONTHDAY"@, RuleKey::ByMonthDay, rule.by_month_day, draft5);
    let parts5 = parts4 + optional_part("BYMONTHDAY="@, integer_list_text(rule.by_month_day));

    let draft6 = DraftView { by_set_pos: rule.by_set_pos, ..draft5 };
    lemma_read_numbers(parts5, draft5, "BYSETPOS"@, RuleKey::BySetPos, rule.by_set_pos, draft6);
    let parts6 = parts5 + optional_part("BYSETPOS="@, integer_list_text(rule.by_set_pos));

    let draft7 = DraftView { by_month: rule.by_month, ..draft6 };
    if let Some(months) = rule.by_month {
        lemma_month_list(months);
    }
    lemma_read_more(parts6, draft6, "BYMONTH"@, RuleKey::ByMonth, month_list_text(rule.by_month), draft7);
    let parts7 = parts6 + optional_part("BYMONTH="@, month_list_text(rule.by_month));

    assert(parts7 == filter_parts(rule));
    assert(draft7 == draft_of_filters(rule));
}

/// Parsing the text of a rule gives the rule back, for every rule that the
/// parser can give.
pub proof fn lemma_parse_print(rule: RuleView)
    requires
        producible(rule),
    ensures
        parse_spec(rule_text(rule)) == Ok::<RuleView, RRuleParseError>(rule),
{
    lemma_key_names();
    lemma_read_filters(rule);
    let parts = filter_parts(rule);
    let draft = draft_of_filters(rule);
    assert(rule_parts(rule) == parts + limit_part(rule.limit));
    let last = match rule.limit {
        LimitView::Indefinite => draft,
        LimitView::Date(until) => DraftView { until: Some(until), ..draft },
        LimitView::Count(count) => DraftView { count: Some(count), ..draft },
    };
    match rule.limit {
        LimitView::Indefinite => {
            assert(parts + limit_part(rule.limit) == parts);
        },
        LimitView::Date(until) => {
            lemma_date_text(until);
            lemma_read_more(parts, draft, "UNTIL"@, RuleKey::Until, Some(date_text(until)), last);
            assert(optional_part("UNTIL"@.push('='), Some(date_text(until))) == limit_part(
                rule.limit,
            ));
        },
        LimitView::Count(count) => {
            lemma_number_text(RuleKey::Count, count as int);
            lemma_read_more(
                parts,
                draft,
                "COUNT"@,
                RuleKey::Count,
                Some(integer_text(count as int)),
                last,
            );
            assert(optional_part("COUNT"@.push('='), Some(integer_text(count as int)))
                == limit_part(rule.limit));
        },
    }
    assert(read_parts(rule_parts(rule)) == Ok::<DraftView, RRuleParseError>(last));
    lemma_split_join(rule_parts(rule), ';');
    assert(last.finish() == Ok::<RuleView, RRuleParseError>(rule));
}

} // verus!
