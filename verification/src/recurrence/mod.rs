//! Recurrence rules: the typed form of an RRULE and its canonical text.

use crate::date::civil_date;
use crate::date::civil_day_number;
use crate::date::in_date_range;
use crate::date::Date;
use crate::date::Month;
use crate::date::Weekday;
use crate::recurrence::parser::admits;
use crate::recurrence::parser::RuleKey;
use crate::text::digit_char;
use crate::text::integer_text;
use crate::text::join;
use crate::text::push_decimal;
use crate::text::push_integer;
use vstd::prelude::*;
use vstd::string::StringExecFns;

pub mod filters;
pub mod instance;
pub mod laws;
pub mod parser;
pub mod roundtrip;

verus! {

/// How often a rule recurs.
#[derive(Eq, PartialEq, Debug, Copy, Clone, Structural)]
pub enum RecurrenceFreq {
    Daily,
    Weekly,
    Monthly,
    Yearly,
}

impl RecurrenceFreq {
    /// The word that writes the frequency in an RRULE.
    pub open spec fn text(self) -> Seq<char> {
        match self {
            RecurrenceFreq::Daily => "DAILY"@,
            RecurrenceFreq::Weekly => "WEEKLY"@,
            RecurrenceFreq::Monthly => "MONTHLY"@,
            RecurrenceFreq::Yearly => "YEARLY"@,
        }
    }

    /// The word that writes the frequency in an RRULE.
    pub fn as_str(&self) -> (r: &'static str)
        ensures
            r@ == self.text(),
    {
        match self {
            RecurrenceFreq::Daily => "DAILY",
            RecurrenceFreq::Weekly => "WEEKLY",
            RecurrenceFreq::Monthly => "MONTHLY",
            RecurrenceFreq::Yearly => "YEARLY",
        }
    }

    /// The word that writes the frequency in an RRULE, as an owned string.
    pub fn to_string(&self) -> (r: String)
        ensures
            r@ == self.text(),
    {
        String::from_str(self.as_str())
    }
}

/// Where a rule's occurrences end.
#[derive(Eq, PartialEq, Debug, Copy, Clone, Structural)]
pub enum RecurrenceLimit {
    /// The rule never ends.
    Indefinite,
    /// No occurrence falls after this date.
    Date(Date),
    /// The rule has at most this many occurrences.
    Count(u32),
}

/// The mathematical value of a [`RecurrenceLimit`]: the end date as its day
/// number.
pub enum LimitView {
    Indefinite,
    Date(int),
    Count(u32),
}

impl View for RecurrenceLimit {
    type V = LimitView;

    open spec fn view(&self) -> LimitView {
        match self {
            RecurrenceLimit::Indefinite => LimitView::Indefinite,
            RecurrenceLimit::Date(date) => LimitView::Date(date@),
            RecurrenceLimit::Count(count) => LimitView::Count(*count),
        }
    }
}

/// An event's recurrence rule: the typed form of an RRULE. A filter that is
/// `None` is absent, which is not the same as a filter with an empty list.
#[derive(Debug, Eq, PartialEq, Clone)]
pub struct RecurrenceRule {
    pub frequency: RecurrenceFreq,
    pub interval: i32,
    pub limit: RecurrenceLimit,
    pub by_month: Option<Vec<Month>>,
    pub by_week_no: Option<Vec<i32>>,
    pub by_year_day: Option<Vec<i32>>,
    pub by_month_day: Option<Vec<i32>>,
    pub by_day: Option<Vec<Weekday>>,
    pub by_set_pos: Option<Vec<i32>>,
}

/// The mathematical value of a [`RecurrenceRule`].
pub struct RuleView {
    pub frequency: RecurrenceFreq,
    pub interval: i32,
    pub limit: LimitView,
    pub by_month: Option<Seq<Month>>,
    pub by_week_no: Option<Seq<i32>>,
    pub by_year_day: Option<Seq<i32>>,
    pub by_month_day: Option<Seq<i32>>,
    pub by_day: Option<Seq<Weekday>>,
    pub by_set_pos: Option<Seq<i32>>,
}

/// The items of an optional list.
pub open spec fn list_view<T>(list: Option<Vec<T>>) -> Option<Seq<T>> {
    match list {
        Some(items) => Some(items@),
        None => None,
    }
}

impl View for RecurrenceRule {
    type V = RuleView;

    open spec fn view(&self) -> RuleView {
        RuleView {
            frequency: self.frequency,
            interval: self.interval,
            limit: self.limit@,
            by_month: list_view(self.by_month),
            by_week_no: list_view(self.by_week_no),
            by_year_day: list_view(self.by_year_day),
            by_month_day: list_view(self.by_month_day),
            by_day: list_view(self.by_day),
            by_set_pos: list_view(self.by_set_pos),
        }
    }
}

/// Whether the date with this day number can be written as `YYYYMMDD` and
/// read back: its year has at most four digits, its month and day at most
/// two, and the calendar date leads back to the day number.
pub open spec fn date_round_trips(day_number: int) -> bool {
    let date = civil_date(day_number);
    &&& in_date_range(day_number)
    &&& 0 <= date.0 <= 9999
    &&& 0 <= date.1 <= 99
    &&& 0 <= date.2 <= 99
    &&& civil_day_number(date.0, date.1, date.2) == Some(day_number)
}

/// Whether a list of numbers is one that the parser gives for `key`: it is
/// not empty, and the key admits each number.
pub open spec fn listed(key: RuleKey, items: Option<Seq<i32>>) -> bool {
    items matches Some(list) ==> list.len() >= 1 && forall|i: int|
        0 <= i < list.len() ==> admits(key, #[trigger] list[i] as int)
}

/// Whether the numbers of a rule are such as the parser gives: the interval
/// and a count are at least 1, no list is empty, and each number of a list
/// lies in the range of its key.
pub open spec fn well_ranged(rule: RuleView) -> bool {
    &&& rule.interval >= 1
    &&& rule.limit matches LimitView::Count(count) ==> count >= 1
    &&& rule.by_month matches Some(months) ==> months.len() >= 1
    &&& listed(RuleKey::ByWeekNo, rule.by_week_no)
    &&& listed(RuleKey::ByYearDay, rule.by_year_day)
    &&& listed(RuleKey::ByMonthDay, rule.by_month_day)
    &&& rule.by_day matches Some(days) ==> days.len() >= 1
    &&& listed(RuleKey::BySetPos, rule.by_set_pos)
}

/// Whether a rule is one that the parser can give: its numbers are well
/// ranged, and its end date, if it has one, can be written and read back.
pub open spec fn producible(rule: RuleView) -> bool {
    &&& well_ranged(rule)
    &&& rule.limit matches LimitView::Date(until) ==> date_round_trips(until)
}

/// The two letters that write a weekday in an RRULE.
pub open spec fn weekday_code(day: Weekday) -> Seq<char> {
    match day {
        Weekday::Mon => "MO"@,
        Weekday::Tue => "TU"@,
        Weekday::Wed => "WE"@,
        Weekday::Thu => "TH"@,
        Weekday::Fri => "FR"@,
        Weekday::Sat => "SA"@,
        Weekday::Sun => "SU"@,
    }
}

/// The texts of a list of integers.
pub open spec fn integer_texts(items: Seq<i32>) -> Seq<Seq<char>> {
    items.map_values(|item: i32| integer_text(item as int))
}

/// The numbers of a list of months, as texts.
pub open spec fn month_texts(items: Seq<Month>) -> Seq<Seq<char>> {
    items.map_values(|item: Month| integer_text(item.number()))
}

/// The codes of a list of weekdays.
pub open spec fn weekday_texts(items: Seq<Weekday>) -> Seq<Seq<char>> {
    items.map_values(|item: Weekday| weekday_code(item))
}

/// The last `width` decimal digits of `n`, with leading zeros.
pub open spec fn fixed_digits(n: nat, width: nat) -> Seq<char>
    decreases width,
{
    if width == 0 {
        Seq::empty()
    } else {
        fixed_digits(n / 10, (width - 1) as nat).push(digit_char((n % 10) as int))
    }
}

/// The eight digits `YYYYMMDD` that write a year, a month and a day: the last
/// four digits of the year, and the last two of the month and of the day.
pub open spec fn ymd_text(year: nat, month: nat, day: nat) -> Seq<char> {
    fixed_digits(year, 4) + fixed_digits(month, 2) + fixed_digits(day, 2)
}

/// The eight digits `YYYYMMDD` of the date with the given day number.
pub open spec fn date_text(day_number: int) -> Seq<char> {
    let date = civil_date(day_number);
    ymd_text(date.0 as nat, date.1 as nat, date.2 as nat)
}

/// A part of a rule's text that is written only where its value is present.
pub open spec fn optional_part(key: Seq<char>, value: Option<Seq<char>>) -> Seq<Seq<char>> {
    match value {
        Some(text) => seq![key + text],
        None => Seq::empty(),
    }
}

/// The text of a list of integers, its items separated by commas, where the
/// list is present.
pub open spec fn integer_list_text(items: Option<Seq<i32>>) -> Option<Seq<char>> {
    match items {
        Some(list) => Some(join(integer_texts(list), ',')),
        None => None,
    }
}

/// The text of a list of months, where the list is present.
pub open spec fn month_list_text(items: Option<Seq<Month>>) -> Option<Seq<char>> {
    match items {
        Some(list) => Some(join(month_texts(list), ',')),
        None => None,
    }
}

/// The text of a list of weekdays, where the list is present.
pub open spec fn weekday_list_text(items: Option<Seq<Weekday>>) -> Option<Seq<char>> {
    match items {
        Some(list) => Some(join(weekday_texts(list), ',')),
        None => None,
    }
}

/// The value of the `INTERVAL` part: absent unless the interval is above 1.
pub open spec fn interval_value(interval: i32) -> Option<Seq<char>> {
    if interval > 1 {
        Some(integer_text(interval as int))
    } else {
        None
    }
}

/// The part that writes the limit: `UNTIL`, `COUNT`, or nothing.
pub open spec fn limit_part(limit: LimitView) -> Seq<Seq<char>> {
    match limit {
        LimitView::Indefinite => Seq::empty(),
        LimitView::Date(day_number) => seq!["UNTIL="@ + date_text(day_number)],
        LimitView::Count(count) => seq!["COUNT="@ + integer_text(count as int)],
    }
}

/// The `KEY=VALUE` parts of a rule's text, in the order in which they are
/// written.
pub open spec fn rule_parts(rule: RuleView) -> Seq<Seq<char>> {
    seq!["FREQ="@ + rule.frequency.text()] + optional_part(
        "INTERVAL="@,
        interval_value(rule.interval),
    ) + optional_part(
        "BYYEARDAY="@,
        integer_list_text(rule.by_year_day),
    ) + optional_part(
        "BYDAY="@,
        weekday_list_text(rule.by_day),
    ) + optional_part(
        "BYWEEKNO="@,
        integer_list_text(rule.by_week_no),
    ) + optional_part(
        "BYMONTHDAY="@,
        integer_list_text(rule.by_month_day),
    ) + optional_part(
        "BYSETPOS="@,
        integer_list_text(rule.by_set_pos),
    ) + optional_part(
        "BYMONTH="@,
        month_list_text(rule.by_month),
    ) + limit_part(rule.limit)
}

/// The canonical RRULE text of a rule: its parts, separated by semicolons.
pub open spec fn rule_text(rule: RuleView) -> Seq<char> {
    join(rule_parts(rule), ';')
}

/// Appends one more piece to a text that `join` wrote from at least one
/// piece.
proof fn lemma_join_push(pieces: Seq<Seq<char>>, piece: Seq<char>, sep: char)
    requires
        pieces.len() >= 1,
    ensures
        join(pieces.push(piece), sep) == join(pieces, sep) + seq![sep] + piece,
{
    assert(pieces.push(piece).drop_last() == pieces);
}

/// Appends the integers of a list, separated by commas.
fn push_integers(out: &mut String, items: &Vec<i32>)
    ensures
        final(out)@ == old(out)@ + join(integer_texts(items@), ','),
{
    let mut i: usize = 0;
    let ghost all = integer_texts(items@);
    proof {
        assert(join(all.take(0), ',') == Seq::<char>::empty());
    }
    while i < items.len()
        invariant
            i <= items.len(),
            all == integer_texts(items@),
            out@ == old(out)@ + join(all.take(i as int), ','),
        decreases items.len() - i,
    {
        proof {
            assert(all.take(i + 1) == all.take(i as int).push(all[i as int]));
            if i > 0 {
                lemma_join_push(all.take(i as int), all[i as int], ',');
            }
        }
        if i > 0 {
            out.push(',');
        }
        push_integer(out, items[i] as i64);
        i += 1;
    }
    proof {
        assert(all.take(i as int) == all);
    }
}

/// Appends the numbers of a list of months, separated by commas.
fn push_months(out: &mut String, items: &Vec<Month>)
    ensures
        final(out)@ == old(out)@ + join(month_texts(items@), ','),
{
    let mut i: usize = 0;
    let ghost all = month_texts(items@);
    proof {
        assert(join(all.take(0), ',') == Seq::<char>::empty());
    }
    while i < items.len()
        invariant
            i <= items.len(),
            all == month_texts(items@),
            out@ == old(out)@ + join(all.take(i as int), ','),
        decreases items.len() - i,
    {
        proof {
            assert(all.take(i + 1) == all.take(i as int).push(all[i as int]));
            if i > 0 {
                lemma_join_push(all.take(i as int), all[i as int], ',');
            }
        }
        if i > 0 {
            out.push(',');
        }
        push_integer(out, items[i].number_from_month() as i64);
        i += 1;
    }
    proof {
        assert(all.take(i as int) == all);
    }
}

/// The two letters that write a weekday in an RRULE.
pub fn weekday_str(day: Weekday) -> (r: &'static str)
    ensures
        r@ == weekday_code(day),
{
    match day {
        Weekday::Mon => "MO",
        Weekday::Tue => "TU",
        Weekday::Wed => "WE",
        Weekday::Thu => "TH",
        Weekday::Fri => "FR",
        Weekday::Sat => "SA",
        Weekday::Sun => "SU",
    }
}

/// Appends the codes of a list of weekdays, separated by commas.
fn push_weekdays(out: &mut String, items: &Vec<Weekday>)
    ensures
        final(out)@ == old(out)@ + join(weekday_texts(items@), ','),
{
    let mut i: usize = 0;
    let ghost all = weekday_texts(items@);
    proof {
        assert(join(all.take(0), ',') == Seq::<char>::empty());
    }
    while i < items.len()
        invariant
            i <= items.len(),
            all == weekday_texts(items@),
            out@ == old(out)@ + join(all.take(i as int), ','),
        decreases items.len() - i,
    {
        proof {
            assert(all.take(i + 1) == all.take(i as int).push(all[i as int]));
            if i > 0 {
                lemma_join_push(all.take(i as int), all[i as int], ',');
            }
        }
        if i > 0 {
            out.push(',');
        }
        out.append(weekday_str(items[i]));
        i += 1;
    }
    proof {
        assert(all.take(i as int) == all);
    }
}

/// Appends the last `width` decimal digits of `n`, with leading zeros.
fn push_fixed(out: &mut String, n: u32, width: u32)
    ensures
        final(out)@ == old(out)@ + fixed_digits(n as nat, width as nat),
    decreases width,
{
    if width > 0 {
        push_fixed(out, n / 10, width - 1);
        let digit: u64 = (n % 10) as u64;
        proof {
            assert(crate::text::decimal_digits(digit as nat) == seq![digit_char(digit as int)]);
        }
        push_decimal(out, digit);
    }
}

/// Appends the eight digits `YYYYMMDD` that write a year, a month and a day.
pub fn push_ymd(out: &mut String, year: u32, month: u32, day: u32)
    ensures
        final(out)@ == old(out)@ + ymd_text(year as nat, month as nat, day as nat),
{
    push_fixed(out, year, 4);
    push_fixed(out, month, 2);
    push_fixed(out, day, 2);
}

/// Appends the eight digits `YYYYMMDD` of a date.
fn push_date(out: &mut String, date: &Date)
    ensures
        final(out)@ == old(out)@ + date_text(date@),
{
    let (year, month, day) = date.ymd();
    push_ymd(out, year as u32, month, day);
}

/// Writes the integers of a list, separated by commas.
pub fn vec_to_str(vec: Vec<i32>) -> (r: String)
    ensures
        r@ == join(integer_texts(vec@), ','),
{
    let mut out = String::new();
    push_integers(&mut out, &vec);
    out
}

/// The characters of an optional string.
pub open spec fn text_view(text: Option<String>) -> Option<Seq<char>> {
    match text {
        Some(string) => Some(string@),
        None => None,
    }
}

/// The text of an optional list of integers.
fn integers_text(items: &Option<Vec<i32>>) -> (r: Option<String>)
    ensures
        text_view(r) == integer_list_text(list_view(*items)),
{
    match items {
        Some(list) => {
            let mut out = String::new();
            push_integers(&mut out, list);
            Some(out)
        },
        None => None,
    }
}

/// The text of an optional list of months.
fn months_text(items: &Option<Vec<Month>>) -> (r: Option<String>)
    ensures
        text_view(r) == month_list_text(list_view(*items)),
{
    match items {
        Some(list) => {
            let mut out = String::new();
            push_months(&mut out, list);
            Some(out)
        },
        None => None,
    }
}

/// The text of an optional list of weekdays.
fn weekdays_text(items: &Option<Vec<Weekday>>) -> (r: Option<String>)
    ensures
        text_view(r) == weekday_list_text(list_view(*items)),
{
    match items {
        Some(list) => {
            let mut out = String::new();
            push_weekdays(&mut out, list);
            Some(out)
        },
        None => None,
    }
}

/// The value of the `INTERVAL` part, where it is written.
fn interval_text(interval: i32) -> (r: Option<String>)
    ensures
        text_view(r) == interval_value(interval),
{
    if interval > 1 {
        let mut out = String::new();
        push_integer(&mut out, interval as i64);
        Some(out)
    } else {
        None
    }
}

/// Appends the part `key` with its value, after a semicolon, where the value
/// is present.
fn push_optional_part(
    out: &mut String,
    key: &str,
    value: &Option<String>,
    Ghost(parts): Ghost<Seq<Seq<char>>>,
)
    requires
        parts.len() >= 1,
        old(out)@ == join(parts, ';'),
    ensures
        final(out)@ == join(parts + optional_part(key@, text_view(*value)), ';'),
{
    match value {
        Some(text) => {
            out.push(';');
            out.append(key);
            out.append(text.as_str());
            proof {
                lemma_join_push(parts, key@ + text@, ';');
                assert(parts + seq![key@ + text@] == parts.push(key@ + text@));
            }
        },
        None => {
            assert(parts + Seq::<Seq<char>>::empty() == parts);
        },
    }
}

/// Appends the part that writes the limit, after a semicolon, where there is
/// a limit.
fn push_limit_part(out: &mut String, limit: &RecurrenceLimit, Ghost(parts): Ghost<Seq<Seq<char>>>)
    requires
        parts.len() >= 1,
        old(out)@ == join(parts, ';'),
    ensures
        final(out)@ == join(parts + limit_part(limit@), ';'),
{
    match limit {
        RecurrenceLimit::Indefinite => {
            assert(parts + Seq::<Seq<char>>::empty() == parts);
        },
        RecurrenceLimit::Date(date) => {
            out.push(';');
            out.append("UNTIL=");
            push_date(out, date);
            proof {
                let part = "UNTIL="@ + date_text(date@);
                lemma_join_push(parts, part, ';');
                assert(parts + seq![part] == parts.push(part));
            }
        },
        RecurrenceLimit::Count(count) => {
            out.push(';');
            out.append("COUNT=");
            push_integer(out, *count as i64);
            proof {
                let part = "COUNT="@ + integer_text(*count as int);
                lemma_join_push(parts, part, ';');
                assert(parts + seq![part] == parts.push(part));
            }
        },
    }
}

/// A copy of a list.
pub fn copy_list<T: Copy>(list: &Vec<T>) -> (r: Vec<T>)
    ensures
        r@ == list@,
{
    let mut out: Vec<T> = Vec::new();
    let mut i: usize = 0;
    while i < list.len()
        invariant
            i <= list.len(),
            out@ == list@.take(i as int),
        decreases list.len() - i,
    {
        out.push(list[i]);
        i += 1;
    }
    assert(list@.take(i as int) == list@);
    out
}

/// A copy of an optional list.
fn copy_filter<T: Copy>(list: &Option<Vec<T>>) -> (r: Option<Vec<T>>)
    ensures
        list_view(r) == list_view(*list),
{
    match list {
        Some(items) => Some(copy_list(items)),
        None => None,
    }
}

impl RecurrenceRule {
    /// A copy of the rule.
    pub fn duplicate(&self) -> (r: RecurrenceRule)
        ensures
            r@ == self@,
    {
        RecurrenceRule {
            frequency: self.frequency,
            interval: self.interval,
            limit: self.limit,
            by_month: copy_filter(&self.by_month),
            by_week_no: copy_filter(&self.by_week_no),
            by_year_day: copy_filter(&self.by_year_day),
            by_month_day: copy_filter(&self.by_month_day),
            by_day: copy_filter(&self.by_day),
            by_set_pos: copy_filter(&self.by_set_pos),
        }
    }

    /// Parses an RRULE string.
    pub fn new(rrule: &str) -> (r: Result<RecurrenceRule, parser::RRuleParseError>)
        ensures
            parser::agrees(r, parser::parse_spec(rrule@)),
            r matches Ok(rule) ==> producible(rule@),
    {
        parser::parse(rrule)
    }

    /// The canonical RRULE text of the rule. The parts stand in a fixed order:
    /// `FREQ`, `INTERVAL` (only above 1), `BYYEARDAY`, `BYDAY`, `BYWEEKNO`,
    /// `BYMONTHDAY`, `BYSETPOS`, `BYMONTH`, then `UNTIL` or `COUNT`.
    ///
    /// Parsing the text gives the rule back, where the rule is one that the
    /// parser can give.
    pub fn to_string(&self) -> (r: String)
        ensures
            r@ == rule_text(self@),
            producible(self@) ==> parser::parse_spec(r@) == Ok::<
                RuleView,
                parser::RRuleParseError,
            >(self@),
    {
        let ghost rule = self@;
        let mut out = String::from_str("FREQ=");
        out.append(self.frequency.as_str());
        let ghost parts0 = seq!["FREQ="@ + rule.frequency.text()];
        assert(out@ == join(parts0, ';'));

        let interval = interval_text(self.interval);
        push_optional_part(&mut out, "INTERVAL=", &interval, Ghost(parts0));
        let ghost parts1 = parts0 + optional_part("INTERVAL="@, interval_value(rule.interval));

        let by_year_day = integers_text(&self.by_year_day);
        push_optional_part(&mut out, "BYYEARDAY=", &by_year_day, Ghost(parts1));
        let ghost parts2 = parts1 + optional_part("BYYEARDAY="@, integer_list_text(rule.by_year_day));

        let by_day = weekdays_text(&self.by_day);
        push_optional_part(&mut out, "BYDAY=", &by_day, Ghost(parts2));
        let ghost parts3 = parts2 + optional_part("BYDAY="@, weekday_list_text(rule.by_day));

        let by_week_no = integers_text(&self.by_week_no);
        push_optional_part(&mut out, "BYWEEKNO=", &by_week_no, Ghost(parts3));
        let ghost parts4 = parts3 + optional_part("BYWEEKNO="@, integer_list_text(rule.by_week_no));

        let by_month_day = integers_text(&self.by_month_day);
        push_optional_part(&mut out, "BYMONTHDAY=", &by_month_day, Ghost(parts4));
        let ghost parts5 = parts4 + optional_part("BYMONTHDAY="@, integer_list_text(rule.by_month_day));

        let by_set_pos = integers_text(&self.by_set_pos);
        push_optional_part(&mut out, "BYSETPOS=", &by_set_pos, Ghost(parts5));
        let ghost parts6 = parts5 + optional_part("BYSETPOS="@, integer_list_text(rule.by_set_pos));

        let by_month = months_text(&self.by_month);
        push_optional_part(&mut out, "BYMONTH=", &by_month, Ghost(parts6));
        let ghost parts7 = parts6 + optional_part("BYMONTH="@, month_list_text(rule.by_month));

        push_limit_part(&mut out, &self.limit, Ghost(parts7));
        proof {
            if producible(rule) {
                roundtrip::lemma_parse_print(rule);
            }
        }
        out
    }
}

} // verus!
