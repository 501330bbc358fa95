//! The RRULE parser: from text to a typed rule, with strict validation.
//!
//! An RRULE is a list of `KEY=VALUE` parts separated by semicolons. The parts
//! may stand in any order. They are read from left to right, and the first
//! part that is wrong decides the error.

use crate::date::civil_day_number;
use crate::date::in_date_range;
use crate::date::month_numbered;
use crate::date::Date;
use crate::date::Month;
use crate::date::Weekday;
use crate::recurrence::date_round_trips;
use crate::recurrence::list_view;
use crate::recurrence::listed;
use crate::recurrence::producible;
use crate::recurrence::LimitView;
use crate::recurrence::RecurrenceFreq;
use crate::recurrence::RecurrenceLimit;
use crate::recurrence::RecurrenceRule;
use crate::recurrence::RuleView;
use crate::text::all_digits;
use crate::text::chars_of;
use crate::text::decimal_value;
use crate::text::find_char;
use crate::text::index_of;
use crate::text::integer_value;
use crate::text::read_integer;
use crate::text::same_text;
use crate::text::slice_of;
use crate::text::split;
use crate::text::split_text;
use crate::text::texts;
use vstd::prelude::*;

verus! {

/// The keys that a part of an RRULE can have.
#[derive(Clone, Copy, Debug, PartialEq, Eq, Structural)]
pub enum RuleKey {
    Freq,
    Interval,
    Count,
    Until,
    ByMonth,
    ByWeekNo,
    ByYearDay,
    ByMonthDay,
    ByDay,
    BySetPos,
}

/// Why a text is no RRULE.
#[derive(Clone, Copy, Debug, PartialEq, Eq, Structural)]
pub enum RRuleParseError {
    /// A part has a key that the grammar does not know.
    UnknownKey,
    /// No part gives the frequency.
    MissingFreq,
    /// A key stands in two parts.
    DuplicateKey,
    /// The value of this key is no number, date, frequency or weekday code.
    BadValue(RuleKey),
    /// The value of this key is a number outside the range of the key.
    OutOfRange(RuleKey),
    /// Both `COUNT` and `UNTIL` are given.
    ConflictingLimit,
}

/// The key that a name writes.
pub open spec fn key_of(name: Seq<char>) -> Option<RuleKey> {
    if name == "FREQ"@ {
        Some(RuleKey::Freq)
    } else if name == "INTERVAL"@ {
        Some(RuleKey::Interval)
    } else if name == "COUNT"@ {
        Some(RuleKey::Count)
    } else if name == "UNTIL"@ {
        Some(RuleKey::Until)
    } else if name == "BYMONTH"@ {
        Some(RuleKey::ByMonth)
    } else if name == "BYWEEKNO"@ {
        Some(RuleKey::ByWeekNo)
    } else if name == "BYYEARDAY"@ {
        Some(RuleKey::ByYearDay)
    } else if name == "BYMONTHDAY"@ {
        Some(RuleKey::ByMonthDay)
    } else if name == "BYDAY"@ {
        Some(RuleKey::ByDay)
    } else if name == "BYSETPOS"@ {
        Some(RuleKey::BySetPos)
    } else {
        None
    }
}

/// The frequency that a word writes.
pub open spec fn freq_of(word: Seq<char>) -> Option<RecurrenceFreq> {
    if word == "DAILY"@ {
        Some(RecurrenceFreq::Daily)
    } else if word == "WEEKLY"@ {
        Some(RecurrenceFreq::Weekly)
    } else if word == "MONTHLY"@ {
        Some(RecurrenceFreq::Monthly)
    } else if word == "YEARLY"@ {
        Some(RecurrenceFreq::Yearly)
    } else {
        None
    }
}

/// The weekday that a two-letter code writes.
pub open spec fn weekday_of(code: Seq<char>) -> Option<Weekday> {
    if code == "MO"@ {
        Some(Weekday::Mon)
    } else if code == "TU"@ {
        Some(Weekday::Tue)
    } else if code == "WE"@ {
        Some(Weekday::Wed)
    } else if code == "TH"@ {
        Some(Weekday::Thu)
    } else if code == "FR"@ {
        Some(Weekday::Fri)
    } else if code == "SA"@ {
        Some(Weekday::Sat)
    } else if code == "SU"@ {
        Some(Weekday::Sun)
    } else {
        None
    }
}

/// The least number that a key admits, for the keys whose value is a number
/// or a list of numbers.
pub open spec fn least_of(key: RuleKey) -> int {
    match key {
        RuleKey::ByWeekNo => -53,
        RuleKey::ByYearDay => -366,
        RuleKey::ByMonthDay => -31,
        RuleKey::BySetPos => i32::MIN as int,
        _ => 1,
    }
}

/// The greatest number that a key admits.
pub open spec fn greatest_of(key: RuleKey) -> int {
    match key {
        RuleKey::ByMonth => 12,
        RuleKey::ByWeekNo => 53,
        RuleKey::ByYearDay => 366,
        RuleKey::ByMonthDay => 31,
        RuleKey::Count => u32::MAX as int,
        _ => i32::MAX as int,
    }
}

/// Whether a key admits the number: it lies between the key's bounds and is
/// not zero.
pub open spec fn admits(key: RuleKey, number: int) -> bool {
    least_of(key) <= number <= greatest_of(key) && number != 0
}

/// The number that the value of `key` writes, or the error that it makes.
pub open spec fn number_of(key: RuleKey, value: Seq<char>) -> Result<int, RRuleParseError> {
    match integer_value(value) {
        None => Err(RRuleParseError::BadValue(key)),
        Some(number) => if admits(key, number) {
            Ok(number)
        } else {
            Err(RRuleParseError::OutOfRange(key))
        },
    }
}

/// The numbers that the items of a list write, or the error of the first item
/// that is wrong.
pub open spec fn numbers_of(key: RuleKey, items: Seq<Seq<char>>) -> Result<
    Seq<i32>,
    RRuleParseError,
>
    decreases items.len(),
{
    if items.len() == 0 {
        Ok(Seq::empty())
    } else {
        match numbers_of(key, items.drop_last()) {
            Err(error) => Err(error),
            Ok(before) => match number_of(key, items.last()) {
                Err(error) => Err(error),
                Ok(number) => Ok(before.push(number as i32)),
            },
        }
    }
}

/// The weekdays that the items of a list write, or the error of the first
/// item that is no weekday code.
pub open spec fn weekdays_of(items: Seq<Seq<char>>) -> Result<Seq<Weekday>, RRuleParseError>
    decreases items.len(),
{
    if items.len() == 0 {
        Ok(Seq::empty())
    } else {
        match weekdays_of(items.drop_last()) {
            Err(error) => Err(error),
            Ok(before) => match weekday_of(items.last()) {
                None => Err(RRuleParseError::BadValue(RuleKey::ByDay)),
                Some(day) => Ok(before.push(day)),
            },
        }
    }
}

/// The months with the given numbers.
pub open spec fn months_numbered(numbers: Seq<i32>) -> Seq<Month> {
    numbers.map_values(|number: i32| month_numbered(number as int))
}

/// The year, month and day that eight digits `YYYYMMDD` write; `None` for a
/// text that is not made of eight digits.
pub open spec fn ymd_of(value: Seq<char>) -> Option<(int, int, int)> {
    if value.len() == 8 && all_digits(value) {
        Some(
            (
                decimal_value(value.subrange(0, 4)) as int,
                decimal_value(value.subrange(4, 6)) as int,
                decimal_value(value.subrange(6, 8)) as int,
            ),
        )
    } else {
        None
    }
}

/// The day number of the date that eight digits `YYYYMMDD` write, if the
/// calendar has that date.
pub open spec fn date_of(value: Seq<char>) -> Option<int> {
    match ymd_of(value) {
        Some(ymd) => match civil_day_number(ymd.0, ymd.1, ymd.2) {
            Some(day_number) if in_date_range(day_number) => Some(day_number),
            _ => None,
        },
        None => None,
    }
}

/// What the parts read so far have given.
pub struct DraftView {
    pub frequency: Option<RecurrenceFreq>,
    pub interval: Option<i32>,
    pub count: Option<u32>,
    pub until: Option<int>,
    pub by_month: Option<Seq<Month>>,
    pub by_week_no: Option<Seq<i32>>,
    pub by_year_day: Option<Seq<i32>>,
    pub by_month_day: Option<Seq<i32>>,
    pub by_day: Option<Seq<Weekday>>,
    pub by_set_pos: Option<Seq<i32>>,
}

impl DraftView {
    /// The draft before any part is read.
    pub open spec fn empty() -> DraftView {
        DraftView {
            frequency: None,
            interval: None,
            count: None,
            until: None,
            by_month: None,
            by_week_no: None,
            by_year_day: None,
            by_month_day: None,
            by_day: None,
            by_set_pos: None,
        }
    }

    /// Whether what has been read is such that the rule made of it is one
    /// whose text can be read back.
    pub open spec fn ranged(self) -> bool {
        &&& self.interval matches Some(interval) ==> interval >= 1
        &&& self.count matches Some(count) ==> count >= 1
        &&& self.until matches Some(until) ==> date_round_trips(until)
        &&& self.by_month matches Some(months) ==> months.len() >= 1
        &&& listed(RuleKey::ByWeekNo, self.by_week_no)
        &&& listed(RuleKey::ByYearDay, self.by_year_day)
        &&& listed(RuleKey::ByMonthDay, self.by_month_day)
        &&& self.by_day matches Some(days) ==> days.len() >= 1
        &&& listed(RuleKey::BySetPos, self.by_set_pos)
    }

    /// Whether a part with this key has been read.
    pub open spec fn has(self, key: RuleKey) -> bool {
        match key {
            RuleKey::Freq => self.frequency is Some,
            RuleKey::Interval => self.interval is Some,
            RuleKey::Count => self.count is Some,
            RuleKey::Until => self.until is Some,
            RuleKey::ByMonth => self.by_month is Some,
            RuleKey::ByWeekNo => self.by_week_no is Some,
            RuleKey::ByYearDay => self.by_year_day is Some,
            RuleKey::ByMonthDay => self.by_month_day is Some,
            RuleKey::ByDay => self.by_day is Some,
            RuleKey::BySetPos => self.by_set_pos is Some,
        }
    }

    /// Whether the key gives a limit while the other kind of limit has been
    /// read.
    pub open spec fn conflicts(self, key: RuleKey) -> bool {
        (key == RuleKey::Count && self.until is Some) || (key == RuleKey::Until && self.count
            is Some)
    }

    /// The draft after the value of `key` is read, or the error of the value.
    pub open spec fn with_value(self, key: RuleKey, value: Seq<char>) -> Result<
        DraftView,
        RRuleParseError,
    > {
        match key {
            RuleKey::Freq => match freq_of(value) {
                Some(frequency) => Ok(DraftView { frequency: Some(frequency), ..self }),
                None => Err(RRuleParseError::BadValue(key)),
            },
            RuleKey::Interval => match number_of(key, value) {
                Ok(number) => Ok(DraftView { interval: Some(number as i32), ..self }),
                Err(error) => Err(error),
            },
            RuleKey::Count => match number_of(key, value) {
                Ok(number) => Ok(DraftView { count: Some(number as u32), ..self }),
                Err(error) => Err(error),
            },
            RuleKey::Until => match date_of(value) {
                Some(day_number) => Ok(DraftView { until: Some(day_number), ..self }),
                None => Err(RRuleParseError::BadValue(key)),
            },
            RuleKey::ByMonth => match numbers_of(key, split(value, ',')) {
                Ok(numbers) => Ok(DraftView { by_month: Some(months_numbered(numbers)), ..self }),
                Err(error) => Err(error),
            },
            RuleKey::ByWeekNo => match numbers_of(key, split(value, ',')) {
                Ok(numbers) => Ok(DraftView { by_week_no: Some(numbers), ..self }),
                Err(error) => Err(error),
            },
            RuleKey::ByYearDay => match numbers_of(key, split(value, ',')) {
                Ok(numbers) => Ok(DraftView { by_year_day: Some(numbers), ..self }),
                Err(error) => Err(error),
            },
            RuleKey::ByMonthDay => match numbers_of(key, split(value, ',')) {
                Ok(numbers) => Ok(DraftView { by_month_day: Some(numbers), ..self }),
                Err(error) => Err(error),
            },
            RuleKey::ByDay => match weekdays_of(split(value, ',')) {
                Ok(days) => Ok(DraftView { by_day: Some(days), ..self }),
                Err(error) => Err(error),
            },
            RuleKey::BySetPos => match numbers_of(key, split(value, ',')) {
                Ok(numbers) => Ok(DraftView { by_set_pos: Some(numbers), ..self }),
                Err(error) => Err(error),
            },
        }
    }

    /// The draft after one more part is read, or the error of that part: an
    /// unknown key, a key read before, a second kind of limit, or a wrong
    /// value, in this order.
    pub open spec fn with_part(self, part: Seq<char>) -> Result<DraftView, RRuleParseError> {
        match key_of(part_name(part)) {
            None => Err(RRuleParseError::UnknownKey),
            Some(key) => if self.has(key) {
                Err(RRuleParseError::DuplicateKey)
            } else if self.conflicts(key) {
                Err(RRuleParseError::ConflictingLimit)
            } else {
                self.with_value(key, part_value(part))
            },
        }
    }

    /// The rule that the draft makes, once all parts are read. The interval
    /// is 1 where no part gave it.
    pub open spec fn finish(self) -> Result<RuleView, RRuleParseError> {
        match self.frequency {
            None => Err(RRuleParseError::MissingFreq),
            Some(frequency) => Ok(
                RuleView {
                    frequency,
                    interval: match self.interval {
                        Some(interval) => interval,
                        None => 1,
                    },
                    limit: match (self.count, self.until) {
                        (Some(count), _) => LimitView::Count(count),
                        (None, Some(day_number)) => LimitView::Date(day_number),
                        (None, None) => LimitView::Indefinite,
                    },
                    by_month: self.by_month,
                    by_week_no: self.by_week_no,
                    by_year_day: self.by_year_day,
                    by_month_day: self.by_month_day,
                    by_day: self.by_day,
                    by_set_pos: self.by_set_pos,
                },
            ),
        }
    }
}

/// The name of a part: what stands before its first `=`, or all of it where
/// it has none.
pub open spec fn part_name(part: Seq<char>) -> Seq<char> {
    part.take(index_of(part, '='))
}

/// The value of a part: what stands after its first `=`, or nothing where it
/// has none.
pub open spec fn part_value(part: Seq<char>) -> Seq<char> {
    if index_of(part, '=') < part.len() {
        part.skip(index_of(part, '=') + 1)
    } else {
        Seq::empty()
    }
}

/// The draft after the given parts are read from left to right, or the error
/// of the first part that is wrong.
pub open spec fn read_parts(parts: Seq<Seq<char>>) -> Result<DraftView, RRuleParseError>
    decreases parts.len(),
{
    if parts.len() == 0 {
        Ok(DraftView::empty())
    } else {
        match read_parts(parts.drop_last()) {
            Err(error) => Err(error),
            Ok(draft) => draft.with_part(parts.last()),
        }
    }
}

/// What parsing a text gives: the rule that its parts write, or the first
/// error among them, or `MissingFreq` where every part is right and none
/// gives the frequency.
pub open spec fn parse_spec(text: Seq<char>) -> Result<RuleView, RRuleParseError> {
    match read_parts(split(text, ';')) {
        Err(error) => Err(error),
        Ok(draft) => draft.finish(),
    }
}

/// Whether a result of the parser is the one that the grammar gives.
pub open spec fn agrees<T: View>(
    result: Result<T, RRuleParseError>,
    expected: Result<T::V, RRuleParseError>,
) -> bool {
    match (result, expected) {
        (Ok(value), Ok(view)) => value@ == view,
        (Err(error), Err(other)) => error == other,
        _ => false,
    }
}

/// Reads the name of a key.
fn read_key(name: &Vec<char>) -> (r: Option<RuleKey>)
    ensures
        r == key_of(name@),
{
    if same_text(name, "FREQ") {
        Some(RuleKey::Freq)
    } else if same_text(name, "INTERVAL") {
        Some(RuleKey::Interval)
    } else if same_text(name, "COUNT") {
        Some(RuleKey::Count)
    } else if same_text(name, "UNTIL") {
        Some(RuleKey::Until)
    } else if same_text(name, "BYMONTH") {
        Some(RuleKey::ByMonth)
    } else if same_text(name, "BYWEEKNO") {
        Some(RuleKey::ByWeekNo)
    } else if same_text(name, "BYYEARDAY") {
        Some(RuleKey::ByYearDay)
    } else if same_text(name, "BYMONTHDAY") {
        Some(RuleKey::ByMonthDay)
    } else if same_text(name, "BYDAY") {
        Some(RuleKey::ByDay)
    } else if same_text(name, "BYSETPOS") {
        Some(RuleKey::BySetPos)
    } else {
        None
    }
}

/// Reads the word of a frequency.
fn read_freq(word: &Vec<char>) -> (r: Option<RecurrenceFreq>)
    ensures
        r == freq_of(word@),
{
    if same_text(word, "DAILY") {
        Some(RecurrenceFreq::Daily)
    } else if same_text(word, "WEEKLY") {
        Some(RecurrenceFreq::Weekly)
    } else if same_text(word, "MONTHLY") {
        Some(RecurrenceFreq::Monthly)
    } else if same_text(word, "YEARLY") {
        Some(RecurrenceFreq::Yearly)
    } else {
        None
    }
}

/// Reads the code of a weekday.
fn read_weekday(code: &Vec<char>) -> (r: Option<Weekday>)
    ensures
        r == weekday_of(code@),
{
    if same_text(code, "MO") {
        Some(Weekday::Mon)
    } else if same_text(code, "TU") {
        Some(Weekday::Tue)
    } else if same_text(code, "WE") {
        Some(Weekday::Wed)
    } else if same_text(code, "TH") {
        Some(Weekday::Thu)
    } else if same_text(code, "FR") {
        Some(Weekday::Fri)
    } else if same_text(code, "SA") {
        Some(Weekday::Sat)
    } else if same_text(code, "SU") {
        Some(Weekday::Sun)
    } else {
        None
    }
}

/// The least number that a key admits.
fn least(key: RuleKey) -> (r: i64)
    ensures
        r as int == least_of(key),
{
    match key {
        RuleKey::ByWeekNo => -53,
        RuleKey::ByYearDay => -366,
        RuleKey::ByMonthDay => -31,
        RuleKey::BySetPos => -2_147_483_648,
        _ => 1,
    }
}

/// The greatest number that a key admits.
fn greatest(key: RuleKey) -> (r: i64)
    ensures
        r as int == greatest_of(key),
{
    match key {
        RuleKey::ByMonth => 12,
        RuleKey::ByWeekNo => 53,
        RuleKey::ByYearDay => 366,
        RuleKey::ByMonthDay => 31,
        RuleKey::Count => 4_294_967_295,
        _ => 2_147_483_647,
    }
}

/// Reads the number that the value of `key` writes.
fn read_number(key: RuleKey, value: &Vec<char>) -> (r: Result<i64, RRuleParseError>)
    ensures
        match number_of(key, value@) {
            Ok(number) => r == Ok::<i64, RRuleParseError>(number as i64) && admits(key, number),
            Err(error) => r == Err::<i64, RRuleParseError>(error),
        },
{
    match read_integer(value) {
        None => Err(RRuleParseError::BadValue(key)),
        Some(number) => {
            if least(key) <= number && number <= greatest(key) && number != 0 {
                Ok(number)
            } else {
                Err(RRuleParseError::OutOfRange(key))
            }
        },
    }
}

/// Reads a list of numbers separated by commas.
fn read_numbers(key: RuleKey, value: &Vec<char>) -> (r: Result<Vec<i32>, RRuleParseError>)
    requires
        key != RuleKey::Count,
    ensures
        agrees(r, numbers_of(key, split(value@, ','))),
        r matches Ok(list) ==> listed(key, Some(list@)),
{
    let items = split_text(value, ',');
    let ghost all = texts(items@);
    let mut numbers: Vec<i32> = Vec::new();
    let mut i: usize = 0;
    proof {
        assert(all.take(0) == Seq::<Seq<char>>::empty());
        crate::text::lemma_split_pieces(value@, ',');
    }
    while i < items.len()
        invariant
            i <= items.len(),
            all == texts(items@),
            all == split(value@, ','),
            key != RuleKey::Count,
            numbers_of(key, all.take(i as int)) == Ok::<Seq<i32>, RRuleParseError>(numbers@),
            numbers.len() == i,
            items.len() >= 1,
            forall|j: int| 0 <= j < numbers.len() ==> admits(key, #[trigger] numbers@[j] as int),
        decreases items.len() - i,
    {
        proof {
            assert(all.take(i + 1).drop_last() == all.take(i as int));
            assert(all.take(i + 1).last() == items@[i as int]@);
        }
        match read_number(key, &items[i]) {
            Err(error) => {
                proof {
                    assert(numbers_of(key, all.take(i + 1)) == Err::<Seq<i32>, RRuleParseError>(
                        error,
                    ));
                    lemma_numbers_error(key, all, i + 1);
                }
                return Err(error);
            },
            Ok(number) => {
                numbers.push(number as i32);
            },
        }
        i += 1;
    }
    proof {
        assert(all.take(i as int) == all);
    }
    Ok(numbers)
}

/// An error among the first items of a list is the error of the whole list.
proof fn lemma_numbers_error(key: RuleKey, items: Seq<Seq<char>>, n: int)
    requires
        0 <= n <= items.len(),
        numbers_of(key, items.take(n)) is Err,
    ensures
        numbers_of(key, items) == numbers_of(key, items.take(n)),
    decreases items.len() - n,
{
    if n < items.len() {
        assert(items.take(n + 1).drop_last() == items.take(n));
        lemma_numbers_error(key, items, n + 1);
    } else {
        assert(items.take(n) == items);
    }
}

/// Reads a list of weekday codes separated by commas.
fn read_weekdays(value: &Vec<char>) -> (r: Result<Vec<Weekday>, RRuleParseError>)
    ensures
        agrees(r, weekdays_of(split(value@, ','))),
        r matches Ok(list) ==> list.len() >= 1,
{
    let items = split_text(value, ',');
    let ghost all = texts(items@);
    let mut days: Vec<Weekday> = Vec::new();
    let mut i: usize = 0;
    proof {
        assert(all.take(0) == Seq::<Seq<char>>::empty());
        crate::text::lemma_split_pieces(value@, ',');
    }
    while i < items.len()
        invariant
            i <= items.len(),
            all == texts(items@),
            all == split(value@, ','),
            weekdays_of(all.take(i as int)) == Ok::<Seq<Weekday>, RRuleParseError>(days@),
            days.len() == i,
            items.len() >= 1,
        decreases items.len() - i,
    {
        proof {
            assert(all.take(i + 1).drop_last() == all.take(i as int));
            assert(all.take(i + 1).last() == items@[i as int]@);
        }
        match read_weekday(&items[i]) {
            None => {
                proof {
                    assert(weekdays_of(all.take(i + 1)) is Err);
                    lemma_weekdays_error(all, i + 1);
                }
                return Err(RRuleParseError::BadValue(RuleKey::ByDay));
            },
            Some(day) => {
                days.push(day);
            },
        }
        i += 1;
    }
    proof {
        assert(all.take(i as int) == all);
    }
    Ok(days)
}

/// An error among the first items of a list is the error of the whole list.
proof fn lemma_weekdays_error(items: Seq<Seq<char>>, n: int)
    requires
        0 <= n <= items.len(),
        weekdays_of(items.take(n)) is Err,
    ensures
        weekdays_of(items) == weekdays_of(items.take(n)),
    decreases items.len() - n,
{
    if n < items.len() {
        assert(items.take(n + 1).drop_last() == items.take(n));
        lemma_weekdays_error(items, n + 1);
    } else {
        assert(items.take(n) == items);
    }
}

/// The months with the given numbers, each of which is the number of a
/// month.
fn months_for(numbers: &Vec<i32>) -> (r: Vec<Month>)
    requires
        forall|i: int| 0 <= i < numbers.len() ==> 1 <= #[trigger] numbers[i] <= 12,
    ensures
        r@ == months_numbered(numbers@),
{
    let mut months: Vec<Month> = Vec::new();
    let mut i: usize = 0;
    while i < numbers.len()
        invariant
            i <= numbers.len(),
            months@ == months_numbered(numbers@.take(i as int)),
            forall|j: int| 0 <= j < numbers.len() ==> 1 <= #[trigger] numbers[j] <= 12,
        decreases numbers.len() - i,
    {
        months.push(Month::from_number(numbers[i] as u32).unwrap());
        i += 1;
        assert(months_numbered(numbers@.take(i as int)) == months_numbered(
            numbers@.take(i - 1),
        ).push(month_numbered(numbers@[i - 1] as int)));
    }
    assert(numbers@.take(i as int) == numbers@);
    months
}

/// Reads the number that the digits of `value` from `from` up to `to` write.
fn read_field(value: &Vec<char>, from: usize, to: usize) -> (r: Option<u32>)
    requires
        from <= to <= value.len(),
        to - from <= 4,
    ensures
        r is Some <==> all_digits(value@.subrange(from as int, to as int)),
        r matches Some(number) ==> number < crate::text::power_of_ten((to - from) as nat)
            && number < 10000 && number == decimal_value(value@.subrange(from as int, to as int)),
{
    let digits = slice_of(value, from, to);
    proof {
        assert(digits@.skip(0) == digits@);
        if all_digits(digits@) {
            crate::text::lemma_decimal_bound(digits@);
            assert(crate::text::power_of_ten(digits@.len()) <= 10000) by {
                reveal_with_fuel(crate::text::power_of_ten, 5);
            }
        }
    }
    match crate::text::read_digits(&digits, 0) {
        Some(number) => Some(number as u32),
        None => None,
    }
}

/// Reads the year, month and day that eight digits `YYYYMMDD` write.
pub fn read_ymd(value: &Vec<char>) -> (r: Option<(u32, u32, u32)>)
    ensures
        r is Some <==> ymd_of(value@) is Some,
        r matches Some(ymd) ==> ymd_of(value@) == Some((ymd.0 as int, ymd.1 as int, ymd.2 as int))
            && ymd.0 <= 9999 && ymd.1 <= 99 && ymd.2 <= 99,
{
    proof {
        assert(crate::text::power_of_ten(2) == 100) by {
            reveal_with_fuel(crate::text::power_of_ten, 3);
        }
    }
    if value.len() != 8 {
        return None;
    }
    let year = read_field(value, 0, 4);
    let month = read_field(value, 4, 6);
    let day = read_field(value, 6, 8);
    proof {
        let v = value@;
        if all_digits(v) {
            assert forall|i: int| 0 <= i < 4 implies crate::text::is_digit(
                #[trigger] v.subrange(0, 4)[i],
            ) by {
                assert(v.subrange(0, 4)[i] == v[i]);
            }
            assert forall|i: int| 0 <= i < 2 implies crate::text::is_digit(
                #[trigger] v.subrange(4, 6)[i],
            ) by {
                assert(v.subrange(4, 6)[i] == v[i + 4]);
            }
            assert forall|i: int| 0 <= i < 2 implies crate::text::is_digit(
                #[trigger] v.subrange(6, 8)[i],
            ) by {
                assert(v.subrange(6, 8)[i] == v[i + 6]);
            }
        }
        if all_digits(v.subrange(0, 4)) && all_digits(v.subrange(4, 6)) && all_digits(
            v.subrange(6, 8),
        ) {
            assert forall|i: int| 0 <= i < 8 implies crate::text::is_digit(#[trigger] v[i]) by {
                if i < 4 {
                    assert(v.subrange(0, 4)[i] == v[i]);
                } else if i < 6 {
                    assert(v.subrange(4, 6)[i - 4] == v[i]);
                } else {
                    assert(v.subrange(6, 8)[i - 6] == v[i]);
                }
            }
        }
    }
    match (year, month, day) {
        (Some(y), Some(m), Some(d)) => Some((y, m, d)),
        _ => None,
    }
}

/// Reads a date written as eight digits `YYYYMMDD`.
fn read_date(value: &Vec<char>) -> (r: Option<Date>)
    ensures
        match date_of(value@) {
            Some(day_number) => r is Some && r.unwrap()@ == day_number,
            None => r is None,
        },
        r matches Some(date) ==> date_round_trips(date@),
{
    match read_ymd(value) {
        Some(ymd) => Date::from_ymd(ymd.0 as i32, ymd.1, ymd.2),
        None => None,
    }
}

/// What the parts read so far have given.
struct Draft {
    frequency: Option<RecurrenceFreq>,
    interval: Option<i32>,
    count: Option<u32>,
    until: Option<Date>,
    by_month: Option<Vec<Month>>,
    by_week_no: Option<Vec<i32>>,
    by_year_day: Option<Vec<i32>>,
    by_month_day: Option<Vec<i32>>,
    by_day: Option<Vec<Weekday>>,
    by_set_pos: Option<Vec<i32>>,
}

impl View for Draft {
    type V = DraftView;

    closed spec fn view(&self) -> DraftView {
        DraftView {
            frequency: self.frequency,
            interval: self.interval,
            count: self.count,
            until: match self.until {
                Some(date) => Some(date@),
                None => None,
            },
            by_month: list_view(self.by_month),
            by_week_no: list_view(self.by_week_no),
            by_year_day: list_view(self.by_year_day),
            by_month_day: list_view(self.by_month_day),
            by_day: list_view(self.by_day),
            by_set_pos: list_view(self.by_set_pos),
        }
    }
}

impl Draft {
    /// The draft before any part is read.
    fn new() -> (r: Draft)
        ensures
            r@ == DraftView::empty(),
    {
        Draft {
            frequency: None,
            interval: None,
            count: None,
            until: None,
            by_month: None,
            by_week_no: None,
            by_year_day: None,
            by_month_day: None,
            by_day: None,
            by_set_pos: None,
        }
    }

    /// Whether a part with this key has been read.
    fn has(&self, key: RuleKey) -> (r: bool)
        ensures
            r == self@.has(key),
    {
        match key {
            RuleKey::Freq => self.frequency.is_some(),
            RuleKey::Interval => self.interval.is_some(),
            RuleKey::Count => self.count.is_some(),
            RuleKey::Until => self.until.is_some(),
            RuleKey::ByMonth => self.by_month.is_some(),
            RuleKey::ByWeekNo => self.by_week_no.is_some(),
            RuleKey::ByYearDay => self.by_year_day.is_some(),
            RuleKey::ByMonthDay => self.by_month_day.is_some(),
            RuleKey::ByDay => self.by_day.is_some(),
            RuleKey::BySetPos => self.by_set_pos.is_some(),
        }
    }

    /// Whether the key gives a limit while the other kind of limit has been
    /// read.
    fn conflicts(&self, key: RuleKey) -> (r: bool)
        ensures
            r == self@.conflicts(key),
    {
        match key {
            RuleKey::Count => self.until.is_some(),
            RuleKey::Until => self.count.is_some(),
            _ => false,
        }
    }

    /// Reads the value of `key` into the draft.
    fn with_value(self, key: RuleKey, value: &Vec<char>) -> (r: Result<Draft, RRuleParseError>)
        ensures
            agrees(r, self@.with_value(key, value@)),
            r matches Ok(draft) ==> (self@.ranged() ==> draft@.ranged()),
    {
        match key {
            RuleKey::Freq | RuleKey::Interval | RuleKey::Count | RuleKey::Until => self.with_single(
                key,
                value,
            ),
            _ => self.with_list(key, value),
        }
    }

    /// Reads the value of a key that has a single value.
    fn with_single(self, key: RuleKey, value: &Vec<char>) -> (r: Result<Draft, RRuleParseError>)
        requires
            key == RuleKey::Freq || key == RuleKey::Interval || key == RuleKey::Count || key
                == RuleKey::Until,
        ensures
            agrees(r, self@.with_value(key, value@)),
            r matches Ok(draft) ==> (self@.ranged() ==> draft@.ranged()),
    {
        let mut draft = self;
        match key {
            RuleKey::Freq => match read_freq(value) {
                Some(frequency) => {
                    draft.frequency = Some(frequency);
                    Ok(draft)
                },
                None => Err(RRuleParseError::BadValue(key)),
            },
            RuleKey::Interval => match read_number(key, value) {
                Ok(number) => {
                    draft.interval = Some(number as i32);
                    Ok(draft)
                },
                Err(error) => Err(error),
            },
            RuleKey::Count => match read_number(key, value) {
                Ok(number) => {
                    draft.count = Some(number as u32);
                    Ok(draft)
                },
                Err(error) => Err(error),
            },
            _ => match read_date(value) {
                Some(date) => {
                    draft.until = Some(date);
                    Ok(draft)
                },
                None => Err(RRuleParseError::BadValue(key)),
            },
        }
    }

    /// Reads the value of a key that has a list of values.
    fn with_list(self, key: RuleKey, value: &Vec<char>) -> (r: Result<Draft, RRuleParseError>)
        requires
            key != RuleKey::Freq,
            key != RuleKey::Interval,
            key != RuleKey::Count,
            key != RuleKey::Until,
        ensures
            agrees(r, self@.with_value(key, value@)),
            r matches Ok(draft) ==> (self@.ranged() ==> draft@.ranged()),
    {
        let mut draft = self;
        if let RuleKey::ByDay = key {
            return match read_weekdays(value) {
                Ok(days) => {
                    draft.by_day = Some(days);
                    Ok(draft)
                },
                Err(error) => Err(error),
            };
        }
        let numbers = match read_numbers(key, value) {
            Ok(numbers) => numbers,
            Err(error) => {
                return Err(error);
            },
        };
        match key {
            RuleKey::ByMonth => {
                assert forall|i: int| 0 <= i < numbers.len() implies 1
                    <= #[trigger] numbers[i] <= 12 by {
                    assert(admits(key, numbers@[i] as int));
                }
                draft.by_month = Some(months_for(&numbers));
            },
            RuleKey::ByWeekNo => {
                draft.by_week_no = Some(numbers);
            },
            RuleKey::ByYearDay => {
                draft.by_year_day = Some(numbers);
            },
            RuleKey::ByMonthDay => {
                draft.by_month_day = Some(numbers);
            },
            _ => {
                draft.by_set_pos = Some(numbers);
            },
        }
        Ok(draft)
    }

    /// Reads one more part into the draft.
    fn with_part(self, part: &Vec<char>) -> (r: Result<Draft, RRuleParseError>)
        ensures
            agrees(r, self@.with_part(part@)),
            r matches Ok(draft) ==> (self@.ranged() ==> draft@.ranged()),
    {
        let cut = find_char(part, '=');
        let name = slice_of(part, 0, cut);
        let value = if cut < part.len() {
            slice_of(part, cut + 1, part.len())
        } else {
            Vec::new()
        };
        proof {
            assert(name@ == part_name(part@));
            assert(value@ == part_value(part@));
        }
        match read_key(&name) {
            None => Err(RRuleParseError::UnknownKey),
            Some(key) => {
                if self.has(key) {
                    Err(RRuleParseError::DuplicateKey)
                } else if self.conflicts(key) {
                    Err(RRuleParseError::ConflictingLimit)
                } else {
                    self.with_value(key, &value)
                }
            },
        }
    }

    /// The rule that the draft makes, once all parts are read.
    fn finish(self) -> (r: Result<RecurrenceRule, RRuleParseError>)
        ensures
            agrees(r, self@.finish()),
            r matches Ok(rule) ==> (self@.ranged() ==> producible(rule@)),
    {
        match self.frequency {
            None => Err(RRuleParseError::MissingFreq),
            Some(frequency) => Ok(
                RecurrenceRule {
                    frequency,
                    interval: match self.interval {
                        Some(interval) => interval,
                        None => 1,
                    },
                    limit: match (self.count, self.until) {
                        (Some(count), _) => RecurrenceLimit::Count(count),
                        (None, Some(date)) => RecurrenceLimit::Date(date),
                        (None, None) => RecurrenceLimit::Indefinite,
                    },
                    by_month: self.by_month,
                    by_week_no: self.by_week_no,
                    by_year_day: self.by_year_day,
                    by_month_day: self.by_month_day,
                    by_day: self.by_day,
                    by_set_pos: self.by_set_pos,
                },
            ),
        }
    }
}

/// An error among the first parts of a text is the error of the whole text.
proof fn lemma_parts_error(parts: Seq<Seq<char>>, n: int)
    requires
        0 <= n <= parts.len(),
        read_parts(parts.take(n)) is Err,
    ensures
        read_parts(parts) == read_parts(parts.take(n)),
    decreases parts.len() - n,
{
    if n < parts.len() {
        assert(parts.take(n + 1).drop_last() == parts.take(n));
        lemma_parts_error(parts, n + 1);
    } else {
        assert(parts.take(n) == parts);
    }
}

/// Parses an RRULE. The result is the rule that the parts of the text write,
/// or the error of the first part that is wrong, or `MissingFreq` where every
/// part is right and none gives the frequency.
///
/// A rule that the parser gives is one that the printer writes so that it can
/// be parsed again.
pub fn parse(rrule: &str) -> (r: Result<RecurrenceRule, RRuleParseError>)
    ensures
        agrees(r, parse_spec(rrule@)),
        r matches Ok(rule) ==> producible(rule@),
{
    let chars = chars_of(rrule);
    let parts = split_text(&chars, ';');
    let ghost all = texts(parts@);
    let mut draft = Draft::new();
    let mut i: usize = 0;
    proof {
        assert(all.take(0) == Seq::<Seq<char>>::empty());
    }
    while i < parts.len()
        invariant
            i <= parts.len(),
            all == texts(parts@),
            all == split(rrule@, ';'),
            read_parts(all.take(i as int)) == Ok::<DraftView, RRuleParseError>(draft@),
            draft@.ranged(),
        decreases parts.len() - i,
    {
        proof {
            assert(all.take(i + 1).drop_last() == all.take(i as int));
            assert(all.take(i + 1).last() == parts@[i as int]@);
        }
        match draft.with_part(&parts[i]) {
            Err(error) => {
                proof {
                    assert(read_parts(all.take(i + 1)) == Err::<DraftView, RRuleParseError>(
                        error,
                    ));
                    lemma_parts_error(all, i + 1);
                }
                return Err(error);
            },
            Ok(next) => {
                draft = next;
            },
        }
        i += 1;
    }
    proof {
        assert(all.take(i as int) == all);
    }
    draft.finish()
}

} // verus!
