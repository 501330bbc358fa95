//! Events: recurring events, single events, the instances of recurring
//! events, and the plain form in which events travel.
//!
//! Everything is stored in UTC: dates and times carry no time zone.
//!
//! A plain event has every field optional, so that it can carry a partial
//! update. `EventPlain::validate_non_patch` tells whether a plain event holds
//! what a complete event needs, `EventPlain::validate_patch` whether it does
//! so once it is laid over a stored event, and `Event::try_from` turns a plain
//! event into a typed one. The conversion takes dates, times and lists as the plain
//! event holds them: whether the result keeps to what the model asks of an
//! event is told by `EventSpan::is_valid` and `EventRecurring::is_consistent`.

use crate::date::Date;
use crate::recurrence::copy_list;
use crate::recurrence::parser::parse_spec;
use crate::recurrence::parser::RRuleParseError;
use crate::recurrence::rule_text;
use crate::recurrence::RecurrenceRule;
use crate::recurrence::RuleView;
use crate::span::EventDateSpan;
use crate::span::EventDateTimeSpan;
use crate::span::EventSpan;
use crate::time::DateTime;
use crate::time::Time;
use uuid::Uuid;
use vstd::prelude::*;
use vstd::string::StringExecFns;

verus! {

/// Why a plain event is no typed event.
#[derive(Clone, Copy, Debug, PartialEq, Eq, Structural)]
pub enum FromPlainError {
    /// A field that a typed event needs is absent.
    MissingField,
    /// One of start time and end time is present and the other is absent.
    InvalidSpan,
    /// The recurrence rule is no RRULE.
    RRuleParseError(RRuleParseError),
}

impl FromPlainError {
    /// What is said of the error to a reader.
    pub fn to_string(&self) -> (r: String)
        ensures
            r@ == "Could not transform the plain event into a recurrent or single event."@,
    {
        String::from_str("Could not transform the plain event into a recurrent or single event.")
    }
}

/// The plain form of a recurrence. Should only be used in conjunction with
/// `EventPlain`.
#[derive(Clone, Debug, PartialEq, Eq)]
pub struct RecurrencePlain {
    pub rrule: Option<String>,
    pub exdates: Option<Vec<Date>>,
    pub rdates: Option<Vec<Date>>,
}

/// The plain form of an event (single, recurring or instance): what is sent
/// to and received from a client.
///
/// How to determine the type of the event:
///
/// - Single events don't have a recurrence.
/// - Recurring events have a recurrence.
/// - Instance events don't have an id and have a parent id.
/// - Edited instance events have an id and a parent id.
///
/// All fields are optional to allow for partial updates.
#[derive(Clone, Debug, PartialEq, Eq)]
pub struct EventPlain {
    pub id: Option<Uuid>,
    pub parent_id: Option<Uuid>,
    pub start_date: Option<Date>,
    pub start_time: Option<Time>,
    pub end_date: Option<Date>,
    pub end_time: Option<Time>,
    pub recurrence: Option<RecurrencePlain>,
    pub last_modified: Option<DateTime>,
}

/// The dates of an optional list; none where the list is absent.
pub open spec fn dates_or_none(list: Option<Vec<Date>>) -> Seq<Date> {
    match list {
        Some(dates) => dates@,
        None => Seq::empty(),
    }
}

/// Whether the span is the one that the dates and times of a plain event
/// describe. The plain event has both dates, and both times or neither.
pub open spec fn span_of_plain(span: EventSpan, value: EventPlain) -> bool {
    match (value.start_date, value.end_date, value.start_time, value.end_time) {
        (Some(start_date), Some(end_date), Some(start_time), Some(end_time)) => {
            &&& span matches EventSpan::DateTime(times)
            &&& times.start().date_part() == start_date
            &&& times.start().time_part() == start_time
            &&& times.end().date_part() == end_date
            &&& times.end().time_part() == end_time
        },
        (Some(start_date), Some(end_date), None, None) => {
            &&& span matches EventSpan::Date(dates)
            &&& dates.start() == start_date
            &&& dates.end() == end_date
        },
        _ => false,
    }
}

/// Whether a plain event holds what a complete event needs, as a request
/// that is no partial update has to: both dates, both times or neither, and
/// a rule where it has a recurrence.
pub open spec fn acceptable(value: EventPlain) -> bool {
    &&& value.start_date is Some
    &&& value.end_date is Some
    &&& value.start_time is Some <==> value.end_time is Some
    &&& value.recurrence matches Some(recurrence) ==> recurrence.rrule is Some
}

/// One optional value laid over another: the first where it is present, else
/// the second.
pub open spec fn laid_over<T>(update: Option<T>, stored: Option<T>) -> Option<T> {
    match update {
        Some(value) => Some(value),
        None => stored,
    }
}

/// A plain recurrence with a partial update laid over it, field by field.
pub open spec fn patched_recurrence(
    stored: Option<RecurrencePlain>,
    update: Option<RecurrencePlain>,
) -> Option<RecurrencePlain> {
    match (update, stored) {
        (None, _) => stored,
        (Some(update), None) => Some(update),
        (Some(update), Some(stored)) => Some(
            RecurrencePlain {
                rrule: laid_over(update.rrule, stored.rrule),
                exdates: laid_over(update.exdates, stored.exdates),
                rdates: laid_over(update.rdates, stored.rdates),
            },
        ),
    }
}

/// A plain event with a partial update laid over it: each field is that of
/// the update where the update has it, else that of the stored event.
pub open spec fn patched(stored: EventPlain, update: EventPlain) -> EventPlain {
    EventPlain {
        id: laid_over(update.id, stored.id),
        parent_id: laid_over(update.parent_id, stored.parent_id),
        start_date: laid_over(update.start_date, stored.start_date),
        start_time: laid_over(update.start_time, stored.start_time),
        end_date: laid_over(update.end_date, stored.end_date),
        end_time: laid_over(update.end_time, stored.end_time),
        recurrence: patched_recurrence(stored.recurrence, update.recurrence),
        last_modified: laid_over(update.last_modified, stored.last_modified),
    }
}

/// The error that keeps a plain recurrence from being converted, if there is
/// one: the rule is absent, or it is no RRULE.
pub open spec fn recurrence_error(value: RecurrencePlain) -> Option<FromPlainError> {
    match value.rrule {
        None => Some(FromPlainError::MissingField),
        Some(text) => match parse_spec(text@) {
            Err(error) => Some(FromPlainError::RRuleParseError(error)),
            Ok(_) => None,
        },
    }
}

/// The error that keeps a plain event from being converted, if there is one.
/// The checks are made in this order: both dates are present; the times are
/// both present or both absent; the id is present; the time of the last
/// change is present; the recurrence, if there is one, can be converted.
pub open spec fn conversion_error(value: EventPlain) -> Option<FromPlainError> {
    if value.start_date is None || value.end_date is None {
        Some(FromPlainError::MissingField)
    } else if value.start_time is Some != value.end_time is Some {
        Some(FromPlainError::InvalidSpan)
    } else if value.id is None {
        Some(FromPlainError::MissingField)
    } else if value.last_modified is None {
        Some(FromPlainError::MissingField)
    } else {
        match value.recurrence {
            Some(recurrence) => recurrence_error(recurrence),
            None => None,
        }
    }
}

impl EventPlain {
    /// Validates the event's data for a request that is no partial update.
    ///
    /// - `start_date` and `end_date` are both set.
    /// - `end_time` is set if `start_time` is set, and the other way round.
    /// - `rrule` is set if `recurrence` is set.
    ///
    /// Returns `true` if the event is valid.
    pub fn validate_non_patch(&self) -> (r: bool)
        ensures
            r == acceptable(*self),
    {
        if self.start_date.is_none() || self.end_date.is_none() {
            return false;
        }
        if self.start_time.is_some() != self.end_time.is_some() {
            return false;
        }
        if let Some(recurrence) = &self.recurrence {
            if recurrence.rrule.is_none() {
                return false;
            }
        }
        true
    }

    /// Validates the event's data as a partial update of a stored event: the
    /// stored event with this update laid over it has to hold what a
    /// complete event needs.
    pub fn validate_patch(&self, stored: &EventPlain) -> (r: bool)
        ensures
            r == acceptable(patched(*stored, *self)),
    {
        if self.start_date.is_none() && stored.start_date.is_none() {
            return false;
        }
        if self.end_date.is_none() && stored.end_date.is_none() {
            return false;
        }
        let start_time = self.start_time.is_some() || stored.start_time.is_some();
        let end_time = self.end_time.is_some() || stored.end_time.is_some();
        if start_time != end_time {
            return false;
        }
        match (&self.recurrence, &stored.recurrence) {
            (None, None) => true,
            (None, Some(kept)) => kept.rrule.is_some(),
            (Some(update), None) => update.rrule.is_some(),
            (Some(update), Some(kept)) => update.rrule.is_some() || kept.rrule.is_some(),
        }
    }

    /// Lays a partial update over this event.
    pub fn apply_patch(self, update: EventPlain) -> (r: EventPlain)
        ensures
            r == patched(self, update),
    {
        EventPlain {
            id: lay_over(update.id, self.id),
            parent_id: lay_over(update.parent_id, self.parent_id),
            start_date: lay_over(update.start_date, self.start_date),
            start_time: lay_over(update.start_time, self.start_time),
            end_date: lay_over(update.end_date, self.end_date),
            end_time: lay_over(update.end_time, self.end_time),
            recurrence: match (update.recurrence, self.recurrence) {
                (None, stored) => stored,
                (Some(update), None) => Some(update),
                (Some(update), Some(stored)) => Some(
                    RecurrencePlain {
                        rrule: lay_over(update.rrule, stored.rrule),
                        exdates: lay_over(update.exdates, stored.exdates),
                        rdates: lay_over(update.rdates, stored.rdates),
                    },
                ),
            },
            last_modified: lay_over(update.last_modified, self.last_modified),
        }
    }
}

/// One optional value laid over another.
fn lay_over<T>(update: Option<T>, stored: Option<T>) -> (r: Option<T>)
    ensures
        r == laid_over(update, stored),
{
    match update {
        Some(value) => Some(value),
        None => stored,
    }
}

/// What can be turned into a plain form.
pub trait ToPlain<T>: Sized {
    /// Whether `plain` is the plain form of `self`.
    spec fn plain_form(self, plain: T) -> bool;

    /// The plain form.
    fn into_plain(self) -> (r: T)
        ensures
            self.plain_form(r),
    ;
}

/// The mathematical value of an [`EventRecurrence`].
pub struct EventRecurrenceView {
    pub rule: RuleView,
    pub exdates: Seq<Date>,
    pub rdates: Seq<Date>,
}

/// How an event recurs: its rule, the dates taken out of what the rule
/// gives, and the dates added to it.
#[derive(Clone, Debug)]
pub struct EventRecurrence {
    rule: RecurrenceRule,
    exdates: Vec<Date>,
    rdates: Vec<Date>,
}

impl View for EventRecurrence {
    type V = EventRecurrenceView;

    closed spec fn view(&self) -> EventRecurrenceView {
        EventRecurrenceView { rule: self.rule@, exdates: self.exdates@, rdates: self.rdates@ }
    }
}

impl EventRecurrence {
    /// Converts a plain recurrence. The rule is parsed; a list that is absent
    /// is taken as empty.
    pub fn try_from(value: RecurrencePlain) -> (r: Result<EventRecurrence, FromPlainError>)
        ensures
            match recurrence_error(value) {
                Some(error) => r == Err::<EventRecurrence, FromPlainError>(error),
                None => {
                    &&& r matches Ok(recurrence)
                    &&& Ok::<RuleView, RRuleParseError>(recurrence@.rule) == parse_spec(
                        value.rrule->0@,
                    )
                    &&& recurrence@.exdates == dates_or_none(value.exdates)
                    &&& recurrence@.rdates == dates_or_none(value.rdates)
                },
            },
    {
        let text = match value.rrule {
            None => {
                return Err(FromPlainError::MissingField);
            },
            Some(text) => text,
        };
        let rule = match RecurrenceRule::new(text.as_str()) {
            Err(error) => {
                return Err(FromPlainError::RRuleParseError(error));
            },
            Ok(rule) => rule,
        };
        let rdates = match value.rdates {
            Some(dates) => dates,
            None => Vec::new(),
        };
        let exdates = match value.exdates {
            Some(dates) => dates,
            None => Vec::new(),
        };
        Ok(EventRecurrence { rule, exdates, rdates })
    }

    /// A copy of the recurrence.
    pub fn duplicate(&self) -> (r: EventRecurrence)
        ensures
            r@ == self@,
    {
        EventRecurrence {
            rule: self.rule.duplicate(),
            exdates: copy_list(&self.exdates),
            rdates: copy_list(&self.rdates),
        }
    }

    /// The rule.
    pub fn get_rule(&self) -> (r: &RecurrenceRule)
        ensures
            r@ == self@.rule,
    {
        &self.rule
    }

    /// The dates taken out of what the rule gives.
    pub fn get_exdates(&self) -> (r: &Vec<Date>)
        ensures
            r@ == self@.exdates,
    {
        &self.exdates
    }

    /// The dates added to what the rule gives.
    pub fn get_rdates(&self) -> (r: &Vec<Date>)
        ensures
            r@ == self@.rdates,
    {
        &self.rdates
    }
}

/// Whether a list of dates holds the date.
fn holds_date(dates: &Vec<Date>, date: Date) -> (r: bool)
    ensures
        r == dates@.contains(date),
{
    let mut i: usize = 0;
    while i < dates.len()
        invariant
            i <= dates.len(),
            forall|j: int| 0 <= j < i ==> dates@[j] != date,
        decreases dates.len() - i,
    {
        if dates[i].day_number() == date.day_number() {
            proof {
                Date::lemma_view_determines(dates@[i as int], date);
            }
            return true;
        }
        i += 1;
    }
    false
}

/// An event that recurs.
#[derive(Clone, Debug)]
pub struct EventRecurring {
    id: Uuid,
    span: EventSpan,
    recurrence: EventRecurrence,
    last_modified: DateTime,
}

impl EventRecurring {
    /// The id of the event.
    pub closed spec fn id(self) -> Uuid {
        self.id
    }

    /// The span of the first occurrence.
    pub closed spec fn span(self) -> EventSpan {
        self.span
    }

    /// How the event recurs.
    pub closed spec fn recurrence(self) -> EventRecurrenceView {
        self.recurrence@
    }

    /// When the event was last changed.
    pub closed spec fn last_modified(self) -> DateTime {
        self.last_modified
    }

    /// What the model asks of a recurring event: the start date is not taken
    /// out, and no date is both taken out and added.
    pub open spec fn consistent(self) -> bool {
        &&& !self.recurrence().exdates.contains(self.span().date_span().start())
        &&& forall|i: int|
            0 <= i < self.recurrence().exdates.len() ==> !self.recurrence().rdates.contains(
                #[trigger] self.recurrence().exdates[i],
            )
    }

    /// The id of the event.
    pub fn get_id(&self) -> (r: Uuid)
        ensures
            r == self.id(),
    {
        self.id
    }

    /// The span of the first occurrence.
    pub fn get_span(&self) -> (r: EventSpan)
        ensures
            r == self.span(),
    {
        self.span
    }

    /// How the event recurs.
    pub fn get_recurrence(&self) -> (r: EventRecurrence)
        ensures
            r@ == self.recurrence(),
    {
        self.recurrence.duplicate()
    }

    /// When the event was last changed.
    pub fn get_last_modified(&self) -> (r: DateTime)
        ensures
            r == self.last_modified(),
    {
        self.last_modified
    }

    /// Whether the event keeps to what the model asks of a recurring event.
    pub fn is_consistent(&self) -> (r: bool)
        ensures
            r == self.consistent(),
    {
        if holds_date(&self.recurrence.exdates, self.span.get_start_date()) {
            return false;
        }
        let mut i: usize = 0;
        while i < self.recurrence.exdates.len()
            invariant
                i <= self.recurrence.exdates.len(),
                forall|j: int|
                    0 <= j < i ==> !self.recurrence().rdates.contains(
                        #[trigger] self.recurrence().exdates[j],
                    ),
            decreases self.recurrence.exdates.len() - i,
        {
            if holds_date(&self.recurrence.rdates, self.recurrence.exdates[i]) {
                return false;
            }
            i += 1;
        }
        true
    }
}

impl ToPlain<EventPlain> for EventRecurring {
    open spec fn plain_form(self, plain: EventPlain) -> bool {
        &&& plain.id == Some(self.id())
        &&& plain.parent_id is None
        &&& plain.start_date == Some(self.span().date_span().start())
        &&& plain.end_date == Some(self.span().date_span().end())
        &&& plain.start_time == self.span().start_time()
        &&& plain.end_time == self.span().end_time()
        &&& plain.last_modified == Some(self.last_modified())
        &&& plain.recurrence matches Some(recurrence)
        &&& recurrence.rrule matches Some(text)
        &&& text@ == rule_text(self.recurrence().rule)
        &&& recurrence.exdates matches Some(exdates)
        &&& exdates@ == self.recurrence().exdates
        &&& recurrence.rdates matches Some(rdates)
        &&& rdates@ == self.recurrence().rdates
    }

    fn into_plain(self) -> (r: EventPlain) {
        EventPlain {
            id: Some(self.id),
            parent_id: None,
            start_date: Some(self.span.get_start_date()),
            end_date: Some(self.span.get_end_date()),
            start_time: self.span.get_start_time(),
            end_time: self.span.get_end_time(),
            recurrence: Some(
                RecurrencePlain {
                    rrule: Some(self.recurrence.rule.to_string()),
                    exdates: Some(self.recurrence.exdates),
                    rdates: Some(self.recurrence.rdates),
                },
            ),
            last_modified: Some(self.last_modified),
        }
    }
}

/// An event that does not recur.
#[derive(Clone, Debug)]
pub struct EventSingle {
    id: Uuid,
    /// If this is `Some`, this event came from moving one instance of a
    /// recurring event. That instance is no longer given by the recurring
    /// event, whose id this is: its date was added to the recurring event's
    /// exdates, and this event took its place.
    ///
    /// If this is `None`, this is an event of its own.
    parent_id: Option<Uuid>,
    span: EventSpan,
    last_modified: DateTime,
}

impl EventSingle {
    /// The id of the event.
    pub closed spec fn id(self) -> Uuid {
        self.id
    }

    /// The id of the recurring event one of whose instances this event
    /// replaces, if it replaces one.
    pub closed spec fn parent_id(self) -> Option<Uuid> {
        self.parent_id
    }

    /// The span of the event.
    pub closed spec fn span(self) -> EventSpan {
        self.span
    }

    /// When the event was last changed.
    pub closed spec fn last_modified(self) -> DateTime {
        self.last_modified
    }

    /// The span of the event.
    pub fn get_span(&self) -> (r: EventSpan)
        ensures
            r == self.span(),
    {
        self.span
    }

    /// The id of the event.
    pub fn get_id(&self) -> (r: Uuid)
        ensures
            r == self.id(),
    {
        self.id
    }

    /// The id of the recurring event one of whose instances this event
    /// replaces, if it replaces one.
    pub fn get_parent_id(&self) -> (r: Option<Uuid>)
        ensures
            r == self.parent_id(),
    {
        self.parent_id
    }

    /// When the event was last changed.
    pub fn get_last_modified(&self) -> (r: DateTime)
        ensures
            r == self.last_modified(),
    {
        self.last_modified
    }
}

impl ToPlain<EventPlain> for EventSingle {
    open spec fn plain_form(self, plain: EventPlain) -> bool {
        &&& plain.id == Some(self.id())
        &&& plain.parent_id == self.parent_id()
        &&& plain.start_date == Some(self.span().date_span().start())
        &&& plain.end_date == Some(self.span().date_span().end())
        &&& plain.start_time == self.span().start_time()
        &&& plain.end_time == self.span().end_time()
        &&& plain.recurrence is None
        &&& plain.last_modified == Some(self.last_modified())
    }

    fn into_plain(self) -> (r: EventPlain) {
        EventPlain {
            id: Some(self.id),
            parent_id: self.parent_id,
            start_date: Some(self.span.get_start_date()),
            end_date: Some(self.span.get_end_date()),
            start_time: self.span.get_start_time(),
            end_time: self.span.get_end_time(),
            recurrence: None,
            last_modified: Some(self.last_modified),
        }
    }
}

/// One occurrence of a recurring event. It has no id of its own and is never
/// stored.
#[derive(Clone, Debug)]
pub struct EventInstance {
    parent_id: Uuid,
    span: EventSpan,
}

impl EventInstance {
    /// The id of the recurring event.
    pub closed spec fn parent_id(self) -> Uuid {
        self.parent_id
    }

    /// The span of the occurrence.
    pub closed spec fn span(self) -> EventSpan {
        self.span
    }

    /// The occurrence with the given span of the recurring event with the
    /// given id.
    pub fn new(parent_id: Uuid, span: EventSpan) -> (r: EventInstance)
        ensures
            r.parent_id() == parent_id,
            r.span() == span,
    {
        EventInstance { parent_id, span }
    }

    /// The span of the occurrence.
    pub fn get_span(&self) -> (r: EventSpan)
        ensures
            r == self.span(),
    {
        self.span
    }

    /// The id of the recurring event.
    pub fn get_parent_id(&self) -> (r: Uuid)
        ensures
            r == self.parent_id(),
    {
        self.parent_id
    }
}

impl ToPlain<EventPlain> for EventInstance {
    open spec fn plain_form(self, plain: EventPlain) -> bool {
        &&& plain.id is None
        &&& plain.parent_id == Some(self.parent_id())
        &&& plain.start_date == Some(self.span().date_span().start())
        &&& plain.end_date == Some(self.span().date_span().end())
        &&& plain.start_time == self.span().start_time()
        &&& plain.end_time == self.span().end_time()
        &&& plain.recurrence is None
        &&& plain.last_modified is None
    }

    fn into_plain(self) -> (r: EventPlain) {
        EventPlain {
            id: None,
            parent_id: Some(self.parent_id),
            start_date: Some(self.span.get_start_date()),
            end_date: Some(self.span.get_end_date()),
            start_time: self.span.get_start_time(),
            end_time: self.span.get_end_time(),
            recurrence: None,
            last_modified: None,
        }
    }
}

/// An event: one that recurs, or one that does not.
#[derive(Debug)]
pub enum Event {
    Recurring(EventRecurring),
    Single(EventSingle),
}

impl ToPlain<EventPlain> for Event {
    open spec fn plain_form(self, plain: EventPlain) -> bool {
        match self {
            Event::Recurring(event) => event.plain_form(plain),
            Event::Single(event) => event.plain_form(plain),
        }
    }

    fn into_plain(self) -> (r: EventPlain) {
        match self {
            Event::Recurring(e) => e.into_plain(),
            Event::Single(e) => e.into_plain(),
        }
    }
}

impl ToPlain<Vec<EventPlain>> for Vec<Event> {
    open spec fn plain_form(self, plain: Vec<EventPlain>) -> bool {
        &&& plain@.len() == self@.len()
        &&& forall|i: int| 0 <= i < self@.len() ==> (#[trigger] self@[i]).plain_form(plain@[i])
    }

    fn into_plain(self) -> (r: Vec<EventPlain>) {
        let mut plains: Vec<EventPlain> = Vec::new();
        let ghost events = self@;
        for event in it: self.into_iter()
            invariant
                it.seq() == events,
                plains@.len() == it.index(),
                forall|i: int|
                    0 <= i < it.index() ==> (#[trigger] events[i]).plain_form(plains@[i]),
        {
            plains.push(event.into_plain());
        }
        plains
    }
}

impl Event {
    /// Whether the event is what converting the plain event gives, for a plain
    /// event that can be converted: a recurring event where the plain event
    /// has a recurrence, else a single event.
    pub open spec fn converted_from(self, value: EventPlain) -> bool {
        match value.recurrence {
            Some(recurrence) => {
                &&& self matches Event::Recurring(event)
                &&& Some(event.id()) == value.id
                &&& span_of_plain(event.span(), value)
                &&& Some(event.last_modified()) == value.last_modified
                &&& Ok::<RuleView, RRuleParseError>(event.recurrence().rule) == parse_spec(
                    recurrence.rrule->0@,
                )
                &&& event.recurrence().exdates == dates_or_none(recurrence.exdates)
                &&& event.recurrence().rdates == dates_or_none(recurrence.rdates)
            },
            None => {
                &&& self matches Event::Single(event)
                &&& Some(event.id()) == value.id
                &&& event.parent_id() == value.parent_id
                &&& span_of_plain(event.span(), value)
                &&& Some(event.last_modified()) == value.last_modified
            },
        }
    }

    /// Converts a plain event into a typed one. It fails with the error that
    /// `conversion_error` names, and succeeds where that names none.
    pub fn try_from(value: EventPlain) -> (r: Result<Event, FromPlainError>)
        ensures
            match conversion_error(value) {
                Some(error) => r == Err::<Event, FromPlainError>(error),
                None => r matches Ok(event) && event.converted_from(value),
            },
    {
        let (start_date, end_date) = match (value.start_date, value.end_date) {
            (Some(start_date), Some(end_date)) => (start_date, end_date),
            _ => {
                return Err(FromPlainError::MissingField);
            },
        };
        let span = match (value.start_time, value.end_time) {
            (Some(start_time), Some(end_time)) => EventSpan::DateTime(
                EventDateTimeSpan::unchecked(
                    DateTime::new(start_date, start_time),
                    DateTime::new(end_date, end_time),
                ),
            ),
            (None, None) => EventSpan::Date(EventDateSpan::unchecked(start_date, end_date)),
            _ => {
                return Err(FromPlainError::InvalidSpan);
            },
        };
        let id = match value.id {
            Some(id) => id,
            None => {
                return Err(FromPlainError::MissingField);
            },
        };
        let last_modified = match value.last_modified {
            Some(last_modified) => last_modified,
            None => {
                return Err(FromPlainError::MissingField);
            },
        };
        match value.recurrence {
            Some(plain) => match EventRecurrence::try_from(plain) {
                Ok(recurrence) => Ok(
                    Event::Recurring(EventRecurring { id, span, recurrence, last_modified }),
                ),
                Err(error) => Err(error),
            },
            None => Ok(
                Event::Single(EventSingle { id, parent_id: value.parent_id, last_modified, span }),
            ),
        }
    }
}

} // verus!
