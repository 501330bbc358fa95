//! The extent of an event: from a date to a date, or from a point in time to
//! a point in time.
//!
//! A span is valid where it does not end before it starts. The constructors
//! `new` give only valid spans; a span that was converted from a plain event
//! holds what the plain event held, and `is_valid` tells whether that is a
//! valid span.

use crate::date::in_date_range;
use crate::date::Date;
use crate::time::whole_days;
use crate::time::DateTime;
use crate::time::Duration;
use crate::time::Time;
use crate::time::NANOS_PER_DAY;
use vstd::prelude::*;

verus! {

/// A span of whole days, from its start date to its end date.
#[derive(Copy, Clone, Debug, PartialEq, Eq, Structural)]
pub struct EventDateSpan {
    start: Date,
    end: Date,
}

impl EventDateSpan {
    /// The date on which the span starts.
    pub closed spec fn start(self) -> Date {
        self.start
    }

    /// The date on which the span ends.
    pub closed spec fn end(self) -> Date {
        self.end
    }

    /// Whether the span does not end before it starts.
    pub open spec fn wf(self) -> bool {
        self.start()@ <= self.end()@
    }

    /// The span from `start` to `end`, if `end` is not before `start`.
    pub fn new(start: Date, end: Date) -> (r: Option<EventDateSpan>)
        ensures
            start@ <= end@ ==> r is Some && r.unwrap().start() == start && r.unwrap().end() == end,
            start@ > end@ ==> r is None,
    {
        if start.day_number() <= end.day_number() {
            Some(EventDateSpan { start, end })
        } else {
            None
        }
    }

    /// The span that holds the two dates as they are.
    pub(crate) fn unchecked(start: Date, end: Date) -> (r: EventDateSpan)
        ensures
            r.start() == start,
            r.end() == end,
    {
        EventDateSpan { start, end }
    }

    /// The date on which the span starts.
    pub fn get_start(&self) -> (r: Date)
        ensures
            r == self.start(),
    {
        self.start
    }

    /// The date on which the span ends.
    pub fn get_end(&self) -> (r: Date)
        ensures
            r == self.end(),
    {
        self.end
    }

    /// Whether the span does not end before it starts.
    pub fn is_valid(&self) -> (r: bool)
        ensures
            r == self.wf(),
    {
        self.start.day_number() <= self.end.day_number()
    }
}

/// A span from one point in time to another. Times carry no time zone; they
/// are taken to be UTC.
#[derive(Copy, Clone, Debug, PartialEq, Eq, Structural)]
pub struct EventDateTimeSpan {
    start: DateTime,
    end: DateTime,
}

impl EventDateTimeSpan {
    /// The point in time at which the span starts.
    pub closed spec fn start(self) -> DateTime {
        self.start
    }

    /// The point in time at which the span ends.
    pub closed spec fn end(self) -> DateTime {
        self.end
    }

    /// Whether the span does not end before it starts.
    pub open spec fn wf(self) -> bool {
        self.start()@ <= self.end()@
    }

    /// The span of whole days that is left when the times are dropped.
    pub closed spec fn dates(self) -> EventDateSpan {
        EventDateSpan { start: self.start.date_part(), end: self.end.date_part() }
    }

    /// The span from `start` to `end`, if `end` is not before `start`.
    pub fn new(start: DateTime, end: DateTime) -> (r: Option<EventDateTimeSpan>)
        ensures
            start@ <= end@ ==> r is Some && r.unwrap().start() == start && r.unwrap().end() == end,
            start@ > end@ ==> r is None,
    {
        if start.is_not_after(&end) {
            Some(EventDateTimeSpan { start, end })
        } else {
            None
        }
    }

    /// The span that holds the two points in time as they are.
    pub(crate) fn unchecked(start: DateTime, end: DateTime) -> (r: EventDateTimeSpan)
        ensures
            r.start() == start,
            r.end() == end,
    {
        EventDateTimeSpan { start, end }
    }

    /// The point in time at which the span starts.
    pub fn get_start(&self) -> (r: DateTime)
        ensures
            r == self.start(),
    {
        self.start
    }

    /// The point in time at which the span ends.
    pub fn get_end(&self) -> (r: DateTime)
        ensures
            r == self.end(),
    {
        self.end
    }

    /// Whether the span does not end before it starts.
    pub fn is_valid(&self) -> (r: bool)
        ensures
            r == self.wf(),
    {
        self.start.is_not_after(&self.end)
    }

    /// The span of whole days that is left when the times are dropped.
    pub fn as_date_span(&self) -> (r: EventDateSpan)
        ensures
            r == self.dates(),
            r.start() == self.start().date_part(),
            r.end() == self.end().date_part(),
    {
        EventDateSpan { start: self.start.date(), end: self.end.date() }
    }
}

/// The extent of an event: whole days, or from one point in time to another.
#[derive(Copy, Clone, Debug, PartialEq, Eq, Structural)]
pub enum EventSpan {
    Date(EventDateSpan),
    DateTime(EventDateTimeSpan),
}

impl EventSpan {
    /// Whether the span does not end before it starts.
    pub open spec fn wf(self) -> bool {
        match self {
            EventSpan::Date(span) => span.wf(),
            EventSpan::DateTime(span) => span.wf(),
        }
    }

    /// The dates of the span: its own, or those of its points in time.
    pub open spec fn date_span(self) -> EventDateSpan {
        match self {
            EventSpan::Date(span) => span,
            EventSpan::DateTime(span) => span.dates(),
        }
    }

    /// The time of day at which the span starts, where it has times.
    pub open spec fn start_time(self) -> Option<Time> {
        match self {
            EventSpan::Date(_) => None,
            EventSpan::DateTime(span) => Some(span.start().time_part()),
        }
    }

    /// The time of day at which the span ends, where it has times.
    pub open spec fn end_time(self) -> Option<Time> {
        match self {
            EventSpan::Date(_) => None,
            EventSpan::DateTime(span) => Some(span.end().time_part()),
        }
    }

    /// The length of the span in nanoseconds: for a span of whole days, the
    /// days from its start date to its end date.
    pub open spec fn length(self) -> int {
        match self {
            EventSpan::Date(span) => (span.end()@ - span.start()@) * NANOS_PER_DAY,
            EventSpan::DateTime(span) => span.end()@ - span.start()@,
        }
    }

    /// Whether the span does not end before it starts.
    pub fn is_valid(&self) -> (r: bool)
        ensures
            r == self.wf(),
    {
        match self {
            EventSpan::Date(span) => span.is_valid(),
            EventSpan::DateTime(span) => span.is_valid(),
        }
    }

    /// The dates of the span.
    pub fn get_date_span(&self) -> (r: EventDateSpan)
        ensures
            r == self.date_span(),
    {
        match self {
            EventSpan::Date(date_span) => *date_span,
            EventSpan::DateTime(datetime_span) => datetime_span.as_date_span(),
        }
    }

    /// The points in time of the span, where it has times.
    pub fn get_date_time_span(&self) -> (r: Option<EventDateTimeSpan>)
        ensures
            r == match *self {
                EventSpan::Date(_) => None,
                EventSpan::DateTime(span) => Some(span),
            },
    {
        match self {
            EventSpan::Date(_) => None,
            EventSpan::DateTime(datetime_span) => Some(*datetime_span),
        }
    }

    /// The date on which the span starts.
    pub fn get_start_date(&self) -> (r: Date)
        ensures
            r == self.date_span().start(),
    {
        self.get_date_span().get_start()
    }

    /// The date on which the span ends.
    pub fn get_end_date(&self) -> (r: Date)
        ensures
            r == self.date_span().end(),
    {
        self.get_date_span().get_end()
    }

    /// The time of day at which the span starts, where it has times.
    pub fn get_start_time(&self) -> (r: Option<Time>)
        ensures
            r == self.start_time(),
    {
        match self {
            EventSpan::Date(_) => None,
            EventSpan::DateTime(span) => Some(span.get_start().time()),
        }
    }

    /// The time of day at which the span ends, where it has times.
    pub fn get_end_time(&self) -> (r: Option<Time>)
        ensures
            r == self.end_time(),
    {
        match self {
            EventSpan::Date(_) => None,
            EventSpan::DateTime(span) => Some(span.get_end().time()),
        }
    }

    /// The length of the span. It is negative where the span is not valid.
    pub fn get_duration(&self) -> (r: Duration)
        ensures
            r@ == self.length(),
            self.wf() ==> r@ >= 0,
    {
        match self {
            EventSpan::Date(span) => {
                let days: i64 = span.get_end().day_number() as i64 - span.get_start().day_number()
                    as i64;
                Duration::days(days)
            },
            EventSpan::DateTime(span) => span.get_end().signed_duration_since(&span.get_start()),
        }
    }

    /// The span of whole days that starts on `start` and ends as many days
    /// later as the duration has whole days. The end date has to be a date
    /// that a [`Date`] can hold.
    pub fn from_date_and_duration(start: Date, duration: Duration) -> (r: EventSpan)
        requires
            in_date_range(start@ + whole_days(duration@)),
        ensures
            r matches EventSpan::Date(span) && span.start() == start && span.end()@ == start@
                + whole_days(duration@),
            r.wf() <==> whole_days(duration@) >= 0,
    {
        let end = start.checked_add_days(duration.num_days()).unwrap();
        EventSpan::Date(EventDateSpan { start, end })
    }

    /// The span that starts at `start` and lasts for the duration. The date
    /// on which it ends has to be a date that a [`Date`] can hold.
    pub fn from_date_time_and_duration(start: DateTime, duration: Duration) -> (r: EventSpan)
        requires
            in_date_range((start@ + duration@) / (NANOS_PER_DAY as int)),
        ensures
            r matches EventSpan::DateTime(span) && span.start() == start && span.end()@ == start@
                + duration@,
            r.wf() <==> duration@ >= 0,
    {
        let end = start.checked_add(&duration).unwrap();
        EventSpan::DateTime(EventDateTimeSpan { start, end })
    }
}

} // verus!
