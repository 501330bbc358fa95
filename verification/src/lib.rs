//! A calendar-event engine.
//!
//! The heart of the crate is the expansion of recurrence rules, which are
//! written in a subset of the RRULE grammar of RFC 5545:
//!
//! - [`recurrence::parser`] reads the text of a rule into a typed
//!   [`recurrence::RecurrenceRule`], and `RecurrenceRule::to_string` writes
//!   the canonical text of a rule;
//! - [`recurrence::filters`] decides of one day whether it passes the filters
//!   of a rule and lies far enough from the occurrence before it;
//! - [`recurrence::instance`] binds a rule to the start date of an event,
//!   fills in the filters that the rule leaves to that date, and hands out
//!   the dates on which the rule occurs, in ascending order;
//! - [`recurrence::laws`] and [`recurrence::roundtrip`] state and prove what
//!   holds of every rule.
//!
//! Around it stands the data model: [`date`] and [`time`] for the dates and
//! times of events, [`span`] for their extent, [`event`] for recurring and
//! single events and the plain form in which they travel, [`calendar`] for
//! the calendars that hold them, and [`helpers`] for the addresses under
//! which a service offers them.
//!
//! All dates and times are without a time zone; they are taken to be UTC.

pub mod calendar;
pub mod date;
pub mod event;
pub mod helpers;
pub mod recurrence;
pub mod span;
pub mod text;
pub mod time;
