//! Recurrence expressions (cron syntax) and their next trigger instant.
//!
//! Instants are whole seconds of the local wall clock, counted from
//! 1970-01-01 00:00:00 of that clock. Expressions are evaluated on that clock
//! directly, with no time-zone conversion.
use std::str::FromStr;
use chrono::{DateTime, Utc};
use vstd::prelude::*;

verus! {

/// The last instant the clock covers: 9999-12-31 23:59:59.
pub const LATEST_INSTANT: i64 = 253402300799;

#[verifier::external_type_specification]
#[verifier::external_body]
pub struct ExCronSchedule(cron::Schedule);

/// Whether cron accepts `expression` as a schedule.
pub uninterp spec fn cron_accepts(expression: Seq<char>) -> bool;

/// The first instant strictly after `after` that the cron expression matches,
/// if there is one.
pub uninterp spec fn cron_next(expression: Seq<char>, after: i64) -> Option<i64>;

/// The next trigger instant of `expression` strictly after `after`, within the
/// clock's range.
pub open spec fn next_match(expression: Seq<char>, after: i64) -> Option<i64> {
    if after <= LATEST_INSTANT {
        match cron_next(expression, after) {
            Some(t) => if t > after {
                Some(t)
            } else {
                None
            },
            None => None,
        }
    } else {
        None
    }
}

/// A parsed recurrence expression, together with its source text.
pub struct Pattern {
    source: String,
    schedule: cron::Schedule,
}

impl View for Pattern {
    type V = Seq<char>;

    closed spec fn view(&self) -> Seq<char> {
        self.source@
    }
}

/// Relies on `cron::Schedule::from_str`: it accepts or refuses an expression
/// by its text alone.
#[verifier::external_body]
fn cron_parse(expression: &str) -> (r: Option<cron::Schedule>)
    ensures
        r.is_some() == cron_accepts(expression@),
{
    cron::Schedule::from_str(expression).ok()
}

/// Relies on `cron::Schedule::after(..).next()` on a UTC clock: it returns the
/// first matching instant at or past `after` plus one second, so strictly later.
/// `pattern.schedule` is always the parse of `pattern.source`.
#[verifier::external_body]
fn cron_first_after(pattern: &Pattern, after: i64) -> (r: Option<i64>)
    requires
        after <= LATEST_INSTANT,
    ensures
        r == cron_next(pattern@, after),
        r matches Some(t) ==> t > after,
{
    match DateTime::<Utc>::from_timestamp(after, 0) {
        Some(start) => pattern.schedule.after(&start).next().map(|t| t.timestamp()),
        None => None,
    }
}

/// Parses a recurrence expression; `None` when cron refuses it.
pub fn parse(expression: &str) -> (r: Option<Pattern>)
    ensures
        r.is_some() == cron_accepts(expression@),
        r matches Some(p) ==> p@ == expression@,
{
    match cron_parse(expression) {
        Some(schedule) => Some(Pattern { source: expression.to_owned(), schedule }),
        None => None,
    }
}

/// The earliest instant strictly after `after` that matches `pattern`.
pub fn next_occurrence(pattern: &Pattern, after: i64) -> (r: Option<i64>)
    ensures
        r == next_match(pattern@, after),
{
    if after <= LATEST_INSTANT {
        cron_first_after(pattern, after)
    } else {
        None
    }
}

} // verus!
