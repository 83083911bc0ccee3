//! The time window around an anchor: thirty days before it and thirty days
//! after it, in calendar days.
//!
//! A moment is held as a day number and a time of day, so that a shift by
//! days is plain arithmetic on the day number. Reading a moment from text,
//! shifting it and writing it as text are done by `chrono`.

use chrono::{Datelike, Days, NaiveDate, NaiveDateTime, NaiveTime, Timelike};
use vstd::prelude::*;

verus! {

/// Days from the anchor to either end of the window.
pub const WINDOW_DAYS: u64 = 30;

/// The day number of the earliest date that can be represented: January 1
/// of the year -262143.
pub const MIN_DAY: i32 = -95_746_129;

/// The day number of the latest date that can be represented: December 31
/// of the year 262142.
pub const MAX_DAY: i32 = 95_745_399;

/// A moment without time zone.
///
/// `day` counts the days of the proleptic Gregorian calendar, January 1 of
/// the year 1 being day 1. `second` counts the seconds since midnight.
/// `nano` counts the nanoseconds since that second; during a leap second it
/// goes on beyond 999,999,999 while `second` stays at the 59th of its minute.
#[derive(Debug, Clone, Copy, PartialEq, Eq, Structural)]
pub struct Timestamp {
    pub day: i32,
    pub second: u32,
    pub nano: u32,
}

impl Timestamp {
    /// The moment exists: its day lies within the range of dates that can be
    /// represented, and its time of day is a time of day.
    pub open spec fn representable(self) -> bool {
        &&& MIN_DAY <= self.day <= MAX_DAY
        &&& self.second < 86_400
        &&& self.nano < 2_000_000_000
        &&& self.nano >= 1_000_000_000 ==> self.second % 60 == 59
    }

    /// The same time of day `delta` days later (earlier where `delta` is
    /// negative), where that day can be represented.
    pub open spec fn shifted(self, delta: int) -> Option<Timestamp> {
        if self.representable() && MIN_DAY <= self.day + delta <= MAX_DAY {
            Some(Timestamp { day: (self.day + delta) as i32, second: self.second, nano: self.nano })
        } else {
            None
        }
    }
}

/// Why no window could be given.
#[derive(Debug, Clone, Copy, PartialEq, Eq, Structural)]
pub enum WindowError {
    /// No moment can be read from the anchor: it is not written as
    /// `2023-05-15T00:00:00Z` is.
    Unparseable,
    /// An end of the window lies beyond the dates that can be represented.
    OutOfRange,
}

#[verifier::external_type_specification]
#[verifier::external_body]
pub struct ExParseError(chrono::ParseError);

/// What `chrono` reads from `text` under the format `%FT%TZ`: the moment, or
/// `None` where it reads none.
pub uninterp spec fn parsed_timestamp(text: Seq<char>) -> Option<Timestamp>;

/// What `chrono` writes for the moment `t` under the format `%FT%TZ`.
pub uninterp spec fn rendered_timestamp(t: Timestamp) -> Seq<char>;

/// `NaiveDateTime::parse_from_str(text, "%FT%TZ")`, the moment taken apart
/// into day number, second of the day and nanosecond.
///
/// The result depends on `text` alone. A moment that was read exists: every
/// `NaiveDateTime` lies within `NaiveDate::MIN` and `NaiveDate::MAX` and
/// holds a valid time of day.
#[verifier::external_body]
fn parse_timestamp(text: &str) -> (r: Result<Timestamp, chrono::ParseError>)
    ensures
        match r {
            Ok(t) => parsed_timestamp(text@) == Some(t) && t.representable(),
            Err(_) => parsed_timestamp(text@) is None,
        },
{
    match NaiveDateTime::parse_from_str(text, "%FT%TZ") {
        Ok(moment) => Ok(
            Timestamp {
                day: moment.num_days_from_ce(),
                second: moment.num_seconds_from_midnight(),
                nano: moment.nanosecond(),
            },
        ),
        Err(e) => Err(e),
    }
}

/// `NaiveDateTime::checked_sub_days(Days::new(days))` on the moment `t`.
///
/// It moves the date back by `days` days and keeps the time of day. It gives
/// `None` where the date would fall before `NaiveDate::MIN`; so does this
/// function where `t` itself is no moment.
#[verifier::external_body]
fn days_before(t: Timestamp, days: u64) -> (r: Option<Timestamp>)
    ensures
        r == t.shifted(-(days as int)),
{
    let date = NaiveDate::from_num_days_from_ce_opt(t.day)?;
    let time = NaiveTime::from_num_seconds_from_midnight_opt(t.second, t.nano)?;
    let moved = NaiveDateTime::new(date, time).checked_sub_days(Days::new(days))?;
    Some(
        Timestamp {
            day: moved.num_days_from_ce(),
            second: moved.num_seconds_from_midnight(),
            nano: moved.nanosecond(),
        },
    )
}

/// `NaiveDateTime::checked_add_days(Days::new(days))` on the moment `t`.
///
/// It moves the date on by `days` days and keeps the time of day. It gives
/// `None` where the date would fall after `NaiveDate::MAX`; so does this
/// function where `t` itself is no moment.
#[verifier::external_body]
fn days_after(t: Timestamp, days: u64) -> (r: Option<Timestamp>)
    ensures
        r == t.shifted(days as int),
{
    let date = NaiveDate::from_num_days_from_ce_opt(t.day)?;
    let time = NaiveTime::from_num_seconds_from_midnight_opt(t.second, t.nano)?;
    let moved = NaiveDateTime::new(date, time).checked_add_days(Days::new(days))?;
    Some(
        Timestamp {
            day: moved.num_days_from_ce(),
            second: moved.num_seconds_from_midnight(),
            nano: moved.nanosecond(),
        },
    )
}

/// `NaiveDateTime::format("%FT%TZ")`, written out with `to_string`, for the
/// moment `t`; `None` where `t` is no moment.
///
/// The text depends on `t` alone.
#[verifier::external_body]
fn render_timestamp(t: Timestamp) -> (r: Option<String>)
    ensures
        match r {
            Some(text) => t.representable() && text@ == rendered_timestamp(t),
            None => !t.representable(),
        },
{
    let date = NaiveDate::from_num_days_from_ce_opt(t.day)?;
    let time = NaiveTime::from_num_seconds_from_midnight_opt(t.second, t.nano)?;
    Some(NaiveDateTime::new(date, time).format("%FT%TZ").to_string())
}

/// The two ends of the window around `anchor`, where both exist.
pub open spec fn window_of(anchor: Timestamp) -> Option<(Timestamp, Timestamp)> {
    match (anchor.shifted(-(WINDOW_DAYS as int)), anchor.shifted(WINDOW_DAYS as int)) {
        (Some(since), Some(until)) => Some((since, until)),
        _ => None,
    }
}

/// The moment `WINDOW_DAYS` days before `anchor` and the moment
/// `WINDOW_DAYS` days after it.
pub fn window_around(anchor: Timestamp) -> (r: Result<(Timestamp, Timestamp), WindowError>)
    ensures
        match r {
            Ok(ends) => window_of(anchor) == Some(ends),
            Err(e) => e == WindowError::OutOfRange && window_of(anchor) is None,
        },
{
    match days_before(anchor, WINDOW_DAYS) {
        Some(since) => match days_after(anchor, WINDOW_DAYS) {
            Some(until) => Ok((since, until)),
            None => Err(WindowError::OutOfRange),
        },
        None => Err(WindowError::OutOfRange),
    }
}

/// The window around the moment written in `input_date`, each end written
/// as the anchor is: `since`, thirty days before it, and `until`, thirty
/// days after it.
pub fn get_since_and_until(input_date: &str) -> (r: Result<(String, String), WindowError>)
    ensures
        match parsed_timestamp(input_date@) {
            None => r == Err::<(String, String), WindowError>(WindowError::Unparseable),
            Some(anchor) => match window_of(anchor) {
                None => r == Err::<(String, String), WindowError>(WindowError::OutOfRange),
                Some(ends) => r matches Ok(texts) && texts.0@ == rendered_timestamp(ends.0)
                    && texts.1@ == rendered_timestamp(ends.1),
            },
        },
{
    let anchor: Timestamp = match parse_timestamp(input_date) {
        Ok(t) => t,
        Err(_) => {
            return Err(WindowError::Unparseable);
        },
    };
    let ends: (Timestamp, Timestamp) = match window_around(anchor) {
        Ok(ends) => ends,
        Err(e) => {
            return Err(e);
        },
    };
    match (render_timestamp(ends.0), render_timestamp(ends.1)) {
        (Some(since), Some(until)) => Ok((since, until)),
        _ => Err(WindowError::OutOfRange),
    }
}

/// The window is symmetric in days: its ends lie `WINDOW_DAYS` days from the
/// anchor on either side, sixty days apart, at the anchor's time of day.
pub proof fn lemma_window_is_symmetric(anchor: Timestamp)
    requires
        window_of(anchor) is Some,
    ensures
        ({
            let (since, until) = window_of(anchor)->0;
            &&& since.day == anchor.day - WINDOW_DAYS
            &&& until.day == anchor.day + WINDOW_DAYS
            &&& until.day - since.day == 2 * WINDOW_DAYS
            &&& since.second == anchor.second && until.second == anchor.second
            &&& since.nano == anchor.nano && until.nano == anchor.nano
            &&& since.representable() && until.representable()
        }),
{
}

/// A window exists exactly for the anchors that lie at least `WINDOW_DAYS`
/// days within the range of dates that can be represented.
pub proof fn lemma_window_exists(anchor: Timestamp)
    ensures
        window_of(anchor) is Some <==> anchor.representable() && MIN_DAY + WINDOW_DAYS
            <= anchor.day <= MAX_DAY - WINDOW_DAYS,
{
}

} // verus!
