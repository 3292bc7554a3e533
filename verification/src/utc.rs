//! Instants in UTC, written and read back by chrono.

use chrono::{Datelike, NaiveDate, TimeZone, Utc};
use vstd::prelude::*;

use crate::calendar::{civil_of, day_number, day_of, in_utc_range, is_civil, Civil};
use crate::calendar::DAY;
use crate::calendar::{
    law_every_day_has_one_date, lemma_instants_of_years, lemma_range_of_years,
};
use crate::date_text::{axis_pattern, date_pattern, date_text, day_text, moment_pattern, utc_text};
use crate::date_text::law_date_text_is_injective;

verus! {

/// Whether the date is one that chrono can hold: a day that exists, in the
/// years from -262143 to 262142.
pub open spec fn is_chrono_date(c: Civil) -> bool {
    is_civil(c) && -262_143 <= c.year <= 262_142
}

/// A date by its year, month and day.
#[derive(Clone, Copy, Debug, PartialEq, Eq, Structural)]
pub struct CalendarDate {
    pub year: i32,
    pub month: u32,
    pub day: u32,
}

impl View for CalendarDate {
    type V = Civil;

    open spec fn view(&self) -> Civil {
        Civil { year: self.year as int, month: self.month as int, day: self.day as int }
    }
}

/// Writes the instant `secs` by a pattern: chrono's `DateTime::format` on the
/// instant that `Utc.timestamp_opt(secs, 0)` gives.
///
/// Trusted: for an instant from the first second of year -262143 to the last
/// of year 262142, and for one of the three patterns named here, the text is
/// that of the proleptic Gregorian date and the time of day of the instant in
/// UTC. `%m`, `%d`, `%H` and `%M` are written in two digits, `%Y` in four from
/// year 0 to 9999, and otherwise with a sign and at least four digits.
#[verifier::external_body]
pub(crate) fn format_utc(secs: i64, pattern: &str) -> (text: String)
    requires
        in_utc_range(secs as int),
        pattern@ == date_pattern() || pattern@ == axis_pattern() || pattern@ == moment_pattern(),
    ensures
        text@ == utc_text(secs as int, pattern@),
{
    Utc.timestamp_opt(secs, 0).unwrap().format(pattern).to_string()
}

/// Reads a date: chrono's `NaiveDate::parse_from_str`.
///
/// Trusted: the text of a date that chrono can hold is read back as that date,
/// its year, month and day. Of other texts nothing is claimed, and none is
/// handed over.
#[verifier::external_body]
pub(crate) fn parse_date(text: &str, pattern: &str) -> (date: Option<CalendarDate>)
    requires
        pattern@ == date_pattern(),
        exists|c: Civil| is_chrono_date(c) && text@ == #[trigger] date_text(c),
    ensures
        date is Some,
        is_chrono_date(date->0@) && text@ == date_text(date->0@),
{
    let date = NaiveDate::parse_from_str(text, pattern).ok()?;
    Some(CalendarDate { year: date.year(), month: date.month(), day: date.day() })
}

/// The instant of a time of day on a date, if there is one.
pub open spec fn instant_at(c: Civil, hour: int, minute: int, second: int) -> Option<i64> {
    if is_chrono_date(c) && 0 <= hour < 24 && 0 <= minute < 60 && 0 <= second < 60 {
        Some((day_number(c) * DAY + hour * 3600 + minute * 60 + second) as i64)
    } else {
        None
    }
}

/// The instant of a time of day on a date, in UTC: chrono's
/// `NaiveDate::and_hms_opt`, with the timestamp of what it gives.
///
/// Trusted: there is such an instant exactly if chrono can hold the date and
/// the time lies between 00:00:00 and 23:59:59, and it is the number of the
/// day times 86400 plus the seconds since midnight.
#[verifier::external_body]
pub(crate) fn timestamp_at(
    date: CalendarDate,
    hour: u32,
    minute: u32,
    second: u32,
) -> (instant: Option<i64>)
    ensures
        instant == instant_at(date@, hour as int, minute as int, second as int),
{
    let day = NaiveDate::from_ymd_opt(date.year, date.month, date.day)?;
    Some(day.and_hms_opt(hour, minute, second)?.and_utc().timestamp())
}

/// The date of an instant in UTC, as `2024-02-29`.
pub fn utc_date(secs: i64) -> (text: String)
    requires
        in_utc_range(secs as int),
    ensures
        text@ == day_text(day_of(secs as int)),
        is_chrono_date(civil_of(day_of(secs as int))),
{
    proof {
        law_every_day_has_one_date(day_of(secs as int));
        lemma_range_of_years(secs as int);
    }
    format_utc(secs, "%Y-%m-%d")
}

/// The label of an instant on the time axis, as `02/29 17:05`.
pub fn axis_text(secs: i64) -> (text: String)
    requires
        in_utc_range(secs as int),
    ensures
        text@ == utc_text(secs as int, axis_pattern()),
{
    format_utc(secs, "%m/%d %H:%M")
}

/// An instant as `2024-02-29 17:05`.
pub fn moment_text(secs: i64) -> (text: String)
    requires
        in_utc_range(secs as int),
    ensures
        text@ == utc_text(secs as int, moment_pattern()),
{
    format_utc(secs, "%Y-%m-%d %H:%M")
}

/// Noon in UTC of the day that the date `text` names.
pub fn noon_of(text: &str) -> (instant: Option<i64>)
    requires
        exists|c: Civil| is_chrono_date(c) && text@ == #[trigger] date_text(c),
    ensures
        instant is Some,
        forall|c: Civil| is_chrono_date(c) && text@ == #[trigger] date_text(c) ==> instant->0
            == day_number(c) * DAY + 43_200,
{
    match parse_date(text, "%Y-%m-%d") {
        Some(date) => {
            proof {
                assert forall|c: Civil| is_chrono_date(c) && text@ == #[trigger] date_text(
                    c,
                ) implies c == date@ by {
                    law_date_text_is_injective(c, date@);
                }
                assert(in_utc_range(day_number(date@) * DAY)) by {
                    lemma_instants_of_years(date@);
                }
            }
            timestamp_at(date, 12, 0, 0)
        },
        None => None,
    }
}

} // verus!
