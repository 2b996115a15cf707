//! Timestamps and calendar dates read from forecast text.
use chrono::{Datelike, NaiveDate, NaiveDateTime, Timelike};
use vstd::prelude::*;

verus! {

/// The hour of day of a timestamp written `YYYY-MM-DDTHH:MM`, or `None` where
/// the text is not such a timestamp.
pub uninterp spec fn hour_of(s: Seq<char>) -> Option<u32>;

/// The year, month and day of a date written `YYYY-MM-DD`, or `None` where the
/// text is not such a date.
pub uninterp spec fn date_of(s: Seq<char>) -> Option<(i32, u32, u32)>;

/// A calendar date.
#[derive(Debug, Clone, Copy, PartialEq, Eq)]
pub struct CivilDate {
    pub year: i32,
    /// Month of the year, counted from 1.
    pub month: u32,
    /// Day of the month, counted from 1.
    pub day: u32,
}

/// Relies on chrono's `NaiveDateTime::parse_from_str` with the format
/// `%Y-%m-%dT%H:%M`, and on `Timelike::hour`, which ranges from 0 to 23.
#[verifier::external_body]
pub(crate) fn parse_hour(s: &str) -> (r: Option<u32>)
    ensures
        r == hour_of(s@),
        r matches Some(h) ==> h < 24,
{
    NaiveDateTime::parse_from_str(s, "%Y-%m-%dT%H:%M").ok().map(|t| t.hour())
}

/// Relies on chrono's `NaiveDate::parse_from_str` with the format `%Y-%m-%d`,
/// and on `Datelike::month` (1 to 12) and `Datelike::day` (1 to 31).
#[verifier::external_body]
pub(crate) fn parse_date(s: &str) -> (r: Option<(i32, u32, u32)>)
    ensures
        r == date_of(s@),
        r matches Some(d) ==> 1 <= d.1 <= 12 && 1 <= d.2 <= 31,
{
    NaiveDate::parse_from_str(s, "%Y-%m-%d").ok().map(|d| (d.year(), d.month(), d.day()))
}

} // verus!
