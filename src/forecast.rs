//! Forecast responses as the checks receive them.
//!
//! Each series holds parallel arrays indexed by sample; an array may be
//! shorter than `time`, and an entry may be missing (`None`), which is not
//! the same as zero.
use vstd::prelude::*;

verus! {

/// Hourly samples: temperature in thousandths of a degree Celsius,
/// precipitation and snowfall in thousandths of a millimetre.
#[derive(Debug, Clone, PartialEq, Eq)]
pub struct HourlySeries {
    pub time: Vec<String>,
    pub temperature: Vec<Option<i64>>,
    pub precipitation: Vec<Option<i64>>,
    pub snowfall: Vec<Option<i64>>,
}

/// Daily aggregates: temperatures in thousandths of a degree Celsius,
/// precipitation sums in thousandths of a millimetre.
#[derive(Debug, Clone, PartialEq, Eq)]
pub struct DailySeries {
    pub time: Vec<String>,
    pub temperature_max: Vec<Option<i64>>,
    pub temperature_min: Vec<Option<i64>>,
    pub precipitation_sum: Vec<Option<i64>>,
}

/// A forecast service's answer, told apart by which fields it carries.
#[derive(Debug, Clone, PartialEq, Eq)]
pub enum ApiResponse {
    Error { reason: String },
    Hourly(HourlySeries),
    Daily(DailySeries),
}

/// Why a check produced no result.
#[derive(Debug, Clone, PartialEq, Eq)]
pub enum CheckError {
    /// The service reported an error.
    Api { reason: String },
    /// Hourly data came where daily data was expected, or the reverse.
    UnexpectedKind,
    /// The entry of `time` at this index is not a timestamp of the expected form.
    BadTimestamp { index: usize },
}

/// The entry at `i`, or `None` where the array is too short.
pub open spec fn value_at(s: Seq<Option<i64>>, i: int) -> Option<i64> {
    if 0 <= i < s.len() {
        s[i]
    } else {
        None
    }
}

/// Reads the entry at `i` of a parallel array.
pub fn entry_at(s: &Vec<Option<i64>>, i: usize) -> (r: Option<i64>)
    ensures
        r == value_at(s@, i as int),
{
    if i < s.len() {
        s[i]
    } else {
        None
    }
}

} // verus!
