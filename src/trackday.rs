//! Trackday windows over daily forecast aggregates.
use crate::calendar::{date_of, parse_date, CivilDate};
use crate::forecast::{entry_at, value_at, ApiResponse, CheckError, DailySeries};
use vstd::prelude::*;

verus! {

/// A trackday's lowest temperature must be above this (thousandths of a degree Celsius).
pub const TRACKDAY_MIN_TEMP: i64 = 8000;

/// A trackday's highest temperature must be above this (thousandths of a degree Celsius).
pub const TRACKDAY_MAX_TEMP: i64 = 15000;

/// Dry days needed before a trackday.
pub const DRY_DAYS_BEFORE: usize = 3;

/// Dry days needed after a trackday.
pub const DRY_DAYS_AFTER: usize = 2;

/// One day of the forecast with both temperatures and the precipitation sum known.
#[derive(Debug, Clone, Copy, PartialEq, Eq)]
pub struct DayRecord {
    pub date: CivilDate,
    pub min_temp: i64,
    pub max_temp: i64,
    /// The precipitation sum.
    pub precipitation: i64,
}

/// A day suited for track use.
#[derive(Debug, Clone, Copy, PartialEq, Eq)]
pub struct Trackday {
    pub date: CivilDate,
    pub min_temp: i64,
    pub max_temp: i64,
}

/// Whether day `i` is a trackday: it has three days before it and two after,
/// its lowest temperature is above 8 °C and its highest above 15 °C, and no
/// day from three before to two after has any precipitation.
pub open spec fn is_trackday(days: Seq<DayRecord>, i: int) -> bool {
    &&& DRY_DAYS_BEFORE <= i
    &&& i + DRY_DAYS_AFTER < days.len()
    &&& days[i].min_temp > TRACKDAY_MIN_TEMP
    &&& days[i].max_temp > TRACKDAY_MAX_TEMP
    &&& forall|j: int| i - DRY_DAYS_BEFORE <= j <= i + DRY_DAYS_AFTER ==> #[trigger] days[j].precipitation <= 0
}

pub open spec fn trackday_of(d: DayRecord) -> Trackday {
    Trackday { date: d.date, min_temp: d.min_temp, max_temp: d.max_temp }
}

/// The trackdays among the first `n` days, in order.
pub open spec fn trackdays_upto(days: Seq<DayRecord>, n: int) -> Seq<Trackday>
    decreases n,
{
    if n <= 0 {
        seq![]
    } else {
        let earlier = trackdays_upto(days, n - 1);
        if is_trackday(days, n - 1) {
            earlier.push(trackday_of(days[n - 1]))
        } else {
            earlier
        }
    }
}

/// The trackdays among `days`, in order.
pub open spec fn trackdays(days: Seq<DayRecord>) -> Seq<Trackday> {
    trackdays_upto(days, days.len() as int)
}

proof fn lemma_upto_unchanged(days: Seq<DayRecord>, a: int, b: int)
    requires
        0 <= a <= b,
        forall|k: int| a <= k < b ==> !is_trackday(days, k),
    ensures
        trackdays_upto(days, b) == trackdays_upto(days, a),
    decreases b - a,
{
    if b > a {
        lemma_upto_unchanged(days, a, b - 1);
    }
}

/// Whether no day from `start` to `end`, both included, has precipitation.
pub fn dry_between(days: &Vec<DayRecord>, start: usize, end: usize) -> (r: bool)
    requires
        end < days.len(),
    ensures
        r == forall|j: int| start <= j <= end ==> #[trigger] days@[j].precipitation <= 0,
{
    let mut j: usize = start;
    while j <= end
        invariant
            start <= j,
            end < days.len(),
            forall|k: int| start <= k < j ==> #[trigger] days@[k].precipitation <= 0,
        decreases end + 1 - j,
    {
        if days[j].precipitation > 0 {
            return false;
        }
        j = j + 1;
    }
    true
}

/// The trackdays among `days`, in order of the days.
pub fn select_trackdays(days: &Vec<DayRecord>) -> (r: Vec<Trackday>)
    ensures
        r@ == trackdays(days@),
{
    let end: usize = if days.len() >= DRY_DAYS_AFTER { days.len() - DRY_DAYS_AFTER } else { 0 };
    let mut out: Vec<Trackday> = Vec::new();
    proof {
        lemma_upto_unchanged(days@, 0, DRY_DAYS_BEFORE as int);
    }
    let mut i: usize = DRY_DAYS_BEFORE;
    while i < end
        invariant
            DRY_DAYS_BEFORE <= i,
            end + DRY_DAYS_AFTER <= days.len() || end == 0,
            i < end ==> i + DRY_DAYS_AFTER < days.len(),
            end <= days.len(),
            out@ == trackdays_upto(days@, i as int),
        decreases end - i,
    {
        let d = days[i];
        if d.min_temp > TRACKDAY_MIN_TEMP && d.max_temp > TRACKDAY_MAX_TEMP
            && dry_between(days, i - DRY_DAYS_BEFORE, i + DRY_DAYS_AFTER) {
            out.push(Trackday { date: d.date, min_temp: d.min_temp, max_temp: d.max_temp });
        }
        i = i + 1;
    }
    proof {
        if i < days.len() {
            lemma_upto_unchanged(days@, i as int, days.len() as int);
        } else {
            assert(i >= days.len());
            lemma_upto_unchanged(days@, days.len() as int, i as int);
        }
    }
    out
}

/// A day whose lowest temperature is exactly 8 °C is no trackday: the
/// threshold is strict.
pub proof fn lemma_min_temp_at_threshold_excluded(days: Seq<DayRecord>, i: int)
    requires
        0 <= i < days.len(),
        days[i].min_temp == TRACKDAY_MIN_TEMP,
    ensures
        !is_trackday(days, i),
{
}

/// Precipitation two days after a day rules that day out, even where the day
/// itself is dry.
pub proof fn lemma_rain_after_excludes(days: Seq<DayRecord>, i: int)
    requires
        0 <= i,
        i + 2 < days.len(),
        days[i + 2].precipitation > 0,
    ensures
        !is_trackday(days, i),
{
    assert(days[i + 2].precipitation > 0);
}

/// `t` is the trackday of some qualifying day among the first `n`.
pub open spec fn listed_from(days: Seq<DayRecord>, n: int, t: Trackday) -> bool {
    exists|i: int| 0 <= i < n && #[trigger] is_trackday(days, i) && t == trackday_of(days[i])
}

/// The selection lists exactly the trackdays: each entry is the trackday of a
/// qualifying day, and each qualifying day has its entry.
pub proof fn lemma_trackdays_listed(days: Seq<DayRecord>, n: int)
    requires
        0 <= n <= days.len(),
    ensures
        forall|k: int|
            0 <= k < trackdays_upto(days, n).len() ==> listed_from(days, n, #[trigger] trackdays_upto(days, n)[k]),
        forall|i: int|
            0 <= i < n && #[trigger] is_trackday(days, i) ==> trackdays_upto(days, n).contains(trackday_of(days[i])),
    decreases n,
{
    if n > 0 {
        lemma_trackdays_listed(days, n - 1);
        let earlier = trackdays_upto(days, n - 1);
        let cur = trackdays_upto(days, n);
        assert forall|k: int| 0 <= k < cur.len() implies listed_from(days, n, #[trigger] cur[k]) by {
            if k < earlier.len() {
                assert(cur[k] == earlier[k]);
                assert(listed_from(days, n - 1, earlier[k]));
                let i = choose|i: int| 0 <= i < n - 1 && #[trigger] is_trackday(days, i) && earlier[k] == trackday_of(days[i]);
                assert(is_trackday(days, i));
            } else {
                assert(cur[k] == trackday_of(days[n - 1]));
                assert(is_trackday(days, n - 1));
            }
        }
        assert forall|i: int| 0 <= i < n && #[trigger] is_trackday(days, i) implies cur.contains(
            trackday_of(days[i]),
        ) by {
            if i < n - 1 {
                assert(earlier.contains(trackday_of(days[i])));
                let k = choose|k: int| 0 <= k < earlier.len() && earlier[k] == trackday_of(days[i]);
                assert(cur[k] == earlier[k]);
            } else {
                assert(cur[earlier.len() as int] == trackday_of(days[i]));
            }
        }
    }
}

/// The record of entry `i` of `series`, dated `date`: `None` where either
/// temperature or the precipitation sum is missing.
pub open spec fn day_record(date: CivilDate, series: DailySeries, i: int) -> Option<DayRecord> {
    match (
        value_at(series.temperature_min@, i),
        value_at(series.temperature_max@, i),
        value_at(series.precipitation_sum@, i),
    ) {
        (Some(lo), Some(hi), Some(p)) => Some(DayRecord { date, min_temp: lo, max_temp: hi, precipitation: p }),
        _ => None,
    }
}

/// The records of the entries of `series` dated `dates`, in order, skipping
/// those with a missing value.
pub open spec fn day_records(dates: Seq<CivilDate>, series: DailySeries) -> Seq<DayRecord>
    decreases dates.len(),
{
    if dates.len() == 0 {
        seq![]
    } else {
        let n = dates.len() - 1;
        let earlier = day_records(dates.take(n), series);
        match day_record(dates[n], series, n) {
            Some(d) => earlier.push(d),
            None => earlier,
        }
    }
}

/// The records of the entries of `series`, entry `i` dated `dates[i]` (later
/// entries are not read).
pub fn assemble_days(dates: &Vec<CivilDate>, series: &DailySeries) -> (r: Vec<DayRecord>)
    ensures
        r@ == day_records(dates@, *series),
{
    let mut out: Vec<DayRecord> = Vec::new();
    let mut i: usize = 0;
    while i < dates.len()
        invariant
            i <= dates.len(),
            out@ == day_records(dates@.take(i as int), *series),
        decreases dates.len() - i,
    {
        assert(dates@.take(i + 1).take(i as int) =~= dates@.take(i as int));
        let lo = entry_at(&series.temperature_min, i);
        let hi = entry_at(&series.temperature_max, i);
        let p = entry_at(&series.precipitation_sum, i);
        if let (Some(lo), Some(hi), Some(p)) = (lo, hi, p) {
            out.push(DayRecord { date: dates[i], min_temp: lo, max_temp: hi, precipitation: p });
        }
        i = i + 1;
    }
    assert(dates@.take(dates.len() as int) =~= dates@);
    out
}

/// The trackdays of `series`, entry `i` dated `dates[i]`.
pub fn trackday_windows(dates: &Vec<CivilDate>, series: &DailySeries) -> (r: Vec<Trackday>)
    ensures
        r@ == trackdays(day_records(dates@, *series)),
{
    let days = assemble_days(dates, series);
    select_trackdays(&days)
}

/// The date of each entry, where all of them parse.
pub open spec fn parsed_dates(times: Seq<String>) -> Seq<CivilDate> {
    times.map_values(|s: String| match date_of(s@) {
        Some(d) => CivilDate { year: d.0, month: d.1, day: d.2 },
        None => CivilDate { year: 0, month: 1, day: 1 },
    })
}

/// `index` is the first entry of `times` that is not a date.
pub open spec fn first_bad_date(times: Seq<String>, index: int) -> bool {
    &&& 0 <= index < times.len()
    &&& date_of(times[index]@) is None
    &&& forall|j: int| 0 <= j < index ==> (#[trigger] date_of(times[j]@)) is Some
}

/// `r` is the outcome of the trackday check on `series`: its trackdays where
/// every date parses, else the first entry that does not.
pub open spec fn trackday_outcome(series: DailySeries, r: Result<Vec<Trackday>, CheckError>) -> bool {
    match r {
        Ok(v) => {
            &&& forall|j: int| 0 <= j < series.time@.len() ==> (#[trigger] date_of(series.time@[j]@)) is Some
            &&& v@ == trackdays(day_records(parsed_dates(series.time@), series))
        },
        Err(e) => e matches CheckError::BadTimestamp { index } && first_bad_date(series.time@, index as int),
    }
}

/// Reads the date of every entry, then selects the trackdays.
pub fn evaluate_trackdays(series: &DailySeries) -> (r: Result<Vec<Trackday>, CheckError>)
    ensures
        trackday_outcome(*series, r),
{
    let mut dates: Vec<CivilDate> = Vec::new();
    let mut i: usize = 0;
    while i < series.time.len()
        invariant
            i <= series.time.len(),
            dates@.len() == i,
            forall|j: int| 0 <= j < i ==> (#[trigger] date_of(series.time@[j]@)) is Some,
            forall|j: int| 0 <= j < i ==> #[trigger] dates@[j] == parsed_dates(series.time@)[j],
        decreases series.time.len() - i,
    {
        match parse_date(series.time[i].as_str()) {
            Some(d) => {
                dates.push(CivilDate { year: d.0, month: d.1, day: d.2 });
            },
            None => {
                return Err(CheckError::BadTimestamp { index: i });
            },
        }
        i = i + 1;
    }
    assert(dates@ =~= parsed_dates(series.time@));
    Ok(trackday_windows(&dates, series))
}

/// The trackday check on a service's answer: its error, a complaint where the
/// data is not daily, else the outcome on the daily series.
pub fn check_trackday_windows(resp: ApiResponse) -> (r: Result<Vec<Trackday>, CheckError>)
    ensures
        match resp {
            ApiResponse::Error { reason } => r == Err::<Vec<Trackday>, CheckError>(CheckError::Api { reason }),
            ApiResponse::Hourly(_) => r == Err::<Vec<Trackday>, CheckError>(CheckError::UnexpectedKind),
            ApiResponse::Daily(series) => trackday_outcome(series, r),
        },
{
    match resp {
        ApiResponse::Error { reason } => Err(CheckError::Api { reason }),
        ApiResponse::Hourly(_) => Err(CheckError::UnexpectedKind),
        ApiResponse::Daily(series) => evaluate_trackdays(&series),
    }
}

} // verus!
