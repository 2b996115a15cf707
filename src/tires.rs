//! Tire-season classification over hourly forecast samples.
use crate::calendar::{hour_of, parse_hour};
use crate::forecast::{entry_at, value_at, ApiResponse, CheckError, HourlySeries};
use vstd::prelude::*;

verus! {

/// Precipitation (thousandths of a millimetre) up to which an hour counts as light rain.
pub const LIGHT_RAIN_MAX: i64 = 500;

/// Whether one daytime hour is warm enough for summer tires, given its
/// temperature and precipitation: above 5 °C when dry, above 7 °C in light
/// rain (at most 0.5 mm), above 13 °C otherwise.
pub open spec fn summer_suitable(temperature: int, precipitation: int) -> bool {
    if precipitation == 0 {
        temperature > 5000
    } else if precipitation <= LIGHT_RAIN_MAX {
        temperature > 7000
    } else {
        temperature > 13000
    }
}

/// Classifies one hour by its temperature and precipitation.
pub fn summer_suitable_hour(temperature: i64, precipitation: i64) -> (r: bool)
    ensures
        r == summer_suitable(temperature as int, precipitation as int),
{
    if precipitation == 0 {
        temperature > 5000
    } else if precipitation <= LIGHT_RAIN_MAX {
        temperature > 7000
    } else {
        temperature > 13000
    }
}

/// Fewest qualifying hours on which a verdict is given.
pub const MIN_SAMPLE_HOURS: usize = 200;

/// Daytime runs from 08:00 to 21:59: hours before 8 or after 21 are night.
pub open spec fn is_daytime(hour: u32) -> bool {
    8 <= hour <= 21
}

/// How one sample counts: `None` where it is a night hour or lacks its
/// temperature or precipitation, else whether it is summer-suitable.
pub open spec fn hour_class(hour: u32, temperature: Option<i64>, precipitation: Option<i64>) -> Option<bool> {
    if !is_daytime(hour) {
        None
    } else {
        match (temperature, precipitation) {
            (Some(t), Some(p)) => Some(summer_suitable(t as int, p as int)),
            _ => None,
        }
    }
}

/// The classes of the qualifying hours, in order, where `hours[i]` is the hour
/// of day of sample `i`.
pub open spec fn classified(
    hours: Seq<u32>,
    temperature: Seq<Option<i64>>,
    precipitation: Seq<Option<i64>>,
) -> Seq<bool>
    decreases hours.len(),
{
    if hours.len() == 0 {
        seq![]
    } else {
        let n = hours.len() - 1;
        let earlier = classified(hours.take(n), temperature, precipitation);
        match hour_class(hours[n], value_at(temperature, n), value_at(precipitation, n)) {
            Some(b) => earlier.push(b),
            None => earlier,
        }
    }
}

/// How many entries are true.
pub open spec fn count_true(s: Seq<bool>) -> nat
    decreases s.len(),
{
    if s.len() == 0 {
        0
    } else {
        count_true(s.drop_last()) + if s.last() { 1nat } else { 0nat }
    }
}

/// Whether a snowfall entry is present and above zero.
pub open spec fn snows(entry: Option<i64>) -> bool {
    entry matches Some(v) && v > 0
}

/// Whether any present snowfall entry is above zero.
pub open spec fn any_snow(snowfall: Seq<Option<i64>>) -> bool {
    exists|i: int| 0 <= i < snowfall.len() && snows(#[trigger] snowfall[i])
}

/// Summer tires are recommended where more than 60% of the qualifying hours
/// are summer-suitable and no snow falls.
pub open spec fn recommends_summer(summer_hours: int, total_hours: int, snowfall: bool) -> bool {
    5 * summer_hours > 3 * total_hours && !snowfall
}

/// The counts behind a verdict.
#[derive(Debug, Clone, Copy, PartialEq, Eq)]
pub struct TireReport {
    pub summer_hours: usize,
    pub total_hours: usize,
    pub snowfall: bool,
    pub summer_tires: bool,
}

/// The outcome of the tire check.
#[derive(Debug, Clone, Copy, PartialEq, Eq)]
pub enum TireVerdict {
    /// Too few qualifying hours for a verdict; the count found.
    TooFewHours { hours: usize },
    Assessed(TireReport),
}

/// `r` is the verdict on qualifying hours of classes `cls`, with `snowfall`
/// telling whether snow falls in the period.
pub open spec fn is_verdict(r: TireVerdict, cls: Seq<bool>, snowfall: bool) -> bool {
    match r {
        TireVerdict::TooFewHours { hours } => cls.len() < MIN_SAMPLE_HOURS && hours == cls.len(),
        TireVerdict::Assessed(rep) => {
            &&& cls.len() >= MIN_SAMPLE_HOURS
            &&& rep.total_hours == cls.len()
            &&& rep.summer_hours == count_true(cls)
            &&& rep.snowfall == snowfall
            &&& rep.summer_tires == recommends_summer(
                rep.summer_hours as int,
                rep.total_hours as int,
                snowfall,
            )
        },
    }
}

proof fn lemma_count_true_push(s: Seq<bool>, b: bool)
    ensures
        count_true(s.push(b)) == count_true(s) + if b { 1nat } else { 0nat },
        count_true(s) <= s.len(),
    decreases s.len(),
{
    assert(s.push(b).drop_last() =~= s);
    if s.len() > 0 {
        lemma_count_true_push(s.drop_last(), s.last());
        assert(s.drop_last().push(s.last()) =~= s);
    }
}

/// Whether any present snowfall entry is above zero.
pub fn has_snowfall(snowfall: &Vec<Option<i64>>) -> (r: bool)
    ensures
        r == any_snow(snowfall@),
{
    let mut i: usize = 0;
    while i < snowfall.len()
        invariant
            i <= snowfall.len(),
            forall|j: int| 0 <= j < i ==> !snows(#[trigger] snowfall@[j]),
        decreases snowfall.len() - i,
    {
        if let Some(v) = snowfall[i] {
            if v > 0 {
                assert(snows(snowfall@[i as int]));
                return true;
            }
        }
        i = i + 1;
    }
    false
}

/// The tire verdict for a series whose samples fall at the hours of day
/// `hours` (one per entry of `series.time`; later entries are not read).
pub fn assess_tires(hours: &Vec<u32>, series: &HourlySeries) -> (r: TireVerdict)
    ensures
        is_verdict(
            r,
            classified(hours@, series.temperature@, series.precipitation@),
            any_snow(series.snowfall@),
        ),
{
    let ghost temps = series.temperature@;
    let ghost precs = series.precipitation@;
    let mut total: usize = 0;
    let mut summer: usize = 0;
    let mut i: usize = 0;
    while i < hours.len()
        invariant
            i <= hours.len(),
            temps == series.temperature@,
            precs == series.precipitation@,
            total == classified(hours@.take(i as int), temps, precs).len(),
            summer == count_true(classified(hours@.take(i as int), temps, precs)),
            total <= i,
        decreases hours.len() - i,
    {
        let ghost before = classified(hours@.take(i as int), temps, precs);
        assert(hours@.take(i + 1).take(i as int) =~= hours@.take(i as int));
        let h = hours[i];
        if 8 <= h && h <= 21 {
            let t = entry_at(&series.temperature, i);
            let p = entry_at(&series.precipitation, i);
            if let (Some(t), Some(p)) = (t, p) {
                let b = summer_suitable_hour(t, p);
                proof {
                    lemma_count_true_push(before, b);
                }
                total = total + 1;
                if b {
                    summer = summer + 1;
                }
            }
        }
        i = i + 1;
    }
    assert(hours@.take(hours.len() as int) =~= hours@);
    if total < MIN_SAMPLE_HOURS {
        return TireVerdict::TooFewHours { hours: total };
    }
    let snowfall = has_snowfall(&series.snowfall);
    let summer_tires = (summer as u128) * 5 > (total as u128) * 3 && !snowfall;
    TireVerdict::Assessed(TireReport { summer_hours: summer, total_hours: total, snowfall, summer_tires })
}

/// The hour of day of each timestamp, where all of them parse.
pub open spec fn parsed_hours(times: Seq<String>) -> Seq<u32> {
    times.map_values(|s: String| match hour_of(s@) {
        Some(h) => h,
        None => 0u32,
    })
}

/// `index` is the first entry of `times` that is not a timestamp.
pub open spec fn first_bad_timestamp(times: Seq<String>, index: int) -> bool {
    &&& 0 <= index < times.len()
    &&& hour_of(times[index]@) is None
    &&& forall|j: int| 0 <= j < index ==> (#[trigger] hour_of(times[j]@)) is Some
}

/// `r` is the outcome of the tire check on `series`: the verdict where every
/// timestamp parses, else the first one that does not.
pub open spec fn tire_outcome(series: HourlySeries, r: Result<TireVerdict, CheckError>) -> bool {
    match r {
        Ok(v) => {
            &&& forall|j: int| 0 <= j < series.time@.len() ==> (#[trigger] hour_of(series.time@[j]@)) is Some
            &&& is_verdict(
                v,
                classified(parsed_hours(series.time@), series.temperature@, series.precipitation@),
                any_snow(series.snowfall@),
            )
        },
        Err(e) => e matches CheckError::BadTimestamp { index } && first_bad_timestamp(series.time@, index as int),
    }
}

/// Reads the hour of day of every timestamp, then gives the tire verdict.
pub fn evaluate_tires(series: &HourlySeries) -> (r: Result<TireVerdict, CheckError>)
    ensures
        tire_outcome(*series, r),
{
    let mut hours: Vec<u32> = Vec::new();
    let mut i: usize = 0;
    while i < series.time.len()
        invariant
            i <= series.time.len(),
            hours@.len() == i,
            forall|j: int| 0 <= j < i ==> (#[trigger] hour_of(series.time@[j]@)) is Some,
            forall|j: int| 0 <= j < i ==> #[trigger] hours@[j] == parsed_hours(series.time@)[j],
        decreases series.time.len() - i,
    {
        match parse_hour(series.time[i].as_str()) {
            Some(h) => {
                hours.push(h);
            },
            None => {
                return Err(CheckError::BadTimestamp { index: i });
            },
        }
        i = i + 1;
    }
    assert(hours@ =~= parsed_hours(series.time@));
    Ok(assess_tires(&hours, series))
}

/// The tire check on a service's answer: its error, a complaint where the
/// data is not hourly, else the outcome on the hourly series.
pub fn check_winter_tires(resp: ApiResponse) -> (r: Result<TireVerdict, CheckError>)
    ensures
        match resp {
            ApiResponse::Error { reason } => r == Err::<TireVerdict, CheckError>(CheckError::Api { reason }),
            ApiResponse::Daily(_) => r == Err::<TireVerdict, CheckError>(CheckError::UnexpectedKind),
            ApiResponse::Hourly(series) => tire_outcome(series, r),
        },
{
    match resp {
        ApiResponse::Error { reason } => Err(CheckError::Api { reason }),
        ApiResponse::Daily(_) => Err(CheckError::UnexpectedKind),
        ApiResponse::Hourly(series) => evaluate_tires(&series),
    }
}

/// The daytime entries of a series, in order: the hour of day with the
/// temperature and precipitation at that index.
pub open spec fn daytime_entries(
    hours: Seq<u32>,
    temperature: Seq<Option<i64>>,
    precipitation: Seq<Option<i64>>,
) -> Seq<(u32, Option<i64>, Option<i64>)>
    decreases hours.len(),
{
    if hours.len() == 0 {
        seq![]
    } else {
        let n = hours.len() - 1;
        let earlier = daytime_entries(hours.take(n), temperature, precipitation);
        if is_daytime(hours[n]) {
            earlier.push((hours[n], value_at(temperature, n), value_at(precipitation, n)))
        } else {
            earlier
        }
    }
}

/// The classes of the qualifying entries among `entries`, in order.
pub open spec fn classes_of(entries: Seq<(u32, Option<i64>, Option<i64>)>) -> Seq<bool>
    decreases entries.len(),
{
    if entries.len() == 0 {
        seq![]
    } else {
        let e = entries.last();
        let earlier = classes_of(entries.drop_last());
        match hour_class(e.0, e.1, e.2) {
            Some(b) => earlier.push(b),
            None => earlier,
        }
    }
}

proof fn lemma_classified_by_daytime(
    hours: Seq<u32>,
    temperature: Seq<Option<i64>>,
    precipitation: Seq<Option<i64>>,
)
    ensures
        classified(hours, temperature, precipitation) == classes_of(
            daytime_entries(hours, temperature, precipitation),
        ),
    decreases hours.len(),
{
    if hours.len() > 0 {
        let n = hours.len() - 1;
        lemma_classified_by_daytime(hours.take(n), temperature, precipitation);
        let earlier = daytime_entries(hours.take(n), temperature, precipitation);
        if is_daytime(hours[n]) {
            let x = (hours[n], value_at(temperature, n), value_at(precipitation, n));
            assert(earlier.push(x).drop_last() =~= earlier);
        }
    }
}

/// Night hours do not count, whatever they hold and however many there are:
/// two series with the same daytime entries and the same snowfall verdict
/// classify alike and get the same tire verdict.
pub proof fn lemma_night_hours_ignored(
    hours: Seq<u32>,
    temperature: Seq<Option<i64>>,
    precipitation: Seq<Option<i64>>,
    snowfall: bool,
    other_hours: Seq<u32>,
    other_temperature: Seq<Option<i64>>,
    other_precipitation: Seq<Option<i64>>,
    other_snowfall: bool,
    r: TireVerdict,
)
    requires
        daytime_entries(hours, temperature, precipitation) == daytime_entries(
            other_hours,
            other_temperature,
            other_precipitation,
        ),
        snowfall == other_snowfall,
    ensures
        classified(hours, temperature, precipitation) == classified(
            other_hours,
            other_temperature,
            other_precipitation,
        ),
        is_verdict(r, classified(hours, temperature, precipitation), snowfall) == is_verdict(
            r,
            classified(other_hours, other_temperature, other_precipitation),
            other_snowfall,
        ),
{
    lemma_classified_by_daytime(hours, temperature, precipitation);
    lemma_classified_by_daytime(other_hours, other_temperature, other_precipitation);
}

/// Changing the temperature and precipitation of any number of night hours
/// leaves the daytime entries as they were.
pub proof fn lemma_night_values_changed(
    hours: Seq<u32>,
    temperature: Seq<Option<i64>>,
    precipitation: Seq<Option<i64>>,
    other_temperature: Seq<Option<i64>>,
    other_precipitation: Seq<Option<i64>>,
)
    requires
        forall|j: int|
            0 <= j < hours.len() && is_daytime(#[trigger] hours[j]) ==> value_at(temperature, j) == value_at(
                other_temperature,
                j,
            ) && value_at(precipitation, j) == value_at(other_precipitation, j),
    ensures
        daytime_entries(hours, temperature, precipitation) == daytime_entries(
            hours,
            other_temperature,
            other_precipitation,
        ),
    decreases hours.len(),
{
    if hours.len() > 0 {
        let n = hours.len() - 1;
        assert forall|j: int| 0 <= j < n && is_daytime(#[trigger] hours.take(n)[j]) implies value_at(
            temperature,
            j,
        ) == value_at(other_temperature, j) && value_at(precipitation, j) == value_at(other_precipitation, j) by {
            assert(hours.take(n)[j] == hours[j]);
        }
        lemma_night_values_changed(hours.take(n), temperature, precipitation, other_temperature, other_precipitation);
    }
}

/// Inserting a night entry at index `k` (its temperature and precipitation
/// put at `k`, later values moved up by one) leaves the daytime entries as
/// they were.
pub proof fn lemma_night_entry_inserted(
    hours: Seq<u32>,
    temperature: Seq<Option<i64>>,
    precipitation: Seq<Option<i64>>,
    k: int,
    night: u32,
    other_temperature: Seq<Option<i64>>,
    other_precipitation: Seq<Option<i64>>,
)
    requires
        0 <= k <= hours.len(),
        !is_daytime(night),
        forall|j: int|
            0 <= j < k ==> #[trigger] value_at(other_temperature, j) == value_at(temperature, j) && value_at(
                other_precipitation,
                j,
            ) == value_at(precipitation, j),
        forall|j: int|
            k <= j < hours.len() ==> #[trigger] value_at(other_temperature, j + 1) == value_at(temperature, j)
                && value_at(other_precipitation, j + 1) == value_at(precipitation, j),
    ensures
        daytime_entries(hours.insert(k, night), other_temperature, other_precipitation) == daytime_entries(
            hours,
            temperature,
            precipitation,
        ),
    decreases hours.len(),
{
    let longer = hours.insert(k, night);
    let m = longer.len() - 1;
    if k == hours.len() {
        assert(longer.take(m) =~= hours);
        lemma_daytime_entries_agree(hours, temperature, precipitation, other_temperature, other_precipitation);
    } else {
        let n = hours.len() - 1;
        assert(longer.take(m) =~= hours.take(n).insert(k, night));
        assert(longer[m] == hours[n]);
        assert(value_at(other_temperature, n + 1) == value_at(temperature, n));
        lemma_night_entry_inserted(
            hours.take(n),
            temperature,
            precipitation,
            k,
            night,
            other_temperature,
            other_precipitation,
        );
    }
}

/// Inserting a snowfall entry that is missing or not above zero leaves the
/// snowfall verdict as it was.
pub proof fn lemma_dry_snow_entry_inserted(snowfall: Seq<Option<i64>>, k: int, entry: Option<i64>)
    requires
        0 <= k <= snowfall.len(),
        !snows(entry),
    ensures
        any_snow(snowfall.insert(k, entry)) == any_snow(snowfall),
{
    let longer = snowfall.insert(k, entry);
    if any_snow(snowfall) {
        let i = choose|i: int| 0 <= i < snowfall.len() && snows(#[trigger] snowfall[i]);
        if i < k {
            assert(longer[i] == snowfall[i]);
        } else {
            assert(longer[i + 1] == snowfall[i]);
        }
    }
    if any_snow(longer) {
        let i = choose|i: int| 0 <= i < longer.len() && snows(#[trigger] longer[i]);
        if i < k {
            assert(longer[i] == snowfall[i]);
        } else if i > k {
            assert(longer[i] == snowfall[i - 1]);
        }
    }
}

proof fn lemma_daytime_entries_agree(
    hours: Seq<u32>,
    temperature: Seq<Option<i64>>,
    precipitation: Seq<Option<i64>>,
    other_temperature: Seq<Option<i64>>,
    other_precipitation: Seq<Option<i64>>,
)
    requires
        forall|j: int|
            0 <= j < hours.len() ==> #[trigger] value_at(other_temperature, j) == value_at(temperature, j)
                && value_at(other_precipitation, j) == value_at(precipitation, j),
    ensures
        daytime_entries(hours, other_temperature, other_precipitation) == daytime_entries(
            hours,
            temperature,
            precipitation,
        ),
    decreases hours.len(),
{
    if hours.len() > 0 {
        let n = hours.len() - 1;
        assert(value_at(other_temperature, n) == value_at(temperature, n));
        lemma_daytime_entries_agree(hours.take(n), temperature, precipitation, other_temperature, other_precipitation);
    }
}

/// With fewer than the minimum of qualifying hours no verdict is given.
pub proof fn lemma_small_sample_no_verdict(r: TireVerdict, cls: Seq<bool>, snowfall: bool)
    requires
        is_verdict(r, cls, snowfall),
        cls.len() < MIN_SAMPLE_HOURS,
    ensures
        r == (TireVerdict::TooFewHours { hours: cls.len() as usize }),
{
}

/// The ratio threshold is strict: where exactly 60% of the qualifying hours
/// are summer-suitable, summer tires are not recommended.
pub proof fn lemma_ratio_at_threshold_not_summer(r: TireVerdict, cls: Seq<bool>, snowfall: bool)
    requires
        is_verdict(r, cls, snowfall),
        5 * count_true(cls) == 3 * cls.len(),
    ensures
        r matches TireVerdict::Assessed(rep) ==> !rep.summer_tires,
{
}

} // verus!
