use tire_weather::forecast::{ApiResponse, CheckError, DailySeries, HourlySeries};
use tire_weather::tires::{
    assess_tires, check_winter_tires, evaluate_tires, has_snowfall, summer_suitable_hour, TireReport, TireVerdict,
};

/// `n` daytime hours (10:00 to 19:00 over consecutive days) with the given
/// temperatures and precipitation, and no snow.
fn daytime_series(temps: &[i64], precs: &[i64]) -> HourlySeries {
    let mut time = Vec::new();
    for i in 0..temps.len() {
        let day = 1 + i / 10;
        let hour = 10 + i % 10;
        time.push(format!("2024-{:02}-{:02}T{:02}:00", 1 + (day - 1) / 28, 1 + (day - 1) % 28, hour));
    }
    HourlySeries {
        time,
        temperature: temps.iter().map(|t| Some(*t)).collect(),
        precipitation: precs.iter().map(|p| Some(*p)).collect(),
        snowfall: vec![Some(0); temps.len()],
    }
}

fn with_summer_hours(total: usize, summer: usize) -> HourlySeries {
    let temps: Vec<i64> = (0..total).map(|i| if i < summer { 20_000 } else { 2_000 }).collect();
    daytime_series(&temps, &vec![0; total])
}

#[test]
fn dry_hour_needs_above_five_degrees() {
    assert!(summer_suitable_hour(6_000, 0));
    assert!(!summer_suitable_hour(4_000, 0));
    assert!(!summer_suitable_hour(5_000, 0));
}

#[test]
fn light_rain_hour_needs_above_seven_degrees() {
    assert!(summer_suitable_hour(8_000, 300));
    assert!(!summer_suitable_hour(6_000, 300));
    assert!(summer_suitable_hour(7_001, 500));
    assert!(!summer_suitable_hour(7_000, 500));
}

#[test]
fn heavy_rain_hour_needs_above_thirteen_degrees() {
    assert!(summer_suitable_hour(14_000, 1_000));
    assert!(!summer_suitable_hour(12_000, 1_000));
    assert!(!summer_suitable_hour(12_000, 501));
}

#[test]
fn night_hours_are_excluded() {
    let mut time = Vec::new();
    for day in 1..=28 {
        for hour in [0, 1, 2, 3, 4, 5, 6, 7, 22, 23] {
            time.push(format!("2024-03-{:02}T{:02}:00", day, hour));
        }
    }
    let n = time.len();
    let series = HourlySeries {
        time,
        temperature: vec![Some(30_000); n],
        precipitation: vec![Some(0); n],
        snowfall: vec![None; n],
    };
    assert_eq!(evaluate_tires(&series), Ok(TireVerdict::TooFewHours { hours: 0 }));
}

#[test]
fn boundary_hours_eight_and_twenty_one_count() {
    let mut time = Vec::new();
    for day in 1..=28 {
        for hour in [7, 8, 21, 22] {
            time.push(format!("2024-04-{:02}T{:02}:00", day, hour));
        }
    }
    let n = time.len();
    let series = HourlySeries {
        time,
        temperature: vec![Some(30_000); n],
        precipitation: vec![Some(0); n],
        snowfall: vec![None; n],
    };
    assert_eq!(evaluate_tires(&series), Ok(TireVerdict::TooFewHours { hours: 56 }));
}

#[test]
fn fewer_than_two_hundred_hours_give_no_verdict() {
    let series = with_summer_hours(199, 199);
    assert_eq!(evaluate_tires(&series), Ok(TireVerdict::TooFewHours { hours: 199 }));
    let series = with_summer_hours(200, 200);
    assert_eq!(
        evaluate_tires(&series),
        Ok(TireVerdict::Assessed(TireReport { summer_hours: 200, total_hours: 200, snowfall: false, summer_tires: true }))
    );
}

#[test]
fn ratio_of_exactly_sixty_percent_is_not_summer() {
    let series = with_summer_hours(300, 180);
    assert_eq!(
        evaluate_tires(&series),
        Ok(TireVerdict::Assessed(TireReport { summer_hours: 180, total_hours: 300, snowfall: false, summer_tires: false }))
    );
    let series = with_summer_hours(300, 181);
    assert_eq!(
        evaluate_tires(&series),
        Ok(TireVerdict::Assessed(TireReport { summer_hours: 181, total_hours: 300, snowfall: false, summer_tires: true }))
    );
}

#[test]
fn any_snowfall_keeps_winter_tires() {
    let mut series = with_summer_hours(250, 250);
    series.snowfall[3] = Some(100);
    assert_eq!(
        evaluate_tires(&series),
        Ok(TireVerdict::Assessed(TireReport { summer_hours: 250, total_hours: 250, snowfall: true, summer_tires: false }))
    );
}

#[test]
fn snowfall_counts_only_present_positive_entries() {
    assert!(!has_snowfall(&vec![None, Some(0), None]));
    assert!(has_snowfall(&vec![None, Some(0), Some(1)]));
    assert!(!has_snowfall(&vec![]));
}

#[test]
fn missing_values_drop_the_hour() {
    let mut series = with_summer_hours(205, 205);
    series.temperature[0] = None;
    series.precipitation[1] = None;
    series.temperature.truncate(201);
    assert_eq!(evaluate_tires(&series), Ok(TireVerdict::TooFewHours { hours: 199 }));
}

#[test]
fn assess_uses_the_given_hours() {
    let series = with_summer_hours(210, 0);
    let night: Vec<u32> = vec![3; 210];
    assert_eq!(assess_tires(&night, &series), TireVerdict::TooFewHours { hours: 0 });
    let day: Vec<u32> = vec![12; 210];
    assert_eq!(
        assess_tires(&day, &series),
        TireVerdict::Assessed(TireReport { summer_hours: 0, total_hours: 210, snowfall: false, summer_tires: false })
    );
}

#[test]
fn unparsable_timestamp_is_reported() {
    let mut series = with_summer_hours(10, 10);
    series.time[4] = "2024-01-01 10:00".to_string();
    series.time[6] = "garbage".to_string();
    assert_eq!(evaluate_tires(&series), Err(CheckError::BadTimestamp { index: 4 }));
}

#[test]
fn api_error_and_wrong_kind_are_reported() {
    let r = check_winter_tires(ApiResponse::Error { reason: "bad latitude".to_string() });
    assert_eq!(r, Err(CheckError::Api { reason: "bad latitude".to_string() }));
    let daily = DailySeries { time: vec![], temperature_max: vec![], temperature_min: vec![], precipitation_sum: vec![] };
    assert_eq!(check_winter_tires(ApiResponse::Daily(daily)), Err(CheckError::UnexpectedKind));
    let hourly = with_summer_hours(220, 200);
    assert_eq!(
        check_winter_tires(ApiResponse::Hourly(hourly)),
        Ok(TireVerdict::Assessed(TireReport { summer_hours: 200, total_hours: 220, snowfall: false, summer_tires: true }))
    );
}

#[test]
fn inserted_night_entries_change_nothing() {
    let series = with_summer_hours(250, 160);
    let expected = evaluate_tires(&series);
    let mut more = series.clone();
    for (at, stamp) in [(0, "2024-01-01T03:00"), (57, "2024-01-06T23:00"), (120, "2024-01-12T07:00")] {
        more.time.insert(at, stamp.to_string());
        more.temperature.insert(at, Some(40_000));
        more.precipitation.insert(at, Some(0));
        more.snowfall.insert(at, Some(0));
    }
    assert_eq!(more.time.len(), 253);
    assert_eq!(evaluate_tires(&more), expected);
    assert_eq!(
        expected,
        Ok(TireVerdict::Assessed(TireReport { summer_hours: 160, total_hours: 250, snowfall: false, summer_tires: true }))
    );
}
