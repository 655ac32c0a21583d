use barometer::json::JsonNumber;
use barometer::weather::detail::{
    daily_fields, daylight, daylight_seconds, hourly_fields, hours_of_day, moon_source, number_reads_within,
    parse_detail, DailyMetric, Daylight, HourlyMetric, LocalDate, LocalTime, MetricValues, MoonPhase,
    MoonSource, WeatherMetric,
};


#[test]
fn the_metric_catalog_uses_the_providers_own_parameter_names() {
    assert_eq!(HourlyMetric::VaporPressureDeficit.raw_value(), "vapour_pressure_deficit");
    assert_eq!(DailyMetric::VaporPressureDeficitMax.raw_value(), "vapour_pressure_deficit_max");
    assert_eq!(HourlyMetric::SeaLevelPressure.raw_value(), "pressure_msl");
    assert_eq!(HourlyMetric::ReferenceEvapotranspiration.raw_value(), "et0_fao_evapotranspiration");
    assert_eq!(HourlyMetric::SoilMoisture27To81cm.raw_value(), "soil_moisture_27_to_81cm");
    assert_eq!(DailyMetric::WindDirectionDominant.raw_value(), "wind_direction_10m_dominant");
    assert_eq!(HourlyMetric::all().len(), 31);
    assert_eq!(DailyMetric::all().len(), 25);
}

#[test]
fn no_two_metrics_ask_for_the_same_parameter() {
    let hourly = HourlyMetric::all();
    for (position, metric) in hourly.iter().enumerate() {
        let twin = hourly.iter().position(|m| m.raw_value() == metric.raw_value());
        assert_eq!(twin, Some(position), "{} is listed twice", metric.raw_value());
    }
    let daily = DailyMetric::all();
    for (position, metric) in daily.iter().enumerate() {
        let twin = daily.iter().position(|m| m.raw_value() == metric.raw_value());
        assert_eq!(twin, Some(position), "{} is listed twice", metric.raw_value());
    }
}

#[test]
fn the_length_metrics_are_the_ones_the_provider_can_report_in_feet() {
    let hourly: Vec<&str> =
        HourlyMetric::all().iter().filter(|m| m.is_length()).map(|m| m.raw_value()).collect();
    assert_eq!(hourly, ["snow_depth", "freezing_level_height"]);
    let daily: Vec<&str> =
        DailyMetric::all().iter().filter(|m| m.is_length()).map(|m| m.raw_value()).collect();
    assert_eq!(daily, ["visibility_mean", "visibility_min"]);
}

#[test]
fn the_request_asks_for_the_base_fields_the_catalog_and_the_lunar_events() {
    let hourly = hourly_fields();
    assert!(hourly.starts_with("temperature_2m,apparent_temperature,"));
    assert!(hourly.contains(",vapour_pressure_deficit,"));
    assert!(hourly.ends_with(",soil_moisture_27_to_81cm"));
    let daily = daily_fields();
    assert!(daily.starts_with("weather_code,temperature_2m_max,"));
    assert!(daily.contains(",moon_phase,"));
    assert!(daily.ends_with(",moonrise,moonset"));
}

#[test]
fn the_request_lists_every_field_once_and_in_order() {
    let hourly = hourly_fields();
    let names: Vec<&str> = hourly.split(',').collect();
    assert_eq!(names.len(), 13 + 31);
    assert_eq!(names[12], "cloud_cover");
    assert_eq!(names[13], "rain");
    let daily = daily_fields();
    assert_eq!(daily.split(',').count(), 12 + 25 + 2);
}

#[test]
fn local_times_parse_as_written_and_sort_chronologically() {
    let time = LocalTime::parse("2026-09-07T14:30").unwrap();
    assert_eq!(time.date, LocalDate { year: 2026, month: 9, day: 7 });
    assert_eq!((time.hour, time.minute), (14, 30));
    assert_eq!(LocalTime::parse("2026-09-07T14:30:00"), Some(time));
    assert!(LocalTime::parse("2026-09-07T09:00").unwrap() < time);
    assert!(LocalTime::parse("2026-09-06T23:00").unwrap() < time);
    assert!(LocalTime::parse("2026-10-01T00:00").unwrap() > time);
    assert_eq!(LocalTime::parse("2026-09-07"), None);
    assert_eq!(LocalTime::parse("2026-09-07T25:00"), None);
    assert_eq!(LocalDate::parse("2026-13-01"), None);
    assert_eq!(LocalDate::parse("nonsense"), None);
}

#[test]
fn a_space_separates_date_and_clock_when_there_is_no_t() {
    let time = LocalTime::parse("2026-09-07 08:05").unwrap();
    assert_eq!((time.hour, time.minute), (8, 5));
    assert_eq!(LocalTime::parse("2026-09-07T8:05"), None);
    assert_eq!(LocalTime::parse("2026-09-07T14:60"), None);
    assert_eq!(LocalTime::parse("2026-09-07T+1:05").map(|t| t.hour), Some(1));
    assert_eq!(LocalDate::parse("2026-00-07"), None);
    assert_eq!(LocalDate::parse("2026-09-32"), None);
    assert_eq!(LocalDate::parse("-001-09-07"), Some(LocalDate { year: -1, month: 9, day: 7 }));
    assert_eq!(LocalDate::parse("2026-09-07 and more"), Some(LocalDate { year: 2026, month: 9, day: 7 }));
    assert_eq!(LocalDate::parse("2026-9-07"), None);
    assert_eq!(LocalDate::parse("2026-\u{00E9}9-07"), None);
}

#[test]
fn the_weekday_of_a_local_date_is_worked_out_without_a_calendar() {
    assert_eq!(LocalDate { year: 1970, month: 1, day: 1 }.weekday(), 4);
    assert_eq!(LocalDate { year: 2026, month: 9, day: 7 }.weekday(), 1);
    assert_eq!(LocalDate { year: 2026, month: 11, day: 1 }.weekday(), 0);
    assert_eq!(LocalDate { year: 2024, month: 2, day: 29 }.weekday(), 4);
    assert_eq!(LocalDate { year: 1969, month: 7, day: 20 }.weekday(), 0);
}

#[test]
fn days_are_counted_from_the_first_of_january_1970() {
    assert_eq!(LocalDate { year: 1970, month: 1, day: 1 }.days_from_epoch(), 0);
    assert_eq!(LocalDate { year: 1969, month: 12, day: 31 }.days_from_epoch(), -1);
    assert_eq!(LocalDate { year: 2000, month: 3, day: 1 }.days_from_epoch(), 11_017);
    assert_eq!(LocalDate { year: 2026, month: 9, day: 7 }.days_from_epoch(), 20_703);
    // The day after a leap day is one day later, across the year's end too.
    let leap = LocalDate { year: 2024, month: 2, day: 29 }.days_from_epoch();
    assert_eq!(LocalDate { year: 2024, month: 3, day: 1 }.days_from_epoch(), leap + 1);
    let eve = LocalDate { year: 1999, month: 12, day: 31 }.days_from_epoch();
    assert_eq!(LocalDate { year: 2000, month: 1, day: 1 }.days_from_epoch(), eve + 1);
}

#[test]
fn a_thirteenth_month_is_january_of_the_next_year() {
    assert_eq!(
        LocalDate { year: 2025, month: 13, day: 1 }.days_from_epoch(),
        LocalDate { year: 2026, month: 1, day: 1 }.days_from_epoch()
    );
}

#[test]
fn a_wall_clock_becomes_an_instant_only_with_the_zones_offset() {
    let noon = LocalTime::parse("2026-11-02T12:00").unwrap();
    assert_eq!(noon.unix_seconds(-14_400) - noon.unix_seconds(0), 14_400);
    assert_eq!(noon.unix_seconds(0), noon.wall_clock_seconds());
    assert_eq!(noon.wall_clock_seconds(), 1_793_620_800);
}

fn times(values: &[&str]) -> Vec<LocalTime> {
    values.iter().map(|v| LocalTime::parse(v).unwrap()).collect()
}

#[test]
fn an_hour_outside_the_locations_own_day_is_not_counted_in_it() {
    let hours = times(&["2026-11-01T00:00", "2026-11-01T01:00", "2026-11-01T02:00", "2026-11-02T00:00"]);
    let first = hours_of_day(&hours, LocalDate { year: 2026, month: 11, day: 1 });
    assert_eq!(first, vec![0, 1, 2]);
    let second = hours_of_day(&hours, LocalDate { year: 2026, month: 11, day: 2 });
    assert_eq!(second, vec![3]);
}

#[test]
fn the_hours_of_a_day_come_back_in_order_however_they_arrived() {
    let hours = times(&["2026-11-01T05:00", "2026-11-01T01:00", "2026-11-01T03:00"]);
    let day = hours_of_day(&hours, LocalDate { year: 2026, month: 11, day: 1 });
    let clock: Vec<u32> = day.iter().map(|&i| hours[i].hour).collect();
    assert_eq!(clock, [1, 3, 5]);
}

#[test]
fn a_day_with_twenty_five_local_hours_keeps_all_of_them() {
    let mut values: Vec<String> = vec!["2026-11-01T00:00".into(), "2026-11-01T01:00".into()];
    for hour in 1..24 {
        values.push(format!("2026-11-01T{hour:02}:00"));
    }
    values.push("2026-11-02T00:00".into());
    let refs: Vec<&str> = values.iter().map(|s| s.as_str()).collect();
    let hours = times(&refs);
    let day = hours_of_day(&hours, LocalDate { year: 2026, month: 11, day: 1 });
    assert_eq!(day.len(), 25);
    // The repeated hour is kept twice, in the order it arrived.
    assert_eq!(&day[..3], &[0, 1, 2]);
    assert_eq!(hours_of_day(&hours, LocalDate { year: 2026, month: 11, day: 2 }).len(), 1);
}

#[test]
fn a_spring_forward_day_is_an_hour_short_and_still_whole() {
    let hours = times(&[
        "2026-03-08T00:00",
        "2026-03-08T01:00",
        "2026-03-08T03:00",
        "2026-03-08T04:00",
        "2026-03-09T00:00",
    ]);
    let day = hours_of_day(&hours, LocalDate { year: 2026, month: 3, day: 8 });
    assert_eq!(day.len(), 4);
    assert!(day.iter().all(|&i| hours[i].hour != 2));
}

#[test]
fn daylight_falls_back_to_sunset_minus_sunrise() {
    let rise = LocalTime::parse("2026-11-02T07:27");
    let set = LocalTime::parse("2026-11-02T17:52");
    assert_eq!(daylight_seconds(rise, set), Some(37_500));
    let rise = LocalTime::parse("2026-06-21T04:25");
    let set = LocalTime::parse("2026-06-21T20:31");
    assert_eq!(daylight_seconds(rise, set), Some(57_960));
    // The recorded forecast: the first day has the provider's own figure;
    // the second is past the end of that series, so the two events answer.
    let forecast = parse_detail(FORECAST).unwrap();
    match daylight(&forecast.daily[0]) {
        Some(Daylight::Reported(seconds)) => assert_eq!(seconds.decimal, "37620"),
        other => panic!("expected the provider's figure, got {other:?}"),
    }
    assert_eq!(daylight(&forecast.daily[1]), Some(Daylight::Measured(37_500)));
}

#[test]
fn a_polar_day_without_a_sunrise_is_unknown_not_zero() {
    assert_eq!(daylight_seconds(None, None), None);
    assert_eq!(daylight_seconds(LocalTime::parse("2026-06-21T04:25"), None), None);
}

#[test]
fn a_sunset_before_its_sunrise_is_refused_rather_than_shown_as_negative() {
    let rise = LocalTime::parse("2026-11-01T17:53");
    let set = LocalTime::parse("2026-11-01T07:26");
    assert_eq!(daylight_seconds(rise, set), None);
}

#[test]
fn the_moon_phases_are_named_in_cycle_order() {
    let names: Vec<&str> = MoonPhase::all().iter().map(|p| p.name()).collect();
    assert_eq!(names[0], "New Moon");
    assert_eq!(names[4], "Full Moon");
    assert_eq!(names[7], "Waning Crescent");
}

const FORECAST: &str = r#"{
  "latitude": 40.71, "longitude": -74.01,
  "timezone": "America/New_York", "utc_offset_seconds": -14400,
  "hourly_units": {
    "temperature_2m": "°F", "visibility": "ft",
    "freezing_level_height": "ft", "snow_depth": "m"
  },
  "hourly": {
    "time": ["2026-11-01T00:00","2026-11-01T01:00","2026-11-01T02:00","2026-11-02T00:00"],
    "temperature_2m": [51.0, null, 49.2, 47.5],
    "weather_code": [3, 61, 61, 2],
    "wind_speed_10m": [7.2, 8.1, 6.4, 5.0],
    "is_day": [0, 0, 0, 0],
    "visibility": [78740.0, 78740.0, 39370.0, 78740.0],
    "freezing_level_height": [11000.0],
    "snow_depth": [0.0, 0.0, 0.0, 0.0],
    "vapour_pressure_deficit": [0.12, 0.1, 0.08, 0.07],
    "cloud_cover_low": [80, 90, 95, 40]
  },
  "daily_units": {"visibility_mean": "ft"},
  "daily": {
    "time": ["2026-11-01","2026-11-02"],
    "weather_code": [61, 2],
    "temperature_2m_max": [60.1, 58.0],
    "temperature_2m_min": [44.0, null],
    "sunrise": ["2026-11-01T07:26","2026-11-02T07:27"],
    "sunset": ["2026-11-01T17:53","2026-11-02T17:52"],
    "daylight_duration": [37620.0],
    "visibility_mean": [78740.0, 78740.0],
    "moon_phase": [0.5, null],
    "moonrise": ["2026-11-01T16:12", null],
    "moonset": [null, "2026-11-02T05:31"]
  }
}"#;

/// The text of a figure's double, as the answer gave it.
fn figure(number: &Option<JsonNumber>) -> Option<&str> {
    number.as_ref().map(|n| n.decimal.as_str())
}

/// A metric's figure and whether it came in feet, if the point has it.
fn metric<M: WeatherMetric>(values: &MetricValues<M>, wanted: M) -> Option<(&str, bool)> {
    values.values.iter().find(|(held, _, _)| *held == wanted).map(|(_, n, feet)| (n.decimal.as_str(), *feet))
}

#[test]
fn a_recorded_forecast_is_read_field_for_field() {
    let forecast = parse_detail(FORECAST).unwrap();
    assert_eq!(forecast.time_zone, "America/New_York");
    assert_eq!(forecast.utc_offset_seconds, -14_400);
    assert_eq!(forecast.hourly.len(), 4);
    assert_eq!(forecast.daily.len(), 2);

    let first = &forecast.hourly[0];
    assert_eq!(first.time, LocalTime::parse("2026-11-01T00:00").unwrap());
    assert_eq!(figure(&first.temperature), Some("51"));
    assert_eq!(first.weather_code.as_ref().and_then(|n| n.unsigned), Some(3));
    assert_eq!(figure(&first.wind_speed), Some("7.2"));
    assert_eq!(first.is_day, Some(false));
    assert_eq!(metric(&first.details, HourlyMetric::VaporPressureDeficit), Some(("0.12", false)));
    assert_eq!(metric(&first.details, HourlyMetric::CloudCoverLow), Some(("80", false)));

    let day = &forecast.daily[0];
    assert_eq!(day.date, LocalDate { year: 2026, month: 11, day: 1 });
    assert_eq!(figure(&day.high), Some("60.1"));
    assert_eq!(figure(&day.low), Some("44"));
    assert_eq!(day.sunset, LocalTime::parse("2026-11-01T17:53"));
    assert_eq!(day.moonrise, LocalTime::parse("2026-11-01T16:12"));
    assert_eq!(day.moonset, None);
    assert!(day.moon_events_available);
}

#[test]
fn a_null_inside_a_values_array_costs_only_that_hour() {
    let forecast = parse_detail(FORECAST).unwrap();
    assert_eq!(forecast.hourly[1].temperature, None);
    // The hours either side are untouched, and so is the rest of the hour
    // the null is in.
    assert_eq!(figure(&forecast.hourly[0].temperature), Some("51"));
    assert_eq!(figure(&forecast.hourly[2].temperature), Some("49.2"));
    assert_eq!(forecast.hourly[1].weather_code.as_ref().and_then(|n| n.unsigned), Some(61));
    // A null in a daily series behaves the same way.
    assert_eq!(forecast.daily[1].low, None);
    assert_eq!(figure(&forecast.daily[1].high), Some("58"));
}

#[test]
fn an_array_shorter_than_the_hour_asked_for_is_not_an_error() {
    let forecast = parse_detail(FORECAST).unwrap();
    // freezing_level_height carries one value for four hours.
    assert!(metric(&forecast.hourly[0].details, HourlyMetric::FreezingLevelHeight).is_some());
    assert_eq!(metric(&forecast.hourly[1].details, HourlyMetric::FreezingLevelHeight), None);
    assert_eq!(metric(&forecast.hourly[3].details, HourlyMetric::FreezingLevelHeight), None);
    // The metrics beside it still fill every hour.
    assert_eq!(metric(&forecast.hourly[3].details, HourlyMetric::VaporPressureDeficit), Some(("0.07", false)));
}

#[test]
fn a_length_reported_in_feet_is_normalized_to_meters() {
    // The figures arrive as sent, each marked with whether it is in feet,
    // which is what the conversion to meters goes by.
    let forecast = parse_detail(FORECAST).unwrap();
    assert_eq!(figure(&forecast.hourly[0].visibility), Some("78740"));
    assert!(forecast.hourly[0].visibility_in_feet);
    assert_eq!(metric(&forecast.hourly[0].details, HourlyMetric::FreezingLevelHeight), Some(("11000", true)));
    // snow_depth is a length too, but this answer says it came in meters.
    assert_eq!(metric(&forecast.hourly[0].details, HourlyMetric::SnowDepth), Some(("0", false)));
    // Daily lengths go by their own units block.
    assert_eq!(metric(&forecast.daily[0].details, DailyMetric::VisibilityMean), Some(("78740", true)));
    // Without a units block nothing is in feet.
    let plain = parse_detail(r#"{"hourly":{"time":["2026-11-01T00:00"],"visibility":[24000.0]}}"#).unwrap();
    assert!(!plain.hourly[0].visibility_in_feet);
}

#[test]
fn a_field_the_response_omits_costs_only_that_field() {
    let forecast = parse_detail(FORECAST).unwrap();
    assert_eq!(forecast.hourly[0].dew_point, None);
    assert_eq!(metric(&forecast.hourly[0].details, HourlyMetric::SoilTemperature6cm), None);
    assert_eq!(figure(&forecast.hourly[0].temperature), Some("51"));
}

#[test]
fn a_response_with_no_forecast_blocks_is_an_error_not_an_empty_forecast() {
    assert!(parse_detail(r#"{"timezone":"America/New_York"}"#).is_err());
    assert!(parse_detail("not json at all").is_err());
    // One block missing is not fatal: what did arrive is still usable.
    let hourly_only = parse_detail(r#"{"hourly":{"time":["2026-11-01T00:00"]}}"#).unwrap();
    assert_eq!(hourly_only.hourly.len(), 1);
    assert!(hourly_only.daily.is_empty());
    assert_eq!(hourly_only.time_zone, "");
    assert_eq!(hourly_only.utc_offset_seconds, 0);
}

#[test]
fn an_unparseable_time_drops_that_hour_and_no_other() {
    let body = r#"{"hourly":{"time":["2026-11-01T00:00","not a time","2026-11-01T02:00"],
      "temperature_2m":[1.0,2.0,3.0]}}"#;
    let forecast = parse_detail(body).unwrap();
    assert_eq!(forecast.hourly.len(), 2);
    // The surviving hours keep their own values: the index into every other
    // series is the position in the answer, not in the result.
    assert_eq!(figure(&forecast.hourly[0].temperature), Some("1"));
    assert_eq!(figure(&forecast.hourly[1].temperature), Some("3"));
}

#[test]
fn moon_events_are_unavailable_when_the_response_never_carried_them() {
    let body = r#"{"daily":{"time":["2026-11-01"]}}"#;
    let day = &parse_detail(body).unwrap().daily[0];
    assert!(!day.moon_events_available);
    assert_eq!(day.moonrise, None);
    // With the arrays present but null for that day, the events are
    // available and there simply was no moonset.
    let forecast = parse_detail(FORECAST).unwrap();
    assert!(forecast.daily[0].moon_events_available);
    assert_eq!(forecast.daily[0].moonset, None);
}

#[test]
fn the_forecasts_days_group_its_hours_by_the_local_calendar() {
    let forecast = parse_detail(FORECAST).unwrap();
    let times: Vec<LocalTime> = forecast.hourly.iter().map(|hour| hour.time).collect();
    assert_eq!(hours_of_day(&times, forecast.daily[0].date), vec![0, 1, 2]);
    assert_eq!(hours_of_day(&times, forecast.daily[1].date), vec![3]);
}

#[test]
fn a_field_the_request_did_not_ask_for_changes_nothing() {
    let plain = parse_detail(r#"{"hourly":{"time":["2026-11-01T00:00"],"temperature_2m":[1.0]},
      "daily":{"time":["2026-11-01"],"sunrise":["2026-11-01T07:26"]}}"#)
    .unwrap();
    let extra = parse_detail(r#"{"hourly":{"time":["2026-11-01T00:00"],"temperature_2m":[1.0],"surprise":[9.0]},
      "daily":{"time":["2026-11-01"],"sunrise":["2026-11-01T07:26"],"surprise":["x"]}}"#)
    .unwrap();
    assert_eq!(plain, extra);
}

#[test]
fn a_polar_day_without_a_daylight_duration_is_unknown_not_zero() {
    // Tromso in June: the sun does not set, so the provider sends null for
    // both events. Zero hours of daylight would be exactly wrong.
    let body = r#"{"timezone":"Europe/Oslo","utc_offset_seconds":7200,
      "daily":{"time":["2026-06-21"],"sunrise":[null],"sunset":[null]}}"#;
    assert_eq!(daylight(&parse_detail(body).unwrap().daily[0]), None);
}

#[test]
fn an_out_of_range_daylight_duration_is_not_believed_either() {
    let body = r#"{"daily":{"time":["2026-06-21"],"daylight_duration":[90000.0],
      "sunrise":["2026-06-21T04:25"],"sunset":["2026-06-21T20:31"]}}"#;
    let day = &parse_detail(body).unwrap().daily[0];
    // More than a day of daylight inside a day is not a number to show, so
    // the sunrise and sunset it did send answer instead.
    assert_eq!(daylight(day), Some(Daylight::Measured(57_960)));
}

#[test]
fn the_provider_moon_phase_is_used_when_it_sends_one() {
    let forecast = parse_detail(FORECAST).unwrap();
    match moon_source(&forecast.daily[0]) {
        MoonSource::Reported(cycle) => assert_eq!(cycle.decimal, "0.5"),
        MoonSource::Estimated => panic!("the provider sent a phase"),
    }
}

#[test]
fn missing_lunar_data_falls_back_to_the_estimated_cycle() {
    // The second day's moon_phase is null, so the mean cycle answers.
    let forecast = parse_detail(FORECAST).unwrap();
    assert_eq!(moon_source(&forecast.daily[1]), MoonSource::Estimated);
}

#[test]
fn a_moon_phase_outside_the_cycle_is_not_believed() {
    // A provider value has to be a fraction of a cycle. 47 is not.
    let body = r#"{"daily":{"time":["2026-11-01"],"moon_phase":[47.0]}}"#;
    assert_eq!(moon_source(&parse_detail(body).unwrap().daily[0]), MoonSource::Estimated);
}

#[test]
fn a_figure_is_within_range_by_its_text() {
    assert!(number_reads_within("0", 86_400));
    assert!(number_reads_within("-0", 86_400));
    assert!(number_reads_within("37620", 86_400));
    assert!(number_reads_within("86400", 86_400));
    assert!(!number_reads_within("86400.5", 86_400));
    assert!(!number_reads_within("90000", 86_400));
    assert!(!number_reads_within("-1", 86_400));
    assert!(!number_reads_within("", 86_400));
    assert!(!number_reads_within("NaN", 86_400));
    assert!(number_reads_within("0.5", 1));
    assert!(number_reads_within("1", 1));
    assert!(number_reads_within("1.000", 1));
    assert!(!number_reads_within("1.25", 1));
    assert!(!number_reads_within("47", 1));
    assert!(!number_reads_within("-0.25", 1));
    assert!(number_reads_within("-0.00", 1));
}

#[test]
fn a_written_date_reads_back_as_its_fields() {
    for (year, month, day) in [(0, 1, 1), (987, 3, 9), (2026, 9, 7), (2024, 2, 29), (9999, 12, 31)] {
        let text = format!("{year:04}-{month:02}-{day:02}");
        assert_eq!(LocalDate::parse(&text), Some(LocalDate { year, month, day }), "{text}");
    }
}

#[test]
fn the_last_days_of_the_largest_year_still_count_one_apart() {
    let eve = LocalDate { year: i32::MAX, month: 12, day: 30 };
    let last = LocalDate { year: i32::MAX, month: 12, day: 31 };
    assert_eq!(last.days_from_epoch(), eve.days_from_epoch() + 1);
    assert_eq!(last.weekday(), (eve.weekday() + 1) % 7);
    let before = LocalDate { year: i32::MIN, month: 3, day: 31 };
    let after = LocalDate { year: i32::MIN, month: 4, day: 1 };
    assert_eq!(after.days_from_epoch(), before.days_from_epoch() + 1);
}
