use barometer::json::JsonNumber;
use barometer::weather::air::{parse_air, AirQuality};
use barometer::weather::client::{
    after_first_lookup, parse_current, parse_ipapi, parse_ipwho, parse_search, search_term,
    WeatherError,
};

/// The text of a figure's double, as the answer gave it.
fn text_of(number: &Option<JsonNumber>) -> Option<&str> {
    number.as_ref().map(|n| n.decimal.as_str())
}

const FORECAST: &str = r#"{
  "latitude": 30.25, "longitude": -97.75, "timezone": "America/Chicago",
  "current": {
    "time": "2026-09-07T20:00", "interval": 900,
    "temperature_2m": 91.4, "relative_humidity_2m": 44,
    "apparent_temperature": 97.2, "is_day": 1, "precipitation": 0.0,
    "weather_code": 2, "wind_speed_10m": 8.9, "wind_direction_10m": 160,
    "pressure_msl": 1013.4, "surface_pressure": 1004.7
  }
}"#;

#[test]
fn a_forecast_response_is_read_field_for_field() {
    let now = parse_current(FORECAST).unwrap();
    assert_eq!(text_of(&now.temperature), Some("91.4"));
    assert_eq!(text_of(&now.apparent_temperature), Some("97.2"));
    assert_eq!(text_of(&now.relative_humidity), Some("44"));
    assert_eq!(now.weather_code.as_ref().and_then(|n| n.unsigned), Some(2));
    assert_eq!(text_of(&now.wind_speed), Some("8.9"));
    // Sea level for the reading the app is named after; the station's own
    // figure kept beside it rather than standing in for it.
    assert_eq!(text_of(&now.pressure_hectopascals), Some("1013.4"));
    assert_eq!(text_of(&now.surface_pressure_hectopascals), Some("1004.7"));
    assert!(now.is_day);
}

#[test]
fn a_missing_field_costs_only_that_field() {
    // A station that reports no humidity must not blank the temperature.
    let body = r#"{"current":{"temperature_2m":54.0,"weather_code":61,"is_day":0}}"#;
    let now = parse_current(body).unwrap();
    assert_eq!(text_of(&now.temperature), Some("54"));
    assert_eq!(now.relative_humidity, None);
    assert!(!now.is_day);
}

#[test]
fn an_absent_is_day_reads_as_day() {
    let now = parse_current(r#"{"current":{"temperature_2m":1.0}}"#).unwrap();
    assert!(now.is_day);
    // A flag sent as a double zero is still night.
    let night = parse_current(r#"{"current":{"is_day":0.0}}"#).unwrap();
    assert!(!night.is_day);
}

#[test]
fn a_response_with_no_current_block_is_an_error_not_an_empty_reading() {
    assert!(parse_current(r#"{"latitude":30.0}"#).is_err());
    assert!(parse_current("not json at all").is_err());
    assert_eq!(parse_current(r#"{"latitude":30.0}"#).unwrap_err().message(), "unexpected response: no current block");
}

#[test]
fn a_recorded_answer_reads_as_the_index_and_its_pollutants() {
    let body = r#"{"latitude":40.7,"longitude":-74.0,"timezone":"America/New_York",
        "current_units":{"us_aqi":"USAQI","pm2_5":"μg/m³"},
        "current":{"time":"2026-09-08T14:00","interval":3600,"us_aqi":42,"pm2_5":8.4,"pm10":15.1,"ozone":61.0}}"#;
    let air = parse_air(body).expect("parses");
    assert_eq!(air.us_aqi.as_ref().and_then(|n| n.unsigned), Some(42));
    assert_eq!(text_of(&air.pm2_5), Some("8.4"));
    assert_eq!(text_of(&air.pm10), Some("15.1"));
    assert_eq!(text_of(&air.ozone), Some("61"));
    assert!(!air.is_empty());
}

#[test]
fn a_reading_the_service_does_not_have_is_none_and_a_body_without_current_is_malformed() {
    let air = parse_air(r#"{"current":{"time":"2026-09-08T14:00","us_aqi":null}}"#).expect("parses");
    assert!(air.is_empty());
    assert_eq!(air, AirQuality { us_aqi: None, pm2_5: None, pm10: None, ozone: None });
    assert!(matches!(parse_air(r#"{"latitude":1}"#), Err(WeatherError::Malformed(_))));
    assert!(matches!(parse_air("not json"), Err(WeatherError::Malformed(_))));
}


const SEARCH: &str = r#"{"results":[
  {"id":4671654,"name":"Austin","latitude":30.26715,"longitude":-97.74306,
   "country":"United States","admin1":"Texas","timezone":"America/Chicago"},
  {"id":4671240,"name":"Austin","latitude":39.49172,"longitude":-85.80802,
   "country":"United States","admin1":"Indiana","timezone":"America/Indiana/Indianapolis"}
]}"#;

#[test]
fn search_results_keep_what_tells_two_places_of_the_same_name_apart() {
    let found = parse_search(SEARCH).unwrap();
    assert_eq!(found.len(), 2);
    assert_eq!(found[0].display_name(), "Austin, Texas, United States");
    assert_eq!(found[1].display_name(), "Austin, Indiana, United States");
    assert_ne!(found[0].id, found[1].id);
    assert_eq!(found[0].id, "4671654");
    assert_eq!(found[1].time_zone, "America/Indiana/Indianapolis");
}

#[test]
fn coordinates_survive_as_the_service_gave_them() {
    let found = parse_search(SEARCH).unwrap();
    assert_eq!(found[0].latitude, "30.26715");
    assert_eq!(found[0].longitude, "-97.74306");
}

#[test]
fn no_matches_is_an_empty_list_not_a_failure() {
    assert!(parse_search(r#"{"generationtime_ms":0.2}"#).unwrap().is_empty());
    assert!(parse_search(r#"{"results":"none"}"#).unwrap().is_empty());
}

#[test]
fn a_result_missing_a_position_is_skipped_rather_than_failing_the_search() {
    let body = r#"{"results":[{"name":"Nowhere"},
      {"id":1,"name":"Somewhere","latitude":1.0,"longitude":2.0,"country":"X"}]}"#;
    let found = parse_search(body).unwrap();
    assert_eq!(found.len(), 1);
    assert_eq!(found[0].name, "Somewhere");
    assert_eq!(found[0].admin, None);
    assert_eq!(found[0].time_zone, "");
}

#[test]
fn a_result_without_an_id_is_known_by_its_coordinates() {
    let body = r#"{"results":[{"name":"Somewhere","latitude":1.5,"longitude":-2.25}]}"#;
    let found = parse_search(body).unwrap();
    assert_eq!(found[0].id, "1.5,-2.25");
    assert_eq!(found[0].country, "");
}

#[test]
fn a_search_answer_that_is_not_json_is_malformed() {
    assert!(matches!(parse_search("not json at all"), Err(WeatherError::Malformed(_))));
}

#[test]
fn both_geolocation_services_are_understood() {
    let ipapi = r#"{"city":"Austin","region":"Texas","country_name":"United States",
      "latitude":30.2672,"longitude":-97.7431,"timezone":"America/Chicago"}"#;
    let one = parse_ipapi(ipapi).unwrap();
    assert_eq!(one.name, "Austin");
    assert_eq!(one.time_zone, "America/Chicago");
    assert_eq!(one.id, "ip:30.2672,-97.7431");

    let ipwho = r#"{"success":true,"city":"Austin","region":"Texas","country":"United States",
      "latitude":30.2672,"longitude":-97.7431,"timezone":{"id":"America/Chicago"}}"#;
    let two = parse_ipwho(ipwho).unwrap();
    assert_eq!(two.name, "Austin");
    assert_eq!(two.time_zone, "America/Chicago");
    assert_eq!(one.latitude, two.latitude);
    assert_eq!(two.admin.as_deref(), Some("Texas"));
}

#[test]
fn coordinates_sent_as_text_are_kept_as_text() {
    let body = r#"{"latitude":"30.2672","longitude":"-97.7431"}"#;
    let place = parse_ipapi(body).unwrap();
    assert_eq!(place.latitude, "30.2672");
    assert_eq!(place.name, "Current location");
}

#[test]
fn a_refused_geolocation_is_an_error_not_a_location_at_the_null_island() {
    match parse_ipwho(r#"{"success":false,"message":"rate limited"}"#) {
        Err(WeatherError::Malformed(why)) => assert_eq!(why, "lookup refused"),
        other => panic!("expected a refusal, got {other:?}"),
    }
    match parse_ipapi(r#"{"city":"Austin"}"#) {
        Err(WeatherError::Malformed(why)) => assert_eq!(why, "no coordinates"),
        other => panic!("expected no coordinates, got {other:?}"),
    }
}

#[test]
fn a_failed_first_lookup_falls_through_to_the_second() {
    assert!(after_first_lookup(None).is_none());
    assert!(after_first_lookup(Some("<html>403</html>")).is_none());
    let body = r#"{"city":"Austin","latitude":1.0,"longitude":2.0}"#;
    assert_eq!(after_first_lookup(Some(body)).map(|l| l.name), Some("Austin".to_string()));
}

#[test]
fn a_blank_query_asks_for_nothing() {
    assert_eq!(search_term("   "), None);
    assert_eq!(search_term(""), None);
    assert_eq!(search_term("  Austin \n"), Some("Austin"));
}

#[test]
fn an_error_reads_as_the_tooltip_says_it() {
    assert_eq!(WeatherError::NoLocation.message(), "no location set");
    assert_eq!(WeatherError::Malformed("no current block".into()).message(), "unexpected response: no current block");
    assert_eq!(WeatherError::Transport("timed out".into()).message(), "timed out");
}
