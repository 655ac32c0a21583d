//! The air at a location, from Open-Meteo's air-quality service: the US
//! index and the pollutants behind it, and the EPA's word for the index.

use vstd::prelude::*;

use crate::json::{error_text, number_at, parse_json, parsed_json, Json, JsonNumber};
use crate::weather::client::{malformed_with, WeatherError};

verus! {

/// The EPA's word for an index band.
pub open spec fn band_text(us_aqi: int) -> Seq<char> {
    if us_aqi <= 50 {
        "Good"@
    } else if us_aqi <= 100 {
        "Moderate"@
    } else if us_aqi <= 150 {
        "Unhealthy for sensitive groups"@
    } else if us_aqi <= 200 {
        "Unhealthy"@
    } else if us_aqi <= 300 {
        "Very unhealthy"@
    } else {
        "Hazardous"@
    }
}

/// The EPA's word for an index.
pub fn describe(us_aqi: i64) -> (word: &'static str)
    ensures
        word@ == band_text(us_aqi as int),
{
    if us_aqi <= 50 {
        "Good"
    } else if us_aqi <= 100 {
        "Moderate"
    } else if us_aqi <= 150 {
        "Unhealthy for sensitive groups"
    } else if us_aqi <= 200 {
        "Unhealthy"
    } else if us_aqi <= 300 {
        "Very unhealthy"
    } else {
        "Hazardous"
    }
}

/// The EPA's breakpoints: an index up to 50 is "Good", 51 to 100
/// "Moderate", 101 to 150 "Unhealthy for sensitive groups", 151 to 200
/// "Unhealthy", 201 to 300 "Very unhealthy", and past 300 "Hazardous"; and
/// each word belongs to its band alone.
pub proof fn the_bands_break_where_the_epa_breaks_them(us_aqi: int)
    ensures
        band_text(us_aqi) == "Good"@ <==> us_aqi <= 50,
        band_text(us_aqi) == "Moderate"@ <==> 51 <= us_aqi <= 100,
        band_text(us_aqi) == "Unhealthy for sensitive groups"@ <==> 101 <= us_aqi <= 150,
        band_text(us_aqi) == "Unhealthy"@ <==> 151 <= us_aqi <= 200,
        band_text(us_aqi) == "Very unhealthy"@ <==> 201 <= us_aqi <= 300,
        band_text(us_aqi) == "Hazardous"@ <==> 300 < us_aqi,
{
    reveal_strlit("Good");
    reveal_strlit("Moderate");
    reveal_strlit("Unhealthy for sensitive groups");
    reveal_strlit("Unhealthy");
    reveal_strlit("Very unhealthy");
    reveal_strlit("Hazardous");
    assert("Good"@.len() == 4);
    assert("Moderate"@.len() == 8);
    assert("Unhealthy for sensitive groups"@.len() == 30);
    assert("Unhealthy"@.len() == 9);
    assert("Very unhealthy"@.len() == 14);
    assert("Hazardous"@.len() == 9);
    assert("Unhealthy"@[0] == 'U' && "Hazardous"@[0] == 'H');
    assert("Unhealthy"@ != "Hazardous"@);
}

/// What the air is like right now, each figure as the answer gave it.
#[derive(Clone, Debug, PartialEq)]
pub struct AirQuality {
    /// The United States index, 0 upward; past 300 is hazardous. The
    /// service may send it with a fraction; the index is whole by
    /// definition, so it is rounded where it is shown.
    pub us_aqi: Option<JsonNumber>,
    /// Micrograms per cubic meter.
    pub pm2_5: Option<JsonNumber>,
    pub pm10: Option<JsonNumber>,
    pub ozone: Option<JsonNumber>,
}

impl AirQuality {
    /// Whether there is anything here to show.
    pub fn is_empty(&self) -> (empty: bool)
        ensures
            empty == (self.us_aqi is None && self.pm2_5 is None && self.pm10 is None && self.ozone is None),
    {
        self.us_aqi.is_none() && self.pm2_5.is_none() && self.pm10.is_none() && self.ozone.is_none()
    }
}

/// The reading an air-quality answer's current block holds.
pub open spec fn air_reading(block: Json) -> AirQuality {
    AirQuality {
        us_aqi: block.number_at("us_aqi"@),
        pm2_5: block.number_at("pm2_5"@),
        pm10: block.number_at("pm10"@),
        ozone: block.number_at("ozone"@),
    }
}

/// An air reading takes each figure from the current block's field of that
/// name: the index from "us_aqi", the fine particles from "pm2_5", the
/// coarse ones from "pm10" and the ozone from "ozone".
pub proof fn air_quality_reads_each_figure_from_its_own_key(block: Json)
    ensures
        air_reading(block).us_aqi == block.number_at("us_aqi"@),
        air_reading(block).pm2_5 == block.number_at("pm2_5"@),
        air_reading(block).pm10 == block.number_at("pm10"@),
        air_reading(block).ozone == block.number_at("ozone"@),
{
}

/// The reading in an air-quality answer: its current block, read field for
/// field; an answer without one is malformed.
pub fn air_from(root: &Json) -> (air: Result<AirQuality, WeatherError>)
    ensures
        match root.member("current"@) {
            Some(block) => air == Ok::<AirQuality, WeatherError>(air_reading(block)),
            None => air matches Err(e) && malformed_with(e, "no current block"@),
        },
{
    let block = match root.get("current") {
        Some(block) => block,
        None => return Err(WeatherError::Malformed("no current block".to_string())),
    };
    Ok(AirQuality {
        us_aqi: number_at(block, "us_aqi"),
        pm2_5: number_at(block, "pm2_5"),
        pm10: number_at(block, "pm10"),
        ozone: number_at(block, "ozone"),
    })
}

/// Pulls the reading out of an air-quality answer: an error when the text
/// is not JSON or has no current block, and otherwise its figures.
pub fn parse_air(body: &str) -> (air: Result<AirQuality, WeatherError>)
    ensures
        match parsed_json(body@) {
            Some(root) => match root.member("current"@) {
                Some(block) => air == Ok::<AirQuality, WeatherError>(air_reading(block)),
                None => air matches Err(e) && malformed_with(e, "no current block"@),
            },
            None => air matches Err(e) && e is Malformed,
        },
{
    match parse_json(body) {
        Ok(root) => air_from(&root),
        Err(e) => Err(WeatherError::Malformed(error_text(&e))),
    }
}

} // verus!
