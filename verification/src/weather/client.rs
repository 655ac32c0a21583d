//! Reading Open-Meteo's geocoding answers and the IP geolocation services'
//! answers into locations, and what a search asks for.
//!
//! The requests themselves are the application's; what is decided here is
//! what a query asks for and what an answer says.

use vstd::prelude::*;

use crate::json::{
    bool_at, decimal_at, error_text, number_at, parse_json, parsed_json, text_at, unsigned_at, Json,
    JsonNumber,
};
use crate::text::{decimal, decimal_string};
use crate::weather::models::{Location, LocationText};

verus! {

/// Why there is no weather.
#[derive(Debug)]
pub enum WeatherError {
    /// The request did not get through.
    Transport(String),
    /// The service answered with something unusable.
    Malformed(String),
    /// There is nowhere to ask about.
    NoLocation,
}

impl WeatherError {
    pub open spec fn message_text(&self) -> Seq<char> {
        match self {
            WeatherError::Transport(why) => why@,
            WeatherError::Malformed(why) => "unexpected response: "@ + why@,
            WeatherError::NoLocation => "no location set"@,
        }
    }

    /// The error in words, as the strip's tooltip shows it.
    pub fn message(&self) -> (text: String)
        ensures
            text@ == self.message_text(),
    {
        match self {
            WeatherError::Transport(why) => why.clone(),
            WeatherError::Malformed(why) => {
                let mut text = String::new();
                text.append("unexpected response: ");
                text.append(why.as_str());
                text
            },
            WeatherError::NoLocation => {
                let mut text = String::new();
                text.append("no location set");
                text
            },
        }
    }
}

/// Whether an error says the service answered with something unusable,
/// in the given words.
pub open spec fn malformed_with(error: WeatherError, words: Seq<char>) -> bool {
    error matches WeatherError::Malformed(why) && why@ == words
}

// ---------------------------------------------------------------------------
// What a search asks for
// ---------------------------------------------------------------------------

/// A text with the whitespace at both ends taken off, as std trims it.
pub uninterp spec fn trimmed(text: Seq<char>) -> Seq<char>;

/// Whether a character has Unicode's White_Space property, which is what
/// std trims.
pub uninterp spec fn white_space(c: char) -> bool;

/// Whether one text is a run of another with only whitespace before and
/// after it.
pub open spec fn trimmed_from(text: Seq<char>, inner: Seq<char>) -> bool {
    exists|start: int|
        #![trigger text.subrange(start, start + inner.len())]
        0 <= start && start + inner.len() <= text.len() && inner == text.subrange(start, start + inner.len())
            && (forall|i: int| 0 <= i < start ==> white_space(#[trigger] text[i])) && (forall|i: int|
            start + inner.len() <= i < text.len() ==> white_space(#[trigger] text[i]))
}

/// Trims whitespace from both ends.
///
/// Calls `str::trim`, which std documents as returning a slice of the text
/// with leading and trailing whitespace removed, whitespace being Unicode's
/// White_Space property. The contract names the result and says that much
/// of it: it is a run of the text with only whitespace cut from either end
/// and none left at its ends. Which characters have the property is named,
/// not restated.
#[verifier::external_body]
fn trim(text: &str) -> (inner: &str)
    ensures
        inner@ == trimmed(text@),
        trimmed_from(text@, inner@),
        inner@.len() > 0 ==> !white_space(inner@[0]) && !white_space(inner@[inner@.len() - 1]),
{
    text.trim()
}

/// What a search for a query asks the geocoding service for: the query
/// with its surrounding whitespace taken off, or nothing at all for a blank
/// query, which is answered with no places without asking.
pub fn search_term(query: &str) -> (term: Option<&str>)
    ensures
        match term {
            Some(t) => t@ == trimmed(query@) && t@.len() > 0,
            None => trimmed(query@).len() == 0,
        },
        (forall|i: int| 0 <= i < query@.len() ==> white_space(#[trigger] query@[i])) ==> term is None,
        (exists|i: int| 0 <= i < query@.len() && !white_space(#[trigger] query@[i])) ==> term is Some,
{
    let trimmed = trim(query);
    proof {
        let inner = trimmed@;
        let start = choose|start: int|
            #![trigger query@.subrange(start, start + inner.len())]
            0 <= start && start + inner.len() <= query@.len() && inner == query@.subrange(start, start + inner.len())
                && (forall|i: int| 0 <= i < start ==> white_space(#[trigger] query@[i])) && (forall|i: int|
                start + inner.len() <= i < query@.len() ==> white_space(#[trigger] query@[i]));
        if inner.len() > 0 {
            assert(inner[0] == query@[start]);
        } else {
            assert forall|i: int| 0 <= i < query@.len() implies white_space(#[trigger] query@[i]) by {
                if i >= start {
                    assert(start + inner.len() <= i);
                }
            }
        }
    }
    if trimmed.is_empty() {
        None
    } else {
        Some(trimmed)
    }
}

// ---------------------------------------------------------------------------
// Geocoding
// ---------------------------------------------------------------------------

/// A text, or nothing in its place.
pub open spec fn or_empty(text: Option<Seq<char>>) -> Seq<char> {
    match text {
        Some(t) => t,
        None => Seq::empty(),
    }
}

/// The place a geocoding result names: absent without a name and a
/// position, since it could be neither shown nor asked about. Open-Meteo's
/// own id keeps the same place saved twice the same place; without one the
/// coordinates stand in. Coordinates are kept as the text of the numbers
/// the service sent.
pub open spec fn result_location(entry: Json) -> Option<LocationText> {
    match (entry.text_at("name"@), entry.decimal_at("latitude"@), entry.decimal_at("longitude"@)) {
        (Some(name), Some(latitude), Some(longitude)) => Some(
            LocationText {
                id: match entry.unsigned_at("id"@) {
                    Some(id) => decimal(id as nat),
                    None => latitude + ","@ + longitude,
                },
                name,
                admin: entry.text_at("admin1"@),
                country: or_empty(entry.text_at("country"@)),
                latitude,
                longitude,
                time_zone: or_empty(entry.text_at("timezone"@)),
            },
        ),
        _ => None,
    }
}

/// What a geocoding result names, field by field: a place exactly when it
/// has a name and both coordinates, its name from "name", its region from
/// "admin1", its country from "country", its zone from "timezone" and its
/// coordinates from "latitude" and "longitude".
pub proof fn a_search_result_reads_its_own_fields(entry: Json)
    ensures
        match (entry.text_at("name"@), entry.decimal_at("latitude"@), entry.decimal_at("longitude"@)) {
            (Some(name), Some(lat), Some(lon)) => result_location(entry) matches Some(l)
                && l.name == name
                && l.admin == entry.text_at("admin1"@)
                && l.country == or_empty(entry.text_at("country"@))
                && l.time_zone == or_empty(entry.text_at("timezone"@))
                && l.latitude == lat
                && l.longitude == lon,
            _ => result_location(entry) is None,
        },
{
}

/// The places of a run of results, in order, skipping the unusable ones.
pub open spec fn result_locations(entries: Seq<Json>) -> Seq<LocationText>
    decreases entries.len(),
{
    if entries.len() == 0 {
        Seq::empty()
    } else {
        result_locations(entries.drop_last()) + match result_location(entries.last()) {
            Some(l) => seq![l],
            None => Seq::empty(),
        }
    }
}

/// The places a geocoding answer lists. No matches is an absent "results"
/// key rather than an empty array, and is an ordinary answer.
pub open spec fn search_hits(root: Json) -> Seq<LocationText> {
    match root.member("results"@) {
        Some(Json::Array(items)) => result_locations(items@),
        _ => Seq::empty(),
    }
}

fn location_from_result(entry: &Json) -> (found: Option<Location>)
    ensures
        match found {
            Some(l) => result_location(*entry) == Some(l.text()),
            None => result_location(*entry) is None,
        },
{
    let name = match text_at(entry, "name") {
        Some(n) => n,
        None => return None,
    };
    let latitude = match decimal_at(entry, "latitude") {
        Some(l) => l,
        None => return None,
    };
    let longitude = match decimal_at(entry, "longitude") {
        Some(l) => l,
        None => return None,
    };
    let id = match unsigned_at(entry, "id") {
        Some(id) => decimal_string(id),
        None => {
            let mut id = latitude.clone();
            id.append(",");
            id.append(longitude.as_str());
            id
        },
    };
    let country = match text_at(entry, "country") {
        Some(c) => c,
        None => String::new(),
    };
    let time_zone = match text_at(entry, "timezone") {
        Some(z) => z,
        None => String::new(),
    };
    let location = Location {
        id,
        name,
        admin: text_at(entry, "admin1"),
        country,
        latitude,
        longitude,
        time_zone,
    };
    Some(location)
}

/// The places a parsed geocoding answer lists, in its order.
pub fn locations_from_search(root: &Json) -> (found: Vec<Location>)
    ensures
        found@.map_values(|l: Location| l.text()) == search_hits(*root),
{
    let mut found: Vec<Location> = Vec::new();
    let items = match root.get("results") {
        Some(results) => match results.as_array() {
            Some(items) => items,
            None => {
                assert(found@.map_values(|l: Location| l.text()) =~= Seq::<LocationText>::empty());
                return found;
            },
        },
        None => {
            assert(found@.map_values(|l: Location| l.text()) =~= Seq::<LocationText>::empty());
            return found;
        },
    };
    let mut i: usize = 0;
    assert(found@.map_values(|l: Location| l.text()) =~= result_locations(items@.subrange(0, 0)));
    while i < items.len()
        invariant
            i <= items@.len(),
            root.member("results"@) == Some(Json::Array(*items)),
            found@.map_values(|l: Location| l.text()) == result_locations(items@.subrange(0, i as int)),
        decreases items@.len() - i,
    {
        let ghost before = found@;
        let entry = &items[i];
        proof {
            let upto = items@.subrange(0, i + 1);
            assert(upto.drop_last() =~= items@.subrange(0, i as int));
            assert(upto.last() == items@[i as int]);
        }
        match location_from_result(entry) {
            Some(location) => {
                found.push(location);
                assert(found@.map_values(|l: Location| l.text()) =~= before.map_values(
                    |l: Location| l.text(),
                ).push(result_location(items@[i as int]).unwrap()));
            },
            None => {},
        }
        i += 1;
    }
    assert(items@.subrange(0, i as int) =~= items@);
    found
}

/// What a geocoding answer's text says, when it is JSON.
pub open spec fn search_answer(body: Seq<char>) -> Option<Seq<LocationText>> {
    match parsed_json(body) {
        Some(root) => Some(search_hits(root)),
        None => None,
    }
}

/// Turns a geocoding answer into locations: an error when it is not JSON,
/// and otherwise the usable results, in order.
pub fn parse_search(body: &str) -> (found: Result<Vec<Location>, WeatherError>)
    ensures
        match found {
            Ok(places) => search_answer(body@) == Some(places@.map_values(|l: Location| l.text())),
            Err(e) => search_answer(body@) is None && e is Malformed,
        },
{
    match parse_json(body) {
        Ok(root) => Ok(locations_from_search(&root)),
        Err(e) => Err(WeatherError::Malformed(error_text(&e))),
    }
}

// ---------------------------------------------------------------------------
// Geolocation by IP address
// ---------------------------------------------------------------------------

/// A coordinate as either service sends it: a number, kept as the text of
/// its double, or a string, kept as it is.
pub open spec fn coordinate_at(root: Json, key: Seq<char>) -> Option<Seq<char>> {
    match root.decimal_at(key) {
        Some(d) => Some(d),
        None => root.text_at(key),
    }
}

/// The place an answer names, under the keys a service uses; absent
/// without both coordinates. A place without a city is "Current location".
pub open spec fn located(
    root: Json,
    city: Seq<char>,
    region: Seq<char>,
    country: Seq<char>,
    latitude: Seq<char>,
    longitude: Seq<char>,
    zone: Seq<char>,
) -> Option<LocationText> {
    match (coordinate_at(root, latitude), coordinate_at(root, longitude)) {
        (Some(lat), Some(lon)) => Some(
            LocationText {
                id: "ip:"@ + lat + ","@ + lon,
                name: match root.text_at(city) {
                    Some(name) => name,
                    None => "Current location"@,
                },
                admin: root.text_at(region),
                country: or_empty(root.text_at(country)),
                latitude: lat,
                longitude: lon,
                time_zone: or_empty(root.text_at(zone)),
            },
        ),
        _ => None,
    }
}

fn coordinate(root: &Json, key: &str) -> (text: Option<String>)
    ensures
        match text {
            Some(t) => coordinate_at(*root, key@) == Some(t@),
            None => coordinate_at(*root, key@) is None,
        },
{
    match decimal_at(root, key) {
        Some(d) => Some(d),
        None => text_at(root, key),
    }
}

/// The place an answer names, under the keys a service uses.
pub fn location_from(
    root: &Json,
    city: &str,
    region: &str,
    country: &str,
    latitude: &str,
    longitude: &str,
    zone: &str,
) -> (found: Result<Location, WeatherError>)
    ensures
        match found {
            Ok(l) => located(*root, city@, region@, country@, latitude@, longitude@, zone@) == Some(
                l.text(),
            ),
            Err(e) => located(*root, city@, region@, country@, latitude@, longitude@, zone@) is None
                && malformed_with(e, "no coordinates"@),
        },
{
    let lat = coordinate(root, latitude);
    let lon = coordinate(root, longitude);
    let (lat, lon) = match (lat, lon) {
        (Some(lat), Some(lon)) => (lat, lon),
        _ => {
            let mut why = String::new();
            why.append("no coordinates");
            return Err(WeatherError::Malformed(why));
        },
    };
    let mut id = String::new();
    id.append("ip:");
    id.append(lat.as_str());
    id.append(",");
    id.append(lon.as_str());
    let name = match text_at(root, city) {
        Some(name) => name,
        None => {
            let mut name = String::new();
            name.append("Current location");
            name
        },
    };
    let country_text = match text_at(root, country) {
        Some(c) => c,
        None => String::new(),
    };
    let time_zone = match text_at(root, zone) {
        Some(z) => z,
        None => String::new(),
    };
    Ok(
        Location {
            id,
            name,
            admin: text_at(root, region),
            country: country_text,
            latitude: lat,
            longitude: lon,
            time_zone,
        },
    )
}

/// What ipapi.co's answer says: the place, when the text is JSON and
/// carries both coordinates.
pub open spec fn ipapi_answer(body: Seq<char>) -> Option<LocationText> {
    match parsed_json(body) {
        Some(root) => located(
            root,
            "city"@,
            "region"@,
            "country_name"@,
            "latitude"@,
            "longitude"@,
            "timezone"@,
        ),
        None => None,
    }
}

/// ipapi.co's shape.
pub fn parse_ipapi(body: &str) -> (found: Result<Location, WeatherError>)
    ensures
        match found {
            Ok(l) => ipapi_answer(body@) == Some(l.text()),
            Err(e) => ipapi_answer(body@) is None && e is Malformed,
        },
{
    match parse_json(body) {
        Ok(root) => location_from(&root, "city", "region", "country_name", "latitude", "longitude", "timezone"),
        Err(e) => Err(WeatherError::Malformed(error_text(&e))),
    }
}

/// What an ipapi.co answer names, field by field: a place exactly when the
/// text is JSON with both coordinates, its region from "region", its
/// country from "country_name", its zone from "timezone", its name from
/// "city" or "Current location" without one, its coordinates from
/// "latitude" and "longitude", and an id made of the two.
pub proof fn an_ipapi_answer_reads_its_own_fields(body: Seq<char>)
    ensures
        match parsed_json(body) {
            Some(root) => match (coordinate_at(root, "latitude"@), coordinate_at(root, "longitude"@)) {
                (Some(lat), Some(lon)) => ipapi_answer(body) matches Some(l)
                    && l.admin == root.text_at("region"@)
                    && l.country == or_empty(root.text_at("country_name"@))
                    && l.time_zone == or_empty(root.text_at("timezone"@))
                    && l.name == match root.text_at("city"@) {
                        Some(name) => name,
                        None => "Current location"@,
                    }
                    && l.latitude == lat
                    && l.longitude == lon
                    && l.id == "ip:"@ + lat + ","@ + lon,
                _ => ipapi_answer(body) is None,
            },
            None => ipapi_answer(body) is None,
        },
{
}

/// ipwho.is's zone, which it nests under "timezone".
pub open spec fn nested_zone(root: Json) -> Seq<char> {
    match root.member("timezone"@) {
        Some(zone) => or_empty(zone.text_at("id"@)),
        None => Seq::empty(),
    }
}

/// What ipwho.is's answer says: refused when it says it did not succeed,
/// and otherwise the place under its own keys, with its nested zone.
pub open spec fn ipwho_answer(body: Seq<char>) -> Option<LocationText> {
    match parsed_json(body) {
        Some(root) => if root.bool_at("success"@) == Some(false) {
            None
        } else {
            match located(root, "city"@, "region"@, "country"@, "latitude"@, "longitude"@, "__none__"@) {
                Some(l) => Some(LocationText { time_zone: nested_zone(root), ..l }),
                None => None,
            }
        },
        None => None,
    }
}

/// What an ipwho.is answer names, field by field: nothing when it says it
/// did not succeed; otherwise a place exactly when it has both
/// coordinates, its region from "region", its country from "country", its
/// zone from the "id" under "timezone", its name from "city" or "Current
/// location" without one, and its coordinates from "latitude" and
/// "longitude".
pub proof fn an_ipwho_answer_reads_its_own_fields(body: Seq<char>)
    ensures
        match parsed_json(body) {
            Some(root) => if root.bool_at("success"@) == Some(false) {
                ipwho_answer(body) is None
            } else {
                match (coordinate_at(root, "latitude"@), coordinate_at(root, "longitude"@)) {
                    (Some(lat), Some(lon)) => ipwho_answer(body) matches Some(l)
                        && l.admin == root.text_at("region"@)
                        && l.country == or_empty(root.text_at("country"@))
                        && l.time_zone == match root.member("timezone"@) {
                            Some(zone) => or_empty(zone.text_at("id"@)),
                            None => Seq::empty(),
                        }
                        && l.name == match root.text_at("city"@) {
                            Some(name) => name,
                            None => "Current location"@,
                        }
                        && l.latitude == lat
                        && l.longitude == lon
                        && l.id == "ip:"@ + lat + ","@ + lon,
                    _ => ipwho_answer(body) is None,
                }
            },
            None => ipwho_answer(body) is None,
        },
{
}

/// ipwho.is's shape, which differs from ipapi.co's in what the fields are
/// called and in nesting the zone.
pub fn parse_ipwho(body: &str) -> (found: Result<Location, WeatherError>)
    ensures
        match found {
            Ok(l) => ipwho_answer(body@) == Some(l.text()),
            Err(e) => ipwho_answer(body@) is None && e is Malformed,
        },
        (parsed_json(body@) matches Some(root) && root.bool_at("success"@) == Some(false)) ==> (
        found matches Err(e) && malformed_with(e, "lookup refused"@)),
{
    let root = match parse_json(body) {
        Ok(root) => root,
        Err(e) => return Err(WeatherError::Malformed(error_text(&e))),
    };
    if bool_at(&root, "success") == Some(false) {
        let mut why = String::new();
        why.append("lookup refused");
        return Err(WeatherError::Malformed(why));
    }
    let zone = match root.get("timezone") {
        Some(z) => match text_at(z, "id") {
            Some(id) => id,
            None => String::new(),
        },
        None => String::new(),
    };
    let mut location = match location_from(&root, "city", "region", "country", "latitude", "longitude", "__none__") {
        Ok(l) => l,
        Err(e) => return Err(e),
    };
    location.time_zone = zone;
    Ok(location)
}

/// What the first geolocation service's answer leaves to do: the place it
/// named, or nothing, which means the second service is asked. An answer
/// that never arrived and one that did not read as a place are the same.
pub fn after_first_lookup(body: Option<&str>) -> (found: Option<Location>)
    ensures
        match body {
            Some(b) => match found {
                Some(l) => ipapi_answer(b@) == Some(l.text()),
                None => ipapi_answer(b@) is None,
            },
            None => found is None,
        },
{
    match body {
        Some(b) => match parse_ipapi(b) {
            Ok(location) => Some(location),
            Err(_) => None,
        },
        None => None,
    }
}

// ---------------------------------------------------------------------------
// Current conditions
// ---------------------------------------------------------------------------

/// One observation, in whatever units were asked for, each figure as the
/// answer gave it.
///
/// Every figure is optional because Open-Meteo omits rather than nulls what
/// a station does not report, and a missing humidity must not cost the
/// temperature beside it.
#[derive(Clone, Debug, PartialEq)]
pub struct CurrentWeather {
    pub temperature: Option<JsonNumber>,
    pub apparent_temperature: Option<JsonNumber>,
    pub relative_humidity: Option<JsonNumber>,
    pub precipitation: Option<JsonNumber>,
    pub wind_speed: Option<JsonNumber>,
    pub wind_direction: Option<JsonNumber>,
    /// Pressure at sea level, always hectopascals: what a barometer reading
    /// means, and the only unit Open-Meteo will not convert.
    pub pressure_hectopascals: Option<JsonNumber>,
    /// Pressure where the station stands, the same reading uncorrected for
    /// altitude.
    pub surface_pressure_hectopascals: Option<JsonNumber>,
    /// WMO code, which the badge turns into a mark.
    pub weather_code: Option<JsonNumber>,
    /// Whether it is daytime there, which decides sun against moon.
    pub is_day: bool,
}

/// The observation a forecast answer's current block holds. An absent
/// day flag reads as day: a moon over a sunny afternoon reads as broken, a
/// sun over a clear night as merely unlucky.
pub open spec fn current_reading(block: Json) -> CurrentWeather {
    CurrentWeather {
        temperature: block.number_at("temperature_2m"@),
        apparent_temperature: block.number_at("apparent_temperature"@),
        relative_humidity: block.number_at("relative_humidity_2m"@),
        precipitation: block.number_at("precipitation"@),
        wind_speed: block.number_at("wind_speed_10m"@),
        wind_direction: block.number_at("wind_direction_10m"@),
        pressure_hectopascals: block.number_at("pressure_msl"@),
        surface_pressure_hectopascals: block.number_at("surface_pressure"@),
        weather_code: block.number_at("weather_code"@),
        is_day: match block.number_at("is_day"@) {
            Some(flag) => !flag.reads_as_zero(),
            None => true,
        },
    }
}

/// A current observation takes each figure from the current block's field
/// of that name: the temperature from "temperature_2m", the felt one from
/// "apparent_temperature", the humidity from "relative_humidity_2m", the
/// precipitation from "precipitation", the wind's speed from
/// "wind_speed_10m" and its direction from "wind_direction_10m", the
/// pressures from "pressure_msl" and "surface_pressure", the code from
/// "weather_code", and day or night from "is_day", day when it is missing.
pub proof fn current_conditions_read_each_figure_from_its_own_key(block: Json)
    ensures
        current_reading(block).temperature == block.number_at("temperature_2m"@),
        current_reading(block).apparent_temperature == block.number_at("apparent_temperature"@),
        current_reading(block).relative_humidity == block.number_at("relative_humidity_2m"@),
        current_reading(block).precipitation == block.number_at("precipitation"@),
        current_reading(block).wind_speed == block.number_at("wind_speed_10m"@),
        current_reading(block).wind_direction == block.number_at("wind_direction_10m"@),
        current_reading(block).pressure_hectopascals == block.number_at("pressure_msl"@),
        current_reading(block).surface_pressure_hectopascals == block.number_at("surface_pressure"@),
        current_reading(block).weather_code == block.number_at("weather_code"@),
        block.number_at("is_day"@) matches Some(flag) ==> current_reading(block).is_day == !flag.reads_as_zero(),
        block.number_at("is_day"@) is None ==> current_reading(block).is_day,
{
}

/// The observation in a forecast answer: its current block, read field
/// for field; an answer without one is malformed.
pub fn current_from(root: &Json) -> (now: Result<CurrentWeather, WeatherError>)
    ensures
        match root.member("current"@) {
            Some(block) => now == Ok::<CurrentWeather, WeatherError>(current_reading(block)),
            None => now matches Err(e) && malformed_with(e, "no current block"@),
        },
{
    let block = match root.get("current") {
        Some(block) => block,
        None => return Err(WeatherError::Malformed("no current block".to_string())),
    };
    let is_day = match number_at(block, "is_day") {
        Some(flag) => !flag.is_zero(),
        None => true,
    };
    Ok(CurrentWeather {
        temperature: number_at(block, "temperature_2m"),
        apparent_temperature: number_at(block, "apparent_temperature"),
        relative_humidity: number_at(block, "relative_humidity_2m"),
        precipitation: number_at(block, "precipitation"),
        wind_speed: number_at(block, "wind_speed_10m"),
        wind_direction: number_at(block, "wind_direction_10m"),
        pressure_hectopascals: number_at(block, "pressure_msl"),
        surface_pressure_hectopascals: number_at(block, "surface_pressure"),
        weather_code: number_at(block, "weather_code"),
        is_day,
    })
}

/// Pulls the observation out of a forecast answer: an error when the text
/// is not JSON or has no current block, and otherwise its figures.
pub fn parse_current(body: &str) -> (now: Result<CurrentWeather, WeatherError>)
    ensures
        match parsed_json(body@) {
            Some(root) => match root.member("current"@) {
                Some(block) => now == Ok::<CurrentWeather, WeatherError>(current_reading(block)),
                None => now matches Err(e) && malformed_with(e, "no current block"@),
            },
            None => now matches Err(e) && e is Malformed,
        },
{
    match parse_json(body) {
        Ok(root) => current_from(&root),
        Err(e) => Err(WeatherError::Malformed(error_text(&e))),
    }
}

} // verus!
