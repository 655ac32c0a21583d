//! Units, locations and the weather module's persisted settings.
//!
//! A unit's raw value is persisted in settings, and several are also the
//! literal query values Open-Meteo expects, so both directions of the
//! mapping are pinned down exactly and the round trip is proved.

use vstd::prelude::*;

use crate::text::{push_char, push_signed_decimal, same_text, signed_decimal};

verus! {

/// A saved weather location with a stable identity.
///
/// Coordinates are kept as the text Open-Meteo returned rather than as
/// numbers, so a round trip through settings cannot shift the last decimal
/// place.
#[derive(Clone, Debug, PartialEq, Eq, Hash)]
pub struct Location {
    pub id: String,
    pub name: String,
    pub admin: Option<String>,
    pub country: String,
    pub latitude: String,
    pub longitude: String,
    pub time_zone: String,
}

/// A location as text, the form contracts speak of it in.
pub struct LocationText {
    pub id: Seq<char>,
    pub name: Seq<char>,
    pub admin: Option<Seq<char>>,
    pub country: Seq<char>,
    pub latitude: Seq<char>,
    pub longitude: Seq<char>,
    pub time_zone: Seq<char>,
}

/// `, ` followed by a part, or nothing when the part is empty.
pub open spec fn name_part(part: Seq<char>) -> Seq<char> {
    if part.len() == 0 {
        Seq::empty()
    } else {
        ", "@ + part
    }
}

impl Location {
    /// The location's fields as text.
    pub open spec fn text(&self) -> LocationText {
        LocationText {
            id: self.id@,
            name: self.name@,
            admin: match self.admin {
                Some(a) => Some(a@),
                None => None,
            },
            country: self.country@,
            latitude: self.latitude@,
            longitude: self.longitude@,
            time_zone: self.time_zone@,
        }
    }

    /// The picker's form: the name, then the region and the country, each
    /// after a comma and left out when empty.
    pub open spec fn spec_display_name(&self) -> Seq<char> {
        self.name@ + match self.admin {
            Some(admin) => name_part(admin@),
            None => Seq::empty(),
        } + name_part(self.country@)
    }

    /// "Austin, Texas, United States", the form the picker shows.
    pub fn display_name(&self) -> (out: String)
        ensures
            out@ == self.spec_display_name(),
    {
        let mut out = self.name.clone();
        proof {
            reveal_strlit(", ");
        }
        if let Some(admin) = &self.admin {
            if !admin.as_str().is_empty() {
                out.append(", ");
                out.append(admin.as_str());
            }
        }
        if !self.country.as_str().is_empty() {
            out.append(", ");
            out.append(self.country.as_str());
        }
        proof {
            let admin_part = match &self.admin {
                Some(admin) => name_part(admin@),
                None => Seq::<char>::empty(),
            };
            assert(out@ == self.name@ + admin_part + name_part(self.country@));
        }
        out
    }
}

/// Temperature units supported by Open-Meteo.
#[derive(Copy, Clone, Debug, PartialEq, Eq, Structural)]
pub enum TemperatureUnit {
    Celsius,
    Fahrenheit,
}

impl TemperatureUnit {
    /// The persisted and query form of the unit.
    pub open spec fn raw_text(self) -> Seq<char> {
        match self {
            TemperatureUnit::Celsius => "celsius"@,
            TemperatureUnit::Fahrenheit => "fahrenheit"@,
        }
    }

    /// The unit a raw value names, if it names one.
    pub open spec fn parse_raw(raw: Seq<char>) -> Option<TemperatureUnit> {
        if raw == "celsius"@ {
            Some(TemperatureUnit::Celsius)
        } else if raw == "fahrenheit"@ {
            Some(TemperatureUnit::Fahrenheit)
        } else {
            None
        }
    }

    pub open spec fn symbol_text(self) -> Seq<char> {
        match self {
            TemperatureUnit::Celsius => "\u{00B0}C"@,
            TemperatureUnit::Fahrenheit => "\u{00B0}F"@,
        }
    }

    pub open spec fn widest_text(self) -> Seq<char> {
        match self {
            TemperatureUnit::Celsius => "100\u{00B0}C"@,
            TemperatureUnit::Fahrenheit => "212\u{00B0}F"@,
        }
    }

    pub fn raw_value(self) -> (raw: &'static str)
        ensures
            raw@ == self.raw_text(),
    {
        match self {
            TemperatureUnit::Celsius => "celsius",
            TemperatureUnit::Fahrenheit => "fahrenheit",
        }
    }

    pub fn from_raw(raw: &str) -> (unit: Option<TemperatureUnit>)
        ensures
            unit == TemperatureUnit::parse_raw(raw@),
    {
        if same_text(raw, "celsius") {
            Some(TemperatureUnit::Celsius)
        } else if same_text(raw, "fahrenheit") {
            Some(TemperatureUnit::Fahrenheit)
        } else {
            None
        }
    }

    pub fn symbol(self) -> (symbol: &'static str)
        ensures
            symbol@ == self.symbol_text(),
    {
        match self {
            TemperatureUnit::Celsius => "\u{00B0}C",
            TemperatureUnit::Fahrenheit => "\u{00B0}F",
        }
    }

    /// A Celsius reading, given in tenths of a degree, in this unit and
    /// rounded to a whole degree (halves away from zero).
    pub open spec fn whole_degrees(self, celsius_tenths: int) -> int {
        match self {
            TemperatureUnit::Celsius => rounded_ratio(celsius_tenths, 10),
            TemperatureUnit::Fahrenheit => rounded_ratio(9 * celsius_tenths + 1600, 50),
        }
    }

    /// A hardware temperature, rounded, with its unit: `61°C`.
    ///
    /// Hardware only reports Celsius, so this is the one place a
    /// temperature is converted. The reading is given in tenths of a
    /// degree, which is finer than any sensor reports.
    pub fn describe(self, celsius_tenths: i64) -> (text: String)
        ensures
            text@ == signed_decimal(self.whole_degrees(celsius_tenths as int)) + self.symbol_text(),
    {
        let tenths = celsius_tenths as i128;
        let degrees = match self {
            TemperatureUnit::Celsius => round_ratio(tenths, 10),
            TemperatureUnit::Fahrenheit => round_ratio(9 * tenths + 1600, 50),
        };
        let mut text = String::new();
        push_signed_decimal(&mut text, degrees as i64);
        text.append(self.symbol());
        text
    }

    /// The widest string `describe` is expected to produce, for reserving a
    /// column; both are five characters.
    pub fn widest(self) -> (widest: &'static str)
        ensures
            widest@ == self.widest_text(),
    {
        match self {
            TemperatureUnit::Celsius => "100\u{00B0}C",
            TemperatureUnit::Fahrenheit => "212\u{00B0}F",
        }
    }
}

/// `n / d` rounded to the nearest whole number, halves away from zero.
pub open spec fn rounded_ratio(n: int, d: int) -> int
    recommends
        d > 0,
{
    if n >= 0 {
        (2 * n + d) / (2 * d)
    } else {
        -((-2 * n + d) / (2 * d))
    }
}

/// `n / d` rounded to the nearest whole number, halves away from zero.
pub fn round_ratio(n: i128, d: i128) -> (r: i128)
    requires
        10 <= d <= 1_000_000,
        -100_000_000_000_000_000_000 <= n <= 100_000_000_000_000_000_000,
    ensures
        r == rounded_ratio(n as int, d as int),
        n >= 0 ==> 0 <= r <= (n as int) / (d as int) + 1,
        n < 0 ==> -((-(n as int)) / (d as int)) - 1 <= r <= 0,
{
    let twice: u128 = 2 * (d as u128);
    let magnitude: u128 = if n >= 0 { n as u128 } else { (-n) as u128 };
    let q: u128 = (2 * magnitude + d as u128) / twice;
    proof {
        let m: int = magnitude as int;
        let dd: int = d as int;
        assert((2 * m + dd) / (2 * dd) <= m / dd + 1) by (nonlinear_arith)
            requires
                m >= 0,
                dd >= 10,
        {
            assert(m == dd * (m / dd) + m % dd);
            assert(2 * m + dd < 2 * dd * (m / dd + 1) + 2 * dd);
        }
        assert(0 <= (2 * m + dd) / (2 * dd)) by (nonlinear_arith)
            requires
                m >= 0,
                dd >= 10,
        ;
    }
    if n >= 0 {
        q as i128
    } else {
        -(q as i128)
    }
}

/// What separates the candidate strings of a reserved width.
pub const RESERVED_SEPARATOR: &'static str = "\n";

/// The reservation for one unit's air temperature, as its candidates
/// joined by the separator.
pub open spec fn reserved_air_text(unit: TemperatureUnit) -> Seq<char> {
    match unit {
        TemperatureUnit::Celsius => "-44"@ + unit.symbol_text(),
        TemperatureUnit::Fahrenheit => "100"@ + unit.symbol_text() + "\n"@ + "-44"@ + unit.symbol_text(),
    }
}

/// The widest air temperatures the strip can be asked to draw, per unit.
///
/// A width, not a forecast: the candidates are the readings that measure
/// widest in the strip's faces, and the renderer measures every candidate.
/// Celsius never reaches three digits in air, so it has one.
pub fn reserved_air_temperature(unit: TemperatureUnit) -> (reserved: String)
    ensures
        reserved@ == reserved_air_text(unit),
{
    let symbol = unit.symbol();
    let mut out = String::new();
    match unit {
        TemperatureUnit::Celsius => {
            out.append("-44");
            out.append(symbol);
        },
        TemperatureUnit::Fahrenheit => {
            out.append("100");
            out.append(symbol);
            out.append(RESERVED_SEPARATOR);
            out.append("-44");
            out.append(symbol);
        },
    }
    out
}

/// Wind-speed units supported by Open-Meteo.
#[derive(Copy, Clone, Debug, PartialEq, Eq, Structural)]
pub enum WindSpeedUnit {
    KilometersPerHour,
    MilesPerHour,
    MetersPerSecond,
    Knots,
}

impl WindSpeedUnit {
    pub open spec fn raw_text(self) -> Seq<char> {
        match self {
            WindSpeedUnit::KilometersPerHour => "kmh"@,
            WindSpeedUnit::MilesPerHour => "mph"@,
            WindSpeedUnit::MetersPerSecond => "ms"@,
            WindSpeedUnit::Knots => "kn"@,
        }
    }

    pub open spec fn parse_raw(raw: Seq<char>) -> Option<WindSpeedUnit> {
        if raw == "kmh"@ {
            Some(WindSpeedUnit::KilometersPerHour)
        } else if raw == "mph"@ {
            Some(WindSpeedUnit::MilesPerHour)
        } else if raw == "ms"@ {
            Some(WindSpeedUnit::MetersPerSecond)
        } else if raw == "kn"@ {
            Some(WindSpeedUnit::Knots)
        } else {
            None
        }
    }

    pub open spec fn symbol_text(self) -> Seq<char> {
        match self {
            WindSpeedUnit::KilometersPerHour => "km/h"@,
            WindSpeedUnit::MilesPerHour => "mph"@,
            WindSpeedUnit::MetersPerSecond => "m/s"@,
            WindSpeedUnit::Knots => "kn"@,
        }
    }

    /// Also the query value sent to Open-Meteo.
    pub fn raw_value(self) -> (raw: &'static str)
        ensures
            raw@ == self.raw_text(),
    {
        match self {
            WindSpeedUnit::KilometersPerHour => "kmh",
            WindSpeedUnit::MilesPerHour => "mph",
            WindSpeedUnit::MetersPerSecond => "ms",
            WindSpeedUnit::Knots => "kn",
        }
    }

    pub fn from_raw(raw: &str) -> (unit: Option<WindSpeedUnit>)
        ensures
            unit == WindSpeedUnit::parse_raw(raw@),
    {
        if same_text(raw, "kmh") {
            Some(WindSpeedUnit::KilometersPerHour)
        } else if same_text(raw, "mph") {
            Some(WindSpeedUnit::MilesPerHour)
        } else if same_text(raw, "ms") {
            Some(WindSpeedUnit::MetersPerSecond)
        } else if same_text(raw, "kn") {
            Some(WindSpeedUnit::Knots)
        } else {
            None
        }
    }

    pub fn symbol(self) -> (symbol: &'static str)
        ensures
            symbol@ == self.symbol_text(),
    {
        match self {
            WindSpeedUnit::KilometersPerHour => "km/h",
            WindSpeedUnit::MilesPerHour => "mph",
            WindSpeedUnit::MetersPerSecond => "m/s",
            WindSpeedUnit::Knots => "kn",
        }
    }
}

/// Pressure display units, converted locally from Open-Meteo's hPa.
#[derive(Copy, Clone, Debug, PartialEq, Eq, Structural)]
pub enum PressureUnit {
    Hectopascals,
    InchesOfMercury,
    MillimetersOfMercury,
}

impl PressureUnit {
    pub open spec fn raw_text(self) -> Seq<char> {
        match self {
            PressureUnit::Hectopascals => "hectopascals"@,
            PressureUnit::InchesOfMercury => "inchesOfMercury"@,
            PressureUnit::MillimetersOfMercury => "millimetersOfMercury"@,
        }
    }

    pub open spec fn parse_raw(raw: Seq<char>) -> Option<PressureUnit> {
        if raw == "hectopascals"@ {
            Some(PressureUnit::Hectopascals)
        } else if raw == "inchesOfMercury"@ {
            Some(PressureUnit::InchesOfMercury)
        } else if raw == "millimetersOfMercury"@ {
            Some(PressureUnit::MillimetersOfMercury)
        } else {
            None
        }
    }

    pub open spec fn symbol_text(self) -> Seq<char> {
        match self {
            PressureUnit::Hectopascals => "hPa"@,
            PressureUnit::InchesOfMercury => "inHg"@,
            PressureUnit::MillimetersOfMercury => "mmHg"@,
        }
    }

    pub fn raw_value(self) -> (raw: &'static str)
        ensures
            raw@ == self.raw_text(),
    {
        match self {
            PressureUnit::Hectopascals => "hectopascals",
            PressureUnit::InchesOfMercury => "inchesOfMercury",
            PressureUnit::MillimetersOfMercury => "millimetersOfMercury",
        }
    }

    pub fn from_raw(raw: &str) -> (unit: Option<PressureUnit>)
        ensures
            unit == PressureUnit::parse_raw(raw@),
    {
        if same_text(raw, "hectopascals") {
            Some(PressureUnit::Hectopascals)
        } else if same_text(raw, "inchesOfMercury") {
            Some(PressureUnit::InchesOfMercury)
        } else if same_text(raw, "millimetersOfMercury") {
            Some(PressureUnit::MillimetersOfMercury)
        } else {
            None
        }
    }

    pub fn symbol(self) -> (symbol: &'static str)
        ensures
            symbol@ == self.symbol_text(),
    {
        match self {
            PressureUnit::Hectopascals => "hPa",
            PressureUnit::InchesOfMercury => "inHg",
            PressureUnit::MillimetersOfMercury => "mmHg",
        }
    }
}

/// Precipitation units supported by Open-Meteo.
#[derive(Copy, Clone, Debug, PartialEq, Eq, Structural)]
pub enum PrecipitationUnit {
    Millimeters,
    Inches,
}

impl PrecipitationUnit {
    pub open spec fn raw_text(self) -> Seq<char> {
        match self {
            PrecipitationUnit::Millimeters => "mm"@,
            PrecipitationUnit::Inches => "inch"@,
        }
    }

    pub open spec fn parse_raw(raw: Seq<char>) -> Option<PrecipitationUnit> {
        if raw == "mm"@ {
            Some(PrecipitationUnit::Millimeters)
        } else if raw == "inch"@ {
            Some(PrecipitationUnit::Inches)
        } else {
            None
        }
    }

    pub open spec fn symbol_text(self) -> Seq<char> {
        match self {
            PrecipitationUnit::Millimeters => "mm"@,
            PrecipitationUnit::Inches => "in"@,
        }
    }

    /// Also the query value sent to Open-Meteo.
    pub fn raw_value(self) -> (raw: &'static str)
        ensures
            raw@ == self.raw_text(),
    {
        match self {
            PrecipitationUnit::Millimeters => "mm",
            PrecipitationUnit::Inches => "inch",
        }
    }

    pub fn from_raw(raw: &str) -> (unit: Option<PrecipitationUnit>)
        ensures
            unit == PrecipitationUnit::parse_raw(raw@),
    {
        if same_text(raw, "mm") {
            Some(PrecipitationUnit::Millimeters)
        } else if same_text(raw, "inch") {
            Some(PrecipitationUnit::Inches)
        } else {
            None
        }
    }

    pub fn symbol(self) -> (symbol: &'static str)
        ensures
            symbol@ == self.symbol_text(),
    {
        match self {
            PrecipitationUnit::Millimeters => "mm",
            PrecipitationUnit::Inches => "in",
        }
    }
}

/// Reading back any unit's raw value gives that unit, for all four
/// families: the persisted form and the query form never drift apart.
pub proof fn raw_values_round_trip(
    temperature: TemperatureUnit,
    wind: WindSpeedUnit,
    pressure: PressureUnit,
    precipitation: PrecipitationUnit,
)
    ensures
        TemperatureUnit::parse_raw(temperature.raw_text()) == Some(temperature),
        WindSpeedUnit::parse_raw(wind.raw_text()) == Some(wind),
        PressureUnit::parse_raw(pressure.raw_text()) == Some(pressure),
        PrecipitationUnit::parse_raw(precipitation.raw_text()) == Some(precipitation),
{
    reveal_strlit("celsius");
    reveal_strlit("fahrenheit");
    reveal_strlit("kmh");
    reveal_strlit("mph");
    reveal_strlit("ms");
    reveal_strlit("kn");
    reveal_strlit("hectopascals");
    reveal_strlit("inchesOfMercury");
    reveal_strlit("millimetersOfMercury");
    reveal_strlit("mm");
    reveal_strlit("inch");
    assert("celsius"@.len() != "fahrenheit"@.len());
    assert("kmh"@[0] != "mph"@[0]);
    assert("kmh"@.len() != "ms"@.len());
    assert("kmh"@.len() != "kn"@.len());
    assert("mph"@.len() != "ms"@.len());
    assert("mph"@.len() != "kn"@.len());
    assert("ms"@[0] != "kn"@[0]);
    assert("hectopascals"@.len() != "inchesOfMercury"@.len());
    assert("hectopascals"@.len() != "millimetersOfMercury"@.len());
    assert("inchesOfMercury"@.len() != "millimetersOfMercury"@.len());
    assert("mm"@.len() != "inch"@.len());
}

/// A raw value is only ever read as the unit it is the raw value of.
pub proof fn raw_values_are_only_their_units(raw: Seq<char>)
    ensures
        TemperatureUnit::parse_raw(raw) matches Some(u) ==> u.raw_text() == raw,
        WindSpeedUnit::parse_raw(raw) matches Some(u) ==> u.raw_text() == raw,
        PressureUnit::parse_raw(raw) matches Some(u) ==> u.raw_text() == raw,
        PrecipitationUnit::parse_raw(raw) matches Some(u) ==> u.raw_text() == raw,
{
}

/// Changing the temperature unit never changes the width reserved for it.
pub proof fn both_units_reserve_the_same_width()
    ensures
        TemperatureUnit::Celsius.widest_text().len() == TemperatureUnit::Fahrenheit.widest_text().len(),
{
    reveal_strlit("100\u{00B0}C");
    reveal_strlit("212\u{00B0}F");
}

/// Independent unit choices used for requests and presentation: four
/// separate choices rather than one imperial/metric switch.
#[derive(Copy, Clone, Debug, PartialEq, Eq, Structural)]
pub struct WeatherUnits {
    pub temperature: TemperatureUnit,
    pub wind_speed: WindSpeedUnit,
    pub pressure: PressureUnit,
    pub precipitation: PrecipitationUnit,
}

impl WeatherUnits {
    /// The U.S. customary choices.
    pub open spec fn spec_imperial() -> WeatherUnits {
        WeatherUnits {
            temperature: TemperatureUnit::Fahrenheit,
            wind_speed: WindSpeedUnit::MilesPerHour,
            pressure: PressureUnit::InchesOfMercury,
            precipitation: PrecipitationUnit::Inches,
        }
    }

    /// The common metric choices.
    pub open spec fn spec_metric() -> WeatherUnits {
        WeatherUnits {
            temperature: TemperatureUnit::Celsius,
            wind_speed: WindSpeedUnit::KilometersPerHour,
            pressure: PressureUnit::Hectopascals,
            precipitation: PrecipitationUnit::Millimeters,
        }
    }

    /// U.S. customary defaults.
    pub fn imperial() -> (units: WeatherUnits)
        ensures
            units == WeatherUnits::spec_imperial(),
    {
        WeatherUnits {
            temperature: TemperatureUnit::Fahrenheit,
            wind_speed: WindSpeedUnit::MilesPerHour,
            pressure: PressureUnit::InchesOfMercury,
            precipitation: PrecipitationUnit::Inches,
        }
    }

    /// Common metric defaults.
    pub fn metric() -> (units: WeatherUnits)
        ensures
            units == WeatherUnits::spec_metric(),
    {
        WeatherUnits {
            temperature: TemperatureUnit::Celsius,
            wind_speed: WindSpeedUnit::KilometersPerHour,
            pressure: PressureUnit::Hectopascals,
            precipitation: PrecipitationUnit::Millimeters,
        }
    }
}

impl Default for WeatherUnits {
    fn default() -> (units: WeatherUnits)
        ensures
            units == WeatherUnits::spec_imperial(),
    {
        WeatherUnits::imperial()
    }
}

/// The fewest minutes between refreshes the settings allow.
pub const REFRESH_MINUTES_MIN: u32 = 5;

/// The most minutes between refreshes the settings allow.
pub const REFRESH_MINUTES_MAX: u32 = 60;

/// Persisted choices for the Weather module.
#[derive(Clone, Debug, PartialEq)]
pub struct WeatherSettings {
    /// Saved locations, in the order the user arranged them.
    pub locations: Vec<Location>,
    /// Identity of the location shown on the strip.
    pub primary_location_id: Option<String>,
    /// Whether to resolve the machine's current location (from its IP
    /// address, which asks for no consent, so it defaults on).
    pub uses_current_location: bool,
    pub units: WeatherUnits,
    /// Refresh interval, constrained by the UI to 5 through 60 minutes.
    pub refresh_interval_minutes: u32,
    /// Whether weather icons stay in color when the strip is monochrome.
    pub uses_color_icons: bool,
}

impl Default for WeatherSettings {
    fn default() -> (settings: WeatherSettings)
        ensures
            settings.locations@.len() == 0,
            settings.primary_location_id is None,
            settings.uses_current_location,
            settings.units == WeatherUnits::spec_imperial(),
            settings.refresh_interval_minutes == 15,
            settings.uses_color_icons,
    {
        WeatherSettings {
            locations: Vec::new(),
            primary_location_id: None,
            uses_current_location: true,
            units: WeatherUnits::imperial(),
            refresh_interval_minutes: 15,
            uses_color_icons: true,
        }
    }
}

/// The index of the first location with an identity, if any has it.
pub open spec fn first_with_id(locations: Seq<Location>, id: Seq<char>) -> Option<int>
    decreases locations.len(),
{
    if locations.len() == 0 {
        None
    } else if locations[0].id@ == id {
        Some(0)
    } else {
        match first_with_id(locations.drop_first(), id) {
            Some(i) => Some(i + 1),
            None => None,
        }
    }
}

proof fn lemma_first_with_id(locations: Seq<Location>, id: Seq<char>)
    ensures
        first_with_id(locations, id) matches Some(i) ==> {
            &&& 0 <= i < locations.len()
            &&& locations[i].id@ == id
            &&& forall|j: int| 0 <= j < i ==> locations[j].id@ != id
        },
        first_with_id(locations, id) is None ==> forall|j: int|
            0 <= j < locations.len() ==> locations[j].id@ != id,
    decreases locations.len(),
{
    if locations.len() > 0 {
        let rest = locations.drop_first();
        lemma_first_with_id(rest, id);
        assert forall|j: int| 1 <= j < locations.len() implies locations[j] == rest[j - 1] by {}
    }
}

impl WeatherSettings {
    /// Which saved location is primary: the one whose identity is chosen,
    /// else the first saved one, else none.
    pub open spec fn primary_index(&self) -> Option<int> {
        match self.primary_location_id {
            Some(id) => match first_with_id(self.locations@, id@) {
                Some(i) => Some(i),
                None => if self.locations@.len() > 0 { Some(0) } else { None },
            },
            None => if self.locations@.len() > 0 { Some(0) } else { None },
        }
    }

    /// The selected location, falling back to the first saved one, so an
    /// identity that no longer matches anything does not blank the readout.
    pub fn primary_location(&self) -> (found: Option<&Location>)
        ensures
            match self.primary_index() {
                Some(i) => found == Some(&self.locations@[i]),
                None => found is None,
            },
    {
        proof {
            if let Some(id) = &self.primary_location_id {
                lemma_first_with_id(self.locations@, id@);
            }
        }
        if let Some(id) = &self.primary_location_id {
            let mut i: usize = 0;
            while i < self.locations.len()
                invariant
                    i <= self.locations@.len(),
                    self.primary_location_id == Some(*id),
                    forall|j: int| 0 <= j < i ==> self.locations@[j].id@ != id@,
                decreases self.locations@.len() - i,
            {
                if same_text(self.locations[i].id.as_str(), id.as_str()) {
                    proof {
                        lemma_first_with_id(self.locations@, id@);
                        let k = first_with_id(self.locations@, id@);
                        assert(k == Some(i as int)) by {
                            if let Some(k) = k {
                                assert(!(k < i) && !(k > i));
                            }
                        }
                    }
                    return Some(&self.locations[i]);
                }
                i += 1;
            }
        }
        if self.locations.len() > 0 {
            Some(&self.locations[0])
        } else {
            None
        }
    }

    /// The refresh interval held to what the settings allow.
    pub fn clamped_refresh_minutes(&self) -> (minutes: u32)
        ensures
            minutes == if self.refresh_interval_minutes < REFRESH_MINUTES_MIN {
                REFRESH_MINUTES_MIN
            } else if self.refresh_interval_minutes > REFRESH_MINUTES_MAX {
                REFRESH_MINUTES_MAX
            } else {
                self.refresh_interval_minutes
            },
    {
        if self.refresh_interval_minutes < REFRESH_MINUTES_MIN {
            REFRESH_MINUTES_MIN
        } else if self.refresh_interval_minutes > REFRESH_MINUTES_MAX {
            REFRESH_MINUTES_MAX
        } else {
            self.refresh_interval_minutes
        }
    }
}


/// Whenever any location is saved, one of them is primary, and it is the
/// chosen one when the chosen identity is among them.
pub proof fn a_saved_location_is_always_primary(settings: WeatherSettings)
    ensures
        settings.locations@.len() > 0 ==> (settings.primary_index() matches Some(i) && 0 <= i
            < settings.locations@.len()),
        settings.locations@.len() == 0 ==> settings.primary_index() is None,
        settings.primary_location_id matches Some(id) ==> (forall|i: int|
            0 <= i < settings.locations@.len() && settings.locations@[i].id@ == id@ ==> (
            settings.primary_index() matches Some(p) && settings.locations@[p].id@ == id@)),
{
    if let Some(id) = settings.primary_location_id {
        lemma_first_with_id(settings.locations@, id@);
    }
}

} // verus!
