use barometer::weather::air::describe;
use barometer::weather::badge::{Condition, Palette};
use barometer::weather::glyph::{composed, glyph, shared_glyphs, Composed, FALLBACK_FAMILY, FAMILY};
use barometer::weather::models::{
    reserved_air_temperature, Location, PrecipitationUnit, PressureUnit, TemperatureUnit,
    WeatherSettings, WeatherUnits, WindSpeedUnit, RESERVED_SEPARATOR,
};

fn austin() -> Location {
    Location {
        id: "austin-tx".into(),
        name: "Austin".into(),
        admin: Some("Texas".into()),
        country: "United States".into(),
        latitude: "30.2672".into(),
        longitude: "-97.7431".into(),
        time_zone: "America/Chicago".into(),
    }
}

#[test]
fn unit_raw_values_round_trip() {
    for u in [TemperatureUnit::Celsius, TemperatureUnit::Fahrenheit] {
        assert_eq!(TemperatureUnit::from_raw(u.raw_value()), Some(u));
    }
    for u in [
        WindSpeedUnit::KilometersPerHour,
        WindSpeedUnit::MilesPerHour,
        WindSpeedUnit::MetersPerSecond,
        WindSpeedUnit::Knots,
    ] {
        assert_eq!(WindSpeedUnit::from_raw(u.raw_value()), Some(u));
    }
    for u in [PrecipitationUnit::Millimeters, PrecipitationUnit::Inches] {
        assert_eq!(PrecipitationUnit::from_raw(u.raw_value()), Some(u));
    }
    for u in [
        PressureUnit::Hectopascals,
        PressureUnit::InchesOfMercury,
        PressureUnit::MillimetersOfMercury,
    ] {
        assert_eq!(PressureUnit::from_raw(u.raw_value()), Some(u));
    }
}

#[test]
fn a_raw_value_that_names_no_unit_is_refused() {
    assert_eq!(TemperatureUnit::from_raw("kelvin"), None);
    assert_eq!(WindSpeedUnit::from_raw(""), None);
    assert_eq!(PressureUnit::from_raw("Hectopascals"), None);
    assert_eq!(PrecipitationUnit::from_raw("inches"), None);
}

#[test]
fn wind_query_values_are_what_open_meteo_expects() {
    assert_eq!(WindSpeedUnit::MilesPerHour.raw_value(), "mph");
    assert_eq!(WindSpeedUnit::KilometersPerHour.raw_value(), "kmh");
    assert_eq!(PrecipitationUnit::Inches.raw_value(), "inch");
}

#[test]
fn units_are_independent_not_one_switch() {
    let mixed = WeatherUnits {
        temperature: TemperatureUnit::Fahrenheit,
        wind_speed: WindSpeedUnit::KilometersPerHour,
        ..WeatherUnits::imperial()
    };
    assert_eq!(mixed.temperature.symbol(), "\u{00B0}F");
    assert_eq!(mixed.wind_speed.symbol(), "km/h");
}

#[test]
fn the_defaults_are_the_us_customary_units() {
    assert_eq!(WeatherUnits::default(), WeatherUnits::imperial());
    assert_eq!(WeatherUnits::metric().pressure, PressureUnit::Hectopascals);
    assert_eq!(PressureUnit::InchesOfMercury.symbol(), "inHg");
}

#[test]
fn the_primary_location_falls_back_to_the_first_saved() {
    let mut settings = WeatherSettings { locations: vec![austin()], ..Default::default() };
    assert_eq!(settings.primary_location().map(|l| l.name.as_str()), Some("Austin"));
    settings.primary_location_id = Some("deleted".into());
    assert_eq!(settings.primary_location().map(|l| l.name.as_str()), Some("Austin"));
}

#[test]
fn the_chosen_primary_location_wins_over_the_first() {
    let mut second = austin();
    second.id = "second".into();
    second.name = "Round Rock".into();
    let mut settings = WeatherSettings { locations: vec![austin(), second], ..Default::default() };
    settings.primary_location_id = Some("second".into());
    assert_eq!(settings.primary_location().map(|l| l.name.as_str()), Some("Round Rock"));
}

#[test]
fn no_locations_means_no_primary() {
    assert!(WeatherSettings::default().primary_location().is_none());
}

#[test]
fn the_refresh_interval_is_clamped_to_what_the_ui_allows() {
    let mut settings = WeatherSettings::default();
    assert_eq!(settings.clamped_refresh_minutes(), 15);
    settings.refresh_interval_minutes = 1;
    assert_eq!(settings.clamped_refresh_minutes(), 5);
    settings.refresh_interval_minutes = 600;
    assert_eq!(settings.clamped_refresh_minutes(), 60);
}

#[test]
fn a_location_reads_as_city_region_country() {
    assert_eq!(austin().display_name(), "Austin, Texas, United States");
}

#[test]
fn a_location_without_a_region_or_country_reads_as_its_name() {
    let mut place = austin();
    place.admin = None;
    place.country = String::new();
    assert_eq!(place.display_name(), "Austin");
    place.admin = Some(String::new());
    place.country = "Japan".into();
    assert_eq!(place.display_name(), "Austin, Japan");
}

#[test]
fn hardware_readings_convert_because_the_hardware_only_speaks_celsius() {
    assert_eq!(TemperatureUnit::Celsius.describe(610), "61\u{00B0}C");
    assert_eq!(TemperatureUnit::Fahrenheit.describe(610), "142\u{00B0}F");
    assert_eq!(TemperatureUnit::Fahrenheit.describe(0), "32\u{00B0}F");
    assert_eq!(TemperatureUnit::Fahrenheit.describe(1000), "212\u{00B0}F");
}

#[test]
fn a_reading_halfway_between_degrees_rounds_away_from_zero() {
    assert_eq!(TemperatureUnit::Celsius.describe(25), "3\u{00B0}C");
    assert_eq!(TemperatureUnit::Celsius.describe(-25), "-3\u{00B0}C");
    assert_eq!(TemperatureUnit::Celsius.describe(-4), "0\u{00B0}C");
    assert_eq!(TemperatureUnit::Fahrenheit.describe(-400), "-40\u{00B0}F");
}

/// A reading rounded to a whole number of degrees, as the strip writes it.
fn whole(value: f64) -> String {
    format!("{}", value.round() as i64)
}

#[test]
fn no_air_temperature_anybody_lives_in_is_wider_than_the_width_reserved_for_one() {
    let reserved = |unit: TemperatureUnit| {
        reserved_air_temperature(unit)
            .split(RESERVED_SEPARATOR)
            .map(|candidate| candidate.chars().count())
            .max()
            .expect("a reservation has at least one candidate")
    };
    for tenths in -680..=567 {
        let celsius = f64::from(tenths) / 10.0;
        let text = format!("{}{}", whole(celsius), TemperatureUnit::Celsius.symbol());
        assert!(
            text.chars().count() <= reserved(TemperatureUnit::Celsius),
            "{text} against {}",
            reserved_air_temperature(TemperatureUnit::Celsius)
        );
    }
    for tenths in -900..=1340 {
        let fahrenheit = f64::from(tenths) / 10.0;
        let text = format!("{}{}", whole(fahrenheit), TemperatureUnit::Fahrenheit.symbol());
        assert!(
            text.chars().count() <= reserved(TemperatureUnit::Fahrenheit),
            "{text} against {}",
            reserved_air_temperature(TemperatureUnit::Fahrenheit)
        );
    }
    assert_eq!(reserved(TemperatureUnit::Fahrenheit), "100\u{00B0}F".chars().count());
    assert_eq!(reserved(TemperatureUnit::Celsius), "-99\u{00B0}C".chars().count());
    assert_eq!(reserved_air_temperature(TemperatureUnit::Celsius), "-44\u{00B0}C");
    assert_eq!(reserved_air_temperature(TemperatureUnit::Fahrenheit), "100\u{00B0}F\n-44\u{00B0}F");
}

#[test]
fn both_units_reserve_the_same_width() {
    assert_eq!(
        TemperatureUnit::Celsius.widest().chars().count(),
        TemperatureUnit::Fahrenheit.widest().chars().count()
    );
}

#[test]
fn the_wmo_table_is_the_one_open_meteo_publishes() {
    assert_eq!(Condition::for_code(0, true), Condition::ClearDay);
    assert_eq!(Condition::for_code(0, false), Condition::ClearNight);
    assert_eq!(Condition::for_code(1, true), Condition::PartlyCloudy);
    assert_eq!(Condition::for_code(2, false), Condition::PartlyCloudyNight);
    assert_eq!(Condition::for_code(3, true), Condition::Cloudy);
    assert_eq!(Condition::for_code(45, true), Condition::Fog);
    assert_eq!(Condition::for_code(53, true), Condition::Drizzle);
    assert_eq!(Condition::for_code(63, true), Condition::Rain);
    assert_eq!(Condition::for_code(81, true), Condition::HeavyRain);
    assert_eq!(Condition::for_code(66, true), Condition::Sleet);
    assert_eq!(Condition::for_code(86, true), Condition::Snow);
    assert_eq!(Condition::for_code(95, true), Condition::Thunder);
    assert_eq!(Condition::for_code(99, true), Condition::Thunderstorm);
}

#[test]
fn a_code_outside_the_table_is_admitted_rather_than_guessed() {
    for code in [4u8, 30, 60, 70, 90, 100, 255] {
        assert_eq!(Condition::for_code(code, true), Condition::Unknown);
    }
}

#[test]
fn monochrome_resolves_every_ink_to_the_one_color() {
    let mono = Palette::resolve(Some(Condition::Thunderstorm), true, true, 0xF2F2F2);
    assert_eq!(mono.digits, 0xF2F2F2);
    assert_eq!(mono.cloud, 0xF2F2F2);
    assert_eq!(mono.mark, 0xF2F2F2);
    assert_eq!(mono.rain, 0xF2F2F2);
}

#[test]
fn the_number_takes_the_conditions_color_only_where_it_means_something() {
    let module = 0xF2F2F2;
    assert_ne!(Palette::resolve(Some(Condition::ClearDay), true, false, module).digits, module);
    assert_ne!(Palette::resolve(Some(Condition::ClearNight), true, false, module).digits, module);
    assert_eq!(Palette::resolve(Some(Condition::Rain), true, false, module).digits, module);
    assert_eq!(Palette::resolve(Some(Condition::Snow), true, false, module).digits, module);
    assert_eq!(Palette::resolve(None, true, false, module).digits, module);
}

#[test]
fn light_and_dark_never_share_a_color() {
    for condition in Condition::all() {
        let dark = Palette::resolve(Some(condition), true, false, 0xF2F2F2);
        let light = Palette::resolve(Some(condition), false, false, 0x191919);
        assert_ne!(dark.cloud, light.cloud, "{condition:?}");
        assert_ne!(dark.mark, light.mark, "{condition:?}");
    }
}

#[test]
fn the_digits_are_handed_to_gdi_with_red_and_blue_swapped() {
    let palette = Palette::resolve(None, true, true, 0x123456);
    assert_eq!(palette.digits_as_colorref(), 0x563412);
}

#[test]
fn every_condition_maps_to_a_private_use_character() {
    for condition in Condition::all() {
        let c = glyph(condition) as u32;
        assert!(
            (0xE000..=0xF8FF).contains(&c),
            "{condition:?} maps to U+{c:04X}, which is not in the Private Use Area"
        );
    }
}

#[test]
fn the_mapping_covers_every_condition() {
    assert_eq!(Condition::all().len(), 14);
}

#[test]
fn the_night_and_day_glyphs_are_not_the_same() {
    assert_ne!(glyph(Condition::ClearDay), glyph(Condition::ClearNight));
    assert_ne!(glyph(Condition::PartlyCloudy), glyph(Condition::PartlyCloudyNight));
}

#[test]
fn the_only_conditions_sharing_a_mark_are_the_ones_written_down() {
    let all = Condition::all();
    let mut found = Vec::new();
    for (i, a) in all.iter().enumerate() {
        for b in &all[i + 1..] {
            if glyph(*a) == glyph(*b) {
                found.push((*a, *b));
            }
        }
    }
    let shared = shared_glyphs();
    assert_eq!(found.len(), shared.len());
    for pair in shared {
        assert!(found.contains(&pair) || found.contains(&(pair.1, pair.0)), "{pair:?}");
    }
}

#[test]
fn the_font_is_named_rather_than_shipped() {
    assert_eq!(FAMILY, "Segoe Fluent Icons");
    assert_eq!(FALLBACK_FAMILY, "Segoe MDL2 Assets");
    assert_ne!(FAMILY, FALLBACK_FAMILY);
}

#[test]
fn the_bands_break_where_the_epa_breaks_them() {
    assert_eq!(describe(0), "Good");
    assert_eq!(describe(50), "Good");
    assert_eq!(describe(51), "Moderate");
    assert_eq!(describe(150), "Unhealthy for sensitive groups");
    assert_eq!(describe(200), "Unhealthy");
    assert_eq!(describe(300), "Very unhealthy");
    assert_eq!(describe(301), "Hazardous");
}

#[test]
fn a_shared_mark_is_only_ever_shared_with_the_nearest_condition() {
    // Each pair listed has to be close in the order Condition declares,
    // which is severity order.
    let all = Condition::all();
    let position = |wanted: Condition| all.iter().position(|c| *c == wanted).expect("every condition is listed");
    for (a, b) in shared_glyphs() {
        let gap = position(b).abs_diff(position(a));
        assert!(gap <= 2, "{a:?} and {b:?} share a mark but are {gap} apart in severity");
    }
}

#[test]
fn composing_gets_all_fourteen_conditions_back() {
    let mut seen: Vec<(Condition, Composed)> = Vec::new();
    for condition in Condition::all() {
        let mark = composed(condition);
        for (other, previous) in &seen {
            assert_ne!(*previous, mark, "{condition:?} composes the same mark as {other:?}");
        }
        seen.push((condition, mark));
    }
    assert_eq!(seen.len(), 14);
}

#[test]
fn the_pairs_the_font_collapses_are_the_ones_composition_rescues() {
    for (a, b) in shared_glyphs() {
        assert_eq!(glyph(a), glyph(b), "{a:?} and {b:?} no longer share a glyph");
        assert_ne!(composed(a), composed(b), "{a:?} and {b:?} still collapse");
    }
}

#[test]
fn a_sun_or_moon_sits_behind_the_cloud_and_weather_falls_below_it() {
    let day = composed(Condition::PartlyCloudy).accent.unwrap();
    let night = composed(Condition::PartlyCloudyNight).accent.unwrap();
    // Above the cloud's center, which is what "behind" looks like.
    assert!(day.dy < 0 && night.dy < 0);
    // And in the same place, so the pair read as one mark.
    assert_eq!((day.dx, day.dy, day.scale), (night.dx, night.dy, night.scale));
    for condition in [Condition::Snow, Condition::Sleet, Condition::Thunderstorm] {
        assert!(composed(condition).accent.unwrap().dy > 0, "{condition:?}");
    }
}

#[test]
fn an_accent_is_always_smaller_than_the_mark_it_sits_against() {
    // Scale is in hundredths of the base character's size.
    for condition in Condition::all() {
        if let Some(accent) = composed(condition).accent {
            assert!(accent.scale > 0 && accent.scale < 100, "{condition:?}");
        }
    }
}

#[test]
fn a_marks_bounds_take_in_an_accent_that_overhangs() {
    assert_eq!(composed(Condition::Cloudy).bounds(), (0, 0, 100, 100));
    // The sun peeks thirty hundredths above the cloud.
    assert_eq!(composed(Condition::PartlyCloudy).bounds(), (0, -30, 100, 100));
    // Snow hangs below and to the right: 30 + 58 and 32 + 58 stay inside.
    assert_eq!(composed(Condition::Snow).bounds(), (0, 0, 100, 100));
}
