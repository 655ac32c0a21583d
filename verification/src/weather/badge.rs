//! Weather conditions, and the colors a condition's mark is drawn in.
//!
//! The fourteen conditions differ in shape, never only in color, so a
//! monochrome strip still carries the forecast; the palette here says which
//! color each part takes when there is color to spend.

use vstd::prelude::*;

verus! {

/// The conditions the marks cover, in the order the settings preview shows
/// them: clear, the cloud family from dry to wet, the storms, the fallback.
#[derive(Copy, Clone, Debug, PartialEq, Eq, Structural)]
pub enum Condition {
    ClearDay,
    ClearNight,
    PartlyCloudy,
    PartlyCloudyNight,
    Cloudy,
    Fog,
    Drizzle,
    Rain,
    HeavyRain,
    Sleet,
    Snow,
    Thunder,
    Thunderstorm,
    Unknown,
}

/// Open-Meteo's published WMO table: the condition for a code and whether
/// it is daytime there. A code outside the table is `Unknown`.
pub open spec fn wmo_condition(code: u8, is_day: bool) -> Condition {
    if code == 0 {
        if is_day { Condition::ClearDay } else { Condition::ClearNight }
    } else if code == 1 || code == 2 {
        if is_day { Condition::PartlyCloudy } else { Condition::PartlyCloudyNight }
    } else if code == 3 {
        Condition::Cloudy
    } else if code == 45 || code == 48 {
        Condition::Fog
    } else if 51 <= code <= 57 {
        Condition::Drizzle
    } else if code == 61 || code == 63 {
        Condition::Rain
    } else if code == 65 || (80 <= code <= 82) {
        Condition::HeavyRain
    } else if code == 66 || code == 67 {
        Condition::Sleet
    } else if (71 <= code <= 77) || code == 85 || code == 86 {
        Condition::Snow
    } else if code == 95 {
        Condition::Thunder
    } else if code == 96 || code == 99 {
        Condition::Thunderstorm
    } else {
        Condition::Unknown
    }
}

/// The WMO table, read straight: clear sky is 0, mainly clear and partly
/// cloudy 1 and 2, overcast 3, fog 45 and 48, drizzle 51 to 57, rain 61
/// and 63, heavy rain 65 and the showers 80 to 82, freezing rain 66 and 67,
/// snow 71 to 77 and the snow showers 85 and 86, thunder 95, thunderstorms
/// with hail 96 and 99; the sky's two conditions follow the day, and any
/// other code is admitted to be unknown rather than guessed.
pub proof fn the_wmo_table_is_the_one_open_meteo_publishes(code: u8, is_day: bool)
    ensures
        wmo_condition(code, is_day) == Condition::ClearDay <==> code == 0 && is_day,
        wmo_condition(code, is_day) == Condition::ClearNight <==> code == 0 && !is_day,
        wmo_condition(code, is_day) == Condition::PartlyCloudy <==> (code == 1 || code == 2) && is_day,
        wmo_condition(code, is_day) == Condition::PartlyCloudyNight <==> (code == 1 || code == 2) && !is_day,
        wmo_condition(code, is_day) == Condition::Cloudy <==> code == 3,
        wmo_condition(code, is_day) == Condition::Fog <==> code == 45 || code == 48,
        wmo_condition(code, is_day) == Condition::Drizzle <==> 51 <= code <= 57,
        wmo_condition(code, is_day) == Condition::Rain <==> code == 61 || code == 63,
        wmo_condition(code, is_day) == Condition::HeavyRain <==> code == 65 || 80 <= code <= 82,
        wmo_condition(code, is_day) == Condition::Sleet <==> code == 66 || code == 67,
        wmo_condition(code, is_day) == Condition::Snow <==> 71 <= code <= 77 || code == 85 || code == 86,
        wmo_condition(code, is_day) == Condition::Thunder <==> code == 95,
        wmo_condition(code, is_day) == Condition::Thunderstorm <==> code == 96 || code == 99,
        wmo_condition(code, is_day) == Condition::Unknown <==> !(code <= 3 || code == 45 || code == 48 || 51
            <= code <= 57 || code == 61 || code == 63 || 65 <= code <= 67 || 71 <= code <= 77 || 80 <= code
            <= 82 || code == 85 || code == 86 || code == 95 || code == 96 || code == 99),
{
}

impl Condition {
    /// Every condition, in the order the type declares them.
    pub open spec fn spec_all() -> Seq<Condition> {
        seq![
            Condition::ClearDay,
            Condition::ClearNight,
            Condition::PartlyCloudy,
            Condition::PartlyCloudyNight,
            Condition::Cloudy,
            Condition::Fog,
            Condition::Drizzle,
            Condition::Rain,
            Condition::HeavyRain,
            Condition::Sleet,
            Condition::Snow,
            Condition::Thunder,
            Condition::Thunderstorm,
            Condition::Unknown,
        ]
    }

    /// Every condition, in the order the type declares them.
    pub fn all() -> (all: [Condition; 14])
        ensures
            all@ == Condition::spec_all(),
    {
        let all = [
            Condition::ClearDay,
            Condition::ClearNight,
            Condition::PartlyCloudy,
            Condition::PartlyCloudyNight,
            Condition::Cloudy,
            Condition::Fog,
            Condition::Drizzle,
            Condition::Rain,
            Condition::HeavyRain,
            Condition::Sleet,
            Condition::Snow,
            Condition::Thunder,
            Condition::Thunderstorm,
            Condition::Unknown,
        ];
        assert(all@ =~= Condition::spec_all());
        all
    }

    /// The condition for a WMO code and whether it is daytime there. A
    /// wrong mark is worse than an honest one, so an unlisted code is
    /// `Unknown` rather than a guess.
    pub fn for_code(code: u8, is_day: bool) -> (condition: Condition)
        ensures
            condition == wmo_condition(code, is_day),
    {
        if code == 0 {
            if is_day { Condition::ClearDay } else { Condition::ClearNight }
        } else if code == 1 || code == 2 {
            if is_day { Condition::PartlyCloudy } else { Condition::PartlyCloudyNight }
        } else if code == 3 {
            Condition::Cloudy
        } else if code == 45 || code == 48 {
            Condition::Fog
        } else if 51 <= code && code <= 57 {
            Condition::Drizzle
        } else if code == 61 || code == 63 {
            Condition::Rain
        } else if code == 65 || (80 <= code && code <= 82) {
            Condition::HeavyRain
        } else if code == 66 || code == 67 {
            Condition::Sleet
        } else if (71 <= code && code <= 77) || code == 85 || code == 86 {
            Condition::Snow
        } else if code == 95 {
            Condition::Thunder
        } else if code == 96 || code == 99 {
            Condition::Thunderstorm
        } else {
            Condition::Unknown
        }
    }

    pub open spec fn spec_has_cloud(self) -> bool {
        !(self == Condition::ClearDay || self == Condition::ClearNight || self == Condition::Unknown)
    }

    pub open spec fn spec_partial(self) -> bool {
        self == Condition::PartlyCloudy || self == Condition::PartlyCloudyNight
    }

    /// Whether this condition wears the cloud cap over the digits: all but
    /// the clear skies and the unknown.
    pub fn has_cloud(self) -> (cloud: bool)
        ensures
            cloud == self.spec_has_cloud(),
    {
        !(self == Condition::ClearDay || self == Condition::ClearNight || self == Condition::Unknown)
    }

    /// Whether the cap leaves room at its trailing end for a sun or moon.
    pub fn partial(self) -> (partial: bool)
        ensures
            partial == self.spec_partial(),
    {
        self == Condition::PartlyCloudy || self == Condition::PartlyCloudyNight
    }
}

/// Whether it is day matters only where the sky is clear or partly clear;
/// every other code reads the same by day and by night.
pub proof fn day_and_night_differ_only_under_open_sky(code: u8)
    ensures
        (wmo_condition(code, true) != wmo_condition(code, false)) <==> (code <= 2),
{
}

/// Which of a mark's colors a shape takes, named by role so that monochrome
/// is a matter of resolving them all to one value.
#[derive(Copy, Clone, Debug, PartialEq, Eq, Structural)]
pub enum Ink {
    /// The cloud cap.
    Cloud,
    /// The condition detail: rays, crescent, flakes, bolt, fog, question mark.
    Mark,
    /// Rain that hangs beside something else.
    Rain,
}

/// The four colors one mark is drawn in, as 0xRRGGBB.
///
/// `digits` is the temperature itself, which takes the condition's color
/// only where that color carries meaning - amber for sun, lavender for
/// night - and otherwise stays the module's own.
#[derive(Copy, Clone, Debug, PartialEq, Eq, Structural)]
pub struct Palette {
    pub digits: u32,
    pub cloud: u32,
    pub mark: u32,
    pub rain: u32,
}

/// The palette for a condition, or one color for all of it.
pub open spec fn palette_for(condition: Option<Condition>, dark: bool, monochrome: bool, module: u32) -> Palette {
    if monochrome {
        Palette { digits: module, cloud: module, mark: module, rain: module }
    } else {
        let cloud: u32 = if dark { 0xC9CED6 } else { 0x8D96A3 };
        let rain: u32 = if dark { 0x4DA3FF } else { 0x1F6FE0 };
        let amber: u32 = if dark { 0xFFC53D } else { 0xA86E00 };
        let night: u32 = if dark { 0xC7C4FF } else { 0x5B54C9 };
        let ice: u32 = if dark { 0x8FD3FF } else { 0x2E86D6 };
        let storm_cloud: u32 = if dark { 0x9AA3B0 } else { 0x5F6873 };
        let bolt: u32 = if dark { 0xFFD23F } else { 0xE5A800 };
        let (digits, cloud, mark) = match condition {
            None => (module, cloud, cloud),
            Some(Condition::Cloudy) | Some(Condition::Fog) | Some(Condition::Unknown) => (module, cloud, cloud),
            Some(Condition::ClearDay) => (amber, cloud, amber),
            Some(Condition::ClearNight) => (night, cloud, night),
            Some(Condition::PartlyCloudy) => (module, cloud, amber),
            Some(Condition::PartlyCloudyNight) => (module, cloud, night),
            Some(Condition::Drizzle) | Some(Condition::Rain) => (module, cloud, rain),
            Some(Condition::HeavyRain) => (module, storm_cloud, rain),
            Some(Condition::Sleet) | Some(Condition::Snow) => (module, cloud, ice),
            Some(Condition::Thunder) | Some(Condition::Thunderstorm) => (module, storm_cloud, bolt),
        };
        Palette { digits, cloud, mark, rain }
    }
}

/// 0xRRGGBB with its red and blue bytes exchanged, the top byte dropped.
pub open spec fn swapped_ends(color: u32) -> u32 {
    ((color % 256) * 65536 + ((color / 256) % 256) * 256 + (color / 65536) % 256) as u32
}

impl Palette {
    /// Colors for a condition, or one color for all of it. `module` is the
    /// strip's own text color, used wherever the condition has nothing to
    /// say about the number's color.
    pub fn resolve(condition: Option<Condition>, dark: bool, monochrome: bool, module: u32) -> (palette: Palette)
        ensures
            palette == palette_for(condition, dark, monochrome, module),
    {
        if monochrome {
            return Palette { digits: module, cloud: module, mark: module, rain: module };
        }
        let cloud: u32 = if dark { 0xC9CED6 } else { 0x8D96A3 };
        let rain: u32 = if dark { 0x4DA3FF } else { 0x1F6FE0 };
        let amber: u32 = if dark { 0xFFC53D } else { 0xA86E00 };
        let night: u32 = if dark { 0xC7C4FF } else { 0x5B54C9 };
        let ice: u32 = if dark { 0x8FD3FF } else { 0x2E86D6 };
        let storm_cloud: u32 = if dark { 0x9AA3B0 } else { 0x5F6873 };
        let bolt: u32 = if dark { 0xFFD23F } else { 0xE5A800 };
        let (digits, cloud, mark) = match condition {
            None => (module, cloud, cloud),
            Some(Condition::Cloudy) | Some(Condition::Fog) | Some(Condition::Unknown) => (module, cloud, cloud),
            Some(Condition::ClearDay) => (amber, cloud, amber),
            Some(Condition::ClearNight) => (night, cloud, night),
            Some(Condition::PartlyCloudy) => (module, cloud, amber),
            Some(Condition::PartlyCloudyNight) => (module, cloud, night),
            Some(Condition::Drizzle) | Some(Condition::Rain) => (module, cloud, rain),
            Some(Condition::HeavyRain) => (module, storm_cloud, rain),
            Some(Condition::Sleet) | Some(Condition::Snow) => (module, cloud, ice),
            Some(Condition::Thunder) | Some(Condition::Thunderstorm) => (module, storm_cloud, bolt),
        };
        Palette { digits, cloud, mark, rain }
    }

    /// The digits as a Windows COLORREF, 0x00BBGGRR, where the palette is
    /// 0xRRGGBB: the ends swap.
    pub fn digits_as_colorref(&self) -> (colorref: u32)
        ensures
            colorref == swapped_ends(self.digits),
    {
        let d = self.digits;
        let (r, g, b) = (d >> 16 & 0xFF, d >> 8 & 0xFF, d & 0xFF);
        let colorref = (b << 16) | (g << 8) | r;
        assert(colorref == ((d % 256) * 65536 + ((d / 256) % 256) * 256 + (d / 65536) % 256) as u32)
            by (bit_vector)
            requires
                r == d >> 16 & 0xFF,
                g == d >> 8 & 0xFF,
                b == d & 0xFF,
                colorref == (b << 16) | (g << 8) | r,
        ;
        colorref
    }

    /// The color one shape is drawn in.
    pub fn ink(&self, ink: Ink) -> (color: u32)
        ensures
            color == match ink {
                Ink::Cloud => self.cloud,
                Ink::Mark => self.mark,
                Ink::Rain => self.rain,
            },
    {
        match ink {
            Ink::Cloud => self.cloud,
            Ink::Mark => self.mark,
            Ink::Rain => self.rain,
        }
    }
}

/// Swapping a color's ends twice gives the color back, for every 24-bit
/// color: the conversion to COLORREF loses nothing.
pub proof fn swapping_ends_twice_is_the_identity(color: u32)
    requires
        color < 0x1000000,
    ensures
        swapped_ends(swapped_ends(color)) == color,
{
    assert(swapped_ends(swapped_ends(color)) == color) by (nonlinear_arith)
        requires
            color < 0x1000000,
    ;
}

/// A monochrome mark is one color throughout: every ink resolves to the
/// module's color, whatever the condition and the appearance.
pub proof fn monochrome_is_one_color(condition: Option<Condition>, dark: bool, module: u32)
    ensures
        palette_for(condition, dark, true, module) == (Palette { digits: module, cloud: module, mark: module, rain: module }),
{
}

/// The light and dark palettes never share a cloud or a mark color, for
/// any condition and whatever the module colors: one of them was not left
/// behind in an edit.
pub proof fn light_and_dark_never_share_a_color(condition: Condition, dark_module: u32, light_module: u32)
    ensures
        palette_for(Some(condition), true, false, dark_module).cloud != palette_for(Some(condition), false, false, light_module).cloud,
        palette_for(Some(condition), true, false, dark_module).mark != palette_for(Some(condition), false, false, light_module).mark,
{
}

/// The number takes the condition's color only under a clear sky; every
/// other condition leaves it the module's own.
pub proof fn the_digits_change_color_only_under_a_clear_sky(condition: Option<Condition>, dark: bool, module: u32)
    ensures
        (condition != Some(Condition::ClearDay) && condition != Some(Condition::ClearNight))
            ==> palette_for(condition, dark, false, module).digits == module,
{
}

} // verus!
