//! The weather condition as characters from Windows' own icon font.
//!
//! The font has nine weather marks for fourteen conditions, so picking one
//! character each forces five pairs of conditions to share a mark. Drawing a
//! second, smaller character beside the first gets all fourteen back as
//! distinct shapes; both mappings are here, with what each promises.

use vstd::prelude::*;

use super::badge::Condition;

verus! {

/// The font Windows 11 draws its own icons in.
pub const FAMILY: &'static str = "Segoe Fluent Icons";

/// The same family one generation back, for a machine without the newer
/// font; every codepoint used here draws the same mark in it.
pub const FALLBACK_FAMILY: &'static str = "Segoe MDL2 Assets";

pub const SUN: char = '\u{E706}';
pub const MOON: char = '\u{E708}';
pub const CLOUD: char = '\u{E753}';
pub const RAINING_CLOUD: char = '\u{EA91}';
pub const DROP: char = '\u{EB42}';
pub const FLAKE: char = '\u{EA38}';
pub const BOLT: char = '\u{E945}';
pub const MIST: char = '\u{EDA8}';
pub const QUERY: char = '\u{E897}';

/// The one character a condition would be drawn with, where one had to do.
pub open spec fn spec_glyph(condition: Condition) -> char {
    match condition {
        Condition::ClearDay => SUN,
        Condition::ClearNight => MOON,
        Condition::PartlyCloudy => SUN,
        Condition::PartlyCloudyNight => MOON,
        Condition::Cloudy => CLOUD,
        Condition::Fog => MIST,
        Condition::Drizzle => DROP,
        Condition::Rain => RAINING_CLOUD,
        Condition::HeavyRain => RAINING_CLOUD,
        Condition::Sleet => FLAKE,
        Condition::Snow => FLAKE,
        Condition::Thunder => BOLT,
        Condition::Thunderstorm => BOLT,
        Condition::Unknown => QUERY,
    }
}

/// The pairs of conditions the font forces to share a mark, each collapsed
/// onto its neighbor in severity.
pub open spec fn spec_shared_glyphs() -> Seq<(Condition, Condition)> {
    seq![
        (Condition::ClearDay, Condition::PartlyCloudy),
        (Condition::ClearNight, Condition::PartlyCloudyNight),
        (Condition::Rain, Condition::HeavyRain),
        (Condition::Sleet, Condition::Snow),
        (Condition::Thunder, Condition::Thunderstorm),
    ]
}

/// Whether two conditions are one of the written-down shared pairs, in
/// either order.
pub open spec fn listed_as_shared(a: Condition, b: Condition) -> bool {
    exists|i: int| 0 <= i < 5 && (spec_shared_glyphs()[i] == (a, b) || spec_shared_glyphs()[i] == (b, a))
}

/// The pairs of conditions the font forces to share a mark.
pub fn shared_glyphs() -> (pairs: [(Condition, Condition); 5])
    ensures
        pairs@ == spec_shared_glyphs(),
{
    let pairs = [
        (Condition::ClearDay, Condition::PartlyCloudy),
        (Condition::ClearNight, Condition::PartlyCloudyNight),
        (Condition::Rain, Condition::HeavyRain),
        (Condition::Sleet, Condition::Snow),
        (Condition::Thunder, Condition::Thunderstorm),
    ];
    assert(pairs@ =~= spec_shared_glyphs());
    pairs
}

/// The one character a condition would be drawn with, where one had to do.
pub fn glyph(condition: Condition) -> (c: char)
    ensures
        c == spec_glyph(condition),
{
    match condition {
        Condition::ClearDay => SUN,
        Condition::ClearNight => MOON,
        Condition::PartlyCloudy => SUN,
        Condition::PartlyCloudyNight => MOON,
        Condition::Cloudy => CLOUD,
        Condition::Fog => MIST,
        Condition::Drizzle => DROP,
        Condition::Rain => RAINING_CLOUD,
        Condition::HeavyRain => RAINING_CLOUD,
        Condition::Sleet => FLAKE,
        Condition::Snow => FLAKE,
        Condition::Thunder => BOLT,
        Condition::Thunderstorm => BOLT,
        Condition::Unknown => QUERY,
    }
}

/// Every condition's character is in the Private Use Area, where the
/// icon font keeps its marks; a character outside it would draw a letter.
pub proof fn every_glyph_is_private_use(condition: Condition)
    ensures
        0xE000 <= spec_glyph(condition) as u32 <= 0xF8FF,
{
}

/// Two different conditions share a character exactly when they are one
/// of the pairs written down as shared: no collapse is added or fixed
/// without saying so.
pub proof fn only_the_listed_pairs_share_a_glyph(a: Condition, b: Condition)
    ensures
        (a != b && spec_glyph(a) == spec_glyph(b)) <==> listed_as_shared(a, b),
{
    if listed_as_shared(a, b) {
        let i = choose|i: int| 0 <= i < 5 && (spec_shared_glyphs()[i] == (a, b) || spec_shared_glyphs()[i] == (b, a));
        assert(0 <= i < 5);
    }
    if a != b && spec_glyph(a) == spec_glyph(b) {
        let pairs = spec_shared_glyphs();
        if (a == Condition::ClearDay || a == Condition::PartlyCloudy) {
            assert(pairs[0] == (a, b) || pairs[0] == (b, a));
        } else if (a == Condition::ClearNight || a == Condition::PartlyCloudyNight) {
            assert(pairs[1] == (a, b) || pairs[1] == (b, a));
        } else if (a == Condition::Rain || a == Condition::HeavyRain) {
            assert(pairs[2] == (a, b) || pairs[2] == (b, a));
        } else if (a == Condition::Sleet || a == Condition::Snow) {
            assert(pairs[3] == (a, b) || pairs[3] == (b, a));
        } else {
            assert(pairs[4] == (a, b) || pairs[4] == (b, a));
        }
    }
}

/// The clear and the partly cloudy skies still tell day from night.
pub proof fn the_night_and_day_glyphs_are_not_the_same()
    ensures
        spec_glyph(Condition::ClearDay) != spec_glyph(Condition::ClearNight),
        spec_glyph(Condition::PartlyCloudy) != spec_glyph(Condition::PartlyCloudyNight),
{
}

/// A second character drawn smaller and offset from the first. Offsets and
/// scale are in hundredths of the base character's size, so a mark is the
/// same mark at every size.
#[derive(Copy, Clone, Debug, PartialEq, Eq, Structural)]
pub struct Accent {
    pub glyph: char,
    pub dx: i32,
    pub dy: i32,
    pub scale: i32,
}

/// A mark built from one character, or from two.
#[derive(Copy, Clone, Debug, PartialEq, Eq, Structural)]
pub struct Composed {
    pub base: char,
    pub accent: Option<Accent>,
}

/// A sun or moon peeking out from behind a cloud, up and to the right.
pub open spec fn behind(glyph: char) -> Accent {
    Accent { glyph, dx: 34, dy: -30i32, scale: 60 }
}

/// Weather hanging out of a cloud, below and slightly right.
pub open spec fn beneath(glyph: char) -> Accent {
    Accent { glyph, dx: 30, dy: 32, scale: 58 }
}

pub open spec fn spec_composed(condition: Condition) -> Composed {
    match condition {
        Condition::ClearDay => Composed { base: SUN, accent: None },
        Condition::ClearNight => Composed { base: MOON, accent: None },
        Condition::PartlyCloudy => Composed { base: CLOUD, accent: Some(behind(SUN)) },
        Condition::PartlyCloudyNight => Composed { base: CLOUD, accent: Some(behind(MOON)) },
        Condition::Cloudy => Composed { base: CLOUD, accent: None },
        Condition::Fog => Composed { base: MIST, accent: None },
        Condition::Drizzle => Composed { base: DROP, accent: None },
        Condition::Rain => Composed { base: RAINING_CLOUD, accent: None },
        Condition::HeavyRain => Composed { base: RAINING_CLOUD, accent: Some(beneath(DROP)) },
        Condition::Sleet => Composed { base: RAINING_CLOUD, accent: Some(beneath(FLAKE)) },
        Condition::Snow => Composed { base: CLOUD, accent: Some(beneath(FLAKE)) },
        Condition::Thunder => Composed { base: BOLT, accent: None },
        Condition::Thunderstorm => Composed { base: RAINING_CLOUD, accent: Some(beneath(BOLT)) },
        Condition::Unknown => Composed { base: QUERY, accent: None },
    }
}

fn accent_behind(glyph: char) -> (accent: Accent)
    ensures
        accent == behind(glyph),
{
    Accent { glyph, dx: 34, dy: -30, scale: 60 }
}

fn accent_beneath(glyph: char) -> (accent: Accent)
    ensures
        accent == beneath(glyph),
{
    Accent { glyph, dx: 30, dy: 32, scale: 58 }
}

/// The mark for a condition, as one character or two. Eight are one
/// character and six a pair, and all fourteen differ.
pub fn composed(condition: Condition) -> (mark: Composed)
    ensures
        mark == spec_composed(condition),
{
    match condition {
        Condition::ClearDay => Composed { base: SUN, accent: None },
        Condition::ClearNight => Composed { base: MOON, accent: None },
        Condition::PartlyCloudy => Composed { base: CLOUD, accent: Some(accent_behind(SUN)) },
        Condition::PartlyCloudyNight => Composed { base: CLOUD, accent: Some(accent_behind(MOON)) },
        Condition::Cloudy => Composed { base: CLOUD, accent: None },
        Condition::Fog => Composed { base: MIST, accent: None },
        Condition::Drizzle => Composed { base: DROP, accent: None },
        Condition::Rain => Composed { base: RAINING_CLOUD, accent: None },
        Condition::HeavyRain => Composed { base: RAINING_CLOUD, accent: Some(accent_beneath(DROP)) },
        Condition::Sleet => Composed { base: RAINING_CLOUD, accent: Some(accent_beneath(FLAKE)) },
        Condition::Snow => Composed { base: CLOUD, accent: Some(accent_beneath(FLAKE)) },
        Condition::Thunder => Composed { base: BOLT, accent: None },
        Condition::Thunderstorm => Composed { base: RAINING_CLOUD, accent: Some(accent_beneath(BOLT)) },
        Condition::Unknown => Composed { base: QUERY, accent: None },
    }
}

/// Composing a second character gives every condition a mark of its own.
pub proof fn composing_gets_every_condition_back(a: Condition, b: Condition)
    ensures
        a != b ==> spec_composed(a) != spec_composed(b),
{
}

/// An accent is always smaller than the mark it sits against; a light sits
/// above the cloud's top and weather hangs below it, and the day and night
/// lights sit in the same place.
pub proof fn accents_are_smaller_and_placed_by_role(condition: Condition)
    ensures
        spec_composed(condition).accent matches Some(a) ==> 0 < a.scale < 100,
        (condition == Condition::PartlyCloudy || condition == Condition::PartlyCloudyNight)
            ==> (spec_composed(condition).accent matches Some(a) && a.dy < 0),
        (condition == Condition::HeavyRain || condition == Condition::Sleet || condition == Condition::Snow
            || condition == Condition::Thunderstorm) ==> (spec_composed(condition).accent matches Some(a) && a.dy > 0),
{
}

impl Composed {
    /// The box the two characters cover together, in hundredths of the
    /// base character's size with the base filling (0, 0) to (100, 100):
    /// left, top, right, bottom.
    pub open spec fn spec_bounds(self) -> (int, int, int, int) {
        match self.accent {
            None => (0, 0, 100, 100),
            Some(a) => (
                if a.dx < 0 { a.dx as int } else { 0 },
                if a.dy < 0 { a.dy as int } else { 0 },
                if a.dx + a.scale > 100 { a.dx + a.scale } else { 100 },
                if a.dy + a.scale > 100 { a.dy + a.scale } else { 100 },
            ),
        }
    }

    /// The box the two characters cover together: left, top, right, bottom.
    pub fn bounds(self) -> (bounds: (i64, i64, i64, i64))
        ensures
            (bounds.0 as int, bounds.1 as int, bounds.2 as int, bounds.3 as int) == self.spec_bounds(),
    {
        match self.accent {
            None => (0, 0, 100, 100),
            Some(a) => {
                let (dx, dy, scale) = (a.dx as i64, a.dy as i64, a.scale as i64);
                (
                    if dx < 0 { dx } else { 0 },
                    if dy < 0 { dy } else { 0 },
                    if dx + scale > 100 { dx + scale } else { 100 },
                    if dy + scale > 100 { dy + scale } else { 100 },
                )
            },
        }
    }
}

} // verus!
