//! The detailed forecast's calendar and catalog.
//!
//! Open-Meteo returns local wall-clock strings for the location's own zone
//! ("2026-09-07T14:00"), and every question the panel asks of them (which
//! hours belong to this day, how long from sunrise to sunset) is a question
//! about those wall clocks. Reading them into fields and doing the calendar
//! arithmetic exactly answers all of it with no time-zone database.

use vstd::prelude::*;

use crate::json::{
    error_text, items_at, number_in, number_of, parse_json, parsed_json, signed_at, text_at, text_in, text_of, Json,
    JsonNumber,
};
use crate::text::{chars_of, digit_char, same_text};
use crate::weather::client::{malformed_with, WeatherError};
use vstd::arithmetic::div_mod::{lemma_fundamental_div_mod, lemma_fundamental_div_mod_converse};

verus! {

// ---------------------------------------------------------------------------
// Reading numbers out of text
// ---------------------------------------------------------------------------

/// Whether every character is an ASCII decimal digit.
pub open spec fn all_digits(s: Seq<char>) -> bool {
    forall|i: int| 0 <= i < s.len() ==> '0' <= #[trigger] s[i] <= '9'
}

/// The number a run of decimal digits spells, most significant first.
pub open spec fn digits_value(s: Seq<char>) -> int
    decreases s.len(),
{
    if s.len() == 0 {
        0
    } else {
        digits_value(s.drop_last()) * 10 + (s.last() as int - '0' as int)
    }
}

/// What an integer field reads as: an optional `+` (or, for a signed
/// field, `-`), then at least one decimal digit and nothing else. This is
/// the grammar std's integer parsing accepts.
pub open spec fn integer_text(s: Seq<char>, signed: bool) -> Option<int> {
    if s.len() > 0 && s[0] == '+' {
        let rest = s.drop_first();
        if rest.len() > 0 && all_digits(rest) {
            Some(digits_value(rest))
        } else {
            None
        }
    } else if signed && s.len() > 0 && s[0] == '-' {
        let rest = s.drop_first();
        if rest.len() > 0 && all_digits(rest) {
            Some(-digits_value(rest))
        } else {
            None
        }
    } else if s.len() > 0 && all_digits(s) {
        Some(digits_value(s))
    } else {
        None
    }
}

/// The position of the first occurrence of a character, if it occurs.
pub open spec fn first_index(s: Seq<char>, c: char) -> Option<int>
    decreases s.len(),
{
    if s.len() == 0 {
        None
    } else if s[0] == c {
        Some(0)
    } else {
        match first_index(s.drop_first(), c) {
            Some(i) => Some(i + 1),
            None => None,
        }
    }
}

pub proof fn lemma_first_index(s: Seq<char>, c: char)
    ensures
        first_index(s, c) matches Some(i) ==> {
            &&& 0 <= i < s.len()
            &&& s[i] == c
            &&& forall|j: int| 0 <= j < i ==> s[j] != c
        },
        first_index(s, c) is None ==> forall|j: int| 0 <= j < s.len() ==> s[j] != c,
    decreases s.len(),
{
    if s.len() > 0 {
        let rest = s.drop_first();
        lemma_first_index(rest, c);
        assert forall|j: int| 1 <= j < s.len() implies s[j] == rest[j - 1] by {}
    }
}

/// Ten to a small power.
pub open spec fn pow10(n: nat) -> int
    decreases n,
{
    if n == 0 {
        1
    } else {
        10 * pow10((n - 1) as nat)
    }
}

proof fn lemma_pow10_small(n: nat)
    requires
        n <= 4,
    ensures
        pow10(n) <= 10000,
{
    reveal_with_fuel(pow10, 5);
}

/// The first position in `from..to` holding `c`.
fn find_char(chars: &Vec<char>, from: usize, to: usize, c: char) -> (found: Option<usize>)
    requires
        from <= to <= chars@.len(),
    ensures
        match found {
            Some(k) => from <= k < to && first_index(chars@.subrange(from as int, to as int), c)
                == Some(k - from),
            None => first_index(chars@.subrange(from as int, to as int), c) is None,
        },
{
    let ghost sub = chars@.subrange(from as int, to as int);
    proof {
        lemma_first_index(sub, c);
    }
    let mut k = from;
    while k < to
        invariant
            from <= k <= to <= chars@.len(),
            sub == chars@.subrange(from as int, to as int),
            forall|j: int| from <= j < k ==> chars@[j] != c,
            first_index(sub, c) matches Some(i) ==> {
                &&& 0 <= i < sub.len()
                &&& sub[i] == c
                &&& forall|j: int| 0 <= j < i ==> sub[j] != c
            },
            first_index(sub, c) is None ==> forall|j: int| 0 <= j < sub.len() ==> sub[j] != c,
        decreases to - k,
    {
        if chars[k] == c {
            proof {
                assert(sub[k - from] == c);
                if let Some(i) = first_index(sub, c) {
                    assert(sub[i] == chars@[from + i]);
                    if i < k - from {
                        assert(false);
                    }
                    if i > k - from {
                        assert(false);
                    }
                }
            }
            return Some(k);
        }
        k += 1;
    }
    proof {
        if let Some(i) = first_index(sub, c) {
            assert(sub[i] == chars@[from + i]);
        }
    }
    None
}

/// The integer field in `start..end`, read as std reads integers.
fn read_integer(chars: &Vec<char>, start: usize, end: usize, signed: bool) -> (value: Option<i64>)
    requires
        start <= end <= chars@.len(),
        end - start <= 4,
    ensures
        match value {
            Some(v) => integer_text(chars@.subrange(start as int, end as int), signed) == Some(
                v as int,
            ),
            None => integer_text(chars@.subrange(start as int, end as int), signed) is None,
        },
{
    let ghost s = chars@.subrange(start as int, end as int);
    let mut first = start;
    let mut negative = false;
    if start < end && chars[start] == '+' {
        first = start + 1;
    } else if signed && start < end && chars[start] == '-' {
        first = start + 1;
        negative = true;
    }
    let ghost digits = chars@.subrange(first as int, end as int);
    if first == end {
        return None;
    }
    proof {
        if first == start + 1 {
            assert(digits =~= s.drop_first());
        } else {
            assert(digits =~= s);
        }
    }
    let mut value: i64 = 0;
    let mut i = first;
    while i < end
        invariant
            start <= first <= i <= end <= chars@.len(),
            first < end,
            end - start <= 4,
            digits == chars@.subrange(first as int, end as int),
            s == chars@.subrange(start as int, end as int),
            integer_text(s, signed) == (if all_digits(digits) {
                Some(if negative { -digits_value(digits) } else { digits_value(digits) })
            } else {
                None::<int>
            }),
            all_digits(chars@.subrange(first as int, i as int)),
            value == digits_value(chars@.subrange(first as int, i as int)),
            0 <= value < pow10((i - first) as nat),
        decreases end - i,
    {
        let c = chars[i];
        if c < '0' || c > '9' {
            proof {
                assert(digits[i - first] == c);
            }
            return None;
        }
        proof {
            lemma_pow10_small((i - first) as nat);
            let next = chars@.subrange(first as int, i + 1);
            assert(next.drop_last() =~= chars@.subrange(first as int, i as int));
            assert(next.last() == c);
            assert(pow10((i + 1 - first) as nat) == 10 * pow10((i - first) as nat));
        }
        value = value * 10 + (c as u32 - '0' as u32) as i64;
        i += 1;
    }
    proof {
        assert(chars@.subrange(first as int, i as int) =~= digits);
    }
    if negative {
        Some(-value)
    } else {
        Some(value)
    }
}

// ---------------------------------------------------------------------------
// The calendar
// ---------------------------------------------------------------------------

/// The proleptic Gregorian leap-year rule.
pub open spec fn is_leap_year(year: int) -> bool {
    year % 4 == 0 && (year % 100 != 0 || year % 400 == 0)
}

/// How many days a month has in a given year.
pub open spec fn days_in_month(year: int, month: int) -> int {
    if month == 2 {
        if is_leap_year(year) { 29 } else { 28 }
    } else if month == 4 || month == 6 || month == 9 || month == 11 {
        30
    } else {
        31
    }
}

/// How many days a year has.
pub open spec fn days_in_year(year: int) -> int {
    if is_leap_year(year) { 366 } else { 365 }
}

/// Leap years counted from year 1 through `year` (negative before it).
pub open spec fn leap_years_through(year: int) -> int {
    year / 4 - year / 100 + year / 400
}

/// Days from 1970-01-01 to the first of January of a year.
pub open spec fn days_before_year(year: int) -> int {
    365 * (year - 1970) + leap_years_through(year - 1) - leap_years_through(1969)
}

/// Days from the first of January to the first of a month.
pub open spec fn days_before_month(year: int, month: int) -> int {
    (if month == 1 {
        0int
    } else if month == 2 {
        31
    } else if month == 3 {
        59
    } else if month == 4 {
        90
    } else if month == 5 {
        120
    } else if month == 6 {
        151
    } else if month == 7 {
        181
    } else if month == 8 {
        212
    } else if month == 9 {
        243
    } else if month == 10 {
        273
    } else if month == 11 {
        304
    } else {
        334
    }) + (if month > 2 && is_leap_year(year) { 1int } else { 0int })
}

/// One calendar date in the location's own zone.
#[derive(Copy, Clone, Debug, PartialEq, Eq, PartialOrd, Ord, Hash, Structural)]
pub struct LocalDate {
    pub year: i32,
    pub month: u32,
    pub day: u32,
}

impl LocalDate {
    /// A date whose month is one of the twelve.
    pub open spec fn has_month(self) -> bool {
        1 <= self.month <= 12
    }

    /// A date the calendar actually has.
    pub open spec fn is_calendar_date(self) -> bool {
        &&& self.has_month()
        &&& 1 <= self.day <= days_in_month(self.year as int, self.month as int)
    }

    /// Days since 1970-01-01, negative before it.
    pub open spec fn days(self) -> int {
        days_before_year(self.year as int) + days_before_month(self.year as int, self.month as int)
            + self.day - 1
    }

    /// Day of the week, 0 for Sunday through 6 for Saturday; 1970-01-01 was
    /// a Thursday.
    pub open spec fn spec_weekday(self) -> int {
        (self.days() + 4) % 7
    }

    /// Days since 1970-01-01 as the civil-date arithmetic counts them from
    /// the fields, reading the year as running from March to February (so
    /// January and February belong to the year before). For a month of the
    /// year this is the calendar's count, `days`; a month outside 1 to 12 is
    /// counted as the month it is congruent to, in the March-to-February
    /// year the fields name.
    pub open spec fn civil_days(self) -> int {
        let y = if self.month <= 2 { self.year - 1 } else { self.year as int };
        let from_march = (self.month + 9) % 12;
        365 * y + leap_years_through(y) + (153 * from_march + 2) / 5 + self.day - 1 - 719_468
    }

    /// The weekday the civil-date count gives.
    pub open spec fn civil_weekday(self) -> int {
        (self.civil_days() + 4) % 7
    }

    /// Calendar order: by year, then month, then day.
    pub open spec fn is_before(self, other: LocalDate) -> bool {
        ||| self.year < other.year
        ||| self.year == other.year && self.month < other.month
        ||| self.year == other.year && self.month == other.month && self.day < other.day
    }

    /// The date a text begins with, as `parse` reads it: a four-character
    /// year, a dash, a two-character month, a dash and a two-character day,
    /// each an integer field; the month from 1 to 12 and the day from 1 to
    /// 31. Whatever follows the tenth character is not looked at.
    pub open spec fn spec_parse(value: Seq<char>) -> Option<LocalDate> {
        if value.len() < 10 || value[4] != '-' || value[7] != '-' {
            None
        } else {
            match (
                integer_text(value.subrange(0, 4), true),
                integer_text(value.subrange(5, 7), false),
                integer_text(value.subrange(8, 10), false),
            ) {
                (Some(year), Some(month), Some(day)) => if 1 <= month <= 12 && 1 <= day <= 31 {
                    Some(LocalDate { year: year as i32, month: month as u32, day: day as u32 })
                } else {
                    None
                },
                _ => None,
            }
        }
    }

    /// The date at the start of the first `end` characters.
    fn parse_prefix(chars: &Vec<char>, end: usize) -> (date: Option<LocalDate>)
        requires
            end <= chars@.len(),
        ensures
            date == LocalDate::spec_parse(chars@.subrange(0, end as int)),
    {
        let ghost value = chars@.subrange(0, end as int);
        if end < 10 || chars[4] != '-' || chars[7] != '-' {
            return None;
        }
        assert(value.subrange(0, 4) =~= chars@.subrange(0, 4));
        assert(value.subrange(5, 7) =~= chars@.subrange(5, 7));
        assert(value.subrange(8, 10) =~= chars@.subrange(8, 10));
        let year = read_integer(chars, 0, 4, true);
        let month = read_integer(chars, 5, 7, false);
        let day = read_integer(chars, 8, 10, false);
        match (year, month, day) {
            (Some(year), Some(month), Some(day)) => {
                if 1 <= month && month <= 12 && 1 <= day && day <= 31 {
                    proof {
                        lemma_integer_text_bounds(chars@.subrange(0, 4), true);
                    }
                    Some(LocalDate { year: year as i32, month: month as u32, day: day as u32 })
                } else {
                    None
                }
            },
            _ => None,
        }
    }

    /// Days since 1970-01-01, negative before it.
    ///
    /// Howard Hinnant's days-from-civil arithmetic, proved equal to counting
    /// the days of every year and month in between.
    pub fn days_from_epoch(self) -> (days: i64)
        requires
            self.month <= u32::MAX - 9,
        ensures
            days == self.civil_days(),
            self.has_month() ==> days == self.days(),
            -800_000_000_000 <= days <= 800_000_000_000,
    {
        let year: i64 = if self.month <= 2 {
            self.year as i64 - 1
        } else {
            self.year as i64
        };
        // Shifted by a whole number of 400-year eras so that the division
        // rounds toward minus infinity.
        let shifted: u64 = (year + 2_147_484_000) as u64;
        let era: i64 = (shifted / 400) as i64 - 5_368_710;
        let year_of_era: u64 = shifted % 400;
        let shifted_month: u64 = ((self.month + 9) % 12) as u64;
        let day_of_year: u64 = (153 * shifted_month + 2) / 5;
        let day_of_era: u64 = year_of_era * 365 + year_of_era / 4 - year_of_era / 100;
        proof {
            lemma_fundamental_div_mod(shifted as int, 400);
            lemma_fundamental_div_mod_converse(
                year as int,
                400,
                shifted as int / 400 - 5_368_710,
                shifted as int % 400,
            );
            lemma_leap_years_by_era(year as int);
            if self.has_month() {
                lemma_days_by_era(self);
            }
        }
        era * 146_097 + day_of_era as i64 + day_of_year as i64 + self.day as i64 - 1 - 719_468
    }

    /// Day of the week, 0 for Sunday through 6 for Saturday.
    pub fn weekday(self) -> (weekday: u32)
        requires
            self.month <= u32::MAX - 9,
        ensures
            weekday == self.civil_weekday(),
            self.has_month() ==> weekday == self.spec_weekday(),
            weekday < 7,
    {
        let days = self.days_from_epoch();
        let shifted: u64 = (days + 4 + 7 * 200_000_000_000) as u64;
        proof {
            lemma_fundamental_div_mod(shifted as int, 7);
            lemma_fundamental_div_mod_converse(
                days + 4,
                7,
                shifted as int / 7 - 200_000_000_000,
                shifted as int % 7,
            );
        }
        (shifted % 7) as u32
    }

    /// Reads "2026-09-07", refusing anything that is not a plausible date.
    pub fn parse(value: &str) -> (date: Option<LocalDate>)
        ensures
            date == LocalDate::spec_parse(value@),
    {
        let chars = chars_of(value);
        assert(chars@.subrange(0, chars@.len() as int) =~= value@);
        LocalDate::parse_prefix(&chars, chars.len())
    }
}

/// One wall-clock instant in the location's own zone.
///
/// Deliberately not a moment in absolute time: the provider's local strings
/// are what the panel displays and what the day grouping compares.
#[derive(Copy, Clone, Debug, PartialEq, Eq, PartialOrd, Ord, Hash, Structural)]
pub struct LocalTime {
    pub date: LocalDate,
    pub hour: u32,
    pub minute: u32,
}

impl LocalTime {
    /// A time of day a clock can show, on a date the calendar has.
    pub open spec fn is_clock_time(self) -> bool {
        &&& self.date.is_calendar_date()
        &&& self.hour < 24
        &&& self.minute < 60
    }

    /// Seconds since the epoch as if the wall clock were UTC.
    pub open spec fn seconds(self) -> int {
        self.date.civil_days() * 86_400 + self.hour * 3_600 + self.minute * 60
    }

    /// Chronological order on the wall clock: by date, then hour, then
    /// minute.
    pub open spec fn is_before(self, other: LocalTime) -> bool {
        ||| self.date.is_before(other.date)
        ||| self.date == other.date && self.hour < other.hour
        ||| self.date == other.date && self.hour == other.hour && self.minute < other.minute
    }

    /// What `parse` reads: the text is split at its first `T`, or if it
    /// has none at its first space; the part before must begin with a date;
    /// the first five characters after it are an hour and a minute split at
    /// their first colon, each an unsigned integer field, with the hour
    /// below 24 and the minute below 60. Anything after those five
    /// characters, such as seconds, is not looked at.
    pub open spec fn spec_parse(value: Seq<char>) -> Option<LocalTime> {
        let split = match first_index(value, 'T') {
            Some(i) => Some(i),
            None => first_index(value, ' '),
        };
        match split {
            None => None,
            Some(i) => {
                let clock = value.subrange(i + 1, value.len() as int);
                if clock.len() < 5 {
                    None
                } else {
                    let head = clock.subrange(0, 5);
                    match first_index(head, ':') {
                        None => None,
                        Some(j) => match (
                            LocalDate::spec_parse(value.subrange(0, i)),
                            integer_text(head.subrange(0, j), false),
                            integer_text(head.subrange(j + 1, 5), false),
                        ) {
                            (Some(date), Some(hour), Some(minute)) => if hour < 24 && minute < 60 {
                                Some(LocalTime { date, hour: hour as u32, minute: minute as u32 })
                            } else {
                                None
                            },
                            _ => None,
                        },
                    }
                }
            },
        }
    }

    /// Reads "2026-09-07T14:00", ignoring any seconds the provider adds.
    #[verifier::rlimit(40)]
    pub fn parse(value: &str) -> (time: Option<LocalTime>)
        ensures
            time == LocalTime::spec_parse(value@),
    {
        let chars = chars_of(value);
        let n = chars.len();
        assert(chars@.subrange(0, n as int) =~= value@);
        let split = match find_char(&chars, 0, n, 'T') {
            Some(i) => Some(i),
            None => find_char(&chars, 0, n, ' '),
        };
        let i = match split {
            Some(i) => i,
            None => return None,
        };
        let ghost clock = value@.subrange(i + 1, n as int);
        if n - (i + 1) < 5 {
            return None;
        }
        let ghost head = clock.subrange(0, 5);
        assert(head =~= chars@.subrange(i + 1, i + 6));
        let j = match find_char(&chars, i + 1, i + 6, ':') {
            Some(k) => k,
            None => return None,
        };
        assert(head.subrange(0, j - (i + 1)) =~= chars@.subrange(i + 1, j as int));
        assert(head.subrange(j - (i + 1) + 1, 5) =~= chars@.subrange(j + 1, i + 6));
        let date = LocalDate::parse_prefix(&chars, i);
        let hour = read_integer(&chars, i + 1, j, false);
        let minute = read_integer(&chars, j + 1, i + 6, false);
        match (date, hour, minute) {
            (Some(date), Some(hour), Some(minute)) => {
                if hour < 24 && minute < 60 {
                    Some(LocalTime { date, hour: hour as u32, minute: minute as u32 })
                } else {
                    None
                }
            },
            _ => None,
        }
    }

    /// Seconds since the epoch as if the wall clock were UTC; meaningful as
    /// a difference between two of these.
    pub fn wall_clock_seconds(self) -> (seconds: i64)
        requires
            self.date.month <= u32::MAX - 9,
        ensures
            seconds == self.seconds(),
    {
        self.date.days_from_epoch() * 86_400 + self.hour as i64 * 3_600 + self.minute as i64 * 60
    }

    /// The real instant this wall clock names, given the zone's offset.
    pub fn unix_seconds(self, utc_offset_seconds: i64) -> (seconds: i64)
        requires
            self.date.month <= u32::MAX - 9,
            i64::MIN <= self.seconds() - utc_offset_seconds <= i64::MAX,
        ensures
            seconds == self.seconds() - utc_offset_seconds,
    {
        self.wall_clock_seconds() - utc_offset_seconds
    }

    /// Whether this wall clock reads earlier than another.
    pub fn is_earlier_than(self, other: LocalTime) -> (earlier: bool)
        ensures
            earlier == self.is_before(other),
    {
        if self.date.year != other.date.year {
            self.date.year < other.date.year
        } else if self.date.month != other.date.month {
            self.date.month < other.date.month
        } else if self.date.day != other.date.day {
            self.date.day < other.date.day
        } else if self.hour != other.hour {
            self.hour < other.hour
        } else {
            self.minute < other.minute
        }
    }
}

impl LocalDate {
    /// The calendar date that follows this one.
    pub open spec fn next_day(self) -> LocalDate {
        if self.day < days_in_month(self.year as int, self.month as int) {
            LocalDate { year: self.year, month: self.month, day: (self.day + 1) as u32 }
        } else if self.month < 12 {
            LocalDate { year: self.year, month: (self.month + 1) as u32, day: 1 }
        } else {
            LocalDate { year: (self.year + 1) as i32, month: 1, day: 1 }
        }
    }
}

/// Calendar order is day-count order: of two dates the calendar has, one
/// comes before the other exactly when it has fewer days since the epoch,
/// and two dates are the same exactly when their counts are.
pub proof fn calendar_order_is_day_order(a: LocalDate, b: LocalDate)
    requires
        a.is_calendar_date(),
        b.is_calendar_date(),
    ensures
        a.is_before(b) <==> a.days() < b.days(),
        a == b <==> a.days() == b.days(),
{
    lemma_earlier_date_has_fewer_days(a, b);
    lemma_earlier_date_has_fewer_days(b, a);
}

/// The day after a date is a date too, one day later in the count and one
/// day further round the week; for every date but the last one the year
/// type can hold.
pub proof fn the_next_day_is_one_day_later(date: LocalDate)
    requires
        date.is_calendar_date(),
        date.year < i32::MAX || date.month < 12 || date.day < 31,
    ensures
        date.next_day().is_calendar_date(),
        date.is_before(date.next_day()),
        date.next_day().days() == date.days() + 1,
        date.next_day().spec_weekday() == (date.spec_weekday() + 1) % 7,
{
    let year = date.year as int;
    lemma_year_step(year);
    if date.month < 12 {
        lemma_month_step(year, date.month as int);
    }
    lemma_fundamental_div_mod(date.days() + 4, 7);
    lemma_fundamental_div_mod(date.days() + 5, 7);
    let r = (date.days() + 4) % 7;
    if r == 6 {
        lemma_fundamental_div_mod_converse(date.days() + 5, 7, (date.days() + 4) / 7 + 1, 0);
    } else {
        lemma_fundamental_div_mod_converse(date.days() + 5, 7, (date.days() + 4) / 7, r + 1);
    }
}

/// Wall-clock order is the order of the seconds the clocks stand for: of
/// two clock times on calendar dates, one is earlier exactly when it has
/// fewer seconds, and they are the same exactly when their seconds are.
pub proof fn wall_clock_order_is_time_order(a: LocalTime, b: LocalTime)
    requires
        a.is_clock_time(),
        b.is_clock_time(),
    ensures
        a.is_before(b) <==> a.seconds() < b.seconds(),
        a == b <==> a.seconds() == b.seconds(),
{
    calendar_order_is_day_order(a.date, b.date);
    lemma_days_by_era(a.date);
    lemma_days_by_era(b.date);
}

proof fn lemma_earlier_date_has_fewer_days(a: LocalDate, b: LocalDate)
    requires
        a.is_calendar_date(),
        b.is_calendar_date(),
    ensures
        a.is_before(b) ==> a.days() < b.days(),
{
    lemma_day_of_year_bounds(a);
    lemma_day_of_year_bounds(b);
    if a.year < b.year {
        lemma_year_step(a.year as int);
        lemma_years_increase(a.year + 1, b.year as int);
    } else if a.year == b.year && a.month < b.month {
        lemma_months_increase(a.year as int, a.month as int, b.month as int);
    }
}

proof fn lemma_year_step(y: int)
    ensures
        days_before_year(y + 1) == days_before_year(y) + days_in_year(y),
{
    lemma_leap_step(y);
}

proof fn lemma_years_increase(a: int, b: int)
    requires
        a <= b,
    ensures
        days_before_year(a) <= days_before_year(b),
    decreases b - a,
{
    if a < b {
        lemma_years_increase(a, b - 1);
        lemma_year_step(b - 1);
    }
}

proof fn lemma_month_step(y: int, m: int)
    requires
        1 <= m < 12,
    ensures
        days_before_month(y, m + 1) == days_before_month(y, m) + days_in_month(y, m),
{
}

proof fn lemma_months_increase(y: int, m1: int, m2: int)
    requires
        1 <= m1 < m2 <= 12,
    ensures
        days_before_month(y, m1) + days_in_month(y, m1) <= days_before_month(y, m2),
{
}

proof fn lemma_day_of_year_bounds(date: LocalDate)
    requires
        date.is_calendar_date(),
    ensures
        0 <= days_before_month(date.year as int, date.month as int) + date.day - 1 < days_in_year(
            date.year as int,
        ),
{
}

// ---------------------------------------------------------------------------
// Moon
// ---------------------------------------------------------------------------

/// Eight-phase lunar cycle, from the provider or from the mean synodic cycle.
#[derive(Copy, Clone, Debug, PartialEq, Eq, Structural)]
pub enum MoonPhase {
    NewMoon,
    WaxingCrescent,
    FirstQuarter,
    WaxingGibbous,
    FullMoon,
    WaningGibbous,
    LastQuarter,
    WaningCrescent,
}

impl MoonPhase {
    /// The phases in cycle order, which is the order an eighth of a cycle
    /// indexes into.
    pub open spec fn spec_all() -> Seq<MoonPhase> {
        seq![
            MoonPhase::NewMoon,
            MoonPhase::WaxingCrescent,
            MoonPhase::FirstQuarter,
            MoonPhase::WaxingGibbous,
            MoonPhase::FullMoon,
            MoonPhase::WaningGibbous,
            MoonPhase::LastQuarter,
            MoonPhase::WaningCrescent,
        ]
    }

    /// The phases in cycle order.
    pub fn all() -> (all: [MoonPhase; 8])
        ensures
            all@ == MoonPhase::spec_all(),
    {
        let all = [
            MoonPhase::NewMoon,
            MoonPhase::WaxingCrescent,
            MoonPhase::FirstQuarter,
            MoonPhase::WaxingGibbous,
            MoonPhase::FullMoon,
            MoonPhase::WaningGibbous,
            MoonPhase::LastQuarter,
            MoonPhase::WaningCrescent,
        ];
        assert(all@ =~= MoonPhase::spec_all());
        all
    }

    pub open spec fn name_text(self) -> Seq<char> {
        match self {
            MoonPhase::NewMoon => "New Moon"@,
            MoonPhase::WaxingCrescent => "Waxing Crescent"@,
            MoonPhase::FirstQuarter => "First Quarter"@,
            MoonPhase::WaxingGibbous => "Waxing Gibbous"@,
            MoonPhase::FullMoon => "Full Moon"@,
            MoonPhase::WaningGibbous => "Waning Gibbous"@,
            MoonPhase::LastQuarter => "Last Quarter"@,
            MoonPhase::WaningCrescent => "Waning Crescent"@,
        }
    }

    pub fn name(self) -> (name: &'static str)
        ensures
            name@ == self.name_text(),
    {
        match self {
            MoonPhase::NewMoon => "New Moon",
            MoonPhase::WaxingCrescent => "Waxing Crescent",
            MoonPhase::FirstQuarter => "First Quarter",
            MoonPhase::WaxingGibbous => "Waxing Gibbous",
            MoonPhase::FullMoon => "Full Moon",
            MoonPhase::WaningGibbous => "Waning Gibbous",
            MoonPhase::LastQuarter => "Last Quarter",
            MoonPhase::WaningCrescent => "Waning Crescent",
        }
    }
}

// ---------------------------------------------------------------------------
// The metric catalog
// ---------------------------------------------------------------------------

/// What the two metric catalogs have in common.
pub trait WeatherMetric: Copy + PartialEq + Sized + 'static {
    /// Open-Meteo's own parameter name: it goes out in the query and comes
    /// back as the key.
    spec fn parameter(self) -> Seq<char>;

    /// Whether this metric is a length the provider may report in feet.
    spec fn measures_length(self) -> bool;

    /// Every metric requested, in the order the request lists them.
    spec fn catalog() -> Seq<Self>;

    /// Every metric requested, in the order the request lists them.
    fn all() -> (all: Vec<Self>)
        ensures
            all@ == Self::catalog(),
    ;

    fn raw_value(self) -> (raw: &'static str)
        ensures
            raw@ == self.parameter(),
    ;

    fn is_length(self) -> (length: bool)
        ensures
            length == self.measures_length(),
    ;

    /// Whether two metrics are the same one.
    fn is(self, other: Self) -> (same: bool)
        ensures
            same == (self == other),
    ;
}

/// Extra surface-weather fields requested for each forecast hour.
///
/// The provider spells it "vapour", and the raw value is the wire format.
#[derive(Copy, Clone, Debug, PartialEq, Eq, Hash, Structural)]
pub enum HourlyMetric {
    Rain,
    Showers,
    Snowfall,
    SnowDepth,
    SeaLevelPressure,
    SurfacePressure,
    WindGusts,
    CloudCoverLow,
    CloudCoverMid,
    CloudCoverHigh,
    WetBulbTemperature,
    SunshineDuration,
    UVIndexClearSky,
    FreezingLevelHeight,
    Cape,
    VaporPressureDeficit,
    Evapotranspiration,
    ReferenceEvapotranspiration,
    ShortwaveRadiation,
    DirectRadiation,
    DiffuseRadiation,
    DirectNormalIrradiance,
    SoilTemperature0cm,
    SoilTemperature6cm,
    SoilTemperature18cm,
    SoilTemperature54cm,
    SoilMoisture0To1cm,
    SoilMoisture1To3cm,
    SoilMoisture3To9cm,
    SoilMoisture9To27cm,
    SoilMoisture27To81cm,
}

impl WeatherMetric for HourlyMetric {
    open spec fn parameter(self) -> Seq<char> {
        match self {
            HourlyMetric::Rain => "rain"@,
            HourlyMetric::Showers => "showers"@,
            HourlyMetric::Snowfall => "snowfall"@,
            HourlyMetric::SnowDepth => "snow_depth"@,
            HourlyMetric::SeaLevelPressure => "pressure_msl"@,
            HourlyMetric::SurfacePressure => "surface_pressure"@,
            HourlyMetric::WindGusts => "wind_gusts_10m"@,
            HourlyMetric::CloudCoverLow => "cloud_cover_low"@,
            HourlyMetric::CloudCoverMid => "cloud_cover_mid"@,
            HourlyMetric::CloudCoverHigh => "cloud_cover_high"@,
            HourlyMetric::WetBulbTemperature => "wet_bulb_temperature_2m"@,
            HourlyMetric::SunshineDuration => "sunshine_duration"@,
            HourlyMetric::UVIndexClearSky => "uv_index_clear_sky"@,
            HourlyMetric::FreezingLevelHeight => "freezing_level_height"@,
            HourlyMetric::Cape => "cape"@,
            HourlyMetric::VaporPressureDeficit => "vapour_pressure_deficit"@,
            HourlyMetric::Evapotranspiration => "evapotranspiration"@,
            HourlyMetric::ReferenceEvapotranspiration => "et0_fao_evapotranspiration"@,
            HourlyMetric::ShortwaveRadiation => "shortwave_radiation"@,
            HourlyMetric::DirectRadiation => "direct_radiation"@,
            HourlyMetric::DiffuseRadiation => "diffuse_radiation"@,
            HourlyMetric::DirectNormalIrradiance => "direct_normal_irradiance"@,
            HourlyMetric::SoilTemperature0cm => "soil_temperature_0cm"@,
            HourlyMetric::SoilTemperature6cm => "soil_temperature_6cm"@,
            HourlyMetric::SoilTemperature18cm => "soil_temperature_18cm"@,
            HourlyMetric::SoilTemperature54cm => "soil_temperature_54cm"@,
            HourlyMetric::SoilMoisture0To1cm => "soil_moisture_0_to_1cm"@,
            HourlyMetric::SoilMoisture1To3cm => "soil_moisture_1_to_3cm"@,
            HourlyMetric::SoilMoisture3To9cm => "soil_moisture_3_to_9cm"@,
            HourlyMetric::SoilMoisture9To27cm => "soil_moisture_9_to_27cm"@,
            HourlyMetric::SoilMoisture27To81cm => "soil_moisture_27_to_81cm"@,
        }
    }

    open spec fn measures_length(self) -> bool {
        self == HourlyMetric::SnowDepth || self == HourlyMetric::FreezingLevelHeight
    }

    open spec fn catalog() -> Seq<Self> {
        seq![
            HourlyMetric::Rain,
            HourlyMetric::Showers,
            HourlyMetric::Snowfall,
            HourlyMetric::SnowDepth,
            HourlyMetric::SeaLevelPressure,
            HourlyMetric::SurfacePressure,
            HourlyMetric::WindGusts,
            HourlyMetric::CloudCoverLow,
            HourlyMetric::CloudCoverMid,
            HourlyMetric::CloudCoverHigh,
            HourlyMetric::WetBulbTemperature,
            HourlyMetric::SunshineDuration,
            HourlyMetric::UVIndexClearSky,
            HourlyMetric::FreezingLevelHeight,
            HourlyMetric::Cape,
            HourlyMetric::VaporPressureDeficit,
            HourlyMetric::Evapotranspiration,
            HourlyMetric::ReferenceEvapotranspiration,
            HourlyMetric::ShortwaveRadiation,
            HourlyMetric::DirectRadiation,
            HourlyMetric::DiffuseRadiation,
            HourlyMetric::DirectNormalIrradiance,
            HourlyMetric::SoilTemperature0cm,
            HourlyMetric::SoilTemperature6cm,
            HourlyMetric::SoilTemperature18cm,
            HourlyMetric::SoilTemperature54cm,
            HourlyMetric::SoilMoisture0To1cm,
            HourlyMetric::SoilMoisture1To3cm,
            HourlyMetric::SoilMoisture3To9cm,
            HourlyMetric::SoilMoisture9To27cm,
            HourlyMetric::SoilMoisture27To81cm,
        ]
    }

    fn all() -> (all: Vec<Self>) {
        let all = vec![
            HourlyMetric::Rain,
            HourlyMetric::Showers,
            HourlyMetric::Snowfall,
            HourlyMetric::SnowDepth,
            HourlyMetric::SeaLevelPressure,
            HourlyMetric::SurfacePressure,
            HourlyMetric::WindGusts,
            HourlyMetric::CloudCoverLow,
            HourlyMetric::CloudCoverMid,
            HourlyMetric::CloudCoverHigh,
            HourlyMetric::WetBulbTemperature,
            HourlyMetric::SunshineDuration,
            HourlyMetric::UVIndexClearSky,
            HourlyMetric::FreezingLevelHeight,
            HourlyMetric::Cape,
            HourlyMetric::VaporPressureDeficit,
            HourlyMetric::Evapotranspiration,
            HourlyMetric::ReferenceEvapotranspiration,
            HourlyMetric::ShortwaveRadiation,
            HourlyMetric::DirectRadiation,
            HourlyMetric::DiffuseRadiation,
            HourlyMetric::DirectNormalIrradiance,
            HourlyMetric::SoilTemperature0cm,
            HourlyMetric::SoilTemperature6cm,
            HourlyMetric::SoilTemperature18cm,
            HourlyMetric::SoilTemperature54cm,
            HourlyMetric::SoilMoisture0To1cm,
            HourlyMetric::SoilMoisture1To3cm,
            HourlyMetric::SoilMoisture3To9cm,
            HourlyMetric::SoilMoisture9To27cm,
            HourlyMetric::SoilMoisture27To81cm,
        ];
        assert(all@ =~= HourlyMetric::catalog());
        all
    }

    fn raw_value(self) -> (raw: &'static str) {
        match self {
            HourlyMetric::Rain => "rain",
            HourlyMetric::Showers => "showers",
            HourlyMetric::Snowfall => "snowfall",
            HourlyMetric::SnowDepth => "snow_depth",
            HourlyMetric::SeaLevelPressure => "pressure_msl",
            HourlyMetric::SurfacePressure => "surface_pressure",
            HourlyMetric::WindGusts => "wind_gusts_10m",
            HourlyMetric::CloudCoverLow => "cloud_cover_low",
            HourlyMetric::CloudCoverMid => "cloud_cover_mid",
            HourlyMetric::CloudCoverHigh => "cloud_cover_high",
            HourlyMetric::WetBulbTemperature => "wet_bulb_temperature_2m",
            HourlyMetric::SunshineDuration => "sunshine_duration",
            HourlyMetric::UVIndexClearSky => "uv_index_clear_sky",
            HourlyMetric::FreezingLevelHeight => "freezing_level_height",
            HourlyMetric::Cape => "cape",
            HourlyMetric::VaporPressureDeficit => "vapour_pressure_deficit",
            HourlyMetric::Evapotranspiration => "evapotranspiration",
            HourlyMetric::ReferenceEvapotranspiration => "et0_fao_evapotranspiration",
            HourlyMetric::ShortwaveRadiation => "shortwave_radiation",
            HourlyMetric::DirectRadiation => "direct_radiation",
            HourlyMetric::DiffuseRadiation => "diffuse_radiation",
            HourlyMetric::DirectNormalIrradiance => "direct_normal_irradiance",
            HourlyMetric::SoilTemperature0cm => "soil_temperature_0cm",
            HourlyMetric::SoilTemperature6cm => "soil_temperature_6cm",
            HourlyMetric::SoilTemperature18cm => "soil_temperature_18cm",
            HourlyMetric::SoilTemperature54cm => "soil_temperature_54cm",
            HourlyMetric::SoilMoisture0To1cm => "soil_moisture_0_to_1cm",
            HourlyMetric::SoilMoisture1To3cm => "soil_moisture_1_to_3cm",
            HourlyMetric::SoilMoisture3To9cm => "soil_moisture_3_to_9cm",
            HourlyMetric::SoilMoisture9To27cm => "soil_moisture_9_to_27cm",
            HourlyMetric::SoilMoisture27To81cm => "soil_moisture_27_to_81cm",
        }
    }

    fn is_length(self) -> (length: bool) {
        match self {
            HourlyMetric::SnowDepth | HourlyMetric::FreezingLevelHeight => true,
            _ => false,
        }
    }

    fn is(self, other: HourlyMetric) -> (same: bool) {
        self == other
    }
}

/// Extra daily summaries, in units matching the forecast's unit selection.
#[derive(Copy, Clone, Debug, PartialEq, Eq, Hash, Structural)]
pub enum DailyMetric {
    RainSum,
    ShowersSum,
    SnowfallSum,
    PrecipitationHours,
    DaylightDuration,
    SunshineDuration,
    WindDirectionDominant,
    ShortwaveRadiationSum,
    ReferenceEvapotranspiration,
    UVIndexClearSkyMax,
    TemperatureMean,
    ApparentTemperatureMean,
    HumidityMean,
    HumidityMin,
    HumidityMax,
    DewPointMean,
    CloudCoverMean,
    PressureMean,
    SurfacePressureMean,
    VisibilityMean,
    VisibilityMin,
    CapeMax,
    WetBulbTemperatureMean,
    VaporPressureDeficitMax,
    MoonPhase,
}

impl WeatherMetric for DailyMetric {
    open spec fn parameter(self) -> Seq<char> {
        match self {
            DailyMetric::RainSum => "rain_sum"@,
            DailyMetric::ShowersSum => "showers_sum"@,
            DailyMetric::SnowfallSum => "snowfall_sum"@,
            DailyMetric::PrecipitationHours => "precipitation_hours"@,
            DailyMetric::DaylightDuration => "daylight_duration"@,
            DailyMetric::SunshineDuration => "sunshine_duration"@,
            DailyMetric::WindDirectionDominant => "wind_direction_10m_dominant"@,
            DailyMetric::ShortwaveRadiationSum => "shortwave_radiation_sum"@,
            DailyMetric::ReferenceEvapotranspiration => "et0_fao_evapotranspiration"@,
            DailyMetric::UVIndexClearSkyMax => "uv_index_clear_sky_max"@,
            DailyMetric::TemperatureMean => "temperature_2m_mean"@,
            DailyMetric::ApparentTemperatureMean => "apparent_temperature_mean"@,
            DailyMetric::HumidityMean => "relative_humidity_2m_mean"@,
            DailyMetric::HumidityMin => "relative_humidity_2m_min"@,
            DailyMetric::HumidityMax => "relative_humidity_2m_max"@,
            DailyMetric::DewPointMean => "dew_point_2m_mean"@,
            DailyMetric::CloudCoverMean => "cloud_cover_mean"@,
            DailyMetric::PressureMean => "pressure_msl_mean"@,
            DailyMetric::SurfacePressureMean => "surface_pressure_mean"@,
            DailyMetric::VisibilityMean => "visibility_mean"@,
            DailyMetric::VisibilityMin => "visibility_min"@,
            DailyMetric::CapeMax => "cape_max"@,
            DailyMetric::WetBulbTemperatureMean => "wet_bulb_temperature_2m_mean"@,
            DailyMetric::VaporPressureDeficitMax => "vapour_pressure_deficit_max"@,
            DailyMetric::MoonPhase => "moon_phase"@,
        }
    }

    open spec fn measures_length(self) -> bool {
        self == DailyMetric::VisibilityMean || self == DailyMetric::VisibilityMin
    }

    open spec fn catalog() -> Seq<Self> {
        seq![
            DailyMetric::RainSum,
            DailyMetric::ShowersSum,
            DailyMetric::SnowfallSum,
            DailyMetric::PrecipitationHours,
            DailyMetric::DaylightDuration,
            DailyMetric::SunshineDuration,
            DailyMetric::WindDirectionDominant,
            DailyMetric::ShortwaveRadiationSum,
            DailyMetric::ReferenceEvapotranspiration,
            DailyMetric::UVIndexClearSkyMax,
            DailyMetric::TemperatureMean,
            DailyMetric::ApparentTemperatureMean,
            DailyMetric::HumidityMean,
            DailyMetric::HumidityMin,
            DailyMetric::HumidityMax,
            DailyMetric::DewPointMean,
            DailyMetric::CloudCoverMean,
            DailyMetric::PressureMean,
            DailyMetric::SurfacePressureMean,
            DailyMetric::VisibilityMean,
            DailyMetric::VisibilityMin,
            DailyMetric::CapeMax,
            DailyMetric::WetBulbTemperatureMean,
            DailyMetric::VaporPressureDeficitMax,
            DailyMetric::MoonPhase,
        ]
    }

    fn all() -> (all: Vec<Self>) {
        let all = vec![
            DailyMetric::RainSum,
            DailyMetric::ShowersSum,
            DailyMetric::SnowfallSum,
            DailyMetric::PrecipitationHours,
            DailyMetric::DaylightDuration,
            DailyMetric::SunshineDuration,
            DailyMetric::WindDirectionDominant,
            DailyMetric::ShortwaveRadiationSum,
            DailyMetric::ReferenceEvapotranspiration,
            DailyMetric::UVIndexClearSkyMax,
            DailyMetric::TemperatureMean,
            DailyMetric::ApparentTemperatureMean,
            DailyMetric::HumidityMean,
            DailyMetric::HumidityMin,
            DailyMetric::HumidityMax,
            DailyMetric::DewPointMean,
            DailyMetric::CloudCoverMean,
            DailyMetric::PressureMean,
            DailyMetric::SurfacePressureMean,
            DailyMetric::VisibilityMean,
            DailyMetric::VisibilityMin,
            DailyMetric::CapeMax,
            DailyMetric::WetBulbTemperatureMean,
            DailyMetric::VaporPressureDeficitMax,
            DailyMetric::MoonPhase,
        ];
        assert(all@ =~= DailyMetric::catalog());
        all
    }

    fn raw_value(self) -> (raw: &'static str) {
        match self {
            DailyMetric::RainSum => "rain_sum",
            DailyMetric::ShowersSum => "showers_sum",
            DailyMetric::SnowfallSum => "snowfall_sum",
            DailyMetric::PrecipitationHours => "precipitation_hours",
            DailyMetric::DaylightDuration => "daylight_duration",
            DailyMetric::SunshineDuration => "sunshine_duration",
            DailyMetric::WindDirectionDominant => "wind_direction_10m_dominant",
            DailyMetric::ShortwaveRadiationSum => "shortwave_radiation_sum",
            DailyMetric::ReferenceEvapotranspiration => "et0_fao_evapotranspiration",
            DailyMetric::UVIndexClearSkyMax => "uv_index_clear_sky_max",
            DailyMetric::TemperatureMean => "temperature_2m_mean",
            DailyMetric::ApparentTemperatureMean => "apparent_temperature_mean",
            DailyMetric::HumidityMean => "relative_humidity_2m_mean",
            DailyMetric::HumidityMin => "relative_humidity_2m_min",
            DailyMetric::HumidityMax => "relative_humidity_2m_max",
            DailyMetric::DewPointMean => "dew_point_2m_mean",
            DailyMetric::CloudCoverMean => "cloud_cover_mean",
            DailyMetric::PressureMean => "pressure_msl_mean",
            DailyMetric::SurfacePressureMean => "surface_pressure_mean",
            DailyMetric::VisibilityMean => "visibility_mean",
            DailyMetric::VisibilityMin => "visibility_min",
            DailyMetric::CapeMax => "cape_max",
            DailyMetric::WetBulbTemperatureMean => "wet_bulb_temperature_2m_mean",
            DailyMetric::VaporPressureDeficitMax => "vapour_pressure_deficit_max",
            DailyMetric::MoonPhase => "moon_phase",
        }
    }

    fn is_length(self) -> (length: bool) {
        match self {
            DailyMetric::VisibilityMean | DailyMetric::VisibilityMin => true,
            _ => false,
        }
    }

    fn is(self, other: DailyMetric) -> (same: bool) {
        self == other
    }
}

/// No two hourly metrics ask for the same parameter, so none can shadow
/// another in the response.
pub proof fn no_two_hourly_metrics_share_a_parameter(a: HourlyMetric, b: HourlyMetric)
    ensures
        a.parameter() == b.parameter() ==> a == b,
{
    reveal_strlit("rain");
    reveal_strlit("showers");
    reveal_strlit("snowfall");
    reveal_strlit("snow_depth");
    reveal_strlit("pressure_msl");
    reveal_strlit("surface_pressure");
    reveal_strlit("wind_gusts_10m");
    reveal_strlit("cloud_cover_low");
    reveal_strlit("cloud_cover_mid");
    reveal_strlit("cloud_cover_high");
    reveal_strlit("wet_bulb_temperature_2m");
    reveal_strlit("sunshine_duration");
    reveal_strlit("uv_index_clear_sky");
    reveal_strlit("freezing_level_height");
    reveal_strlit("cape");
    reveal_strlit("vapour_pressure_deficit");
    reveal_strlit("evapotranspiration");
    reveal_strlit("et0_fao_evapotranspiration");
    reveal_strlit("shortwave_radiation");
    reveal_strlit("direct_radiation");
    reveal_strlit("diffuse_radiation");
    reveal_strlit("direct_normal_irradiance");
    reveal_strlit("soil_temperature_0cm");
    reveal_strlit("soil_temperature_6cm");
    reveal_strlit("soil_temperature_18cm");
    reveal_strlit("soil_temperature_54cm");
    reveal_strlit("soil_moisture_0_to_1cm");
    reveal_strlit("soil_moisture_1_to_3cm");
    reveal_strlit("soil_moisture_3_to_9cm");
    reveal_strlit("soil_moisture_9_to_27cm");
    reveal_strlit("soil_moisture_27_to_81cm");
    if a.parameter() == b.parameter() {
        assert(a.parameter().len() == b.parameter().len());
        assert(a.parameter()[0] == b.parameter()[0]);
        assert(a.parameter()[14] == b.parameter()[14]);
        assert(a.parameter()[17] == b.parameter()[17]);
    }
}

/// No two daily metrics ask for the same parameter, so none can shadow
/// another in the response.
pub proof fn no_two_daily_metrics_share_a_parameter(a: DailyMetric, b: DailyMetric)
    ensures
        a.parameter() == b.parameter() ==> a == b,
{
    reveal_strlit("rain_sum");
    reveal_strlit("showers_sum");
    reveal_strlit("snowfall_sum");
    reveal_strlit("precipitation_hours");
    reveal_strlit("daylight_duration");
    reveal_strlit("sunshine_duration");
    reveal_strlit("wind_direction_10m_dominant");
    reveal_strlit("shortwave_radiation_sum");
    reveal_strlit("et0_fao_evapotranspiration");
    reveal_strlit("uv_index_clear_sky_max");
    reveal_strlit("temperature_2m_mean");
    reveal_strlit("apparent_temperature_mean");
    reveal_strlit("relative_humidity_2m_mean");
    reveal_strlit("relative_humidity_2m_min");
    reveal_strlit("relative_humidity_2m_max");
    reveal_strlit("dew_point_2m_mean");
    reveal_strlit("cloud_cover_mean");
    reveal_strlit("pressure_msl_mean");
    reveal_strlit("surface_pressure_mean");
    reveal_strlit("visibility_mean");
    reveal_strlit("visibility_min");
    reveal_strlit("cape_max");
    reveal_strlit("wet_bulb_temperature_2m_mean");
    reveal_strlit("vapour_pressure_deficit_max");
    reveal_strlit("moon_phase");
    if a.parameter() == b.parameter() {
        assert(a.parameter().len() == b.parameter().len());
        assert(a.parameter()[2] == b.parameter()[2]);
        assert(a.parameter()[22] == b.parameter()[22]);
    }
}

// ---------------------------------------------------------------------------
// The request
// ---------------------------------------------------------------------------

/// Parts joined by commas.
pub open spec fn comma_joined(parts: Seq<Seq<char>>) -> Seq<char>
    decreases parts.len(),
{
    if parts.len() <= 1 {
        if parts.len() == 1 { parts[0] } else { Seq::empty() }
    } else {
        comma_joined(parts.drop_last()) + ","@ + parts.last()
    }
}

/// The hourly fields the panel reads directly, before the metric catalog.
pub open spec fn hourly_base_fields() -> Seq<Seq<char>> {
    seq![
        "temperature_2m"@,
        "apparent_temperature"@,
        "precipitation_probability"@,
        "precipitation"@,
        "weather_code"@,
        "wind_speed_10m"@,
        "wind_direction_10m"@,
        "uv_index"@,
        "is_day"@,
        "relative_humidity_2m"@,
        "dew_point_2m"@,
        "visibility"@,
        "cloud_cover"@,
    ]
}

/// The daily fields the panel reads directly, before the metric catalog.
pub open spec fn daily_base_fields() -> Seq<Seq<char>> {
    seq![
        "weather_code"@,
        "temperature_2m_max"@,
        "temperature_2m_min"@,
        "apparent_temperature_max"@,
        "apparent_temperature_min"@,
        "sunrise"@,
        "sunset"@,
        "uv_index_max"@,
        "precipitation_sum"@,
        "precipitation_probability_max"@,
        "wind_speed_10m_max"@,
        "wind_gusts_10m_max"@,
    ]
}

/// The parameter names of a catalog, in its order.
pub open spec fn parameters<M: WeatherMetric>(metrics: Seq<M>) -> Seq<Seq<char>> {
    metrics.map_values(|m: M| m.parameter())
}

/// The hourly parameter of a request: the base fields, then the catalog.
pub open spec fn hourly_request() -> Seq<Seq<char>> {
    hourly_base_fields() + parameters(HourlyMetric::catalog())
}

/// The daily parameter of a request: the base fields, the catalog, then
/// the lunar events, which are times rather than metrics.
pub open spec fn daily_request() -> Seq<Seq<char>> {
    daily_base_fields() + parameters(DailyMetric::catalog()) + seq!["moonrise"@, "moonset"@]
}

fn hourly_base() -> (fields: Vec<&'static str>)
    ensures
        fields@.map_values(|f: &'static str| f@) == hourly_base_fields(),
{
    let fields = vec![
        "temperature_2m",
        "apparent_temperature",
        "precipitation_probability",
        "precipitation",
        "weather_code",
        "wind_speed_10m",
        "wind_direction_10m",
        "uv_index",
        "is_day",
        "relative_humidity_2m",
        "dew_point_2m",
        "visibility",
        "cloud_cover",
    ];
    assert(fields@.map_values(|f: &'static str| f@) =~= hourly_base_fields());
    fields
}

fn daily_base() -> (fields: Vec<&'static str>)
    ensures
        fields@.map_values(|f: &'static str| f@) == daily_base_fields(),
{
    let fields = vec![
        "weather_code",
        "temperature_2m_max",
        "temperature_2m_min",
        "apparent_temperature_max",
        "apparent_temperature_min",
        "sunrise",
        "sunset",
        "uv_index_max",
        "precipitation_sum",
        "precipitation_probability_max",
        "wind_speed_10m_max",
        "wind_gusts_10m_max",
    ];
    assert(fields@.map_values(|f: &'static str| f@) =~= daily_base_fields());
    fields
}

proof fn lemma_comma_joined_push(parts: Seq<Seq<char>>, part: Seq<char>)
    requires
        parts.len() >= 1,
    ensures
        comma_joined(parts.push(part)) == comma_joined(parts) + ","@ + part,
{
    assert(parts.push(part).drop_last() =~= parts);
}

/// Appends names to a comma-joined list that already holds some.
fn append_fields(out: &mut String, names: &Vec<&'static str>, Ghost(done): Ghost<Seq<Seq<char>>>)
    requires
        done.len() >= 1,
        old(out)@ == comma_joined(done),
    ensures
        final(out)@ == comma_joined(done + names@.map_values(|f: &'static str| f@)),
{
    let ghost added = names@.map_values(|f: &'static str| f@);
    let mut k: usize = 0;
    while k < names.len()
        invariant
            k <= names@.len(),
            done.len() >= 1,
            added == names@.map_values(|f: &'static str| f@),
            out@ == comma_joined(done + added.subrange(0, k as int)),
        decreases names@.len() - k,
    {
        proof {
            reveal_strlit(",");
            lemma_comma_joined_push(done + added.subrange(0, k as int), added[k as int]);
            assert(done + added.subrange(0, k + 1) =~= (done + added.subrange(0, k as int)).push(
                added[k as int],
            ));
        }
        out.append(",");
        out.append(names[k]);
        k += 1;
    }
    assert(added.subrange(0, k as int) =~= added);
}

/// Starts a comma-joined list with its first name, then the rest.
fn join_fields(names: &Vec<&'static str>) -> (joined: String)
    requires
        names@.len() >= 1,
    ensures
        joined@ == comma_joined(names@.map_values(|f: &'static str| f@)),
{
    let mut out = String::new();
    out.append(names[0]);
    let ghost first = seq![names@[0]@];
    assert(out@ == comma_joined(first));
    let mut rest: Vec<&'static str> = Vec::new();
    let mut k: usize = 1;
    while k < names.len()
        invariant
            1 <= k <= names@.len(),
            rest@ == names@.subrange(1, k as int),
        decreases names@.len() - k,
    {
        rest.push(names[k]);
        k += 1;
    }
    append_fields(&mut out, &rest, Ghost(first));
    assert(first + rest@.map_values(|f: &'static str| f@) =~= names@.map_values(
        |f: &'static str| f@,
    ));
    out
}

/// The raw values of a catalog, in its order.
fn raw_values<M: WeatherMetric>(metrics: &Vec<M>) -> (names: Vec<&'static str>)
    ensures
        names@.map_values(|f: &'static str| f@) == parameters(metrics@),
{
    let mut names: Vec<&'static str> = Vec::new();
    let mut k: usize = 0;
    while k < metrics.len()
        invariant
            k <= metrics@.len(),
            names@.len() == k,
            forall|i: int| 0 <= i < k ==> #[trigger] names@[i]@ == metrics@[i].parameter(),
        decreases metrics@.len() - k,
    {
        names.push(metrics[k].raw_value());
        k += 1;
    }
    assert(names@.map_values(|f: &'static str| f@) =~= parameters(metrics@));
    names
}

/// The hourly parameter: base fields, then the whole metric catalog.
pub fn hourly_fields() -> (fields: String)
    ensures
        fields@ == comma_joined(hourly_request()),
{
    let base = hourly_base();
    let mut fields = join_fields(&base);
    let catalog = raw_values(&HourlyMetric::all());
    append_fields(&mut fields, &catalog, Ghost(hourly_base_fields()));
    fields
}

/// The daily parameter: base fields, the catalog, then the lunar events.
pub fn daily_fields() -> (fields: String)
    ensures
        fields@ == comma_joined(daily_request()),
{
    let base = daily_base();
    let mut fields = join_fields(&base);
    let catalog = raw_values(&DailyMetric::all());
    append_fields(&mut fields, &catalog, Ghost(daily_base_fields()));
    let events = vec!["moonrise", "moonset"];
    append_fields(&mut fields, &events, Ghost(daily_base_fields() + parameters(DailyMetric::catalog())));
    proof {
        assert(events@.map_values(|f: &'static str| f@) =~= seq!["moonrise"@, "moonset"@]);
    }
    fields
}

// ---------------------------------------------------------------------------
// Reading a forecast answer
// ---------------------------------------------------------------------------

/// Whether the answer says a variable arrived in feet. Open-Meteo reports
/// lengths in feet when asked for imperial units, and the panel works in
/// meters, so the units block is read rather than assumed.
pub open spec fn unit_is_feet(units: Option<Json>, key: Seq<char>) -> bool {
    match units {
        Some(u) => u.text_at(key) == Some("ft"@),
        None => false,
    }
}

fn in_feet(units: Option<&Json>, key: &str) -> (feet: bool)
    ensures
        feet == unit_is_feet(
            match units {
                Some(u) => Some(*u),
                None => None,
            },
            key@,
        ),
{
    match units {
        Some(u) => match text_at(u, key) {
            Some(unit) => same_text(unit.as_str(), "ft"),
            None => false,
        },
        None => false,
    }
}

/// The wall clock at a place in a list, when it is text that reads as one.
pub open spec fn time_in(items: Seq<Json>, index: int) -> Option<LocalTime> {
    match text_in(items, index) {
        Some(t) => LocalTime::spec_parse(t),
        None => None,
    }
}

/// The date at a place in a list, when it is text that reads as one.
pub open spec fn date_in(items: Seq<Json>, index: int) -> Option<LocalDate> {
    match text_in(items, index) {
        Some(t) => LocalDate::spec_parse(t),
        None => None,
    }
}

/// The flag at a place in a list: a number that is not zero is set.
pub open spec fn flag_in(items: Seq<Json>, index: int) -> Option<bool> {
    match number_in(items, index) {
        Some(n) => Some(!n.reads_as_zero()),
        None => None,
    }
}

fn time_of(items: &[Json], index: usize) -> (time: Option<LocalTime>)
    ensures
        time == time_in(items@, index as int),
{
    match text_of(items, index) {
        Some(t) => LocalTime::parse(t),
        None => None,
    }
}

fn date_of(items: &[Json], index: usize) -> (date: Option<LocalDate>)
    ensures
        date == date_in(items@, index as int),
{
    match text_of(items, index) {
        Some(t) => LocalDate::parse(t),
        None => None,
    }
}

fn flag_of(items: &[Json], index: usize) -> (flag: Option<bool>)
    ensures
        flag == flag_in(items@, index as int),
{
    match number_of(items, index) {
        Some(n) => Some(!n.is_zero()),
        None => None,
    }
}

/// The places in a list of timestamps that read as wall clocks, with the
/// clock each reads as, in order. An hour whose timestamp cannot be read
/// has nowhere to be shown and no day to belong to.
pub open spec fn readable_times(times: Seq<Json>) -> Seq<(int, LocalTime)>
    decreases times.len(),
{
    if times.len() == 0 {
        Seq::empty()
    } else {
        let before = readable_times(times.drop_last());
        match time_in(times, times.len() - 1) {
            Some(time) => before.push((times.len() - 1, time)),
            None => before,
        }
    }
}

/// The places in a list of dates that read as dates, with the date each
/// reads as, in order.
pub open spec fn readable_dates(dates: Seq<Json>) -> Seq<(int, LocalDate)>
    decreases dates.len(),
{
    if dates.len() == 0 {
        Seq::empty()
    } else {
        let before = readable_dates(dates.drop_last());
        match date_in(dates, dates.len() - 1) {
            Some(date) => before.push((dates.len() - 1, date)),
            None => before,
        }
    }
}

/// The metrics one forecast point came back with: each as the answer gave
/// it, and whether it came in feet.
#[derive(Clone, Debug, PartialEq)]
pub struct MetricValues<M: WeatherMetric> {
    pub values: Vec<(M, JsonNumber, bool)>,
}

/// The first figure a list holds for a metric, with whether it came in
/// feet.
pub open spec fn figure_of<M: WeatherMetric>(values: Seq<(M, JsonNumber, bool)>, metric: M) -> Option<(JsonNumber, bool)>
    decreases values.len(),
{
    if values.len() == 0 {
        None
    } else if values[0].0 == metric {
        Some((values[0].1, values[0].2))
    } else {
        figure_of(values.drop_first(), metric)
    }
}

impl<M: WeatherMetric> MetricValues<M> {
    /// The figure for a metric, with whether it came in feet, or none if
    /// the point did not come back with it.
    pub fn get(&self, metric: M) -> (found: Option<(JsonNumber, bool)>)
        ensures
            found == figure_of(self.values@, metric),
    {
        let mut i: usize = 0;
        assert(self.values@.subrange(0, self.values@.len() as int) =~= self.values@);
        while i < self.values.len()
            invariant
                i <= self.values@.len(),
                figure_of(self.values@, metric) == figure_of(
                    self.values@.subrange(i as int, self.values@.len() as int),
                    metric,
                ),
            decreases self.values@.len() - i,
        {
            let ghost rest = self.values@.subrange(i as int, self.values@.len() as int);
            assert(rest.drop_first() =~= self.values@.subrange(i + 1, self.values@.len() as int));
            assert(rest[0] == self.values@[i as int]);
            let (held, number, feet) = &self.values[i];
            if held.is(metric) {
                return Some((number.duplicate(), *feet));
            }
            i += 1;
        }
        None
    }

    /// Whether the point came back with no metric at all.
    pub fn is_empty(&self) -> (empty: bool)
        ensures
            empty == (self.values@.len() == 0),
    {
        self.values.len() == 0
    }
}

/// The figures of the first metrics of a list that a block carries at a
/// place: a series the answer left out, a null, or a series too short is
/// simply no figure, and costs nothing else.
pub open spec fn metric_figures<M: WeatherMetric>(
    block: Json,
    units: Option<Json>,
    index: int,
    metrics: Seq<M>,
) -> Seq<(M, JsonNumber, bool)>
    decreases metrics.len(),
{
    if metrics.len() == 0 {
        Seq::empty()
    } else {
        let before = metric_figures(block, units, index, metrics.drop_last());
        let metric = metrics.last();
        match number_in(block.items_at(metric.parameter()), index) {
            Some(n) => before.push(
                (metric, n, metric.measures_length() && unit_is_feet(units, metric.parameter())),
            ),
            None => before,
        }
    }
}

/// One forecast point's metrics, in the catalog's order.
fn metric_values<M: WeatherMetric>(block: &Json, units: Option<&Json>, index: usize) -> (values: MetricValues<M>)
    ensures
        values.values@ == metric_figures(
            *block,
            match units {
                Some(u) => Some(*u),
                None => None,
            },
            index as int,
            M::catalog(),
        ),
{
    let ghost unit_block = match units {
        Some(u) => Some(*u),
        None => None,
    };
    let all = M::all();
    let mut values: Vec<(M, JsonNumber, bool)> = Vec::new();
    let mut k: usize = 0;
    while k < all.len()
        invariant
            k <= all@.len(),
            values@ == metric_figures(*block, unit_block, index as int, all@.subrange(0, k as int)),
            unit_block == match units {
                Some(u) => Some(*u),
                None => None::<Json>,
            },
        decreases all@.len() - k,
    {
        proof {
            let upto = all@.subrange(0, k + 1);
            assert(upto.drop_last() =~= all@.subrange(0, k as int));
            assert(upto.last() == all@[k as int]);
        }
        let metric = all[k];
        let items = items_at(block, metric.raw_value());
        match number_of(items, index) {
            Some(n) => {
                let feet = metric.is_length() && in_feet(units, metric.raw_value());
                values.push((metric, n, feet));
            },
            None => {},
        }
        k += 1;
    }
    assert(all@.subrange(0, k as int) =~= all@);
    MetricValues { values }
}

/// One hourly forecast point, each figure as the answer gave it.
#[derive(Clone, Debug, PartialEq)]
pub struct HourlyPoint {
    pub time: LocalTime,
    pub temperature: Option<JsonNumber>,
    pub apparent_temperature: Option<JsonNumber>,
    pub precipitation_probability: Option<JsonNumber>,
    pub precipitation: Option<JsonNumber>,
    pub weather_code: Option<JsonNumber>,
    pub wind_speed: Option<JsonNumber>,
    pub wind_direction: Option<JsonNumber>,
    pub uv_index: Option<JsonNumber>,
    pub is_day: Option<bool>,
    pub humidity: Option<JsonNumber>,
    pub dew_point: Option<JsonNumber>,
    pub visibility: Option<JsonNumber>,
    /// Whether the visibility came in feet rather than meters.
    pub visibility_in_feet: bool,
    pub cloud_cover: Option<JsonNumber>,
    pub details: MetricValues<HourlyMetric>,
}

/// Whether a point holds, for one place in an hourly block, what the block
/// has there: each series' figure at that place, or none.
pub open spec fn reads_hour(block: Json, units: Option<Json>, index: int, time: LocalTime, point: HourlyPoint) -> bool {
    &&& point.time == time
    &&& point.temperature == number_in(block.items_at("temperature_2m"@), index)
    &&& point.apparent_temperature == number_in(block.items_at("apparent_temperature"@), index)
    &&& point.precipitation_probability == number_in(block.items_at("precipitation_probability"@), index)
    &&& point.precipitation == number_in(block.items_at("precipitation"@), index)
    &&& point.weather_code == number_in(block.items_at("weather_code"@), index)
    &&& point.wind_speed == number_in(block.items_at("wind_speed_10m"@), index)
    &&& point.wind_direction == number_in(block.items_at("wind_direction_10m"@), index)
    &&& point.uv_index == number_in(block.items_at("uv_index"@), index)
    &&& point.is_day == flag_in(block.items_at("is_day"@), index)
    &&& point.humidity == number_in(block.items_at("relative_humidity_2m"@), index)
    &&& point.dew_point == number_in(block.items_at("dew_point_2m"@), index)
    &&& point.visibility == number_in(block.items_at("visibility"@), index)
    &&& point.visibility_in_feet == unit_is_feet(units, "visibility"@)
    &&& point.cloud_cover == number_in(block.items_at("cloud_cover"@), index)
    &&& point.details.values@ == metric_figures(block, units, index, <HourlyMetric as WeatherMetric>::catalog())
}

fn hourly_point(block: &Json, units: Option<&Json>, index: usize, time: LocalTime) -> (point: HourlyPoint)
    ensures
        reads_hour(
            *block,
            match units {
                Some(u) => Some(*u),
                None => None,
            },
            index as int,
            time,
            point,
        ),
{
    HourlyPoint {
        time,
        temperature: number_of(items_at(block, "temperature_2m"), index),
        apparent_temperature: number_of(items_at(block, "apparent_temperature"), index),
        precipitation_probability: number_of(items_at(block, "precipitation_probability"), index),
        precipitation: number_of(items_at(block, "precipitation"), index),
        weather_code: number_of(items_at(block, "weather_code"), index),
        wind_speed: number_of(items_at(block, "wind_speed_10m"), index),
        wind_direction: number_of(items_at(block, "wind_direction_10m"), index),
        uv_index: number_of(items_at(block, "uv_index"), index),
        is_day: flag_of(items_at(block, "is_day"), index),
        humidity: number_of(items_at(block, "relative_humidity_2m"), index),
        dew_point: number_of(items_at(block, "dew_point_2m"), index),
        visibility: number_of(items_at(block, "visibility"), index),
        visibility_in_feet: in_feet(units, "visibility"),
        cloud_cover: number_of(items_at(block, "cloud_cover"), index),
        details: metric_values(block, units, index),
    }
}

/// Whether points are an hourly block read: one for each timestamp that
/// reads as a wall clock, in the block's order.
pub open spec fn reads_hours(block: Json, units: Option<Json>, points: Seq<HourlyPoint>) -> bool {
    let readable = readable_times(block.items_at("time"@));
    &&& points.len() == readable.len()
    &&& forall|j: int|
        0 <= j < points.len() ==> reads_hour(block, units, readable[j].0, readable[j].1, #[trigger] points[j])
}

/// The hours of an hourly block. Every series is optional: one the
/// provider left out is an absent figure on every hour and everything else
/// survives.
pub fn parse_hourly(block: &Json, units: Option<&Json>) -> (points: Vec<HourlyPoint>)
    ensures
        reads_hours(
            *block,
            match units {
                Some(u) => Some(*u),
                None => None,
            },
            points@,
        ),
{
    let ghost unit_block = match units {
        Some(u) => Some(*u),
        None => None,
    };
    let times = items_at(block, "time");
    let mut points: Vec<HourlyPoint> = Vec::new();
    let mut index: usize = 0;
    while index < times.len()
        invariant
            index <= times@.len(),
            times@ == block.items_at("time"@),
            unit_block == match units {
                Some(u) => Some(*u),
                None => None::<Json>,
            },
            points@.len() == readable_times(times@.subrange(0, index as int)).len(),
            forall|j: int|
                0 <= j < points@.len() ==> reads_hour(
                    *block,
                    unit_block,
                    readable_times(times@.subrange(0, index as int))[j].0,
                    readable_times(times@.subrange(0, index as int))[j].1,
                    #[trigger] points@[j],
                ),
        decreases times@.len() - index,
    {
        let ghost before = readable_times(times@.subrange(0, index as int));
        proof {
            let upto = times@.subrange(0, index + 1);
            assert(upto.drop_last() =~= times@.subrange(0, index as int));
            assert(text_in(upto, index as int) == text_in(times@, index as int));
        }
        match time_of(times, index) {
            Some(time) => {
                let point = hourly_point(block, units, index, time);
                points.push(point);
                proof {
                    let after = readable_times(times@.subrange(0, index + 1));
                    assert(after == before.push((index as int, time)));
                    assert forall|j: int| 0 <= j < points@.len() implies reads_hour(
                        *block,
                        unit_block,
                        after[j].0,
                        after[j].1,
                        #[trigger] points@[j],
                    ) by {
                        if j < before.len() {
                            assert(after[j] == before[j]);
                        }
                    }
                }
            },
            None => {},
        }
        index += 1;
    }
    assert(times@.subrange(0, index as int) =~= times@);
    points
}

/// One daily forecast point, each figure as the answer gave it.
#[derive(Clone, Debug, PartialEq)]
pub struct DailyPoint {
    pub date: LocalDate,
    pub weather_code: Option<JsonNumber>,
    pub high: Option<JsonNumber>,
    pub low: Option<JsonNumber>,
    pub apparent_high: Option<JsonNumber>,
    pub apparent_low: Option<JsonNumber>,
    pub sunrise: Option<LocalTime>,
    pub sunset: Option<LocalTime>,
    pub uv_index_max: Option<JsonNumber>,
    pub precipitation: Option<JsonNumber>,
    pub precipitation_probability: Option<JsonNumber>,
    pub wind_speed_max: Option<JsonNumber>,
    pub wind_gusts_max: Option<JsonNumber>,
    pub details: MetricValues<DailyMetric>,
    pub moonrise: Option<LocalTime>,
    pub moonset: Option<LocalTime>,
    /// Whether the answer carried the moon's events at all, which tells a
    /// day with no moonrise apart from an answer that never said.
    pub moon_events_available: bool,
}

/// Whether a block's member is an array.
pub open spec fn carries_series(block: Json, key: Seq<char>) -> bool {
    block.member(key) matches Some(Json::Array(_))
}

/// Whether a point holds, for one place in a daily block, what the block
/// has there.
pub open spec fn reads_day(block: Json, units: Option<Json>, index: int, date: LocalDate, point: DailyPoint) -> bool {
    &&& point.date == date
    &&& point.weather_code == number_in(block.items_at("weather_code"@), index)
    &&& point.high == number_in(block.items_at("temperature_2m_max"@), index)
    &&& point.low == number_in(block.items_at("temperature_2m_min"@), index)
    &&& point.apparent_high == number_in(block.items_at("apparent_temperature_max"@), index)
    &&& point.apparent_low == number_in(block.items_at("apparent_temperature_min"@), index)
    &&& point.sunrise == time_in(block.items_at("sunrise"@), index)
    &&& point.sunset == time_in(block.items_at("sunset"@), index)
    &&& point.uv_index_max == number_in(block.items_at("uv_index_max"@), index)
    &&& point.precipitation == number_in(block.items_at("precipitation_sum"@), index)
    &&& point.precipitation_probability == number_in(block.items_at("precipitation_probability_max"@), index)
    &&& point.wind_speed_max == number_in(block.items_at("wind_speed_10m_max"@), index)
    &&& point.wind_gusts_max == number_in(block.items_at("wind_gusts_10m_max"@), index)
    &&& point.details.values@ == metric_figures(block, units, index, <DailyMetric as WeatherMetric>::catalog())
    &&& point.moonrise == time_in(block.items_at("moonrise"@), index)
    &&& point.moonset == time_in(block.items_at("moonset"@), index)
    &&& point.moon_events_available == (carries_series(block, "moonrise"@) && carries_series(block, "moonset"@))
}

fn daily_point(block: &Json, units: Option<&Json>, index: usize, date: LocalDate) -> (point: DailyPoint)
    ensures
        reads_day(
            *block,
            match units {
                Some(u) => Some(*u),
                None => None,
            },
            index as int,
            date,
            point,
        ),
{
    let moonrise = matches!(block.get("moonrise"), Some(Json::Array(_)));
    let moonset = matches!(block.get("moonset"), Some(Json::Array(_)));
    DailyPoint {
        date,
        weather_code: number_of(items_at(block, "weather_code"), index),
        high: number_of(items_at(block, "temperature_2m_max"), index),
        low: number_of(items_at(block, "temperature_2m_min"), index),
        apparent_high: number_of(items_at(block, "apparent_temperature_max"), index),
        apparent_low: number_of(items_at(block, "apparent_temperature_min"), index),
        sunrise: time_of(items_at(block, "sunrise"), index),
        sunset: time_of(items_at(block, "sunset"), index),
        uv_index_max: number_of(items_at(block, "uv_index_max"), index),
        precipitation: number_of(items_at(block, "precipitation_sum"), index),
        precipitation_probability: number_of(items_at(block, "precipitation_probability_max"), index),
        wind_speed_max: number_of(items_at(block, "wind_speed_10m_max"), index),
        wind_gusts_max: number_of(items_at(block, "wind_gusts_10m_max"), index),
        details: metric_values(block, units, index),
        moonrise: time_of(items_at(block, "moonrise"), index),
        moonset: time_of(items_at(block, "moonset"), index),
        moon_events_available: moonrise && moonset,
    }
}

/// Whether points are a daily block read: one for each date that reads as
/// a date, in the block's order.
pub open spec fn reads_days(block: Json, units: Option<Json>, points: Seq<DailyPoint>) -> bool {
    let readable = readable_dates(block.items_at("time"@));
    &&& points.len() == readable.len()
    &&& forall|j: int|
        0 <= j < points.len() ==> reads_day(block, units, readable[j].0, readable[j].1, #[trigger] points[j])
}

/// The days of a daily block.
pub fn parse_daily(block: &Json, units: Option<&Json>) -> (points: Vec<DailyPoint>)
    ensures
        reads_days(
            *block,
            match units {
                Some(u) => Some(*u),
                None => None,
            },
            points@,
        ),
{
    let ghost unit_block = match units {
        Some(u) => Some(*u),
        None => None,
    };
    let dates = items_at(block, "time");
    let mut points: Vec<DailyPoint> = Vec::new();
    let mut index: usize = 0;
    while index < dates.len()
        invariant
            index <= dates@.len(),
            dates@ == block.items_at("time"@),
            unit_block == match units {
                Some(u) => Some(*u),
                None => None::<Json>,
            },
            points@.len() == readable_dates(dates@.subrange(0, index as int)).len(),
            forall|j: int|
                0 <= j < points@.len() ==> reads_day(
                    *block,
                    unit_block,
                    readable_dates(dates@.subrange(0, index as int))[j].0,
                    readable_dates(dates@.subrange(0, index as int))[j].1,
                    #[trigger] points@[j],
                ),
        decreases dates@.len() - index,
    {
        let ghost before = readable_dates(dates@.subrange(0, index as int));
        proof {
            let upto = dates@.subrange(0, index + 1);
            assert(upto.drop_last() =~= dates@.subrange(0, index as int));
            assert(text_in(upto, index as int) == text_in(dates@, index as int));
        }
        match date_of(dates, index) {
            Some(date) => {
                let point = daily_point(block, units, index, date);
                points.push(point);
                proof {
                    let after = readable_dates(dates@.subrange(0, index + 1));
                    assert(after == before.push((index as int, date)));
                    assert forall|j: int| 0 <= j < points@.len() implies reads_day(
                        *block,
                        unit_block,
                        after[j].0,
                        after[j].1,
                        #[trigger] points@[j],
                    ) by {
                        if j < before.len() {
                            assert(after[j] == before[j]);
                        }
                    }
                }
            },
            None => {},
        }
        index += 1;
    }
    assert(dates@.subrange(0, index as int) =~= dates@);
    points
}

/// A multi-day forecast as the answer gave it.
#[derive(Clone, Debug, PartialEq)]
pub struct DetailForecast {
    /// The location's zone identifier, empty when the answer left it out.
    pub time_zone: String,
    /// The zone's offset, zero when the answer left it out, which is the
    /// same fallback to GMT by another route.
    pub utc_offset_seconds: i64,
    pub hourly: Vec<HourlyPoint>,
    pub daily: Vec<DailyPoint>,
}

/// Whether a forecast is what an answer says: its zone and offset, each
/// block read, and no points for a block it left out.
pub open spec fn reads_forecast(root: Json, forecast: DetailForecast) -> bool {
    &&& forecast.time_zone@ == match root.text_at("timezone"@) {
        Some(zone) => zone,
        None => Seq::empty(),
    }
    &&& forecast.utc_offset_seconds == match root.signed_at("utc_offset_seconds"@) {
        Some(offset) => offset,
        None => 0,
    }
    &&& match root.member("hourly"@) {
        Some(block) => reads_hours(block, root.member("hourly_units"@), forecast.hourly@),
        None => forecast.hourly@.len() == 0,
    }
    &&& match root.member("daily"@) {
        Some(block) => reads_days(block, root.member("daily_units"@), forecast.daily@),
        None => forecast.daily@.len() == 0,
    }
}

/// What reading an answer comes to: malformed without either forecast
/// block, and otherwise the forecast it says.
pub open spec fn forecast_outcome(root: Json, outcome: Result<DetailForecast, WeatherError>) -> bool {
    if root.member("hourly"@) is None && root.member("daily"@) is None {
        outcome matches Err(e) && malformed_with(e, "no forecast blocks"@)
    } else {
        outcome matches Ok(forecast) && reads_forecast(root, forecast)
    }
}

/// The forecast in an answer.
pub fn forecast_from(root: &Json) -> (forecast: Result<DetailForecast, WeatherError>)
    ensures
        forecast_outcome(*root, forecast),
{
    let hourly_block = root.get("hourly");
    let daily_block = root.get("daily");
    if hourly_block.is_none() && daily_block.is_none() {
        return Err(WeatherError::Malformed("no forecast blocks".to_string()));
    }
    let time_zone = match text_at(root, "timezone") {
        Some(zone) => zone,
        None => String::new(),
    };
    let utc_offset_seconds = match signed_at(root, "utc_offset_seconds") {
        Some(offset) => offset,
        None => 0,
    };
    let hourly = match hourly_block {
        Some(block) => parse_hourly(block, root.get("hourly_units")),
        None => Vec::new(),
    };
    let daily = match daily_block {
        Some(block) => parse_daily(block, root.get("daily_units")),
        None => Vec::new(),
    };
    Ok(DetailForecast { time_zone, utc_offset_seconds, hourly, daily })
}

/// Reads a forecast answer: an error when the text is not JSON or carries
/// neither block, and otherwise what it says.
pub fn parse_detail(body: &str) -> (forecast: Result<DetailForecast, WeatherError>)
    ensures
        match parsed_json(body@) {
            Some(root) => forecast_outcome(root, forecast),
            None => forecast matches Err(e) && e is Malformed,
        },
{
    match parse_json(body) {
        Ok(root) => forecast_from(&root),
        Err(e) => Err(WeatherError::Malformed(error_text(&e))),
    }
}

proof fn lemma_metric_figures_read_their_parameters<M: WeatherMetric>(
    a: Json,
    b: Json,
    units: Option<Json>,
    index: int,
    metrics: Seq<M>,
)
    requires
        forall|j: int|
            0 <= j < metrics.len() ==> a.member((#[trigger] metrics[j]).parameter()) == b.member(
                metrics[j].parameter(),
            ),
    ensures
        metric_figures(a, units, index, metrics) == metric_figures(b, units, index, metrics),
    decreases metrics.len(),
{
    if metrics.len() > 0 {
        let rest = metrics.drop_last();
        assert forall|j: int| 0 <= j < rest.len() implies a.member((#[trigger] rest[j]).parameter()) == b.member(
            rest[j].parameter(),
        ) by {
            assert(rest[j] == metrics[j]);
        }
        lemma_metric_figures_read_their_parameters(a, b, units, index, rest);
        assert(a.member(metrics[metrics.len() - 1].parameter()) == b.member(metrics[metrics.len() - 1].parameter()));
    }
}

proof fn lemma_requested_catalog<M: WeatherMetric>(
    a: Json,
    b: Json,
    base: Seq<Seq<char>>,
    request: Seq<Seq<char>>,
)
    requires
        request.len() >= base.len() + M::catalog().len(),
        forall|j: int|
            0 <= j < M::catalog().len() ==> request[base.len() + j] == (#[trigger] M::catalog()[j]).parameter(),
        forall|k: int| 0 <= k < request.len() ==> a.member(#[trigger] request[k]) == b.member(request[k]),
    ensures
        forall|j: int|
            0 <= j < M::catalog().len() ==> a.member((#[trigger] M::catalog()[j]).parameter()) == b.member(
                M::catalog()[j].parameter(),
            ),
{
    assert forall|j: int| 0 <= j < M::catalog().len() implies a.member(
        (#[trigger] M::catalog()[j]).parameter(),
    ) == b.member(M::catalog()[j].parameter()) by {
        assert(a.member(request[base.len() + j]) == b.member(request[base.len() + j]));
    }
}

proof fn lemma_readable_times_are_read_there(times: Seq<Json>)
    ensures
        forall|j: int|
            0 <= j < readable_times(times).len() ==> 0 <= (#[trigger] readable_times(times)[j]).0 < times.len()
                && time_in(times, readable_times(times)[j].0) == Some(readable_times(times)[j].1),
    decreases times.len(),
{
    if times.len() > 0 {
        let rest = times.drop_last();
        lemma_readable_times_are_read_there(rest);
        assert forall|j: int| 0 <= j < readable_times(rest).len() implies time_in(
            rest,
            (#[trigger] readable_times(rest)[j]).0,
        ) == time_in(times, readable_times(rest)[j].0) by {
            let i = readable_times(rest)[j].0;
            assert(rest[i] == times[i]);
        }
    }
}

proof fn lemma_readable_dates_are_read_there(dates: Seq<Json>)
    ensures
        forall|j: int|
            0 <= j < readable_dates(dates).len() ==> 0 <= (#[trigger] readable_dates(dates)[j]).0 < dates.len()
                && date_in(dates, readable_dates(dates)[j].0) == Some(readable_dates(dates)[j].1),
    decreases dates.len(),
{
    if dates.len() > 0 {
        let rest = dates.drop_last();
        lemma_readable_dates_are_read_there(rest);
        assert forall|j: int| 0 <= j < readable_dates(rest).len() implies date_in(
            rest,
            (#[trigger] readable_dates(rest)[j]).0,
        ) == date_in(dates, readable_dates(rest)[j].0) by {
            let i = readable_dates(rest)[j].0;
            assert(rest[i] == dates[i]);
        }
    }
}

/// Each hour of a forecast read from an answer sits at a place in the
/// hourly block whose timestamp reads as that hour, and takes each figure
/// from the series of its own name at that place: the air temperature
/// from "temperature_2m", the felt one from "apparent_temperature", the
/// chance of rain from "precipitation_probability", the rain from
/// "precipitation", the code from "weather_code", the wind's speed from
/// "wind_speed_10m" and its direction from "wind_direction_10m", the UV
/// index from "uv_index", day or night from "is_day", the humidity from
/// "relative_humidity_2m", the dew point from "dew_point_2m", the
/// visibility from "visibility", in feet exactly when the units block says
/// "ft" for it, and the cloud cover from "cloud_cover".
pub proof fn each_hour_reads_each_figure_from_its_own_series(root: Json, forecast: DetailForecast, j: int)
    requires
        forecast_outcome(root, Ok::<DetailForecast, WeatherError>(forecast)),
        0 <= j < forecast.hourly@.len(),
    ensures
        match root.member("hourly"@) {
            Some(block) => {
                let times = block.items_at("time"@);
                let index = readable_times(times)[j].0;
                let point = forecast.hourly@[j];
                &&& 0 <= index < times.len()
                &&& time_in(times, index) == Some(point.time)
                &&& point.temperature == number_in(block.items_at("temperature_2m"@), index)
                &&& point.apparent_temperature == number_in(block.items_at("apparent_temperature"@), index)
                &&& point.precipitation_probability == number_in(
                    block.items_at("precipitation_probability"@),
                    index,
                )
                &&& point.precipitation == number_in(block.items_at("precipitation"@), index)
                &&& point.weather_code == number_in(block.items_at("weather_code"@), index)
                &&& point.wind_speed == number_in(block.items_at("wind_speed_10m"@), index)
                &&& point.wind_direction == number_in(block.items_at("wind_direction_10m"@), index)
                &&& point.uv_index == number_in(block.items_at("uv_index"@), index)
                &&& point.is_day == match number_in(block.items_at("is_day"@), index) {
                    Some(flag) => Some(!flag.reads_as_zero()),
                    None => None,
                }
                &&& point.humidity == number_in(block.items_at("relative_humidity_2m"@), index)
                &&& point.dew_point == number_in(block.items_at("dew_point_2m"@), index)
                &&& point.visibility == number_in(block.items_at("visibility"@), index)
                &&& point.visibility_in_feet == (root.member("hourly_units"@) matches Some(units)
                    && units.text_at("visibility"@) == Some("ft"@))
                &&& point.cloud_cover == number_in(block.items_at("cloud_cover"@), index)
            },
            None => false,
        },
{
    match root.member("hourly"@) {
        Some(block) => {
            lemma_readable_times_are_read_there(block.items_at("time"@));
            assert(reads_hour(
                block,
                root.member("hourly_units"@),
                readable_times(block.items_at("time"@))[j].0,
                readable_times(block.items_at("time"@))[j].1,
                forecast.hourly@[j],
            ));
        },
        None => {},
    }
}

/// Each day of a forecast read from an answer sits at a place in the daily
/// block whose date reads as that day, and takes each figure from the
/// series of its own name at that place: the code from "weather_code", the
/// high and low from "temperature_2m_max" and "temperature_2m_min", the
/// felt ones from "apparent_temperature_max" and
/// "apparent_temperature_min", the sun's times from "sunrise" and
/// "sunset", the UV index from "uv_index_max", the rain from
/// "precipitation_sum" and its chance from "precipitation_probability_max",
/// the wind from "wind_speed_10m_max" and its gusts from
/// "wind_gusts_10m_max", and the moon's times from "moonrise" and
/// "moonset", which count as given exactly when both are series.
pub proof fn each_day_reads_each_figure_from_its_own_series(root: Json, forecast: DetailForecast, j: int)
    requires
        forecast_outcome(root, Ok::<DetailForecast, WeatherError>(forecast)),
        0 <= j < forecast.daily@.len(),
    ensures
        match root.member("daily"@) {
            Some(block) => {
                let dates = block.items_at("time"@);
                let index = readable_dates(dates)[j].0;
                let point = forecast.daily@[j];
                &&& 0 <= index < dates.len()
                &&& date_in(dates, index) == Some(point.date)
                &&& point.weather_code == number_in(block.items_at("weather_code"@), index)
                &&& point.high == number_in(block.items_at("temperature_2m_max"@), index)
                &&& point.low == number_in(block.items_at("temperature_2m_min"@), index)
                &&& point.apparent_high == number_in(block.items_at("apparent_temperature_max"@), index)
                &&& point.apparent_low == number_in(block.items_at("apparent_temperature_min"@), index)
                &&& point.sunrise == time_in(block.items_at("sunrise"@), index)
                &&& point.sunset == time_in(block.items_at("sunset"@), index)
                &&& point.uv_index_max == number_in(block.items_at("uv_index_max"@), index)
                &&& point.precipitation == number_in(block.items_at("precipitation_sum"@), index)
                &&& point.precipitation_probability == number_in(
                    block.items_at("precipitation_probability_max"@),
                    index,
                )
                &&& point.wind_speed_max == number_in(block.items_at("wind_speed_10m_max"@), index)
                &&& point.wind_gusts_max == number_in(block.items_at("wind_gusts_10m_max"@), index)
                &&& point.moonrise == time_in(block.items_at("moonrise"@), index)
                &&& point.moonset == time_in(block.items_at("moonset"@), index)
                &&& point.moon_events_available == (block.member("moonrise"@) matches Some(Json::Array(_))
                    && block.member("moonset"@) matches Some(Json::Array(_)))
            },
            None => false,
        },
{
    match root.member("daily"@) {
        Some(block) => {
            lemma_readable_dates_are_read_there(block.items_at("time"@));
            assert(reads_day(
                block,
                root.member("daily_units"@),
                readable_dates(block.items_at("time"@))[j].0,
                readable_dates(block.items_at("time"@))[j].1,
                forecast.daily@[j],
            ));
        },
        None => {},
    }
}

/// An hourly block is read only from its timestamps and the fields the
/// request asks for: two blocks that agree on those read as the same
/// hours.
pub proof fn hours_are_read_only_from_the_fields_asked_for(
    a: Json,
    b: Json,
    units: Option<Json>,
    points: Seq<HourlyPoint>,
)
    requires
        a.member("time"@) == b.member("time"@),
        forall|k: int|
            0 <= k < hourly_request().len() ==> a.member(#[trigger] hourly_request()[k]) == b.member(
                hourly_request()[k],
            ),
        reads_hours(a, units, points),
    ensures
        reads_hours(b, units, points),
{
    let request = hourly_request();
    let base = hourly_base_fields();
    let catalog = <HourlyMetric as WeatherMetric>::catalog();
    assert forall|k: int| 0 <= k < base.len() implies a.member(#[trigger] base[k]) == b.member(base[k]) by {
        assert(request[k] == base[k]);
        assert(a.member(request[k]) == b.member(request[k]));
    }
    assert forall|j: int| 0 <= j < catalog.len() implies request[base.len() + j] == (#[trigger] catalog[j]).parameter() by {
        assert(request[base.len() + j] == parameters(catalog)[j]);
    }
    lemma_requested_catalog::<HourlyMetric>(a, b, base, request);
    assert(a.member(base[0]) == b.member(base[0]));
    assert(a.member(base[1]) == b.member(base[1]));
    assert(a.member(base[2]) == b.member(base[2]));
    assert(a.member(base[3]) == b.member(base[3]));
    assert(a.member(base[4]) == b.member(base[4]));
    assert(a.member(base[5]) == b.member(base[5]));
    assert(a.member(base[6]) == b.member(base[6]));
    assert(a.member(base[7]) == b.member(base[7]));
    assert(a.member(base[8]) == b.member(base[8]));
    assert(a.member(base[9]) == b.member(base[9]));
    assert(a.member(base[10]) == b.member(base[10]));
    assert(a.member(base[11]) == b.member(base[11]));
    assert(a.member(base[12]) == b.member(base[12]));
    let readable = readable_times(a.items_at("time"@));
    assert forall|j: int| 0 <= j < points.len() implies reads_hour(
        b,
        units,
        readable[j].0,
        readable[j].1,
        #[trigger] points[j],
    ) by {
        assert(reads_hour(a, units, readable[j].0, readable[j].1, points[j]));
        lemma_metric_figures_read_their_parameters(a, b, units, readable[j].0, catalog);
    }
}

/// A daily block is read only from its dates and the fields the request
/// asks for: two blocks that agree on those read as the same days.
pub proof fn days_are_read_only_from_the_fields_asked_for(
    a: Json,
    b: Json,
    units: Option<Json>,
    points: Seq<DailyPoint>,
)
    requires
        a.member("time"@) == b.member("time"@),
        forall|k: int|
            0 <= k < daily_request().len() ==> a.member(#[trigger] daily_request()[k]) == b.member(
                daily_request()[k],
            ),
        reads_days(a, units, points),
    ensures
        reads_days(b, units, points),
{
    let request = daily_request();
    let base = daily_base_fields();
    let catalog = <DailyMetric as WeatherMetric>::catalog();
    let lunar = request.len() - 2;
    assert forall|k: int| 0 <= k < base.len() implies a.member(#[trigger] base[k]) == b.member(base[k]) by {
        assert(request[k] == base[k]);
        assert(a.member(request[k]) == b.member(request[k]));
    }
    assert forall|j: int| 0 <= j < catalog.len() implies request[base.len() + j] == (#[trigger] catalog[j]).parameter() by {
        assert(request[base.len() + j] == parameters(catalog)[j]);
    }
    lemma_requested_catalog::<DailyMetric>(a, b, base, request);
    assert(request[lunar] == "moonrise"@ && request[lunar + 1] == "moonset"@);
    assert(a.member(request[lunar]) == b.member(request[lunar]));
    assert(a.member(request[lunar + 1]) == b.member(request[lunar + 1]));
    assert(a.member(base[0]) == b.member(base[0]));
    assert(a.member(base[1]) == b.member(base[1]));
    assert(a.member(base[2]) == b.member(base[2]));
    assert(a.member(base[3]) == b.member(base[3]));
    assert(a.member(base[4]) == b.member(base[4]));
    assert(a.member(base[5]) == b.member(base[5]));
    assert(a.member(base[6]) == b.member(base[6]));
    assert(a.member(base[7]) == b.member(base[7]));
    assert(a.member(base[8]) == b.member(base[8]));
    assert(a.member(base[9]) == b.member(base[9]));
    assert(a.member(base[10]) == b.member(base[10]));
    assert(a.member(base[11]) == b.member(base[11]));
    let readable = readable_dates(a.items_at("time"@));
    assert forall|j: int| 0 <= j < points.len() implies reads_day(
        b,
        units,
        readable[j].0,
        readable[j].1,
        #[trigger] points[j],
    ) by {
        assert(reads_day(a, units, readable[j].0, readable[j].1, points[j]));
        lemma_metric_figures_read_their_parameters(a, b, units, readable[j].0, catalog);
    }
}

// ---------------------------------------------------------------------------
// Which figures are believed
// ---------------------------------------------------------------------------

/// Whether every character is a zero.
pub open spec fn all_zeros(s: Seq<char>) -> bool {
    forall|i: int| 0 <= i < s.len() ==> #[trigger] s[i] == '0'
}

/// A number's text without its minus sign.
pub open spec fn unsigned_part(text: Seq<char>) -> Seq<char> {
    if text.len() > 0 && text[0] == '-' {
        text.drop_first()
    } else {
        text
    }
}

/// The digits before the point.
pub open spec fn whole_part(text: Seq<char>) -> Seq<char> {
    match first_index(text, '.') {
        Some(i) => text.subrange(0, i),
        None => text,
    }
}

/// The digits after the point.
pub open spec fn fraction_part(text: Seq<char>) -> Seq<char> {
    match first_index(text, '.') {
        Some(i) => text.subrange(i + 1, text.len() as int),
        None => Seq::empty(),
    }
}

/// Whether a number's text reads as a value from zero to a limit: an
/// optional minus, at least one digit, and optionally a point and more
/// digits. With a minus it is only in range when it is zero.
pub open spec fn reads_within(text: Seq<char>, limit: nat) -> bool {
    let digits = unsigned_part(text);
    let whole = whole_part(digits);
    let fraction = fraction_part(digits);
    &&& whole.len() > 0
    &&& all_digits(whole)
    &&& all_digits(fraction)
    &&& if text.len() > 0 && text[0] == '-' {
        all_zeros(whole) && all_zeros(fraction)
    } else {
        digits_value(whole) < limit || (digits_value(whole) == limit && all_zeros(fraction))
    }
}

proof fn lemma_digits_value_nonnegative(s: Seq<char>)
    requires
        all_digits(s),
    ensures
        digits_value(s) >= 0,
    decreases s.len(),
{
    if s.len() > 0 {
        lemma_digits_value_nonnegative(s.drop_last());
    }
}

/// Whether a number's text reads as a value from zero to a limit.
pub fn number_reads_within(text: &str, limit: u64) -> (within: bool)
    requires
        limit <= 1_000_000,
    ensures
        within == reads_within(text@, limit as nat),
{
    let chars = chars_of(text);
    let n = chars.len();
    let negative = n > 0 && chars[0] == '-';
    let start: usize = if negative { 1 } else { 0 };
    let ghost digits = unsigned_part(text@);
    proof {
        assert(digits =~= chars@.subrange(start as int, n as int));
        lemma_first_index(digits, '.');
    }
    let point = find_char(&chars, start, n, '.');
    let whole_end: usize = match point {
        Some(k) => k,
        None => n,
    };
    let fraction_start: usize = match point {
        Some(k) => k + 1,
        None => n,
    };
    let ghost whole = whole_part(digits);
    let ghost fraction = fraction_part(digits);
    proof {
        assert(whole =~= chars@.subrange(start as int, whole_end as int));
        assert(fraction =~= chars@.subrange(fraction_start as int, n as int));
    }
    if whole_end == start {
        return false;
    }
    let mut value: u64 = 0;
    let mut zeros = true;
    let mut i = start;
    while i < whole_end
        invariant
            start <= i <= whole_end <= n == chars@.len(),
            whole == chars@.subrange(start as int, whole_end as int),
            whole == whole_part(unsigned_part(text@)),
            limit <= 1_000_000,
            all_digits(chars@.subrange(start as int, i as int)),
            zeros == all_zeros(chars@.subrange(start as int, i as int)),
            digits_value(chars@.subrange(start as int, i as int)) <= limit ==> value == digits_value(
                chars@.subrange(start as int, i as int),
            ),
            digits_value(chars@.subrange(start as int, i as int)) > limit ==> value > limit,
            value <= 10 * limit + 9,
        decreases whole_end - i,
    {
        let c = chars[i];
        let ghost before = chars@.subrange(start as int, i as int);
        let ghost after = chars@.subrange(start as int, i + 1);
        proof {
            assert(after.drop_last() =~= before);
            assert(after.last() == c);
        }
        if !('0' <= c && c <= '9') {
            proof {
                assert(whole[i - start] == c);
            }
            return false;
        }
        proof {
            lemma_digits_value_nonnegative(before);
            assert(all_digits(after));
            assert(all_zeros(after) == (all_zeros(before) && c == '0'));
        }
        if c != '0' {
            zeros = false;
        }
        if value <= limit {
            value = value * 10 + (c as u64 - '0' as u64);
        }
        i += 1;
    }
    let mut fraction_zeros = true;
    let mut j = fraction_start;
    while j < n
        invariant
            fraction_start <= j <= n == chars@.len(),
            fraction == chars@.subrange(fraction_start as int, n as int),
            fraction == fraction_part(unsigned_part(text@)),
            all_digits(chars@.subrange(fraction_start as int, j as int)),
            fraction_zeros == all_zeros(chars@.subrange(fraction_start as int, j as int)),
        decreases n - j,
    {
        let c = chars[j];
        let ghost before = chars@.subrange(fraction_start as int, j as int);
        let ghost after = chars@.subrange(fraction_start as int, j + 1);
        proof {
            assert(after.drop_last() =~= before);
            assert(after.last() == c);
        }
        if !('0' <= c && c <= '9') {
            proof {
                assert(fraction[j - fraction_start] == c);
            }
            return false;
        }
        proof {
            assert(all_digits(after));
            assert(all_zeros(after) == (all_zeros(before) && c == '0'));
        }
        if c != '0' {
            fraction_zeros = false;
        }
        j += 1;
    }
    if negative {
        zeros && fraction_zeros
    } else {
        value < limit || (value == limit && fraction_zeros)
    }
}

/// Where a day's length of daylight comes from.
#[derive(Clone, Debug, PartialEq)]
pub enum Daylight {
    /// The provider's own figure, in seconds.
    Reported(JsonNumber),
    /// Sunset minus sunrise, in seconds.
    Measured(i64),
}

/// The seconds of daylight a day says: the provider's own figure when it
/// reads as within a day, else sunset minus sunrise when both are known
/// and in order, else nothing.
///
/// The range guard is the polar one: inside the Arctic circle a summer day
/// has no sunrise and no sunset, and reading that as zero would report
/// total darkness in the land of the midnight sun.
pub open spec fn daylight_of(day: DailyPoint) -> Option<Daylight> {
    match figure_of(day.details.values@, DailyMetric::DaylightDuration) {
        Some((n, _)) if reads_within(n.decimal@, 86_400) => Some(Daylight::Reported(n)),
        _ => match (day.sunrise, day.sunset) {
            (Some(rise), Some(set)) => if set.is_before(rise) {
                None
            } else {
                Some(Daylight::Measured((set.seconds() - rise.seconds()) as i64))
            },
            _ => None,
        },
    }
}

/// The seconds of daylight a day says, and where they come from.
pub fn daylight(day: &DailyPoint) -> (length: Option<Daylight>)
    requires
        day.sunrise matches Some(rise) ==> rise.date.month <= u32::MAX - 9,
        day.sunset matches Some(set) ==> set.date.month <= u32::MAX - 9,
    ensures
        length == daylight_of(*day),
{
    if let Some((n, _)) = day.details.get(DailyMetric::DaylightDuration) {
        if number_reads_within(n.decimal.as_str(), 86_400) {
            return Some(Daylight::Reported(n));
        }
    }
    match daylight_seconds(day.sunrise, day.sunset) {
        Some(seconds) => Some(Daylight::Measured(seconds)),
        None => None,
    }
}

/// Where a day's moon phase comes from.
#[derive(Clone, Debug, PartialEq)]
pub enum MoonSource {
    /// The provider's own phase, as a fraction of the cycle.
    Reported(JsonNumber),
    /// Nothing believable was sent: the phase is estimated from the mean
    /// cycle, and the panel says it is estimating.
    Estimated,
}

/// The provider's moon phase when it reads as a fraction of a cycle; an
/// estimate otherwise, since a phase indexed off the end of the cycle is
/// worse than one worked out from the mean month.
pub open spec fn moon_source_of(day: DailyPoint) -> MoonSource {
    match figure_of(day.details.values@, DailyMetric::MoonPhase) {
        Some((n, _)) if reads_within(n.decimal@, 1) => MoonSource::Reported(n),
        _ => MoonSource::Estimated,
    }
}

/// Where a day's moon phase comes from.
pub fn moon_source(day: &DailyPoint) -> (source: MoonSource)
    ensures
        source == moon_source_of(*day),
{
    if let Some((n, _)) = day.details.get(DailyMetric::MoonPhase) {
        if number_reads_within(n.decimal.as_str(), 1) {
            return MoonSource::Reported(n);
        }
    }
    MoonSource::Estimated
}

// ---------------------------------------------------------------------------
// One day of the forecast
// ---------------------------------------------------------------------------

/// The order of two hours of a forecast: by wall clock, and among equal
/// clocks the one the response listed first.
pub open spec fn hour_precedes(times: Seq<LocalTime>, i: int, j: int) -> bool {
    times[i].is_before(times[j]) || (times[i] == times[j] && i < j)
}

/// The hours of a forecast that carry a local date, in chronological order.
///
/// A day is grouped by its wall-clock date rather than as midnight plus
/// 86400 seconds, so a day the clocks go back in keeps all twenty-five of
/// its hours (the repeated hour twice, in the order it arrived) and a day
/// they go forward in is simply an hour short. The result lists positions
/// in `times`.
pub fn hours_of_day(times: &[LocalTime], date: LocalDate) -> (hours: Vec<usize>)
    ensures
        forall|k: int|
            0 <= k < hours@.len() ==> {
                &&& (#[trigger] hours@[k]) < times@.len()
                &&& times@[hours@[k] as int].date == date
            },
        forall|i: int|
            0 <= i < times@.len() && (#[trigger] times@[i]).date == date ==> hours@.contains(
                i as usize,
            ),
        forall|k: int, l: int|
            0 <= k < l < hours@.len() ==> hour_precedes(
                times@,
                #[trigger] hours@[k] as int,
                #[trigger] hours@[l] as int,
            ),
{
    let mut hours: Vec<usize> = Vec::new();
    let mut i: usize = 0;
    while i < times.len()
        invariant
            i <= times@.len(),
            forall|k: int|
                0 <= k < hours@.len() ==> {
                    &&& (#[trigger] hours@[k]) < i
                    &&& times@[hours@[k] as int].date == date
                },
            forall|j: int|
                0 <= j < i && (#[trigger] times@[j]).date == date ==> hours@.contains(j as usize),
            forall|k: int, l: int|
                0 <= k < l < hours@.len() ==> hour_precedes(
                    times@,
                    #[trigger] hours@[k] as int,
                    #[trigger] hours@[l] as int,
                ),
        decreases times@.len() - i,
    {
        if times[i].date == date {
            let t = times[i];
            let mut p: usize = 0;
            while p < hours.len() && !t.is_earlier_than(times[hours[p]])
                invariant
                    p <= hours@.len(),
                    i < times@.len(),
                    t == times@[i as int],
                    forall|k: int| 0 <= k < hours@.len() ==> (#[trigger] hours@[k]) < i,
                    forall|q: int| 0 <= q < p ==> !t.is_before(times@[#[trigger] hours@[q] as int]),
                decreases hours@.len() - p,
            {
                p += 1;
            }
            let ghost before = hours@;
            hours.insert(p, i);
            proof {
                assert forall|k: int, l: int| 0 <= k < l < hours@.len() implies hour_precedes(
                    times@,
                    #[trigger] hours@[k] as int,
                    #[trigger] hours@[l] as int,
                ) by {
                    if l == p {
                        assert(hours@[k] == before[k]);
                    } else if k == p {
                        assert(hours@[l] == before[l - 1]);
                        assert(p < before.len());
                        if l - 1 > p {
                            assert(hour_precedes(times@, before[p as int] as int, before[l - 1] as int));
                        }
                    } else {
                        let k0 = if k < p { k } else { k - 1 };
                        let l0 = if l < p { l } else { l - 1 };
                        assert(hours@[k] == before[k0] && hours@[l] == before[l0]);
                        assert(hour_precedes(times@, before[k0] as int, before[l0] as int));
                    }
                }
                assert forall|j: int|
                    0 <= j < i + 1 && (#[trigger] times@[j]).date == date implies hours@.contains(
                    j as usize,
                ) by {
                    if j == i {
                        assert(hours@[p as int] == i);
                    } else {
                        let k0 = choose|k0: int| 0 <= k0 < before.len() && before[k0] == j as usize;
                        if k0 < p {
                            assert(hours@[k0] == j as usize);
                        } else {
                            assert(hours@[k0 + 1] == j as usize);
                        }
                    }
                }
                assert forall|k: int| 0 <= k < hours@.len() implies {
                    &&& (#[trigger] hours@[k]) < i + 1
                    &&& times@[hours@[k] as int].date == date
                } by {
                    if k < p {
                        assert(hours@[k] == before[k]);
                    } else if k > p {
                        assert(hours@[k] == before[k - 1]);
                    }
                }
            }
        }
        i += 1;
    }
    hours
}

/// Seconds of daylight from a sunrise and a sunset: absent unless both are
/// known, and refused when the sunset reads earlier than the sunrise rather
/// than shown as a negative span.
///
/// A wall-clock difference, which is all two local strings can support.
pub fn daylight_seconds(sunrise: Option<LocalTime>, sunset: Option<LocalTime>) -> (seconds: Option<i64>)
    requires
        sunrise matches Some(rise) ==> rise.date.month <= u32::MAX - 9,
        sunset matches Some(set) ==> set.date.month <= u32::MAX - 9,
    ensures
        seconds == match (sunrise, sunset) {
            (Some(rise), Some(set)) => if set.is_before(rise) {
                None
            } else {
                Some((set.seconds() - rise.seconds()) as i64)
            },
            _ => None,
        },
        seconds matches Some(n) ==> (sunrise.unwrap().is_clock_time() && sunset.unwrap().is_clock_time()
            ==> n >= 0),
{
    match (sunrise, sunset) {
        (Some(rise), Some(set)) => {
            if set.is_earlier_than(rise) {
                None
            } else {
                proof {
                    if rise.is_clock_time() && set.is_clock_time() {
                        wall_clock_order_is_time_order(set, rise);
                    }
                }
                Some(set.wall_clock_seconds() - rise.wall_clock_seconds())
            }
        },
        _ => None,
    }
}

/// A number's last `width` decimal digits, with zeros in front where it
/// has fewer: how a date's fields are written.
pub open spec fn padded_decimal(n: nat, width: nat) -> Seq<char>
    decreases width,
{
    if width == 0 {
        Seq::empty()
    } else {
        padded_decimal(n / 10, (width - 1) as nat).push(digit_char(n % 10))
    }
}

proof fn lemma_padded_decimal(n: nat, width: nat)
    requires
        n < pow10(width),
    ensures
        padded_decimal(n, width).len() == width,
        all_digits(padded_decimal(n, width)),
        digits_value(padded_decimal(n, width)) == n,
    decreases width,
{
    if width == 0 {
        assert(n == 0);
    } else {
        let w = (width - 1) as nat;
        let p = pow10(w);
        assert(pow10(width) == 10 * p);
        assert(n / 10 < p) by (nonlinear_arith)
            requires
                n < 10 * p,
                p >= 1,
        ;
        assert(p >= 1) by {
            lemma_pow10_positive(w);
        }
        lemma_padded_decimal(n / 10, w);
        let before = padded_decimal(n / 10, w);
        let text = padded_decimal(n, width);
        let d = n % 10;
        let c = digit_char(d);
        assert(text == before.push(c));
        assert(text.drop_last() =~= before);
        assert(c as int == 48 + d);
        assert forall|i: int| 0 <= i < text.len() implies '0' <= #[trigger] text[i] <= '9' by {
            if i < before.len() {
                assert(text[i] == before[i]);
            }
        }
        lemma_fundamental_div_mod(n as int, 10);
    }
}

proof fn lemma_pow10_positive(n: nat)
    ensures
        pow10(n) >= 1,
    decreases n,
{
    if n > 0 {
        lemma_pow10_positive((n - 1) as nat);
    }
}

/// A date written as the provider writes it: a four-digit year, a dash, a
/// two-digit month, a dash and a two-digit day, each with leading zeros.
pub open spec fn date_text(date: LocalDate) -> Seq<char> {
    padded_decimal(date.year as nat, 4) + seq!['-'] + padded_decimal(date.month as nat, 2) + seq!['-']
        + padded_decimal(date.day as nat, 2)
}

proof fn lemma_padded_field(n: nat, width: nat, signed: bool)
    requires
        n < pow10(width),
        width >= 1,
    ensures
        integer_text(padded_decimal(n, width), signed) == Some(n as int),
{
    lemma_padded_decimal(n, width);
    let text = padded_decimal(n, width);
    assert('0' <= text[0] <= '9');
}

/// Every date of the years 0 to 9999, written with its fields zero-padded
/// as `YYYY-MM-DD`, reads back as that date.
pub proof fn a_written_date_reads_back(date: LocalDate)
    requires
        0 <= date.year <= 9999,
        1 <= date.month <= 12,
        1 <= date.day <= 31,
    ensures
        LocalDate::spec_parse(date_text(date)) == Some(date),
{
    reveal_with_fuel(pow10, 5);
    let year = padded_decimal(date.year as nat, 4);
    let month = padded_decimal(date.month as nat, 2);
    let day = padded_decimal(date.day as nat, 2);
    lemma_padded_field(date.year as nat, 4, true);
    lemma_padded_field(date.month as nat, 2, false);
    lemma_padded_field(date.day as nat, 2, false);
    lemma_padded_decimal(date.year as nat, 4);
    lemma_padded_decimal(date.month as nat, 2);
    lemma_padded_decimal(date.day as nat, 2);
    let text = date_text(date);
    assert(text.len() == 10);
    assert(text.subrange(0, 4) =~= year);
    assert(text.subrange(5, 7) =~= month);
    assert(text.subrange(8, 10) =~= day);
    assert(text[4] == '-');
    assert(text[7] == '-');
}

/// What parsing accepts is plausible: a date read from text has a month
/// of the year and a day from 1 to 31, and a time read from text shows an
/// hour below 24 and a minute below 60 on such a date.
pub proof fn parsed_dates_and_times_are_plausible(text: Seq<char>)
    ensures
        LocalDate::spec_parse(text) matches Some(date) ==> date.has_month() && 1 <= date.day <= 31,
        LocalTime::spec_parse(text) matches Some(time) ==> {
            &&& time.date.has_month()
            &&& 1 <= time.date.day <= 31
            &&& time.hour < 24
            &&& time.minute < 60
        },
{
    if let Some(date) = LocalDate::spec_parse(text) {
        lemma_integer_text_bounds(text.subrange(5, 7), false);
        lemma_integer_text_bounds(text.subrange(8, 10), false);
    }
    if let Some(time) = LocalTime::spec_parse(text) {
        let i = match first_index(text, 'T') {
            Some(i) => i,
            None => first_index(text, ' ').unwrap(),
        };
        let value = text.subrange(0, i);
        lemma_integer_text_bounds(value.subrange(5, 7), false);
        lemma_integer_text_bounds(value.subrange(8, 10), false);
        let clock = text.subrange(i + 1, text.len() as int);
        let head = clock.subrange(0, 5);
        let j = first_index(head, ':').unwrap();
        lemma_first_index(head, ':');
        lemma_integer_text_bounds(head.subrange(0, j), false);
        lemma_integer_text_bounds(head.subrange(j + 1, 5), false);
    }
}

/// The leap days counted through a year, split at its 400-year era.
proof fn lemma_leap_years_by_era(y: int)
    ensures
        leap_years_through(y) == 97 * (y / 400) + (y % 400) / 4 - (y % 400) / 100,
        0 <= y % 400 < 400,
        y == 400 * (y / 400) + y % 400,
{
    let e = y / 400;
    let r = y % 400;
    lemma_fundamental_div_mod(y, 400);
    lemma_fundamental_div_mod(r, 4);
    lemma_fundamental_div_mod(r, 100);
    lemma_fundamental_div_mod_converse(y, 4, 100 * e + r / 4, r % 4);
    lemma_fundamental_div_mod_converse(y, 100, 4 * e + r / 100, r % 100);
}

/// For a month of the year, the civil-date count is the calendar's.
proof fn lemma_days_by_era(date: LocalDate)
    requires
        date.has_month(),
    ensures
        date.days() == date.civil_days(),
        date.spec_weekday() == date.civil_weekday(),
{
    lemma_leap_step(date.year as int);
    assert(leap_years_through(1969) == 477);
}

/// Consecutive years differ in leap days by whether the later one is leap.
proof fn lemma_leap_step(y: int)
    ensures
        leap_years_through(y) - leap_years_through(y - 1) == if is_leap_year(y) { 1int } else { 0 },
{
    lemma_fundamental_div_mod(y - 1, 4);
    lemma_fundamental_div_mod(y - 1, 100);
    lemma_fundamental_div_mod(y - 1, 400);
    lemma_div_step(y, 4);
    lemma_div_step(y, 100);
    lemma_div_step(y, 400);
    if y % 100 == 0 {
        lemma_fundamental_div_mod(y, 100);
        lemma_fundamental_div_mod_converse(y, 4, 25 * (y / 100), 0);
    }
    if y % 400 == 0 {
        lemma_fundamental_div_mod(y, 400);
        lemma_fundamental_div_mod_converse(y, 100, 4 * (y / 400), 0);
    }
}

/// Stepping up by one raises a quotient exactly when it lands on a multiple.
proof fn lemma_div_step(y: int, d: int)
    requires
        d > 0,
    ensures
        y / d - (y - 1) / d == if y % d == 0 { 1int } else { 0 },
{
    let q = (y - 1) / d;
    let s = (y - 1) % d;
    lemma_fundamental_div_mod(y - 1, d);
    if s == d - 1 {
        assert((q + 1) * d == d * q + d) by (nonlinear_arith);
        lemma_fundamental_div_mod_converse(y, d, q + 1, 0);
    } else {
        lemma_fundamental_div_mod_converse(y, d, q, s + 1);
    }
}

/// A field of at most four characters reads as a number of at most four
/// digits, so a year always fits.
proof fn lemma_integer_text_bounds(s: Seq<char>, signed: bool)
    requires
        s.len() <= 4,
    ensures
        integer_text(s, signed) matches Some(v) ==> -9999 <= v <= 9999 && (!signed ==> v >= 0),
{
    if s.len() > 0 {
        let rest = s.drop_first();
        if rest.len() > 0 && all_digits(rest) {
            lemma_digits_value_bound(rest);
        }
        if all_digits(s) {
            lemma_digits_value_bound(s);
        }
    }
}

proof fn lemma_digits_value_bound(s: Seq<char>)
    requires
        s.len() <= 4,
        all_digits(s),
    ensures
        0 <= digits_value(s) < pow10(s.len()) <= 10000,
    decreases s.len(),
{
    if s.len() > 0 {
        let rest = s.drop_last();
        assert(all_digits(rest)) by {
            assert forall|i: int| 0 <= i < rest.len() implies '0' <= #[trigger] rest[i] <= '9' by {
                assert(rest[i] == s[i]);
            }
        }
        lemma_digits_value_bound(rest);
        assert(s[s.len() - 1] == s.last());
        assert(pow10(s.len()) == 10 * pow10(rest.len()));
    }
    lemma_pow10_small(s.len());
}

} // verus!
