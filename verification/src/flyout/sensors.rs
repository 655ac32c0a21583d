//! The sensors flyout: how readings are grouped into cards, ordered within
//! a card, counted in the header and named on their rows.

use vstd::prelude::*;

use crate::text::{chars_of, decimal, push_decimal, same_text};

verus! {

/// What a reading measures, as far as the panel tells readings apart: the
/// five kinds that have a card of their own, and everything else.
#[derive(Copy, Clone, Debug, PartialEq, Eq, Structural)]
pub enum ReadingKind {
    Temperature,
    Fan,
    Power,
    Voltage,
    Current,
    Other,
}

/// One reading, as the panel groups, orders and names it: the source's
/// identifier for it, the hardware it is on, its own name, what it
/// measures, and its value as a number that orders as the reading does
/// (none when the source could not read it).
#[derive(Clone, Debug, PartialEq, Eq)]
pub struct SensorReading {
    pub id: String,
    pub hardware: String,
    pub name: String,
    pub kind: ReadingKind,
    pub value: Option<i64>,
}

/// Why a source has no readings, as far as the header tells reasons apart.
#[derive(Copy, Clone, Debug, PartialEq, Eq, Structural)]
pub enum SensorProblem {
    /// No source has been set up.
    NotConfigured,
    /// The source is set up and its helper is not running.
    NotRunning,
    /// Any other failure to read the source.
    Unavailable,
}

/// The kinds with a card, in the order the cards come.
pub open spec fn card_kinds() -> Seq<ReadingKind> {
    seq![
        ReadingKind::Temperature,
        ReadingKind::Fan,
        ReadingKind::Power,
        ReadingKind::Voltage,
        ReadingKind::Current,
    ]
}

/// The kinds with a card, in the order the cards come.
pub fn cards() -> (kinds: [ReadingKind; 5])
    ensures
        kinds@ == card_kinds(),
{
    let kinds = [
        ReadingKind::Temperature,
        ReadingKind::Fan,
        ReadingKind::Power,
        ReadingKind::Voltage,
        ReadingKind::Current,
    ];
    assert(kinds@ =~= card_kinds());
    kinds
}

/// What a number of readings of a kind are called. Power, voltage and
/// current are what is measured, not the things counted, so those count
/// readings.
pub open spec fn noun(kind: ReadingKind, one: bool) -> Seq<char> {
    match kind {
        ReadingKind::Temperature => if one { "temperature"@ } else { "temperatures"@ },
        ReadingKind::Fan => if one { "fan"@ } else { "fans"@ },
        ReadingKind::Power => if one { "power reading"@ } else { "power readings"@ },
        ReadingKind::Voltage => if one { "voltage reading"@ } else { "voltage readings"@ },
        ReadingKind::Current => if one { "current reading"@ } else { "current readings"@ },
        ReadingKind::Other => if one { "reading"@ } else { "readings"@ },
    }
}

/// "2 temperatures", "1 fan", "1 power reading".
pub open spec fn count_text(count: nat, kind: ReadingKind) -> Seq<char> {
    decimal(count) + " "@ + noun(kind, count == 1)
}

fn noun_for(kind: ReadingKind, one: bool) -> (word: &'static str)
    ensures
        word@ == noun(kind, one),
{
    match kind {
        ReadingKind::Temperature => if one { "temperature" } else { "temperatures" },
        ReadingKind::Fan => if one { "fan" } else { "fans" },
        ReadingKind::Power => if one { "power reading" } else { "power readings" },
        ReadingKind::Voltage => if one { "voltage reading" } else { "voltage readings" },
        ReadingKind::Current => if one { "current reading" } else { "current readings" },
        ReadingKind::Other => if one { "reading" } else { "readings" },
    }
}

/// The count in words that agree with it: "2 temperatures", "1 fan",
/// "1 power reading".
pub fn count_words(count: usize, kind: ReadingKind) -> (words: String)
    ensures
        words@ == count_text(count as nat, kind),
{
    let mut words = String::new();
    push_decimal(&mut words, count as u64);
    words.append(" ");
    words.append(noun_for(kind, count == 1));
    words
}

/// The header's words for why there are no readings.
pub open spec fn problem_text(problem: SensorProblem) -> Seq<char> {
    match problem {
        SensorProblem::NotConfigured => "No sensor source"@,
        SensorProblem::NotRunning => "Sensor source not running"@,
        SensorProblem::Unavailable => "Sensor source unavailable"@,
    }
}

/// The header's words for why there are no readings.
pub fn short_words(problem: SensorProblem) -> (words: &'static str)
    ensures
        words@ == problem_text(problem),
{
    match problem {
        SensorProblem::NotConfigured => "No sensor source",
        SensorProblem::NotRunning => "Sensor source not running",
        SensorProblem::Unavailable => "Sensor source unavailable",
    }
}

/// How many readings are of a kind.
pub open spec fn kind_count(readings: Seq<SensorReading>, kind: ReadingKind) -> nat
    decreases readings.len(),
{
    if readings.len() == 0 {
        0
    } else {
        kind_count(readings.drop_last(), kind) + if readings.last().kind == kind { 1nat } else { 0 }
    }
}

proof fn lemma_kind_count_bounded(readings: Seq<SensorReading>, kind: ReadingKind)
    ensures
        kind_count(readings, kind) <= readings.len(),
    decreases readings.len(),
{
    if readings.len() > 0 {
        lemma_kind_count_bounded(readings.drop_last(), kind);
    }
}

fn count_of(readings: &[SensorReading], kind: ReadingKind) -> (n: usize)
    ensures
        n == kind_count(readings@, kind),
{
    let mut n: usize = 0;
    let mut i: usize = 0;
    while i < readings.len()
        invariant
            i <= readings@.len(),
            n <= i,
            n == kind_count(readings@.subrange(0, i as int), kind),
        decreases readings@.len() - i,
    {
        assert(readings@.subrange(0, i + 1).drop_last() =~= readings@.subrange(0, i as int));
        if readings[i].kind == kind {
            n += 1;
        }
        i += 1;
    }
    assert(readings@.subrange(0, i as int) =~= readings@);
    n
}

/// Texts joined with a separator between each two.
pub open spec fn joined(parts: Seq<Seq<char>>, separator: Seq<char>) -> Seq<char>
    decreases parts.len(),
{
    if parts.len() == 0 {
        Seq::empty()
    } else if parts.len() == 1 {
        parts[0]
    } else {
        joined(parts.drop_last(), separator) + separator + parts.last()
    }
}

/// The counts of the first `k` cards, for the cards that have readings.
pub open spec fn count_phrases(readings: Seq<SensorReading>, k: int) -> Seq<Seq<char>>
    decreases k,
{
    if k <= 0 {
        Seq::empty()
    } else {
        let before = count_phrases(readings, k - 1);
        let n = kind_count(readings, card_kinds()[k - 1]);
        if n > 0 {
            before.push(count_text(n, card_kinds()[k - 1]))
        } else {
            before
        }
    }
}

/// The header's second line: why there are no readings, that none have
/// been asked for yet, or how many of each card's kind there are.
pub open spec fn subtitle_text(problem: Option<SensorProblem>, sampled: bool, readings: Seq<SensorReading>) -> Seq<char> {
    match problem {
        Some(p) => problem_text(p),
        None => if !sampled {
            "Discovering sensors"@
        } else if count_phrases(readings, 5).len() == 0 {
            "No readings yet"@
        } else {
            joined(count_phrases(readings, 5), "  \u{00B7}  "@)
        },
    }
}

/// The header's second line: how many of each kind, or why there are none.
///
/// A reason from the source comes first; before the first snapshot the
/// panel is still discovering; after it, the cards' kinds are counted in
/// the cards' order, leaving out the kinds with nothing to count.
pub fn subtitle(problem: Option<SensorProblem>, sampled: bool, readings: &[SensorReading]) -> (text: String)
    ensures
        text@ == subtitle_text(problem, sampled, readings@),
{
    if let Some(p) = problem {
        return short_words(p).to_string();
    }
    if !sampled {
        return "Discovering sensors".to_string();
    }
    let kinds = cards();
    let mut text = String::new();
    let mut any = false;
    let mut k: usize = 0;
    while k < 5
        invariant
            k <= 5,
            kinds@ == card_kinds(),
            any == (count_phrases(readings@, k as int).len() > 0),
            text@ == joined(count_phrases(readings@, k as int), "  \u{00B7}  "@),
        decreases 5 - k,
    {
        let kind = kinds[k];
        let n = count_of(readings, kind);
        let ghost before = count_phrases(readings@, k as int);
        if n > 0 {
            proof {
                let after = before.push(count_text(n as nat, kind));
                assert(after.drop_last() =~= before);
                assert(after.last() == count_text(n as nat, kind));
            }
            if any {
                text.append("  \u{00B7}  ");
            }
            let words = count_words(n, kind);
            text.append(words.as_str());
            any = true;
        }
        k += 1;
    }
    if !any {
        return "No readings yet".to_string();
    }
    text
}

/// Whether one reading is hotter than another: a value above a lower one,
/// and any value above none.
pub open spec fn hotter(a: SensorReading, b: SensorReading) -> bool {
    match (a.value, b.value) {
        (Some(x), Some(y)) => x > y,
        (Some(_), None) => true,
        _ => false,
    }
}

/// The order of two readings of a card, by their places in the list: the
/// temperatures hottest first with the unreadable ones last, ties in the
/// order the source listed them; every other kind as the source listed it.
pub open spec fn card_precedes(readings: Seq<SensorReading>, kind: ReadingKind, i: int, j: int) -> bool {
    if kind == ReadingKind::Temperature {
        hotter(readings[i], readings[j]) || (readings[i].value == readings[j].value && i < j)
    } else {
        i < j
    }
}

fn precedes(readings: &[SensorReading], kind: ReadingKind, i: usize, j: usize) -> (before: bool)
    requires
        i < readings@.len(),
        j < readings@.len(),
    ensures
        before == card_precedes(readings@, kind, i as int, j as int),
{
    if kind == ReadingKind::Temperature {
        let hot = match (readings[i].value, readings[j].value) {
            (Some(x), Some(y)) => x > y,
            (Some(_), None) => true,
            _ => false,
        };
        hot || (readings[i].value == readings[j].value && i < j)
    } else {
        i < j
    }
}

proof fn lemma_card_precedes_is_an_order(readings: Seq<SensorReading>, kind: ReadingKind, a: int, b: int, c: int)
    ensures
        !card_precedes(readings, kind, a, a),
        a != b ==> (card_precedes(readings, kind, a, b) || card_precedes(readings, kind, b, a)),
        card_precedes(readings, kind, a, b) && card_precedes(readings, kind, b, c) ==> card_precedes(readings, kind, a, c),
{
}

/// The readings of one kind in the order their card shows them, as places
/// in the list: the temperatures hottest first, with the ones the source
/// could not read at the end; every other kind as the source listed it.
pub fn ordered(readings: &[SensorReading], kind: ReadingKind) -> (group: Vec<usize>)
    ensures
        forall|k: int|
            0 <= k < group@.len() ==> {
                &&& (#[trigger] group@[k]) < readings@.len()
                &&& readings@[group@[k] as int].kind == kind
            },
        forall|i: int|
            0 <= i < readings@.len() && (#[trigger] readings@[i]).kind == kind ==> group@.contains(i as usize),
        forall|k: int, l: int|
            0 <= k < l < group@.len() ==> card_precedes(
                readings@,
                kind,
                #[trigger] group@[k] as int,
                #[trigger] group@[l] as int,
            ),
{
    let mut group: Vec<usize> = Vec::new();
    let mut i: usize = 0;
    while i < readings.len()
        invariant
            i <= readings@.len(),
            forall|k: int|
                0 <= k < group@.len() ==> {
                    &&& (#[trigger] group@[k]) < i
                    &&& readings@[group@[k] as int].kind == kind
                },
            forall|j: int| 0 <= j < i && (#[trigger] readings@[j]).kind == kind ==> group@.contains(j as usize),
            forall|k: int, l: int|
                0 <= k < l < group@.len() ==> card_precedes(
                    readings@,
                    kind,
                    #[trigger] group@[k] as int,
                    #[trigger] group@[l] as int,
                ),
        decreases readings@.len() - i,
    {
        if readings[i].kind == kind {
            let mut p: usize = 0;
            while p < group.len() && precedes(readings, kind, group[p], i)
                invariant
                    p <= group@.len(),
                    i < readings@.len(),
                    forall|k: int| 0 <= k < group@.len() ==> (#[trigger] group@[k]) < i,
                    forall|q: int| 0 <= q < p ==> card_precedes(readings@, kind, #[trigger] group@[q] as int, i as int),
                decreases group@.len() - p,
            {
                p += 1;
            }
            let ghost before = group@;
            proof {
                if p < before.len() {
                    lemma_card_precedes_is_an_order(readings@, kind, i as int, before[p as int] as int, 0);
                }
            }
            group.insert(p, i);
            proof {
                assert forall|k: int, l: int| 0 <= k < l < group@.len() implies card_precedes(
                    readings@,
                    kind,
                    #[trigger] group@[k] as int,
                    #[trigger] group@[l] as int,
                ) by {
                    if l == p {
                        assert(group@[k] == before[k]);
                    } else if k == p {
                        assert(group@[l] == before[l - 1]);
                        if l - 1 > p {
                            assert(card_precedes(readings@, kind, before[p as int] as int, before[l - 1] as int));
                            lemma_card_precedes_is_an_order(
                                readings@,
                                kind,
                                i as int,
                                before[p as int] as int,
                                before[l - 1] as int,
                            );
                        }
                    } else {
                        let k0 = if k < p { k } else { k - 1 };
                        let l0 = if l < p { l } else { l - 1 };
                        assert(group@[k] == before[k0] && group@[l] == before[l0]);
                        assert(card_precedes(readings@, kind, before[k0] as int, before[l0] as int));
                    }
                }
                assert forall|j: int|
                    0 <= j < i + 1 && (#[trigger] readings@[j]).kind == kind implies group@.contains(j as usize) by {
                    if j == i {
                        assert(group@[p as int] == i);
                    } else {
                        let k0 = choose|k0: int| 0 <= k0 < before.len() && before[k0] == j as usize;
                        if k0 < p {
                            assert(group@[k0] == j as usize);
                        } else {
                            assert(group@[k0 + 1] == j as usize);
                        }
                    }
                }
                assert forall|k: int| 0 <= k < group@.len() implies {
                    &&& (#[trigger] group@[k]) < i + 1
                    &&& readings@[group@[k] as int].kind == kind
                } by {
                    if k < p {
                        assert(group@[k] == before[k]);
                    } else if k > p {
                        assert(group@[k] == before[k - 1]);
                    }
                }
            }
        }
        i += 1;
    }
    group
}

/// A character with ASCII's capitals made small.
pub open spec fn ascii_lower(c: char) -> char {
    if 'A' <= c <= 'Z' {
        ((c as u32) + 32) as char
    } else {
        c
    }
}

/// Whether two texts are the same once ASCII capitals are made small.
pub open spec fn same_ignoring_ascii_case(a: Seq<char>, b: Seq<char>) -> bool {
    a.len() == b.len() && forall|i: int| 0 <= i < a.len() ==> ascii_lower(#[trigger] a[i]) == ascii_lower(b[i])
}

fn lower(c: char) -> (l: char)
    ensures
        l == ascii_lower(c),
{
    if 'A' <= c && c <= 'Z' {
        ((c as u8) + 32) as char
    } else {
        c
    }
}

/// Whether two texts are the same once ASCII capitals are made small.
pub fn eq_ignore_ascii_case(a: &str, b: &str) -> (same: bool)
    ensures
        same == same_ignoring_ascii_case(a@, b@),
{
    let x = chars_of(a);
    let y = chars_of(b);
    if x.len() != y.len() {
        return false;
    }
    let mut i: usize = 0;
    while i < x.len()
        invariant
            x@ == a@,
            y@ == b@,
            x@.len() == y@.len(),
            i <= x@.len(),
            forall|j: int| 0 <= j < i ==> ascii_lower(#[trigger] x@[j]) == ascii_lower(y@[j]),
        decreases x@.len() - i,
    {
        if lower(x[i]) != lower(y[i]) {
            return false;
        }
        i += 1;
    }
    true
}

/// Whether another reading in the same card carries the same name on
/// different hardware.
pub open spec fn name_repeats(sensor: SensorReading, group: Seq<SensorReading>) -> bool {
    exists|k: int|
        0 <= k < group.len() && (#[trigger] group[k]).id@ != sensor.id@ && group[k].hardware@
            != sensor.hardware@ && same_ignoring_ascii_case(group[k].name@, sensor.name@)
}

/// The name a row shows: the reading's own, unless another reading in the
/// same card shares it on different hardware, in which case the hardware
/// goes first so an ending cut by the row's width still leaves a name.
pub fn display_name(sensor: &SensorReading, group: &[SensorReading]) -> (name: String)
    ensures
        name@ == if name_repeats(*sensor, group@) {
            sensor.hardware@ + "  \u{00B7}  "@ + sensor.name@
        } else {
            sensor.name@
        },
{
    let mut repeated = false;
    let mut k: usize = 0;
    while k < group.len()
        invariant
            k <= group@.len(),
            repeated == exists|j: int|
                0 <= j < k && (#[trigger] group@[j]).id@ != sensor.id@ && group@[j].hardware@
                    != sensor.hardware@ && same_ignoring_ascii_case(group@[j].name@, sensor.name@),
        decreases group@.len() - k,
    {
        let other = &group[k];
        if !same_text(other.id.as_str(), sensor.id.as_str()) && !same_text(
            other.hardware.as_str(),
            sensor.hardware.as_str(),
        ) && eq_ignore_ascii_case(other.name.as_str(), sensor.name.as_str()) {
            repeated = true;
        }
        k += 1;
    }
    if repeated {
        let mut name = sensor.hardware.clone();
        name.append("  \u{00B7}  ");
        name.append(sensor.name.as_str());
        name
    } else {
        sensor.name.clone()
    }
}

} // verus!
