//! The graphics flyout's engine labels.

use vstd::prelude::*;

use crate::flyout::appicon::{text_before, text_order_is_total, text_order_is_transitive, text_precedes};
use crate::flyout::sensors::{eq_ignore_ascii_case, same_ignoring_ascii_case};
use crate::text::{
    chars_of, has_lowercase_property, has_uppercase_property, is_lowercase, is_uppercase, push_char, same_text,
};

verus! {

/// A name with a space put before every uppercase character that follows a
/// lowercase one.
pub open spec fn spaced_words(name: Seq<char>) -> Seq<char>
    decreases name.len(),
{
    if name.len() == 0 {
        Seq::empty()
    } else {
        let c = name.last();
        let after_lower = name.len() >= 2 && has_lowercase_property(name[name.len() - 2]);
        spaced_words(name.drop_last()) + if has_uppercase_property(c) && after_lower {
            seq![' ', c]
        } else {
            seq![c]
        }
    }
}

/// The engine type as a label: the counter's "VideoDecode" is "Video
/// Decode" to a person, and "3D" is left alone.
pub fn engine_title(name: &str) -> (title: String)
    ensures
        title@ == spaced_words(name@),
{
    let chars = chars_of(name);
    let mut title = String::new();
    let mut previous_lower = false;
    let mut i: usize = 0;
    assert(title@ =~= spaced_words(chars@.subrange(0, 0)));
    while i < chars.len()
        invariant
            i <= chars@.len(),
            chars@ == name@,
            title@ == spaced_words(chars@.subrange(0, i as int)),
            previous_lower == (i >= 1 && has_lowercase_property(chars@[i - 1])),
        decreases chars@.len() - i,
    {
        let c = chars[i];
        let ghost before = title@;
        if is_uppercase(c) && previous_lower {
            push_char(&mut title, ' ');
        }
        push_char(&mut title, c);
        proof {
            let upto = chars@.subrange(0, i + 1);
            assert(upto.drop_last() =~= chars@.subrange(0, i as int));
            assert(upto.last() == c);
            if i >= 1 {
                assert(upto[upto.len() - 2] == chars@[i - 1]);
            }
            if has_uppercase_property(c) && previous_lower {
                assert(title@ =~= before + seq![' ', c]);
            } else {
                assert(title@ =~= before + seq![c]);
            }
        }
        previous_lower = is_lowercase(c);
        i += 1;
    }
    assert(chars@.subrange(0, i as int) =~= name@);
    title
}

/// The header's second line: why there is nothing to show on a machine
/// without GPU counters, else the adapter's name once a sample has named
/// it.
pub open spec fn subtitle_text(supported: bool, name: Option<Seq<char>>) -> Seq<char> {
    if !supported {
        "No GPU counters on this machine"@
    } else {
        match name {
            Some(n) => n,
            None => "Waiting for the first sample"@,
        }
    }
}

/// The header's second line.
pub fn subtitle(supported: bool, name: Option<&str>) -> (text: &str)
    ensures
        text@ == subtitle_text(
            supported,
            match name {
                Some(n) => Some(n@),
                None => None,
            },
        ),
{
    if !supported {
        return "No GPU counters on this machine";
    }
    match name {
        Some(n) => n,
        None => "Waiting for the first sample",
    }
}

/// What the graphics panel's memory card shows.
#[derive(Copy, Clone, Debug, PartialEq, Eq, Structural)]
pub enum GpuMemory {
    /// A bar of dedicated memory in use against how much there is, and the
    /// two figures as tiles.
    Bar,
    /// Only the figure in use: an adapter without dedicated memory still
    /// has one for what it is using of the system's.
    InUse,
    /// Nothing the adapter reports.
    Unavailable,
}

/// What the memory card shows, from the adapter's figures.
pub open spec fn gpu_memory_of(used: Option<u64>, total: Option<u64>) -> GpuMemory {
    match (used, total) {
        (Some(_), Some(t)) => if t > 0 {
            GpuMemory::Bar
        } else {
            GpuMemory::InUse
        },
        (Some(_), None) => GpuMemory::InUse,
        _ => GpuMemory::Unavailable,
    }
}

/// What the memory card shows. Every card of the graphics panel stands
/// whether or not there is a sample, with dashes where figures would be.
pub fn gpu_memory(used: Option<u64>, total: Option<u64>) -> (shown: GpuMemory)
    ensures
        shown == gpu_memory_of(used, total),
{
    match (used, total) {
        (Some(_), Some(t)) => if t > 0 {
            GpuMemory::Bar
        } else {
            GpuMemory::InUse
        },
        (Some(_), None) => GpuMemory::InUse,
        _ => GpuMemory::Unavailable,
    }
}

/// The most engine rows the utilization card shows.
pub const MOST_ENGINES: usize = 6;

/// One engine type's share of the adapter's time: its name as the counter
/// gives it ("3D", "Copy", "VideoDecode"), and its load as a number that
/// orders as the share does, zero for an engine doing nothing.
#[derive(Clone, Debug, PartialEq, Eq)]
pub struct EngineLoad {
    pub name: String,
    pub load: u64,
}

/// The engine types Task Manager always shows, so that a quiet card still
/// reads as a card.
pub open spec fn always_shown(name: Seq<char>) -> bool {
    ||| same_ignoring_ascii_case(name, "3D"@)
    ||| same_ignoring_ascii_case(name, "Copy"@)
    ||| same_ignoring_ascii_case(name, "VideoDecode"@)
    ||| same_ignoring_ascii_case(name, "VideoEncode"@)
}

/// Whether an engine earns a row: it is doing something, or it is one of
/// those always shown.
pub open spec fn worth_a_row(engine: EngineLoad) -> bool {
    engine.load > 0 || always_shown(engine.name@)
}

/// The order of engine rows, by their places in the list: busiest first,
/// then by name, then as listed.
pub open spec fn engine_precedes(engines: Seq<EngineLoad>, i: int, j: int) -> bool {
    ||| engines[i].load > engines[j].load
    ||| engines[i].load == engines[j].load && text_before(engines[i].name@, engines[j].name@)
    ||| engines[i].load == engines[j].load && engines[i].name@ == engines[j].name@ && i < j
}

proof fn lemma_engine_order(engines: Seq<EngineLoad>, a: int, b: int, c: int)
    ensures
        !engine_precedes(engines, a, a),
        a != b ==> (engine_precedes(engines, a, b) || engine_precedes(engines, b, a)),
        engine_precedes(engines, a, b) && engine_precedes(engines, b, c) ==> engine_precedes(engines, a, c),
{
    let (x, y, z) = (engines[a].name@, engines[b].name@, engines[c].name@);
    text_order_is_total(x, y);
    text_order_is_total(y, z);
    text_order_is_total(x, z);
    if text_before(x, y) && text_before(y, z) {
        text_order_is_transitive(x, y, z);
    }
}

fn is_always_shown(name: &str) -> (shown: bool)
    ensures
        shown == always_shown(name@),
{
    eq_ignore_ascii_case(name, "3D") || eq_ignore_ascii_case(name, "Copy") || eq_ignore_ascii_case(
        name,
        "VideoDecode",
    ) || eq_ignore_ascii_case(name, "VideoEncode")
}

fn engine_before(engines: &[EngineLoad], i: usize, j: usize) -> (before: bool)
    requires
        i < engines@.len(),
        j < engines@.len(),
    ensures
        before == engine_precedes(engines@, i as int, j as int),
{
    let (a, b) = (&engines[i], &engines[j]);
    if a.load != b.load {
        return a.load > b.load;
    }
    if text_precedes(a.name.as_str(), b.name.as_str()) {
        return true;
    }
    same_text(a.name.as_str(), b.name.as_str()) && i < j
}

/// The engines worth a row, as places in the list, busiest first and never
/// more than six. A driver publishes a dozen engine types and most sit at
/// zero all day; the rows are the ones doing something, plus the ones Task
/// Manager always shows. An engine worth a row is left out only when six
/// that come before it are shown.
pub fn engines_by_load(engines: &[EngineLoad]) -> (rows: Vec<usize>)
    ensures
        rows@.len() <= MOST_ENGINES,
        forall|k: int|
            0 <= k < rows@.len() ==> {
                &&& (#[trigger] rows@[k]) < engines@.len()
                &&& worth_a_row(engines@[rows@[k] as int])
            },
        forall|k: int, l: int|
            0 <= k < l < rows@.len() ==> engine_precedes(engines@, #[trigger] rows@[k] as int, #[trigger] rows@[l] as int),
        forall|i: int|
            0 <= i < engines@.len() && worth_a_row(#[trigger] engines@[i]) && !rows@.contains(i as usize) ==> {
                &&& rows@.len() == MOST_ENGINES
                &&& forall|k: int| 0 <= k < rows@.len() ==> engine_precedes(engines@, #[trigger] rows@[k] as int, i)
            },
{
    let mut all: Vec<usize> = Vec::new();
    let mut i: usize = 0;
    while i < engines.len()
        invariant
            i <= engines@.len(),
            forall|k: int|
                0 <= k < all@.len() ==> {
                    &&& (#[trigger] all@[k]) < i
                    &&& worth_a_row(engines@[all@[k] as int])
                },
            forall|j: int| 0 <= j < i && worth_a_row(#[trigger] engines@[j]) ==> all@.contains(j as usize),
            forall|k: int, l: int|
                0 <= k < l < all@.len() ==> engine_precedes(engines@, #[trigger] all@[k] as int, #[trigger] all@[l] as int),
        decreases engines@.len() - i,
    {
        if engines[i].load > 0 || is_always_shown(engines[i].name.as_str()) {
            let mut p: usize = 0;
            while p < all.len() && engine_before(engines, all[p], i)
                invariant
                    p <= all@.len(),
                    i < engines@.len(),
                    forall|k: int| 0 <= k < all@.len() ==> (#[trigger] all@[k]) < i,
                    forall|q: int| 0 <= q < p ==> engine_precedes(engines@, #[trigger] all@[q] as int, i as int),
                decreases all@.len() - p,
            {
                p += 1;
            }
            let ghost before = all@;
            proof {
                if p < before.len() {
                    lemma_engine_order(engines@, i as int, before[p as int] as int, 0);
                }
            }
            all.insert(p, i);
            proof {
                assert forall|k: int, l: int| 0 <= k < l < all@.len() implies engine_precedes(
                    engines@,
                    #[trigger] all@[k] as int,
                    #[trigger] all@[l] as int,
                ) by {
                    if l == p {
                        assert(all@[k] == before[k]);
                    } else if k == p {
                        assert(all@[l] == before[l - 1]);
                        if l - 1 > p {
                            assert(engine_precedes(engines@, before[p as int] as int, before[l - 1] as int));
                            lemma_engine_order(engines@, i as int, before[p as int] as int, before[l - 1] as int);
                        }
                    } else {
                        let k0 = if k < p { k } else { k - 1 };
                        let l0 = if l < p { l } else { l - 1 };
                        assert(all@[k] == before[k0] && all@[l] == before[l0]);
                        assert(engine_precedes(engines@, before[k0] as int, before[l0] as int));
                    }
                }
                assert forall|j: int| 0 <= j < i + 1 && worth_a_row(#[trigger] engines@[j]) implies all@.contains(j as usize) by {
                    if j == i {
                        assert(all@[p as int] == i);
                    } else {
                        let k0 = choose|k0: int| 0 <= k0 < before.len() && before[k0] == j as usize;
                        if k0 < p {
                            assert(all@[k0] == j as usize);
                        } else {
                            assert(all@[k0 + 1] == j as usize);
                        }
                    }
                }
                assert forall|k: int| 0 <= k < all@.len() implies {
                    &&& (#[trigger] all@[k]) < i + 1
                    &&& worth_a_row(engines@[all@[k] as int])
                } by {
                    if k < p {
                        assert(all@[k] == before[k]);
                    } else if k > p {
                        assert(all@[k] == before[k - 1]);
                    }
                }
            }
        }
        i += 1;
    }
    let mut rows: Vec<usize> = Vec::new();
    let mut k: usize = 0;
    while k < all.len() && k < MOST_ENGINES
        invariant
            k <= all@.len(),
            k <= MOST_ENGINES,
            rows@ == all@.subrange(0, k as int),
        decreases all@.len() - k,
    {
        rows.push(all[k]);
        k += 1;
    }
    proof {
        assert forall|j: int|
            0 <= j < engines@.len() && worth_a_row(#[trigger] engines@[j]) && !rows@.contains(j as usize) implies {
            &&& rows@.len() == MOST_ENGINES
            &&& forall|q: int| 0 <= q < rows@.len() ==> engine_precedes(engines@, #[trigger] rows@[q] as int, j)
        } by {
            assert(all@.contains(j as usize));
            let p = choose|p: int| 0 <= p < all@.len() && all@[p] == j as usize;
            if p < k {
                assert(rows@[p] == j as usize);
            }
            assert forall|q: int| 0 <= q < rows@.len() implies engine_precedes(engines@, #[trigger] rows@[q] as int, j) by {
                assert(rows@[q] == all@[q]);
            }
        }
    }
    rows
}

} // verus!
