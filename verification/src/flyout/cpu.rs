//! The processor flyout's readings: the history ranges and their picker,
//! the day-long timeline the graph is drawn from, the core labels and
//! summary, and the System card's figures.

use std::collections::VecDeque;

use vstd::prelude::*;

use crate::flyout::ui::Id;
use crate::text::{decimal, push_decimal};

verus! {

/// What stands in for a reading that is not there.
pub const DASH: &'static str = "\u{2014}";

/// The kind of a logical processor, as far as the OS says.
#[derive(Copy, Clone, Debug, PartialEq, Eq, Hash, Structural)]
pub enum CoreKind {
    Performance,
    Efficiency,
    Unknown,
}

/// The spans the history graph can show.
#[derive(Copy, Clone, Debug, PartialEq, Eq, Hash, Structural)]
pub enum HistoryRange {
    OneMinute,
    FiveMinutes,
    ThirtyMinutes,
    ThreeHours,
    TwentyFourHours,
}

/// The picker's chips answer to this plus the range's index, and a panel's
/// other controls start well above them.
pub const RANGE_ID: u32 = 1;

impl HistoryRange {
    /// The ranges in the picker's order, narrowest first.
    pub open spec fn spec_all() -> Seq<HistoryRange> {
        seq![
            HistoryRange::OneMinute,
            HistoryRange::FiveMinutes,
            HistoryRange::ThirtyMinutes,
            HistoryRange::ThreeHours,
            HistoryRange::TwentyFourHours,
        ]
    }

    pub fn all() -> (all: [HistoryRange; 5])
        ensures
            all@ == HistoryRange::spec_all(),
    {
        let all = [
            HistoryRange::OneMinute,
            HistoryRange::FiveMinutes,
            HistoryRange::ThirtyMinutes,
            HistoryRange::ThreeHours,
            HistoryRange::TwentyFourHours,
        ];
        assert(all@ =~= HistoryRange::spec_all());
        all
    }

    pub open spec fn label_text(self) -> Seq<char> {
        match self {
            HistoryRange::OneMinute => "1m"@,
            HistoryRange::FiveMinutes => "5m"@,
            HistoryRange::ThirtyMinutes => "30m"@,
            HistoryRange::ThreeHours => "3h"@,
            HistoryRange::TwentyFourHours => "24h"@,
        }
    }

    pub fn label(self) -> (label: &'static str)
        ensures
            label@ == self.label_text(),
    {
        match self {
            HistoryRange::OneMinute => "1m",
            HistoryRange::FiveMinutes => "5m",
            HistoryRange::ThirtyMinutes => "30m",
            HistoryRange::ThreeHours => "3h",
            HistoryRange::TwentyFourHours => "24h",
        }
    }

    pub open spec fn spec_seconds(self) -> int {
        match self {
            HistoryRange::OneMinute => 60,
            HistoryRange::FiveMinutes => 300,
            HistoryRange::ThirtyMinutes => 1_800,
            HistoryRange::ThreeHours => 10_800,
            HistoryRange::TwentyFourHours => 86_400,
        }
    }

    pub fn seconds(self) -> (seconds: i64)
        ensures
            seconds == self.spec_seconds(),
    {
        match self {
            HistoryRange::OneMinute => 60,
            HistoryRange::FiveMinutes => 300,
            HistoryRange::ThirtyMinutes => 1_800,
            HistoryRange::ThreeHours => 10_800,
            HistoryRange::TwentyFourHours => 86_400,
        }
    }

    pub open spec fn spec_index(self) -> int {
        match self {
            HistoryRange::OneMinute => 0,
            HistoryRange::FiveMinutes => 1,
            HistoryRange::ThirtyMinutes => 2,
            HistoryRange::ThreeHours => 3,
            HistoryRange::TwentyFourHours => 4,
        }
    }

    /// The range's place in the picker.
    pub fn index(self) -> (index: u32)
        ensures
            index == self.spec_index(),
            HistoryRange::spec_all()[index as int] == self,
    {
        let all = HistoryRange::all();
        let mut i: usize = 0;
        while i < 5
            invariant
                i <= 5,
                all@ == HistoryRange::spec_all(),
                forall|j: int| 0 <= j < i ==> all@[j] != self,
            decreases 5 - i,
        {
            if all[i] == self {
                return i as u32;
            }
            i += 1;
        }
        0
    }

    pub open spec fn spec_id(self) -> Id {
        Id::Custom((RANGE_ID + self.spec_index()) as u32)
    }

    /// The control id of this range's chip in the picker.
    pub fn id(self) -> (id: Id)
        ensures
            id == self.spec_id(),
    {
        Id::Custom(RANGE_ID + self.index())
    }

    /// The range whose chip answers to an id, if it is one of the picker's.
    pub open spec fn spec_from_id(id: Id) -> Option<HistoryRange> {
        match id {
            Id::Custom(n) => if RANGE_ID <= n < RANGE_ID + 5 {
                Some(HistoryRange::spec_all()[n - RANGE_ID])
            } else {
                None
            },
            _ => None,
        }
    }

    pub fn from_id(id: Id) -> (range: Option<HistoryRange>)
        ensures
            range == HistoryRange::spec_from_id(id),
    {
        match id {
            Id::Custom(n) => {
                if n >= RANGE_ID && n - RANGE_ID < 5 {
                    let all = HistoryRange::all();
                    Some(all[(n - RANGE_ID) as usize])
                } else {
                    None
                }
            },
            _ => None,
        }
    }
}

impl Default for HistoryRange {
    fn default() -> (range: HistoryRange)
        ensures
            range == HistoryRange::FiveMinutes,
    {
        HistoryRange::FiveMinutes
    }
}

/// A range's chip answers to its own id and no other range's, and every id
/// the picker reads as a range is that range's chip.
pub proof fn a_range_is_read_back_from_its_chip(range: HistoryRange, id: Id)
    ensures
        HistoryRange::spec_from_id(range.spec_id()) == Some(range),
        HistoryRange::spec_from_id(id) matches Some(r) ==> r.spec_id() == id,
{
}

// ---------------------------------------------------------------------------
// The timeline
// ---------------------------------------------------------------------------

/// One reading on a module's timeline: when it was taken, and the reading.
#[derive(Copy, Clone, Debug, PartialEq)]
pub struct Sample<V> {
    pub at_unix: i64,
    pub value: V,
}

/// The widest range's reach: a day.
pub const HORIZON_SECONDS: i64 = 86_400;

/// A timeline with the readings at its front that are older than a horizon
/// taken off, stopping at the first that is not.
pub open spec fn without_older_front<V>(history: Seq<Sample<V>>, horizon: int) -> Seq<Sample<V>>
    decreases history.len(),
{
    if history.len() > 0 && history[0].at_unix < horizon {
        without_older_front(history.drop_first(), horizon)
    } else {
        history
    }
}

/// Whether readings are in the order they were taken.
pub open spec fn in_time_order<V>(history: Seq<Sample<V>>) -> bool {
    forall|i: int, j: int|
        0 <= i <= j < history.len() ==> (#[trigger] history[i]).at_unix <= (#[trigger] history[j]).at_unix
}

/// Adds a sample to a timeline and forgets what the widest range can no
/// longer show, which is how a day of readings is kept without the queue
/// growing for the life of the process.
pub fn remember<V>(history: &mut VecDeque<Sample<V>>, sample: Sample<V>)
    requires
        sample.at_unix >= i64::MIN + HORIZON_SECONDS,
    ensures
        final(history)@ == without_older_front(
            old(history)@.push(sample),
            sample.at_unix - HORIZON_SECONDS,
        ),
{
    let horizon = sample.at_unix - HORIZON_SECONDS;
    history.push_back(sample);
    let ghost pushed = history@;
    assert(pushed == old(history)@.push(sample));
    while history.len() > 0 && history[0].at_unix < horizon
        invariant
            without_older_front(history@, horizon as int) == without_older_front(
                pushed,
                horizon as int,
            ),
        decreases history@.len(),
    {
        let ghost before = history@;
        history.pop_front();
        assert(history@ == before.drop_first());
    }
}

proof fn lemma_without_older_front<V>(history: Seq<Sample<V>>, horizon: int)
    ensures
        ({
            let kept = without_older_front(history, horizon);
            &&& kept.len() <= history.len()
            &&& kept == history.subrange(history.len() - kept.len(), history.len() as int)
            &&& kept.len() > 0 ==> kept[0].at_unix >= horizon
            &&& forall|i: int| 0 <= i < history.len() - kept.len() ==> history[i].at_unix < horizon
        }),
    decreases history.len(),
{
    if history.len() > 0 && history[0].at_unix < horizon {
        let rest = history.drop_first();
        lemma_without_older_front(rest, horizon);
        let kept = without_older_front(rest, horizon);
        assert(kept =~= history.subrange(history.len() - kept.len(), history.len() as int));
        assert forall|i: int| 0 <= i < history.len() - kept.len() implies history[i].at_unix
            < horizon by {
            if i > 0 {
                assert(history[i] == rest[i - 1]);
            }
        }
    } else {
        assert(history =~= history.subrange(0, history.len() as int));
    }
}

/// Remembering a reading newer than all the others keeps the timeline in
/// time order, keeps the reading itself as the newest, and leaves nothing
/// older than a day before it.
pub proof fn remembering_keeps_a_day_in_order<V>(history: Seq<Sample<V>>, sample: Sample<V>)
    requires
        in_time_order(history),
        history.len() > 0 ==> history.last().at_unix <= sample.at_unix,
    ensures
        ({
            let kept = without_older_front(history.push(sample), sample.at_unix - HORIZON_SECONDS);
            &&& in_time_order(kept)
            &&& kept.len() > 0
            &&& kept.last() == sample
            &&& forall|i: int|
                0 <= i < kept.len() ==> (#[trigger] kept[i]).at_unix >= sample.at_unix
                    - HORIZON_SECONDS
        }),
{
    let all = history.push(sample);
    let horizon = sample.at_unix - HORIZON_SECONDS;
    assert(in_time_order(all)) by {
        assert forall|i: int, j: int| 0 <= i <= j < all.len() implies (#[trigger] all[i]).at_unix
            <= (#[trigger] all[j]).at_unix by {
            if j == history.len() && i < j {
                assert(history[i].at_unix <= history.last().at_unix);
            }
        }
    }
    lemma_without_older_front(all, horizon);
    let kept = without_older_front(all, horizon);
    let skipped = all.len() - kept.len();
    assert(all[all.len() - 1] == sample);
    if kept.len() == 0 {
        assert(all[all.len() - 1].at_unix < horizon);
    }
    assert forall|i: int, j: int| 0 <= i <= j < kept.len() implies (#[trigger] kept[i]).at_unix
        <= (#[trigger] kept[j]).at_unix by {
        assert(kept[i] == all[skipped + i] && kept[j] == all[skipped + j]);
    }
    assert forall|i: int| 0 <= i < kept.len() implies (#[trigger] kept[i]).at_unix >= horizon by {
        assert(kept[0] == all[skipped] && kept[i] == all[skipped + i]);
    }
    assert(kept.last() == all[all.len() - 1]);
}

/// How long a timeline covers, oldest to newest, and never nothing.
pub open spec fn spec_timeline_span<V>(samples: Seq<Sample<V>>) -> int {
    if samples.len() == 0 {
        1
    } else {
        let span = samples.last().at_unix - samples[0].at_unix;
        if span >= 1 { span } else { 1 }
    }
}

pub fn timeline_span<V>(samples: &[Sample<V>]) -> (span: i64)
    requires
        samples@.len() > 0 ==> i64::MIN <= samples@.last().at_unix - samples@[0].at_unix
            <= i64::MAX,
    ensures
        span == spec_timeline_span(samples@),
{
    if samples.len() == 0 {
        return 1;
    }
    let span = samples[samples.len() - 1].at_unix - samples[0].at_unix;
    if span >= 1 {
        span
    } else {
        1
    }
}

/// The most points a graph is drawn from.
pub const GRAPH_POINTS: usize = 300;

/// The positions of the samples taken inside `start..=end`, in order.
pub open spec fn window_of<V>(samples: Seq<Sample<V>>, start: int, end: int) -> Seq<int>
    decreases samples.len(),
{
    if samples.len() == 0 {
        Seq::empty()
    } else {
        let rest = window_of(samples.drop_last(), start, end);
        let at = samples.last().at_unix;
        if start <= at <= end {
            rest.push(samples.len() - 1)
        } else {
            rest
        }
    }
}

/// Every `stride`-th position counting back from the newest, which is
/// always among them, listed oldest first.
pub open spec fn thinned(visible: Seq<int>, stride: int) -> Seq<int> {
    if visible.len() == 0 {
        Seq::empty()
    } else {
        let last = visible.len() - 1;
        Seq::new((last / stride + 1) as nat, |t: int| visible[last % stride + t * stride])
    }
}

/// How far apart the kept points are: enough that no more than the graph's
/// points remain, and at least one.
pub open spec fn stride_for(count: int) -> int {
    let stride = (count + GRAPH_POINTS - 1) / GRAPH_POINTS as int;
    if stride >= 1 { stride } else { 1 }
}

/// The graph's points for the `seconds` ending at the newest sample: the
/// samples inside that window, thinned to the graph's points with the
/// newest always kept. Empty for an empty timeline.
pub open spec fn timeline_points_of<V>(samples: Seq<Sample<V>>, seconds: int) -> Seq<int> {
    if samples.len() == 0 {
        Seq::empty()
    } else {
        let end = samples.last().at_unix as int;
        let duration = if seconds >= 1 { seconds } else { 1 };
        let visible = window_of(samples, end - duration, end);
        thinned(visible, stride_for(visible.len() as int))
    }
}

proof fn lemma_window_of<V>(samples: Seq<Sample<V>>, start: int, end: int)
    ensures
        window_of(samples, start, end).len() <= samples.len(),
        forall|k: int|
            0 <= k < window_of(samples, start, end).len() ==> {
                let p = #[trigger] window_of(samples, start, end)[k];
                &&& 0 <= p < samples.len()
                &&& start <= samples[p].at_unix <= end
            },
        forall|k: int, l: int|
            0 <= k < l < window_of(samples, start, end).len() ==> #[trigger] window_of(
                samples,
                start,
                end,
            )[k] < #[trigger] window_of(samples, start, end)[l],
    decreases samples.len(),
{
    if samples.len() > 0 {
        lemma_window_of(samples.drop_last(), start, end);
    }
}

/// Positions as integers.
pub open spec fn positions(points: Seq<usize>) -> Seq<int> {
    points.map_values(|p: usize| p as int)
}

/// Which samples the history graph plots for a range, by position: those
/// inside the range ending at the newest sample, thinned to the graph's
/// points with the newest always kept. The graph places each by its time
/// rather than its position, so a stretch the machine slept through shows
/// as a gap.
pub fn timeline_points<V>(samples: &[Sample<V>], seconds: i64) -> (points: Vec<usize>)
    requires
        samples@.len() > 0 ==> samples@.last().at_unix - (if seconds >= 1 { seconds as int } else { 1 })
            >= i64::MIN,
    ensures
        positions(points@) == timeline_points_of(samples@, seconds as int),
{
    let mut points: Vec<usize> = Vec::new();
    if samples.len() == 0 {
        assert(positions(points@) =~= Seq::<int>::empty());
        return points;
    }
    let end = samples[samples.len() - 1].at_unix;
    let duration: i64 = if seconds >= 1 { seconds } else { 1 };
    let start = end - duration;
    let ghost window = window_of(samples@, start as int, end as int);
    let mut visible: Vec<usize> = Vec::new();
    let mut i: usize = 0;
    while i < samples.len()
        invariant
            i <= samples@.len(),
            positions(visible@) == window_of(
                samples@.subrange(0, i as int),
                start as int,
                end as int,
            ),
        decreases samples@.len() - i,
    {
        proof {
            let upto = samples@.subrange(0, i + 1);
            assert(upto.drop_last() =~= samples@.subrange(0, i as int));
            assert(upto.last() == samples@[i as int]);
        }
        let at = samples[i].at_unix;
        if start <= at && at <= end {
            let ghost before = visible@;
            visible.push(i);
            assert(positions(visible@) =~= positions(before).push(
                i as int,
            ));
        }
        i += 1;
    }
    assert(samples@.subrange(0, i as int) =~= samples@);
    let n = visible.len();
    let ghost seen = positions(visible@);
    assert(seen == window);
    proof {
        lemma_window_of(samples@, start as int, end as int);
    }
    if n == 0 {
        assert(positions(points@) =~= Seq::<int>::empty());
        return points;
    }
    let ceiling: usize = (n - 1) / GRAPH_POINTS + 1;
    let stride: usize = if ceiling >= 1 { ceiling } else { 1 };
    proof {
        assert(stride == stride_for(n as int)) by {
            assert(((n - 1) / 300 + 1) == (n + 299) / 300) by {
                vstd::arithmetic::div_mod::lemma_fundamental_div_mod(n - 1, 300);
                vstd::arithmetic::div_mod::lemma_fundamental_div_mod_converse(
                    n + 299,
                    300,
                    (n - 1) / 300 + 1,
                    (n - 1) % 300,
                );
            }
        }
    }
    let last = n - 1;
    let first = last % stride;
    let count = last / stride + 1;
    proof {
        vstd::arithmetic::div_mod::lemma_fundamental_div_mod(last as int, stride as int);
        assert(first + (count - 1) * stride == last) by (nonlinear_arith)
            requires
                last == stride * (last / stride) + last % stride,
                first == last % stride,
                count == last / stride + 1,
        ;
    }
    let mut k = first;
    let mut t: usize = 0;
    while t < count
        invariant
            n == visible@.len(),
            seen == positions(visible@),
            n >= 1,
            last == n - 1,
            stride >= 1,
            first == last % stride,
            first + (count - 1) * stride == last,
            t <= count,
            t < count ==> k == first + t * stride,
            positions(points@) == Seq::new(t as nat, |j: int| seen[first + j * stride]),
        decreases count - t,
    {
        assert(k <= last) by (nonlinear_arith)
            requires
                k == first + t * stride,
                t < count,
                first + (count - 1) * stride == last,
                stride >= 1,
        ;
        let ghost before = points@;
        points.push(visible[k]);
        proof {
            let now = positions(points@);
            let was = positions(before);
            assert(was.len() == t);
            assert(before.len() == t);
            assert(points@.len() == t + 1);
            assert(seen[k as int] == visible@[k as int] as int);
            assert forall|j: int| 0 <= j < t + 1 implies #[trigger] now[j] == seen[first + j * stride] by {
                if j < t {
                    assert(points@[j] == before[j]);
                    assert(was[j] == seen[first + j * stride]);
                }
            }
            assert(now =~= Seq::new((t + 1) as nat, |j: int| seen[first + j * stride]));
        }
        t = t + 1;
        if t < count {
            assert(k + stride <= last) by (nonlinear_arith)
                requires
                    k == first + (t - 1) * stride,
                    t < count,
                    first + (count - 1) * stride == last,
                    stride >= 1,
            ;
            assert(k + stride == first + t * stride) by (nonlinear_arith)
                requires
                    k == first + (t - 1) * stride,
            ;
            k = k + stride;
        }
    }
    proof {
        assert(timeline_points_of(samples@, seconds as int) == thinned(seen, stride as int));
        assert(count == last / stride + 1);
    }
    points
}

/// However long the timeline, the graph is drawn from no more than its
/// points, in time order, and the newest sample inside the range is always
/// one of them.
pub proof fn the_timeline_keeps_the_newest_and_no_more_than_fits(visible: Seq<int>)
    requires
        forall|k: int, l: int| 0 <= k < l < visible.len() ==> #[trigger] visible[k] < #[trigger] visible[l],
    ensures
        thinned(visible, stride_for(visible.len() as int)).len() <= GRAPH_POINTS,
        visible.len() > 0 ==> thinned(visible, stride_for(visible.len() as int)).last() == visible.last(),
        forall|k: int, l: int|
            0 <= k < l < thinned(visible, stride_for(visible.len() as int)).len() ==> #[trigger] thinned(
                visible,
                stride_for(visible.len() as int),
            )[k] < #[trigger] thinned(visible, stride_for(visible.len() as int))[l],
{
    let n = visible.len() as int;
    if n > 0 {
        let s = stride_for(n);
        let last = n - 1;
        let r = last % s;
        let q = last / s;
        vstd::arithmetic::div_mod::lemma_fundamental_div_mod(last, s);
        assert(q < 300) by (nonlinear_arith)
            requires
                s >= 1,
                s >= (n + 299) / 300,
                last == s * q + r,
                r >= 0,
                last == n - 1,
                n >= 1,
        {
            vstd::arithmetic::div_mod::lemma_fundamental_div_mod(n + 299, 300);
        }
        assert(r + q * s == last) by (nonlinear_arith)
            requires
                last == s * q + r,
        ;
        let kept = thinned(visible, s);
        assert forall|k: int, l: int| 0 <= k < l < kept.len() implies #[trigger] kept[k] < #[trigger] kept[l] by {
            assert(r + k * s < r + l * s) by (nonlinear_arith)
                requires
                    k < l,
                    s >= 1,
            ;
            assert(r + l * s <= last) by (nonlinear_arith)
                requires
                    l <= q,
                    s >= 1,
                    r + q * s == last,
            ;
            assert(0 <= r + k * s) by (nonlinear_arith)
                requires
                    k >= 0,
                    s >= 1,
                    r >= 0,
            ;
        }
    }
}

// ---------------------------------------------------------------------------
// Cores
// ---------------------------------------------------------------------------

pub open spec fn kind_letter(kind: CoreKind) -> char {
    match kind {
        CoreKind::Performance => 'P',
        CoreKind::Efficiency => 'E',
        CoreKind::Unknown => 'C',
    }
}

/// "P1", "E1", or "C1" for a core whose kind the OS does not say, counting
/// from one.
pub fn core_label(index: usize, kind: CoreKind) -> (label: String)
    requires
        index < usize::MAX,
    ensures
        label@ == seq![kind_letter(kind)] + decimal((index + 1) as nat),
{
    let letter = match kind {
        CoreKind::Performance => "P",
        CoreKind::Efficiency => "E",
        CoreKind::Unknown => "C",
    };
    proof {
        reveal_strlit("P");
        reveal_strlit("E");
        reveal_strlit("C");
    }
    let mut label = String::new();
    label.append(letter);
    assert(label@ =~= seq![kind_letter(kind)]);
    push_decimal(&mut label, (index + 1) as u64);
    label
}

/// How many cores are of a kind.
pub open spec fn how_many(kinds: Seq<CoreKind>, kind: CoreKind) -> nat
    decreases kinds.len(),
{
    if kinds.len() == 0 {
        0
    } else {
        how_many(kinds.drop_last(), kind) + if kinds.last() == kind { 1nat } else { 0 }
    }
}

fn count_kind(kinds: &[CoreKind], kind: CoreKind) -> (n: usize)
    ensures
        n == how_many(kinds@, kind),
{
    let mut n: usize = 0;
    let mut i: usize = 0;
    while i < kinds.len()
        invariant
            i <= kinds@.len(),
            n <= i,
            n == how_many(kinds@.subrange(0, i as int), kind),
        decreases kinds@.len() - i,
    {
        assert(kinds@.subrange(0, i + 1).drop_last() =~= kinds@.subrange(0, i as int));
        if kinds[i] == kind {
            n += 1;
        }
        i += 1;
    }
    assert(kinds@.subrange(0, i as int) =~= kinds@);
    n
}

/// The Cores card's summary: the performance and efficiency split when
/// there is one, a plain count when there is not, and the processor count
/// when no core has been measured yet.
pub open spec fn core_summary_text(kinds: Seq<CoreKind>, logical_processors: Option<usize>) -> Seq<
    char,
> {
    if kinds.len() == 0 {
        match logical_processors {
            Some(n) => decimal(n as nat) + " logical processors"@,
            None => Seq::empty(),
        }
    } else {
        let performance = how_many(kinds, CoreKind::Performance);
        let efficiency = how_many(kinds, CoreKind::Efficiency);
        if performance > 0 && efficiency > 0 {
            decimal(performance) + " performance \u{00B7} "@ + decimal(efficiency) + " efficiency"@
        } else {
            decimal(kinds.len()) + " cores"@
        }
    }
}

/// The Cores card's summary, from the kinds of the cores measured.
pub fn core_summary(kinds: &[CoreKind], logical_processors: Option<usize>) -> (summary: String)
    ensures
        summary@ == core_summary_text(kinds@, logical_processors),
{
    let mut summary = String::new();
    if kinds.len() == 0 {
        if let Some(n) = logical_processors {
            push_decimal(&mut summary, n as u64);
            summary.append(" logical processors");
        }
        return summary;
    }
    let performance = count_kind(kinds, CoreKind::Performance);
    let efficiency = count_kind(kinds, CoreKind::Efficiency);
    if performance > 0 && efficiency > 0 {
        push_decimal(&mut summary, performance as u64);
        summary.append(" performance \u{00B7} ");
        push_decimal(&mut summary, efficiency as u64);
        summary.append(" efficiency");
    } else {
        push_decimal(&mut summary, kinds.len() as u64);
        summary.append(" cores");
    }
    summary
}

// ---------------------------------------------------------------------------
// System
// ---------------------------------------------------------------------------

/// "3d 4h 12m", or "4h 12m" inside the first day.
pub open spec fn uptime_text(secs: Option<u64>) -> Seq<char> {
    match secs {
        None => "Unavailable"@,
        Some(secs) => {
            let days = secs / 86_400;
            let hours = secs % 86_400 / 3_600;
            let minutes = secs % 3_600 / 60;
            if days > 0 {
                decimal(days as nat) + "d "@ + decimal(hours as nat) + "h "@ + decimal(
                    minutes as nat,
                ) + "m"@
            } else {
                decimal(hours as nat) + "h "@ + decimal(minutes as nat) + "m"@
            }
        },
    }
}

/// How long the machine has been up, or that it cannot be said.
pub fn uptime(secs: Option<u64>) -> (text: String)
    ensures
        text@ == uptime_text(secs),
{
    let mut text = String::new();
    match secs {
        None => {
            text.append("Unavailable");
        },
        Some(secs) => {
            let days = secs / 86_400;
            let hours = secs % 86_400 / 3_600;
            let minutes = secs % 3_600 / 60;
            if days > 0 {
                push_decimal(&mut text, days);
                text.append("d ");
            }
            push_decimal(&mut text, hours);
            text.append("h ");
            push_decimal(&mut text, minutes);
            text.append("m");
        },
    }
    text
}

/// A count, or the dash when it is not known.
pub open spec fn count_text(value: Option<u32>) -> Seq<char> {
    match value {
        Some(n) => decimal(n as nat),
        None => DASH@,
    }
}

pub fn count(value: Option<u32>) -> (text: String)
    ensures
        text@ == count_text(value),
{
    let mut text = String::new();
    match value {
        Some(n) => push_decimal(&mut text, n as u64),
        None => text.append(DASH),
    }
    text
}

/// "1234  ·  18765 threads", or whichever half is known.
pub open spec fn processes_text_of(processes: Option<u32>, threads: Option<u32>) -> Seq<char> {
    match (processes, threads) {
        (Some(p), Some(t)) => decimal(p as nat) + "  \u{00B7}  "@ + decimal(t as nat) + " threads"@,
        (Some(p), None) => decimal(p as nat),
        (None, Some(t)) => decimal(t as nat) + " threads"@,
        (None, None) => DASH@,
    }
}

pub fn processes_text(processes: Option<u32>, threads: Option<u32>) -> (text: String)
    ensures
        text@ == processes_text_of(processes, threads),
{
    let mut text = String::new();
    match (processes, threads) {
        (Some(p), Some(t)) => {
            push_decimal(&mut text, p as u64);
            text.append("  \u{00B7}  ");
            push_decimal(&mut text, t as u64);
            text.append(" threads");
        },
        (Some(p), None) => push_decimal(&mut text, p as u64),
        (None, Some(t)) => {
            push_decimal(&mut text, t as u64);
            text.append(" threads");
        },
        (None, None) => text.append(DASH),
    }
    text
}

// ---------------------------------------------------------------------------
// Presses
// ---------------------------------------------------------------------------

/// What the panel asks for after a press.
#[derive(Clone, Debug, PartialEq, Eq)]
pub enum CpuAction {
    /// The panel changed; lay it out again.
    Rebuild,
    /// The end-task glyph on a process row: which process was meant.
    EndTask { pid: u32, name: String },
}

/// A process row's id is its place in the list from here on.
pub const PROCESS_ID: u32 = 100;

/// The end-task glyph answers to this bit with the process id of its row,
/// so a press ends the process named on the row rather than whatever has
/// climbed into that slot since it was drawn.
pub const END_TASK_ID: u32 = 0x8000_0000;

/// The end-task glyph's id for a process: the process id with the
/// end-task bit set. Process ids below that bit come back unchanged from
/// `end_task_pid`.
pub fn end_task_id(pid: u32) -> (id: Id)
    ensures
        id == Id::Custom(END_TASK_ID | pid),
        pid < END_TASK_ID ==> id == Id::Custom((END_TASK_ID + pid) as u32),
{
    assert(pid < 0x8000_0000u32 ==> 0x8000_0000u32 | pid == 0x8000_0000u32 + pid) by (bit_vector);
    Id::Custom(END_TASK_ID | pid)
}

/// The process an end-task glyph's id names, if it is one.
pub open spec fn spec_end_task_pid(id: Id) -> Option<u32> {
    match id {
        Id::Custom(n) => if n >= END_TASK_ID {
            Some((n - END_TASK_ID) as u32)
        } else {
            None
        },
        _ => None,
    }
}

pub fn end_task_pid(id: Id) -> (pid: Option<u32>)
    ensures
        pid == spec_end_task_pid(id),
{
    match id {
        Id::Custom(n) => {
            if n < END_TASK_ID {
                None
            } else {
                assert(n >= 0x8000_0000u32 ==> n & !0x8000_0000u32 == n - 0x8000_0000u32)
                    by (bit_vector);
                Some(n & !END_TASK_ID)
            }
        },
        _ => None,
    }
}

/// The range a press on the picker switches to: the chip's range when it
/// is one and not the range already shown, otherwise nothing to do.
pub fn switched_range(current: HistoryRange, id: Id) -> (range: Option<HistoryRange>)
    ensures
        range == match HistoryRange::spec_from_id(id) {
            Some(r) => if r != current { Some(r) } else { None },
            None => None,
        },
{
    match HistoryRange::from_id(id) {
        Some(range) => {
            if range != current {
                Some(range)
            } else {
                None
            }
        },
        None => None,
    }
}

/// The first place a process id holds in a list, if it is there.
pub open spec fn place_of(pids: Seq<u32>, pid: u32) -> Option<int>
    decreases pids.len(),
{
    if pids.len() == 0 {
        None
    } else if pids[0] == pid {
        Some(0)
    } else {
        match place_of(pids.drop_first(), pid) {
            Some(i) => Some(i + 1),
            None => None,
        }
    }
}

/// Which of the shown process rows an end-task press meant: the row of the
/// process its id names, while that process is still shown. A row that has
/// scrolled out from under the press since it was drawn is nothing the user
/// could have meant.
pub fn end_task_row(id: Id, shown: &[u32]) -> (row: Option<usize>)
    ensures
        row == match spec_end_task_pid(id) {
            Some(pid) => match place_of(shown@, pid) {
                Some(i) => Some(i as usize),
                None => None,
            },
            None => None,
        },
{
    let pid = match end_task_pid(id) {
        Some(pid) => pid,
        None => return None,
    };
    let mut i: usize = 0;
    assert(shown@.subrange(0, shown@.len() as int) =~= shown@);
    while i < shown.len()
        invariant
            i <= shown@.len(),
            spec_end_task_pid(id) == Some(pid),
            place_of(shown@, pid) == match place_of(shown@.subrange(i as int, shown@.len() as int), pid) {
                Some(j) => Some(j + i),
                None => None,
            },
        decreases shown@.len() - i,
    {
        let ghost rest = shown@.subrange(i as int, shown@.len() as int);
        assert(rest.drop_first() =~= shown@.subrange(i + 1, shown@.len() as int));
        if shown[i] == pid {
            assert(rest[0] == pid);
            return Some(i);
        }
        i += 1;
    }
    None
}

/// An end-task glyph's id names the process it was made for.
pub proof fn an_end_task_id_names_its_process(pid: u32)
    requires
        pid < END_TASK_ID,
    ensures
        spec_end_task_pid(Id::Custom((END_TASK_ID + pid) as u32)) == Some(pid),
        HistoryRange::spec_from_id(Id::Custom((END_TASK_ID + pid) as u32)) is None,
{
}

/// One card of the processor panel.
#[derive(Copy, Clone, Debug, PartialEq, Eq, Structural)]
pub enum CpuCard {
    /// The history graph with its range picker; it stands before the first
    /// sample too, with an empty graph.
    History,
    /// The cores: their bars when any has been measured, else a caption
    /// that they arrive with the next sample.
    Cores { measured: bool },
    /// Uptime, processes and handles, led by the load average when the
    /// machine has answered with one.
    System { load_average: bool },
    /// The top processes: this many rows, or, with none, the caption that
    /// they are being measured.
    Processes { rows: usize },
}

/// The smaller of two counts.
pub open spec fn fewer(a: int, b: int) -> int {
    if a < b { a } else { b }
}

/// The processor panel's cards, in the order they stack: the history
/// always; then, once there is a sample, the cores and the system; then
/// the top processes when the setting shows them and any is listed, or
/// their caption while they are still being measured.
pub open spec fn cpu_cards_of(
    sampled: bool,
    cores_measured: bool,
    load_average: bool,
    show_processes: bool,
    process_count: int,
    listed: int,
    measuring: bool,
) -> Seq<CpuCard> {
    if !sampled {
        seq![CpuCard::History]
    } else {
        let rows = if show_processes { fewer(listed, process_count) } else { 0 };
        let head = seq![
            CpuCard::History,
            CpuCard::Cores { measured: cores_measured },
            CpuCard::System { load_average },
        ];
        if rows > 0 {
            head.push(CpuCard::Processes { rows: rows as usize })
        } else if show_processes && measuring {
            head.push(CpuCard::Processes { rows: 0 })
        } else {
            head
        }
    }
}

/// The processor panel's cards, from what the sample holds: whether there
/// is one, whether any core was measured, whether a load average came, how
/// many processes the setting shows and are listed, and whether they are
/// still being measured.
pub fn cpu_cards(
    sampled: bool,
    cores_measured: bool,
    load_average: bool,
    show_processes: bool,
    process_count: usize,
    listed: usize,
    measuring: bool,
) -> (cards: Vec<CpuCard>)
    ensures
        cards@ == cpu_cards_of(
            sampled,
            cores_measured,
            load_average,
            show_processes,
            process_count as int,
            listed as int,
            measuring,
        ),
{
    let mut cards: Vec<CpuCard> = Vec::new();
    cards.push(CpuCard::History);
    if !sampled {
        assert(cards@ =~= seq![CpuCard::History]);
        return cards;
    }
    cards.push(CpuCard::Cores { measured: cores_measured });
    cards.push(CpuCard::System { load_average });
    let ghost head = cards@;
    assert(head =~= seq![
        CpuCard::History,
        CpuCard::Cores { measured: cores_measured },
        CpuCard::System { load_average },
    ]);
    let rows: usize = if show_processes {
        if listed < process_count { listed } else { process_count }
    } else {
        0
    };
    if rows > 0 {
        cards.push(CpuCard::Processes { rows });
    } else if show_processes && measuring {
        cards.push(CpuCard::Processes { rows: 0 });
    }
    cards
}

} // verus!
