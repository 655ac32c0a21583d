//! The executable icons behind the panels' process rows: which are kept,
//! and which are given back to be destroyed.
//!
//! Icons are cached by executable path, because a hundred processes share
//! one executable and one icon, and the handles count against a quota, so
//! there is a ceiling and the coldest goes first. Ages are counted in
//! layout passes rather than in calls, because every row of one list is
//! equally recent.
//!
//! Eviction only ever hands handles back; destroying them is the caller's,
//! at the one moment no layout can still be drawing them.

use vstd::prelude::*;

use crate::text::chars_of;

verus! {

/// How many executables' icons are kept.
pub const MAX_ICONS: usize = 64;

// ---------------------------------------------------------------------------
// Text order
// ---------------------------------------------------------------------------

/// How many leading characters two texts share.
pub open spec fn shared_prefix(a: Seq<char>, b: Seq<char>) -> nat
    decreases a.len(),
{
    if a.len() == 0 || b.len() == 0 || a[0] != b[0] {
        0
    } else {
        1 + shared_prefix(a.drop_first(), b.drop_first())
    }
}

/// Text order: a proper prefix comes first, and otherwise the smaller
/// character where the two first differ. This is the order of UTF-8 bytes,
/// which is how strings compare.
pub open spec fn text_before(a: Seq<char>, b: Seq<char>) -> bool {
    let n = shared_prefix(a, b) as int;
    ||| n == a.len() && n < b.len()
    ||| n < a.len() && n < b.len() && (a[n] as int) < (b[n] as int)
}

proof fn lemma_shared_prefix(a: Seq<char>, b: Seq<char>)
    ensures
        shared_prefix(a, b) <= a.len(),
        shared_prefix(a, b) <= b.len(),
        forall|i: int| 0 <= i < shared_prefix(a, b) ==> a[i] == b[i],
        shared_prefix(a, b) < a.len() && shared_prefix(a, b) < b.len() ==> a[shared_prefix(a, b) as int]
            != b[shared_prefix(a, b) as int],
        shared_prefix(a, b) == shared_prefix(b, a),
    decreases a.len(),
{
    if !(a.len() == 0 || b.len() == 0 || a[0] != b[0]) {
        lemma_shared_prefix(a.drop_first(), b.drop_first());
        assert forall|i: int| 0 <= i < shared_prefix(a, b) implies a[i] == b[i] by {
            if i > 0 {
                assert(a[i] == a.drop_first()[i - 1] && b[i] == b.drop_first()[i - 1]);
            }
        }
    }
}

/// Where two texts first differ is pinned down by agreeing up to it.
proof fn lemma_shared_prefix_is(a: Seq<char>, b: Seq<char>, n: int)
    requires
        0 <= n <= a.len(),
        n <= b.len(),
        forall|i: int| 0 <= i < n ==> a[i] == b[i],
        n == a.len() || n == b.len() || a[n] != b[n],
    ensures
        shared_prefix(a, b) == n,
{
    lemma_shared_prefix(a, b);
    let m = shared_prefix(a, b) as int;
    if m < n {
        assert(a[m] == b[m]);
    }
    if m > n {
        assert(a[n] == b[n]);
    }
}

/// Of two different texts, one comes before the other, and never both.
pub proof fn text_order_is_total(a: Seq<char>, b: Seq<char>)
    ensures
        a != b ==> text_before(a, b) || text_before(b, a),
        !(text_before(a, b) && text_before(b, a)),
        !text_before(a, a),
{
    lemma_shared_prefix(a, b);
    lemma_shared_prefix(a, a);
    let n = shared_prefix(a, b) as int;
    if n == a.len() && n == b.len() {
        assert(a =~= b);
    } else if n < a.len() && n < b.len() {
        assert(a[n] != b[n]);
        assert((a[n] as int) != (b[n] as int));
        if (a[n] as int) < (b[n] as int) {
            assert(text_before(a, b));
        } else {
            assert(text_before(b, a));
        }
    }
    lemma_shared_prefix_is(a, a, a.len() as int);
}

/// Text order is transitive.
pub proof fn text_order_is_transitive(a: Seq<char>, b: Seq<char>, c: Seq<char>)
    requires
        text_before(a, b),
        text_before(b, c),
    ensures
        text_before(a, c),
{
    lemma_shared_prefix(a, b);
    lemma_shared_prefix(b, c);
    lemma_shared_prefix(a, c);
    let p = shared_prefix(a, b) as int;
    let q = shared_prefix(b, c) as int;
    if p < q {
        lemma_shared_prefix_is(a, c, p);
        assert(b[p] == c[p]);
    } else if q < p {
        lemma_shared_prefix_is(a, c, q);
        assert(a[q] == b[q]);
    } else {
        if p < a.len() {
            lemma_shared_prefix_is(a, c, p);
        } else {
            lemma_shared_prefix_is(a, c, p);
        }
    }
}

/// Whether one text comes before another.
pub fn text_precedes(a: &str, b: &str) -> (before: bool)
    ensures
        before == text_before(a@, b@),
{
    let x = chars_of(a);
    let y = chars_of(b);
    let mut i: usize = 0;
    while i < x.len() && i < y.len() && x[i] == y[i]
        invariant
            i <= x@.len(),
            i <= y@.len(),
            forall|j: int| 0 <= j < i ==> x@[j] == y@[j],
        decreases x@.len() - i,
    {
        i += 1;
    }
    proof {
        lemma_shared_prefix_is(x@, y@, i as int);
    }
    if i == x.len() {
        i < y.len()
    } else if i == y.len() {
        false
    } else {
        x[i] < y[i]
    }
}

// ---------------------------------------------------------------------------
// The cache
// ---------------------------------------------------------------------------

/// An executable's icon, and the pass it was last asked for on.
#[derive(Clone, Debug, PartialEq)]
pub struct IconEntry {
    pub path: String,
    pub pass: u64,
    /// None when the shell had no icon for the file, which is remembered
    /// so that it is not asked again every frame.
    pub icon: Option<isize>,
}

/// What an entry is to the eviction order: its path, its pass and its icon.
pub type EntryView = (Seq<char>, u64, Option<isize>);

pub open spec fn entry_view(e: IconEntry) -> EntryView {
    (e.path@, e.pass, e.icon)
}

/// Whether one entry is colder than another: asked for on an earlier pass,
/// or on the same pass with a path that comes first.
pub open spec fn colder(a: EntryView, b: EntryView) -> bool {
    a.1 < b.1 || (a.1 == b.1 && text_before(a.0, b.0))
}

/// No path is held twice.
pub open spec fn distinct_paths(entries: Seq<EntryView>) -> bool {
    forall|i: int, j: int|
        0 <= i < entries.len() && 0 <= j < entries.len() && i != j ==> (#[trigger] entries[i]).0
            != (#[trigger] entries[j]).0
}

/// The handles a run of entries holds, in order; an entry without an icon
/// holds none.
pub open spec fn handles(entries: Seq<EntryView>) -> Seq<isize>
    decreases entries.len(),
{
    if entries.len() == 0 {
        Seq::empty()
    } else {
        handles(entries.drop_last()) + match entries.last().2 {
            Some(icon) => seq![icon],
            None => Seq::empty(),
        }
    }
}

/// Eviction as a whole: with the entries that went listed coldest first,
/// at most `ceiling` stay (all of them when there were no more), nothing
/// new appears, every entry that went is colder than every one that
/// stayed, and the handles given back are theirs, in that order.
pub open spec fn evicted_by(
    before: Seq<EntryView>,
    after: Seq<EntryView>,
    ceiling: int,
    given_back: Seq<isize>,
    removed: Seq<EntryView>,
) -> bool {
    &&& after.len() == if before.len() > ceiling { ceiling } else { before.len() as int }
    &&& forall|e: EntryView| #[trigger] after.contains(e) ==> before.contains(e)
    &&& forall|e: EntryView| #[trigger] removed.contains(e) ==> before.contains(e) && !after.contains(e)
    &&& forall|e: EntryView| #[trigger] before.contains(e) ==> after.contains(e) || removed.contains(e)
    &&& forall|i: int, j: int| 0 <= i < j < removed.len() ==> colder(#[trigger] removed[i], #[trigger] removed[j])
    &&& forall|i: int, j: int| 0 <= i < removed.len() && 0 <= j < after.len() ==> colder(#[trigger] removed[i], #[trigger] after[j])
    &&& given_back == handles(removed)
}

pub open spec fn evicted(before: Seq<EntryView>, after: Seq<EntryView>, ceiling: int, given_back: Seq<isize>) -> bool {
    exists|removed: Seq<EntryView>| evicted_by(before, after, ceiling, given_back, removed)
}

/// An entry asked for more recently than every other is never the one
/// evicted while the ceiling leaves room for one: a row on screen keeps its
/// icon.
pub proof fn the_newest_entry_is_never_evicted(
    before: Seq<EntryView>,
    after: Seq<EntryView>,
    ceiling: int,
    given_back: Seq<isize>,
    newest: EntryView,
)
    requires
        evicted(before, after, ceiling, given_back),
        ceiling >= 1,
        before.contains(newest),
        forall|e: EntryView| #[trigger] before.contains(e) && e != newest ==> e.1 < newest.1,
    ensures
        after.contains(newest),
{
    let removed = choose|removed: Seq<EntryView>| evicted_by(before, after, ceiling, given_back, removed);
    if !after.contains(newest) {
        assert(removed.contains(newest));
        let i = choose|i: int| 0 <= i < removed.len() && removed[i] == newest;
        assert(after.len() >= 1);
        assert(after.contains(after[0]));
        assert(before.contains(after[0]));
        assert(colder(removed[i], after[0]));
    }
}

/// Removing an entry from a cache with no path held twice leaves one with
/// none, and the entry is no longer in it.
proof fn lemma_removed_entry(entries: Seq<EntryView>, k: int)
    requires
        0 <= k < entries.len(),
        distinct_paths(entries),
    ensures
        distinct_paths(entries.remove(k)),
        !entries.remove(k).contains(entries[k]),
{
    let rest = entries.remove(k);
    assert forall|a: int, b: int| 0 <= a < rest.len() && 0 <= b < rest.len() && a != b implies (
    #[trigger] rest[a]).0 != (#[trigger] rest[b]).0 by {
        let a0 = if a < k { a } else { a + 1 };
        let b0 = if b < k { b } else { b + 1 };
        assert(rest[a] == entries[a0] && rest[b] == entries[b0]);
    }
    if rest.contains(entries[k]) {
        let m = choose|m: int| 0 <= m < rest.len() && rest[m] == entries[k];
        let m0 = if m < k { m } else { m + 1 };
        assert(rest[m] == entries[m0]);
    }
}

/// Executable icons by path, with the pass each was last asked for on.
pub struct Cache {
    entries: Vec<IconEntry>,
    pass: u64,
    /// Paths a worker is asking the shell about, so a redraw does not start
    /// a second worker on the same file every frame while the first waits.
    asking: Vec<String>,
}

impl View for Cache {
    type V = Seq<EntryView>;

    closed spec fn view(&self) -> Seq<EntryView> {
        self.entries@.map_values(|e: IconEntry| entry_view(e))
    }
}

impl Cache {
    /// The current pass.
    pub closed spec fn spec_pass(&self) -> u64 {
        self.pass
    }

    /// The paths being asked about.
    pub closed spec fn asked(&self) -> Seq<Seq<char>> {
        self.asking@.map_values(|p: String| p@)
    }

    /// The cache's invariant: no path is held twice.
    pub open spec fn well_formed(&self) -> bool {
        distinct_paths(self@)
    }

    /// The place of an entry for a path, if there is one.
    pub open spec fn holds(&self, path: Seq<char>) -> bool {
        exists|i: int| 0 <= i < self@.len() && (#[trigger] self@[i]).0 == path
    }

    pub fn new() -> (cache: Cache)
        ensures
            cache@.len() == 0,
            cache.spec_pass() == 0,
            cache.asked().len() == 0,
            cache.well_formed(),
    {
        let cache = Cache { entries: Vec::new(), pass: 0, asking: Vec::new() };
        assert(cache@ =~= Seq::<EntryView>::empty());
        assert(cache.asked() =~= Seq::<Seq<char>>::empty());
        cache
    }

    pub fn pass(&self) -> (pass: u64)
        ensures
            pass == self.spec_pass(),
    {
        self.pass
    }

    pub fn len(&self) -> (n: usize)
        ensures
            n == self@.len(),
    {
        self.entries.len()
    }

    fn find(&self, path: &str) -> (found: Option<usize>)
        requires
            self.well_formed(),
        ensures
            match found {
                Some(i) => i < self@.len() && self@[i as int].0 == path@,
                None => !self.holds(path@),
            },
    {
        let mut i: usize = 0;
        while i < self.entries.len()
            invariant
                i <= self.entries@.len(),
                self@ == self.entries@.map_values(|e: IconEntry| entry_view(e)),
                forall|j: int| 0 <= j < i ==> self@[j].0 != path@,
            decreases self.entries@.len() - i,
        {
            if text_equal(self.entries[i].path.as_str(), path) {
                return Some(i);
            }
            i += 1;
        }
        None
    }

    /// Whether an executable's icon, or the lack of one, is known.
    pub fn contains(&self, path: &str) -> (known: bool)
        requires
            self.well_formed(),
        ensures
            known == self.holds(path@),
    {
        self.find(path).is_some()
    }

    /// What a row asking for an executable's icon does on a hit: the entry
    /// takes the current pass, so a row on screen is never the coldest, and
    /// its icon comes back. None when the executable is not known yet.
    pub fn touch(&mut self, path: &str) -> (found: Option<Option<isize>>)
        requires
            old(self).well_formed(),
        ensures
            final(self).well_formed(),
            final(self).spec_pass() == old(self).spec_pass(),
            final(self).asked() == old(self).asked(),
            match found {
                Some(icon) => exists|i: int|
                    0 <= i < old(self)@.len() && old(self)@[i].0 == path@ && old(self)@[i].2 == icon
                        && final(self)@ == old(self)@.update(
                        i,
                        (path@, old(self).spec_pass(), icon),
                    ),
                None => !old(self).holds(path@) && final(self)@ == old(self)@,
            },
    {
        match self.find(path) {
            Some(i) => {
                let pass = self.pass;
                let icon = self.entries[i].icon;
                let ghost before = self@;
                let path_text = self.entries[i].path.clone();
                self.entries.set(i, IconEntry { path: path_text, pass, icon });
                proof {
                    assert(self@ =~= before.update(i as int, (path@, pass, icon)));
                    assert forall|a: int, b: int|
                        0 <= a < self@.len() && 0 <= b < self@.len() && a != b implies (
                    #[trigger] self@[a]).0 != (#[trigger] self@[b]).0 by {
                        assert(before[a].0 == self@[a].0 && before[b].0 == self@[b].0);
                    }
                }
                Some(icon)
            },
            None => None,
        }
    }

    /// Remembers what the shell said about an executable, on the current
    /// pass, whether or not there was an icon: a file with none will not
    /// grow one. The path is no longer being asked about.
    pub fn insert(&mut self, path: String, icon: Option<isize>)
        requires
            old(self).well_formed(),
        ensures
            final(self).well_formed(),
            final(self).spec_pass() == old(self).spec_pass(),
            final(self).holds(path@),
            forall|i: int|
                0 <= i < final(self)@.len() ==> (#[trigger] final(self)@[i]).0 == path@ ==> final(self)@[i] == (path@, old(self).spec_pass(), icon),
            forall|p: Seq<char>| p != path@ ==> (final(self).holds(p) <==> old(self).holds(p)),
            forall|e: EntryView|
                e.0 != path@ ==> (final(self)@.contains(e) <==> old(self)@.contains(e)),
            !final(self).asked().contains(path@),
            forall|p: Seq<char>|
                p != path@ ==> (final(self).asked().contains(p) <==> old(self).asked().contains(p)),
    {
        let pass = self.pass;
        self.remember(path, pass, icon);
    }

    /// Remembers an executable's icon as last asked for on a given pass.
    pub fn remember(&mut self, path: String, pass: u64, icon: Option<isize>)
        requires
            old(self).well_formed(),
        ensures
            final(self).well_formed(),
            final(self).spec_pass() == old(self).spec_pass(),
            final(self).holds(path@),
            forall|i: int|
                0 <= i < final(self)@.len() ==> (#[trigger] final(self)@[i]).0 == path@ ==> final(self)@[i] == (path@, pass, icon),
            forall|p: Seq<char>| p != path@ ==> (final(self).holds(p) <==> old(self).holds(p)),
            forall|e: EntryView|
                e.0 != path@ ==> (final(self)@.contains(e) <==> old(self)@.contains(e)),
            !final(self).asked().contains(path@),
            forall|p: Seq<char>|
                p != path@ ==> (final(self).asked().contains(p) <==> old(self).asked().contains(p)),
    {
        self.stop_asking(path.as_str());
        let ghost before = self@;
        let ghost text = path@;
        match self.find(path.as_str()) {
            Some(i) => {
                self.entries.set(i, IconEntry { path, pass, icon });
                proof {
                    assert(self@ =~= before.update(i as int, (text, pass, icon)));
                    assert forall|a: int, b: int|
                        0 <= a < self@.len() && 0 <= b < self@.len() && a != b implies (
                    #[trigger] self@[a]).0 != (#[trigger] self@[b]).0 by {
                        assert(before[a].0 == self@[a].0 && before[b].0 == self@[b].0);
                    }
                    assert(self@[i as int].0 == text);
                    assert forall|e: EntryView| e.0 != text implies (self@.contains(e)
                        <==> before.contains(e)) by {
                        if self@.contains(e) {
                            let k = choose|k: int| 0 <= k < self@.len() && self@[k] == e;
                            assert(before[k] == e);
                        }
                        if before.contains(e) {
                            let k = choose|k: int| 0 <= k < before.len() && before[k] == e;
                            assert(self@[k] == e);
                        }
                    }
                    assert forall|p: Seq<char>| p != text implies (self.holds(p) <==> (exists|k: int|
                        0 <= k < before.len() && (#[trigger] before[k]).0 == p)) by {
                        if self.holds(p) {
                            let k = choose|k: int| 0 <= k < self@.len() && (#[trigger] self@[k]).0 == p;
                            assert(before[k].0 == p);
                        }
                        if exists|k: int| 0 <= k < before.len() && (#[trigger] before[k]).0 == p {
                            let k = choose|k: int| 0 <= k < before.len() && (#[trigger] before[k]).0 == p;
                            assert(self@[k].0 == p);
                        }
                    }
                }
            },
            None => {
                self.entries.push(IconEntry { path, pass, icon });
                proof {
                    assert(self@ =~= before.push((text, pass, icon)));
                    let n = before.len() as int;
                    assert(self@[n].0 == text);
                    assert forall|e: EntryView| e.0 != text implies (self@.contains(e)
                        <==> before.contains(e)) by {
                        if self@.contains(e) {
                            let k = choose|k: int| 0 <= k < self@.len() && self@[k] == e;
                            assert(k < n);
                            assert(before[k] == e);
                        }
                        if before.contains(e) {
                            let k = choose|k: int| 0 <= k < before.len() && before[k] == e;
                            assert(self@[k] == e);
                        }
                    }
                    assert forall|p: Seq<char>| p != text implies (self.holds(p) <==> (exists|k: int|
                        0 <= k < before.len() && (#[trigger] before[k]).0 == p)) by {
                        if self.holds(p) {
                            let k = choose|k: int| 0 <= k < self@.len() && (#[trigger] self@[k]).0 == p;
                            assert(k < n);
                            assert(before[k].0 == p);
                        }
                        if exists|k: int| 0 <= k < before.len() && (#[trigger] before[k]).0 == p {
                            let k = choose|k: int| 0 <= k < before.len() && (#[trigger] before[k]).0 == p;
                            assert(self@[k].0 == p);
                        }
                    }
                }
            },
        }
    }

    /// Starts a layout pass and gives back the icons nothing has asked for
    /// in a while: the pass moves on by one, and entries past the ceiling
    /// go, coldest first.
    pub fn begin_pass(&mut self) -> (given_back: Vec<isize>)
        requires
            old(self).well_formed(),
        ensures
            final(self).well_formed(),
            final(self).spec_pass() == (if old(self).spec_pass() == u64::MAX {
                0
            } else {
                old(self).spec_pass() + 1
            }),
            evicted(old(self)@, final(self)@, MAX_ICONS as int, given_back@),
    {
        self.pass = self.pass.wrapping_add(1);
        self.evict_beyond(MAX_ICONS)
    }

    /// Removes entries past `ceiling`, coldest first, and hands back the
    /// icons they held for the caller to destroy.
    pub fn evict_beyond(&mut self, ceiling: usize) -> (given_back: Vec<isize>)
        requires
            old(self).well_formed(),
        ensures
            final(self).well_formed(),
            final(self).spec_pass() == old(self).spec_pass(),
            final(self).asked() == old(self).asked(),
            evicted(old(self)@, final(self)@, ceiling as int, given_back@),
    {
        let ghost start = self@;
        let ghost mut removed: Seq<EntryView> = Seq::empty();
        let mut given_back: Vec<isize> = Vec::new();
        while self.entries.len() > ceiling
            invariant
                self.well_formed(),
                self.spec_pass() == old(self).spec_pass(),
                self.asked() == old(self).asked(),
                start == old(self)@,
                distinct_paths(start),
                self@.len() + removed.len() == start.len(),
                removed.len() == 0 ==> self@ == start,
                removed.len() > 0 ==> self@.len() >= ceiling,
                forall|e: EntryView| #[trigger] self@.contains(e) ==> start.contains(e),
                forall|e: EntryView| #[trigger] removed.contains(e) ==> start.contains(e) && !self@.contains(e),
                forall|e: EntryView| #[trigger] start.contains(e) ==> self@.contains(e) || removed.contains(e),
                forall|i: int, j: int| 0 <= i < j < removed.len() ==> colder(#[trigger] removed[i], #[trigger] removed[j]),
                forall|i: int, j: int| 0 <= i < removed.len() && 0 <= j < self@.len() ==> colder(#[trigger] removed[i], #[trigger] self@[j]),
                given_back@ == handles(removed),
            decreases self@.len(),
        {
            let k = self.coldest();
            let ghost before = self@;
            let ghost gone = self@[k as int];
            let entry = self.entries.remove(k);
            proof {
                assert(self@ =~= before.remove(k as int));
                assert(entry_view(entry) == gone);
            }
            if let Some(icon) = entry.icon {
                given_back.push(icon);
            }
            proof {
                let old_removed = removed;
                removed = removed.push(gone);
                assert(removed.drop_last() =~= old_removed);
                assert(given_back@ =~= handles(removed));
                assert(before.contains(gone));
                lemma_removed_entry(before, k as int);
                assert forall|e: EntryView| #[trigger] self@.contains(e) implies start.contains(e) by {
                    let j = choose|j: int| 0 <= j < self@.len() && self@[j] == e;
                    if j < k {
                        assert(before[j] == e);
                    } else {
                        assert(before[j + 1] == e);
                    }
                    assert(before.contains(e));
                }
                assert forall|e: EntryView| #[trigger] removed.contains(e) implies start.contains(e)
                    && !self@.contains(e) by {
                    let j = choose|j: int| 0 <= j < removed.len() && removed[j] == e;
                    if j < old_removed.len() {
                        assert(old_removed[j] == e);
                        assert(old_removed.contains(e));
                        if self@.contains(e) {
                            let m = choose|m: int| 0 <= m < self@.len() && self@[m] == e;
                            if m < k {
                                assert(before[m] == e);
                            } else {
                                assert(before[m + 1] == e);
                            }
                            assert(before.contains(e));
                        }
                    } else {
                        assert(e == gone);
                    }
                }
                assert forall|e: EntryView| #[trigger] start.contains(e) implies self@.contains(e)
                    || removed.contains(e) by {
                    if old_removed.contains(e) {
                        let j = choose|j: int| 0 <= j < old_removed.len() && old_removed[j] == e;
                        assert(removed[j] == e);
                    } else {
                        assert(before.contains(e));
                        let m = choose|m: int| 0 <= m < before.len() && before[m] == e;
                        if m < k {
                            assert(self@[m] == e);
                        } else if m > k {
                            assert(self@[m - 1] == e);
                        } else {
                            assert(removed[removed.len() - 1] == e);
                        }
                    }
                }
                assert forall|i: int, j: int| 0 <= i < j < removed.len() implies colder(
                    #[trigger] removed[i],
                    #[trigger] removed[j],
                ) by {
                    if j == removed.len() - 1 {
                        assert(removed[i] == old_removed[i]);
                        assert(colder(old_removed[i], before[k as int]));
                    } else {
                        assert(removed[i] == old_removed[i] && removed[j] == old_removed[j]);
                    }
                }
                assert forall|i: int, j: int| 0 <= i < removed.len() && 0 <= j < self@.len() implies colder(
                    #[trigger] removed[i],
                    #[trigger] self@[j],
                ) by {
                    let bj = if j < k { j } else { j + 1 };
                    assert(self@[j] == before[bj]);
                    if i == removed.len() - 1 {
                        assert(colder(before[k as int], before[bj]));
                    } else {
                        assert(removed[i] == old_removed[i]);
                    }
                }
            }
        }
        proof {
            assert(evicted_by(start, self@, ceiling as int, given_back@, removed));
        }
        given_back
    }

    /// The place of the coldest entry.
    fn coldest(&self) -> (k: usize)
        requires
            self@.len() > 0,
            self.well_formed(),
        ensures
            k < self@.len(),
            forall|j: int| 0 <= j < self@.len() && j != k ==> colder(self@[k as int], #[trigger] self@[j]),
    {
        let mut k: usize = 0;
        let mut j: usize = 1;
        while j < self.entries.len()
            invariant
                1 <= j <= self@.len(),
                k < j,
                self.well_formed(),
                self@ == self.entries@.map_values(|e: IconEntry| entry_view(e)),
                forall|i: int| 0 <= i < j && i != k ==> colder(self@[k as int], #[trigger] self@[i]),
            decreases self@.len() - j,
        {
            let a = &self.entries[j];
            let b = &self.entries[k];
            let colder_here = a.pass < b.pass || (a.pass == b.pass && text_precedes(
                a.path.as_str(),
                b.path.as_str(),
            ));
            proof {
                assert(self@[j as int] == entry_view(self.entries@[j as int]));
                assert(self@[k as int] == entry_view(self.entries@[k as int]));
                assert(colder_here == colder(self@[j as int], self@[k as int]));
                text_order_is_total(self@[j as int].0, self@[k as int].0);
                assert(self@[j as int].0 != self@[k as int].0);
            }
            if colder_here {
                proof {
                    assert forall|i: int| 0 <= i < j + 1 && i != j implies colder(
                        self@[j as int],
                        #[trigger] self@[i],
                    ) by {
                        if i != k {
                            if self@[j as int].1 == self@[k as int].1 && self@[k as int].1
                                == self@[i].1 {
                                text_order_is_transitive(self@[j as int].0, self@[k as int].0, self@[i].0);
                            }
                        }
                    }
                }
                k = j;
            }
            j += 1;
        }
        k
    }

    /// Marks a path as being asked about; false when it already was, so a
    /// second worker is not started on the same file.
    pub fn start_asking(&mut self, path: &str) -> (started: bool)
        requires
            old(self).well_formed(),
        ensures
            final(self).well_formed(),
            final(self)@ == old(self)@,
            final(self).spec_pass() == old(self).spec_pass(),
            started == !old(self).asked().contains(path@),
            final(self).asked().contains(path@),
            forall|p: Seq<char>|
                p != path@ ==> (final(self).asked().contains(p) <==> old(self).asked().contains(p)),
    {
        let ghost view = |p: String| p@;
        let mut i: usize = 0;
        while i < self.asking.len()
            invariant
                i <= self.asking@.len(),
                self.asked() == self.asking@.map_values(view),
                forall|j: int| 0 <= j < i ==> self.asking@[j]@ != path@,
                self@ == old(self)@,
                self.asked() == old(self).asked(),
                self.spec_pass() == old(self).spec_pass(),
                old(self).well_formed(),
            decreases self.asking@.len() - i,
        {
            if text_equal(self.asking[i].as_str(), path) {
                assert(self.asked()[i as int] == path@);
                return false;
            }
            i += 1;
        }
        proof {
            assert forall|k: int| 0 <= k < self.asked().len() implies self.asked()[k] != path@ by {
                assert(self.asked()[k] == self.asking@[k]@);
            }
        }
        let ghost before = self.asked();
        self.asking.push(path.to_string());
        proof {
            assert(self.asked() =~= before.push(path@));
            assert(self.asked()[before.len() as int] == path@);
            assert forall|p: Seq<char>| p != path@ implies (self.asked().contains(p)
                <==> before.contains(p)) by {
                if self.asked().contains(p) {
                    let k = choose|k: int| 0 <= k < self.asked().len() && self.asked()[k] == p;
                    assert(before[k] == p);
                }
                if before.contains(p) {
                    let k = choose|k: int| 0 <= k < before.len() && before[k] == p;
                    assert(self.asked()[k] == p);
                }
            }
        }
        true
    }

    /// Stops asking about a path.
    pub fn stop_asking(&mut self, path: &str)
        ensures
            final(self)@ == old(self)@,
            final(self).spec_pass() == old(self).spec_pass(),
            !final(self).asked().contains(path@),
            forall|p: Seq<char>|
                p != path@ ==> (final(self).asked().contains(p) <==> old(self).asked().contains(p)),
    {
        let ghost view = |p: String| p@;
        let ghost start = self.asked();
        let mut i: usize = 0;
        while i < self.asking.len()
            invariant
                i <= self.asking@.len(),
                self.asked() == self.asking@.map_values(view),
                forall|j: int| 0 <= j < i ==> self.asking@[j]@ != path@,
                forall|p: Seq<char>| p != path@ ==> (self.asked().contains(p) <==> start.contains(p)),
                self@ == old(self)@,
                self.spec_pass() == old(self).spec_pass(),
            decreases self.asking@.len() - i,
        {
            if text_equal(self.asking[i].as_str(), path) {
                let ghost before = self.asked();
                self.asking.remove(i);
                proof {
                    assert(self.asked() =~= before.remove(i as int));
                    assert forall|p: Seq<char>| p != path@ implies (self.asked().contains(p)
                        <==> before.contains(p)) by {
                        if self.asked().contains(p) {
                            let k = choose|k: int| 0 <= k < self.asked().len() && self.asked()[k] == p;
                            if k < i {
                                assert(before[k] == p);
                            } else {
                                assert(before[k + 1] == p);
                            }
                        }
                        if before.contains(p) {
                            let k = choose|k: int| 0 <= k < before.len() && before[k] == p;
                            assert(k != i);
                            if k < i {
                                assert(self.asked()[k] == p);
                            } else {
                                assert(self.asked()[k - 1] == p);
                            }
                        }
                    }
                    assert forall|j: int| 0 <= j < i implies self.asking@[j]@ != path@ by {
                        assert(self.asked()[j] == before[j]);
                        assert(self.asked()[j] == self.asking@[j]@);
                    }
                }
            } else {
                i += 1;
            }
        }
        proof {
            assert forall|k: int| 0 <= k < self.asked().len() implies self.asked()[k] != path@ by {
                assert(self.asked()[k] == self.asking@[k]@);
            }
        }
    }
}

/// Whether two texts are the same.
fn text_equal(a: &str, b: &str) -> (same: bool)
    ensures
        same == (a@ == b@),
{
    crate::text::same_text(a, b)
}

// ---------------------------------------------------------------------------
// What a process id was found to be
// ---------------------------------------------------------------------------

/// How long, in seconds, a process id is trusted to name the executable it
/// was looked up for. Windows hands process ids back out, so an answer kept
/// longer would show a dead process's icon beside a live process's name.
pub const PID_MEMORY_SECONDS: u64 = 10;

/// What a process id resolved to: the id, the second it was looked up at,
/// and the executable's path, or none when it could not be found.
pub type PidEntry = (u32, u64, Option<Seq<char>>);

/// Whether an answer looked up at one second is still trusted at another.
/// A clock that reads earlier than the answer counts as no time passed.
pub open spec fn still_trusted(asked: u64, now: u64) -> bool {
    (if now >= asked { now - asked } else { 0 }) < PID_MEMORY_SECONDS
}

/// What the memory says of a process id at a second: the path its first
/// entry holds while that entry is trusted, and nothing, meaning look it up
/// again, when there is no entry or it has gone stale.
pub open spec fn recalled(entries: Seq<PidEntry>, pid: u32, now: u64) -> Option<Option<Seq<char>>>
    decreases entries.len(),
{
    if entries.len() == 0 {
        None
    } else if entries[0].0 == pid {
        if still_trusted(entries[0].1, now) {
            Some(entries[0].2)
        } else {
            None
        }
    } else {
        recalled(entries.drop_first(), pid, now)
    }
}

/// The entries still trusted at a second, in order.
pub open spec fn trusted_only(entries: Seq<PidEntry>, now: u64) -> Seq<PidEntry>
    decreases entries.len(),
{
    if entries.len() == 0 {
        Seq::empty()
    } else {
        let before = trusted_only(entries.drop_last(), now);
        if still_trusted(entries.last().1, now) {
            before.push(entries.last())
        } else {
            before
        }
    }
}

/// The entries for every other process id, in order.
pub open spec fn without_pid(entries: Seq<PidEntry>, pid: u32) -> Seq<PidEntry>
    decreases entries.len(),
{
    if entries.len() == 0 {
        Seq::empty()
    } else {
        let before = without_pid(entries.drop_last(), pid);
        if entries.last().0 != pid {
            before.push(entries.last())
        } else {
            before
        }
    }
}

pub open spec fn pid_entry_view(e: (u32, u64, Option<String>)) -> PidEntry {
    (
        e.0,
        e.1,
        match e.2 {
            Some(p) => Some(p@),
            None => None,
        },
    )
}

/// What process ids were found to be, and when.
pub struct PidMemory {
    entries: Vec<(u32, u64, Option<String>)>,
}

impl View for PidMemory {
    type V = Seq<PidEntry>;

    closed spec fn view(&self) -> Seq<PidEntry> {
        self.entries@.map_values(|e: (u32, u64, Option<String>)| pid_entry_view(e))
    }
}

/// An entry a process id has gone stale in is never believed: the id is
/// looked up again once it could name another process.
pub proof fn a_stale_process_id_is_looked_up_again(entries: Seq<PidEntry>, pid: u32, now: u64)
    requires
        forall|i: int| 0 <= i < entries.len() && (#[trigger] entries[i]).0 == pid ==> !still_trusted(entries[i].1, now),
    ensures
        recalled(entries, pid, now) is None,
    decreases entries.len(),
{
    if entries.len() > 0 && entries[0].0 != pid {
        let rest = entries.drop_first();
        assert forall|i: int| 0 <= i < rest.len() && (#[trigger] rest[i]).0 == pid implies !still_trusted(rest[i].1, now) by {
            assert(rest[i] == entries[i + 1]);
        }
        a_stale_process_id_is_looked_up_again(rest, pid, now);
    }
}

fn copy_path(path: &Option<String>) -> (copy: Option<String>)
    ensures
        copy == *path,
{
    match path {
        Some(p) => Some(p.clone()),
        None => None,
    }
}

fn trusted(asked: u64, now: u64) -> (fresh: bool)
    ensures
        fresh == still_trusted(asked, now),
{
    now.saturating_sub(asked) < PID_MEMORY_SECONDS
}

impl PidMemory {
    pub fn new() -> (memory: PidMemory)
        ensures
            memory@ == Seq::<PidEntry>::empty(),
    {
        let memory = PidMemory { entries: Vec::new() };
        assert(memory@ =~= Seq::<PidEntry>::empty());
        memory
    }

    /// What a process id was found to be, while that answer is still
    /// trusted at `now`; none when it has to be looked up again.
    pub fn recall(&self, pid: u32, now: u64) -> (found: Option<Option<String>>)
        ensures
            match found {
                Some(path) => recalled(self@, pid, now) == Some(
                    match path {
                        Some(p) => Some(p@),
                        None => None::<Seq<char>>,
                    },
                ),
                None => recalled(self@, pid, now) is None,
            },
    {
        let mut i: usize = 0;
        assert(self@.subrange(0, self@.len() as int) =~= self@);
        while i < self.entries.len()
            invariant
                i <= self.entries@.len(),
                self@.len() == self.entries@.len(),
                recalled(self@, pid, now) == recalled(self@.subrange(i as int, self@.len() as int), pid, now),
            decreases self.entries@.len() - i,
        {
            let ghost rest = self@.subrange(i as int, self@.len() as int);
            assert(rest.drop_first() =~= self@.subrange(i + 1, self@.len() as int));
            assert(rest[0] == pid_entry_view(self.entries@[i as int]));
            let (id, asked, path) = &self.entries[i];
            if *id == pid {
                if trusted(*asked, now) {
                    return Some(copy_path(path));
                }
                return None;
            }
            i += 1;
        }
        None
    }

    /// Forgets the answers no longer trusted at `now`, so the memory is
    /// bounded by what is running rather than by what ever ran.
    pub fn forget_stale(&mut self, now: u64)
        ensures
            final(self)@ == trusted_only(old(self)@, now),
    {
        let mut kept: Vec<(u32, u64, Option<String>)> = Vec::new();
        let mut i: usize = 0;
        while i < self.entries.len()
            invariant
                i <= self.entries@.len(),
                self@ == old(self)@,
                self@.len() == self.entries@.len(),
                kept@.map_values(|e: (u32, u64, Option<String>)| pid_entry_view(e)) == trusted_only(
                    self@.subrange(0, i as int),
                    now,
                ),
            decreases self.entries@.len() - i,
        {
            let ghost before = kept@.map_values(|e: (u32, u64, Option<String>)| pid_entry_view(e));
            proof {
                let upto = self@.subrange(0, i + 1);
                assert(upto.drop_last() =~= self@.subrange(0, i as int));
                assert(upto.last() == pid_entry_view(self.entries@[i as int]));
            }
            let (id, asked, path) = &self.entries[i];
            if trusted(*asked, now) {
                kept.push((*id, *asked, copy_path(path)));
                assert(kept@.map_values(|e: (u32, u64, Option<String>)| pid_entry_view(e)) =~= before.push(
                    pid_entry_view(self.entries@[i as int]),
                ));
            }
            i += 1;
        }
        assert(self@.subrange(0, i as int) =~= self@);
        self.entries = kept;
    }

    /// Records what a process id was found to be at `now`, in place of
    /// anything it was found to be before.
    pub fn note(&mut self, pid: u32, now: u64, path: Option<String>)
        ensures
            final(self)@ == without_pid(old(self)@, pid).push(
                (
                    pid,
                    now,
                    match path {
                        Some(p) => Some(p@),
                        None => None::<Seq<char>>,
                    },
                ),
            ),
    {
        let ghost new_entry = pid_entry_view((pid, now, path));
        let mut kept: Vec<(u32, u64, Option<String>)> = Vec::new();
        let mut i: usize = 0;
        while i < self.entries.len()
            invariant
                i <= self.entries@.len(),
                self@ == old(self)@,
                self@.len() == self.entries@.len(),
                kept@.map_values(|e: (u32, u64, Option<String>)| pid_entry_view(e)) == without_pid(
                    self@.subrange(0, i as int),
                    pid,
                ),
            decreases self.entries@.len() - i,
        {
            let ghost before = kept@.map_values(|e: (u32, u64, Option<String>)| pid_entry_view(e));
            proof {
                let upto = self@.subrange(0, i + 1);
                assert(upto.drop_last() =~= self@.subrange(0, i as int));
                assert(upto.last() == pid_entry_view(self.entries@[i as int]));
            }
            let (id, asked, found) = &self.entries[i];
            if *id != pid {
                kept.push((*id, *asked, copy_path(found)));
                assert(kept@.map_values(|e: (u32, u64, Option<String>)| pid_entry_view(e)) =~= before.push(
                    pid_entry_view(self.entries@[i as int]),
                ));
            }
            i += 1;
        }
        assert(self@.subrange(0, i as int) =~= self@);
        let ghost before = kept@.map_values(|e: (u32, u64, Option<String>)| pid_entry_view(e));
        kept.push((pid, now, path));
        assert(kept@.map_values(|e: (u32, u64, Option<String>)| pid_entry_view(e)) =~= before.push(new_entry));
        self.entries = kept;
    }
}

} // verus!
