//! The memory flyout's figures: the breakdown of installed memory into the
//! bar's segments, and the commit level's name.

use vstd::prelude::*;

verus! {

/// A process and what it holds.
#[derive(Clone, Debug, PartialEq)]
pub struct ProcessMemory {
    pub pid: u32,
    pub name: String,
    /// The working set, in bytes: Task Manager's Memory column.
    pub working_set: u64,
}

/// The kernel's page lists: modified, standby and free, in bytes.
#[derive(Copy, Clone, Debug, Default, PartialEq, Eq, Structural)]
pub struct MemoryLists {
    pub modified: u64,
    pub standby: u64,
    pub free: u64,
}

/// The figures the memory panel says, in bytes. What has not arrived is
/// absent and drawn as a dash rather than guessed.
#[derive(Clone, Debug, Default, PartialEq)]
pub struct MemorySnapshot {
    pub total: Option<u64>,
    pub in_use: Option<u64>,
    /// Standby and free together, which is what Windows means by available.
    pub available: Option<u64>,
    pub modified: Option<u64>,
    pub standby: Option<u64>,
    pub free: Option<u64>,
    pub committed: Option<u64>,
    pub commit_limit: Option<u64>,
    pub paged_pool: Option<u64>,
    pub nonpaged_pool: Option<u64>,
    /// Page file in use and its size.
    pub page_file_used: Option<u64>,
    pub page_file_total: Option<u64>,
    /// The processes holding the most, largest first.
    pub top: Vec<ProcessMemory>,
}

pub open spec fn saturating_sub(a: u64, b: u64) -> u64 {
    if a >= b { (a - b) as u64 } else { 0 }
}

pub open spec fn saturating_add(a: u64, b: u64) -> u64 {
    if a + b <= u64::MAX { (a + b) as u64 } else { u64::MAX }
}

impl MemorySnapshot {
    /// Splits the used figure by the kernel's page lists.
    ///
    /// Modified pages are inside "used", but the bar draws them in their own
    /// color, so in use is what is left of used once they are taken out.
    /// Free stays the kernel's free, not available, which is free and
    /// standby together.
    pub fn with_lists(&mut self, lists: MemoryLists)
        ensures
            final(self).in_use == match old(self).in_use {
                Some(used) => Some(saturating_sub(used, lists.modified)),
                None => None,
            },
            final(self).modified == Some(lists.modified),
            final(self).standby == Some(lists.standby),
            final(self).free == Some(lists.free),
            final(self).total == old(self).total,
            final(self).available == old(self).available,
            final(self).committed == old(self).committed,
            final(self).commit_limit == old(self).commit_limit,
            final(self).paged_pool == old(self).paged_pool,
            final(self).nonpaged_pool == old(self).nonpaged_pool,
            final(self).page_file_used == old(self).page_file_used,
            final(self).page_file_total == old(self).page_file_total,
            final(self).top@ == old(self).top@,
    {
        if let Some(used) = self.in_use {
            self.in_use = Some(used.saturating_sub(lists.modified));
        }
        self.modified = Some(lists.modified);
        self.standby = Some(lists.standby);
        self.free = Some(lists.free);
    }
}

/// A share of the installed memory, in the bar's drawing order.
#[derive(Copy, Clone, Debug, PartialEq, Eq, Structural)]
pub enum Segment {
    InUse,
    Modified,
    Standby,
    Free,
    /// Standby and free together, while Windows has not been asked to tell
    /// them apart.
    Available,
}

impl Segment {
    pub open spec fn label_text(self) -> Seq<char> {
        match self {
            Segment::InUse => "In use"@,
            Segment::Modified => "Modified"@,
            Segment::Standby => "Standby"@,
            Segment::Free => "Free"@,
            Segment::Available => "Available"@,
        }
    }

    pub fn label(self) -> (label: &'static str)
        ensures
            label@ == self.label_text(),
    {
        match self {
            Segment::InUse => "In use",
            Segment::Modified => "Modified",
            Segment::Standby => "Standby",
            Segment::Free => "Free",
            Segment::Available => "Available",
        }
    }
}

/// The bar's segments and the scale they are drawn against.
#[derive(Debug, PartialEq)]
pub struct Breakdown {
    /// The shares that are drawn, in drawing order.
    pub used: Vec<(Segment, u64)>,
    /// The share that is the track.
    pub free: (Segment, u64),
    /// What a whole bar's width stands for.
    pub scale: u64,
}

/// The shares a snapshot's bar draws and the one its track stands for:
/// in use, modified and standby over free once the page lists are known,
/// and in use over available (or what is left of the total) before.
pub open spec fn breakdown_shares(s: MemorySnapshot, total: u64, in_use: u64) -> (Seq<(Segment, u64)>, (Segment, u64)) {
    match (s.modified, s.standby, s.free) {
        (Some(modified), Some(standby), Some(free)) => (
            seq![(Segment::InUse, in_use), (Segment::Modified, modified), (Segment::Standby, standby)],
            (Segment::Free, free),
        ),
        _ => (
            seq![(Segment::InUse, in_use)],
            (
                Segment::Available,
                match s.available {
                    Some(available) => available,
                    None => saturating_sub(total, in_use),
                },
            ),
        ),
    }
}

/// The bytes of some shares together.
pub open spec fn share_sum(shares: Seq<(Segment, u64)>) -> int
    decreases shares.len(),
{
    if shares.len() == 0 {
        0
    } else {
        share_sum(shares.drop_last()) + shares.last().1
    }
}

impl Breakdown {
    /// The breakdown of a snapshot: absent until the total and the in-use
    /// figure have both arrived. The scale is the installed memory, or what
    /// the shares add up to if a reading ever exceeds it, so the bar scales
    /// down rather than overflowing the track.
    pub fn new(s: &MemorySnapshot) -> (breakdown: Option<Breakdown>)
        requires
            match (s.total, s.in_use, s.modified, s.standby, s.free) {
                (Some(_), Some(in_use), Some(modified), Some(standby), Some(_)) => in_use + modified
                    + standby <= u64::MAX,
                _ => true,
            },
        ensures
            match (s.total, s.in_use) {
                (Some(total), Some(in_use)) => breakdown matches Some(b) && {
                    let (used, free) = breakdown_shares(*s, total, in_use);
                    let counted = saturating_add(share_sum(used) as u64, free.1);
                    &&& b.used@ == used
                    &&& b.free == free
                    &&& b.scale == if total >= counted { total } else { counted }
                },
                _ => breakdown is None,
            },
    {
        let total = match s.total {
            Some(t) => t,
            None => return None,
        };
        let in_use = match s.in_use {
            Some(u) => u,
            None => return None,
        };
        let (used, free, sum) = match (s.modified, s.standby, s.free) {
            (Some(modified), Some(standby), Some(free)) => (
                vec![(Segment::InUse, in_use), (Segment::Modified, modified), (Segment::Standby, standby)],
                (Segment::Free, free),
                in_use + modified + standby,
            ),
            _ => (
                vec![(Segment::InUse, in_use)],
                (
                    Segment::Available,
                    match s.available {
                        Some(available) => available,
                        None => total.saturating_sub(in_use),
                    },
                ),
                in_use,
            ),
        };
        proof {
            let shares = breakdown_shares(*s, total, in_use).0;
            assert(used@ =~= shares);
            reveal_with_fuel(share_sum, 4);
            assert(shares.drop_last().drop_last().drop_last().len() == 0 || shares.len() == 1);
            assert(sum == share_sum(shares));
        }
        let counted = sum.saturating_add(free.1);
        let scale = if total >= counted { total } else { counted };
        Some(Breakdown { used, free, scale })
    }
}

/// Whatever the readings, the bar's scale is at least the installed memory
/// and at least what the shares add up to, so no share runs past the end.
pub proof fn the_scale_covers_every_share(s: MemorySnapshot, total: u64, in_use: u64)
    ensures
        ({
            let (used, free) = breakdown_shares(s, total, in_use);
            let counted = saturating_add(share_sum(used) as u64, free.1);
            let scale = if total >= counted { total } else { counted };
            &&& scale >= total
            &&& share_sum(used) + free.1 <= u64::MAX ==> share_sum(used) + free.1 <= scale
        }),
{
}

/// How near the commit charge is to its limit.
#[derive(Copy, Clone, Debug, PartialEq, Eq, Structural)]
pub enum CommitLevel {
    Normal,
    High,
    Critical,
    Unknown,
}

impl CommitLevel {
    pub open spec fn name_text(self) -> Seq<char> {
        match self {
            CommitLevel::Normal => "Normal"@,
            CommitLevel::High => "High"@,
            CommitLevel::Critical => "Critical"@,
            CommitLevel::Unknown => "Unknown"@,
        }
    }

    pub fn name(self) -> (name: &'static str)
        ensures
            name@ == self.name_text(),
    {
        match self {
            CommitLevel::Normal => "Normal",
            CommitLevel::High => "High",
            CommitLevel::Critical => "Critical",
            CommitLevel::Unknown => "Unknown",
        }
    }
}

/// One card of the memory panel.
#[derive(Copy, Clone, Debug, PartialEq, Eq, Structural)]
pub enum MemoryCard {
    /// The breakdown bar, with how much is available beside its label when
    /// the module said.
    Breakdown { available: bool },
    /// The commit charge, with a page-file row when the page file's size
    /// is known.
    Commit { page_file: bool },
    /// The top processes, this many rows.
    Processes { rows: usize },
}

/// The memory panel's cards under its header: nothing until there is a
/// breakdown to draw, that is a total and an in-use figure; then the
/// breakdown and the commit charge, and the top processes when the setting
/// shows them and any is listed.
pub open spec fn memory_cards_of(s: MemorySnapshot, show_processes: bool, process_count: int) -> Seq<MemoryCard> {
    if s.total is Some && s.in_use is Some {
        let listed = s.top@.len() as int;
        let rows = if !show_processes { 0 } else if listed < process_count { listed } else { process_count };
        let head = seq![
            MemoryCard::Breakdown { available: s.available is Some },
            MemoryCard::Commit { page_file: s.page_file_total is Some },
        ];
        if rows > 0 {
            head.push(MemoryCard::Processes { rows: rows as usize })
        } else {
            head
        }
    } else {
        Seq::empty()
    }
}

/// The memory panel's cards under its header.
pub fn memory_cards(s: &MemorySnapshot, show_processes: bool, process_count: usize) -> (cards: Vec<MemoryCard>)
    ensures
        cards@ == memory_cards_of(*s, show_processes, process_count as int),
{
    let mut cards: Vec<MemoryCard> = Vec::new();
    if s.total.is_none() || s.in_use.is_none() {
        assert(cards@ =~= Seq::<MemoryCard>::empty());
        return cards;
    }
    cards.push(MemoryCard::Breakdown { available: s.available.is_some() });
    cards.push(MemoryCard::Commit { page_file: s.page_file_total.is_some() });
    let listed = s.top.len();
    let rows: usize = if !show_processes {
        0
    } else if listed < process_count {
        listed
    } else {
        process_count
    };
    if rows > 0 {
        cards.push(MemoryCard::Processes { rows });
    }
    cards
}

} // verus!
