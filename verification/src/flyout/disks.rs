//! The disks flyout's volumes.

use vstd::prelude::*;

verus! {

/// A mounted volume.
#[derive(Clone, Debug, Default, PartialEq)]
pub struct Volume {
    /// The label, "Windows" or "Data". Empty when the volume has none.
    pub name: String,
    /// Where it is mounted, "C:".
    pub mount: String,
    pub total: u64,
    pub available: u64,
    pub removable: bool,
}

impl Volume {
    /// The label, or what Explorer calls an unlabeled volume.
    pub open spec fn display_text(&self) -> Seq<char> {
        if self.name@.len() > 0 {
            self.name@
        } else if self.removable {
            "Removable Disk"@
        } else {
            "Local Disk"@
        }
    }

    /// The label, or what Explorer calls an unlabeled volume ("Local Disk
    /// (C:)"), so the row does not say "C:" twice.
    pub fn display_name(&self) -> (name: &str)
        ensures
            name@ == self.display_text(),
    {
        if !self.name.as_str().is_empty() {
            self.name.as_str()
        } else if self.removable {
            "Removable Disk"
        } else {
            "Local Disk"
        }
    }

    /// What is in use: the total less what is available, and never less
    /// than nothing.
    pub fn used(&self) -> (used: u64)
        ensures
            used == if self.total >= self.available { self.total - self.available } else { 0 },
    {
        self.total.saturating_sub(self.available)
    }
}

/// One card of the disks panel.
#[derive(Copy, Clone, Debug, PartialEq, Eq, Structural)]
pub enum DiskCard {
    /// Read and write rates; it stands before the first sample too.
    Activity,
    /// Said in place of everything else when no rates have arrived.
    Unavailable,
    /// The volumes, this many rows, or a caption when none is collected.
    Volumes { count: usize },
    /// The physical disks, this many.
    Devices { count: usize },
}

/// The disks panel's cards, in the order they stack: the activity always;
/// without rates, the unavailable card and nothing more; with them, the
/// volumes, and the physical disks when there are any.
pub open spec fn disk_cards_of(sampled: bool, volumes: usize, devices: usize) -> Seq<DiskCard> {
    if !sampled {
        seq![DiskCard::Activity, DiskCard::Unavailable]
    } else if devices > 0 {
        seq![DiskCard::Activity, DiskCard::Volumes { count: volumes }, DiskCard::Devices { count: devices }]
    } else {
        seq![DiskCard::Activity, DiskCard::Volumes { count: volumes }]
    }
}

/// The disks panel's cards, from whether rates have arrived and how many
/// volumes and physical disks there are.
pub fn disk_cards(sampled: bool, volumes: usize, devices: usize) -> (cards: Vec<DiskCard>)
    ensures
        cards@ == disk_cards_of(sampled, volumes, devices),
{
    let mut cards: Vec<DiskCard> = Vec::new();
    cards.push(DiskCard::Activity);
    if !sampled {
        cards.push(DiskCard::Unavailable);
        assert(cards@ =~= seq![DiskCard::Activity, DiskCard::Unavailable]);
        return cards;
    }
    cards.push(DiskCard::Volumes { count: volumes });
    if devices > 0 {
        cards.push(DiskCard::Devices { count: devices });
        assert(cards@ =~= seq![DiskCard::Activity, DiskCard::Volumes { count: volumes }, DiskCard::Devices { count: devices }]);
    } else {
        assert(cards@ =~= seq![DiskCard::Activity, DiskCard::Volumes { count: volumes }]);
    }
    cards
}

} // verus!
