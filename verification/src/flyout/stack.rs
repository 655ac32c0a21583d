//! The stack flyout's reading switcher.

use vstd::prelude::*;
use vstd::string::StrSliceExecFns;

use crate::flyout::ui::Id;

verus! {

/// The switcher's chips answer to this plus the reading's place.
pub const SWITCH_ID: u32 = 0x0100_0000;

pub open spec fn spec_switch_id(index: int) -> Id {
    Id::Custom((SWITCH_ID + index) as u32)
}

pub open spec fn spec_switch_index(id: Id) -> Option<usize> {
    match id {
        Id::Custom(n) => if n >= SWITCH_ID { Some((n - SWITCH_ID) as usize) } else { None },
        _ => None,
    }
}

/// The chip id of the reading at a place in the stack.
pub fn switch_id(index: usize) -> (id: Id)
    requires
        index <= u32::MAX - SWITCH_ID,
    ensures
        id == spec_switch_id(index as int),
{
    Id::Custom(SWITCH_ID + index as u32)
}

/// The place of the reading whose chip answers to an id, if it is one.
pub fn switch_index(id: Id) -> (index: Option<usize>)
    ensures
        index == spec_switch_index(id),
{
    match id {
        Id::Custom(n) => {
            if n >= SWITCH_ID {
                Some((n - SWITCH_ID) as usize)
            } else {
                None
            }
        },
        _ => None,
    }
}

/// A reading's chip is read back as that reading's place, and an id read
/// as a place is that place's chip.
pub proof fn a_switch_chip_names_its_reading(index: usize, id: Id)
    requires
        index <= u32::MAX - SWITCH_ID,
    ensures
        spec_switch_index(spec_switch_id(index as int)) == Some(index),
        spec_switch_index(id) matches Some(i) ==> spec_switch_id(i as int) == id,
{
}

/// The name a stack shows: its own, or "Untitled" when it has none, which
/// is what the settings call an unnamed stack too.
pub fn title(name: &str) -> (shown: &str)
    ensures
        shown@ == if name@.len() == 0 { "Untitled"@ } else { name@ },
{
    if name.unicode_len() == 0 {
        "Untitled"
    } else {
        name
    }
}

} // verus!
