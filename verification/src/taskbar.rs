//! Where the taskbar is docked.

use vstd::prelude::*;

verus! {

/// The screen edge the taskbar is docked to.
#[derive(Copy, Clone, Debug, PartialEq, Eq, Hash, Structural)]
pub enum Edge {
    Left,
    Top,
    Right,
    Bottom,
}

} // verus!
