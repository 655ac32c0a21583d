//! The flyouts: where the detail panel opens, when it closes, and the
//! readings each module's panel shows.

pub mod appicon;
pub mod cpu;
pub mod disks;
pub mod dismiss;
pub mod gpu;
pub mod memory;
pub mod network;
pub mod placement;
pub mod sensors;
pub mod stack;
pub mod ui;

use vstd::prelude::*;

use crate::geometry::PxRect;
use ui::Id;

verus! {

/// The strip column a panel opens from, in screen pixels.
#[derive(Copy, Clone, Debug, PartialEq, Eq, Structural)]
pub struct Anchor {
    pub column: PxRect,
}

/// A button in the footer, at the right, which the content answers for.
#[derive(Clone, Debug, PartialEq, Eq)]
pub struct Action {
    pub id: Id,
    pub text: &'static str,
    pub glyph: Option<&'static str>,
    pub enabled: bool,
}

} // verus!
