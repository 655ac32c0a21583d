//! Colors as the design writes them.

use vstd::prelude::*;

verus! {

/// A color as 0xRRGGBB.
#[derive(Copy, Clone, Debug, Default, PartialEq, Eq, Hash, Structural)]
pub struct Color(pub u32);

} // verus!
