//! Rectangles in screen pixels, the unit the taskbar, a monitor's work
//! area and the strip's columns are all reported in.

use vstd::prelude::*;

verus! {

/// A rectangle in screen pixels: left and top inclusive, right and bottom
/// exclusive. Origins may be negative; a second monitor to the left of the
/// first has them.
#[derive(Copy, Clone, Debug, Default, PartialEq, Eq, Hash, Structural)]
pub struct PxRect {
    pub left: i32,
    pub top: i32,
    pub right: i32,
    pub bottom: i32,
}

impl PxRect {
    pub open spec fn spec_width(self) -> int {
        self.right - self.left
    }

    pub open spec fn spec_height(self) -> int {
        self.bottom - self.top
    }

    /// Whether another rectangle lies wholly inside this one.
    pub open spec fn encloses(self, inner: PxRect) -> bool {
        &&& self.left <= inner.left
        &&& self.top <= inner.top
        &&& inner.right <= self.right
        &&& inner.bottom <= self.bottom
    }

    /// Whether a pixel lies inside.
    pub open spec fn holds_point(self, x: int, y: int) -> bool {
        self.left <= x < self.right && self.top <= y < self.bottom
    }
}

} // verus!
