//! When a flyout should go away.
//!
//! A flyout stays until the user presses somewhere else or the window loses
//! activation: a press inside the panel keeps it, a press on the strip
//! column that opened it keeps it (the column's own click is what toggles),
//! a press anywhere else closes it, and a stopped monitor never closes
//! anything.

use vstd::prelude::*;

use crate::geometry::PxRect;

verus! {

/// Whether a pixel lies inside a rectangle, right and bottom edges excluded.
pub fn contains(rect: PxRect, x: i32, y: i32) -> (inside: bool)
    ensures
        inside == rect.holds_point(x as int, y as int),
{
    x >= rect.left && x < rect.right && y >= rect.top && y < rect.bottom
}

/// What a monitor knows: where a press is allowed, and whether it watches.
pub struct MonitorView {
    pub regions: Seq<PxRect>,
    pub active: bool,
}

/// Whether a point lies in any of the regions.
pub open spec fn in_any(regions: Seq<PxRect>, x: int, y: int) -> bool {
    exists|i: int| 0 <= i < regions.len() && (#[trigger] regions[i]).holds_point(x, y)
}

/// Decides, for a press or a loss of activation, whether the panel closes.
#[derive(Clone, Debug, PartialEq, Eq)]
pub struct Monitor {
    /// Where a press does not close the panel: the panel itself and the
    /// column it belongs to, in screen pixels.
    regions: Vec<PxRect>,
    active: bool,
}

impl View for Monitor {
    type V = MonitorView;

    closed spec fn view(&self) -> MonitorView {
        MonitorView { regions: self.regions@, active: self.active }
    }
}

impl Monitor {
    /// Whether a button going down at a point closes the panel.
    pub open spec fn closes_on_press(self, x: int, y: int) -> bool {
        self@.active && !in_any(self@.regions, x, y)
    }

    /// Whether losing activation closes the panel.
    pub open spec fn closes_on_deactivation(self) -> bool {
        self@.active
    }

    /// Starts watching, with the panel's frame and the anchor it opened
    /// from as the places a press is allowed.
    pub fn start(regions: Vec<PxRect>) -> (monitor: Monitor)
        ensures
            monitor@.regions == regions@,
            monitor@.active,
    {
        Monitor { regions, active: true }
    }

    /// Stops watching and forgets the regions.
    pub fn stop(&mut self)
        ensures
            !final(self)@.active,
            final(self)@.regions.len() == 0,
    {
        self.active = false;
        self.regions.clear();
    }

    pub fn is_active(&self) -> (active: bool)
        ensures
            active == self@.active,
    {
        self.active
    }

    /// Whether a point is somewhere a press is allowed.
    pub fn contains(&self, x: i32, y: i32) -> (allowed: bool)
        ensures
            allowed == in_any(self@.regions, x as int, y as int),
    {
        let mut i: usize = 0;
        while i < self.regions.len()
            invariant
                i <= self.regions@.len(),
                forall|j: int| 0 <= j < i ==> !(#[trigger] self.regions@[j]).holds_point(x as int, y as int),
            decreases self.regions@.len() - i,
        {
            if contains(self.regions[i], x, y) {
                return true;
            }
            i += 1;
        }
        false
    }

    /// Whether a button going down at a point closes the panel.
    pub fn press(&self, x: i32, y: i32) -> (closes: bool)
        ensures
            closes == self.closes_on_press(x as int, y as int),
    {
        self.active && !self.contains(x, y)
    }

    /// Whether the panel losing activation closes it.
    pub fn deactivated(&self) -> (closes: bool)
        ensures
            closes == self.closes_on_deactivation(),
    {
        self.active
    }
}

impl Default for Monitor {
    /// A monitor that watches nothing.
    fn default() -> (monitor: Monitor)
        ensures
            !monitor@.active,
            monitor@.regions.len() == 0,
    {
        Monitor { regions: Vec::new(), active: false }
    }
}

/// A monitor that is not watching closes the panel for nothing: no press
/// anywhere, and no loss of activation.
pub proof fn a_stopped_monitor_never_closes(monitor: Monitor, x: int, y: int)
    requires
        !monitor@.active,
    ensures
        !monitor.closes_on_press(x, y),
        !monitor.closes_on_deactivation(),
{
}

/// A press inside any region a watching monitor was started with keeps the
/// panel, and a press outside all of them closes it.
pub proof fn a_press_closes_exactly_outside_the_regions(monitor: Monitor, x: int, y: int)
    requires
        monitor@.active,
    ensures
        monitor.closes_on_press(x, y) <==> forall|i: int|
            0 <= i < monitor@.regions.len() ==> !(#[trigger] monitor@.regions[i]).holds_point(x, y),
{
}

} // verus!
