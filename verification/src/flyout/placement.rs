//! Where a flyout opens.
//!
//! Screen pixels throughout. Nothing here has a window handle, which is
//! what lets the rule that pins this behavior (a panel at every corner of
//! every display stays on that display) be proved without a display.

use vstd::prelude::*;

use crate::geometry::PxRect;
use crate::taskbar::Edge;

verus! {

pub open spec fn smaller(a: int, b: int) -> int {
    if a <= b { a } else { b }
}

pub open spec fn larger(a: int, b: int) -> int {
    if a >= b { a } else { b }
}

/// Half of a number, rounded toward zero as integer division does.
pub open spec fn half(n: int) -> int {
    if n >= 0 { n / 2 } else { -((-n) / 2) }
}

fn halve(n: i64) -> (h: i64)
    requires
        -4_000_000_000_000 <= n <= 4_000_000_000_000,
    ensures
        h == half(n as int),
{
    if n >= 0 {
        ((n as u64) / 2) as i64
    } else {
        -((((-n) as u64) / 2) as i64)
    }
}

pub fn width(rect: PxRect) -> (w: i32)
    requires
        i32::MIN <= rect.spec_width() <= i32::MAX,
    ensures
        w == rect.spec_width(),
{
    rect.right - rect.left
}

pub fn height(rect: PxRect) -> (h: i32)
    requires
        i32::MIN <= rect.spec_height() <= i32::MAX,
    ensures
        h == rect.spec_height(),
{
    rect.bottom - rect.top
}

/// A rectangle's edges moved inward on every side, all as integers.
pub open spec fn inset_edges(rect: PxRect, by: int) -> (int, int, int, int) {
    (rect.left + by, rect.top + by, rect.right - by, rect.bottom - by)
}

/// Whether moving every edge inward by an amount stays in pixel range.
pub open spec fn inset_fits(rect: PxRect, by: int) -> bool {
    let (l, t, r, b) = inset_edges(rect, by);
    &&& i32::MIN <= l <= i32::MAX
    &&& i32::MIN <= t <= i32::MAX
    &&& i32::MIN <= r <= i32::MAX
    &&& i32::MIN <= b <= i32::MAX
}

pub open spec fn spec_inset(rect: PxRect, by: int) -> PxRect {
    let (l, t, r, b) = inset_edges(rect, by);
    PxRect { left: l as i32, top: t as i32, right: r as i32, bottom: b as i32 }
}

pub fn inset(rect: PxRect, by: i32) -> (inner: PxRect)
    requires
        inset_fits(rect, by as int),
    ensures
        inner == spec_inset(rect, by as int),
{
    PxRect {
        left: rect.left + by,
        top: rect.top + by,
        right: rect.right - by,
        bottom: rect.bottom - by,
    }
}

/// Where one side of a frame lands along one axis: its length capped at
/// the visible span (and at nothing below zero), then its start moved
/// until it is inside, the near edge winning when it cannot be both.
pub open spec fn fitted_span(lo: int, hi: int, visible_lo: int, visible_hi: int) -> (int, int) {
    let len = larger(smaller(hi - lo, visible_hi - visible_lo), 0);
    let start = smaller(larger(lo, visible_lo), visible_hi - len);
    (start, start + len)
}

/// A frame, given by its edges as integers, moved and if it must be shrunk
/// until it lies inside `visible`.
pub open spec fn fitted(left: int, top: int, right: int, bottom: int, visible: PxRect) -> PxRect {
    let (l, r) = fitted_span(left, right, visible.left as int, visible.right as int);
    let (t, b) = fitted_span(top, bottom, visible.top as int, visible.bottom as int);
    PxRect { left: l as i32, top: t as i32, right: r as i32, bottom: b as i32 }
}

pub open spec fn spec_contained(frame: PxRect, visible: PxRect) -> PxRect {
    fitted(frame.left as int, frame.top as int, frame.right as int, frame.bottom as int, visible)
}

/// Whether a span of the given ends lands, as `fitted_span` puts it,
/// within what a pixel coordinate can hold.
proof fn lemma_fitted_span_in_range(lo: int, hi: int, visible_lo: int, visible_hi: int)
    requires
        i32::MIN <= visible_lo <= i32::MAX,
        i32::MIN <= visible_hi <= i32::MAX,
    ensures
        ({
            let (s, e) = fitted_span(lo, hi, visible_lo, visible_hi);
            &&& i32::MIN <= s <= i32::MAX
            &&& i32::MIN <= e <= i32::MAX
            &&& s <= e
            &&& visible_lo <= visible_hi ==> visible_lo <= s && e <= visible_hi
        }),
{
}

fn fit_span(lo: i64, hi: i64, visible_lo: i32, visible_hi: i32) -> (span: (i32, i32))
    requires
        -8_000_000_000 <= lo <= 8_000_000_000,
        -8_000_000_000 <= hi <= 8_000_000_000,
    ensures
        span.0 == fitted_span(lo as int, hi as int, visible_lo as int, visible_hi as int).0,
        span.1 == fitted_span(lo as int, hi as int, visible_lo as int, visible_hi as int).1,
{
    proof {
        lemma_fitted_span_in_range(lo as int, hi as int, visible_lo as int, visible_hi as int);
    }
    let visible_len: i64 = visible_hi as i64 - visible_lo as i64;
    let wanted: i64 = hi - lo;
    let capped: i64 = if wanted <= visible_len { wanted } else { visible_len };
    let len: i64 = if capped >= 0 { capped } else { 0 };
    let pushed: i64 = if lo >= visible_lo as i64 { lo } else { visible_lo as i64 };
    let limit: i64 = visible_hi as i64 - len;
    let start: i64 = if pushed <= limit { pushed } else { limit };
    (start as i32, (start + len) as i32)
}

/// A frame moved and, if it must be, shrunk, until it lies inside `visible`.
///
/// The size is capped at the visible area's first, so a frame taller than
/// the display does not get pushed off the top in the course of keeping its
/// bottom on. Origins may be negative.
pub fn contained(frame: PxRect, visible: PxRect) -> (fitted: PxRect)
    ensures
        fitted == spec_contained(frame, visible),
{
    let (left, right) = fit_span(frame.left as i64, frame.right as i64, visible.left, visible.right);
    let (top, bottom) = fit_span(frame.top as i64, frame.bottom as i64, visible.top, visible.bottom);
    PxRect { left, top, right, bottom }
}

/// The edges of the frame a panel of `size` asks for before it is held
/// inside the work area: centered on the column and `gap` away from the
/// taskbar on the desktop side, or above the column with no taskbar.
pub open spec fn wanted_frame(
    anchor: PxRect,
    taskbar: Option<(PxRect, Edge)>,
    size: (i32, i32),
    gap: int,
) -> (int, int, int, int) {
    let (w, h) = (size.0 as int, size.1 as int);
    let center_x = half(anchor.left + anchor.right);
    let center_y = half(anchor.top + anchor.bottom);
    let (left, top) = match taskbar {
        Some((bar, Edge::Bottom)) => (center_x - half(w), bar.top - gap - h),
        Some((bar, Edge::Top)) => (center_x - half(w), bar.bottom + gap),
        Some((bar, Edge::Left)) => (bar.right + gap, center_y - half(h)),
        Some((bar, Edge::Right)) => (bar.left - gap - w, center_y - half(h)),
        None => (center_x - half(w), anchor.top - gap - h),
    };
    (left, top, left + w, top + h)
}

pub open spec fn spec_place(
    anchor: PxRect,
    taskbar: Option<(PxRect, Edge)>,
    size: (i32, i32),
    work: PxRect,
    gap: int,
) -> PxRect {
    let (l, t, r, b) = wanted_frame(anchor, taskbar, size, gap);
    fitted(l, t, r, b, spec_inset(work, gap))
}

/// Where a panel of `size` opens for a strip column at `anchor`.
///
/// Centered on the column and `gap` away from the taskbar on the desktop
/// side: above a bottom taskbar, below a top one, beside a side one with the
/// panel centered on the column's height. Without a taskbar to ask it opens
/// above the column. Then it is held inside the work area inset by the same
/// gap, so a column near the screen's edge gets a panel that slid along the
/// taskbar rather than one hanging off the display.
pub fn place(
    anchor: PxRect,
    taskbar: Option<(PxRect, Edge)>,
    size: (i32, i32),
    work: PxRect,
    gap: i32,
) -> (frame: PxRect)
    requires
        inset_fits(work, gap as int),
    ensures
        frame == spec_place(anchor, taskbar, size, work, gap as int),
{
    let (w, h) = size;
    let w = w as i64;
    let h = h as i64;
    let gap_wide = gap as i64;
    let center_x = halve(anchor.left as i64 + anchor.right as i64);
    let center_y = halve(anchor.top as i64 + anchor.bottom as i64);
    let (left, top): (i64, i64) = match taskbar {
        Some((bar, Edge::Bottom)) => (center_x - halve(w), bar.top as i64 - gap_wide - h),
        Some((bar, Edge::Top)) => (center_x - halve(w), bar.bottom as i64 + gap_wide),
        Some((bar, Edge::Left)) => (bar.right as i64 + gap_wide, center_y - halve(h)),
        Some((bar, Edge::Right)) => (bar.left as i64 - gap_wide - w, center_y - halve(h)),
        None => (center_x - halve(w), anchor.top as i64 - gap_wide - h),
    };
    let visible = inset(work, gap);
    let (l, r) = fit_span(left, left + w, visible.left, visible.right);
    let (t, b) = fit_span(top, top + h, visible.top, visible.bottom);
    PxRect { left: l, top: t, right: r, bottom: b }
}

/// A fitted frame lies inside a visible area that is not inverted, and is
/// as wide and as tall as it asked to be or as the area is, whichever is
/// less (and never less than nothing).
pub proof fn contained_frames_stay_inside(frame: PxRect, visible: PxRect)
    requires
        visible.left <= visible.right,
        visible.top <= visible.bottom,
    ensures
        visible.encloses(spec_contained(frame, visible)),
        spec_contained(frame, visible).spec_width() == larger(
            smaller(frame.spec_width(), visible.spec_width()),
            0,
        ),
        spec_contained(frame, visible).spec_height() == larger(
            smaller(frame.spec_height(), visible.spec_height()),
            0,
        ),
{
    lemma_fitted_span_in_range(frame.left as int, frame.right as int, visible.left as int, visible.right as int);
    lemma_fitted_span_in_range(frame.top as int, frame.bottom as int, visible.top as int, visible.bottom as int);
}

/// A frame already inside the visible area is left exactly where it was.
pub proof fn a_frame_inside_is_left_alone(frame: PxRect, visible: PxRect)
    requires
        visible.encloses(frame),
        frame.left <= frame.right,
        frame.top <= frame.bottom,
    ensures
        spec_contained(frame, visible) == frame,
{
}

/// Fitting a fitted frame again changes nothing.
pub proof fn containing_twice_is_containing_once(frame: PxRect, visible: PxRect)
    requires
        visible.left <= visible.right,
        visible.top <= visible.bottom,
    ensures
        spec_contained(spec_contained(frame, visible), visible) == spec_contained(frame, visible),
{
    contained_frames_stay_inside(frame, visible);
    a_frame_inside_is_left_alone(spec_contained(frame, visible), visible);
}

/// Wherever it is anchored and whatever it asks for, a panel opens inside
/// the work area less the gap, when that is not inverted, and no larger
/// than it asked to be.
pub proof fn a_panel_stays_on_the_work_area(
    anchor: PxRect,
    taskbar: Option<(PxRect, Edge)>,
    size: (i32, i32),
    work: PxRect,
    gap: int,
)
    requires
        inset_fits(work, gap),
        work.left + gap <= work.right - gap,
        work.top + gap <= work.bottom - gap,
    ensures
        spec_inset(work, gap).encloses(spec_place(anchor, taskbar, size, work, gap)),
        size.0 >= 0 ==> spec_place(anchor, taskbar, size, work, gap).spec_width() <= size.0,
        size.1 >= 0 ==> spec_place(anchor, taskbar, size, work, gap).spec_height() <= size.1,
{
    let (l, t, r, b) = wanted_frame(anchor, taskbar, size, gap);
    let visible = spec_inset(work, gap);
    lemma_fitted_span_in_range(l, r, visible.left as int, visible.right as int);
    lemma_fitted_span_in_range(t, b, visible.top as int, visible.bottom as int);
}

/// Where an opening panel starts from, and how: its top edge, its opacity,
/// and whether it then animates into place.
#[derive(Copy, Clone, Debug, PartialEq, Eq, Structural)]
pub struct Opening {
    pub top: i32,
    pub alpha: u8,
    pub animate: bool,
}

/// The top a panel slides in from: up from a bottom taskbar, down from a
/// top one, and up for any other.
pub open spec fn slide_from(top: i32, edge: Option<Edge>, slide: i32) -> int {
    match edge {
        Some(Edge::Top) => top - slide,
        _ => top + slide,
    }
}

/// How a panel opens at its frame's top: one that was not open already
/// fades in from the taskbar's side when motion is allowed; otherwise it
/// appears in place, fully drawn.
pub open spec fn opening_of(top: i32, edge: Option<Edge>, slide: i32, was_open: bool, reduced_motion: bool) -> Opening {
    if !was_open && !reduced_motion {
        Opening { top: slide_from(top, edge, slide) as i32, alpha: 0, animate: true }
    } else {
        Opening { top, alpha: 255, animate: false }
    }
}

/// How a panel opens: where its top starts, how opaque, and whether it
/// animates, from its frame's top, the taskbar's edge, the slide in pixels,
/// whether it was open already and whether the system asks for less motion.
pub fn opening(top: i32, edge: Option<Edge>, slide: i32, was_open: bool, reduced_motion: bool) -> (start: Opening)
    requires
        i32::MIN <= slide_from(top, edge, slide) <= i32::MAX,
    ensures
        start == opening_of(top, edge, slide, was_open, reduced_motion),
{
    let from = match edge {
        Some(Edge::Top) => top - slide,
        _ => top + slide,
    };
    if !was_open && !reduced_motion {
        Opening { top: from, alpha: 0, animate: true }
    } else {
        Opening { top, alpha: 255, animate: false }
    }
}

} // verus!
