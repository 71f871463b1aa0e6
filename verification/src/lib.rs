//! A retained-mode GUI widget toolkit core: panels of buttons, text fields,
//! faders and dropdown buttons, with verified hit-testing, tab-order focus
//! traversal, and translation of raw input events into typed UI events.
//!
//! Rendering and platform event plumbing are collaborators outside this
//! library: they consume the geometry this crate exposes and feed it plain
//! input values.

use vstd::prelude::*;

mod gui;
mod handler;
mod panel;
pub mod widgets;

pub use crate::gui::GuiBuilder;
pub use crate::gui::GUI;
pub use crate::handler::EventHandler;
pub use crate::handler::HandlerEvent;
pub use crate::handler::Key;
pub use crate::handler::MouseButton;
pub use crate::handler::RawEvent;
pub use crate::panel::Panel;


verus! {

/// Coordinates accepted by widget constructors; shifting a widget by a panel
/// offset (also bounded by this) keeps every coordinate within `COORD_LIMIT`.
pub const COORD_INPUT_LIMIT: i32 = 1_000_000;

/// Every stored widget anchor coordinate stays within this bound after the
/// one construction-time shift.
pub const COORD_LIMIT: i32 = 2_000_000;

/// Every rectangle this library computes lies inside the square of this
/// half-extent, which keeps all rectangle arithmetic far from `i32` overflow.
pub const RECT_LIMIT: i32 = 1_000_000_000;

/// An axis-aligned rectangle: origin `(x, y)`, extent `(w, h)`.
#[derive(Debug, Clone, Copy, PartialEq, Eq, Structural)]
pub struct Rect {
    pub x: i32,
    pub y: i32,
    pub w: i32,
    pub h: i32,
}

impl Rect {
    /// Well-formed: non-negative extent, and the whole rectangle lies inside
    /// the `RECT_LIMIT` square. This shape of bound is closed under
    /// bounding-box union.
    pub open spec fn wf(self) -> bool {
        &&& -RECT_LIMIT <= self.x && self.x + self.w <= RECT_LIMIT
        &&& -RECT_LIMIT <= self.y && self.y + self.h <= RECT_LIMIT
        &&& 0 <= self.w
        &&& 0 <= self.h
    }

    /// The point `(px, py)` lies in the rectangle, all four edges inclusive.
    pub open spec fn spec_contains(self, px: int, py: int) -> bool {
        &&& self.x <= px <= self.x + self.w
        &&& self.y <= py <= self.y + self.h
    }

    pub fn new(x: i32, y: i32, w: i32, h: i32) -> (r: Rect)
        ensures
            r == (Rect { x, y, w, h }),
    {
        Rect { x, y, w, h }
    }

    /// Inclusive point-in-rectangle test on all four edges.
    pub fn contains(&self, px: i32, py: i32) -> (r: bool)
        requires
            self.wf(),
        ensures
            r == self.spec_contains(px as int, py as int),
    {
        px >= self.x && px <= self.x + self.w && py >= self.y && py <= self.y + self.h
    }
}

/// `(px, py)` lies in `rect`, all four edges inclusive.
pub fn in_bounds(rect: &Rect, px: i32, py: i32) -> (r: bool)
    requires
        rect.wf(),
    ensures
        r == rect.spec_contains(px as int, py as int),
{
    rect.contains(px, py)
}

/// The typed events handed back to the host application: the only values
/// that cross the boundary out of the event loop. `T` is the host's own
/// opaque payload type attached to a button.
#[derive(Debug, Clone, PartialEq)]
pub enum GuiEvent<T> {
    /// The platform asked the application to quit.
    Quit,
    /// A button in the named panel was clicked; carries its payload.
    Callback(String, T),
    /// The fader at this index in the named panel has a new value.
    FaderUpdate(String, usize, crate::widgets::Rational),
    /// The dropdown at this index in the named panel committed this option.
    DropdownUpdate(String, usize, String),
    /// Nothing the host needs to know about happened.
    Nothing,
}

/// A direction decoded from an arrow key.
#[derive(Debug, Clone, Copy, PartialEq, Eq, Structural)]
pub enum Direction {
    Up,
    Down,
    Left,
    Right,
}

/// The minimal rectangle covering all the given rectangles, or the zero
/// rectangle when there are none.
pub fn bounding_box(rects: &Vec<Rect>) -> (r: Rect)
    requires
        forall|i: int| 0 <= i < rects@.len() ==> (#[trigger] rects@[i]).wf(),
    ensures
        r.wf(),
        rects@.len() == 0 ==> r == (Rect { x: 0, y: 0, w: 0, h: 0 }),
        rects@.len() > 0 ==> {
            &&& forall|i: int|
                0 <= i < rects@.len() ==> {
                    &&& r.x <= (#[trigger] rects@[i]).x
                    &&& r.y <= rects@[i].y
                    &&& rects@[i].x + rects@[i].w <= r.x + r.w
                    &&& rects@[i].y + rects@[i].h <= r.y + r.h
                }
            &&& exists|i: int| 0 <= i < rects@.len() && r.x == (#[trigger] rects@[i]).x
            &&& exists|i: int| 0 <= i < rects@.len() && r.y == (#[trigger] rects@[i]).y
            &&& exists|i: int|
                0 <= i < rects@.len() && r.x + r.w == (#[trigger] rects@[i]).x + rects@[i].w
            &&& exists|i: int|
                0 <= i < rects@.len() && r.y + r.h == (#[trigger] rects@[i]).y + rects@[i].h
        },
{
    if rects.len() == 0 {
        return Rect { x: 0, y: 0, w: 0, h: 0 };
    }
    let first = rects[0];
    let mut min_x: i32 = first.x;
    let mut min_y: i32 = first.y;
    let mut max_x: i32 = first.x + first.w;
    let mut max_y: i32 = first.y + first.h;
    let mut i: usize = 1;
    while i < rects.len()
        invariant
            1 <= i <= rects@.len(),
            forall|j: int| 0 <= j < rects@.len() ==> (#[trigger] rects@[j]).wf(),
            forall|j: int|
                0 <= j < i ==> {
                    &&& min_x <= (#[trigger] rects@[j]).x
                    &&& min_y <= rects@[j].y
                    &&& rects@[j].x + rects@[j].w <= max_x
                    &&& rects@[j].y + rects@[j].h <= max_y
                },
            exists|j: int| 0 <= j < i && min_x == (#[trigger] rects@[j]).x,
            exists|j: int| 0 <= j < i && min_y == (#[trigger] rects@[j]).y,
            exists|j: int| 0 <= j < i && max_x == (#[trigger] rects@[j]).x + rects@[j].w,
            exists|j: int| 0 <= j < i && max_y == (#[trigger] rects@[j]).y + rects@[j].h,
        decreases rects@.len() - i,
    {
        let rc = rects[i];
        if rc.x < min_x {
            min_x = rc.x;
        }
        if rc.y < min_y {
            min_y = rc.y;
        }
        if rc.x + rc.w > max_x {
            max_x = rc.x + rc.w;
        }
        if rc.y + rc.h > max_y {
            max_y = rc.y + rc.h;
        }
        i = i + 1;
    }
    Rect { x: min_x, y: min_y, w: max_x - min_x, h: max_y - min_y }
}

/// Bound on a product of a bounded factor and a bounded non-negative factor.
pub(crate) proof fn lemma_mul_abs_bound(a: int, abound: int, b: int, bbound: int)
    requires
        -abound <= a <= abound,
        0 <= b <= bbound,
        0 <= abound,
    ensures
        -(abound * bbound) <= a * b <= abound * bbound,
{
    assert(-(abound * bbound) <= a * b <= abound * bbound) by (nonlinear_arith)
        requires
            -abound <= a <= abound,
            0 <= b <= bbound,
            0 <= abound,
    ;
}

/// Monotonicity of multiplication by a non-negative factor.
pub(crate) proof fn lemma_mul_le_mono(a: int, b: int, c: int)
    requires
        a <= b,
        0 <= c,
    ensures
        a * c <= b * c,
{
    assert(a * c <= b * c) by (nonlinear_arith)
        requires
            a <= b,
            0 <= c,
    ;
}

/// Hit-test inclusivity: a well-formed rectangle contains all four of its
/// corners, and not the points one pixel outside its left and right edges.
pub proof fn lemma_contains_corners(r: Rect)
    requires
        r.wf(),
    ensures
        r.spec_contains(r.x as int, r.y as int),
        r.spec_contains(r.x + r.w, r.y as int),
        r.spec_contains(r.x as int, r.y + r.h),
        r.spec_contains(r.x + r.w, r.y + r.h),
        !r.spec_contains(r.x - 1, r.y as int),
        !r.spec_contains(r.x + r.w + 1, r.y as int),
{
}

} // verus!
