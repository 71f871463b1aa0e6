//! A dropdown button: a closed button that opens into a list of option
//! rows below it. Clicking is a three-way state machine: closed opens the
//! list; open over a row commits that row; open elsewhere just closes.

use vstd::prelude::*;

use crate::lemma_mul_abs_bound;
use crate::lemma_mul_le_mono;
use crate::Rect;
use crate::COORD_INPUT_LIMIT;
use crate::COORD_LIMIT;

verus! {

/// Most option rows a dropdown accepts.
pub const DROPDOWN_OPTIONS_LIMIT: usize = 256;

/// A dropdown button widget. Option rows are 1-indexed: row 0 is the
/// closed-state button itself, row `i` is the `i`-th option, holding
/// `options[i - 1]`.
#[derive(Debug, Clone, PartialEq, Eq)]
pub struct DropdownButton {
    pub options: Vec<String>,
    pub rect: Rect,
    pub is_open: bool,
    pub active: usize,
    pub hovered: Option<usize>,
}

impl DropdownButton {
    pub open spec fn wf(self) -> bool {
        &&& -COORD_LIMIT <= self.rect.x <= COORD_LIMIT
        &&& -COORD_LIMIT <= self.rect.y <= COORD_LIMIT
        &&& 0 <= self.rect.w <= COORD_INPUT_LIMIT
        &&& 0 <= self.rect.h <= COORD_INPUT_LIMIT
        &&& self.options@.len() <= DROPDOWN_OPTIONS_LIMIT
        &&& (self.hovered matches Some(i) ==> 1 <= i <= self.options@.len())
    }

    /// A new closed dropdown anchored at `(x, y)`, 100 by 20 pixels, with no
    /// options yet.
    pub fn new(x: i32, y: i32) -> (d: DropdownButton)
        requires
            -COORD_INPUT_LIMIT <= x <= COORD_INPUT_LIMIT,
            -COORD_INPUT_LIMIT <= y <= COORD_INPUT_LIMIT,
        ensures
            d.wf(),
            d.options@.len() == 0,
            d.rect == (Rect { x, y, w: 100, h: 20 }),
            !d.is_open,
            d.active == 0,
            d.hovered is None,
    {
        DropdownButton {
            options: Vec::new(),
            rect: Rect { x, y, w: 100, h: 20 },
            is_open: false,
            active: 0,
            hovered: None,
        }
    }

    pub fn options(self, options: Vec<String>) -> (d: DropdownButton)
        requires
            options@.len() <= DROPDOWN_OPTIONS_LIMIT,
            self.hovered is None,
        ensures
            d == (DropdownButton { options, ..self }),
    {
        DropdownButton { options, ..self }
    }

    pub fn open(&mut self)
        ensures
            *final(self) == (DropdownButton { is_open: true, ..*old(self) }),
    {
        self.is_open = true;
    }

    /// Closes the list and forgets the hovered row.
    pub fn close(&mut self)
        ensures
            *final(self) == (DropdownButton { is_open: false, hovered: None, ..*old(self) }),
    {
        self.hovered = None;
        self.is_open = false;
    }

    pub fn toggle(&mut self)
        ensures
            *final(self) == (DropdownButton { is_open: !old(self).is_open, ..*old(self) }),
    {
        self.is_open = !self.is_open;
    }

    /// Row `i` (1-indexed) spans the half-open vertical band
    /// `[y + i*h, y + (i+1)*h)`.
    pub open spec fn in_band(self, i: int, y: int) -> bool {
        self.rect.y + i * self.rect.h <= y < self.rect.y + (i + 1) * self.rect.h
    }

    /// The dropdown after a hover at height `y`: the hovered row becomes the
    /// row whose band contains `y`, or stays as it was when none does.
    pub open spec fn spec_hover(self, y: int) -> DropdownButton {
        if exists|i: int| 1 <= i <= self.options@.len() && self.in_band(i, y) {
            let i = choose|i: int| 1 <= i <= self.options@.len() && self.in_band(i, y);
            DropdownButton { hovered: Some(i as usize), ..self }
        } else {
            self
        }
    }

    /// Recomputes the hovered row from the pointer's y position on the row
    /// grid below the anchor; leaves it alone when no row contains y.
    pub fn hover(&mut self, _x: i32, y: i32)
        requires
            old(self).wf(),
        ensures
            final(self).wf(),
            *final(self) == old(self).spec_hover(y as int),
    {
        let len: usize = self.options.len();
        let mut i: usize = 1;
        while i <= len
            invariant
                old(self).wf(),
                1 <= i <= len + 1,
                len == old(self).options@.len(),
                *self == (DropdownButton { hovered: self.hovered, ..*old(self) }),
                self.hovered matches Some(k) ==> 1 <= k <= len,
                forall|j: int|
                    1 <= j < i && old(self).in_band(j, y as int) ==> self.hovered == Some(
                        j as usize,
                    ),
                (forall|j: int| 1 <= j < i ==> !old(self).in_band(j, y as int))
                    ==> self.hovered == old(self).hovered,
            decreases len + 1 - i,
        {
            proof {
                lemma_mul_abs_bound(i as int + 1, DROPDOWN_OPTIONS_LIMIT as int + 1, self.rect.h as int, COORD_INPUT_LIMIT as int);
                lemma_mul_abs_bound(i as int, DROPDOWN_OPTIONS_LIMIT as int + 1, self.rect.h as int, COORD_INPUT_LIMIT as int);
            }
            let lower: i32 = self.rect.y + (i as i32) * self.rect.h;
            let upper: i32 = self.rect.y + ((i as i32) + 1) * self.rect.h;
            proof {
                assert(lower == self.rect.y + i as int * self.rect.h);
                assert(upper == self.rect.y + (i as int + 1) * self.rect.h);
            }
            if y >= lower && y < upper {
                self.hovered = Some(i);
                proof {
                    assert(old(self).in_band(i as int, y as int));
                    assert forall|j: int| 1 <= j < i implies !old(self).in_band(
                        j,
                        y as int,
                    ) by {
                        lemma_band_unique(*old(self), i as int, j, y as int);
                    }
                }
            } else {
                proof {
                    assert(!old(self).in_band(i as int, y as int));
                }
            }
            i = i + 1;
        }
        proof {
            let y0 = y as int;
            let len0 = old(self).options@.len() as int;
            if exists|k: int| 1 <= k <= len0 && old(self).in_band(k, y0) {
                let k0 = choose|k: int| 1 <= k <= len0 && old(self).in_band(k, y0);
                assert(self.hovered == Some(k0 as usize));
            }
        }
    }

    pub fn unhover(&mut self)
        ensures
            *final(self) == (DropdownButton { hovered: None, ..*old(self) }),
    {
        self.hovered = None;
    }

    /// The three-way click state machine, as one transition: the new state
    /// and the committed option, if any. Closed: opens the list, yields
    /// nothing. Open over a row: commits that row as the selection, closes,
    /// and yields the row's label. Open with no hovered row: closes, yields
    /// nothing.
    pub open spec fn spec_click(self) -> (DropdownButton, Option<String>) {
        if !self.is_open {
            (DropdownButton { is_open: true, ..self }, None)
        } else {
            match self.hovered {
                None => (DropdownButton { is_open: false, hovered: None, ..self }, None),
                Some(i) => (
                    DropdownButton { is_open: false, hovered: None, active: i, ..self },
                    Some(self.options@[i - 1]),
                ),
            }
        }
    }

    /// Runs the three-way click state machine; see [`Self::spec_click`].
    pub fn click(&mut self) -> (r: Option<String>)
        requires
            old(self).wf(),
        ensures
            final(self).wf(),
            *final(self) == old(self).spec_click().0,
            r == old(self).spec_click().1,
    {
        if self.is_open && self.hovered.is_some() {
            let i: usize = match self.hovered {
                Some(i) => i,
                None => 0,
            };
            self.active = i;
            let result = Some(self.options[self.active - 1].clone());
            self.close();
            result
        } else if !self.is_open {
            self.open();
            None
        } else {
            self.close();
            None
        }
    }

    /// The clickable region of the closed-state button row.
    pub open spec fn spec_bounds(self) -> Rect {
        self.rect
    }

    pub fn bounds(&self) -> (r: Rect)
        ensures
            r == self.spec_bounds(),
    {
        self.rect
    }

    /// The hit-testable region: the anchor row alone when closed, or the
    /// anchor row plus every option row when open.
    pub open spec fn spec_visual_bounds(self) -> Rect {
        if self.is_open {
            Rect {
                x: self.rect.x,
                y: self.rect.y,
                w: self.rect.w,
                h: (self.rect.h * (self.options@.len() + 1)) as i32,
            }
        } else {
            self.rect
        }
    }

    pub fn visual_bounds(&self) -> (r: Rect)
        requires
            self.wf(),
        ensures
            r == self.spec_visual_bounds(),
            r.wf(),
    {
        if self.is_open {
            proof {
                lemma_mul_abs_bound(self.rect.h as int, COORD_INPUT_LIMIT as int, self.options@.len() as int + 1, DROPDOWN_OPTIONS_LIMIT as int + 1);
            }
            let rows: i32 = (self.options.len() as i32) + 1;
            Rect { x: self.rect.x, y: self.rect.y, w: self.rect.w, h: self.rect.h * rows }
        } else {
            self.rect
        }
    }

    /// Translates the dropdown; done once, at panel construction.
    pub fn shift(&mut self, dx: i32, dy: i32)
        requires
            old(self).wf(),
            -COORD_LIMIT <= old(self).rect.x + dx <= COORD_LIMIT,
            -COORD_LIMIT <= old(self).rect.y + dy <= COORD_LIMIT,
        ensures
            final(self).wf(),
            *final(self) == (DropdownButton {
                rect: Rect {
                    x: (old(self).rect.x + dx) as i32,
                    y: (old(self).rect.y + dy) as i32,
                    ..old(self).rect
                },
                ..*old(self)
            }),
    {
        self.rect.x = self.rect.x + dx;
        self.rect.y = self.rect.y + dy;
    }
}

/// Option rows never overlap: a point inside row `i`'s band lies below every
/// earlier row's band.
proof fn lemma_band_unique(d: DropdownButton, i: int, j: int, y: int)
    requires
        0 <= d.rect.h,
        1 <= j < i,
        d.in_band(i, y),
    ensures
        !d.in_band(j, y),
{
    lemma_mul_le_mono(j + 1, i, d.rect.h as int);
}

} // verus!
