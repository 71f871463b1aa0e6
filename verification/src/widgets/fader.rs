//! A fader (linear slider): a knob travelling along a fixed-length track,
//! mapping the knob's position to a value in a caller-chosen range.
//!
//! The position is stored as an exact fraction: `value_num` over the fixed
//! denominator `length * (max - min)`. Dragging, stepping and the
//! normalize-then-denormalize round trip are therefore exact; `value()`
//! reports the ranged value as a [`Rational`].

use vstd::prelude::*;

use crate::lemma_mul_abs_bound;
use crate::lemma_mul_le_mono;
use crate::widgets::Orientation;
use crate::Rect;
use crate::COORD_INPUT_LIMIT;
use crate::COORD_LIMIT;

verus! {

/// Longest fader track accepted, in pixels.
pub const FADER_LENGTH_LIMIT: i32 = 32_768;

/// Largest magnitude accepted for a fader range endpoint.
pub const FADER_RANGE_LIMIT: i64 = 32_768;

/// How far one increment or decrement moves the value, in range units.
pub const FADER_STEP: i64 = 10;

/// An exact fraction `num / den`, with `den > 0`.
#[derive(Debug, Clone, Copy, PartialEq, Eq, Structural)]
pub struct Rational {
    pub num: i64,
    pub den: i64,
}

impl Rational {
    pub open spec fn wf(self) -> bool {
        0 < self.den
    }

    /// The fraction is exactly the integer `v`.
    pub open spec fn spec_eq_int(self, v: int) -> bool {
        self.num == v * self.den
    }

    /// Whether the fraction equals the integer `v` exactly.
    pub fn equals_int(&self, v: i64) -> (r: bool)
        requires
            self.wf(),
            -0x10000 <= v <= 0x10000,
            self.den <= 0x8000_0000,
        ensures
            r == self.spec_eq_int(v as int),
    {
        proof {
            lemma_mul_abs_bound(v as int, 0x10000, self.den as int, 0x8000_0000);
        }
        self.num == v * self.den
    }
}

/// A linear slider widget.
#[derive(Debug, Clone, Copy, PartialEq, Eq, Structural)]
pub struct Fader {
    pub x: i32,
    pub y: i32,
    pub length: i32,
    pub orientation: Orientation,
    pub value_num: i64,
    pub min: i64,
    pub max: i64,
    pub is_hovered: bool,
    pub display_on_hover: bool,
}

impl Fader {
    /// Width of the value range.
    pub open spec fn span(self) -> int {
        self.max - self.min
    }

    /// The fixed denominator of the stored knob position.
    pub open spec fn denom(self) -> int {
        self.length * self.span()
    }

    pub open spec fn wf(self) -> bool {
        &&& -COORD_LIMIT <= self.x <= COORD_LIMIT
        &&& -COORD_LIMIT <= self.y <= COORD_LIMIT
        &&& 1 <= self.length <= FADER_LENGTH_LIMIT
        &&& -FADER_RANGE_LIMIT <= self.min < self.max <= FADER_RANGE_LIMIT
        &&& 0 <= self.value_num <= self.denom()
    }

    /// Numerator of the ranged value over the denominator `denom()`:
    /// `min + (value_num / denom) * span`.
    pub open spec fn value_numerator(self) -> int {
        self.min * self.denom() + self.value_num * self.span()
    }

    /// `denom()` fits comfortably in the machine integers.
    proof fn lemma_denom_bound(self)
        requires
            self.wf(),
        ensures
            0 < self.denom() <= 0x8000_0000,
            0 <= self.value_num <= 0x8000_0000,
    {
        assert(0 < self.length * self.span() <= 0x8000_0000) by (nonlinear_arith)
            requires
                1 <= self.length <= FADER_LENGTH_LIMIT,
                1 <= self.span() <= 0x10000,
        ;
    }

    /// A new horizontal fader anchored at `(x, y)` with track length `w`,
    /// range `0..=1`, and the knob at the bottom of the range.
    pub fn new(x: i32, y: i32, w: i32) -> (f: Fader)
        requires
            -COORD_INPUT_LIMIT <= x <= COORD_INPUT_LIMIT,
            -COORD_INPUT_LIMIT <= y <= COORD_INPUT_LIMIT,
            1 <= w <= FADER_LENGTH_LIMIT,
        ensures
            f.wf(),
            f == (Fader {
                x,
                y,
                length: w,
                orientation: Orientation::Horizontal,
                value_num: 0,
                min: 0,
                max: 1,
                is_hovered: false,
                display_on_hover: false,
            }),
    {
        Fader {
            x,
            y,
            length: w,
            orientation: Orientation::Horizontal,
            value_num: 0,
            min: 0,
            max: 1,
            is_hovered: false,
            display_on_hover: false,
        }
    }

    pub fn display_on_hover(self) -> (f: Fader)
        ensures
            f == (Fader { display_on_hover: true, ..self }),
    {
        Fader { display_on_hover: true, ..self }
    }

    pub fn vertical(self) -> (f: Fader)
        ensures
            f == (Fader { orientation: Orientation::Vertical, ..self }),
    {
        Fader { orientation: Orientation::Vertical, ..self }
    }

    pub fn orientation(&self) -> (o: Orientation)
        ensures
            o == self.orientation,
    {
        self.orientation
    }

    /// Replaces the value range. The normalized knob position is kept, up to
    /// the rounding forced by the new denominator: the stored numerator is
    /// rescaled by `new span / old span`, rounding down.
    pub fn range(self, min: i64, max: i64) -> (f: Fader)
        requires
            self.wf(),
            -FADER_RANGE_LIMIT <= min < max <= FADER_RANGE_LIMIT,
        ensures
            f.wf(),
            f == (Fader { min, max, value_num: f.value_num, ..self }),
            f.value_num == (self.value_num * (max - min)) / self.span(),
    {
        proof {
            self.lemma_denom_bound();
            lemma_mul_abs_bound(self.value_num as int, 0x8000_0000, (max - min) as int, 0x10000);
        }
        let old_span: i64 = self.max - self.min;
        let new_span: i64 = max - min;
        let prod: u64 = (self.value_num as u64) * (new_span as u64);
        let q: u64 = prod / (old_span as u64);
        proof {
            let vn = self.value_num as int;
            assert((vn * (max - min)) / (self.max - self.min) <= self.length * (max - min)
                && 0 <= (vn * (max - min)) / (self.max - self.min)) by (nonlinear_arith)
                requires
                    0 <= vn <= self.length * (self.max - self.min),
                    0 < self.max - self.min,
                    0 < max - min,
                    0 < self.length,
            ;
            lemma_mul_abs_bound(self.length as int, FADER_LENGTH_LIMIT as int, (max - min) as int, 0x10000);
        }
        let value_num: i64 = q as i64;
        Fader { min, max, value_num, ..self }
    }

    /// Sets the value to exactly `v` range units.
    pub fn initial(self, v: i64) -> (f: Fader)
        requires
            self.wf(),
            self.min <= v <= self.max,
        ensures
            f.wf(),
            f == (Fader { value_num: f.value_num, ..self }),
            f.value_num == (v - self.min) * self.length,
    {
        proof {
            lemma_mul_abs_bound((v - self.min) as int, 0x10000, self.length as int, FADER_LENGTH_LIMIT as int);
            lemma_mul_le_mono((v - self.min) as int, self.span(), self.length as int);
            assert(self.span() * self.length == self.denom()) by (nonlinear_arith);
        }
        let value_num: i64 = (v - self.min) * (self.length as i64);
        Fader { value_num, ..self }
    }

    /// The fader with its value set to exactly `v` range units.
    pub open spec fn spec_set_value(self, v: int) -> Fader {
        Fader { value_num: ((v - self.min) * self.length) as i64, ..self }
    }

    /// Sets the value to exactly `v` range units, in place.
    pub fn set_value(&mut self, v: i64)
        requires
            old(self).wf(),
            old(self).min <= v <= old(self).max,
        ensures
            final(self).wf(),
            *final(self) == old(self).spec_set_value(v as int),
            final(self).value_num == (v - old(self).min) * old(self).length,
    {
        proof {
            lemma_mul_abs_bound((v - self.min) as int, 0x10000, self.length as int, FADER_LENGTH_LIMIT as int);
            lemma_mul_le_mono((v - self.min) as int, self.span(), self.length as int);
            assert(self.span() * self.length == self.denom()) by (nonlinear_arith);
        }
        self.value_num = (v - self.min) * (self.length as i64);
    }

    /// The current value in range units, as an exact fraction
    /// `min + (value_num / denom) * (max - min)`.
    pub fn value(&self) -> (r: Rational)
        requires
            self.wf(),
        ensures
            r.num == self.value_numerator(),
            r.den == self.denom(),
            r.wf(),
    {
        proof {
            self.lemma_denom_bound();
        }
        let span: i64 = self.max - self.min;
        let d: i64 = (self.length as i64) * span;
        proof {
            lemma_mul_abs_bound(self.min as int, FADER_RANGE_LIMIT as int, d as int, 0x8000_0000);
            lemma_mul_abs_bound(self.value_num as int, 0x8000_0000, span as int, 0x10000);
        }
        let num: i64 = self.min * d + self.value_num * span;
        Rational { num, den: d }
    }

    /// The fader after one upward step: `FADER_STEP` range units up, or
    /// unchanged when that would pass the top of the range.
    pub open spec fn spec_increment(self) -> Fader {
        if self.value_num + FADER_STEP * self.length <= self.denom() {
            Fader { value_num: (self.value_num + FADER_STEP * self.length) as i64, ..self }
        } else {
            self
        }
    }

    /// Steps the value up by `FADER_STEP` range units, exactly; a no-op when
    /// that would push the value past the top of the range.
    pub fn increment(&mut self)
        requires
            old(self).wf(),
        ensures
            final(self).wf(),
            *final(self) == old(self).spec_increment(),
    {
        proof {
            self.lemma_denom_bound();
        }
        let span: i64 = self.max - self.min;
        let d: i64 = (self.length as i64) * span;
        let step: i64 = FADER_STEP * (self.length as i64);
        if self.value_num + step <= d {
            self.value_num = self.value_num + step;
        }
    }

    /// The fader after one downward step: `FADER_STEP` range units down, or
    /// unchanged when that would pass the bottom of the range.
    pub open spec fn spec_decrement(self) -> Fader {
        if self.value_num - FADER_STEP * self.length >= 0 {
            Fader { value_num: (self.value_num - FADER_STEP * self.length) as i64, ..self }
        } else {
            self
        }
    }

    /// Steps the value down by `FADER_STEP` range units, exactly; a no-op
    /// when that would push the value below the bottom of the range.
    pub fn decrement(&mut self)
        requires
            old(self).wf(),
        ensures
            final(self).wf(),
            *final(self) == old(self).spec_decrement(),
    {
        proof {
            self.lemma_denom_bound();
        }
        let step: i64 = FADER_STEP * (self.length as i64);
        if self.value_num - step >= 0 {
            self.value_num = self.value_num - step;
        }
    }

    /// The knob position a drag to `(x, y)` puts the fader in: the pointer
    /// position projected onto the track and clamped to it, as a numerator
    /// over `denom()`. A vertical fader is inverted: screen y grows
    /// downward, the value grows upward.
    pub open spec fn spec_drag_num(self, x: int, y: int) -> int {
        let raw = match self.orientation {
            Orientation::Horizontal => x - self.x,
            Orientation::Vertical => self.y - y,
        };
        let rel = if raw < 0 {
            0
        } else if raw > self.length {
            self.length as int
        } else {
            raw
        };
        rel * self.span()
    }

    /// The fader after a drag to `(x, y)`.
    pub open spec fn spec_drag(self, x: int, y: int) -> Fader {
        Fader { value_num: self.spec_drag_num(x, y) as i64, ..self }
    }

    /// Moves the knob to the pointer position, clamped to the track.
    pub fn drag(&mut self, x: i32, y: i32)
        requires
            old(self).wf(),
        ensures
            final(self).wf(),
            *final(self) == old(self).spec_drag(x as int, y as int),
            final(self).value_num == old(self).spec_drag_num(x as int, y as int),
    {
        let raw: i64 = match self.orientation {
            Orientation::Horizontal => (x as i64) - (self.x as i64),
            Orientation::Vertical => (self.y as i64) - (y as i64),
        };
        let len: i64 = self.length as i64;
        let rel: i64 = if raw < 0 {
            0
        } else if raw > len {
            len
        } else {
            raw
        };
        let span: i64 = self.max - self.min;
        proof {
            lemma_mul_abs_bound(rel as int, FADER_LENGTH_LIMIT as int, span as int, 0x10000);
            lemma_mul_le_mono(rel as int, self.length as int, self.span());
            assert(self.length * self.span() == self.denom()) by (nonlinear_arith);
        }
        self.value_num = rel * span;
    }

    pub fn is_hovered(&mut self, b: bool)
        ensures
            *final(self) == (Fader { is_hovered: b, ..*old(self) }),
    {
        self.is_hovered = b;
    }

    /// The knob's current rectangle: a small box centred on the knob's
    /// position along the track.
    pub open spec fn spec_bounds(self) -> Rect {
        let lerp = (self.value_num * self.length) / self.denom();
        match self.orientation {
            Orientation::Horizontal => Rect {
                x: (self.x + lerp - 5) as i32,
                y: (self.y - 10) as i32,
                w: 10,
                h: 20,
            },
            Orientation::Vertical => Rect {
                x: (self.x - 10) as i32,
                y: (self.y - lerp - 5) as i32,
                w: 20,
                h: 10,
            },
        }
    }

    pub fn bounds(&self) -> (r: Rect)
        requires
            self.wf(),
        ensures
            r == self.spec_bounds(),
            r.wf(),
    {
        proof {
            self.lemma_denom_bound();
        }
        let span: i64 = self.max - self.min;
        let d: i64 = (self.length as i64) * span;
        proof {
            lemma_mul_abs_bound(self.value_num as int, 0x8000_0000, self.length as int, FADER_LENGTH_LIMIT as int);
            let vn = self.value_num as int;
            let len = self.length as int;
            assert((vn * len) / (d as int) <= len && 0 <= (vn * len) / (d as int)) by (nonlinear_arith)
                requires
                    0 <= vn <= d,
                    0 < d,
                    0 < len,
            ;
        }
        let lerp64: u64 = (self.value_num as u64) * (self.length as u64) / (d as u64);
        let lerp: i32 = lerp64 as i32;
        match self.orientation {
            Orientation::Horizontal => Rect { x: self.x + lerp - 5, y: self.y - 10, w: 10, h: 20 },
            Orientation::Vertical => Rect { x: self.x - 10, y: self.y - lerp - 5, w: 20, h: 10 },
        }
    }

    /// The knob's full travel envelope: the whole track, 20 pixels across.
    pub open spec fn spec_visual_bounds(self) -> Rect {
        match self.orientation {
            Orientation::Horizontal => Rect {
                x: self.x,
                y: (self.y - 10) as i32,
                w: self.length,
                h: 20,
            },
            Orientation::Vertical => Rect {
                x: (self.x - 10) as i32,
                y: (self.y - self.length) as i32,
                w: 20,
                h: self.length,
            },
        }
    }

    pub fn visual_bounds(&self) -> (r: Rect)
        requires
            self.wf(),
        ensures
            r == self.spec_visual_bounds(),
            r.wf(),
    {
        match self.orientation {
            Orientation::Horizontal => Rect { x: self.x, y: self.y - 10, w: self.length, h: 20 },
            Orientation::Vertical => Rect {
                x: self.x - 10,
                y: self.y - self.length,
                w: 20,
                h: self.length,
            },
        }
    }

    /// Translates the fader's anchor; done once, at panel construction.
    pub fn shift(&mut self, dx: i32, dy: i32)
        requires
            old(self).wf(),
            -COORD_LIMIT <= old(self).x + dx <= COORD_LIMIT,
            -COORD_LIMIT <= old(self).y + dy <= COORD_LIMIT,
        ensures
            final(self).wf(),
            *final(self) == (Fader {
                x: (old(self).x + dx) as i32,
                y: (old(self).y + dy) as i32,
                ..*old(self)
            }),
    {
        self.x = self.x + dx;
        self.y = self.y + dy;
    }
}

/// Fader round trip: a fader whose knob was set to exactly `v` range units
/// (as `initial` and `set_value` do) reports exactly `v` from `value()`.
pub proof fn lemma_fader_value_exact(f: Fader, v: int)
    requires
        f.wf(),
        f.min <= v <= f.max,
        f.value_num == (v - f.min) * f.length,
    ensures
        f.value_numerator() == v * f.denom(),
{
    assert(f.min * (f.length * (f.max - f.min)) + ((v - f.min) * f.length) * (f.max - f.min) == v
        * (f.length * (f.max - f.min))) by (nonlinear_arith);
}

/// Dragging to the extreme ends of the track yields exactly the bottom and
/// top of the range: knob at zero means `value() == min`, knob at the full
/// denominator means `value() == max`.
pub proof fn lemma_fader_extremes(f: Fader)
    requires
        f.wf(),
    ensures
        f.value_num == 0 ==> f.value_numerator() == f.min * f.denom(),
        f.value_num == f.denom() ==> f.value_numerator() == f.max * f.denom(),
{
    if f.value_num == f.denom() {
        assert(f.min * (f.length * (f.max - f.min)) + (f.length * (f.max - f.min)) * (f.max
            - f.min) == f.max * (f.length * (f.max - f.min))) by (nonlinear_arith);
    }
}

} // verus!
