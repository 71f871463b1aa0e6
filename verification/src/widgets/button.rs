//! A push button carrying a caller-supplied opaque payload, returned
//! verbatim on click.

use vstd::prelude::*;
use vstd::string::StringExecFns;

use crate::widgets::Color;
use crate::Rect;
use crate::COORD_INPUT_LIMIT;
use crate::COORD_LIMIT;

verus! {

/// A button widget; `T` is the host's payload handed back on click.
#[derive(Debug, Clone, PartialEq, Eq)]
pub struct Button<T: Copy> {
    pub color: Color,
    pub label: String,
    pub font_size: u16,
    pub rect: Rect,
    pub callback: T,
    pub is_pressed: bool,
    pub is_hovered: bool,
}

impl<T: Copy> Button<T> {
    pub open spec fn wf(self) -> bool {
        &&& -COORD_LIMIT <= self.rect.x <= COORD_LIMIT
        &&& -COORD_LIMIT <= self.rect.y <= COORD_LIMIT
        &&& 0 <= self.rect.w <= COORD_INPUT_LIMIT
        &&& 0 <= self.rect.h <= COORD_INPUT_LIMIT
    }

    /// A new button with an empty label, the default colour, and the
    /// payload's default value.
    pub fn new(x: i32, y: i32, w: i32, h: i32) -> (b: Button<T>) where T: Default
        requires
            -COORD_INPUT_LIMIT <= x <= COORD_INPUT_LIMIT,
            -COORD_INPUT_LIMIT <= y <= COORD_INPUT_LIMIT,
            0 <= w <= COORD_INPUT_LIMIT,
            0 <= h <= COORD_INPUT_LIMIT,
        ensures
            b.wf(),
            b.rect == (Rect { x, y, w, h }),
            b.label@ == Seq::<char>::empty(),
            b.font_size == 24,
            b.color == (Color { r: 85, g: 85, b: 85 }),
            !b.is_pressed,
            !b.is_hovered,
    {
        Button {
            color: Color { r: 85, g: 85, b: 85 },
            label: String::new(),
            font_size: 24,
            rect: Rect { x, y, w, h },
            callback: T::default(),
            is_pressed: false,
            is_hovered: false,
        }
    }

    /// Returns the stored payload, unconditionally: callers decide whether a
    /// click is semantically valid before invoking.
    pub fn click(&self) -> (r: T)
        ensures
            r == self.callback,
    {
        self.callback
    }

    pub fn font_size(self, size: u16) -> (b: Button<T>)
        ensures
            b == (Button { font_size: size, ..self }),
    {
        Button { font_size: size, ..self }
    }

    pub fn label(self, s: String) -> (b: Button<T>)
        ensures
            b == (Button { label: s, ..self }),
    {
        Button { label: s, ..self }
    }

    pub fn set_label(&mut self, s: String)
        ensures
            *final(self) == (Button { label: s, ..*old(self) }),
    {
        self.label = s;
    }

    pub fn color_rgb(self, r: u8, g: u8, b: u8) -> (btn: Button<T>)
        ensures
            btn == (Button { color: Color { r, g, b }, ..self }),
    {
        Button { color: Color { r, g, b }, ..self }
    }

    pub fn callback(self, cb: T) -> (b: Button<T>)
        ensures
            b == (Button { callback: cb, ..self }),
    {
        Button { callback: cb, ..self }
    }

    pub fn is_hovered(&mut self, b: bool)
        ensures
            *final(self) == (Button { is_hovered: b, ..*old(self) }),
    {
        self.is_hovered = b;
    }

    /// The clickable region: the button's own rectangle.
    pub open spec fn spec_bounds(self) -> Rect {
        self.rect
    }

    pub fn bounds(&self) -> (r: Rect)
        ensures
            r == self.spec_bounds(),
    {
        self.rect
    }

    /// The hit-testable region; for a button it is just its rectangle.
    pub open spec fn spec_visual_bounds(self) -> Rect {
        self.rect
    }

    pub fn visual_bounds(&self) -> (r: Rect)
        requires
            self.wf(),
        ensures
            r == self.spec_visual_bounds(),
            r.wf(),
    {
        self.rect
    }

    /// Translates the button; done once, at panel construction.
    pub fn shift(&mut self, dx: i32, dy: i32)
        requires
            old(self).wf(),
            -COORD_LIMIT <= old(self).rect.x + dx <= COORD_LIMIT,
            -COORD_LIMIT <= old(self).rect.y + dy <= COORD_LIMIT,
        ensures
            final(self).wf(),
            *final(self) == (Button {
                rect: Rect {
                    x: (old(self).rect.x + dx) as i32,
                    y: (old(self).rect.y + dy) as i32,
                    ..old(self).rect
                },
                ..*old(self)
            }),
    {
        self.rect.x = self.rect.x + dx;
        self.rect.y = self.rect.y + dy;
    }
}

/// Builds a [`Button`] field by field; `build` reports an error when a
/// mandatory field (the rectangle or the payload) was never set.
#[derive(Debug, Clone, PartialEq, Eq)]
pub struct ButtonBuilder<T: Copy> {
    pub color: Option<Color>,
    pub rect: Option<Rect>,
    pub callback: Option<T>,
    pub label: String,
    pub font_size: u16,
}

impl<T: Copy> ButtonBuilder<T> {
    /// The rectangle, when set, came through `rect` and is bounded.
    pub open spec fn wf(self) -> bool {
        self.rect matches Some(rc) ==> {
            &&& -COORD_INPUT_LIMIT <= rc.x <= COORD_INPUT_LIMIT
            &&& -COORD_INPUT_LIMIT <= rc.y <= COORD_INPUT_LIMIT
            &&& 0 <= rc.w <= COORD_INPUT_LIMIT
            &&& 0 <= rc.h <= COORD_INPUT_LIMIT
        }
    }

    pub fn new() -> (b: ButtonBuilder<T>)
        ensures
            b.wf(),
            b.color is None,
            b.rect is None,
            b.callback is None,
            b.label@ == " "@,
            b.font_size == 24,
    {
        ButtonBuilder {
            color: None,
            rect: None,
            callback: None,
            label: String::from_str(" "),
            font_size: 24,
        }
    }

    pub fn color(self, rgb: (u8, u8, u8)) -> (b: ButtonBuilder<T>)
        ensures
            b == (ButtonBuilder { color: Some(Color { r: rgb.0, g: rgb.1, b: rgb.2 }), ..self }),
    {
        ButtonBuilder { color: Some(Color { r: rgb.0, g: rgb.1, b: rgb.2 }), ..self }
    }

    pub fn rect(self, x: i32, y: i32, w: i32, h: i32) -> (b: ButtonBuilder<T>)
        requires
            -COORD_INPUT_LIMIT <= x <= COORD_INPUT_LIMIT,
            -COORD_INPUT_LIMIT <= y <= COORD_INPUT_LIMIT,
            0 <= w <= COORD_INPUT_LIMIT,
            0 <= h <= COORD_INPUT_LIMIT,
        ensures
            b == (ButtonBuilder { rect: Some(Rect { x, y, w, h }), ..self }),
            b.wf(),
    {
        ButtonBuilder { rect: Some(Rect { x, y, w, h }), ..self }
    }

    pub fn callback(self, cb: T) -> (b: ButtonBuilder<T>)
        ensures
            b == (ButtonBuilder { callback: Some(cb), ..self }),
    {
        ButtonBuilder { callback: Some(cb), ..self }
    }

    pub fn label(self, s: String) -> (b: ButtonBuilder<T>)
        ensures
            b == (ButtonBuilder { label: s, ..self }),
    {
        ButtonBuilder { label: s, ..self }
    }

    pub fn font_size(self, n: u16) -> (b: ButtonBuilder<T>)
        ensures
            b == (ButtonBuilder { font_size: n, ..self }),
    {
        ButtonBuilder { font_size: n, ..self }
    }

    /// Assembles the button. Fails, with a message naming the missing field,
    /// exactly when the rectangle or the payload was never set; an unset
    /// colour falls back to the default grey.
    pub fn build(self) -> (r: Result<Button<T>, String>)
        requires
            self.wf(),
        ensures
            r is Ok <==> (self.rect is Some && self.callback is Some),
            r matches Ok(b) ==> {
                &&& b.wf()
                &&& Some(b.rect) == self.rect
                &&& Some(b.callback) == self.callback
                &&& b.label == self.label
                &&& b.font_size == self.font_size
                &&& b.color == if self.color is Some {
                    self.color->0
                } else {
                    Color { r: 85, g: 85, b: 85 }
                }
                &&& !b.is_pressed
                &&& !b.is_hovered
            },
            self.rect is None ==> (r matches Err(e) && e@ == "Button.rect must be set"@),
            (self.rect is Some && self.callback is None) ==> (r matches Err(e) && e@
                == "Button.callback must be set"@),
    {
        let rect = match self.rect {
            Some(rc) => rc,
            None => {
                return Err(String::from_str("Button.rect must be set"));
            },
        };
        let callback = match self.callback {
            Some(cb) => cb,
            None => {
                return Err(String::from_str("Button.callback must be set"));
            },
        };
        let color = match self.color {
            Some(c) => c,
            None => Color { r: 85, g: 85, b: 85 },
        };
        Ok(
            Button {
                color,
                rect,
                callback,
                is_pressed: false,
                is_hovered: false,
                label: self.label,
                font_size: self.font_size,
            },
        )
    }
}

} // verus!
