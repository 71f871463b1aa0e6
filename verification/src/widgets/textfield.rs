//! A text field: an owned, mutable line of text with an optional label, a
//! focus flag, and display options. Non-clickable fields are display-only
//! and never accept focus.

use vstd::prelude::*;
use vstd::string::StrSliceExecFns;
use vstd::string::StringExecFns;

use crate::widgets::TextAlign;
use crate::Rect;
use crate::COORD_INPUT_LIMIT;
use crate::COORD_LIMIT;

verus! {

/// A single-line text field widget.
#[derive(Debug, Clone, PartialEq, Eq)]
pub struct TextField {
    pub rect: Rect,
    pub label: String,
    pub font_size: u16,
    pub content: String,
    pub is_active: bool,
    pub clickable: bool,
    pub transparent: bool,
    pub text_align: TextAlign,
    pub password: bool,
}

impl TextField {
    pub open spec fn wf(self) -> bool {
        &&& -COORD_LIMIT <= self.rect.x <= COORD_LIMIT
        &&& -COORD_LIMIT <= self.rect.y <= COORD_LIMIT
        &&& 0 <= self.rect.w <= COORD_INPUT_LIMIT
        &&& 0 <= self.rect.h <= COORD_INPUT_LIMIT
    }

    pub fn new(x: i32, y: i32, w: i32, h: i32) -> (t: TextField)
        requires
            -COORD_INPUT_LIMIT <= x <= COORD_INPUT_LIMIT,
            -COORD_INPUT_LIMIT <= y <= COORD_INPUT_LIMIT,
            0 <= w <= COORD_INPUT_LIMIT,
            0 <= h <= COORD_INPUT_LIMIT,
        ensures
            t.wf(),
            t.rect == (Rect { x, y, w, h }),
            t.label@ == Seq::<char>::empty(),
            t.font_size == 24,
            t.content@ == Seq::<char>::empty(),
            !t.is_active,
            !t.clickable,
            !t.transparent,
            t.text_align == TextAlign::Left(5),
            !t.password,
    {
        TextField {
            rect: Rect { x, y, w, h },
            label: String::new(),
            font_size: 24,
            content: String::new(),
            is_active: false,
            clickable: false,
            transparent: false,
            text_align: TextAlign::Left(5),
            password: false,
        }
    }

    pub fn get_label(&self) -> (r: &str)
        ensures
            r@ == self.label@,
    {
        self.label.as_str()
    }

    /// Masks the rendered content; the stored content stays plaintext.
    pub fn password(self) -> (t: TextField)
        ensures
            t == (TextField { password: true, ..self }),
    {
        TextField { password: true, ..self }
    }

    pub fn label(self, s: String) -> (t: TextField)
        ensures
            t == (TextField { label: s, ..self }),
    {
        TextField { label: s, ..self }
    }

    /// Lets the field accept focus; a field built without this never does.
    pub fn clickable(self) -> (t: TextField)
        ensures
            t == (TextField { clickable: true, ..self }),
    {
        TextField { clickable: true, ..self }
    }

    pub fn font_size(self, size: u16) -> (t: TextField)
        ensures
            t == (TextField { font_size: size, ..self }),
    {
        TextField { font_size: size, ..self }
    }

    pub fn align(self, align: TextAlign) -> (t: TextField)
        ensures
            t == (TextField { text_align: align, ..self }),
    {
        TextField { text_align: align, ..self }
    }

    /// Suppresses the background fill when rendered.
    pub fn transparent(self) -> (t: TextField)
        ensures
            t == (TextField { transparent: true, ..self }),
    {
        TextField { transparent: true, ..self }
    }

    pub fn is_active(&self) -> (r: bool)
        ensures
            r == self.is_active,
    {
        self.is_active
    }

    pub fn is_password(&self) -> (r: bool)
        ensures
            r == self.password,
    {
        self.password
    }

    pub fn is_clickable(&self) -> (r: bool)
        ensures
            r == self.clickable,
    {
        self.clickable
    }

    pub fn content(self, s: &str) -> (t: TextField)
        ensures
            t == (TextField { content: t.content, ..self }),
            t.content@ == s@,
    {
        TextField { content: s.to_owned(), ..self }
    }

    /// Appends `text` to the content. Appending is never gated on focus: the
    /// controller decides which fields receive text input.
    pub fn push(&mut self, text: String)
        ensures
            *final(self) == (TextField { content: final(self).content, ..*old(self) }),
            final(self).content@ == old(self).content@ + text@,
    {
        self.content.append(text.as_str());
    }

    /// Removes and returns the last character of the content (by Unicode
    /// scalar, not byte); yields nothing on empty content.
    pub fn pop_char(&mut self) -> (r: Option<char>)
        ensures
            *final(self) == (TextField { content: final(self).content, ..*old(self) }),
            old(self).content@.len() == 0 ==> r is None && final(self).content@ == old(self).content@,
            old(self).content@.len() > 0 ==> r == Some(old(self).content@.last())
                && final(self).content@ == old(self).content@.drop_last(),
    {
        let n: usize = self.content.as_str().unicode_len();
        if n == 0 {
            None
        } else {
            let c: char = self.content.as_str().get_char(n - 1);
            let rest: String = self.content.as_str().substring_char(0, n - 1).to_owned();
            proof {
                assert(rest@ =~= self.content@.drop_last());
            }
            self.content = rest;
            Some(c)
        }
    }

    /// The field after `set_active(b)`: focusing a non-clickable field is
    /// refused (the field is unchanged); anything else just sets the flag.
    pub open spec fn spec_set_active(self, b: bool) -> TextField {
        if b && !self.clickable {
            self
        } else {
            TextField { is_active: b, ..self }
        }
    }

    /// Focuses or unfocuses the field. Focusing is refused (a no-op) when
    /// the field is not clickable; unfocusing always succeeds.
    pub fn set_active(&mut self, b: bool)
        ensures
            *final(self) == old(self).spec_set_active(b),
            final(self).is_active == if b && !old(self).clickable {
                old(self).is_active
            } else {
                b
            },
    {
        if b && !self.clickable {
            return ;
        }
        self.is_active = b;
    }

    pub fn set_content(&mut self, s: String)
        ensures
            *final(self) == (TextField { content: s, ..*old(self) }),
    {
        self.content = s;
    }

    pub fn get_content(&self) -> (r: &str)
        ensures
            r@ == self.content@,
    {
        self.content.as_str()
    }

    pub fn clear(&mut self)
        ensures
            *final(self) == (TextField { content: final(self).content, ..*old(self) }),
            final(self).content@ == Seq::<char>::empty(),
    {
        self.content = String::new();
    }

    /// The field's own rectangle: the region that accepts clicks.
    pub open spec fn spec_bounds(self) -> Rect {
        self.rect
    }

    pub fn bounds(&self) -> (r: Rect)
        ensures
            r == self.spec_bounds(),
    {
        self.rect
    }

    /// The hit-testable region: the rectangle, expanded upward to cover the
    /// label drawn above the field, when there is one.
    pub open spec fn spec_visual_bounds(self) -> Rect {
        if self.label@.len() == 0 || self.transparent {
            self.rect
        } else {
            Rect {
                x: self.rect.x,
                y: (self.rect.y - 13) as i32,
                w: self.rect.w,
                h: (self.rect.h + 13) as i32,
            }
        }
    }

    pub fn visual_bounds(&self) -> (r: Rect)
        requires
            self.wf(),
        ensures
            r == self.spec_visual_bounds(),
            r.wf(),
    {
        if self.label.as_str().is_empty() || self.transparent {
            self.rect
        } else {
            Rect {
                x: self.rect.x,
                y: self.rect.y - 13,
                w: self.rect.w,
                h: self.rect.h + 13,
            }
        }
    }

    /// Translates the field; done once, at panel construction.
    pub fn shift(&mut self, dx: i32, dy: i32)
        requires
            old(self).wf(),
            -COORD_LIMIT <= old(self).rect.x + dx <= COORD_LIMIT,
            -COORD_LIMIT <= old(self).rect.y + dy <= COORD_LIMIT,
        ensures
            final(self).wf(),
            *final(self) == (TextField {
                rect: Rect {
                    x: (old(self).rect.x + dx) as i32,
                    y: (old(self).rect.y + dy) as i32,
                    ..old(self).rect
                },
                ..*old(self)
            }),
    {
        self.rect.x = self.rect.x + dx;
        self.rect.y = self.rect.y + dy;
    }
}

} // verus!
