//! Widget variants and the small value types shared by all of them.

use vstd::prelude::*;

mod button;
mod dropdownbutton;
mod fader;
mod textfield;

pub use button::Button;
pub use button::ButtonBuilder;
pub use dropdownbutton::DropdownButton;
pub use fader::Fader;
pub use fader::Rational;
pub use textfield::TextField;

verus! {

/// The four widget kinds a panel can own.
#[derive(Debug, Clone, Copy, PartialEq, Eq, Structural)]
pub enum WidgetType {
    Button,
    TextField,
    Fader,
    DropdownButton,
}

/// Axis of a fader's travel.
#[derive(Debug, Clone, Copy, PartialEq, Eq, Structural)]
pub enum Orientation {
    Horizontal,
    Vertical,
}

/// Horizontal placement of a text field's content; the payload of `Left`
/// and `Right` is the padding in pixels.
#[derive(Debug, Clone, Copy, PartialEq, Eq, Structural)]
pub enum TextAlign {
    Left(i32),
    Right(i32),
    Center,
}

/// An opaque 24-bit colour handed through to the rendering collaborator.
#[derive(Debug, Clone, Copy, PartialEq, Eq, Structural)]
pub struct Color {
    pub r: u8,
    pub g: u8,
    pub b: u8,
}

impl Color {
    pub fn rgb(r: u8, g: u8, b: u8) -> (c: Color)
        ensures
            c == (Color { r, g, b }),
    {
        Color { r, g, b }
    }
}

/// Identity of one widget: the index of its panel in the controller's
/// registration order, its kind, and its index within that kind.
#[derive(Debug, Clone, Copy, PartialEq, Eq, Structural)]
pub struct WidgetData {
    pub panel: usize,
    pub kind: WidgetType,
    pub idx: usize,
}

} // verus!
