//! Plain data carried by the user-interface layer: widget events, button
//! content and dock alignments.  The widgets themselves, their layout
//! arithmetic and their rendering live outside the verified core.

use vstd::prelude::*;

verus! {

/// An event a widget hands back to the application, by widget identifier.
#[derive(Clone, Copy, Debug, PartialEq, Eq)]
pub struct UIEvent {
    pub id: u32,
}

/// What a button shows: a text label, or an encoded image.
#[derive(Clone, Debug, PartialEq, Eq)]
pub enum ButtonContent {
    Text(String),
    Image(Vec<u8>),
}

impl ButtonContent {
    /// A text label.
    pub fn from_text(text: &str) -> (r: ButtonContent)
        ensures
            r matches ButtonContent::Text(t) && t@ == text@,
    {
        ButtonContent::Text(text.to_owned())
    }

    /// An encoded image, kept as its bytes; decoding it for the screen is
    /// the rendering layer's business.
    pub fn from_image(data: &[u8]) -> (r: ButtonContent)
        ensures
            r matches ButtonContent::Image(d) && d@ == data@,
    {
        ButtonContent::Image(vstd::slice::slice_to_vec(data))
    }
}

/// Horizontal placement of a docked widget.
#[derive(Clone, Copy, Debug, PartialEq, Eq)]
pub enum XAlign {
    Left,
    Center,
    Right,
}

/// Vertical placement of a docked widget.
#[derive(Clone, Copy, Debug, PartialEq, Eq)]
pub enum YAlign {
    Top,
    Center,
    Bottom,
}

} // verus!
