//! Drawing model: text styling data and the abstract draw-command sink.
//!
//! The core emits ordered draw primitives; a rendering shell consumes
//! them. Parents draw before their children, so later commands paint
//! over earlier ones.

use vstd::prelude::*;

use crate::geom::Rect;
use crate::layout::Align;

verus! {

/// Font identifier.
///
/// A default font may be obtained with `FontId(0)`, which refers to the
/// first font loaded by the theme. Otherwise this is an opaque handle.
#[derive(Copy, Clone, Debug, PartialEq, Eq, Hash, Structural)]
pub struct FontId(pub usize);

/// Class of text drawn.
#[derive(Copy, Clone, Debug, PartialEq, Eq, Hash, Structural)]
pub enum TextClass {
    /// Label text is drawn over the background colour
    Label,
    /// Button text is drawn over a button
    Button,
    /// Text drawn in a single-line edit box
    Edit,
    /// Text drawn in a multi-line edit box
    EditMulti,
}

impl Default for TextClass {
    /// The default class: label text.
    fn default() -> (r: TextClass)
        ensures
            r == TextClass::Label,
    {
        TextClass::Label
    }
}

/// Text alignment, class and font.
#[derive(Copy, Clone, Debug, PartialEq, Eq, Structural)]
pub struct TextProperties {
    /// Font
    pub font: FontId,
    /// Class of text
    pub class: TextClass,
    /// Horizontal alignment
    pub horiz: Align,
    /// Vertical alignment
    pub vert: Align,
}

impl TextProperties {
    /// Default properties: default font, label class, start-aligned.
    pub fn label_default() -> (r: TextProperties)
        ensures
            r == (TextProperties {
                font: FontId(0),
                class: TextClass::Label,
                horiz: Align::Begin,
                vert: Align::Begin,
            }),
    {
        TextProperties {
            font: FontId(0),
            class: TextClass::Label,
            horiz: Align::Begin,
            vert: Align::Begin,
        }
    }
}

/// One draw primitive, tagged with the region it fills.
#[derive(Clone, Debug, PartialEq, Eq)]
pub enum DrawCmd {
    /// A filled quad
    Quad(Rect),
    /// A frame: the border between an outer and an inner rectangle
    Frame(Rect),
    /// Text within a rectangle
    Text(Rect, String, TextClass),
}

} // verus!
