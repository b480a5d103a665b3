//! The text element descriptor.

use vstd::prelude::*;

use crate::colors::Color;

verus! {

/// Content and formatting of a text element: the string, its point size,
/// placement offset, font name, and fill color. Builder methods take the
/// descriptor by value and return the updated value.
#[derive(Debug)]
pub struct Text {
    pub content: String,
    pub size: u32,
    pub x: u32,
    pub y: u32,
    pub font_name: String,
    pub color: Color,
}

impl Text {
    /// A black text element with the given content, point size 14, placed at
    /// the origin, typeset in the font registered under the name "default".
    pub fn new(content: &str) -> (t: Text)
        ensures
            t.content@ == content@,
            t.size == 14,
            t.x == 0,
            t.y == 0,
            t.font_name@ == "default"@,
            t.color == (Color { r: 0, g: 0, b: 0, a: 255 }),
    {
        Text {
            content: content.to_owned(),
            size: 14,
            x: 0,
            y: 0,
            font_name: "default".to_owned(),
            color: Color { r: 0, g: 0, b: 0, a: 255 },
        }
    }

    /// The same text, at the given point size.
    pub fn size(self, size: u32) -> (t: Text)
        ensures
            t == (Text { size, ..self }),
    {
        Text { size, ..self }
    }

    /// The same text, placed at offset `(x, y)` of the canvas.
    pub fn position(self, x: u32, y: u32) -> (t: Text)
        ensures
            t == (Text { x, y, ..self }),
    {
        Text { x, y, ..self }
    }

    /// The same text, typeset in the font registered under `font_name`. The
    /// font must be registered on the canvas before rendering; an
    /// unregistered name is reported as an error at render time.
    pub fn font(self, font_name: &str) -> (t: Text)
        ensures
            t.content == self.content,
            t.size == self.size,
            t.x == self.x,
            t.y == self.y,
            t.font_name@ == font_name@,
            t.color == self.color,
    {
        Text { font_name: font_name.to_owned(), ..self }
    }

    /// The same text, filled with `color`.
    pub fn color(self, color: Color) -> (t: Text)
        ensures
            t == (Text { color, ..self }),
    {
        Text { color, ..self }
    }
}

/// The render-time parameters of a text element.
#[derive(Debug)]
pub struct TextValues {
    pub color: Color,
    pub x: u32,
    pub y: u32,
    pub font_name: String,
    pub size: u32,
    pub content: String,
}

/// Reads the concrete drawing parameters out of a text descriptor.
pub fn extract(text: Text) -> (v: TextValues)
    ensures
        v.color == text.color,
        v.x == text.x,
        v.y == text.y,
        v.font_name == text.font_name,
        v.size == text.size,
        v.content == text.content,
{
    TextValues {
        color: text.color,
        x: text.x,
        y: text.y,
        font_name: text.font_name,
        size: text.size,
        content: text.content,
    }
}

} // verus!
