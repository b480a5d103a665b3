//! The rectangle element descriptor.

use vstd::prelude::*;

use crate::colors::Color;

verus! {

/// Specification of a rectangular shape: placement offset, size, and fill
/// color. Builder methods take the descriptor by value and return the updated
/// value, so chained configuration never aliases.
#[derive(Clone, Copy, PartialEq, Eq, Structural, Debug)]
pub struct Rect {
    pub x: u32,
    pub y: u32,
    pub width: u32,
    pub height: u32,
    pub color: Color,
}

impl Rect {
    /// A 10 x 10 rectangle at the origin, filled with the palette's green.
    pub fn new() -> (r: Rect)
        ensures
            r == (Rect {
                x: 0,
                y: 0,
                width: 10,
                height: 10,
                color: Color { r: 0, g: 176, b: 80, a: 255 },
            }),
    {
        Rect { x: 0, y: 0, width: 10, height: 10, color: Color { r: 0, g: 176, b: 80, a: 255 } }
    }

    /// The same rectangle, placed at offset `(x, y)` of the canvas.
    pub fn position(self, x: u32, y: u32) -> (r: Rect)
        ensures
            r == (Rect { x, y, ..self }),
    {
        Rect { x, y, ..self }
    }

    /// The same rectangle, `width` pixels wide and `height` pixels tall.
    pub fn size(self, width: u32, height: u32) -> (r: Rect)
        ensures
            r == (Rect { width, height, ..self }),
    {
        Rect { width, height, ..self }
    }

    /// The same rectangle, filled with `color`.
    pub fn color(self, color: Color) -> (r: Rect)
        ensures
            r == (Rect { color, ..self }),
    {
        Rect { color, ..self }
    }
}

/// The render-time parameters of a rectangle element.
#[derive(Clone, Copy, PartialEq, Eq, Structural, Debug)]
pub struct RectValues {
    pub x: u32,
    pub y: u32,
    pub width: u32,
    pub height: u32,
    pub color: Color,
}

/// Reads the concrete drawing parameters out of a rectangle descriptor.
pub fn extract(rect: &Rect) -> (v: RectValues)
    ensures
        v == (RectValues {
            x: rect.x,
            y: rect.y,
            width: rect.width,
            height: rect.height,
            color: rect.color,
        }),
{
    RectValues { x: rect.x, y: rect.y, width: rect.width, height: rect.height, color: rect.color }
}

} // verus!
