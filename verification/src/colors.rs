//! Color values and the fixed palette of built-in color names.

use vstd::prelude::*;

verus! {

/// An 8-bit RGBA color. Any value of each channel is valid; no normalization
/// is applied anywhere in the library.
#[derive(Clone, Copy, PartialEq, Eq, Structural, Debug)]
pub struct Color {
    pub r: u8,
    pub g: u8,
    pub b: u8,
    pub a: u8,
}

/// The fixed, case-sensitive palette: which color each built-in name stands
/// for, and `None` for every name outside the built-in set.
pub open spec fn palette_spec(name: Seq<char>) -> Option<Color> {
    if name == "yellow"@ {
        Some(Color { r: 255, g: 255, b: 0, a: 255 })
    } else if name == "green"@ {
        Some(Color { r: 0, g: 176, b: 80, a: 255 })
    } else if name == "gray"@ {
        Some(Color { r: 191, g: 191, b: 191, a: 255 })
    } else if name == "red"@ {
        Some(Color { r: 255, g: 0, b: 0, a: 255 })
    } else if name == "blue"@ {
        Some(Color { r: 0, g: 112, b: 192, a: 255 })
    } else if name == "orange"@ {
        Some(Color { r: 255, g: 153, b: 0, a: 255 })
    } else if name == "purple"@ {
        Some(Color { r: 112, g: 48, b: 160, a: 255 })
    } else if name == "white"@ {
        Some(Color { r: 255, g: 255, b: 255, a: 255 })
    } else if name == "black"@ {
        Some(Color { r: 0, g: 0, b: 0, a: 255 })
    } else {
        None
    }
}

/// Exact string equality, stated over the views of the two strings.
pub(crate) fn str_eq(a: &str, b: &str) -> (r: bool)
    ensures
        r == (a@ == b@),
{
    let x: String = a.to_owned();
    let y: String = b.to_owned();
    x == y
}

/// Looks a color name up in the fixed built-in palette.
///
/// The lookup is exact-match and case-sensitive; a name outside the built-in
/// set deterministically yields `None`, never a substitute color.
pub fn lookup(name: &str) -> (r: Option<Color>)
    ensures
        r == palette_spec(name@),
{
    if str_eq(name, "yellow") {
        Some(Color { r: 255, g: 255, b: 0, a: 255 })
    } else if str_eq(name, "green") {
        Some(Color { r: 0, g: 176, b: 80, a: 255 })
    } else if str_eq(name, "gray") {
        Some(Color { r: 191, g: 191, b: 191, a: 255 })
    } else if str_eq(name, "red") {
        Some(Color { r: 255, g: 0, b: 0, a: 255 })
    } else if str_eq(name, "blue") {
        Some(Color { r: 0, g: 112, b: 192, a: 255 })
    } else if str_eq(name, "orange") {
        Some(Color { r: 255, g: 153, b: 0, a: 255 })
    } else if str_eq(name, "purple") {
        Some(Color { r: 112, g: 48, b: 160, a: 255 })
    } else if str_eq(name, "white") {
        Some(Color { r: 255, g: 255, b: 255, a: 255 })
    } else if str_eq(name, "black") {
        Some(Color { r: 0, g: 0, b: 0, a: 255 })
    } else {
        None
    }
}

} // verus!
