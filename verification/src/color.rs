//! Colors as four 8-bit channels.  The renderer outside this crate is free to
//! normalise them to whatever scale its drawing API expects.

use vstd::prelude::*;

verus! {

/// An RGBA color with one byte per channel.
#[derive(Clone, Copy, Debug, PartialEq, Eq, Structural)]
pub struct Color {
    pub r: u8,
    pub g: u8,
    pub b: u8,
    pub a: u8,
}

impl Color {
    /// Builds a color from its four channels.
    pub fn new(r: u8, g: u8, b: u8, a: u8) -> (c: Color)
        ensures
            c == (Color { r, g, b, a }),
    {
        Color { r, g, b, a }
    }
}

/// Opaque white.
pub fn white() -> (c: Color)
    ensures
        c == (Color { r: 255u8, g: 255u8, b: 255u8, a: 255u8 }),
{
    Color { r: 255, g: 255, b: 255, a: 255 }
}

/// Opaque black.
pub fn black() -> (c: Color)
    ensures
        c == (Color { r: 0u8, g: 0u8, b: 0u8, a: 255u8 }),
{
    Color { r: 0, g: 0, b: 0, a: 255 }
}

/// Opaque red.
pub fn red() -> (c: Color)
    ensures
        c == (Color { r: 255u8, g: 0u8, b: 0u8, a: 255u8 }),
{
    Color { r: 255, g: 0, b: 0, a: 255 }
}

/// Opaque green.
pub fn green() -> (c: Color)
    ensures
        c == (Color { r: 0u8, g: 255u8, b: 0u8, a: 255u8 }),
{
    Color { r: 0, g: 255, b: 0, a: 255 }
}

/// Opaque blue.
pub fn blue() -> (c: Color)
    ensures
        c == (Color { r: 0u8, g: 0u8, b: 255u8, a: 255u8 }),
{
    Color { r: 0, g: 0, b: 255, a: 255 }
}

/// Opaque magenta.
pub fn magenta() -> (c: Color)
    ensures
        c == (Color { r: 255u8, g: 0u8, b: 255u8, a: 255u8 }),
{
    Color { r: 255, g: 0, b: 255, a: 255 }
}

/// Opaque yellow.
pub fn yellow() -> (c: Color)
    ensures
        c == (Color { r: 255u8, g: 255u8, b: 0u8, a: 255u8 }),
{
    Color { r: 255, g: 255, b: 0, a: 255 }
}

/// Opaque cyan.
pub fn cyan() -> (c: Color)
    ensures
        c == (Color { r: 0u8, g: 255u8, b: 255u8, a: 255u8 }),
{
    Color { r: 0, g: 255, b: 255, a: 255 }
}

} // verus!
