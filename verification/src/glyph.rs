//! Glyph metrics.
//!
//! A [`Character`] holds the already-resolved metrics of one rasterized
//! glyph: its bearing (`left`, `top`), bitmap size, horizontal advance in
//! 1/64 pixel units, and the opaque handle of the texture the rasterizer
//! uploaded it to.  The text renderer outside this crate computes pen
//! positions from these plain values.

use vstd::prelude::*;

verus! {

/// Metrics and texture handle of one rasterized glyph.
#[derive(Clone, Copy, Debug)]
pub struct Character {
    pub left: i32,
    pub top: i32,
    pub width: i32,
    pub height: i32,
    pub advance: i32,
    pub texture: u32,
}

impl Character {
    /// Packs the metrics a rasterizer reported for one glyph.
    pub fn new(left: i32, top: i32, width: i32, height: i32, advance: i32, texture: u32) -> (c:
        Character)
        ensures
            c == (Character { left, top, width, height, advance, texture }),
    {
        Character { left, top, width, height, advance, texture }
    }

    /// Width of the glyph bitmap in pixels.
    pub fn width(&self) -> (r: i32)
        ensures
            r == self.width,
    {
        self.width
    }

    /// Height of the glyph bitmap in pixels.
    pub fn height(&self) -> (r: i32)
        ensures
            r == self.height,
    {
        self.height
    }

    /// Horizontal advance to the next pen position, in 1/64 pixel units.
    pub fn advance(&self) -> (r: i32)
        ensures
            r == self.advance,
    {
        self.advance
    }

    /// Vertical bearing: distance from the baseline to the bitmap's top.
    pub fn top(&self) -> (r: i32)
        ensures
            r == self.top,
    {
        self.top
    }

    /// Horizontal bearing: distance from the pen to the bitmap's left edge.
    pub fn left(&self) -> (r: i32)
        ensures
            r == self.left,
    {
        self.left
    }

    /// The opaque handle of the texture holding the glyph bitmap.
    pub fn texture(&self) -> (r: u32)
        ensures
            r == self.texture,
    {
        self.texture
    }
}

} // verus!
