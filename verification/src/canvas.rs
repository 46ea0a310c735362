//! Rows of pixels.

use vstd::prelude::*;

verus! {

/// One pixel of a row: where it stands and what colour it has.
#[derive(Clone, Copy, Debug, PartialEq, Eq)]
pub struct Pixel {
    /// The pixel's position along the row.
    pub x: usize,
    /// Red.
    pub r: u8,
    /// Green.
    pub g: u8,
    /// Blue.
    pub b: u8,
}

/// A row of a canvas.
#[derive(Clone, Debug, PartialEq, Eq)]
pub struct Line {
    /// The width of the row, by which positions are scaled.
    pub len: usize,
    /// The pixels to paint.
    pub data: Vec<Pixel>,
}

/// `pixel` painted grey at `level`; it stays where it is.
pub open spec fn grey(pixel: Pixel, level: u8) -> Pixel {
    Pixel { x: pixel.x, r: level, g: level, b: level }
}

} // verus!
