//! RGB color values and their packed display encodings.

use vstd::prelude::*;

verus! {

/// 8-bit-per-channel RGB color.
#[derive(Debug, Clone, Copy, Default, PartialEq, Eq, Structural)]
pub struct Color {
    pub r: u8,
    pub g: u8,
    pub b: u8,
}

/// The 16-bit RGB565 encoding: the top 5, 6 and 5 bits of the channels,
/// packed red-high.
pub open spec fn spec_rgb565(r: u8, g: u8, b: u8) -> u16 {
    (((r as u16 >> 3) & 0x1F) << 11) | (((g as u16 >> 2) & 0x3F) << 5) | ((b as u16 >> 3) & 0x1F)
}

/// The 24-bit RGB888 encoding in a 32-bit word, red-high.
pub open spec fn spec_rgb888(r: u8, g: u8, b: u8) -> u32 {
    ((r as u32) << 16) | ((g as u32) << 8) | (b as u32)
}

impl Color {
    pub fn new(r: u8, g: u8, b: u8) -> (c: Self)
        ensures
            c == (Color { r, g, b }),
    {
        Color { r, g, b }
    }

    /// Convert to RGB565 format (16-bit).
    pub fn to_rgb565(&self) -> (p: u16)
        ensures
            p == spec_rgb565(self.r, self.g, self.b),
    {
        let r = (self.r as u16 >> 3) & 0x1F;
        let g = (self.g as u16 >> 2) & 0x3F;
        let b = (self.b as u16 >> 3) & 0x1F;
        (r << 11) | (g << 5) | b
    }

    /// Convert to RGB888 format (32-bit with padding).
    pub fn to_rgb888(&self) -> (p: u32)
        ensures
            p == spec_rgb888(self.r, self.g, self.b),
    {
        ((self.r as u32) << 16) | ((self.g as u32) << 8) | (self.b as u32)
    }
}

} // verus!
