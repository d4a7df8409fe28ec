use vstd::prelude::*;

verus! {

/// The value of four bytes read as a big-endian 32-bit word, `b3` first.
pub open spec fn pack_bytes(b3: u8, b2: u8, b1: u8, b0: u8) -> int {
    b3 as int * 0x100_0000 + b2 as int * 0x1_0000 + b1 as int * 0x100 + b0 as int
}

/// An opaque colour with 8 bits per channel, as it is stored in a pixel
/// buffer and written to an image file.
#[derive(Clone, Copy, Debug, PartialEq, Eq, Structural)]
pub struct Pixel {
    pub r: u8,
    pub g: u8,
    pub b: u8,
}

impl Pixel {
    /// A pixel from its three channel values.
    pub fn new(r: u8, g: u8, b: u8) -> (p: Pixel)
        ensures
            p.r == r,
            p.g == g,
            p.b == b,
    {
        Pixel { r, g, b }
    }

    /// Black, every channel at 0.
    pub fn black() -> (p: Pixel)
        ensures
            p.r == 0 && p.g == 0 && p.b == 0,
    {
        Pixel { r: 0, g: 0, b: 0 }
    }

    /// White, every channel at 255.
    pub fn white() -> (p: Pixel)
        ensures
            p.r == 255 && p.g == 255 && p.b == 255,
    {
        Pixel { r: 255, g: 255, b: 255 }
    }

    /// The pixel as a 32-bit word `0xRRGGBBAA`, fully opaque.
    pub fn to_rgba(&self) -> (v: u32)
        ensures
            v as int == pack_bytes(self.r, self.g, self.b, 0xFF),
    {
        (self.r as u32) * 0x100_0000 + (self.g as u32) * 0x1_0000 + (self.b as u32) * 0x100 + 0xFF
    }

    /// The pixel as a 32-bit word `0xAARRGGBB`, fully opaque.
    pub fn to_argb(&self) -> (v: u32)
        ensures
            v as int == pack_bytes(0xFF, self.r, self.g, self.b),
    {
        0xFF00_0000 + (self.r as u32) * 0x1_0000 + (self.g as u32) * 0x100 + (self.b as u32)
    }
}
} // verus!
