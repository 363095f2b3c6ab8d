//! RGBA colors quantized to eight bits per channel, and their packed key.
use vstd::prelude::*;

verus! {

/// A color with eight bits per channel.
#[derive(Clone, Copy, Debug, PartialEq, Eq, Structural)]
pub struct Color {
    pub r: u8,
    pub g: u8,
    pub b: u8,
    pub a: u8,
}

/// The packed `0xRRGGBBAA` form of a color.
pub open spec fn color_key(c: Color) -> u32 {
    (c.r as int * 0x100_0000 + c.g as int * 0x1_0000 + c.b as int * 0x100 + c.a as int) as u32
}

/// Two colors share a key exactly when they are the same color.
pub proof fn lemma_color_key_injective(c: Color, d: Color)
    ensures
        color_key(c) == color_key(d) <==> c == d,
{
}

impl Color {
    pub fn rgba(r: u8, g: u8, b: u8, a: u8) -> (c: Color)
        ensures
            c == (Color { r, g, b, a }),
    {
        Color { r, g, b, a }
    }

    /// An opaque color.
    pub fn rgb(r: u8, g: u8, b: u8) -> (c: Color)
        ensures
            c == (Color { r, g, b, a: 255 }),
    {
        Color { r, g, b, a: 255 }
    }

    pub fn red() -> (c: Color)
        ensures
            c == (Color { r: 255, g: 0, b: 0, a: 255 }),
    {
        Color::rgb(255, 0, 0)
    }

    pub fn white() -> (c: Color)
        ensures
            c == (Color { r: 255, g: 255, b: 255, a: 255 }),
    {
        Color::rgb(255, 255, 255)
    }

    /// The packed key under which materials of this color are cached.
    pub fn key(&self) -> (k: u32)
        ensures
            k == color_key(*self),
    {
        self.r as u32 * 0x100_0000 + self.g as u32 * 0x1_0000 + self.b as u32 * 0x100 + self.a as u32
    }
}

} // verus!
