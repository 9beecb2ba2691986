//! Red, green and blue colours and their packed word.
use vstd::prelude::*;

verus! {

/// A colour by its red, green and blue parts.
#[derive(Copy, Clone, PartialEq, Eq, Structural, Debug)]
pub struct Color {
    pub r: u8,
    pub g: u8,
    pub b: u8,
}

/// The colour with parts `r`, `g` and `b`.
pub fn rgb(r: u8, g: u8, b: u8) -> (c: Color)
    ensures
        c == (Color { r: r, g: g, b: b }),
{
    Color { r: r, g: g, b: b }
}

/// The word `0xRRGGBB` of a colour.
pub open spec fn hex_word(c: Color) -> int {
    (c.r as int) * 65536 + (c.g as int) * 256 + (c.b as int)
}

impl Color {
    /// The colour packed as `0xRRGGBB`.
    pub fn as_hex(&self) -> (hex: u32)
        ensures
            hex == hex_word(*self),
    {
        let (r, g, b) = (self.r as u32, self.g as u32, self.b as u32);
        assert((r << 16) | (g << 8) | b == r * 65536 + g * 256 + b) by (bit_vector)
            requires
                r < 256,
                g < 256,
                b < 256,
        ;
        (r << 16) | (g << 8) | b
    }

    /// White, the colour with every part full.
    pub fn blank() -> (c: Self)
        ensures
            c == (Color { r: 255, g: 255, b: 255 }),
    {
        Color { r: 255, g: 255, b: 255 }
    }
}

/// Distinct colours have distinct words, and the parts can be read back
/// from the word.
pub proof fn lemma_hex_word_parts(c: Color)
    ensures
        hex_word(c) / 65536 == c.r,
        (hex_word(c) / 256) % 256 == c.g,
        hex_word(c) % 256 == c.b,
        0 <= hex_word(c) < 0x100_0000,
{
}

} // verus!
