//! Colours of three 8-bit channels, their packed 24-bit form and the
//! saturating sum and difference.

use vstd::prelude::*;
use crate::scalar::{Scalar, ONE_KEY};
use crate::scaling::{lemma_scaled_by_one, scale_channel, scaled_channel};

verus! {

/// A colour with red, green and blue channels of eight bits each.
#[derive(Clone, Copy, Debug, PartialEq, Eq, Structural)]
pub struct Color {
    pub r: u8,
    pub g: u8,
    pub b: u8,
}

/// A channel sum that stops at 255.
pub open spec fn saturating_sum(a: u8, b: u8) -> u8 {
    if a + b > 255 {
        255u8
    } else {
        (a + b) as u8
    }
}

/// A channel difference that stops at 0.
pub open spec fn saturating_difference(a: u8, b: u8) -> u8 {
    if a < b {
        0u8
    } else {
        (a - b) as u8
    }
}

impl Color {
    /// The colour as one number, `0xRRGGBB`.
    pub open spec fn packed(self) -> int {
        self.r * 65536 + self.g * 256 + self.b
    }

    /// The colour whose packed form is the low 24 bits of `hex`.
    pub open spec fn unpacked(hex: int) -> Color {
        Color {
            r: ((hex / 65536) % 256) as u8,
            g: ((hex / 256) % 256) as u8,
            b: (hex % 256) as u8,
        }
    }

    /// The channel-wise sum, each channel stopping at 255.
    pub open spec fn plus(self, other: Color) -> Color {
        Color {
            r: saturating_sum(self.r, other.r),
            g: saturating_sum(self.g, other.g),
            b: saturating_sum(self.b, other.b),
        }
    }

    /// The channel-wise difference, each channel stopping at 0.
    pub open spec fn minus(self, other: Color) -> Color {
        Color {
            r: saturating_difference(self.r, other.r),
            g: saturating_difference(self.g, other.g),
            b: saturating_difference(self.b, other.b),
        }
    }

    /// Each channel times the number of the given key, as single-precision
    /// arithmetic gives it to a byte.
    pub open spec fn scaled(self, key: int) -> Color {
        Color {
            r: scaled_channel(self.r, key) as u8,
            g: scaled_channel(self.g, key) as u8,
            b: scaled_channel(self.b, key) as u8,
        }
    }

    pub fn new(r: u8, g: u8, b: u8) -> (c: Color)
        ensures
            c == (Color { r, g, b }),
    {
        Color { r, g, b }
    }

    pub fn black() -> (c: Color)
        ensures
            c == (Color { r: 0, g: 0, b: 0 }),
    {
        Color { r: 0, g: 0, b: 0 }
    }

    pub fn white() -> (c: Color)
        ensures
            c == (Color { r: 255, g: 255, b: 255 }),
    {
        Color { r: 255, g: 255, b: 255 }
    }

    pub fn red() -> (c: Color)
        ensures
            c == (Color { r: 255, g: 0, b: 0 }),
    {
        Color { r: 255, g: 0, b: 0 }
    }

    pub fn green() -> (c: Color)
        ensures
            c == (Color { r: 0, g: 255, b: 0 }),
    {
        Color { r: 0, g: 255, b: 0 }
    }

    pub fn blue() -> (c: Color)
        ensures
            c == (Color { r: 0, g: 0, b: 255 }),
    {
        Color { r: 0, g: 0, b: 255 }
    }

    /// A grey of the given level on all three channels.
    pub fn grey(level: u8) -> (c: Color)
        ensures
            c == (Color { r: level, g: level, b: level }),
    {
        Color { r: level, g: level, b: level }
    }

    pub fn is_black(&self) -> (b: bool)
        ensures
            b == (*self == (Color { r: 0, g: 0, b: 0 })),
    {
        self.r == 0 && self.g == 0 && self.b == 0
    }

    pub fn is_white(&self) -> (b: bool)
        ensures
            b == (*self == (Color { r: 255, g: 255, b: 255 })),
    {
        self.r == 255 && self.g == 255 && self.b == 255
    }

    /// Reads a colour from `0xRRGGBB`; bits above the 24th are ignored.
    pub fn from_hex(hex: u32) -> (c: Color)
        ensures
            c == Color::unpacked(hex as int),
    {
        Color {
            r: ((hex / 65536) % 256) as u8,
            g: ((hex / 256) % 256) as u8,
            b: (hex % 256) as u8,
        }
    }

    /// Packs the colour as `0xRRGGBB`.
    pub fn to_hex(&self) -> (hex: u32)
        ensures
            hex == self.packed(),
            hex <= 0xff_ffff,
    {
        (self.r as u32) * 65536 + (self.g as u32) * 256 + (self.b as u32)
    }

    /// Adds channel by channel; a channel that would pass 255 stays at 255.
    pub fn saturating_add(&self, other: &Color) -> (c: Color)
        ensures
            c == self.plus(*other),
    {
        Color {
            r: channel_sum(self.r, other.r),
            g: channel_sum(self.g, other.g),
            b: channel_sum(self.b, other.b),
        }
    }

    /// Subtracts channel by channel; a channel that would pass 0 stays at 0.
    pub fn saturating_sub(&self, other: &Color) -> (c: Color)
        ensures
            c == self.minus(*other),
    {
        Color {
            r: channel_difference(self.r, other.r),
            g: channel_difference(self.g, other.g),
            b: channel_difference(self.b, other.b),
        }
    }

    /// Multiplies each channel by `factor`, cutting the product off at the
    /// whole number below it and at the ends of a channel.
    pub fn scale(&self, factor: Scalar) -> (c: Color)
        ensures
            c == self.scaled(factor@),
    {
        let key = factor.key();
        Color {
            r: scale_channel(self.r, key),
            g: scale_channel(self.g, key),
            b: scale_channel(self.b, key),
        }
    }

    /// Scaling by one leaves a colour as it is.
    pub proof fn lemma_scaled_by_one(c: Color)
        ensures
            c.scaled(ONE_KEY as int) == c,
    {
        lemma_scaled_by_one(c.r);
        lemma_scaled_by_one(c.g);
        lemma_scaled_by_one(c.b);
    }

    /// Unpacking a packed colour gives the colour back.
    pub proof fn lemma_unpack_packed(c: Color)
        ensures
            Color::unpacked(c.packed()) == c,
    {
    }

    /// Packing an unpacked number gives its low 24 bits back.
    pub proof fn lemma_pack_unpacked(hex: int)
        requires
            0 <= hex,
        ensures
            Color::unpacked(hex).packed() == hex % 0x100_0000,
    {
    }
}

fn channel_sum(a: u8, b: u8) -> (c: u8)
    ensures
        c == saturating_sum(a, b),
{
    if a > 255 - b {
        255
    } else {
        a + b
    }
}

fn channel_difference(a: u8, b: u8) -> (c: u8)
    ensures
        c == saturating_difference(a, b),
{
    if a < b {
        0
    } else {
        a - b
    }
}

impl From<u32> for Color {
    /// Reads a colour from `0xRRGGBB`.
    fn from(hex: u32) -> (c: Color) {
        Color::from_hex(hex)
    }
}

impl vstd::std_specs::convert::FromSpecImpl<u32> for Color {
    open spec fn obeys_from_spec() -> bool {
        true
    }

    open spec fn from_spec(hex: u32) -> Color {
        Color::unpacked(hex as int)
    }
}

impl From<Color> for u32 {
    /// Packs a colour as `0xRRGGBB`.
    fn from(color: Color) -> (hex: u32) {
        color.to_hex()
    }
}

impl vstd::std_specs::convert::FromSpecImpl<Color> for u32 {
    open spec fn obeys_from_spec() -> bool {
        true
    }

    open spec fn from_spec(color: Color) -> u32 {
        color.packed() as u32
    }
}

impl Default for Color {
    /// Black.
    fn default() -> (c: Color)
        ensures
            c == (Color { r: 0, g: 0, b: 0 }),
    {
        Color { r: 0, g: 0, b: 0 }
    }
}

} // verus!
