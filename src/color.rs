//! RGBA colours with 8-bit channels.
use vstd::prelude::*;

verus! {

/// A colour: red, green, blue and alpha channels.
#[derive(Clone, Copy, PartialEq, Eq, Structural, Debug, Hash)]
pub struct Color {
    pub r: u8,
    pub g: u8,
    pub b: u8,
    pub a: u8,
}

/// One channel of a product of colours: `x * y / 255`, rounded down.
pub open spec fn channel_product(x: u8, y: u8) -> u8 {
    ((x as int * y as int) / 255) as u8
}

impl Color {
    /// An opaque colour (alpha 255).
    pub fn rgb(r: u8, g: u8, b: u8) -> (c: Color)
        ensures
            c == (Color { r, g, b, a: 255 }),
    {
        Color { r, g, b, a: 255 }
    }

    /// A colour with the given alpha.
    pub fn rgba(r: u8, g: u8, b: u8, a: u8) -> (c: Color)
        ensures
            c == (Color { r, g, b, a }),
    {
        Color { r, g, b, a }
    }

    /// An opaque grey with all three colour channels equal to `value`.
    pub fn grayscale(value: u8) -> (c: Color)
        ensures
            c == (Color { r: value, g: value, b: value, a: 255 }),
    {
        Color::rgb(value, value, value)
    }

    /// Opaque white.
    pub fn white() -> (c: Color)
        ensures
            c == (Color { r: 255, g: 255, b: 255, a: 255 }),
    {
        Color { r: 255, g: 255, b: 255, a: 255 }
    }

    /// Opaque black.
    pub fn black() -> (c: Color)
        ensures
            c == (Color { r: 0, g: 0, b: 0, a: 255 }),
    {
        Color { r: 0, g: 0, b: 0, a: 255 }
    }

    /// The channel-wise product, each channel `x * y / 255` rounded down.
    pub fn multiply(self, other: Color) -> (c: Color)
        ensures
            c.r == channel_product(self.r, other.r),
            c.g == channel_product(self.g, other.g),
            c.b == channel_product(self.b, other.b),
            c.a == channel_product(self.a, other.a),
    {
        proof {
            assert(0 <= self.r as int * other.r as int <= 255 * 255) by (nonlinear_arith)
                requires 0 <= self.r <= 255, 0 <= other.r <= 255;
            assert(0 <= self.g as int * other.g as int <= 255 * 255) by (nonlinear_arith)
                requires 0 <= self.g <= 255, 0 <= other.g <= 255;
            assert(0 <= self.b as int * other.b as int <= 255 * 255) by (nonlinear_arith)
                requires 0 <= self.b <= 255, 0 <= other.b <= 255;
            assert(0 <= self.a as int * other.a as int <= 255 * 255) by (nonlinear_arith)
                requires 0 <= self.a <= 255, 0 <= other.a <= 255;
        }
        Color::rgba(
            ((self.r as u16 * other.r as u16) / 255) as u8,
            ((self.g as u16 * other.g as u16) / 255) as u8,
            ((self.b as u16 * other.b as u16) / 255) as u8,
            ((self.a as u16 * other.a as u16) / 255) as u8,
        )
    }
}

} // verus!
