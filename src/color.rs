use vstd::prelude::*;

verus! {

/// An 8-bit-per-channel RGB color.
#[derive(Clone, Copy, Debug, PartialEq, Eq, Structural)]
pub struct Color {
    pub r: u8,
    pub g: u8,
    pub b: u8,
}

/// The `0xRRGGBB` word that packs a color.
pub open spec fn hex_of(c: Color) -> u32 {
    (c.r as int * 65536 + c.g as int * 256 + c.b as int) as u32
}

/// The color that the low 24 bits of a word pack; higher bits are ignored.
pub open spec fn color_of_hex(h: u32) -> Color {
    Color { r: ((h / 65536) % 256) as u8, g: ((h / 256) % 256) as u8, b: (h % 256) as u8 }
}

/// Floor of the mean of four channel values.
pub open spec fn avg4(a: u8, b: u8, c: u8, d: u8) -> u8 {
    ((a as int + b as int + c as int + d as int) / 4) as u8
}

/// Channel-wise floor of the mean of four colors.
pub open spec fn average4_spec(c0: Color, c1: Color, c2: Color, c3: Color) -> Color {
    Color {
        r: avg4(c0.r, c1.r, c2.r, c3.r),
        g: avg4(c0.g, c1.g, c2.g, c3.g),
        b: avg4(c0.b, c1.b, c2.b, c3.b),
    }
}

impl Color {
    pub fn new(r: u8, g: u8, b: u8) -> (c: Color)
        ensures
            c == (Color { r, g, b }),
    {
        Color { r, g, b }
    }

    pub fn black() -> (c: Color)
        ensures
            c == (Color { r: 0, g: 0, b: 0 }),
    {
        Color { r: 0, g: 0, b: 0 }
    }

    /// Packs the color as `0xRRGGBB`.
    pub fn to_hex(&self) -> (h: u32)
        ensures
            h == hex_of(*self),
            h < 0x1000000,
    {
        (self.r as u32) * 65536 + (self.g as u32) * 256 + (self.b as u32)
    }

    /// Unpacks the low 24 bits of `h` as `0xRRGGBB`.
    pub fn from_hex(h: u32) -> (c: Color)
        ensures
            c == color_of_hex(h),
    {
        Color { r: ((h / 65536) % 256) as u8, g: ((h / 256) % 256) as u8, b: (h % 256) as u8 }
    }

    /// The channel-wise floor of the mean of four colors: the 2x2 box filter.
    pub fn average4(c0: Color, c1: Color, c2: Color, c3: Color) -> (c: Color)
        ensures
            c == average4_spec(c0, c1, c2, c3),
    {
        Color {
            r: ((c0.r as u16 + c1.r as u16 + c2.r as u16 + c3.r as u16) / 4) as u8,
            g: ((c0.g as u16 + c1.g as u16 + c2.g as u16 + c3.g as u16) / 4) as u8,
            b: ((c0.b as u16 + c1.b as u16 + c2.b as u16 + c3.b as u16) / 4) as u8,
        }
    }
}

/// Unpacking a packed color gives the color back.
pub proof fn lemma_hex_round_trip(c: Color)
    ensures
        color_of_hex(hex_of(c)) == c,
{
    let h = c.r as int * 65536 + c.g as int * 256 + c.b as int;
    assert(h / 65536 == c.r as int) by (nonlinear_arith)
        requires h == c.r as int * 65536 + c.g as int * 256 + c.b as int, 0 <= c.g < 256, 0 <= c.b < 256;
    assert(h / 256 == c.r as int * 256 + c.g as int) by (nonlinear_arith)
        requires h == c.r as int * 65536 + c.g as int * 256 + c.b as int, 0 <= c.b < 256;
    assert((c.r as int * 256 + c.g as int) % 256 == c.g as int) by (nonlinear_arith)
        requires 0 <= c.g < 256, 0 <= c.r;
    assert(h % 256 == c.b as int) by (nonlinear_arith)
        requires h == c.r as int * 65536 + c.g as int * 256 + c.b as int, 0 <= c.b < 256, 0 <= c.r, 0 <= c.g;
}

} // verus!
