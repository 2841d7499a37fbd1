use vstd::prelude::*;

verus! {

/// A color packed into one integer, red in the highest byte and alpha in the lowest.
pub type PixelData = u32;

/// An RGBA color with 8 bits per channel.
#[derive(Debug, PartialEq, Eq, Default, Clone, Copy, Structural)]
pub struct Color {
    pub r: u8,
    pub g: u8,
    pub b: u8,
    pub a: u8,
}

/// One channel of a tint: the product of the two channels scaled back to `0..=255`,
/// rounded down.
pub open spec fn tint_channel(c: u8, t: u8) -> u8 {
    ((c as int * t as int) / 255) as u8
}

impl Color {
    /// The channel-wise tint of `self` by `tint`.
    pub open spec fn tinted(self, tint: Color) -> Color {
        Color {
            r: tint_channel(self.r, tint.r),
            g: tint_channel(self.g, tint.g),
            b: tint_channel(self.b, tint.b),
            a: tint_channel(self.a, tint.a),
        }
    }

    /// The packed form: red in bits 31-24, green in 23-16, blue in 15-8, alpha in 7-0.
    pub open spec fn packed(self) -> u32 {
        ((self.r as u32) << 24u32) | ((self.g as u32) << 16u32) | ((self.b as u32) << 8u32) | (
        self.a as u32)
    }

    /// The color whose channels stand in the bytes of `v`, red in the highest.
    pub open spec fn unpacked(v: u32) -> Color {
        Color {
            r: (v >> 24u32) as u8,
            g: ((v >> 16u32) & 0xffu32) as u8,
            b: ((v >> 8u32) & 0xffu32) as u8,
            a: (v & 0xffu32) as u8,
        }
    }

    /// An opaque color.
    pub fn new(r: u8, g: u8, b: u8) -> (c: Color)
        ensures
            c == (Color { r, g, b, a: 255 }),
    {
        Color { r, g, b, a: 255 }
    }

    pub fn new_with_alpha(r: u8, g: u8, b: u8, a: u8) -> (c: Color)
        ensures
            c == (Color { r, g, b, a }),
    {
        Color { r, g, b, a }
    }

    /// Multiplies each channel by the matching channel of `tint`, as if both were
    /// fractions of 255.
    pub fn tint(&self, tint: &Color) -> (c: Color)
        ensures
            c == self.tinted(*tint),
    {
        Color {
            r: scale_channel(self.r, tint.r),
            g: scale_channel(self.g, tint.g),
            b: scale_channel(self.b, tint.b),
            a: scale_channel(self.a, tint.a),
        }
    }
}

fn scale_channel(c: u8, t: u8) -> (r: u8)
    ensures
        r == tint_channel(c, t),
{
    proof {
        assert(c as int * t as int <= 255 * 255) by (nonlinear_arith)
            requires
                c <= 255,
                t <= 255,
                0 <= c,
                0 <= t,
        ;
    }
    ((c as u32) * (t as u32) / 255) as u8
}

impl From<PixelData> for Color {
    fn from(value: PixelData) -> Color {
        Color {
            r: (value >> 24) as u8,
            g: ((value >> 16) & 0xff) as u8,
            b: ((value >> 8) & 0xff) as u8,
            a: (value & 0xff) as u8,
        }
    }
}

impl vstd::std_specs::convert::FromSpecImpl<PixelData> for Color {
    open spec fn obeys_from_spec() -> bool {
        true
    }

    open spec fn from_spec(v: PixelData) -> Color {
        Color::unpacked(v)
    }
}

impl From<Color> for PixelData {
    fn from(value: Color) -> PixelData {
        ((value.r as u32) << 24) | ((value.g as u32) << 16) | ((value.b as u32) << 8) | (
        value.a as u32)
    }
}

impl vstd::std_specs::convert::FromSpecImpl<Color> for PixelData {
    open spec fn obeys_from_spec() -> bool {
        true
    }

    open spec fn from_spec(v: Color) -> PixelData {
        v.packed()
    }
}

/// Unpacking a packed color gives the color back.
pub proof fn lemma_unpack_pack(c: Color)
    ensures
        Color::unpacked(c.packed()) == c,
{
    let (r, g, b, a) = (c.r, c.g, c.b, c.a);
    let v = c.packed();
    assert(((((r as u32) << 24u32) | ((g as u32) << 16u32) | ((b as u32) << 8u32) | (a as u32))
        >> 24u32) as u8 == r) by (bit_vector);
    assert((((((r as u32) << 24u32) | ((g as u32) << 16u32) | ((b as u32) << 8u32) | (a as u32))
        >> 16u32) & 0xffu32) as u8 == g) by (bit_vector);
    assert((((((r as u32) << 24u32) | ((g as u32) << 16u32) | ((b as u32) << 8u32) | (a as u32))
        >> 8u32) & 0xffu32) as u8 == b) by (bit_vector);
    assert(((((r as u32) << 24u32) | ((g as u32) << 16u32) | ((b as u32) << 8u32) | (a as u32))
        & 0xffu32) as u8 == a) by (bit_vector);
}

/// Packing the color unpacked from an integer gives the integer back.
pub proof fn lemma_pack_unpack(v: u32)
    ensures
        Color::unpacked(v).packed() == v,
{
    assert(((((v >> 24u32) as u8) as u32) << 24u32) | (((((v >> 16u32) & 0xffu32) as u8) as u32)
        << 16u32) | (((((v >> 8u32) & 0xffu32) as u8) as u32) << 8u32) | (((v & 0xffu32) as u8)
        as u32) == v) by (bit_vector);
}

} // verus!
