//! The logical pixel color model.
//!
//! A display stores pixels in one of several native encodings, from 1-bit
//! monochrome up to 24-bit RGB.  Every encoding has a total conversion to the
//! canonical 24-bit [`Rgb`] form ([`Color::to_rgb`]), a quantizing conversion
//! back ([`Color::from_rgb`]), and a fixed bit width used for packed
//! serialization ([`ColorFormat::bits_per_pixel`]).
//!
//! Channel values are rescaled between bit depths with the fixed-point
//! rounding formula `out = (in * ((to_max << 24) / from_max) + (1 << 23)) >> 24`,
//! and grayscale intensity is derived from RGB with the ITU-R BT.601 weights
//! `(77, 150, 29)`; both are stated exactly by the spec functions below.

use vstd::prelude::*;
use vstd::arithmetic::div_mod::{
    lemma_div_is_ordered, lemma_fundamental_div_mod, lemma_fundamental_div_mod_converse,
    lemma_mod_bound,
};
use vstd::arithmetic::mul::lemma_mul_inequality;

verus! {

/// A canonical 24-bit RGB color.
#[derive(Clone, Copy, Debug, PartialEq, Eq, Structural)]
pub struct Rgb {
    /// Red channel, full 8-bit range.
    pub r: u8,
    /// Green channel, full 8-bit range.
    pub g: u8,
    /// Blue channel, full 8-bit range.
    pub b: u8,
}

impl Rgb {
    /// The canonical black color, all channels zero.
    pub open spec fn spec_black() -> Rgb {
        Rgb { r: 0, g: 0, b: 0 }
    }

    /// The canonical white color, all channels full.
    pub open spec fn spec_white() -> Rgb {
        Rgb { r: 255, g: 255, b: 255 }
    }

    /// Creates a color from its three channels.
    pub fn new(r: u8, g: u8, b: u8) -> (c: Rgb)
        ensures
            c == (Rgb { r, g, b }),
    {
        Rgb { r, g, b }
    }

    /// The canonical black color.
    pub fn black() -> (c: Rgb)
        ensures
            c == Rgb::spec_black(),
    {
        Rgb { r: 0, g: 0, b: 0 }
    }

    /// The canonical white color.
    pub fn white() -> (c: Rgb)
        ensures
            c == Rgb::spec_white(),
    {
        Rgb { r: 255, g: 255, b: 255 }
    }
}

/// Rescales one channel value from the range `0..=from_max` to the range
/// `0..=to_max`, rounding to the nearest output step: the fixed-point
/// evaluation of `round(v * to_max / from_max)` with 24 fractional bits.
pub open spec fn spec_convert_channel(v: int, from_max: int, to_max: int) -> int {
    if from_max == to_max {
        v
    } else {
        (v * ((to_max * 0x1000000) / from_max) + 0x800000) / 0x1000000
    }
}

/// Rescales a channel value between bit depths; see [`spec_convert_channel`].
pub fn convert_channel(v: u8, from_max: u8, to_max: u8) -> (r: u8)
    requires
        1 <= from_max,
        v <= from_max,
        to_max <= 255,
    ensures
        r == spec_convert_channel(v as int, from_max as int, to_max as int),
        r <= to_max,
{
    if from_max == to_max {
        v
    } else {
        let factor: u32 = ((to_max as u32) * 0x1000000) / (from_max as u32);
        proof {
            let f = from_max as int;
            let t = to_max as int * 0x1000000;
            // v * factor never exceeds to_max << 24, so the sum below stays
            // within u32 and the rounded quotient stays within to_max.
            lemma_mul_inequality(v as int, f, factor as int);
            lemma_fundamental_div_mod(t, f);
            lemma_mod_bound(t, f);
            lemma_div_is_ordered(v as int * factor as int + 0x800000, t + 0x800000, 0x1000000);
            lemma_fundamental_div_mod_converse(t + 0x800000, 0x1000000, to_max as int, 0x800000);
        }
        (((v as u32) * factor + 0x800000) / 0x1000000) as u8
    }
}

/// The grayscale intensity of an RGB color under the ITU-R BT.601 weights:
/// `(r * 77 + g * 150 + b * 29 + 128) / 256`.
pub open spec fn spec_luma(c: Rgb) -> int {
    (c.r * 77 + c.g * 150 + c.b * 29 + 128) / 256
}

/// Computes the grayscale intensity of an RGB color; see [`spec_luma`].
pub fn luma(c: Rgb) -> (l: u8)
    ensures
        l == spec_luma(c),
{
    let sum: u32 = c.r as u32 * 77 + c.g as u32 * 150 + c.b as u32 * 29 + 128;
    (sum / 256) as u8
}

/// The supported native pixel encodings of a display.
#[derive(Clone, Copy, Debug, PartialEq, Eq, Structural)]
pub enum ColorFormat {
    /// 1-bit on/off.
    Binary,
    /// 2-bit grayscale.
    Gray2,
    /// 4-bit grayscale.
    Gray4,
    /// 8-bit grayscale.
    Gray8,
    /// 16-bit RGB with 5/6/5 bits per channel.
    Rgb565,
    /// 24-bit RGB with 8 bits per channel.
    Rgb888,
}

impl ColorFormat {
    /// The number of bits one packed pixel of this encoding occupies.
    pub open spec fn spec_bits_per_pixel(self) -> int {
        match self {
            ColorFormat::Binary => 1,
            ColorFormat::Gray2 => 2,
            ColorFormat::Gray4 => 4,
            ColorFormat::Gray8 => 8,
            ColorFormat::Rgb565 => 16,
            ColorFormat::Rgb888 => 24,
        }
    }

    /// Returns the number of bits one packed pixel of this encoding occupies.
    pub fn bits_per_pixel(self) -> (r: u32)
        ensures
            r == self.spec_bits_per_pixel(),
    {
        match self {
            ColorFormat::Binary => 1,
            ColorFormat::Gray2 => 2,
            ColorFormat::Gray4 => 4,
            ColorFormat::Gray8 => 8,
            ColorFormat::Rgb565 => 16,
            ColorFormat::Rgb888 => 24,
        }
    }
}

/// One logical pixel value in its native encoding.
#[derive(Clone, Copy, Debug, PartialEq, Eq, Structural)]
pub enum Color {
    /// 1-bit on/off; `true` is "on".
    Binary(bool),
    /// 2-bit grayscale luma, `0..=3`.
    Gray2(u8),
    /// 4-bit grayscale luma, `0..=15`.
    Gray4(u8),
    /// 8-bit grayscale luma.
    Gray8(u8),
    /// 16-bit RGB: red `0..=31`, green `0..=63`, blue `0..=31`.
    Rgb565(u8, u8, u8),
    /// 24-bit RGB, full 8-bit channels.
    Rgb888(Rgb),
}

impl Color {
    /// Whether the stored channel values lie within their encoding's range.
    pub open spec fn wf(self) -> bool {
        match self {
            Color::Binary(_) => true,
            Color::Gray2(v) => v < 4,
            Color::Gray4(v) => v < 16,
            Color::Gray8(_) => true,
            Color::Rgb565(r, g, b) => r < 32 && g < 64 && b < 32,
            Color::Rgb888(_) => true,
        }
    }

    /// The encoding this pixel value belongs to.
    pub open spec fn spec_format(self) -> ColorFormat {
        match self {
            Color::Binary(_) => ColorFormat::Binary,
            Color::Gray2(_) => ColorFormat::Gray2,
            Color::Gray4(_) => ColorFormat::Gray4,
            Color::Gray8(_) => ColorFormat::Gray8,
            Color::Rgb565(_, _, _) => ColorFormat::Rgb565,
            Color::Rgb888(_) => ColorFormat::Rgb888,
        }
    }

    /// Returns the encoding this pixel value belongs to.
    pub fn format(self) -> (r: ColorFormat)
        ensures
            r == self.spec_format(),
    {
        match self {
            Color::Binary(_) => ColorFormat::Binary,
            Color::Gray2(_) => ColorFormat::Gray2,
            Color::Gray4(_) => ColorFormat::Gray4,
            Color::Gray8(_) => ColorFormat::Gray8,
            Color::Rgb565(_, _, _) => ColorFormat::Rgb565,
            Color::Rgb888(_) => ColorFormat::Rgb888,
        }
    }

    /// The canonical RGB value of this pixel: channels are rescaled to the
    /// full 8-bit range, grayscale fills all three channels, and the binary
    /// "off"/"on" states are black and white.
    pub open spec fn spec_to_rgb(self) -> Rgb {
        match self {
            Color::Binary(on) => if on {
                Rgb::spec_white()
            } else {
                Rgb::spec_black()
            },
            Color::Gray2(v) => {
                let l = spec_convert_channel(v as int, 3, 255) as u8;
                Rgb { r: l, g: l, b: l }
            },
            Color::Gray4(v) => {
                let l = spec_convert_channel(v as int, 15, 255) as u8;
                Rgb { r: l, g: l, b: l }
            },
            Color::Gray8(v) => Rgb { r: v, g: v, b: v },
            Color::Rgb565(r, g, b) => Rgb {
                r: spec_convert_channel(r as int, 31, 255) as u8,
                g: spec_convert_channel(g as int, 63, 255) as u8,
                b: spec_convert_channel(b as int, 31, 255) as u8,
            },
            Color::Rgb888(c) => c,
        }
    }

    /// Converts this pixel to its canonical RGB value; see [`Color::spec_to_rgb`].
    pub fn to_rgb(self) -> (c: Rgb)
        requires
            self.wf(),
        ensures
            c == self.spec_to_rgb(),
    {
        match self {
            Color::Binary(on) => if on {
                Rgb::white()
            } else {
                Rgb::black()
            },
            Color::Gray2(v) => {
                let l = convert_channel(v, 3, 255);
                Rgb { r: l, g: l, b: l }
            },
            Color::Gray4(v) => {
                let l = convert_channel(v, 15, 255);
                Rgb { r: l, g: l, b: l }
            },
            Color::Gray8(v) => Rgb { r: v, g: v, b: v },
            Color::Rgb565(r, g, b) => Rgb {
                r: convert_channel(r, 31, 255),
                g: convert_channel(g, 63, 255),
                b: convert_channel(b, 31, 255),
            },
            Color::Rgb888(c) => c,
        }
    }

    /// The quantized pixel value of the given encoding closest to `c`: the
    /// inverse of [`Color::spec_to_rgb`] up to quantization.  RGB encodings
    /// rescale each channel down; grayscale encodings rescale the intensity
    /// [`spec_luma`]; the binary encoding is "on" iff the intensity is at
    /// least half.
    pub open spec fn spec_from_rgb(format: ColorFormat, c: Rgb) -> Color {
        match format {
            ColorFormat::Binary => Color::Binary(spec_luma(c) >= 128),
            ColorFormat::Gray2 => Color::Gray2(
                spec_convert_channel(spec_luma(c), 255, 3) as u8,
            ),
            ColorFormat::Gray4 => Color::Gray4(
                spec_convert_channel(spec_luma(c), 255, 15) as u8,
            ),
            ColorFormat::Gray8 => Color::Gray8(spec_luma(c) as u8),
            ColorFormat::Rgb565 => Color::Rgb565(
                spec_convert_channel(c.r as int, 255, 31) as u8,
                spec_convert_channel(c.g as int, 255, 63) as u8,
                spec_convert_channel(c.b as int, 255, 31) as u8,
            ),
            ColorFormat::Rgb888 => Color::Rgb888(c),
        }
    }

    /// Quantizes an RGB color into the given encoding; see [`Color::spec_from_rgb`].
    pub fn from_rgb(format: ColorFormat, c: Rgb) -> (r: Color)
        ensures
            r == Color::spec_from_rgb(format, c),
            r.wf(),
            r.spec_format() == format,
    {
        match format {
            ColorFormat::Binary => Color::Binary(luma(c) >= 128),
            ColorFormat::Gray2 => Color::Gray2(convert_channel(luma(c), 255, 3)),
            ColorFormat::Gray4 => Color::Gray4(convert_channel(luma(c), 255, 15)),
            ColorFormat::Gray8 => Color::Gray8(luma(c)),
            ColorFormat::Rgb565 => Color::Rgb565(
                convert_channel(c.r, 255, 31),
                convert_channel(c.g, 255, 63),
                convert_channel(c.b, 255, 31),
            ),
            ColorFormat::Rgb888 => Color::Rgb888(c),
        }
    }

    /// The default "off" pixel value of an encoding: all channels zero.
    pub open spec fn spec_off(format: ColorFormat) -> Color {
        match format {
            ColorFormat::Binary => Color::Binary(false),
            ColorFormat::Gray2 => Color::Gray2(0),
            ColorFormat::Gray4 => Color::Gray4(0),
            ColorFormat::Gray8 => Color::Gray8(0),
            ColorFormat::Rgb565 => Color::Rgb565(0, 0, 0),
            ColorFormat::Rgb888 => Color::Rgb888(Rgb::spec_black()),
        }
    }

    /// Returns the default "off" pixel value of an encoding; see [`Color::spec_off`].
    pub fn off(format: ColorFormat) -> (r: Color)
        ensures
            r == Color::spec_off(format),
            r.wf(),
            r.spec_format() == format,
    {
        match format {
            ColorFormat::Binary => Color::Binary(false),
            ColorFormat::Gray2 => Color::Gray2(0),
            ColorFormat::Gray4 => Color::Gray4(0),
            ColorFormat::Gray8 => Color::Gray8(0),
            ColorFormat::Rgb565 => Color::Rgb565(0, 0, 0),
            ColorFormat::Rgb888 => Color::Rgb888(Rgb::black()),
        }
    }
}

} // verus!
