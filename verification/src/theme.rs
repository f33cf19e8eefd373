//! Color themes for binary displays.
//!
//! A theme recolors the canonical RGB content of a display before
//! rasterization.  Apart from the passthrough and inverting themes, every
//! theme is a binary classification: the canonical black input maps to the
//! theme's "off" color and any other input maps to its "on" color.

use vstd::prelude::*;
use crate::color::Rgb;

verus! {

/// A named palette for rendering binary displays.
#[derive(Clone, Copy, Debug, PartialEq, Eq, Structural)]
pub enum BinaryColorTheme {
    /// Passthrough: every color is kept as it is.
    Default,
    /// Channel-wise inverted colors.
    Inverted,
    /// A classic LCD look with a near-white background and dark pixels.
    LcdWhite,
    /// A classic LCD look with a green background and dark grey pixels.
    LcdGreen,
    /// An LCD look with a blue background and blue-white pixels.
    LcdBlue,
    /// An OLED look with a near-black background and white pixels.
    OledWhite,
    /// An OLED look with a dark blue background and light blue pixels.
    OledBlue,
    /// An explicit two-color palette.
    Custom {
        /// The color used for "off" (canonical black) pixels.
        color_off: Rgb,
        /// The color used for "on" (any non-black) pixels.
        color_on: Rgb,
    },
}

/// The binary classification every non-passthrough theme applies: canonical
/// black selects `color_off`, anything else selects `color_on`.
pub open spec fn spec_map_color(color: Rgb, color_off: Rgb, color_on: Rgb) -> Rgb {
    if color == Rgb::spec_black() {
        color_off
    } else {
        color_on
    }
}

fn map_color(color: Rgb, color_off: Rgb, color_on: Rgb) -> (r: Rgb)
    ensures
        r == spec_map_color(color, color_off, color_on),
{
    if color.r == 0 && color.g == 0 && color.b == 0 {
        color_off
    } else {
        color_on
    }
}

impl BinaryColorTheme {
    /// The themed color for a given canonical RGB input.
    pub open spec fn spec_convert(self, color: Rgb) -> Rgb {
        match self {
            BinaryColorTheme::Default => color,
            BinaryColorTheme::Inverted => Rgb {
                r: (255 - color.r) as u8,
                g: (255 - color.g) as u8,
                b: (255 - color.b) as u8,
            },
            BinaryColorTheme::LcdWhite => spec_map_color(
                color,
                Rgb { r: 245, g: 245, b: 245 },
                Rgb { r: 32, g: 32, b: 32 },
            ),
            BinaryColorTheme::LcdGreen => spec_map_color(
                color,
                Rgb { r: 120, g: 185, b: 50 },
                Rgb { r: 32, g: 32, b: 32 },
            ),
            BinaryColorTheme::LcdBlue => spec_map_color(
                color,
                Rgb { r: 70, g: 80, b: 230 },
                Rgb { r: 230, g: 230, b: 255 },
            ),
            BinaryColorTheme::OledWhite => spec_map_color(
                color,
                Rgb { r: 20, g: 20, b: 20 },
                Rgb::spec_white(),
            ),
            BinaryColorTheme::OledBlue => spec_map_color(
                color,
                Rgb { r: 0, g: 20, b: 40 },
                Rgb { r: 0, g: 210, b: 255 },
            ),
            BinaryColorTheme::Custom { color_off, color_on } => spec_map_color(
                color,
                color_off,
                color_on,
            ),
        }
    }

    /// Gets the theme's pixel color for a given canonical RGB input; see
    /// [`BinaryColorTheme::spec_convert`].
    pub fn convert(self, color: Rgb) -> (r: Rgb)
        ensures
            r == self.spec_convert(color),
    {
        match self {
            BinaryColorTheme::Default => color,
            BinaryColorTheme::Inverted => Rgb {
                r: 255 - color.r,
                g: 255 - color.g,
                b: 255 - color.b,
            },
            BinaryColorTheme::LcdWhite => map_color(
                color,
                Rgb::new(245, 245, 245),
                Rgb::new(32, 32, 32),
            ),
            BinaryColorTheme::LcdGreen => map_color(
                color,
                Rgb::new(120, 185, 50),
                Rgb::new(32, 32, 32),
            ),
            BinaryColorTheme::LcdBlue => map_color(
                color,
                Rgb::new(70, 80, 230),
                Rgb::new(230, 230, 255),
            ),
            BinaryColorTheme::OledWhite => map_color(color, Rgb::new(20, 20, 20), Rgb::white()),
            BinaryColorTheme::OledBlue => map_color(
                color,
                Rgb::new(0, 20, 40),
                Rgb::new(0, 210, 255),
            ),
            BinaryColorTheme::Custom { color_off, color_on } => map_color(
                color,
                color_off,
                color_on,
            ),
        }
    }
}

impl Default for BinaryColorTheme {
    /// The passthrough theme.
    fn default() -> (r: Self)
        ensures
            r == BinaryColorTheme::Default,
    {
        BinaryColorTheme::Default
    }
}

/// The passthrough theme keeps every color unchanged, and the inverting
/// theme replaces each channel `v` by `255 - v`.
pub proof fn lemma_theme_default_and_inverted(c: Rgb)
    ensures
        BinaryColorTheme::Default.spec_convert(c) == c,
        BinaryColorTheme::Inverted.spec_convert(c) == (Rgb {
            r: (255 - c.r) as u8,
            g: (255 - c.g) as u8,
            b: (255 - c.b) as u8,
        }),
{
}

} // verus!
