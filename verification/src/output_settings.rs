//! Rendering configuration: scale, pixel spacing and theme.
//!
//! A configuration with scale `s` and spacing `g` expands every logical
//! pixel into an `s`-by-`s` block and leaves `g` background pixels between
//! neighbouring blocks, so a display axis of `d` pixels rasterizes to
//! `d * s + (d - 1) * g` output pixels (`0` for an empty axis).

use vstd::prelude::*;
use crate::geometry::{Point, Size};
use crate::theme::BinaryColorTheme;

verus! {

/// The length of one display axis of `d` pixels after rasterization with
/// the given scale and spacing.
pub open spec fn spec_output_dim(d: int, scale: int, spacing: int) -> int {
    if d > 0 {
        d * scale + (d - 1) * spacing
    } else {
        0
    }
}

/// Division truncating towards zero, the way hardware integer division
/// rounds: `-1 / 2 == 0`.
pub open spec fn spec_trunc_div(a: int, b: int) -> int
    recommends
        b > 0,
{
    if a >= 0 {
        a / b
    } else {
        -((-a) / b)
    }
}

/// Output settings.
#[derive(Clone, Copy, Debug, PartialEq, Eq, Structural)]
pub struct OutputSettings {
    /// Pixel scale: the side length of the block one logical pixel becomes.
    pub scale: u32,
    /// Number of background pixels between neighbouring blocks.
    pub pixel_spacing: u32,
    /// Binary color theme.
    pub theme: BinaryColorTheme,
}

impl OutputSettings {
    /// A valid configuration: a positive scale, and a pixel pitch that does
    /// not overflow.
    pub open spec fn wf(self) -> bool {
        &&& self.scale >= 1
        &&& self.scale + self.pixel_spacing <= u32::MAX
    }

    /// The spacing between the top-left corners of neighbouring blocks.
    pub open spec fn spec_pixel_pitch(self) -> int {
        self.scale + self.pixel_spacing
    }

    /// Returns the spacing between the top-left corners of neighbouring
    /// blocks: the scale plus the pixel spacing.
    pub fn pixel_pitch(&self) -> (r: u32)
        requires
            self.wf(),
        ensures
            r == self.spec_pixel_pitch(),
    {
        self.scale + self.pixel_spacing
    }

    /// The size of the raster that a display of size `size` rasterizes to
    /// under these settings, per axis [`spec_output_dim`].
    pub open spec fn spec_output_size(self, size: Size) -> Size {
        Size {
            width: spec_output_dim(size.width as int, self.scale as int, self.pixel_spacing as int) as u32,
            height: spec_output_dim(size.height as int, self.scale as int, self.pixel_spacing as int) as u32,
        }
    }

    /// Whether the raster size for a display of size `size` fits in 32 bits
    /// per axis.
    pub open spec fn output_size_fits(self, size: Size) -> bool {
        &&& spec_output_dim(size.width as int, self.scale as int, self.pixel_spacing as int) <= u32::MAX
        &&& spec_output_dim(size.height as int, self.scale as int, self.pixel_spacing as int) <= u32::MAX
    }

    /// Computes the size of the raster that a display of size `size`
    /// rasterizes to under these settings.
    pub fn output_size(&self, size: Size) -> (r: Size)
        requires
            self.wf(),
            self.output_size_fits(size),
        ensures
            r == self.spec_output_size(size),
    {
        Size {
            width: Self::output_dim(size.width, self.scale, self.pixel_spacing),
            height: Self::output_dim(size.height, self.scale, self.pixel_spacing),
        }
    }

    fn output_dim(d: u32, scale: u32, spacing: u32) -> (r: u32)
        requires
            spec_output_dim(d as int, scale as int, spacing as int) <= u32::MAX,
        ensures
            r == spec_output_dim(d as int, scale as int, spacing as int),
    {
        if d == 0 {
            0
        } else {
            let blocks: u64 = (d as u64) * (scale as u64);
            let gaps: u64 = ((d - 1) as u64) * (spacing as u64);
            (blocks + gaps) as u32
        }
    }

    /// Translates an output raster coordinate to the display coordinate
    /// whose block (or following gutter) covers it, truncating towards zero.
    pub fn output_to_display(&self, output_point: Point) -> (r: Point)
        requires
            self.wf(),
        ensures
            r.x == spec_trunc_div(output_point.x as int, self.spec_pixel_pitch()),
            r.y == spec_trunc_div(output_point.y as int, self.spec_pixel_pitch()),
    {
        let pitch = self.pixel_pitch();
        Point {
            x: Self::trunc_div(output_point.x as i64, pitch),
            y: Self::trunc_div(output_point.y as i64, pitch),
        }
    }

    fn trunc_div(a: i64, b: u32) -> (r: i32)
        requires
            i32::MIN <= a <= i32::MAX,
            b >= 1,
        ensures
            r == spec_trunc_div(a as int, b as int),
    {
        if a >= 0 {
            ((a as u64) / (b as u64)) as i32
        } else {
            let q = ((-a) as u64) / (b as u64);
            let neg: i64 = -(q as i64);
            neg as i32
        }
    }

    /// Translates a position on the output raster of a display placed at
    /// `offset` into that display's own coordinates, or `None` when the
    /// position does not fall on the display.
    pub fn translate_mouse_position(
        &self,
        display_size: Size,
        offset: Point,
        position: Point,
    ) -> (r: Option<Point>)
        requires
            self.wf(),
            i32::MIN <= position.x - offset.x <= i32::MAX,
            i32::MIN <= position.y - offset.y <= i32::MAX,
        ensures
            ({
                let qx = spec_trunc_div(position.x - offset.x, self.spec_pixel_pitch());
                let qy = spec_trunc_div(position.y - offset.y, self.spec_pixel_pitch());
                if 0 <= qx < display_size.width && 0 <= qy < display_size.height {
                    r == Some(Point { x: qx as i32, y: qy as i32 })
                } else {
                    r is None
                }
            }),
    {
        let pitch = self.pixel_pitch();
        let dx = position.x as i64 - offset.x as i64;
        let dy = position.y as i64 - offset.y as i64;
        let qx = Self::trunc_div(dx, pitch);
        let qy = Self::trunc_div(dy, pitch);
        if qx >= 0 && (qx as u32 as u64) < display_size.width as u64 && qy >= 0
            && (qy as u32 as u64) < display_size.height as u64 {
            Some(Point { x: qx, y: qy })
        } else {
            None
        }
    }
}

impl Default for OutputSettings {
    /// Scale 1, no spacing, passthrough theme.
    fn default() -> (r: Self)
        ensures
            r == (OutputSettings {
                scale: 1,
                pixel_spacing: 0,
                theme: BinaryColorTheme::Default,
            }),
            r.wf(),
    {
        OutputSettings { scale: 1, pixel_spacing: 0, theme: BinaryColorTheme::Default }
    }
}

/// Output settings builder.
#[derive(Clone, Copy, Debug)]
pub struct OutputSettingsBuilder {
    scale: Option<u32>,
    pixel_spacing: Option<u32>,
    theme: BinaryColorTheme,
}

impl OutputSettingsBuilder {
    /// The scale chosen so far, if one was chosen.
    pub closed spec fn spec_scale(self) -> Option<u32> {
        self.scale
    }

    /// The pixel spacing chosen so far, if one was chosen.
    pub closed spec fn spec_pixel_spacing(self) -> Option<u32> {
        self.pixel_spacing
    }

    /// The theme chosen so far.
    pub closed spec fn spec_theme(self) -> BinaryColorTheme {
        self.theme
    }

    /// A valid builder state: a chosen scale is positive and a chosen pitch
    /// does not overflow.
    pub open spec fn wf(self) -> bool {
        &&& (self.spec_scale() matches Some(s) ==> 1 <= s)
        &&& (self.spec_scale() matches Some(s) ==> s <= u32::MAX - 1)
        &&& (self.spec_pixel_spacing() matches Some(g) ==> g <= u32::MAX - 3)
        &&& match (self.spec_scale(), self.spec_pixel_spacing()) {
            (Some(s), Some(g)) => s + g <= u32::MAX,
            _ => true,
        }
    }

    /// Creates a new output settings builder with nothing chosen yet.
    pub fn new() -> (r: Self)
        ensures
            r.spec_scale() is None,
            r.spec_pixel_spacing() is None,
            r.spec_theme() == BinaryColorTheme::Default,
            r.wf(),
    {
        OutputSettingsBuilder { scale: None, pixel_spacing: None, theme: BinaryColorTheme::Default }
    }

    /// Sets the pixel scale.  A scale of `2` or higher is useful for viewing
    /// a small simulated display on a high DPI screen.
    pub fn scale(self, scale: u32) -> (r: Self)
        requires
            self.wf(),
            1 <= scale,
            scale <= u32::MAX - 1,
            self.spec_pixel_spacing() matches Some(g) ==> scale + g <= u32::MAX,
        ensures
            r.spec_scale() == Some(scale),
            r.spec_pixel_spacing() == self.spec_pixel_spacing(),
            r.spec_theme() == self.spec_theme(),
            r.wf(),
    {
        OutputSettingsBuilder { scale: Some(scale), ..self }
    }

    /// Sets the binary color theme.  Because themed displays are usually
    /// small, choosing a theme also chooses scale `3` and spacing `1` unless
    /// they were set explicitly.
    pub fn theme(self, theme: BinaryColorTheme) -> (r: Self)
        requires
            self.wf(),
        ensures
            r.spec_theme() == theme,
            r.spec_scale() == if self.spec_scale() is Some {
                self.spec_scale()
            } else {
                Some(3u32)
            },
            r.spec_pixel_spacing() == if self.spec_pixel_spacing() is Some {
                self.spec_pixel_spacing()
            } else {
                Some(1u32)
            },
            r.wf(),
    {
        let scale = match self.scale {
            Some(s) => Some(s),
            None => Some(3),
        };
        let pixel_spacing = match self.pixel_spacing {
            Some(g) => Some(g),
            None => Some(1),
        };
        OutputSettingsBuilder { scale, pixel_spacing, theme }
    }

    /// Sets the gap between pixels, simulating the visible gaps between the
    /// individual pixels of low resolution displays.
    pub fn pixel_spacing(self, pixel_spacing: u32) -> (r: Self)
        requires
            self.wf(),
            pixel_spacing <= u32::MAX - 3,
            self.spec_scale() matches Some(s) ==> s + pixel_spacing <= u32::MAX,
        ensures
            r.spec_pixel_spacing() == Some(pixel_spacing),
            r.spec_scale() == self.spec_scale(),
            r.spec_theme() == self.spec_theme(),
            r.wf(),
    {
        OutputSettingsBuilder { pixel_spacing: Some(pixel_spacing), ..self }
    }

    /// Builds the output settings: an unchosen scale becomes `1`, an
    /// unchosen spacing becomes `0`.
    pub fn build(self) -> (r: OutputSettings)
        requires
            self.wf(),
        ensures
            r.scale == match self.spec_scale() {
                Some(s) => s,
                None => 1u32,
            },
            r.pixel_spacing == match self.spec_pixel_spacing() {
                Some(g) => g,
                None => 0u32,
            },
            r.theme == self.spec_theme(),
            r.wf(),
    {
        OutputSettings {
            scale: match self.scale {
                Some(s) => s,
                None => 1,
            },
            pixel_spacing: match self.pixel_spacing {
                Some(g) => g,
                None => 0,
            },
            theme: self.theme,
        }
    }
}

} // verus!
