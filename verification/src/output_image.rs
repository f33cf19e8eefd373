//! The output raster: a byte buffer holding the rendered image.
//!
//! An output image stores one byte per pixel (8-bit grayscale) or three
//! bytes per pixel (RGB, red byte first), row-major.  The rasterizer
//! [`OutputImage::draw_display`] expands every logical pixel of a display
//! into a scale-by-scale block of themed color, leaves the configured
//! spacing as background-colored gutters between blocks, and leaves the
//! rest of the raster untouched, so several displays can share one raster
//! at different offsets.

use vstd::prelude::*;
use vstd::arithmetic::div_mod::{
    lemma_div_pos_is_pos, lemma_fundamental_div_mod, lemma_fundamental_div_mod_converse,
    lemma_mod_bound,
};
use vstd::arithmetic::mul::lemma_mul_inequality;
use crate::color::{spec_luma, luma, Rgb};
use crate::display::{spec_index, SimulatorDisplay};
use crate::geometry::{Point, Rectangle, Size};
use crate::output_settings::{spec_output_dim, OutputSettings};

verus! {

/// The pixel layout of an output raster.
#[derive(Clone, Copy, Debug, PartialEq, Eq, Structural)]
pub enum OutputFormat {
    /// One byte per pixel: the grayscale intensity.
    Gray8,
    /// Three bytes per pixel: red, green, blue.
    Rgb888,
}

/// The number of bytes one pixel of a layout occupies.
pub open spec fn spec_bpp(format: OutputFormat) -> int {
    match format {
        OutputFormat::Gray8 => 1,
        OutputFormat::Rgb888 => 3,
    }
}

/// The bytes that represent an RGB color in a layout: the [`spec_luma`]
/// intensity for grayscale, the three channels in order for RGB.
pub open spec fn spec_color_bytes(format: OutputFormat, c: Rgb) -> Seq<u8> {
    match format {
        OutputFormat::Gray8 => seq![spec_luma(c) as u8],
        OutputFormat::Rgb888 => seq![c.r, c.g, c.b],
    }
}

/// A byte buffer with the pixel at `(x, y)` replaced by the given bytes.
pub open spec fn spec_write_pixel_bytes(
    data: Seq<u8>,
    w: int,
    bpp: int,
    x: int,
    y: int,
    bytes: Seq<u8>,
) -> Seq<u8> {
    let base = spec_index(w, x, y) * bpp;
    Seq::new(
        data.len(),
        |i: int|
            if base <= i < base + bpp {
                bytes[i - base]
            } else {
                data[i]
            },
    )
}

/// The contents of an output raster after one batch of pixel writes: writes
/// are applied in order, writes outside the raster are dropped, and the last
/// write to a pixel wins.
pub open spec fn spec_image_draw(
    data: Seq<u8>,
    w: int,
    h: int,
    format: OutputFormat,
    batch: Seq<(Point, Rgb)>,
) -> Seq<u8>
    decreases batch.len(),
{
    if batch.len() == 0 {
        data
    } else {
        let prev = spec_image_draw(data, w, h, format, batch.drop_last());
        let p = batch.last().0;
        let c = batch.last().1;
        if 0 <= p.x < w && 0 <= p.y < h {
            spec_write_pixel_bytes(
                prev,
                w,
                spec_bpp(format),
                p.x as int,
                p.y as int,
                spec_color_bytes(format, c),
            )
        } else {
            prev
        }
    }
}

/// Output image.
///
/// An output image is the rasterized form of a display: a byte buffer in a
/// declared pixel layout, ready for presentation or PNG export.
#[derive(Debug, Clone, PartialEq, Eq)]
pub struct OutputImage {
    format: OutputFormat,
    size: Size,
    data: Vec<u8>,
}

impl OutputImage {
    /// The pixel layout of this image.
    pub closed spec fn spec_format(self) -> OutputFormat {
        self.format
    }

    /// The size of this image in pixels.
    pub closed spec fn spec_size(self) -> Size {
        self.size
    }

    /// The raw bytes of this image, row-major.
    pub closed spec fn spec_data(self) -> Seq<u8> {
        self.data@
    }

    /// The image invariant: the buffer holds exactly one pixel's bytes for
    /// every coordinate.
    pub open spec fn wf(self) -> bool {
        self.spec_data().len() == self.spec_size().width * self.spec_size().height * spec_bpp(
            self.spec_format(),
        )
    }

    /// Whether `(x, y)` lies inside the image.
    pub open spec fn spec_in_bounds(self, x: int, y: int) -> bool {
        0 <= x < self.spec_size().width && 0 <= y < self.spec_size().height
    }

    /// The bytes of the pixel at `(x, y)`.
    pub open spec fn spec_pixel_bytes(self, x: int, y: int) -> Seq<u8> {
        let bpp = spec_bpp(self.spec_format());
        let base = spec_index(self.spec_size().width as int, x, y) * bpp;
        self.spec_data().subrange(base, base + bpp)
    }

    /// Creates a new image of the given size and layout with every byte
    /// zero: an all-black (or all-dark) raster.
    pub fn new(size: Size, format: OutputFormat) -> (r: OutputImage)
        requires
            size.width * size.height * spec_bpp(format) <= usize::MAX,
        ensures
            r.wf(),
            r.spec_size() == size,
            r.spec_format() == format,
            forall|i: int| 0 <= i < r.spec_data().len() ==> r.spec_data()[i] == 0u8,
    {
        let bpp: usize = match format {
            OutputFormat::Gray8 => 1,
            OutputFormat::Rgb888 => 3,
        };
        proof {
            lemma_area_bytes(size.width as int, size.height as int, spec_bpp(format));
        }
        let pixel_count: usize = (size.width as usize) * (size.height as usize);
        let byte_count: usize = pixel_count * bpp;
        let mut data: Vec<u8> = Vec::new();
        while data.len() < byte_count
            invariant
                data.len() <= byte_count,
                forall|i: int| 0 <= i < data.len() ==> data[i] == 0u8,
            decreases byte_count - data.len(),
        {
            data.push(0);
        }
        OutputImage { format, size, data }
    }

    /// Returns the size of the image.
    pub fn size(&self) -> (r: Size)
        ensures
            r == self.spec_size(),
    {
        self.size
    }

    /// Returns the pixel layout of the image.
    pub fn format(&self) -> (r: OutputFormat)
        ensures
            r == self.spec_format(),
    {
        self.format
    }

    /// Returns the raw bytes of the image, row-major.
    pub fn data(&self) -> (r: &Vec<u8>)
        ensures
            r@ == self.spec_data(),
    {
        &self.data
    }

    /// Overwrites the pixel at the in-bounds coordinate `(x, y)` with a
    /// color, leaving every other pixel unchanged.
    fn write_pixel(&mut self, x: u32, y: u32, color: Rgb)
        requires
            old(self).wf(),
            old(self).spec_in_bounds(x as int, y as int),
        ensures
            final(self).wf(),
            final(self).spec_size() == old(self).spec_size(),
            final(self).spec_format() == old(self).spec_format(),
            final(self).spec_data() == spec_write_pixel_bytes(
                old(self).spec_data(),
                old(self).spec_size().width as int,
                spec_bpp(old(self).spec_format()),
                x as int,
                y as int,
                spec_color_bytes(old(self).spec_format(), color),
            ),
            final(self).spec_pixel_bytes(x as int, y as int) == spec_color_bytes(
                old(self).spec_format(),
                color,
            ),
            forall|px: int, py: int|
                old(self).spec_in_bounds(px, py) && !(px == x && py == y)
                    ==> final(self).spec_pixel_bytes(px, py) == old(self).spec_pixel_bytes(px, py),
    {
        let ghost w = self.spec_size().width as int;
        let ghost h = self.spec_size().height as int;
        let ghost bpp = spec_bpp(self.spec_format());
        proof {
            lemma_byte_base(w, h, bpp, x as int, y as int);
        }
        let _n = self.data.len();
        let index: usize = (y as usize) * (self.size.width as usize) + (x as usize);
        match self.format {
            OutputFormat::Gray8 => {
                let l = luma(color);
                self.data.set(index, l);
            },
            OutputFormat::Rgb888 => {
                let base: usize = index * 3;
                self.data.set(base, color.r);
                self.data.set(base + 1, color.g);
                self.data.set(base + 2, color.b);
            },
        }
        proof {
            let base = spec_index(w, x as int, y as int) * bpp;
            let bytes = spec_color_bytes(old(self).spec_format(), color);
            assert(self.spec_data() =~= spec_write_pixel_bytes(
                old(self).spec_data(),
                w,
                bpp,
                x as int,
                y as int,
                bytes,
            ));
            assert(self.spec_pixel_bytes(x as int, y as int) =~= bytes);
            assert forall|px: int, py: int|
                old(self).spec_in_bounds(px, py) && !(px == x && py == y) implies self
                .spec_pixel_bytes(px, py) == old(self).spec_pixel_bytes(px, py) by {
                lemma_byte_base(w, h, bpp, px, py);
                lemma_pixel_ranges_disjoint(w, h, bpp, px, py, x as int, y as int);
                assert(self.spec_pixel_bytes(px, py) =~= old(self).spec_pixel_bytes(px, py));
            }
        }
    }

    /// Draws a batch of `(point, color)` pairs onto the raster: in-bounds
    /// points are overwritten in order (the last write to a point wins) and
    /// out-of-bounds points are silently dropped.
    pub fn draw_pixels(&mut self, batch: &Vec<(Point, Rgb)>)
        requires
            old(self).wf(),
        ensures
            final(self).wf(),
            final(self).spec_size() == old(self).spec_size(),
            final(self).spec_format() == old(self).spec_format(),
            final(self).spec_data() == spec_image_draw(
                old(self).spec_data(),
                old(self).spec_size().width as int,
                old(self).spec_size().height as int,
                old(self).spec_format(),
                batch@,
            ),
    {
        let ghost orig = self.spec_data();
        let ghost w = self.spec_size().width as int;
        let ghost h = self.spec_size().height as int;
        let ghost format = self.spec_format();
        let mut j: usize = 0;
        while j < batch.len()
            invariant
                self.wf(),
                self.spec_size() == old(self).spec_size(),
                self.spec_format() == old(self).spec_format(),
                w == old(self).spec_size().width as int,
                h == old(self).spec_size().height as int,
                format == old(self).spec_format(),
                orig == old(self).spec_data(),
                j <= batch.len(),
                self.spec_data() == spec_image_draw(orig, w, h, format, batch@.take(j as int)),
            decreases batch.len() - j,
        {
            let (point, color) = batch[j];
            proof {
                assert(batch@.take(j + 1).drop_last() =~= batch@.take(j as int));
                assert(batch@.take(j + 1).last() == batch@[j as int]);
            }
            if point.x >= 0 && point.y >= 0 && (point.x as u32) < self.size.width && (point.y
                as u32) < self.size.height {
                self.write_pixel(point.x as u32, point.y as u32, color);
            }
            j = j + 1;
        }
        proof {
            assert(batch@.take(batch@.len() as int) =~= batch@);
        }
    }

    /// Overwrites the pixels `x0 <= x < x1` of row `y` with the bytes of a
    /// prepared row template, one pixel's bytes per template chunk.
    fn fill_row_from_template(&mut self, y: u32, x0: u32, x1: u32, template: &Vec<u8>, color: Rgb)
        requires
            old(self).wf(),
            y < old(self).spec_size().height,
            x0 <= x1 <= old(self).spec_size().width,
            template@.len() == (x1 - x0) * spec_bpp(old(self).spec_format()),
            forall|j: int|
                0 <= j < x1 - x0 ==> #[trigger] template@.subrange(
                    j * spec_bpp(old(self).spec_format()),
                    (j + 1) * spec_bpp(old(self).spec_format()),
                ) == spec_color_bytes(old(self).spec_format(), color),
        ensures
            final(self).wf(),
            final(self).spec_size() == old(self).spec_size(),
            final(self).spec_format() == old(self).spec_format(),
            forall|px: int, py: int|
                final(self).spec_in_bounds(px, py) ==> final(self).spec_pixel_bytes(px, py) == (
                if py == y && x0 <= px < x1 {
                    spec_color_bytes(old(self).spec_format(), color)
                } else {
                    old(self).spec_pixel_bytes(px, py)
                }),
    {
        let ghost w = self.spec_size().width as int;
        let ghost h = self.spec_size().height as int;
        let ghost bpp = spec_bpp(self.spec_format());
        let ghost orig = self.spec_data();
        let bpp_exec: usize = match self.format {
            OutputFormat::Gray8 => 1,
            OutputFormat::Rgb888 => 3,
        };
        let _n = self.data.len();
        proof {
            lemma_row_span_start(w, h, bpp, x0 as int, x1 as int, y as int);
        }
        let row0: usize = ((y as usize) * (self.size.width as usize) + (x0 as usize)) * bpp_exec;
        let len = template.len();
        let mut k: usize = 0;
        while k < len
            invariant
                self.wf(),
                self.spec_size() == old(self).spec_size(),
                self.spec_format() == old(self).spec_format(),
                w == self.spec_size().width as int,
                h == self.spec_size().height as int,
                bpp == spec_bpp(self.spec_format()),
                orig.len() == self.spec_data().len(),
                y < h,
                x0 <= x1 <= w,
                len == template@.len(),
                len == (x1 - x0) * bpp,
                row0 == ((y * w) + x0) * bpp,
                row0 + len <= self.spec_data().len(),
                self.spec_data().len() <= usize::MAX,
                k <= len,
                forall|i: int|
                    0 <= i < self.spec_data().len() ==> self.spec_data()[i] == (
                    if row0 <= i < row0 + k {
                        template@[i - row0]
                    } else {
                        orig[i]
                    }),
            decreases len - k,
        {
            self.data.set(row0 + k, template[k]);
            k = k + 1;
        }
        proof {
            assert forall|px: int, py: int|
                self.spec_in_bounds(px, py) implies self.spec_pixel_bytes(px, py) == (
            if py == y && x0 <= px < x1 {
                spec_color_bytes(old(self).spec_format(), color)
            } else {
                old(self).spec_pixel_bytes(px, py)
            }) by {
                lemma_row_span_covers(w, h, bpp, x0 as int, x1 as int, y as int, px, py);
                if py == y && x0 <= px < x1 {
                    let j = px - x0;
                    assert(template@.subrange(j * bpp, (j + 1) * bpp) == spec_color_bytes(
                        old(self).spec_format(),
                        color,
                    ));
                    assert(self.spec_pixel_bytes(px, py) =~= template@.subrange(
                        j * bpp,
                        (j + 1) * bpp,
                    ));
                } else {
                    assert(self.spec_pixel_bytes(px, py) =~= old(self).spec_pixel_bytes(px, py));
                }
            }
        }
    }

    /// Fills a rectangle with a color: every pixel of the rectangle that
    /// lies inside the raster is overwritten, the rest of the raster is
    /// unchanged.
    ///
    /// A large region is filled by preparing one row's worth of repeated
    /// color bytes and writing that template into each destination row; a
    /// small region is filled pixel by pixel.  Both paths produce identical
    /// bytes.
    pub fn fill_solid(&mut self, area: &Rectangle, color: Rgb)
        requires
            old(self).wf(),
        ensures
            final(self).wf(),
            final(self).spec_size() == old(self).spec_size(),
            final(self).spec_format() == old(self).spec_format(),
            forall|x: int, y: int|
                final(self).spec_in_bounds(x, y) ==> final(self).spec_pixel_bytes(x, y) == (
                if area.spec_contains(x, y) {
                    spec_color_bytes(old(self).spec_format(), color)
                } else {
                    old(self).spec_pixel_bytes(x, y)
                }),
    {
        let w = self.size.width;
        let h = self.size.height;
        let left = area.top_left.x as i64;
        let top = area.top_left.y as i64;
        let right = left + area.size.width as i64;
        let bottom = top + area.size.height as i64;
        let x0: u32 = clamp_to(left, w);
        let x1: u32 = clamp_to(right, w);
        let y0: u32 = clamp_to(top, h);
        let y1: u32 = clamp_to(bottom, h);
        if x0 >= x1 || y0 >= y1 {
            return ;
        }
        let ghost orig = *self;
        // For large regions it is more efficient to prepare a row's bytes
        // once and write the whole row at a time.
        let large = x1 - x0 >= 16 && y1 - y0 >= 16;
        if large {
            let template = row_template(self.format(), color, x1 - x0);
            let mut y: u32 = y0;
            while y < y1
                invariant
                    self.wf(),
                    self.spec_size() == old(self).spec_size(),
                    self.spec_format() == old(self).spec_format(),
                    orig == *old(self),
                    w == self.spec_size().width,
                    h == self.spec_size().height,
                    x0 < x1 <= w,
                    y0 <= y <= y1 <= h,
                    template@.len() == (x1 - x0) * spec_bpp(old(self).spec_format()),
                    forall|j: int|
                        0 <= j < x1 - x0 ==> #[trigger] template@.subrange(
                            j * spec_bpp(old(self).spec_format()),
                            (j + 1) * spec_bpp(old(self).spec_format()),
                        ) == spec_color_bytes(old(self).spec_format(), color),
                    forall|px: int, py: int|
                        self.spec_in_bounds(px, py) ==> self.spec_pixel_bytes(px, py) == (
                        if x0 <= px < x1 && y0 <= py < y {
                            spec_color_bytes(old(self).spec_format(), color)
                        } else {
                            old(self).spec_pixel_bytes(px, py)
                        }),
                decreases y1 - y,
            {
                self.fill_row_from_template(y, x0, x1, &template, color);
                y = y + 1;
            }
        } else {
            let mut y: u32 = y0;
            while y < y1
                invariant
                    self.wf(),
                    self.spec_size() == old(self).spec_size(),
                    self.spec_format() == old(self).spec_format(),
                    orig == *old(self),
                    w == self.spec_size().width,
                    h == self.spec_size().height,
                    x0 < x1 <= w,
                    y0 <= y <= y1 <= h,
                    forall|px: int, py: int|
                        self.spec_in_bounds(px, py) ==> self.spec_pixel_bytes(px, py) == (
                        if x0 <= px < x1 && y0 <= py < y {
                            spec_color_bytes(old(self).spec_format(), color)
                        } else {
                            old(self).spec_pixel_bytes(px, py)
                        }),
                decreases y1 - y,
            {
                let mut x: u32 = x0;
                while x < x1
                    invariant
                        self.wf(),
                        self.spec_size() == old(self).spec_size(),
                        self.spec_format() == old(self).spec_format(),
                        orig == *old(self),
                        w == self.spec_size().width,
                        h == self.spec_size().height,
                        x0 < x1 <= w,
                        y0 <= y < y1 <= h,
                        x0 <= x <= x1,
                        forall|px: int, py: int|
                            self.spec_in_bounds(px, py) ==> self.spec_pixel_bytes(px, py) == (
                            if (x0 <= px < x1 && y0 <= py < y) || (py == y && x0 <= px < x) {
                                spec_color_bytes(old(self).spec_format(), color)
                            } else {
                                old(self).spec_pixel_bytes(px, py)
                            }),
                    decreases x1 - x,
                {
                    self.write_pixel(x, y, color);
                    x = x + 1;
                }
                y = y + 1;
            }
        }
    }
}

/// The themed canonical color of the source pixel `(sx, sy)` of a display.
pub open spec fn spec_themed_pixel(
    display: SimulatorDisplay,
    settings: OutputSettings,
    sx: int,
    sy: int,
) -> Rgb {
    settings.theme.spec_convert(display.spec_pixel_at(sx, sy).spec_to_rgb())
}

/// The background of a themed rendering: the theme applied to canonical
/// black.
pub open spec fn spec_background(settings: OutputSettings) -> Rgb {
    settings.theme.spec_convert(Rgb::spec_black())
}

/// The color of the raster point `(dx, dy)`, relative to the top-left
/// corner of a display's rendered area: a point inside a block shows its
/// source pixel's themed color, a gutter point shows the background.
pub open spec fn spec_rendered_rgb(
    display: SimulatorDisplay,
    settings: OutputSettings,
    dx: int,
    dy: int,
) -> Rgb {
    let pitch = settings.spec_pixel_pitch();
    if dx % pitch < settings.scale && dy % pitch < settings.scale {
        spec_themed_pixel(display, settings, dx / pitch, dy / pitch)
    } else {
        spec_background(settings)
    }
}

/// The bytes of the raster point `(ox, oy)` after a display has been drawn
/// at `position`: a rendered color inside the display's area, the prior
/// contents elsewhere.
pub open spec fn spec_after_draw_display(
    prior: OutputImage,
    display: SimulatorDisplay,
    settings: OutputSettings,
    position: Point,
    ox: int,
    oy: int,
) -> Seq<u8> {
    let dx = ox - position.x;
    let dy = oy - position.y;
    let out_w = spec_output_dim(
        display.spec_size().width as int,
        settings.scale as int,
        settings.pixel_spacing as int,
    );
    let out_h = spec_output_dim(
        display.spec_size().height as int,
        settings.scale as int,
        settings.pixel_spacing as int,
    );
    if 0 <= dx < out_w && 0 <= dy < out_h {
        spec_color_bytes(prior.spec_format(), spec_rendered_rgb(display, settings, dx, dy))
    } else {
        prior.spec_pixel_bytes(ox, oy)
    }
}

/// The bytes of the raster point `(ox, oy)` in the middle of drawing a
/// display: the source pixels before `(done_cols, done_rows)` in row-major
/// order already show their themed block, the rest of the display's area is
/// still background, and everything outside the area keeps its prior
/// contents.
spec fn spec_partial_draw(
    prior: OutputImage,
    display: SimulatorDisplay,
    settings: OutputSettings,
    position: Point,
    done_rows: int,
    done_cols: int,
    ox: int,
    oy: int,
) -> Seq<u8> {
    let dx = ox - position.x;
    let dy = oy - position.y;
    let pitch = settings.spec_pixel_pitch();
    let out_w = spec_output_dim(
        display.spec_size().width as int,
        settings.scale as int,
        settings.pixel_spacing as int,
    );
    let out_h = spec_output_dim(
        display.spec_size().height as int,
        settings.scale as int,
        settings.pixel_spacing as int,
    );
    if 0 <= dx < out_w && 0 <= dy < out_h {
        if dx % pitch < settings.scale && dy % pitch < settings.scale && (dy / pitch < done_rows
            || (dy / pitch == done_rows && dx / pitch < done_cols)) {
            spec_color_bytes(
                prior.spec_format(),
                spec_themed_pixel(display, settings, dx / pitch, dy / pitch),
            )
        } else {
            spec_color_bytes(prior.spec_format(), spec_background(settings))
        }
    } else {
        prior.spec_pixel_bytes(ox, oy)
    }
}

/// A raster point that falls on a gutter — its offset within a pitch, on
/// either axis, is at or past the scaled block — always renders as the
/// background color, whatever the display holds.
pub proof fn lemma_gutter_renders_background(
    display: SimulatorDisplay,
    settings: OutputSettings,
    dx: int,
    dy: int,
)
    requires
        1 <= settings.scale,
        dx % settings.spec_pixel_pitch() >= settings.scale || dy % settings.spec_pixel_pitch()
            >= settings.scale,
    ensures
        spec_rendered_rgb(display, settings, dx, dy) == spec_background(settings),
{
}

/// Along one axis, the blocks of the neighbouring source indices `s` and
/// `s + 1` never touch when the spacing is positive: between the end of one
/// block and the start of the next lie exactly `pixel_spacing` offsets, and
/// every raster point at such an offset renders as the background color.
pub proof fn lemma_blocks_separated(settings: OutputSettings, s: int, d: int)
    requires
        1 <= settings.scale,
        0 <= s,
        s * settings.spec_pixel_pitch() + settings.scale <= d < (s + 1)
            * settings.spec_pixel_pitch(),
    ensures
        (s + 1) * settings.spec_pixel_pitch() - (s * settings.spec_pixel_pitch() + settings.scale)
            == settings.pixel_spacing,
        d % settings.spec_pixel_pitch() >= settings.scale,
{
    let pitch = settings.spec_pixel_pitch();
    assert((s + 1) * pitch == s * pitch + pitch) by (nonlinear_arith);
    lemma_fundamental_div_mod_converse(d, pitch, s, d - s * pitch);
}

/// A nonnegative offset below `k * d` has a quotient below `k`.
proof fn lemma_div_lt(x: int, k: int, d: int)
    requires
        0 <= x,
        0 < d,
        x < k * d,
    ensures
        0 <= x / d < k,
{
    lemma_div_pos_is_pos(x, d);
    lemma_fundamental_div_mod(x, d);
    lemma_mod_bound(x, d);
    let q = x / d;
    if q >= k {
        lemma_mul_inequality(k, q, d);
        assert(q * d == d * q) by (nonlinear_arith);
        assert(false);
    }
}

/// A raster offset lies in the block of source index `s` exactly when its
/// quotient by the pitch is `s` and its remainder falls inside the scaled
/// block rather than the following gutter.
proof fn lemma_block_span(pitch: int, scale: int, s: int, d: int)
    requires
        0 < scale <= pitch,
        0 <= s,
        0 <= d,
    ensures
        (s * pitch <= d < s * pitch + scale) <==> (d / pitch == s && d % pitch < scale),
{
    if s * pitch <= d < s * pitch + scale {
        lemma_fundamental_div_mod_converse(d, pitch, s, d - s * pitch);
    }
    if d / pitch == s && d % pitch < scale {
        lemma_fundamental_div_mod(d, pitch);
        lemma_mod_bound(d, pitch);
        assert(pitch * (d / pitch) == s * pitch) by (nonlinear_arith)
            requires
                d / pitch == s,
        ;
    }
}

/// The block of source index `s < n` ends inside the rendered axis length.
proof fn lemma_block_fits(n: int, scale: int, spacing: int, s: int)
    requires
        1 <= scale,
        0 <= spacing,
        0 <= s < n,
    ensures
        s * (scale + spacing) + scale <= spec_output_dim(n, scale, spacing),
        0 <= s * (scale + spacing),
{
    assert(s * (scale + spacing) + scale <= n * scale + (n - 1) * spacing && 0 <= s * (scale
        + spacing)) by (nonlinear_arith)
        requires
            1 <= scale,
            0 <= spacing,
            0 <= s,
            s < n,
    ;
}

/// The rendered axis length of `n` source pixels is at most `n` pitches.
proof fn lemma_dim_le_pitch(n: int, scale: int, spacing: int)
    requires
        1 <= scale,
        0 <= spacing,
        0 <= n,
    ensures
        spec_output_dim(n, scale, spacing) <= n * (scale + spacing),
{
    if n > 0 {
        assert(n * scale + (n - 1) * spacing <= n * (scale + spacing)) by (nonlinear_arith)
            requires
                0 <= spacing,
                0 < n,
        ;
    }
}

impl OutputImage {
    /// Draws a display onto this raster at the given position, using the
    /// given output settings.
    ///
    /// Every logical pixel becomes a scale-by-scale block of its themed
    /// color; the configured spacing is left as background-colored gutters
    /// between blocks; the whole display area is repainted (so a raster can
    /// be refreshed in place), clipped to the raster bounds; and pixels
    /// outside the display area are untouched, so several displays can
    /// share one raster at different positions.
    pub fn draw_display(
        &mut self,
        display: &SimulatorDisplay,
        position: Point,
        settings: &OutputSettings,
    )
        requires
            old(self).wf(),
            display.wf(),
            settings.wf(),
            settings.output_size_fits(display.spec_size()),
            display.spec_size().width <= i32::MAX,
            display.spec_size().height <= i32::MAX,
            position.x + spec_output_dim(
                display.spec_size().width as int,
                settings.scale as int,
                settings.pixel_spacing as int,
            ) <= 0x8000_0000,
            position.y + spec_output_dim(
                display.spec_size().height as int,
                settings.scale as int,
                settings.pixel_spacing as int,
            ) <= 0x8000_0000,
        ensures
            final(self).wf(),
            final(self).spec_size() == old(self).spec_size(),
            final(self).spec_format() == old(self).spec_format(),
            forall|ox: int, oy: int|
                final(self).spec_in_bounds(ox, oy) ==> final(self).spec_pixel_bytes(ox, oy)
                    == spec_after_draw_display(*old(self), *display, *settings, position, ox, oy),
    {
        let ghost prior = *old(self);
        let ghost pitch_g = settings.spec_pixel_pitch();
        let ghost out_w = spec_output_dim(
            display.spec_size().width as int,
            settings.scale as int,
            settings.pixel_spacing as int,
        );
        let ghost out_h = spec_output_dim(
            display.spec_size().height as int,
            settings.scale as int,
            settings.pixel_spacing as int,
        );
        let w = display.size().width;
        let h = display.size().height;
        let out_size = settings.output_size(display.size());
        let display_area = Rectangle::new(position, out_size);
        let background = settings.theme.convert(Rgb::black());
        self.fill_solid(&display_area, background);
        proof {
            assert forall|ox: int, oy: int| self.spec_in_bounds(ox, oy) implies self
                .spec_pixel_bytes(ox, oy) == spec_partial_draw(
                prior,
                *display,
                *settings,
                position,
                0,
                0,
                ox,
                oy,
            ) by {
                assert(display_area.spec_contains(ox, oy) <==> (0 <= ox - position.x < out_w && 0
                    <= oy - position.y < out_h));
            }
        }
        let pitch = settings.pixel_pitch();
        let scale = settings.scale;
        let mut sy: u32 = 0;
        while sy < h
            invariant
                self.wf(),
                self.spec_size() == old(self).spec_size(),
                self.spec_format() == old(self).spec_format(),
                prior == *old(self),
                display.wf(),
                settings.wf(),
                settings.output_size_fits(display.spec_size()),
                w == display.spec_size().width,
                h == display.spec_size().height,
                w <= i32::MAX,
                h <= i32::MAX,
                pitch == pitch_g,
                pitch_g == settings.spec_pixel_pitch(),
                scale == settings.scale,
                out_w == spec_output_dim(w as int, settings.scale as int, settings.pixel_spacing as int),
                out_h == spec_output_dim(h as int, settings.scale as int, settings.pixel_spacing as int),
                position.x + out_w <= 0x8000_0000,
                position.y + out_h <= 0x8000_0000,
                sy <= h,
                forall|ox: int, oy: int|
                    self.spec_in_bounds(ox, oy) ==> self.spec_pixel_bytes(ox, oy)
                        == spec_partial_draw(
                        prior,
                        *display,
                        *settings,
                        position,
                        sy as int,
                        0,
                        ox,
                        oy,
                    ),
            decreases h - sy,
        {
            let mut sx: u32 = 0;
            while sx < w
                invariant
                    self.wf(),
                    self.spec_size() == old(self).spec_size(),
                    self.spec_format() == old(self).spec_format(),
                    prior == *old(self),
                    display.wf(),
                    settings.wf(),
                    settings.output_size_fits(display.spec_size()),
                    w == display.spec_size().width,
                    h == display.spec_size().height,
                    w <= i32::MAX,
                    h <= i32::MAX,
                    pitch == pitch_g,
                    pitch_g == settings.spec_pixel_pitch(),
                    scale == settings.scale,
                    out_w == spec_output_dim(w as int, settings.scale as int, settings.pixel_spacing as int),
                    out_h == spec_output_dim(h as int, settings.scale as int, settings.pixel_spacing as int),
                    position.x + out_w <= 0x8000_0000,
                    position.y + out_h <= 0x8000_0000,
                    sy < h,
                    sx <= w,
                    forall|ox: int, oy: int|
                        self.spec_in_bounds(ox, oy) ==> self.spec_pixel_bytes(ox, oy)
                            == spec_partial_draw(
                            prior,
                            *display,
                            *settings,
                            position,
                            sy as int,
                            sx as int,
                            ox,
                            oy,
                        ),
                decreases w - sx,
            {
                proof {
                    lemma_block_fits(w as int, scale as int, settings.pixel_spacing as int, sx as int);
                    lemma_block_fits(h as int, scale as int, settings.pixel_spacing as int, sy as int);
                    assert((sx as int) * pitch_g + scale <= out_w);
                    assert((sy as int) * pitch_g + scale <= out_h);
                    assert(0 <= (sx as int) * pitch_g);
                    assert(0 <= (sy as int) * pitch_g);
                }
                let source = display.get_pixel(Point::new(sx as i32, sy as i32));
                let themed = settings.theme.convert(source.to_rgb());
                let bx: i64 = position.x as i64 + (sx as i64) * (pitch as i64);
                let by: i64 = position.y as i64 + (sy as i64) * (pitch as i64);
                let block = Rectangle::new(
                    Point::new(bx as i32, by as i32),
                    Size::new(scale, scale),
                );
                let ghost before = *self;
                self.fill_solid(&block, themed);
                proof {
                    assert forall|ox: int, oy: int| self.spec_in_bounds(ox, oy) implies self
                        .spec_pixel_bytes(ox, oy) == spec_partial_draw(
                        prior,
                        *display,
                        *settings,
                        position,
                        sy as int,
                        sx as int + 1,
                        ox,
                        oy,
                    ) by {
                        let dx = ox - position.x;
                        let dy = oy - position.y;
                        if 0 <= dx && 0 <= dy {
                            lemma_block_span(pitch_g, scale as int, sx as int, dx);
                            lemma_block_span(pitch_g, scale as int, sy as int, dy);
                        }
                        if 0 <= dx < out_w && 0 <= dy < out_h {
                            lemma_dim_le_pitch(w as int, scale as int, settings.pixel_spacing as int);
                            lemma_dim_le_pitch(h as int, scale as int, settings.pixel_spacing as int);
                            lemma_div_lt(dx, w as int, pitch_g);
                            lemma_div_lt(dy, h as int, pitch_g);
                        }
                        assert(block.spec_contains(ox, oy) <==> ((sx as int) * pitch_g <= dx < (
                        sx as int) * pitch_g + scale && (sy as int) * pitch_g <= dy < (sy as int)
                            * pitch_g + scale));
                    }
                }
                sx = sx + 1;
            }
            proof {
                assert forall|ox: int, oy: int| self.spec_in_bounds(ox, oy) implies self
                    .spec_pixel_bytes(ox, oy) == spec_partial_draw(
                    prior,
                    *display,
                    *settings,
                    position,
                    sy as int + 1,
                    0,
                    ox,
                    oy,
                ) by {
                    let dx = ox - position.x;
                    let dy = oy - position.y;
                    if 0 <= dx < out_w && 0 <= dy < out_h {
                        lemma_dim_le_pitch(w as int, scale as int, settings.pixel_spacing as int);
                        lemma_dim_le_pitch(h as int, scale as int, settings.pixel_spacing as int);
                        lemma_div_lt(dx, w as int, pitch_g);
                        lemma_div_lt(dy, h as int, pitch_g);
                    }
                }
            }
            sy = sy + 1;
        }
        proof {
            assert forall|ox: int, oy: int| self.spec_in_bounds(ox, oy) implies self
                .spec_pixel_bytes(ox, oy) == spec_after_draw_display(
                prior,
                *display,
                *settings,
                position,
                ox,
                oy,
            ) by {
                let dx = ox - position.x;
                let dy = oy - position.y;
                if 0 <= dx < out_w && 0 <= dy < out_h {
                    lemma_dim_le_pitch(w as int, scale as int, settings.pixel_spacing as int);
                    lemma_dim_le_pitch(h as int, scale as int, settings.pixel_spacing as int);
                    lemma_div_lt(dx, w as int, pitch_g);
                    lemma_div_lt(dy, h as int, pitch_g);
                    lemma_mod_bound(dx, pitch_g);
                    lemma_mod_bound(dy, pitch_g);
                }
            }
        }
    }
}

/// Builds one row's worth of repeated color bytes: `count` pixels' bytes,
/// each chunk the color's bytes in the given layout.
fn row_template(format: OutputFormat, color: Rgb, count: u32) -> (t: Vec<u8>)
    ensures
        t@.len() == count * spec_bpp(format),
        forall|j: int|
            0 <= j < count ==> #[trigger] t@.subrange(
                j * spec_bpp(format),
                (j + 1) * spec_bpp(format),
            ) == spec_color_bytes(format, color),
{
    let mut t: Vec<u8> = Vec::new();
    let mut j: u32 = 0;
    while j < count
        invariant
            j <= count,
            t@.len() == j * spec_bpp(format),
            forall|i: int|
                0 <= i < j ==> #[trigger] t@.subrange(
                    i * spec_bpp(format),
                    (i + 1) * spec_bpp(format),
                ) == spec_color_bytes(format, color),
        decreases count - j,
    {
        let ghost prev = t@;
        match format {
            OutputFormat::Gray8 => {
                t.push(luma(color));
            },
            OutputFormat::Rgb888 => {
                t.push(color.r);
                t.push(color.g);
                t.push(color.b);
            },
        }
        proof {
            let bpp = spec_bpp(format);
            assert(t@.subrange(j as int * bpp, (j as int + 1) * bpp) =~= spec_color_bytes(
                format,
                color,
            ));
            assert forall|i: int| 0 <= i < j as int + 1 implies #[trigger] t@.subrange(
                i * bpp,
                (i + 1) * bpp,
            ) == spec_color_bytes(format, color) by {
                if i < j as int {
                    assert((i + 1) * bpp <= j as int * bpp) by (nonlinear_arith)
                        requires
                            i + 1 <= j as int,
                            0 <= bpp,
                    ;
                    assert(0 <= i * bpp) by (nonlinear_arith)
                        requires
                            0 <= i,
                            0 <= bpp,
                    ;
                    assert(t@.subrange(i * bpp, (i + 1) * bpp) =~= prev.subrange(
                        i * bpp,
                        (i + 1) * bpp,
                    ));
                }
            }
        }
        j = j + 1;
    }
    t
}

/// The byte range of the row span `x0 ..= x1` of row `y` starts inside the
/// buffer and ends within it.
proof fn lemma_row_span_start(w: int, h: int, bpp: int, x0: int, x1: int, y: int)
    requires
        0 <= x0 <= x1 <= w,
        0 <= y < h,
        1 <= bpp,
    ensures
        0 <= y * w,
        ((y * w) + x0) * bpp + (x1 - x0) * bpp <= w * h * bpp,
        0 <= ((y * w) + x0) * bpp,
        w * h <= w * h * bpp,
{
    assert(0 <= y * w && ((y * w) + x0) * bpp + (x1 - x0) * bpp <= w * h * bpp && 0 <= ((y * w)
        + x0) * bpp && w * h <= w * h * bpp) by (nonlinear_arith)
        requires
            0 <= x0 <= x1 <= w,
            0 <= y < h,
            1 <= bpp,
    ;
}

/// How the byte range of one pixel relates to the byte range of a row
/// span: a pixel on the span has its bytes inside the span's range, at the
/// offset of its chunk; any other pixel's bytes lie entirely outside it.
proof fn lemma_row_span_covers(
    w: int,
    h: int,
    bpp: int,
    x0: int,
    x1: int,
    y: int,
    px: int,
    py: int,
)
    requires
        0 <= x0 <= x1 <= w,
        0 <= y < h,
        1 <= bpp,
        0 <= px < w,
        0 <= py < h,
    ensures
        ({
            let row0 = ((y * w) + x0) * bpp;
            let row_end = ((y * w) + x1) * bpp;
            let base = ((py * w) + px) * bpp;
            &&& row_end - row0 == (x1 - x0) * bpp
            &&& 0 <= base && base + bpp <= w * h * bpp
            &&& (py == y && x0 <= px < x1) ==> (row0 <= base && base + bpp <= row_end && base
                - row0 == (px - x0) * bpp)
            &&& !(py == y && x0 <= px < x1) ==> (base + bpp <= row0 || base >= row_end)
        }),
{
    assert(({
        let row0 = ((y * w) + x0) * bpp;
        let row_end = ((y * w) + x1) * bpp;
        let base = ((py * w) + px) * bpp;
        &&& row_end - row0 == (x1 - x0) * bpp
        &&& 0 <= base && base + bpp <= w * h * bpp
        &&& (py == y && x0 <= px < x1) ==> (row0 <= base && base + bpp <= row_end && base - row0
            == (px - x0) * bpp)
        &&& !(py == y && x0 <= px < x1) ==> (base + bpp <= row0 || base >= row_end)
    })) by (nonlinear_arith)
        requires
            0 <= x0 <= x1 <= w,
            0 <= y < h,
            1 <= bpp,
            0 <= px < w,
            0 <= py < h,
    ;
}

/// Clamps an (arbitrarily signed) coordinate into `0 ..= limit`.
fn clamp_to(v: i64, limit: u32) -> (r: u32)
    ensures
        r == if v < 0 {
            0int
        } else if v > limit {
            limit as int
        } else {
            v as int
        },
{
    if v < 0 {
        0
    } else if v > limit as i64 {
        limit
    } else {
        v as u32
    }
}

/// The byte range of a pixel inside a `w`-by-`h` raster lies inside the
/// buffer.
proof fn lemma_byte_base(w: int, h: int, bpp: int, x: int, y: int)
    requires
        0 <= x < w,
        0 <= y < h,
        1 <= bpp,
    ensures
        0 <= spec_index(w, x, y) * bpp,
        spec_index(w, x, y) * bpp + bpp <= w * h * bpp,
        0 <= y * w,
        y * w + x < w * h,
        w * h <= w * h * bpp,
{
    assert(0 <= y * w && y * w + x < w * h && 0 <= (y * w + x) * bpp && (y * w + x) * bpp + bpp
        <= w * h * bpp && w * h <= w * h * bpp) by (nonlinear_arith)
        requires
            0 <= x < w,
            0 <= y < h,
            1 <= bpp,
    ;
}

/// Distinct pixels of a raster occupy disjoint byte ranges.
proof fn lemma_pixel_ranges_disjoint(w: int, h: int, bpp: int, x1: int, y1: int, x2: int, y2: int)
    requires
        0 <= x1 < w,
        0 <= y1 < h,
        0 <= x2 < w,
        0 <= y2 < h,
        1 <= bpp,
        !(x1 == x2 && y1 == y2),
    ensures
        spec_index(w, x1, y1) * bpp + bpp <= spec_index(w, x2, y2) * bpp || spec_index(w, x2, y2)
            * bpp + bpp <= spec_index(w, x1, y1) * bpp,
{
    assert((y1 * w + x1 + 1) * bpp <= (y2 * w + x2) * bpp || (y2 * w + x2 + 1) * bpp <= (y1 * w
        + x1) * bpp) by (nonlinear_arith)
        requires
            0 <= x1 < w,
            0 <= y1 < h,
            0 <= x2 < w,
            0 <= y2 < h,
            1 <= bpp,
            !(x1 == x2 && y1 == y2),
    ;
    assert((y1 * w + x1 + 1) * bpp == (y1 * w + x1) * bpp + bpp) by (nonlinear_arith);
    assert((y2 * w + x2 + 1) * bpp == (y2 * w + x2) * bpp + bpp) by (nonlinear_arith);
}

/// The byte count of a raster is the product of its pixel count and its
/// bytes per pixel, in any association.
proof fn lemma_area_bytes(w: int, h: int, bpp: int)
    requires
        0 <= w,
        0 <= h,
        1 <= bpp,
    ensures
        (w * h) * bpp == w * h * bpp,
        w * h >= 0,
{
    assert((w * h) * bpp == w * h * bpp && w * h >= 0) by (nonlinear_arith)
        requires
            0 <= w,
            0 <= h,
            1 <= bpp,
    ;
}

} // verus!
