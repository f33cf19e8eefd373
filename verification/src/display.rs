//! The simulated display: a dense, row-major framebuffer of logical pixels.
//!
//! The framebuffer owns `width * height` pixel values, all of one native
//! encoding.  Reads are only allowed inside the bounds; writes outside the
//! bounds are silently dropped, so drawing primitives may extend past the
//! edges.  Within one batch of writes the last write to a coordinate wins.

use vstd::prelude::*;
use crate::codec::{png_bytes_of, png_decode, spec_rgb_expand, CodecError};
use crate::color::{Color, ColorFormat, Rgb};
use crate::geometry::{Point, Rectangle, Size};
use crate::output_image::{spec_bpp, spec_color_bytes, spec_rendered_rgb, OutputFormat, OutputImage};
use crate::output_settings::{spec_output_dim, OutputSettings};

verus! {

/// The logical pixels that decoded RGB bytes quantize to in a given
/// encoding: one pixel for every three bytes, in order.
pub open spec fn spec_pixels_from_rgb(rgb: Seq<u8>, format: ColorFormat) -> Seq<Color> {
    Seq::new(
        (rgb.len() / 3) as nat,
        |i: int| Color::spec_from_rgb(
            format,
            Rgb { r: rgb[3 * i], g: rgb[3 * i + 1], b: rgb[3 * i + 2] },
        ),
    )
}

/// The index of the pixel at `(x, y)` in a row-major buffer of width `w`.
pub open spec fn spec_index(w: int, x: int, y: int) -> int {
    y * w + x
}

/// The contents of a row-major buffer after one batch of writes: the writes
/// are applied in order, writes outside the bounds are dropped, and the last
/// write to a coordinate wins.
pub open spec fn spec_draw(
    s: Seq<Color>,
    w: int,
    h: int,
    batch: Seq<(Point, Color)>,
) -> Seq<Color>
    decreases batch.len(),
{
    if batch.len() == 0 {
        s
    } else {
        let prev = spec_draw(s, w, h, batch.drop_last());
        let p = batch.last().0;
        let c = batch.last().1;
        if 0 <= p.x < w && 0 <= p.y < h {
            prev.update(spec_index(w, p.x as int, p.y as int), c)
        } else {
            prev
        }
    }
}

/// The last color a batch writes to the coordinate `(x, y)`, if any write
/// targets it.
pub open spec fn spec_last_write(batch: Seq<(Point, Color)>, x: int, y: int) -> Option<Color>
    decreases batch.len(),
{
    if batch.len() == 0 {
        None
    } else if batch.last().0.x == x && batch.last().0.y == y {
        Some(batch.last().1)
    } else {
        spec_last_write(batch.drop_last(), x, y)
    }
}

/// Simulator display.
#[derive(Debug, Clone, PartialEq, Eq)]
pub struct SimulatorDisplay {
    format: ColorFormat,
    size: Size,
    pixels: Vec<Color>,
}

impl SimulatorDisplay {
    /// The native encoding of this display's pixels.
    pub closed spec fn spec_format(self) -> ColorFormat {
        self.format
    }

    /// The size of this display.
    pub closed spec fn spec_size(self) -> Size {
        self.size
    }

    /// The row-major pixel contents of this display.
    pub closed spec fn spec_pixels(self) -> Seq<Color> {
        self.pixels@
    }

    /// The display invariant: the buffer holds exactly `width * height`
    /// pixels, and every pixel is a valid value of the display's encoding.
    pub open spec fn wf(self) -> bool {
        &&& self.spec_pixels().len() == self.spec_size().width * self.spec_size().height
        &&& forall|i: int|
            0 <= i < self.spec_pixels().len() ==> (#[trigger] self.spec_pixels()[i]).wf()
                && self.spec_pixels()[i].spec_format() == self.spec_format()
    }

    /// Whether `(x, y)` lies inside the display.
    pub open spec fn spec_in_bounds(self, x: int, y: int) -> bool {
        0 <= x < self.spec_size().width && 0 <= y < self.spec_size().height
    }

    /// The pixel stored at `(x, y)`.
    pub open spec fn spec_pixel_at(self, x: int, y: int) -> Color {
        self.spec_pixels()[spec_index(self.spec_size().width as int, x, y)]
    }

    /// Creates a new display filled with a given color, whose encoding also
    /// becomes the display's encoding.
    ///
    /// A zero-area size is permitted and yields a degenerate display that
    /// holds no pixels.
    pub fn with_default_color(size: Size, default_color: Color) -> (r: SimulatorDisplay)
        requires
            size.width * size.height <= usize::MAX,
            default_color.wf(),
        ensures
            r.wf(),
            r.spec_size() == size,
            r.spec_format() == default_color.spec_format(),
            forall|i: int| 0 <= i < r.spec_pixels().len() ==> r.spec_pixels()[i] == default_color,
    {
        let pixel_count: usize = (size.width as usize) * (size.height as usize);
        let mut pixels: Vec<Color> = Vec::new();
        while pixels.len() < pixel_count
            invariant
                pixels.len() <= pixel_count,
                forall|i: int| 0 <= i < pixels.len() ==> pixels[i] == default_color,
                default_color.wf(),
            decreases pixel_count - pixels.len(),
        {
            pixels.push(default_color);
        }
        SimulatorDisplay { format: default_color.format(), size, pixels }
    }

    /// Creates a new display of the given encoding, filled with that
    /// encoding's "off" color.
    pub fn new(size: Size, format: ColorFormat) -> (r: SimulatorDisplay)
        requires
            size.width * size.height <= usize::MAX,
        ensures
            r.wf(),
            r.spec_size() == size,
            r.spec_format() == format,
            forall|i: int|
                0 <= i < r.spec_pixels().len() ==> r.spec_pixels()[i] == Color::spec_off(format),
    {
        Self::with_default_color(size, Color::off(format))
    }

    /// Returns the size of the display.
    pub fn size(&self) -> (r: Size)
        ensures
            r == self.spec_size(),
    {
        self.size
    }

    /// Returns the native encoding of the display.
    pub fn format(&self) -> (r: ColorFormat)
        ensures
            r == self.spec_format(),
    {
        self.format
    }

    /// The row-major index of an in-bounds point, or `None` for a point
    /// outside the display.
    fn point_to_index(&self, point: Point) -> (r: Option<usize>)
        requires
            self.wf(),
        ensures
            match r {
                Some(i) => self.spec_in_bounds(point.x as int, point.y as int) && i == spec_index(
                    self.spec_size().width as int,
                    point.x as int,
                    point.y as int,
                ),
                None => !self.spec_in_bounds(point.x as int, point.y as int),
            },
    {
        if point.x >= 0 && point.y >= 0 {
            let x = point.x as u32;
            let y = point.y as u32;
            if x < self.size.width && y < self.size.height {
                let _n = self.pixels.len();
                proof {
                    lemma_index_in_range(
                        self.size.width as int,
                        self.size.height as int,
                        x as int,
                        y as int,
                    );
                }
                return Some((y as usize) * (self.size.width as usize) + (x as usize));
            }
        }
        None
    }

    /// Returns the color of the pixel at a point, which must lie inside the
    /// display.
    pub fn get_pixel(&self, point: Point) -> (r: Color)
        requires
            self.wf(),
            self.spec_in_bounds(point.x as int, point.y as int),
        ensures
            r == self.spec_pixel_at(point.x as int, point.y as int),
            r.wf(),
            r.spec_format() == self.spec_format(),
    {
        let index = self.point_to_index(point).unwrap();
        proof {
            lemma_index_in_range(
                self.spec_size().width as int,
                self.spec_size().height as int,
                point.x as int,
                point.y as int,
            );
        }
        self.pixels[index]
    }

    /// Draws a batch of `(point, color)` pairs: in-bounds points are
    /// overwritten in order (the last write to a point wins) and
    /// out-of-bounds points are silently dropped.
    pub fn draw_pixels(&mut self, batch: &Vec<(Point, Color)>)
        requires
            old(self).wf(),
            forall|j: int|
                0 <= j < batch.len() ==> (#[trigger] batch[j].1).wf() && batch[j].1.spec_format()
                    == old(self).spec_format(),
        ensures
            final(self).wf(),
            final(self).spec_size() == old(self).spec_size(),
            final(self).spec_format() == old(self).spec_format(),
            final(self).spec_pixels() == spec_draw(
                old(self).spec_pixels(),
                old(self).spec_size().width as int,
                old(self).spec_size().height as int,
                batch@,
            ),
    {
        let ghost orig = self.spec_pixels();
        let ghost w = self.spec_size().width as int;
        let ghost h = self.spec_size().height as int;
        let mut j: usize = 0;
        while j < batch.len()
            invariant
                self.wf(),
                self.spec_size() == old(self).spec_size(),
                self.spec_format() == old(self).spec_format(),
                w == old(self).spec_size().width as int,
                h == old(self).spec_size().height as int,
                j <= batch.len(),
                forall|k: int|
                    0 <= k < batch.len() ==> (#[trigger] batch[k].1).wf() && batch[k].1.spec_format()
                        == old(self).spec_format(),
                self.spec_pixels() == spec_draw(orig, w, h, batch@.take(j as int)),
            decreases batch.len() - j,
        {
            let (point, color) = batch[j];
            proof {
                assert(batch@.take(j + 1).drop_last() =~= batch@.take(j as int));
                assert(batch@.take(j + 1).last() == batch@[j as int]);
            }
            match self.point_to_index(point) {
                Some(index) => {
                    proof {
                        lemma_index_in_range(w, h, point.x as int, point.y as int);
                    }
                    self.pixels.set(index, color);
                },
                None => {},
            }
            j = j + 1;
        }
        proof {
            assert(batch@.take(batch@.len() as int) =~= batch@);
        }
    }

    /// Fills a rectangle with a color: every pixel of the rectangle that
    /// lies inside the display is overwritten, the rest of the display is
    /// unchanged.
    pub fn fill_solid(&mut self, area: &Rectangle, color: Color)
        requires
            old(self).wf(),
            color.wf(),
            color.spec_format() == old(self).spec_format(),
        ensures
            final(self).wf(),
            final(self).spec_size() == old(self).spec_size(),
            final(self).spec_format() == old(self).spec_format(),
            forall|x: int, y: int|
                final(self).spec_in_bounds(x, y) ==> final(self).spec_pixel_at(x, y) == (
                if area.spec_contains(x, y) {
                    color
                } else {
                    old(self).spec_pixel_at(x, y)
                }),
    {
        let w = self.size.width;
        let h = self.size.height;
        let left = area.top_left.x as i64;
        let top = area.top_left.y as i64;
        let right = left + area.size.width as i64;
        let bottom = top + area.size.height as i64;
        let x0: u32 = clamp_to(left, w);
        let x1: u32 = clamp_to(right, w);
        let y0: u32 = clamp_to(top, h);
        let y1: u32 = clamp_to(bottom, h);
        if x0 >= x1 || y0 >= y1 {
            proof {
                assert forall|x: int, y: int|
                    self.spec_in_bounds(x, y) implies !area.spec_contains(x, y) by {}
            }
            return ;
        }
        let ghost orig = self.spec_pixels();
        let mut y: u32 = y0;
        while y < y1
            invariant
                self.wf(),
                self.spec_size() == old(self).spec_size(),
                self.spec_format() == old(self).spec_format(),
                color.wf(),
                color.spec_format() == old(self).spec_format(),
                w == self.spec_size().width,
                h == self.spec_size().height,
                x0 < x1 <= w,
                y0 <= y <= y1 <= h,
                forall|px: int, py: int|
                    self.spec_in_bounds(px, py) ==> self.spec_pixel_at(px, py) == (
                    if x0 <= px < x1 && y0 <= py < y {
                        color
                    } else {
                        orig[spec_index(w as int, px, py)]
                    }),
            decreases y1 - y,
        {
            self.fill_row(y, x0, x1, color);
            y = y + 1;
        }
        proof {
            assert forall|x: int, y2: int|
                self.spec_in_bounds(x, y2) implies self.spec_pixel_at(x, y2) == (
            if area.spec_contains(x, y2) {
                color
            } else {
                old(self).spec_pixel_at(x, y2)
            }) by {
                assert(area.spec_contains(x, y2) <==> (x0 <= x < x1 && y0 <= y2 < y1));
            }
        }
    }

    /// Overwrites the pixels `x0 <= x < x1` of row `y` with a color.
    fn fill_row(&mut self, y: u32, x0: u32, x1: u32, color: Color)
        requires
            old(self).wf(),
            color.wf(),
            color.spec_format() == old(self).spec_format(),
            y < old(self).spec_size().height,
            x0 <= x1 <= old(self).spec_size().width,
        ensures
            final(self).wf(),
            final(self).spec_size() == old(self).spec_size(),
            final(self).spec_format() == old(self).spec_format(),
            forall|px: int, py: int|
                final(self).spec_in_bounds(px, py) ==> final(self).spec_pixel_at(px, py) == (
                if py == y && x0 <= px < x1 {
                    color
                } else {
                    old(self).spec_pixel_at(px, py)
                }),
    {
        let ghost orig = self.spec_pixels();
        let ghost w = self.spec_size().width as int;
        let ghost h = self.spec_size().height as int;
        let _n = self.pixels.len();
        let mut x: u32 = x0;
        while x < x1
            invariant
                self.wf(),
                self.spec_size() == old(self).spec_size(),
                self.spec_format() == old(self).spec_format(),
                color.wf(),
                color.spec_format() == old(self).spec_format(),
                w == self.spec_size().width as int,
                h == self.spec_size().height as int,
                w * h <= usize::MAX,
                y < h,
                x0 <= x <= x1 <= w,
                self.spec_pixels().len() == orig.len(),
                forall|i: int|
                    0 <= i < orig.len() ==> self.spec_pixels()[i] == (
                    if spec_index(w, x0 as int, y as int) <= i < spec_index(w, x as int, y as int) {
                        color
                    } else {
                        orig[i]
                    }),
            decreases x1 - x,
        {
            proof {
                lemma_index_in_range(w, h, x as int, y as int);
            }
            let index: usize = (y as usize) * (self.size.width as usize) + (x as usize);
            self.pixels.set(index, color);
            x = x + 1;
        }
        proof {
            assert forall|px: int, py: int|
                self.spec_in_bounds(px, py) implies self.spec_pixel_at(px, py) == (
            if py == y && x0 <= px < x1 {
                color
            } else {
                old(self).spec_pixel_at(px, py)
            }) by {
                lemma_index_in_range(w, h, px, py);
                lemma_index_unique(w, px, py, x0 as int, x1 as int, y as int);
            }
        }
    }
}

impl SimulatorDisplay {
    /// Whether this display and another have the same size and, pixel for
    /// pixel, the same content.
    pub fn content_equals(&self, other: &SimulatorDisplay) -> (r: bool)
        requires
            self.wf(),
            other.wf(),
        ensures
            r <==> (self.spec_size() == other.spec_size() && self.spec_pixels()
                =~= other.spec_pixels()),
    {
        if self.size.width != other.size.width || self.size.height != other.size.height {
            return false;
        }
        let n = self.pixels.len();
        let mut i: usize = 0;
        while i < n
            invariant
                n == self.spec_pixels().len(),
                n == other.spec_pixels().len(),
                i <= n,
                forall|k: int| 0 <= k < i ==> self.spec_pixels()[k] == other.spec_pixels()[k],
            decreases n - i,
        {
            if self.pixels[i] != other.pixels[i] {
                return false;
            }
            i = i + 1;
        }
        true
    }

    /// Compares the content of this display with another display of the
    /// same size and encoding.
    ///
    /// If both displays are equal `None` is returned, otherwise a difference
    /// image is returned: a monochrome display in which exactly the pixels
    /// that differ are "on".
    pub fn diff(&self, other: &SimulatorDisplay) -> (r: Option<SimulatorDisplay>)
        requires
            self.wf(),
            other.wf(),
            self.spec_size() == other.spec_size(),
            self.spec_format() == other.spec_format(),
        ensures
            (r is None) <==> self.spec_pixels() =~= other.spec_pixels(),
            r matches Some(mask) ==> {
                &&& mask.wf()
                &&& mask.spec_size() == self.spec_size()
                &&& mask.spec_format() == ColorFormat::Binary
                &&& mask.spec_pixels().len() == self.spec_pixels().len()
                &&& forall|i: int|
                    0 <= i < mask.spec_pixels().len() ==> mask.spec_pixels()[i] == Color::Binary(
                        self.spec_pixels()[i] != other.spec_pixels()[i],
                    )
            },
    {
        let n = self.pixels.len();
        let mut pixels: Vec<Color> = Vec::new();
        let mut any_on = false;
        let mut i: usize = 0;
        while i < n
            invariant
                n == self.spec_pixels().len(),
                n == other.spec_pixels().len(),
                i <= n,
                pixels.len() == i,
                forall|k: int|
                    0 <= k < i ==> pixels[k] == Color::Binary(
                        self.spec_pixels()[k] != other.spec_pixels()[k],
                    ),
                any_on <==> exists|k: int|
                    0 <= k < i && self.spec_pixels()[k] != other.spec_pixels()[k],
            decreases n - i,
        {
            let differs = self.pixels[i] != other.pixels[i];
            pixels.push(Color::Binary(differs));
            if differs {
                any_on = true;
            }
            i = i + 1;
        }
        if any_on {
            Some(SimulatorDisplay { format: ColorFormat::Binary, size: self.size, pixels })
        } else {
            proof {
                assert(self.spec_pixels() =~= other.spec_pixels());
            }
            None
        }
    }
}

/// Drawing a batch never changes the number of pixels in the buffer.
pub proof fn lemma_draw_len(s: Seq<Color>, w: int, h: int, batch: Seq<(Point, Color)>)
    requires
        s.len() == w * h,
    ensures
        spec_draw(s, w, h, batch).len() == s.len(),
    decreases batch.len(),
{
    if batch.len() > 0 {
        lemma_draw_len(s, w, h, batch.drop_last());
        let p = batch.last().0;
        if 0 <= p.x < w && 0 <= p.y < h {
            lemma_index_in_range(w, h, p.x as int, p.y as int);
        }
    }
}

/// Drawing a batch and then reading a pixel inside the display returns the
/// last color the batch wrote to that pixel, or the prior content when no
/// write targeted it.  In particular, drawing a valid `(point, color)` pair
/// makes an immediate read of `point` return `color`.
pub proof fn lemma_draw_then_get(
    s: Seq<Color>,
    w: int,
    h: int,
    batch: Seq<(Point, Color)>,
    x: int,
    y: int,
)
    requires
        s.len() == w * h,
        0 <= x < w,
        0 <= y < h,
    ensures
        spec_draw(s, w, h, batch)[spec_index(w, x, y)] == match spec_last_write(batch, x, y) {
            Some(c) => c,
            None => s[spec_index(w, x, y)],
        },
    decreases batch.len(),
{
    lemma_index_in_range(w, h, x, y);
    lemma_draw_len(s, w, h, batch);
    if batch.len() == 0 {
    } else {
        lemma_draw_len(s, w, h, batch.drop_last());
        lemma_draw_then_get(s, w, h, batch.drop_last(), x, y);
        let p = batch.last().0;
        if 0 <= p.x < w && 0 <= p.y < h {
            lemma_index_in_range(w, h, p.x as int, p.y as int);
            if p.x == x && p.y == y {
            } else {
                assert(spec_index(w, p.x as int, p.y as int) != spec_index(w, x, y))
                    by (nonlinear_arith)
                    requires
                        0 <= x < w,
                        0 <= p.x < w,
                        0 <= y,
                        0 <= p.y,
                        !(p.x == x && p.y == y),
                ;
            }
        }
    }
}

/// When exactly one position differs between two equally sized pixel
/// buffers, the difference mask that [`SimulatorDisplay::diff`] returns is
/// "on" at exactly that position: it is `Binary(true)` there and
/// `Binary(false)` everywhere else.
pub proof fn lemma_diff_single_difference(a: Seq<Color>, b: Seq<Color>, mask: Seq<Color>, j: int)
    requires
        a.len() == b.len(),
        mask.len() == a.len(),
        0 <= j < a.len(),
        a[j] != b[j],
        forall|i: int| 0 <= i < a.len() && i != j ==> a[i] == b[i],
        forall|i: int| 0 <= i < mask.len() ==> mask[i] == Color::Binary(a[i] != b[i]),
    ensures
        mask[j] == Color::Binary(true),
        forall|i: int| 0 <= i < mask.len() && i != j ==> mask[i] == Color::Binary(false),
{
}

/// A batch whose points all lie outside the display leaves every pixel
/// unchanged, and drawing it does not fault.
pub proof fn lemma_draw_out_of_bounds(s: Seq<Color>, w: int, h: int, batch: Seq<(Point, Color)>)
    requires
        forall|j: int|
            0 <= j < batch.len() ==> !(0 <= (#[trigger] batch[j].0).x < w && 0 <= batch[j].0.y < h),
    ensures
        spec_draw(s, w, h, batch) == s,
    decreases batch.len(),
{
    if batch.len() > 0 {
        assert(batch.last() == batch[batch.len() - 1]);
        lemma_draw_out_of_bounds(s, w, h, batch.drop_last());
    }
}

impl SimulatorDisplay {
    /// Whether a raster for this display under these settings fits the
    /// machine limits of the renderer: the output size fits in 32 bits per
    /// axis and in a signed 32-bit coordinate, the display coordinates fit
    /// in signed 32 bits, and the raster's byte count fits in a `usize`.
    pub open spec fn renderable(self, settings: OutputSettings, format: OutputFormat) -> bool {
        let out_w = spec_output_dim(
            self.spec_size().width as int,
            settings.scale as int,
            settings.pixel_spacing as int,
        );
        let out_h = spec_output_dim(
            self.spec_size().height as int,
            settings.scale as int,
            settings.pixel_spacing as int,
        );
        &&& settings.wf()
        &&& self.spec_size().width <= i32::MAX
        &&& self.spec_size().height <= i32::MAX
        &&& out_w <= 0x8000_0000 - 1
        &&& out_h <= 0x8000_0000 - 1
        &&& out_w * out_h * spec_bpp(format) <= usize::MAX
    }

    /// Converts the display contents into an RGB output image under the
    /// given output settings: every pixel of the result shows its rendered
    /// color.
    pub fn to_rgb_output_image(&self, output_settings: &OutputSettings) -> (r: OutputImage)
        requires
            self.wf(),
            self.renderable(*output_settings, OutputFormat::Rgb888),
        ensures
            r.wf(),
            r.spec_format() == OutputFormat::Rgb888,
            r.spec_size() == output_settings.spec_output_size(self.spec_size()),
            forall|ox: int, oy: int|
                r.spec_in_bounds(ox, oy) ==> r.spec_pixel_bytes(ox, oy) == spec_color_bytes(
                    OutputFormat::Rgb888,
                    spec_rendered_rgb(*self, *output_settings, ox, oy),
                ),
    {
        self.to_output_image(output_settings, OutputFormat::Rgb888)
    }

    /// Converts the display contents into a grayscale output image under
    /// the given output settings: every pixel of the result shows the
    /// grayscale intensity of its rendered color.
    pub fn to_grayscale_output_image(&self, output_settings: &OutputSettings) -> (r: OutputImage)
        requires
            self.wf(),
            self.renderable(*output_settings, OutputFormat::Gray8),
        ensures
            r.wf(),
            r.spec_format() == OutputFormat::Gray8,
            r.spec_size() == output_settings.spec_output_size(self.spec_size()),
            forall|ox: int, oy: int|
                r.spec_in_bounds(ox, oy) ==> r.spec_pixel_bytes(ox, oy) == spec_color_bytes(
                    OutputFormat::Gray8,
                    spec_rendered_rgb(*self, *output_settings, ox, oy),
                ),
    {
        self.to_output_image(output_settings, OutputFormat::Gray8)
    }

    fn to_output_image(&self, output_settings: &OutputSettings, format: OutputFormat) -> (r:
        OutputImage)
        requires
            self.wf(),
            self.renderable(*output_settings, format),
        ensures
            r.wf(),
            r.spec_format() == format,
            r.spec_size() == output_settings.spec_output_size(self.spec_size()),
            forall|ox: int, oy: int|
                r.spec_in_bounds(ox, oy) ==> r.spec_pixel_bytes(ox, oy) == spec_color_bytes(
                    format,
                    spec_rendered_rgb(*self, *output_settings, ox, oy),
                ),
    {
        let out_size = output_settings.output_size(self.size());
        let mut output = OutputImage::new(out_size, format);
        output.draw_display(self, Point::new(0, 0), output_settings);
        output
    }
}

impl SimulatorDisplay {
    /// Decodes a PNG container into a display of the given encoding, at RGB
    /// fidelity: each decoded RGB pixel is quantized into the encoding.
    /// Decoding the PNG that [`OutputImage::encode_png`] produced restores
    /// the encoded raster's pixel content and dimensions.
    pub fn from_png_data(bytes: &Vec<u8>, format: ColorFormat) -> (r: Result<
        SimulatorDisplay,
        CodecError,
    >)
        ensures
            r matches Ok(d) ==> d.wf() && d.spec_format() == format,
            forall|p: Seq<u8>, w: u32, h: u32, c: u32|
                (c == 1 || c == 3) && w > 0 && h > 0 && p.len() == w * h * c && bytes@
                    == #[trigger] png_bytes_of(p, w, h, c) ==> (r matches Ok(d) && d.spec_size()
                    == (Size { width: w, height: h }) && d.spec_pixels() == spec_pixels_from_rgb(
                    spec_rgb_expand(p, c),
                    format,
                )),
    {
        let (rgb, w, h) = match png_decode(bytes) {
            Ok(dec) => dec,
            Err(_) => {
                return Err(CodecError);
            },
        };
        let n = rgb.len();
        proof {
            let area = (w as int) * (h as int);
            assert(0 <= area && area <= area * 3) by (nonlinear_arith)
                requires
                    area == (w as int) * (h as int),
                    0 <= w as int,
                    0 <= h as int,
            ;
            vstd::arithmetic::div_mod::lemma_div_multiples_vanish(area, 3);
        }
        let count: usize = n / 3;
        let mut pixels: Vec<Color> = Vec::new();
        let mut i: usize = 0;
        while i < count
            invariant
                n == rgb@.len(),
                rgb@.len() == w as int * h as int * 3,
                count == w as int * h as int,
                i <= count,
                pixels.len() == i,
                forall|k: int|
                    0 <= k < i ==> pixels[k] == Color::spec_from_rgb(
                        format,
                        Rgb { r: rgb@[3 * k], g: rgb@[3 * k + 1], b: rgb@[3 * k + 2] },
                    ) && (#[trigger] pixels[k]).wf() && pixels[k].spec_format() == format,
            decreases count - i,
        {
            proof {
                assert(3 * (i as int) + 2 < rgb@.len()) by (nonlinear_arith)
                    requires
                        (i as int) < count,
                        count == w as int * h as int,
                        rgb@.len() == w as int * h as int * 3,
                ;
            }
            let base: usize = 3 * i;
            let color = Color::from_rgb(format, Rgb::new(rgb[base], rgb[base + 1], rgb[base + 2]));
            pixels.push(color);
            i = i + 1;
        }
        let d = SimulatorDisplay { format, size: Size { width: w, height: h }, pixels };
        proof {
            assert forall|p: Seq<u8>, wq: u32, hq: u32, c: u32|
                (c == 1 || c == 3) && wq > 0 && hq > 0 && p.len() == wq * hq * c && bytes@
                    == #[trigger] png_bytes_of(p, wq, hq, c) implies d.spec_size() == (Size {
                width: wq,
                height: hq,
            }) && d.spec_pixels() == spec_pixels_from_rgb(spec_rgb_expand(p, c), format) by {
                assert(rgb@ == spec_rgb_expand(p, c));
                assert(d.spec_pixels() =~= spec_pixels_from_rgb(spec_rgb_expand(p, c), format));
            }
        }
        Ok(d)
    }
}

/// The raw bit pattern of one pixel value, as an integer.
pub open spec fn spec_pixel_raw(c: Color) -> int {
    match c {
        Color::Binary(on) => if on {
            1
        } else {
            0
        },
        Color::Gray2(v) => v as int,
        Color::Gray4(v) => v as int,
        Color::Gray8(v) => v as int,
        Color::Rgb565(r, g, b) => r * 2048 + g * 32 + b,
        Color::Rgb888(rgb) => rgb.r * 65536 + rgb.g * 256 + rgb.b,
    }
}

/// The serialized bytes of one pixel of a byte-aligned encoding (8 bits or
/// more), least significant byte first when `little` is set.
pub open spec fn spec_pixel_bytes(c: Color, little: bool) -> Seq<u8> {
    match c {
        Color::Rgb565(_, _, _) => {
            let raw = spec_pixel_raw(c);
            if little {
                seq![(raw % 256) as u8, (raw / 256) as u8]
            } else {
                seq![(raw / 256) as u8, (raw % 256) as u8]
            }
        },
        Color::Rgb888(rgb) => if little {
            seq![rgb.b, rgb.g, rgb.r]
        } else {
            seq![rgb.r, rgb.g, rgb.b]
        },
        _ => seq![spec_pixel_raw(c) as u8],
    }
}

/// The concatenated per-pixel bytes of a buffer of byte-aligned pixels.
pub open spec fn spec_wide_bytes(pixels: Seq<Color>, little: bool) -> Seq<u8>
    decreases pixels.len(),
{
    if pixels.len() == 0 {
        Seq::empty()
    } else {
        spec_wide_bytes(pixels.drop_last(), little) + spec_pixel_bytes(pixels.last(), little)
    }
}

/// `2` raised to a sub-byte bit width: the number of raw values of that width.
pub open spec fn spec_pow2bits(bits: int) -> int {
    if bits == 1 {
        2
    } else if bits == 2 {
        4
    } else {
        16
    }
}

/// `base` raised to the exponent `e` (`1` for a non-positive exponent).
pub open spec fn spec_pow_int(base: int, e: int) -> int
    decreases e,
{
    if e <= 0 {
        1
    } else {
        base * spec_pow_int(base, e - 1)
    }
}

/// The value of one packed byte: `k` pixel slots starting at index `base`,
/// most significant slot first, where slots at or past `end` (the end of the
/// row) pack as zero padding.
pub open spec fn spec_byte_val(
    pixels: Seq<Color>,
    base: int,
    end: int,
    k: int,
    bits: int,
) -> int
    decreases k,
{
    if k <= 0 {
        0
    } else {
        spec_byte_val(pixels, base, end, k - 1, bits) * spec_pow2bits(bits) + (
        if base + k - 1 < end {
            spec_pixel_raw(pixels[base + k - 1])
        } else {
            0
        })
    }
}

/// The first `j` packed bytes of the row of `w` pixels starting at `base`.
pub open spec fn spec_row_bytes_upto(
    pixels: Seq<Color>,
    base: int,
    w: int,
    bits: int,
    j: int,
) -> Seq<u8>
    decreases j,
{
    let ppb = 8int / bits;
    if j <= 0 {
        Seq::empty()
    } else {
        spec_row_bytes_upto(pixels, base, w, bits, j - 1) + seq![
            spec_byte_val(pixels, base + (j - 1) * ppb, base + w, ppb, bits) as u8,
        ]
    }
}

/// The packed bytes of the first `rows` rows of a sub-byte buffer: each row
/// starts at a fresh byte boundary and a final partial byte of a row is
/// zero-padded in its low-order bits.
pub open spec fn spec_sub_bytes_upto(pixels: Seq<Color>, w: int, bits: int, rows: int) -> Seq<u8>
    decreases rows,
{
    let ppb = 8int / bits;
    let row_bytes = (w + ppb - 1) / ppb;
    if rows <= 0 {
        Seq::empty()
    } else {
        spec_sub_bytes_upto(pixels, w, bits, rows - 1) + spec_row_bytes_upto(
            pixels,
            (rows - 1) * w,
            w,
            bits,
            row_bytes,
        )
    }
}

/// The packed serialization of a whole buffer: row-major, most significant
/// pixel first within a byte for sub-byte encodings, per-pixel bytes in the
/// requested order for byte-aligned encodings.
pub open spec fn spec_packed_bytes(
    pixels: Seq<Color>,
    w: int,
    h: int,
    format: ColorFormat,
    little: bool,
) -> Seq<u8> {
    if format.spec_bits_per_pixel() >= 8 {
        spec_wide_bytes(pixels, little)
    } else {
        spec_sub_bytes_upto(pixels, w, format.spec_bits_per_pixel(), h)
    }
}

/// A well-formed sub-byte pixel's raw value fits in its bit width.
proof fn lemma_pixel_raw_small(c: Color, bits: int)
    requires
        c.wf(),
        bits == c.spec_format().spec_bits_per_pixel(),
        bits < 8,
    ensures
        0 <= spec_pixel_raw(c) < spec_pow2bits(bits),
{
}

/// A packed byte built from in-range raw values fits in `k` slots' bits.
proof fn lemma_byte_val_bound(pixels: Seq<Color>, base: int, end: int, k: int, bits: int)
    requires
        forall|i: int|
            0 <= i < pixels.len() ==> 0 <= spec_pixel_raw(#[trigger] pixels[i]) < spec_pow2bits(
                bits,
            ),
        end <= pixels.len(),
        0 <= base,
    ensures
        0 <= spec_byte_val(pixels, base, end, k, bits) < spec_pow_int(spec_pow2bits(bits), k),
    decreases k,
{
    let f = spec_pow2bits(bits);
    if k <= 0 {
    } else {
        lemma_byte_val_bound(pixels, base, end, k - 1, bits);
        let prev = spec_byte_val(pixels, base, end, k - 1, bits);
        let slot = if base + k - 1 < end {
            spec_pixel_raw(pixels[base + k - 1])
        } else {
            0
        };
        assert(prev * f + slot < spec_pow_int(f, k - 1) * f) by (nonlinear_arith)
            requires
                0 <= prev < spec_pow_int(f, k - 1),
                0 <= slot < f,
        ;
        assert(spec_pow_int(f, k) == f * spec_pow_int(f, k - 1));
        assert(prev * f >= 0) by (nonlinear_arith)
            requires
                0 <= prev,
                0 <= f,
        ;
    }
}

/// Relies on u16::to_ne_bytes: reports whether this machine stores the least
/// significant byte of an integer first.
#[verifier::external_body]
fn native_endian_is_little() -> bool {
    u16::to_ne_bytes(1)[0] == 1
}

impl SimulatorDisplay {
    /// Converts the display content to big endian packed raw data.
    pub fn to_be_bytes(&self) -> (r: Vec<u8>)
        requires
            self.wf(),
        ensures
            r@ == spec_packed_bytes(
                self.spec_pixels(),
                self.spec_size().width as int,
                self.spec_size().height as int,
                self.spec_format(),
                false,
            ),
    {
        self.to_bytes(false)
    }

    /// Converts the display content to little endian packed raw data.
    pub fn to_le_bytes(&self) -> (r: Vec<u8>)
        requires
            self.wf(),
        ensures
            r@ == spec_packed_bytes(
                self.spec_pixels(),
                self.spec_size().width as int,
                self.spec_size().height as int,
                self.spec_format(),
                true,
            ),
    {
        self.to_bytes(true)
    }

    /// Converts the display content to native endian packed raw data: the
    /// big- or the little-endian serialization, whichever this machine's
    /// byte order selects.
    pub fn to_ne_bytes(&self) -> (r: Vec<u8>)
        requires
            self.wf(),
        ensures
            r@ == spec_packed_bytes(
                self.spec_pixels(),
                self.spec_size().width as int,
                self.spec_size().height as int,
                self.spec_format(),
                false,
            ) || r@ == spec_packed_bytes(
                self.spec_pixels(),
                self.spec_size().width as int,
                self.spec_size().height as int,
                self.spec_format(),
                true,
            ),
    {
        self.to_bytes(native_endian_is_little())
    }

    fn to_bytes(&self, little: bool) -> (r: Vec<u8>)
        requires
            self.wf(),
        ensures
            r@ == spec_packed_bytes(
                self.spec_pixels(),
                self.spec_size().width as int,
                self.spec_size().height as int,
                self.spec_format(),
                little,
            ),
    {
        let ghost pix = self.spec_pixels();
        let bits = self.format.bits_per_pixel();
        let mut bytes: Vec<u8> = Vec::new();
        if bits >= 8 {
            let n = self.pixels.len();
            let mut i: usize = 0;
            while i < n
                invariant
                    self.wf(),
                    pix == self.spec_pixels(),
                    n == pix.len(),
                    i <= n,
                    bits == self.spec_format().spec_bits_per_pixel(),
                    bits >= 8,
                    bytes@ == spec_wide_bytes(pix.take(i as int), little),
                decreases n - i,
            {
                proof {
                    assert(pix.take(i + 1).drop_last() =~= pix.take(i as int));
                    assert(pix.take(i + 1).last() == pix[i as int]);
                }
                let c = self.pixels[i];
                match c {
                    Color::Gray8(v) => {
                        bytes.push(v);
                    },
                    Color::Rgb565(cr, cg, cb) => {
                        let raw: u16 = cr as u16 * 2048 + cg as u16 * 32 + cb as u16;
                        let hi = (raw / 256) as u8;
                        let lo = (raw % 256) as u8;
                        if little {
                            bytes.push(lo);
                            bytes.push(hi);
                        } else {
                            bytes.push(hi);
                            bytes.push(lo);
                        }
                    },
                    Color::Rgb888(rgb) => {
                        if little {
                            bytes.push(rgb.b);
                            bytes.push(rgb.g);
                            bytes.push(rgb.r);
                        } else {
                            bytes.push(rgb.r);
                            bytes.push(rgb.g);
                            bytes.push(rgb.b);
                        }
                    },
                    _ => {
                        proof {
                            assert(false);
                        }
                    },
                }
                i = i + 1;
            }
            proof {
                assert(pix.take(n as int) =~= pix);
            }
        } else {
            let w = self.size.width;
            let h = self.size.height;
            let n = self.pixels.len();
            proof {
                assert(bits == 1 || bits == 2 || bits == 4);
            }
            let ppb: u32 = if bits == 1 {
                8
            } else if bits == 2 {
                4
            } else {
                2
            };
            let factor: u32 = if bits == 1 {
                2
            } else if bits == 2 {
                4
            } else {
                16
            };
            let row_bytes: u64 = if bits == 1 {
                ((w as u64) + 7) / 8
            } else if bits == 2 {
                ((w as u64) + 3) / 4
            } else {
                ((w as u64) + 1) / 2
            };
            let mut row: u32 = 0;
            while row < h
                invariant
                    self.wf(),
                    pix == self.spec_pixels(),
                    n == pix.len(),
                    w == self.spec_size().width,
                    h == self.spec_size().height,
                    bits == self.spec_format().spec_bits_per_pixel(),
                    bits == 1 || bits == 2 || bits == 4,
                    ppb == 8int / bits as int,
                    factor == spec_pow2bits(bits as int),
                    row_bytes == (w + ppb - 1) as int / ppb as int,
                    row <= h,
                    bytes@ == spec_sub_bytes_upto(pix, w as int, bits as int, row as int),
                decreases h - row,
            {
                let ghost rowbase = row as int * w as int;
                let mut j: u64 = 0;
                while j < row_bytes
                    invariant
                        self.wf(),
                        pix == self.spec_pixels(),
                        n == pix.len(),
                        w == self.spec_size().width,
                        h == self.spec_size().height,
                        bits == self.spec_format().spec_bits_per_pixel(),
                        bits == 1 || bits == 2 || bits == 4,
                        ppb == 8int / bits as int,
                        factor == spec_pow2bits(bits as int),
                        row_bytes == (w + ppb - 1) as int / ppb as int,
                        row_bytes <= 0x1_0000_0000u64,
                        row < h,
                        rowbase == row as int * w as int,
                        j <= row_bytes,
                        bytes@ == spec_sub_bytes_upto(pix, w as int, bits as int, row as int)
                            + spec_row_bytes_upto(pix, rowbase, w as int, bits as int, j as int),
                    decreases row_bytes - j,
                {
                    proof {
                        assert(0 <= rowbase && rowbase + w <= w as int * h as int)
                            by (nonlinear_arith)
                            requires
                                rowbase == row as int * w as int,
                                0 <= row as int,
                                (row as int) < h as int,
                                0 <= w as int,
                        ;
                        assert forall|idx: int| 0 <= idx < pix.len() implies 0 <= spec_pixel_raw(
                            #[trigger] pix[idx],
                        ) < spec_pow2bits(bits as int) by {
                            lemma_pixel_raw_small(pix[idx], bits as int);
                        }
                    }
                    let mut value: u32 = 0;
                    let mut k: u32 = 0;
                    while k < ppb
                        invariant
                            self.wf(),
                            pix == self.spec_pixels(),
                            n == pix.len(),
                            w == self.spec_size().width,
                            h == self.spec_size().height,
                            bits == self.spec_format().spec_bits_per_pixel(),
                            bits == 1 || bits == 2 || bits == 4,
                            ppb == 8int / bits as int,
                            factor == spec_pow2bits(bits as int),
                            row < h,
                            rowbase == row as int * w as int,
                            0 <= rowbase,
                            rowbase + w <= n,
                            j <= row_bytes,
                            row_bytes <= 0x1_0000_0000u64,
                            k <= ppb,
                            forall|idx: int|
                                0 <= idx < pix.len() ==> 0 <= spec_pixel_raw(#[trigger] pix[idx])
                                    < spec_pow2bits(bits as int),
                            value == spec_byte_val(
                                pix,
                                rowbase + j as int * ppb as int,
                                rowbase + w as int,
                                k as int,
                                bits as int,
                            ),
                            value < spec_pow_int(factor as int, k as int),
                        decreases ppb - k,
                    {
                        proof {
                            assert((j as int) * (ppb as int) + (k as int) < 0x9_0000_0000)
                                by (nonlinear_arith)
                                requires
                                    0 <= j as int <= 0x1_0000_0000,
                                    0 <= ppb as int <= 8,
                                    0 <= k as int <= 8,
                            ;
                        }
                        let pixel_in_row: u64 = j * (ppb as u64) + (k as u64);
                        let raw: u32 = if pixel_in_row < w as u64 {
                            proof {
                                lemma_index_in_range(
                                    w as int,
                                    h as int,
                                    pixel_in_row as int,
                                    row as int,
                                );
                            }
                            let idx: usize = (row as usize) * (w as usize) + (pixel_in_row
                                as usize);
                            pixel_raw_small(self.pixels[idx], bits)
                        } else {
                            0
                        };
                        proof {
                            let f = factor as int;
                            let p = spec_pow_int(f, k as int);
                            assert(value * f + raw < p * f) by (nonlinear_arith)
                                requires
                                    0 <= value < p,
                                    0 <= raw < f,
                            ;
                            assert(spec_pow_int(f, k as int + 1) == f * p);
                            lemma_pow2bits_at_most_256(bits as int, k as int + 1, ppb as int);
                        }
                        value = value * factor + raw;
                        k = k + 1;
                    }
                    proof {
                        lemma_pow2bits_at_most_256(bits as int, ppb as int, ppb as int);
                    }
                    bytes.push(value as u8);
                    j = j + 1;
                }
                row = row + 1;
            }
        }
        bytes
    }
}

/// For a sub-byte width, `k` slots of that width never exceed one byte:
/// `spec_pow2bits(bits) ^ k <= 256` whenever `k <= 8 / bits`.
proof fn lemma_pow2bits_at_most_256(bits: int, k: int, ppb: int)
    requires
        bits == 1 || bits == 2 || bits == 4,
        ppb == 8int / bits as int,
        0 <= k <= ppb,
    ensures
        spec_pow_int(spec_pow2bits(bits), k) <= 256,
    decreases k,
{
    reveal_with_fuel(spec_pow_int, 10);
    if bits == 1 {
        assert(spec_pow_int(2, 8) == 256);
        lemma_pow_int_increases(2, k, 8);
    } else if bits == 2 {
        assert(spec_pow_int(4, 4) == 256);
        lemma_pow_int_increases(4, k, 4);
    } else {
        assert(spec_pow_int(16, 2) == 256);
        lemma_pow_int_increases(16, k, 2);
    }
}

/// A power with a base of at least one grows with its exponent.
proof fn lemma_pow_int_increases(base: int, e1: int, e2: int)
    requires
        1 <= base,
        0 <= e1 <= e2,
    ensures
        spec_pow_int(base, e1) <= spec_pow_int(base, e2),
    decreases e2,
{
    if e1 < e2 {
        lemma_pow_int_increases(base, e1, e2 - 1);
        lemma_pow_int_positive(base, e2 - 1);
        let p = spec_pow_int(base, e2 - 1);
        assert(spec_pow_int(base, e2) == base * p);
        assert(p <= base * p) by (nonlinear_arith)
            requires
                1 <= base,
                0 < p,
        ;
    }
}

/// A power with a positive base is positive.
proof fn lemma_pow_int_positive(base: int, e: int)
    requires
        1 <= base,
    ensures
        0 < spec_pow_int(base, e),
    decreases e,
{
    if e > 0 {
        lemma_pow_int_positive(base, e - 1);
        assert(0 < base * spec_pow_int(base, e - 1)) by (nonlinear_arith)
            requires
                1 <= base,
                0 < spec_pow_int(base, e - 1),
        ;
    }
}

/// Reads the raw value of one sub-byte pixel.
fn pixel_raw_small(c: Color, bits: u32) -> (r: u32)
    requires
        c.wf(),
        bits == c.spec_format().spec_bits_per_pixel(),
        bits < 8,
    ensures
        r == spec_pixel_raw(c),
        r < spec_pow2bits(bits as int),
{
    match c {
        Color::Binary(on) => if on {
            1
        } else {
            0
        },
        Color::Gray2(v) => v as u32,
        Color::Gray4(v) => v as u32,
        _ => {
            proof {
                assert(false);
            }
            0
        },
    }
}

/// Clamps an (arbitrarily signed) coordinate into `0 ..= limit`.
fn clamp_to(v: i64, limit: u32) -> (r: u32)
    ensures
        r == if v < 0 {
            0int
        } else if v > limit {
            limit as int
        } else {
            v as int
        },
{
    if v < 0 {
        0
    } else if v > limit as i64 {
        limit
    } else {
        v as u32
    }
}

/// A point inside a `w`-by-`h` grid has a row-major index inside the buffer.
proof fn lemma_index_in_range(w: int, h: int, x: int, y: int)
    requires
        0 <= x < w,
        0 <= y < h,
    ensures
        0 <= spec_index(w, x, y) < w * h,
        spec_index(w, x, y) == y * w + x,
        0 <= y * w,
{
    assert(y * w + x < w * h) by (nonlinear_arith)
        requires
            0 <= x < w,
            0 <= y < h,
    ;
    assert(y * w >= 0) by (nonlinear_arith)
        requires
            0 <= y,
            0 <= w,
    ;
}

/// Row-major indices agree on the row span `x0 <= x < x1` of row `y` exactly
/// for the points of that span.
proof fn lemma_index_unique(w: int, px: int, py: int, x0: int, x1: int, y: int)
    requires
        0 <= px < w,
        0 <= py,
        0 <= x0 <= x1 <= w,
        0 <= y,
    ensures
        (spec_index(w, x0, y) <= spec_index(w, px, py) < spec_index(w, x1, y)) <==> (py == y && x0
            <= px < x1),
{
    assert((y * w + x0 <= py * w + px < y * w + x1) <==> (py == y && x0 <= px < x1))
        by (nonlinear_arith)
        requires
            0 <= px < w,
            0 <= py,
            0 <= x0 <= x1 <= w,
            0 <= y,
    ;
}

} // verus!
