//! PNG and base64 export of rendered rasters.
//!
//! Encoding and decoding of the PNG container is delegated to an external
//! codec.  The codec's output for given raster bytes, dimensions and channel
//! count is deterministic; it is named [`png_bytes_of`] rather than spelled
//! out, and the decoder is relied on to be lossless: decoding what the
//! encoder produced returns the original pixel content and dimensions.

use vstd::prelude::*;
use vstd::arithmetic::div_mod::{lemma_fundamental_div_mod, lemma_mod_bound};
use crate::output_image::{spec_bpp, OutputFormat, OutputImage};

verus! {

/// The PNG container bytes that the codec produces for the raw pixel bytes
/// of a `width`-by-`height` raster with `channels` bytes per pixel (1 for
/// grayscale, 3 for RGB), at maximum compression.  The result depends on
/// these arguments alone.
pub uninterp spec fn png_bytes_of(pixels: Seq<u8>, width: u32, height: u32, channels: u32) -> Seq<
    u8,
>;

/// The base64 text (standard alphabet, with padding) of a byte string.
pub uninterp spec fn base64_of(bytes: Seq<u8>) -> Seq<char>;

/// An error reported by the external image codec.
#[derive(Clone, Copy, Debug, PartialEq, Eq, Structural)]
pub struct CodecError;

/// Declares image's `ImageError`, the error type of the external codec, so
/// that the wrappers below can return it; the library maps it to
/// [`CodecError`] without reading it.
#[verifier::external_type_specification]
#[verifier::external_body]
pub struct ExImageError(image::ImageError);

/// The RGB expansion of decoded pixel bytes: three-channel content is kept
/// as it is, single-channel content repeats each intensity into all three
/// channels.
pub open spec fn spec_rgb_expand(p: Seq<u8>, c: u32) -> Seq<u8> {
    if c == 3 {
        p
    } else {
        Seq::new(p.len() * 3, |i: int| p[i / 3])
    }
}

/// Relies on image's `PngEncoder::new_with_quality` (best compression,
/// default filter) and `ImageEncoder::write_image`: encodes the raw pixel
/// bytes of a `width`-by-`height` raster with `channels` bytes per pixel
/// into a PNG container.  The output depends on the arguments alone, and
/// writing into memory fails only for an image with a zero dimension,
/// which the PNG container cannot hold.
#[verifier::external_body]
pub(crate) fn png_encode(pixels: &Vec<u8>, width: u32, height: u32, channels: u32) -> (r: Result<
    Vec<u8>,
    image::ImageError,
>)
    requires
        channels == 1 || channels == 3,
        pixels@.len() == width * height * channels,
        pixels@.len() < usize::MAX,
    ensures
        r matches Ok(png) ==> png@ == png_bytes_of(pixels@, width, height, channels),
        r is Err ==> width == 0 || height == 0,
        r is Ok ==> width > 0 && height > 0,
{
    let color = if channels == 1 {
        image::ExtendedColorType::L8
    } else {
        image::ExtendedColorType::Rgb8
    };
    let mut png = Vec::new();
    let encoder = image::codecs::png::PngEncoder::new_with_quality(
        &mut png,
        image::codecs::png::CompressionType::Best,
        image::codecs::png::FilterType::Adaptive,
    );
    image::ImageEncoder::write_image(encoder, pixels, width, height, color)?;
    Ok(png)
}

/// Relies on image's `ImageReader` — with its decoding limits lifted, so
/// that a failure means the bytes are not a well-formed PNG — and on
/// `DynamicImage::to_rgb8`: decodes a PNG container into its RGB pixel
/// bytes and dimensions.  PNG is lossless, so decoding what [`png_encode`]
/// produced returns the original content (RGB bytes unchanged, grayscale
/// bytes expanded channel-wise) and the original dimensions.
#[verifier::external_body]
pub(crate) fn png_decode(bytes: &Vec<u8>) -> (r: Result<(Vec<u8>, u32, u32), image::ImageError>)
    ensures
        r matches Ok(dec) ==> dec.0@.len() == dec.1 * dec.2 * 3 && (forall|
            p: Seq<u8>,
            w: u32,
            h: u32,
            c: u32,
        |
            (c == 1 || c == 3) && w > 0 && h > 0 && p.len() == w * h * c && bytes@
                == #[trigger] png_bytes_of(p, w, h, c) ==> dec.0@ == spec_rgb_expand(p, c) && dec.1
                == w && dec.2 == h),
        r is Err ==> (forall|p: Seq<u8>, w: u32, h: u32, c: u32|
            (c == 1 || c == 3) && w > 0 && h > 0 && p.len() == w * h * c ==> bytes@
                != #[trigger] png_bytes_of(p, w, h, c)),
{
    let mut reader = image::ImageReader::with_format(
        std::io::Cursor::new(bytes.as_slice()),
        image::ImageFormat::Png,
    );
    reader.no_limits();
    let img = reader.decode()?.to_rgb8();
    let (w, h) = (img.width(), img.height());
    Ok((img.into_raw(), w, h))
}

/// Relies on base64's `Engine::encode` with the standard engine: the text
/// is four characters for every three input bytes, the last group padded.
#[verifier::external_body]
pub(crate) fn base64_encode(bytes: &Vec<u8>) -> (r: String)
    requires
        4 * bytes@.len() <= usize::MAX,
    ensures
        r@ == base64_of(bytes@),
        r@.len() == 4 * ((bytes@.len() + 2) / 3),
{
    base64::Engine::encode(&base64::engine::general_purpose::STANDARD, bytes.as_slice())
}

/// The number of channels of a raster layout: its bytes per pixel.
pub open spec fn spec_channels(format: OutputFormat) -> u32 {
    match format {
        OutputFormat::Gray8 => 1u32,
        OutputFormat::Rgb888 => 3u32,
    }
}

impl OutputImage {
    /// Encodes the image into a PNG container at maximum compression.
    ///
    /// Encoding succeeds for exactly the rasters a PNG container can hold:
    /// those with two positive dimensions (and a byte count below the
    /// address space limit).
    pub fn encode_png(&self) -> (r: Result<Vec<u8>, CodecError>)
        requires
            self.wf(),
        ensures
            r matches Ok(png) ==> png@ == png_bytes_of(
                self.spec_data(),
                self.spec_size().width,
                self.spec_size().height,
                spec_channels(self.spec_format()),
            ),
            (self.spec_size().width > 0 && self.spec_size().height > 0 && self.spec_data().len()
                < usize::MAX) ==> r is Ok,
            r is Err ==> self.spec_size().width == 0 || self.spec_size().height == 0 || self
                .spec_data().len() >= usize::MAX,
            self.spec_size().width == 0 || self.spec_size().height == 0 ==> r is Err,
    {
        let channels: u32 = match self.format() {
            OutputFormat::Gray8 => 1,
            OutputFormat::Rgb888 => 3,
        };
        let size = self.size();
        let data = self.data();
        if data.len() == usize::MAX {
            return Err(CodecError);
        }
        match png_encode(data, size.width, size.height, channels) {
            Ok(png) => Ok(png),
            Err(_) => Err(CodecError),
        }
    }

    /// Returns the image as a base64 encoded PNG: the base64 text of
    /// exactly the PNG stream that [`OutputImage::encode_png`] produces.
    ///
    /// The export fails exactly when the encoding does — a raster with a
    /// zero dimension — or when a size exceeds the address space limit.
    pub fn to_base64_png(&self) -> (r: Result<String, CodecError>)
        requires
            self.wf(),
        ensures
            r matches Ok(s) ==> s@ == base64_of(
                png_bytes_of(
                    self.spec_data(),
                    self.spec_size().width,
                    self.spec_size().height,
                    spec_channels(self.spec_format()),
                ),
            ),
            (self.spec_size().width > 0 && self.spec_size().height > 0 && self.spec_data().len()
                < usize::MAX && 4 * png_bytes_of(
                self.spec_data(),
                self.spec_size().width,
                self.spec_size().height,
                spec_channels(self.spec_format()),
            ).len() <= usize::MAX) ==> r is Ok,
            r is Err ==> self.spec_size().width == 0 || self.spec_size().height == 0 || self
                .spec_data().len() >= usize::MAX || 4 * png_bytes_of(
                self.spec_data(),
                self.spec_size().width,
                self.spec_size().height,
                spec_channels(self.spec_format()),
            ).len() > usize::MAX,
    {
        let png = match self.encode_png() {
            Ok(png) => png,
            Err(e) => {
                return Err(e);
            },
        };
        proof {
            lemma_fundamental_div_mod(usize::MAX as int, 4);
            lemma_mod_bound(usize::MAX as int, 4);
        }
        if png.len() <= usize::MAX / 4 {
            Ok(base64_encode(&png))
        } else {
            Err(CodecError)
        }
    }
}

} // verus!
