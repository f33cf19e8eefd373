//! Screenshot and regression-check outcomes.
//!
//! A presentation shell that refreshes a window may instead be asked — for
//! example through its environment — to export the rendered raster once, or
//! to compare it against a reference image and report whether they agree.
//! The decision which of these applies, and the comparisons themselves, are
//! pure functions of the values involved; the shell only performs the file
//! reads and writes and ends the process with the reported outcome.

use vstd::prelude::*;
use crate::codec::{png_bytes_of, png_decode, spec_channels, spec_rgb_expand, CodecError};
use crate::display::SimulatorDisplay;
use crate::geometry::Size;
use crate::output_image::{OutputFormat, OutputImage};

verus! {

/// What a presentation refresh should do, decided from the four optional
/// hook paths: the first hook present, in the order check, raw check,
/// dump, raw dump, wins; with no hook set the raster is simply presented.
#[derive(Debug, Clone, PartialEq, Eq)]
pub enum UpdateAction {
    /// Render with the active settings, decode the reference image at
    /// `path`, and compare.
    Check {
        /// The path of the reference image.
        path: String,
    },
    /// Compare the raw display content against the image at `path`.
    CheckRaw {
        /// The path of the reference image.
        path: String,
    },
    /// Render with the active settings and write the result to `path`.
    Dump {
        /// The path to write to.
        path: String,
    },
    /// Render unscaled and unthemed and write the result to `path`.
    DumpRaw {
        /// The path to write to.
        path: String,
    },
    /// No hook is set: present the raster.
    Present,
}

/// Decides what a presentation refresh should do from the four optional
/// hook paths; see [`UpdateAction`] for the precedence.
pub fn update_action(
    check: Option<String>,
    check_raw: Option<String>,
    dump: Option<String>,
    dump_raw: Option<String>,
) -> (r: UpdateAction)
    ensures
        match r {
            UpdateAction::Check { path } => check == Some(path),
            UpdateAction::CheckRaw { path } => check is None && check_raw == Some(path),
            UpdateAction::Dump { path } => check is None && check_raw is None && dump == Some(
                path,
            ),
            UpdateAction::DumpRaw { path } => check is None && check_raw is None && dump is None
                && dump_raw == Some(path),
            UpdateAction::Present => check is None && check_raw is None && dump is None && dump_raw
                is None,
        },
{
    match (check, check_raw, dump, dump_raw) {
        (Some(path), _, _, _) => UpdateAction::Check { path },
        (None, Some(path), _, _) => UpdateAction::CheckRaw { path },
        (None, None, Some(path), _) => UpdateAction::Dump { path },
        (None, None, None, Some(path)) => UpdateAction::DumpRaw { path },
        (None, None, None, None) => UpdateAction::Present,
    }
}

/// The result of comparing rendered content against a reference.
#[derive(Clone, Copy, Debug, PartialEq, Eq, Structural)]
pub enum CheckOutcome {
    /// Dimensions and content agree.
    Match,
    /// The dimensions differ; both are reported so that the failure can
    /// name them.
    DimensionMismatch {
        /// The size of the rendered content.
        display: Size,
        /// The size of the reference image.
        reference: Size,
    },
    /// The dimensions agree but the content differs.
    ContentMismatch,
}

/// The outcome of comparing a raster against reference content: a
/// dimension mismatch names both sizes, equal dimensions with differing
/// bytes are a content mismatch, and otherwise the two agree.
pub open spec fn spec_check_outcome(
    output: OutputImage,
    reference_pixels: Seq<u8>,
    reference_size: Size,
) -> CheckOutcome {
    if output.spec_size() != reference_size {
        CheckOutcome::DimensionMismatch { display: output.spec_size(), reference: reference_size }
    } else if output.spec_data() == reference_pixels {
        CheckOutcome::Match
    } else {
        CheckOutcome::ContentMismatch
    }
}

/// Compares a rendered raster against decoded reference pixels: the sizes
/// must agree and the raw bytes must be identical.
pub fn check_image(
    output: &OutputImage,
    reference_pixels: &Vec<u8>,
    reference_size: Size,
) -> (r: CheckOutcome)
    requires
        output.wf(),
    ensures
        r == spec_check_outcome(*output, reference_pixels@, reference_size),
{
    let size = output.size();
    if size.width != reference_size.width || size.height != reference_size.height {
        return CheckOutcome::DimensionMismatch { display: size, reference: reference_size };
    }
    if bytes_equal(output.data(), reference_pixels) {
        CheckOutcome::Match
    } else {
        CheckOutcome::ContentMismatch
    }
}

/// Decodes a PNG reference image and compares a rendered RGB raster against
/// it, as the environment-driven regression check does.
///
/// For any reference produced by the codec — any valid raster content whose
/// encoding the bytes equal — the result is the exact comparison of this
/// raster against that content: mismatching dimensions name both sizes,
/// equal dimensions with differing bytes are a content mismatch.  In
/// particular, when the reference is exactly what
/// [`OutputImage::encode_png`] produces for this raster, the comparison
/// reports a match: encoding and decoding lose neither the pixel content
/// nor the dimensions.  The comparison fails only on bytes that are no
/// encoder output at all.
pub fn check_png(output: &OutputImage, png: &Vec<u8>) -> (r: Result<CheckOutcome, CodecError>)
    requires
        output.wf(),
        output.spec_format() == OutputFormat::Rgb888,
    ensures
        (output.spec_size().width > 0 && output.spec_size().height > 0 && png@ == png_bytes_of(
            output.spec_data(),
            output.spec_size().width,
            output.spec_size().height,
            spec_channels(output.spec_format()),
        )) ==> r == Ok::<CheckOutcome, CodecError>(CheckOutcome::Match),
        forall|p: Seq<u8>, w: u32, h: u32, c: u32|
            (c == 1 || c == 3) && w > 0 && h > 0 && p.len() == w * h * c && png@
                == #[trigger] png_bytes_of(p, w, h, c) ==> (r matches Ok(o) && o
                == spec_check_outcome(
                *output,
                spec_rgb_expand(p, c),
                Size { width: w, height: h },
            )),
        r is Err ==> (forall|p: Seq<u8>, w: u32, h: u32, c: u32|
            (c == 1 || c == 3) && w > 0 && h > 0 && p.len() == w * h * c ==> png@
                != #[trigger] png_bytes_of(p, w, h, c)),
{
    let (pixels, w, h) = match png_decode(png) {
        Ok(dec) => dec,
        Err(_) => {
            return Err(CodecError);
        },
    };
    Ok(check_image(output, &pixels, Size::new(w, h)))
}

/// Compares the raw content of a display against a reference display of
/// the same encoding: the sizes must agree and every pixel must be equal.
pub fn check_display(display: &SimulatorDisplay, reference: &SimulatorDisplay) -> (r: CheckOutcome)
    requires
        display.wf(),
        reference.wf(),
    ensures
        r == CheckOutcome::Match <==> display.spec_size() == reference.spec_size() && display
            .spec_pixels() =~= reference.spec_pixels(),
        r matches CheckOutcome::DimensionMismatch { display: d, reference: e } ==> d
            == display.spec_size() && e == reference.spec_size() && display.spec_size()
            != reference.spec_size(),
        r == CheckOutcome::ContentMismatch ==> display.spec_size() == reference.spec_size()
            && display.spec_pixels() !~= reference.spec_pixels(),
{
    let size = display.size();
    let ref_size = reference.size();
    if size.width != ref_size.width || size.height != ref_size.height {
        return CheckOutcome::DimensionMismatch { display: size, reference: ref_size };
    }
    if display.content_equals(reference) {
        CheckOutcome::Match
    } else {
        CheckOutcome::ContentMismatch
    }
}

/// Whether two byte strings are identical.
fn bytes_equal(a: &Vec<u8>, b: &Vec<u8>) -> (r: bool)
    ensures
        r <==> a@ =~= b@,
{
    if a.len() != b.len() {
        return false;
    }
    let n = a.len();
    let mut i: usize = 0;
    while i < n
        invariant
            n == a@.len(),
            n == b@.len(),
            i <= n,
            forall|k: int| 0 <= k < i ==> a@[k] == b@[k],
        decreases n - i,
    {
        if a[i] != b[i] {
            return false;
        }
        i = i + 1;
    }
    true
}

} // verus!
