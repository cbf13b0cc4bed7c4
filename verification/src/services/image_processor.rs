//! Reading an image from the bytes of a file, with recovery from a spoiled header.
//!
//! Decoding is tried in a fixed order of attempts. What each attempt hands to
//! the decoder is decided here. What the decoder makes of it has a name as
//! far as it is the same on every machine: whether it accepts the bytes, and
//! the size and layout of the image. The samples themselves have none.

use crate::models::enums::image_format::ImageFormat;
use crate::services::codecs::{
    decoded_rgba8_shape, decoded_shape, guess_format, guessed_format, load_forced,
    load_forced_rgba8,
};
use crate::services::thumbnail_service::{
    is_first_occurrence, jpeg_signature, png_signature, raster_from_parts, signature_offset,
    spec_jpeg_signature, spec_png_signature, spec_sample_bytes, CodecError, PixelLayout, Raster,
    RasterView,
};
use crate::text::occurs_at;
use vstd::prelude::*;
use vstd::slice::slice_subrange;

verus! {

/// One attempt to decode: the byte from which the file is taken to begin, and
/// the format whose decoder is forced, if any.
#[derive(Clone, Copy, Debug, PartialEq, Eq)]
pub struct Attempt {
    pub offset: usize,
    pub forced: Option<ImageFormat>,
}

/// The number of attempts there are at most.
pub const ATTEMPTS: usize = 9;

/// The first position after the start of `bytes` at which `signature` stands,
/// if it stands anywhere after the start.
pub open spec fn spec_displaced(bytes: Seq<u8>, signature: Seq<u8>) -> Option<int> {
    if exists|at: int| is_first_occurrence(bytes, signature, 1, at) {
        Some(choose|at: int| is_first_occurrence(bytes, signature, 1, at))
    } else {
        None
    }
}

/// There is only one first occurrence.
pub proof fn lemma_first_occurrence_unique(
    bytes: Seq<u8>,
    signature: Seq<u8>,
    from: int,
    a: int,
    b: int,
)
    requires
        is_first_occurrence(bytes, signature, from, a),
        is_first_occurrence(bytes, signature, from, b),
    ensures
        a == b,
{
    if a < b {
        assert(!occurs_at(bytes, signature, a));
    } else if b < a {
        assert(!occurs_at(bytes, signature, b));
    }
}

/// What the attempt number `step` hands to the decoder.
///
/// - Attempt 0 takes the bytes as they are, in the format that their first
///   bytes show (no format is forced).
/// - Attempts 1 to 6 take the bytes as they are and force the decoder of
///   JPEG, PNG, GIF, WebP, TIFF and BMP, in this order.
/// - Attempt 7 takes the bytes from the first JPEG signature after their
///   start, attempt 8 from the first PNG signature after their start; there
///   is no such attempt where there is no such signature.
pub open spec fn spec_attempt(bytes: Seq<u8>, step: int) -> Option<(int, Option<ImageFormat>)> {
    if step == 0 {
        Some((0, None))
    } else if 1 <= step <= 6 {
        Some((0, Some(ImageFormat::spec_known()[step - 1])))
    } else if step == 7 {
        match spec_displaced(bytes, spec_jpeg_signature()) {
            Some(at) => Some((at, None)),
            None => None,
        }
    } else if step == 8 {
        match spec_displaced(bytes, spec_png_signature()) {
            Some(at) => Some((at, None)),
            None => None,
        }
    } else {
        None
    }
}

/// The first position after the start of `bytes` at which `signature` stands.
fn displaced(bytes: &[u8], signature: &[u8]) -> (found: Option<usize>)
    ensures
        spec_displaced(bytes@, signature@) == match found {
            Some(at) => Some(at as int),
            None => None,
        },
        found matches Some(at) ==> 1 <= at <= bytes.len(),
{
    let found = signature_offset(bytes, signature, 1);
    proof {
        match found {
            Some(at) => {
                let chosen = choose|c: int| is_first_occurrence(bytes@, signature@, 1, c);
                lemma_first_occurrence_unique(bytes@, signature@, 1, at as int, chosen);
            },
            None => {
                assert forall|c: int| !is_first_occurrence(bytes@, signature@, 1, c) by {
                    if is_first_occurrence(bytes@, signature@, 1, c) {
                        assert(occurs_at(bytes@, signature@, c));
                    }
                }
            },
        }
    }
    found
}

/// What the attempt number `step` hands to the decoder, if there is such an attempt.
pub fn attempt(bytes: &[u8], step: usize) -> (planned: Option<Attempt>)
    ensures
        spec_attempt(bytes@, step as int) == match planned {
            Some(a) => Some((a.offset as int, a.forced)),
            None => None,
        },
        planned matches Some(a) ==> a.offset <= bytes.len(),
{
    if step == 0 {
        Some(Attempt { offset: 0, forced: None })
    } else if step <= 6 {
        let known = ImageFormat::known();
        Some(Attempt { offset: 0, forced: Some(known[step - 1]) })
    } else if step == 7 {
        let signature = jpeg_signature();
        match displaced(bytes, signature.as_slice()) {
            Some(at) => Some(Attempt { offset: at, forced: None }),
            None => None,
        }
    } else if step == 8 {
        let signature = png_signature();
        match displaced(bytes, signature.as_slice()) {
            Some(at) => Some(Attempt { offset: at, forced: None }),
            None => None,
        }
    } else {
        None
    }
}

/// The size and layout of the raster that decoded parts of the given shape
/// make: their layout has to be one of the eight that are kept, and their
/// samples have to take the bytes that size and layout ask for.
pub open spec fn spec_raster_shape(shape: (int, int, int, int, int)) -> Option<
    (int, int, PixelLayout),
> {
    match PixelLayout::spec_from_counts(shape.2, shape.3) {
        None => None,
        Some(layout) => if shape.4 == spec_sample_bytes(shape.0, shape.1, layout) {
            Some((shape.0, shape.1, layout))
        } else {
            None
        },
    }
}

/// The size and layout of a raster.
pub open spec fn spec_shape(raster: RasterView) -> (int, int, PixelLayout) {
    (raster.width, raster.height, raster.layout)
}

/// The size and layout of the raster that `bytes` give under the decoder of
/// `format`; none where the decoder refuses them. An image in a layout that
/// is not kept is converted to red, green, blue and alpha at 8 bits; an image
/// in a layout that is kept stays in it.
pub open spec fn spec_decoded(bytes: Seq<u8>, format: ImageFormat) -> Option<
    (int, int, PixelLayout),
> {
    match decoded_shape(bytes, format) {
        None => None,
        Some(shape) => if PixelLayout::spec_from_counts(shape.2, shape.3) is Some {
            spec_raster_shape(shape)
        } else {
            match decoded_rgba8_shape(bytes, format) {
                Some(converted) => spec_raster_shape(converted),
                None => None,
            }
        },
    }
}

/// Decodes `bytes` with the decoder of `format`.
pub fn decode_as(bytes: &[u8], format: ImageFormat) -> (raster: Option<Raster>)
    ensures
        match raster {
            Some(r) => r@.wf() && spec_decoded(bytes@, format) == Some(spec_shape(r@)),
            None => spec_decoded(bytes@, format) is None,
        },
{
    match load_forced(bytes, format) {
        None => None,
        Some(parts) => {
            if PixelLayout::from_counts(parts.channels, parts.pixel_bytes).is_some() {
                raster_from_parts(parts)
            } else {
                match load_forced_rgba8(bytes, format) {
                    Some(converted) => raster_from_parts(converted),
                    None => None,
                }
            }
        },
    }
}

/// The size and layout of the raster that an attempt gives: the bytes from
/// `offset` on are decoded in the forced format, or in the format that their
/// first bytes show where none is forced.
pub open spec fn spec_planned_decoded(bytes: Seq<u8>, offset: int, forced: Option<ImageFormat>) -> Option<
    (int, int, PixelLayout),
> {
    let part = bytes.skip(offset);
    let format = match forced {
        Some(f) => Some(f),
        None => guessed_format(part),
    };
    match format {
        Some(f) => spec_decoded(part, f),
        None => None,
    }
}

/// The size and layout of the raster that the attempt number `step` gives,
/// if there is such an attempt and the decoder accepts what it is handed.
pub open spec fn spec_attempt_decoded(bytes: Seq<u8>, step: int) -> Option<
    (int, int, PixelLayout),
> {
    match spec_attempt(bytes, step) {
        Some((offset, forced)) => spec_planned_decoded(bytes, offset, forced),
        None => None,
    }
}

/// What the first attempt that succeeds among the first `count` gives.
pub open spec fn spec_first_decoded(bytes: Seq<u8>, count: int) -> Option<(int, int, PixelLayout)>
    decreases count,
{
    if count <= 0 {
        None
    } else {
        match spec_first_decoded(bytes, count - 1) {
            Some(shape) => Some(shape),
            None => spec_attempt_decoded(bytes, count - 1),
        }
    }
}

/// Once an attempt has succeeded, later attempts change nothing.
pub proof fn lemma_first_decoded_stays(bytes: Seq<u8>, count: int, more: int)
    requires
        count <= more,
        spec_first_decoded(bytes, count) is Some,
    ensures
        spec_first_decoded(bytes, more) == spec_first_decoded(bytes, count),
    decreases more - count,
{
    if count < more {
        lemma_first_decoded_stays(bytes, count, more - 1);
    }
}

/// Makes one attempt to decode.
pub fn decode_attempt(bytes: &[u8], planned: Attempt) -> (raster: Option<Raster>)
    requires
        planned.offset <= bytes.len(),
    ensures
        match raster {
            Some(r) => r@.wf() && spec_planned_decoded(
                bytes@,
                planned.offset as int,
                planned.forced,
            ) == Some(spec_shape(r@)),
            None => spec_planned_decoded(bytes@, planned.offset as int, planned.forced) is None,
        },
{
    let part = slice_subrange(bytes, planned.offset, bytes.len());
    assert(part@ =~= bytes@.skip(planned.offset as int));
    let format = match planned.forced {
        Some(format) => Some(format),
        None => guess_format(part),
    };
    match format {
        Some(format) => decode_as(part, format),
        None => None,
    }
}

/// The size and layout of what an attempt gave.
pub open spec fn spec_given(decoded: Option<Raster>) -> Option<(int, int, PixelLayout)> {
    match decoded {
        Some(raster) => Some(spec_shape(raster@)),
        None => None,
    }
}

/// How the decoding goes on after an attempt.
pub enum Progress {
    /// The attempt gave this image: decoding is done.
    Found(Raster),
    /// The attempt gave nothing: the attempt of this number is made next.
    Retry(usize),
    /// The attempt gave nothing and was the last: the bytes cannot be decoded.
    Failed,
}

/// How the decoding goes on after the attempt number `step`, by what the
/// attempt gave: its image ends the decoding, and nothing leads to the next
/// attempt as long as there is one. An attempt that there is not counts as
/// one that gave nothing.
pub fn progress(step: usize, decoded: Option<Raster>) -> (next: Progress)
    ensures
        match decoded {
            Some(raster) => next == Progress::Found(raster),
            None => if step + 1 < ATTEMPTS {
                next == Progress::Retry((step + 1) as usize)
            } else {
                next == Progress::Failed
            },
        },
{
    match decoded {
        Some(raster) => Progress::Found(raster),
        None => if step < ATTEMPTS - 1 {
            Progress::Retry(step + 1)
        } else {
            Progress::Failed
        },
    }
}

/// Decodes an image from the bytes of a file.
///
/// The attempts of `attempt` are made in order, and the first that the
/// decoder accepts gives the image. A file whose header is spoiled or cut
/// off is thus still read where its signature can be found further in, and
/// so is a file in another format than it appears to be in. If no attempt
/// succeeds, the bytes cannot be decoded.
pub fn open_image(bytes: &[u8]) -> (result: Result<Raster, CodecError>)
    ensures
        match result {
            Ok(raster) => raster@.wf() && spec_first_decoded(bytes@, ATTEMPTS as int) == Some(
                spec_shape(raster@),
            ),
            Err(e) => e == CodecError::Decode && spec_first_decoded(bytes@, ATTEMPTS as int)
                is None,
        },
{
    let mut step: usize = 0;
    loop
        invariant
            step < ATTEMPTS,
            spec_first_decoded(bytes@, step as int) is None,
        decreases ATTEMPTS - step,
    {
        let decoded = match attempt(bytes, step) {
            Some(planned) => decode_attempt(bytes, planned),
            None => None,
        };
        let ghost given = spec_given(decoded);
        assert(given == spec_attempt_decoded(bytes@, step as int));
        assert(spec_first_decoded(bytes@, step + 1) == given);
        match progress(step, decoded) {
            Progress::Found(raster) => {
                proof {
                    lemma_first_decoded_stays(bytes@, step + 1, ATTEMPTS as int);
                }
                return Ok(raster);
            },
            Progress::Retry(next) => {
                step = next;
            },
            Progress::Failed => {
                assert(step + 1 == ATTEMPTS);
                return Err(CodecError::Decode);
            },
        }
    }
}

} // verus!
