//! Images in memory, their resizing and their encoding.
//!
//! An image is held as a `Raster`: its size, the layout of its pixels and the
//! raw samples. The arithmetic of resizing and the choice of filter, colour
//! type and compression are proved here; the codecs themselves are called.

use crate::models::enums::image_format::ImageFormat;
use crate::services::codecs::{
    encode_png, encode_with_format, encoded_file, native_sample, png_file, resample, PngDepth,
    RowFilter, Unpacked,
};
use crate::text::occurs_at;
use vstd::prelude::*;

verus! {

/// `n / d` rounded to the nearest integer, halves upwards; for `n >= 0`, `d > 0`.
pub open spec fn round_div(n: int, d: int) -> int {
    (2 * n + d) / (2 * d)
}

/// Whether a `width` by `height` image lies within the bounds.
pub open spec fn fits_within(width: int, height: int, max_width: int, max_height: int) -> bool {
    width <= max_width && height <= max_height
}

/// The size of a `width` by `height` image scaled by the smaller of the two
/// ratios `max_width / width` and `max_height / height`, each side rounded to
/// the nearest integer. A side of length zero stays zero and leaves the scale
/// to the other side.
pub open spec fn spec_scaled_dimensions(
    width: int,
    height: int,
    max_width: int,
    max_height: int,
) -> (int, int) {
    if width == 0 && height == 0 {
        (0, 0)
    } else if width == 0 {
        (0, max_height)
    } else if height == 0 {
        (max_width, 0)
    } else if max_width * height <= max_height * width {
        (max_width, round_div(height * max_width, width))
    } else {
        (round_div(width * max_height, height), max_height)
    }
}

/// The size a `width` by `height` image is given within the bounds: its own
/// size where it fits, and else its size scaled down with the ratio of its
/// sides kept.
pub open spec fn spec_calculate_dimensions(
    width: int,
    height: int,
    max_width: int,
    max_height: int,
) -> (int, int) {
    if fits_within(width, height, max_width, max_height) {
        (width, height)
    } else {
        spec_scaled_dimensions(width, height, max_width, max_height)
    }
}

/// Rounded division stays below any integer bound of the quotient.
pub proof fn lemma_round_div_bound(n: int, d: int, bound: int)
    requires
        0 <= n,
        0 < d,
        n <= bound * d,
    ensures
        0 <= round_div(n, d) <= bound,
{
    assert(0 <= (2 * n + d) / (2 * d)) by (nonlinear_arith)
        requires
            0 <= n,
            0 < d,
    ;
    assert((2 * n + d) / (2 * d) <= bound) by (nonlinear_arith)
        requires
            0 <= n,
            0 < d,
            n <= bound * d,
    ;
}

/// The size given to an image lies within the bounds and within the image's
/// own size: nothing is ever scaled up.
pub proof fn lemma_dimensions_bounded(width: int, height: int, max_width: int, max_height: int)
    requires
        0 <= width,
        0 <= height,
        0 <= max_width,
        0 <= max_height,
    ensures
        ({
            let (w, h) = spec_calculate_dimensions(width, height, max_width, max_height);
            &&& 0 <= w <= width
            &&& 0 <= h <= height
            &&& w <= max_width
            &&& h <= max_height
        }),
{
    if !fits_within(width, height, max_width, max_height) && width != 0 && height != 0 {
        if max_width * height <= max_height * width {
            assert(max_width < width) by (nonlinear_arith)
                requires
                    max_width * height <= max_height * width,
                    width > max_width || height > max_height,
                    0 < width,
                    0 < height,
                    0 <= max_width,
                    0 <= max_height,
            ;
            assert(height * max_width <= height * width) by (nonlinear_arith)
                requires
                    max_width < width,
                    0 < height,
            ;
            assert(height * max_width == max_width * height) by (nonlinear_arith);
            assert(0 <= height * max_width) by (nonlinear_arith)
                requires
                    0 < height,
                    0 <= max_width,
            ;
            lemma_round_div_bound(height * max_width, width, height);
            lemma_round_div_bound(height * max_width, width, max_height);
        } else {
            assert(max_height < height) by (nonlinear_arith)
                requires
                    max_width * height > max_height * width,
                    width > max_width || height > max_height,
                    0 < width,
                    0 < height,
                    0 <= max_width,
                    0 <= max_height,
            ;
            assert(width * max_height <= width * height) by (nonlinear_arith)
                requires
                    max_height < height,
                    0 < width,
            ;
            assert(width * max_height == max_height * width) by (nonlinear_arith);
            assert(width * height == height * width) by (nonlinear_arith);
            assert(max_width * height == height * max_width) by (nonlinear_arith);
            assert(0 <= width * max_height) by (nonlinear_arith)
                requires
                    0 < width,
                    0 <= max_height,
            ;
            lemma_round_div_bound(width * max_height, height, width);
            lemma_round_div_bound(width * max_height, height, max_width);
        }
    }
}

/// `n / d` rounded to the nearest integer, halves upwards.
fn rounded_quotient(n: u64, d: u32) -> (q: u64)
    requires
        d > 0,
    ensures
        q == round_div(n as int, d as int),
{
    let twice: u128 = 2u128 * (n as u128) + (d as u128);
    let q: u128 = twice / (2u128 * (d as u128));
    assert(q <= twice);
    assert(twice <= 3 * 0xffff_ffff_ffff_ffffu128);
    assert(q == round_div(n as int, d as int));
    assert(round_div(n as int, d as int) <= n + 1) by {
        assert((2 * n + d) / (2 * d) <= n + 1) by (nonlinear_arith)
            requires
                0 <= n,
                0 < d,
        ;
    }
    if q > 0xffff_ffff_ffff_ffffu128 {
        proof {
            assert(n as int + 1 > 0xffff_ffff_ffff_ffff);
            assert(n == 0xffff_ffff_ffff_ffffu64);
            assert((2 * n + d) / (2 * d) <= n) by (nonlinear_arith)
                requires
                    1 <= n,
                    0 < d,
            ;
        }
        0
    } else {
        q as u64
    }
}

/// The size a `width` by `height` image is given within the bounds
/// `max_width` by `max_height`.
///
/// An image that fits keeps its size. Any other is scaled by the smaller of
/// `max_width / width` and `max_height / height`, each side rounded to the
/// nearest integer, so that the ratio of its sides is kept.
pub fn calculate_dimensions(width: u32, height: u32, max_width: u32, max_height: u32) -> (size: (
    u32,
    u32,
))
    ensures
        (size.0 as int, size.1 as int) == spec_calculate_dimensions(
            width as int,
            height as int,
            max_width as int,
            max_height as int,
        ),
        size.0 <= width,
        size.1 <= height,
        size.0 <= max_width,
        size.1 <= max_height,
{
    proof {
        lemma_dimensions_bounded(width as int, height as int, max_width as int, max_height as int);
    }
    if width <= max_width && height <= max_height {
        (width, height)
    } else if width == 0 && height == 0 {
        (0, 0)
    } else if width == 0 {
        (0, max_height)
    } else if height == 0 {
        (max_width, 0)
    } else {
        assert(max_width * height <= 0xffff_ffff * 0xffff_ffff) by (nonlinear_arith)
            requires
                max_width <= 0xffff_ffff,
                height <= 0xffff_ffff,
        ;
        assert(max_height * width <= 0xffff_ffff * 0xffff_ffff) by (nonlinear_arith)
            requires
                max_height <= 0xffff_ffff,
                width <= 0xffff_ffff,
        ;
        let by_width: u64 = (max_width as u64) * (height as u64);
        let by_height: u64 = (max_height as u64) * (width as u64);
        if by_width <= by_height {
            assert(height * max_width == max_width * height) by (nonlinear_arith);
            let h = rounded_quotient(by_width, width);
            (max_width, h as u32)
        } else {
            assert(width * max_height == max_height * width) by (nonlinear_arith);
            let w = rounded_quotient(by_height, height);
            (w as u32, max_height)
        }
    }
}

} // verus!

verus! {

/// How the samples of a pixel are laid out: grey or colour, with or without
/// alpha, at 8 or 16 bits a sample.
#[derive(Clone, Copy, Debug, PartialEq, Eq, Structural)]
pub enum PixelLayout {
    L8,
    La8,
    Rgb8,
    Rgba8,
    L16,
    La16,
    Rgb16,
    Rgba16,
}

impl PixelLayout {
    /// The number of samples in a pixel.
    pub open spec fn spec_channels(self) -> int {
        match self {
            PixelLayout::L8 | PixelLayout::L16 => 1,
            PixelLayout::La8 | PixelLayout::La16 => 2,
            PixelLayout::Rgb8 | PixelLayout::Rgb16 => 3,
            PixelLayout::Rgba8 | PixelLayout::Rgba16 => 4,
        }
    }

    /// Whether a sample takes 16 bits rather than 8.
    pub open spec fn spec_is_wide(self) -> bool {
        match self {
            PixelLayout::L16 | PixelLayout::La16 | PixelLayout::Rgb16 | PixelLayout::Rgba16 => true,
            _ => false,
        }
    }

    /// The number of bytes a pixel takes.
    pub open spec fn spec_bytes_per_pixel(self) -> int {
        if self.spec_is_wide() {
            2 * self.spec_channels()
        } else {
            self.spec_channels()
        }
    }

    /// The layout with `channels` samples in `pixel_bytes` bytes, if there is one.
    pub open spec fn spec_from_counts(channels: int, pixel_bytes: int) -> Option<PixelLayout> {
        if channels == 1 && pixel_bytes == 1 {
            Some(PixelLayout::L8)
        } else if channels == 2 && pixel_bytes == 2 {
            Some(PixelLayout::La8)
        } else if channels == 3 && pixel_bytes == 3 {
            Some(PixelLayout::Rgb8)
        } else if channels == 4 && pixel_bytes == 4 {
            Some(PixelLayout::Rgba8)
        } else if channels == 1 && pixel_bytes == 2 {
            Some(PixelLayout::L16)
        } else if channels == 2 && pixel_bytes == 4 {
            Some(PixelLayout::La16)
        } else if channels == 3 && pixel_bytes == 6 {
            Some(PixelLayout::Rgb16)
        } else if channels == 4 && pixel_bytes == 8 {
            Some(PixelLayout::Rgba16)
        } else {
            None
        }
    }

    /// The number of samples in a pixel.
    pub fn channels(&self) -> (n: u8)
        ensures
            n == self.spec_channels(),
    {
        match self {
            PixelLayout::L8 | PixelLayout::L16 => 1,
            PixelLayout::La8 | PixelLayout::La16 => 2,
            PixelLayout::Rgb8 | PixelLayout::Rgb16 => 3,
            PixelLayout::Rgba8 | PixelLayout::Rgba16 => 4,
        }
    }

    /// Whether a sample takes 16 bits rather than 8.
    pub fn is_wide(&self) -> (wide: bool)
        ensures
            wide == self.spec_is_wide(),
    {
        match self {
            PixelLayout::L16 | PixelLayout::La16 | PixelLayout::Rgb16 | PixelLayout::Rgba16 => true,
            _ => false,
        }
    }

    /// The number of bytes a pixel takes.
    pub fn bytes_per_pixel(&self) -> (n: u8)
        ensures
            n == self.spec_bytes_per_pixel(),
            1 <= n <= 8,
    {
        if self.is_wide() {
            2 * self.channels()
        } else {
            self.channels()
        }
    }

    /// The layout with `channels` samples in `pixel_bytes` bytes, if there is one.
    pub fn from_counts(channels: u8, pixel_bytes: u8) -> (layout: Option<PixelLayout>)
        ensures
            layout == Self::spec_from_counts(channels as int, pixel_bytes as int),
            layout matches Some(l) ==> l.spec_channels() == channels && l.spec_bytes_per_pixel()
                == pixel_bytes,
    {
        if channels == 1 && pixel_bytes == 1 {
            Some(PixelLayout::L8)
        } else if channels == 2 && pixel_bytes == 2 {
            Some(PixelLayout::La8)
        } else if channels == 3 && pixel_bytes == 3 {
            Some(PixelLayout::Rgb8)
        } else if channels == 4 && pixel_bytes == 4 {
            Some(PixelLayout::Rgba8)
        } else if channels == 1 && pixel_bytes == 2 {
            Some(PixelLayout::L16)
        } else if channels == 2 && pixel_bytes == 4 {
            Some(PixelLayout::La16)
        } else if channels == 3 && pixel_bytes == 6 {
            Some(PixelLayout::Rgb16)
        } else if channels == 4 && pixel_bytes == 8 {
            Some(PixelLayout::Rgba16)
        } else {
            None
        }
    }
}

/// The number of bytes that the samples of a `width` by `height` image take.
pub open spec fn spec_sample_bytes(width: int, height: int, layout: PixelLayout) -> int {
    width * height * layout.spec_bytes_per_pixel()
}

/// An image in memory: its size, the layout of its pixels, and its samples row
/// by row from the top left. Samples of 16 bits are in the byte order of the
/// machine.
pub struct Raster {
    pub width: u32,
    pub height: u32,
    pub layout: PixelLayout,
    pub data: Vec<u8>,
}

/// What a raster holds.
pub struct RasterView {
    pub width: int,
    pub height: int,
    pub layout: PixelLayout,
    pub data: Seq<u8>,
}

impl View for Raster {
    type V = RasterView;

    open spec fn view(&self) -> RasterView {
        RasterView {
            width: self.width as int,
            height: self.height as int,
            layout: self.layout,
            data: self.data@,
        }
    }
}

impl RasterView {
    /// There are exactly as many sample bytes as the size and the layout ask for.
    pub open spec fn wf(self) -> bool {
        self.data.len() == spec_sample_bytes(self.width, self.height, self.layout)
    }
}

/// The number of bytes that the samples of a `width` by `height` image take,
/// where that number fits the machine.
pub fn sample_bytes(width: u32, height: u32, layout: PixelLayout) -> (n: Option<usize>)
    ensures
        match n {
            Some(n) => n == spec_sample_bytes(width as int, height as int, layout),
            None => spec_sample_bytes(width as int, height as int, layout) > usize::MAX,
        },
{
    let bpp = layout.bytes_per_pixel();
    assert(width * height <= 0xffff_ffff * 0xffff_ffff) by (nonlinear_arith)
        requires
            width <= 0xffff_ffff,
            height <= 0xffff_ffff,
    ;
    let pixels: u128 = (width as u128) * (height as u128);
    assert(pixels * bpp <= 0xffff_ffff * 0xffff_ffff * 8) by (nonlinear_arith)
        requires
            pixels <= 0xffff_ffff * 0xffff_ffff,
            bpp <= 8,
    ;
    let bytes: u128 = pixels * (bpp as u128);
    if bytes > usize::MAX as u128 {
        None
    } else {
        Some(bytes as usize)
    }
}

impl Raster {
    /// Whether the raster holds exactly the samples that its size and layout ask for.
    pub fn is_well_formed(&self) -> (ok: bool)
        ensures
            ok == self@.wf(),
    {
        let held: usize = self.data.len();
        match sample_bytes(self.width, self.height, self.layout) {
            Some(n) => held == n,
            None => false,
        }
    }

    /// A raster of the given size and layout over `data`, where `data` has
    /// exactly the length that they ask for.
    pub fn new(width: u32, height: u32, layout: PixelLayout, data: Vec<u8>) -> (raster: Option<
        Raster,
    >)
        ensures
            raster is Some <==> data@.len() == spec_sample_bytes(
                width as int,
                height as int,
                layout,
            ),
            raster matches Some(r) ==> r@ == (RasterView {
                width: width as int,
                height: height as int,
                layout,
                data: data@,
            }),
    {
        let raster = Raster { width, height, layout, data };
        if raster.is_well_formed() {
            Some(raster)
        } else {
            None
        }
    }

    /// A copy of the raster.
    pub fn duplicate(&self) -> (copy: Raster)
        ensures
            copy@ == self@,
    {
        Raster {
            width: self.width,
            height: self.height,
            layout: self.layout,
            data: self.data.clone(),
        }
    }
}

/// The resampling filters: a cheap one, and one of higher quality.
#[derive(Clone, Copy, Debug, PartialEq, Eq, Structural)]
pub enum ResizeFilter {
    Bilinear,
    Lanczos3,
}

/// The side length up to which the cheap filter is used.
pub const SMALL_SIDE: u32 = 200;

/// The filter for an output of the given size: the cheap one where either side
/// is at most `SMALL_SIDE`, where the difference would not show.
pub open spec fn spec_select_filter(width: int, height: int) -> ResizeFilter {
    if width <= SMALL_SIDE || height <= SMALL_SIDE {
        ResizeFilter::Bilinear
    } else {
        ResizeFilter::Lanczos3
    }
}

/// The filter for an output of the given size.
pub fn select_filter(width: u32, height: u32) -> (filter: ResizeFilter)
    ensures
        filter == spec_select_filter(width as int, height as int),
{
    if width <= SMALL_SIDE || height <= SMALL_SIDE {
        ResizeFilter::Bilinear
    } else {
        ResizeFilter::Lanczos3
    }
}

/// How hard the encoder tries to make a file small.
#[derive(Clone, Copy, Debug, PartialEq, Eq, Structural)]
pub enum CompressionBucket {
    Fast,
    Balanced,
    High,
}

/// The bucket of a compression level: 0 to 3 fast, 4 to 6 balanced, 7 to 9
/// high, and balanced for any level beyond 9.
pub open spec fn spec_compression_bucket(level: int) -> CompressionBucket {
    if 0 <= level <= 3 {
        CompressionBucket::Fast
    } else if 7 <= level <= 9 {
        CompressionBucket::High
    } else {
        CompressionBucket::Balanced
    }
}

/// The bucket of a compression level.
pub fn compression_bucket(level: u8) -> (bucket: CompressionBucket)
    ensures
        bucket == spec_compression_bucket(level as int),
{
    if level <= 3 {
        CompressionBucket::Fast
    } else if 7 <= level && level <= 9 {
        CompressionBucket::High
    } else {
        CompressionBucket::Balanced
    }
}

/// The colour types of a PNG file.
#[derive(Clone, Copy, Debug, PartialEq, Eq, Structural)]
pub enum PngColor {
    Grayscale,
    GrayscaleAlpha,
    Rgb,
    Rgba,
}

/// The colour type that a PNG file of pixels in `layout` has.
pub open spec fn spec_png_color(layout: PixelLayout) -> PngColor {
    match layout {
        PixelLayout::L8 | PixelLayout::L16 => PngColor::Grayscale,
        PixelLayout::La8 | PixelLayout::La16 => PngColor::GrayscaleAlpha,
        PixelLayout::Rgb8 | PixelLayout::Rgb16 => PngColor::Rgb,
        PixelLayout::Rgba8 | PixelLayout::Rgba16 => PngColor::Rgba,
    }
}

/// The colour type that a PNG file of pixels in `layout` has.
pub fn png_color(layout: PixelLayout) -> (color: PngColor)
    ensures
        color == spec_png_color(layout),
{
    match layout {
        PixelLayout::L8 | PixelLayout::L16 => PngColor::Grayscale,
        PixelLayout::La8 | PixelLayout::La16 => PngColor::GrayscaleAlpha,
        PixelLayout::Rgb8 | PixelLayout::Rgb16 => PngColor::Rgb,
        PixelLayout::Rgba8 | PixelLayout::Rgba16 => PngColor::Rgba,
    }
}

/// The bit depth that a PNG file of pixels in `layout` has.
pub open spec fn spec_png_depth(layout: PixelLayout) -> PngDepth {
    if layout.spec_is_wide() {
        PngDepth::Sixteen
    } else {
        PngDepth::Eight
    }
}

/// The bit depth that a PNG file of pixels in `layout` has.
pub fn png_depth(layout: PixelLayout) -> (depth: PngDepth)
    ensures
        depth == spec_png_depth(layout),
{
    if layout.is_wide() {
        PngDepth::Sixteen
    } else {
        PngDepth::Eight
    }
}

/// Why an image could not be read, resized or written.
#[derive(Clone, Copy, Debug, PartialEq, Eq, Structural)]
pub enum CodecError {
    /// The raster does not hold the samples that its size and layout ask for.
    Malformed,
    /// The bytes are no image in any supported format, even after the search
    /// for a displaced header.
    Decode,
    /// The resampler refused the image.
    Resize,
    /// The encoder refused the image.
    Encode,
}

impl CodecError {
    /// A sentence for the user.
    pub fn message(&self) -> (text: &'static str)
        ensures
            text@ == match self {
                CodecError::Malformed => "Image data does not match its dimensions"@,
                CodecError::Decode => "Failed to decode image"@,
                CodecError::Resize => "Failed to resize image"@,
                CodecError::Encode => "Failed to encode image"@,
            },
    {
        match self {
            CodecError::Malformed => "Image data does not match its dimensions",
            CodecError::Decode => "Failed to decode image",
            CodecError::Resize => "Failed to resize image",
            CodecError::Encode => "Failed to encode image",
        }
    }
}

/// The raster that the parts of a decoded image make, where their layout is
/// one of the eight known ones and the samples have the length that the size
/// and the layout ask for.
pub open spec fn spec_raster_from_parts(parts: Unpacked) -> Option<RasterView> {
    match PixelLayout::spec_from_counts(parts.channels as int, parts.pixel_bytes as int) {
        None => None,
        Some(layout) => if parts.data@.len() == spec_sample_bytes(
            parts.width as int,
            parts.height as int,
            layout,
        ) {
            Some(
                RasterView {
                    width: parts.width as int,
                    height: parts.height as int,
                    layout,
                    data: parts.data@,
                },
            )
        } else {
            None
        },
    }
}

/// The raster that the parts of a decoded image make, if they make one.
pub fn raster_from_parts(parts: Unpacked) -> (raster: Option<Raster>)
    ensures
        match raster {
            Some(r) => spec_raster_from_parts(parts) == Some(r@) && r@.wf(),
            None => spec_raster_from_parts(parts) is None,
        },
{
    match PixelLayout::from_counts(parts.channels, parts.pixel_bytes) {
        None => None,
        Some(layout) => Raster::new(parts.width, parts.height, layout, parts.data),
    }
}

/// The first two bytes of a JPEG file.
pub open spec fn spec_jpeg_signature() -> Seq<u8> {
    seq![0xFFu8, 0xD8u8]
}

/// The first eight bytes of a PNG file.
pub open spec fn spec_png_signature() -> Seq<u8> {
    seq![0x89u8, 0x50u8, 0x4Eu8, 0x47u8, 0x0Du8, 0x0Au8, 0x1Au8, 0x0Au8]
}

/// The first two bytes of a JPEG file.
pub fn jpeg_signature() -> (signature: Vec<u8>)
    ensures
        signature@ == spec_jpeg_signature(),
{
    let mut signature: Vec<u8> = Vec::new();
    signature.push(0xFF);
    signature.push(0xD8);
    assert(signature@ =~= spec_jpeg_signature());
    signature
}

/// The first eight bytes of a PNG file.
pub fn png_signature() -> (signature: Vec<u8>)
    ensures
        signature@ == spec_png_signature(),
{
    let mut signature: Vec<u8> = Vec::new();
    signature.push(0x89);
    signature.push(0x50);
    signature.push(0x4E);
    signature.push(0x47);
    signature.push(0x0D);
    signature.push(0x0A);
    signature.push(0x1A);
    signature.push(0x0A);
    assert(signature@ =~= spec_png_signature());
    signature
}

/// Whether `signature` stands in `bytes` at position `at`.
pub fn bytes_occur_at(bytes: &[u8], signature: &[u8], at: usize) -> (r: bool)
    ensures
        r == occurs_at(bytes@, signature@, at as int),
{
    if at > bytes.len() || signature.len() > bytes.len() - at {
        return false;
    }
    let mut i: usize = 0;
    while i < signature.len()
        invariant
            i <= signature.len(),
            at + signature.len() <= bytes.len(),
            bytes@.subrange(at as int, at + i) == signature@.take(i as int),
        decreases signature.len() - i,
    {
        if bytes[at + i] != signature[i] {
            assert(bytes@.subrange(at as int, at + signature.len())[i as int] == bytes@[at + i]);
            return false;
        }
        assert(bytes@.subrange(at as int, at + i + 1) =~= bytes@.subrange(
            at as int,
            at + i,
        ).push(bytes@[at + i]));
        assert(signature@.take(i + 1) =~= signature@.take(i as int).push(signature@[i as int]));
        i += 1;
    }
    assert(signature@.take(signature@.len() as int) =~= signature@);
    true
}

/// `at` is the first position from `from` on at which `signature` stands in `bytes`.
pub open spec fn is_first_occurrence(
    bytes: Seq<u8>,
    signature: Seq<u8>,
    from: int,
    at: int,
) -> bool {
    &&& from <= at
    &&& occurs_at(bytes, signature, at)
    &&& forall|k: int| from <= k < at ==> !occurs_at(bytes, signature, k)
}

/// The first position from `from` on at which `signature` stands in `bytes`.
///
/// A file whose first bytes were lost or spoiled still holds its signature
/// further in; decoding is tried again from there.
pub fn signature_offset(bytes: &[u8], signature: &[u8], from: usize) -> (found: Option<usize>)
    ensures
        match found {
            Some(at) => is_first_occurrence(bytes@, signature@, from as int, at as int),
            None => forall|k: int| from <= k ==> !occurs_at(bytes@, signature@, k),
        },
{
    if from > bytes.len() || signature.len() > bytes.len() - from {
        return None;
    }
    let last: usize = bytes.len() - signature.len();
    let mut at: usize = from;
    loop
        invariant
            from <= at <= last,
            last == bytes.len() - signature.len(),
            forall|k: int| from <= k < at ==> !occurs_at(bytes@, signature@, k),
        decreases last - at,
    {
        if bytes_occur_at(bytes, signature, at) {
            return Some(at);
        }
        if at == last {
            return None;
        }
        at += 1;
    }
}

/// Resizes an image so that it lies within `max_width` by `max_height`, with
/// the ratio of its sides kept.
///
/// An image that fits is handed back as it is. Any other is resampled to
/// exactly the size that `calculate_dimensions` gives, with the filter that
/// `select_filter` picks for that size.
pub fn resize_preserving_aspect_ratio(image: &Raster, max_width: u32, max_height: u32) -> (result:
    Result<Raster, CodecError>)
    ensures
        !image@.wf() <==> result == Err::<Raster, CodecError>(CodecError::Malformed),
        image@.wf() && fits_within(
            image.width as int,
            image.height as int,
            max_width as int,
            max_height as int,
        ) ==> result is Ok,
        match result {
            Ok(out) => {
                &&& out@.wf()
                &&& out.layout == image.layout
                &&& (out.width as int, out.height as int) == spec_calculate_dimensions(
                    image.width as int,
                    image.height as int,
                    max_width as int,
                    max_height as int,
                )
                &&& fits_within(
                    image.width as int,
                    image.height as int,
                    max_width as int,
                    max_height as int,
                ) ==> out@ == image@
            },
            Err(e) => e == CodecError::Malformed || e == CodecError::Resize,
        },
{
    if !image.is_well_formed() {
        return Err(CodecError::Malformed);
    }
    if image.width <= max_width && image.height <= max_height {
        return Ok(image.duplicate());
    }
    let (width, height) = calculate_dimensions(image.width, image.height, max_width, max_height);
    let filter = select_filter(width, height);
    proof {
        let b = image.layout.spec_bytes_per_pixel();
        assert(width * height * b <= image.width * image.height * b) by (nonlinear_arith)
            requires
                0 <= width <= image.width,
                0 <= height <= image.height,
                0 <= b,
        ;
    }
    match resample(
        image.data.as_slice(),
        image.width,
        image.height,
        image.layout,
        width,
        height,
        filter,
    ) {
        None => Err(CodecError::Resize),
        Some(data) => Ok(Raster { width, height, layout: image.layout, data }),
    }
}

/// The samples of 16 bits in `data`, each with its two bytes exchanged.
pub open spec fn spec_swapped_pairs(data: Seq<u8>) -> Seq<u8> {
    Seq::new(
        data.len(),
        |i: int|
            if i % 2 == 0 {
                if i + 1 < data.len() {
                    data[i + 1]
                } else {
                    data[i]
                }
            } else {
                data[i - 1]
            },
    )
}

/// The samples of 16 bits in `data`, each with its two bytes exchanged. A
/// byte left over at the end stays.
pub fn swapped_pairs(data: &[u8]) -> (out: Vec<u8>)
    ensures
        out@ == spec_swapped_pairs(data@),
{
    let mut out: Vec<u8> = Vec::new();
    let mut i: usize = 0;
    while i < data.len()
        invariant
            i <= data.len(),
            i % 2 == 0,
            out@ == spec_swapped_pairs(data@).take(i as int),
        decreases data.len() - i,
    {
        let ghost before = out@;
        if data.len() - i >= 2 {
            out.push(data[i + 1]);
            out.push(data[i]);
            assert(out@ =~= spec_swapped_pairs(data@).take(i + 2));
            i += 2;
        } else {
            out.push(data[i]);
            assert(out@ =~= spec_swapped_pairs(data@).take(i + 1));
            assert(i + 1 == data.len());
            assert(spec_swapped_pairs(data@).take(i + 1) =~= spec_swapped_pairs(data@));
            return out;
        }
    }
    assert(spec_swapped_pairs(data@).take(i as int) =~= spec_swapped_pairs(data@));
    out
}

/// The PNG file of an image over `samples`: its colour type and depth are
/// those of the image's layout, its compression that of the bucket of
/// `level`, and its rows are written with the filter `Sub`.
pub open spec fn spec_png_of(image: RasterView, level: int, samples: Seq<u8>) -> Option<Seq<u8>> {
    png_file(
        image.width,
        image.height,
        spec_png_color(image.layout),
        spec_png_depth(image.layout),
        spec_compression_bucket(level),
        RowFilter::Sub,
        samples,
    )
}

/// `outcome` is what encoding an image as PNG gives. Samples of 8 bits are
/// encoded as they are. Samples of 16 bits are handed over most significant
/// byte first: as they are on a machine that keeps them so, and else with the
/// two bytes of each exchanged.
pub open spec fn spec_png_outcome(image: RasterView, level: int, outcome: Option<Seq<u8>>) -> bool {
    ||| outcome == spec_png_of(image, level, image.data)
    ||| image.layout.spec_is_wide() && outcome == spec_png_of(
        image,
        level,
        spec_swapped_pairs(image.data),
    )
}

/// The file, or none for a failure.
pub open spec fn spec_file_of<E>(result: Result<Vec<u8>, E>) -> Option<Seq<u8>> {
    match result {
        Ok(file) => Some(file@),
        Err(_) => None,
    }
}

/// Encodes an image as a PNG file.
///
/// The colour type and the bit depth of the file are those of the image's
/// layout; the compression is that of the bucket of `compression_level`.
pub fn save_image_as_png(image: &Raster, compression_level: u8) -> (result: Result<
    Vec<u8>,
    CodecError,
>)
    ensures
        !image@.wf() <==> result == Err::<Vec<u8>, CodecError>(CodecError::Malformed),
        result matches Err(e) ==> e == CodecError::Malformed || e == CodecError::Encode,
        image@.wf() ==> spec_png_outcome(image@, compression_level as int, spec_file_of(result)),
{
    if !image.is_well_formed() {
        return Err(CodecError::Malformed);
    }
    let color = png_color(image.layout);
    let bucket = compression_bucket(compression_level);
    let depth = png_depth(image.layout);
    let encoded = if image.layout.is_wide() && native_sample(1, 0) == 1 {
        let ordered = swapped_pairs(image.data.as_slice());
        encode_png(
            image.width,
            image.height,
            color,
            depth,
            bucket,
            RowFilter::Sub,
            ordered.as_slice(),
        )
    } else {
        encode_png(
            image.width,
            image.height,
            color,
            depth,
            bucket,
            RowFilter::Sub,
            image.data.as_slice(),
        )
    };
    match encoded {
        None => Err(CodecError::Encode),
        Some(file) => Ok(file),
    }
}

/// Encodes an image as a file in `format`. For an image with samples of 8
/// bits the file is the one that the encoder of the format writes for its
/// size, layout and samples.
pub fn save_image_as(image: &Raster, format: ImageFormat) -> (result: Result<Vec<u8>, CodecError>)
    ensures
        !image@.wf() <==> result == Err::<Vec<u8>, CodecError>(CodecError::Malformed),
        result matches Err(e) ==> e == CodecError::Malformed || e == CodecError::Encode,
        image@.wf() && !image.layout.spec_is_wide() ==> spec_file_of(result) == encoded_file(
            image.data@,
            image.width as int,
            image.height as int,
            image.layout,
            format,
        ),
{
    if !image.is_well_formed() {
        return Err(CodecError::Malformed);
    }
    match encode_with_format(
        image.data.as_slice(),
        image.width,
        image.height,
        image.layout,
        format,
    ) {
        None => Err(CodecError::Encode),
        Some(file) => Ok(file),
    }
}

/// `resized` is `image` brought within the bounds: a raster in the same
/// layout and of exactly the size that `spec_calculate_dimensions` gives.
pub open spec fn spec_is_resized(
    image: RasterView,
    max_width: int,
    max_height: int,
    resized: RasterView,
) -> bool {
    &&& resized.wf()
    &&& resized.layout == image.layout
    &&& (resized.width, resized.height) == spec_calculate_dimensions(
        image.width,
        image.height,
        max_width,
        max_height,
    )
}

/// `outcome` is what making a thumbnail gives: for an image that fits, the
/// PNG file of the image itself; for any other, the PNG file of the image
/// brought within the bounds.
pub open spec fn spec_thumbnail_outcome(
    image: RasterView,
    max_width: int,
    max_height: int,
    level: int,
    outcome: Option<Seq<u8>>,
) -> bool {
    if fits_within(image.width, image.height, max_width, max_height) {
        spec_png_outcome(image, level, outcome)
    } else {
        exists|resized: RasterView| #[trigger]
            spec_is_resized(image, max_width, max_height, resized) && spec_png_outcome(
                resized,
                level,
                outcome,
            )
    }
}

/// Makes the thumbnail of an image: the image resized to lie within
/// `max_width` by `max_height`, as a PNG file.
///
/// Only the resampler can fail before the encoder is asked, and only for an
/// image that does not fit.
pub fn generate_thumbnail_from_image(
    image: &Raster,
    max_width: u32,
    max_height: u32,
    compression_level: u8,
) -> (result: Result<Vec<u8>, CodecError>)
    ensures
        !image@.wf() <==> result == Err::<Vec<u8>, CodecError>(CodecError::Malformed),
        result matches Err(e) ==> e == CodecError::Malformed || e == CodecError::Resize || e
            == CodecError::Encode,
        result == Err::<Vec<u8>, CodecError>(CodecError::Resize) ==> !fits_within(
            image.width as int,
            image.height as int,
            max_width as int,
            max_height as int,
        ),
        image@.wf() && result != Err::<Vec<u8>, CodecError>(CodecError::Resize)
            ==> spec_thumbnail_outcome(
            image@,
            max_width as int,
            max_height as int,
            compression_level as int,
            spec_file_of(result),
        ),
{
    match resize_preserving_aspect_ratio(image, max_width, max_height) {
        Err(e) => Err(e),
        Ok(resized) => {
            let result = save_image_as_png(&resized, compression_level);
            proof {
                assert(spec_is_resized(
                    image@,
                    max_width as int,
                    max_height as int,
                    resized@,
                ));
            }
            result
        },
    }
}

} // verus!
