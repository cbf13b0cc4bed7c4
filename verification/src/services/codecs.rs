//! The calls into the image codecs and the resampler.
//!
//! Nothing here is proved: each function states what is taken on trust of the
//! code it calls. The logic around these calls is in `thumbnail_service`.

use crate::models::enums::image_format::ImageFormat;
use crate::services::thumbnail_service::{
    spec_sample_bytes, CompressionBucket, PixelLayout, PngColor, ResizeFilter,
};
use fast_image_resize::images::{Image, ImageRef};
use fast_image_resize::{FilterType, PixelType};
use image::ExtendedColorType;
use png::{BitDepth, ColorType, Compression};
use crate::services::codecs::PngDepth::{Eight, Sixteen};
use crate::services::codecs::RowFilter::{NoFilter, Sub};
use crate::services::thumbnail_service::CompressionBucket::{Balanced, Fast, High};
use crate::services::thumbnail_service::PngColor::{Grayscale, GrayscaleAlpha, Rgb, Rgba};
use vstd::prelude::*;

verus! {

/// What a decoded image holds, as plain values: its size, the number of
/// samples and of bytes in a pixel, and its samples.
pub struct Unpacked {
    pub width: u32,
    pub height: u32,
    pub channels: u8,
    pub pixel_bytes: u8,
    pub data: Vec<u8>,
}

/// The filters that a PNG file's rows are written with.
#[derive(Clone, Copy, Debug, PartialEq, Eq, Structural)]
pub enum RowFilter {
    NoFilter,
    Sub,
}

/// The PNG file that the `png` crate's encoder writes for an image of the
/// given size, colour type, depth, compression and row filter over
/// `samples`; none where the encoder refuses.
pub uninterp spec fn png_file(
    width: int,
    height: int,
    color: PngColor,
    depth: PngDepth,
    bucket: CompressionBucket,
    filter: RowFilter,
    samples: Seq<u8>,
) -> Option<Seq<u8>>;

/// The file that `image::write_buffer_with_format` writes in `format` for an
/// image of the given size and layout over `samples`; none where the encoder
/// refuses.
pub uninterp spec fn encoded_file(
    samples: Seq<u8>,
    width: int,
    height: int,
    layout: PixelLayout,
    format: ImageFormat,
) -> Option<Seq<u8>>;

/// The bit depths of a PNG file that are written.
#[derive(Clone, Copy, Debug, PartialEq, Eq, Structural)]
pub enum PngDepth {
    Eight,
    Sixteen,
}

/// The format that `image::guess_format` tells from the first bytes of a
/// file, where it is one of the six that are kept; none for other bytes.
pub uninterp spec fn guessed_format(bytes: Seq<u8>) -> Option<ImageFormat>;

/// `image::guess_format`: the format of a file, told from its first bytes
/// against a fixed table of signatures. The contract only gives the result
/// its name.
#[verifier::external_body]
pub(crate) fn guess_format(bytes: &[u8]) -> (format: Option<ImageFormat>)
    ensures
        format == guessed_format(bytes@),
{
    match image::guess_format(bytes) {
        Ok(image::ImageFormat::Jpeg) => Some(ImageFormat::Jpeg),
        Ok(image::ImageFormat::Png) => Some(ImageFormat::Png),
        Ok(image::ImageFormat::Gif) => Some(ImageFormat::Gif),
        Ok(image::ImageFormat::WebP) => Some(ImageFormat::WebP),
        Ok(image::ImageFormat::Bmp) => Some(ImageFormat::Bmp),
        Ok(image::ImageFormat::Tiff) => Some(ImageFormat::Tiff),
        _ => None,
    }
}

/// What the decoder of `format` makes of `bytes`, as far as it is the same
/// on every machine: the width and height of the image, the number of
/// samples and of bytes in a pixel, and the number of bytes that its samples
/// take. None where the decoder refuses the bytes.
pub uninterp spec fn decoded_shape(bytes: Seq<u8>, format: ImageFormat) -> Option<
    (int, int, int, int, int),
>;

/// The same for the decoded image converted to red, green, blue and alpha at
/// 8 bits.
pub uninterp spec fn decoded_rgba8_shape(bytes: Seq<u8>, format: ImageFormat) -> Option<
    (int, int, int, int, int),
>;

/// The size, the layout and the number of sample bytes of a decoded image.
pub open spec fn spec_shape_of(parts: Unpacked) -> (int, int, int, int, int) {
    (
        parts.width as int,
        parts.height as int,
        parts.channels as int,
        parts.pixel_bytes as int,
        parts.data@.len() as int,
    )
}

/// `image::load_from_memory_with_format`: decodes `bytes` with the decoder
/// of `format`, and hands the image back as plain values. The contract names
/// the size and layout of the image and the length of its samples; of the
/// samples themselves it claims nothing, since a decoder may compute them in
/// a way that differs from machine to machine.
#[verifier::external_body]
pub(crate) fn load_forced(bytes: &[u8], format: ImageFormat) -> (parts: Option<Unpacked>)
    ensures
        decoded_shape(bytes@, format) == match parts {
            Some(p) => Some(spec_shape_of(p)),
            None => None,
        },
{
    let forced = match format {
        ImageFormat::Jpeg => image::ImageFormat::Jpeg, ImageFormat::Png => image::ImageFormat::Png,
        ImageFormat::Gif => image::ImageFormat::Gif, ImageFormat::WebP => image::ImageFormat::WebP,
        ImageFormat::Bmp => image::ImageFormat::Bmp, ImageFormat::Tiff => image::ImageFormat::Tiff,
    };
    let image = image::load_from_memory_with_format(bytes, forced).ok()?;
    Some(Unpacked {
        width: image.width(),
        height: image.height(),
        channels: image.color().channel_count(),
        pixel_bytes: image.color().bytes_per_pixel(),
        data: image.into_bytes(),
    })
}

/// `image::load_from_memory_with_format` and `DynamicImage::to_rgba8`:
/// decodes as `load_forced` does and converts the image to red, green, blue
/// and alpha at 8 bits. It is asked only for an image in a layout that the
/// library does not keep.
#[verifier::external_body]
pub(crate) fn load_forced_rgba8(bytes: &[u8], format: ImageFormat) -> (parts: Option<Unpacked>)
    ensures
        decoded_rgba8_shape(bytes@, format) == match parts {
            Some(p) => Some(spec_shape_of(p)),
            None => None,
        },
{
    let forced = match format {
        ImageFormat::Jpeg => image::ImageFormat::Jpeg, ImageFormat::Png => image::ImageFormat::Png,
        ImageFormat::Gif => image::ImageFormat::Gif, ImageFormat::WebP => image::ImageFormat::WebP,
        ImageFormat::Bmp => image::ImageFormat::Bmp, ImageFormat::Tiff => image::ImageFormat::Tiff,
    };
    let decoded = image::load_from_memory_with_format(bytes, forced).ok()?;
    let image = image::DynamicImage::ImageRgba8(decoded.to_rgba8());
    Some(Unpacked {
        width: image.width(),
        height: image.height(),
        channels: image.color().channel_count(),
        pixel_bytes: image.color().bytes_per_pixel(),
        data: image.into_bytes(),
    })
}

/// `fast_image_resize::Resizer::resize`: resamples an image to `new_width` by
/// `new_height` with a convolution by `filter`.
///
/// The contract says that the samples handed back are those of the
/// destination image, which was made for exactly the new size in the same
/// layout. The resizer refuses some inputs without panicking; the destination
/// is allocated before the call, which is why its size is bounded by that of
/// the source.
#[verifier::external_body]
pub(crate) fn resample(
    data: &[u8],
    width: u32,
    height: u32,
    layout: PixelLayout,
    new_width: u32,
    new_height: u32,
    filter: ResizeFilter,
) -> (out: Option<Vec<u8>>)
    requires
        data@.len() == spec_sample_bytes(width as int, height as int, layout),
        spec_sample_bytes(new_width as int, new_height as int, layout) <= data@.len(),
    ensures
        out matches Some(o) ==> o@.len() == spec_sample_bytes(
            new_width as int,
            new_height as int,
            layout,
        ),
{
    let pixel = match layout {
        PixelLayout::L8 => PixelType::U8, PixelLayout::La8 => PixelType::U8x2,
        PixelLayout::Rgb8 => PixelType::U8x3, PixelLayout::Rgba8 => PixelType::U8x4,
        PixelLayout::L16 => PixelType::U16, PixelLayout::La16 => PixelType::U16x2,
        PixelLayout::Rgb16 => PixelType::U16x3, PixelLayout::Rgba16 => PixelType::U16x4,
    };
    let kernel = match filter { ResizeFilter::Bilinear => FilterType::Bilinear, ResizeFilter::Lanczos3 => FilterType::Lanczos3 };
    let options = fast_image_resize::ResizeOptions::new().resize_alg(fast_image_resize::ResizeAlg::Convolution(kernel));
    let source = ImageRef::new(width, height, data, pixel).ok()?;
    let mut target = Image::new(new_width, new_height, pixel);
    fast_image_resize::Resizer::new().resize(&source, &mut target, &options).ok()?;
    Some(target.into_vec())
}

/// `u16::from_ne_bytes`: the 16-bit number whose two bytes, in the byte order
/// of the machine, are `first` and `second`. Nothing is claimed of the result.
#[verifier::external_body]
pub(crate) fn native_sample(first: u8, second: u8) -> (value: u16) {
    u16::from_ne_bytes([first, second])
}

/// The `png` crate's encoder (`Encoder::new`, `write_header`,
/// `Writer::write_image_data`, `finish`): a PNG file of the image. Samples of
/// 16 bits are taken most significant byte first. The encoder is given
/// nothing but these arguments, so the contract gives the file its name.
#[verifier::external_body]
pub(crate) fn encode_png(
    width: u32,
    height: u32,
    color: PngColor,
    depth: PngDepth,
    bucket: CompressionBucket,
    filter: RowFilter,
    data: &[u8],
) -> (file: Option<Vec<u8>>)
    ensures
        png_file(width as int, height as int, color, depth, bucket, filter, data@) == match file {
            Some(f) => Some(f@),
            None => None,
        },
{
    let mut file = Vec::new();
    let mut encoder = png::Encoder::new(&mut file, width, height);
    encoder.set_color(match color {
        Grayscale => ColorType::Grayscale, GrayscaleAlpha => ColorType::GrayscaleAlpha,
        Rgb => ColorType::Rgb, Rgba => ColorType::Rgba,
    });
    encoder.set_depth(match depth { Sixteen => BitDepth::Sixteen, Eight => BitDepth::Eight });
    encoder.set_compression(match bucket {
        Fast => Compression::Fast, Balanced => Compression::Balanced, High => Compression::High,
    });
    encoder.set_filter(match filter { Sub => png::Filter::Sub, NoFilter => png::Filter::NoFilter });
    let mut writer = encoder.write_header().ok()?;
    writer.write_image_data(data).ok()?;
    writer.finish().ok()?;
    Some(file)
}

/// `image::write_buffer_with_format`: a file of the image in `format`. The
/// encoder panics where the samples do not have the length that the size and
/// the layout ask for, so the caller has to show that they do. For samples of
/// 8 bits the file is named; samples of 16 bits are read in the byte order of
/// the machine, so of their file nothing is claimed.
#[verifier::external_body]
pub(crate) fn encode_with_format(
    data: &[u8],
    width: u32,
    height: u32,
    layout: PixelLayout,
    format: ImageFormat,
) -> (file: Option<Vec<u8>>)
    requires
        data@.len() == spec_sample_bytes(width as int, height as int, layout),
    ensures
        !layout.spec_is_wide() ==> encoded_file(
            data@,
            width as int,
            height as int,
            layout,
            format,
        ) == match file {
            Some(f) => Some(f@),
            None => None,
        },
{
    let color = match layout {
        PixelLayout::L8 => ExtendedColorType::L8, PixelLayout::La8 => ExtendedColorType::La8,
        PixelLayout::Rgb8 => ExtendedColorType::Rgb8, PixelLayout::Rgba8 => ExtendedColorType::Rgba8,
        PixelLayout::L16 => ExtendedColorType::L16, PixelLayout::La16 => ExtendedColorType::La16,
        PixelLayout::Rgb16 => ExtendedColorType::Rgb16, PixelLayout::Rgba16 => ExtendedColorType::Rgba16,
    };
    let target = match format {
        ImageFormat::Jpeg => image::ImageFormat::Jpeg, ImageFormat::Png => image::ImageFormat::Png,
        ImageFormat::Gif => image::ImageFormat::Gif, ImageFormat::WebP => image::ImageFormat::WebP,
        ImageFormat::Bmp => image::ImageFormat::Bmp, ImageFormat::Tiff => image::ImageFormat::Tiff,
    };
    let mut file = std::io::Cursor::new(Vec::new());
    image::write_buffer_with_format(&mut file, data, width, height, color, target).ok()?;
    Some(file.into_inner())
}

} // verus!
