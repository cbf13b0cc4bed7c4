use organizer::models::enums::image_format::ImageFormat;
use organizer::services::file_service::detect_image_format;
use organizer::services::image_processor::{
    attempt, decode_as, decode_attempt, open_image, progress, Attempt, Progress, ATTEMPTS,
};
use organizer::services::thumbnail_service::{
    calculate_dimensions, compression_bucket, generate_thumbnail_from_image, png_color, resize_preserving_aspect_ratio, save_image_as, save_image_as_png, select_filter,
    signature_offset, swapped_pairs, CodecError, CompressionBucket, PixelLayout, PngColor, Raster,
    ResizeFilter,
};

fn gradient(width: u32, height: u32) -> Raster {
    let mut data = Vec::new();
    for y in 0..height {
        for x in 0..width {
            data.push((x % 256) as u8);
            data.push((y % 256) as u8);
            data.push(((x + y) % 256) as u8);
            data.push(255);
        }
    }
    Raster { width, height, layout: PixelLayout::Rgba8, data }
}

#[test]
fn wide_image_is_scaled_to_the_bounds() {
    assert_eq!(calculate_dimensions(4000, 2000, 500, 500), (500, 250));
}

#[test]
fn small_image_keeps_its_size() {
    assert_eq!(calculate_dimensions(300, 200, 500, 500), (300, 200));
}

#[test]
fn tall_image_is_scaled_by_its_height() {
    assert_eq!(calculate_dimensions(1000, 3000, 500, 500), (167, 500));
}

#[test]
fn scaled_sides_are_rounded_to_the_nearest() {
    // 3 * 500 / 1000 = 1.5 rounds up to 2; 1 * 500 / 1001 rounds down to 0.
    assert_eq!(calculate_dimensions(1000, 3, 500, 500), (500, 2));
    assert_eq!(calculate_dimensions(1001, 1, 500, 500), (500, 0));
}

#[test]
fn image_of_the_size_of_the_bounds_is_unchanged() {
    assert_eq!(calculate_dimensions(500, 500, 500, 500), (500, 500));
}

#[test]
fn empty_sides_stay_empty() {
    assert_eq!(calculate_dimensions(0, 900, 500, 500), (0, 500));
    assert_eq!(calculate_dimensions(900, 0, 500, 500), (500, 0));
    assert_eq!(calculate_dimensions(0, 0, 500, 500), (0, 0));
}

#[test]
fn huge_sides_do_not_overflow() {
    assert_eq!(calculate_dimensions(u32::MAX, u32::MAX, 1, 1), (1, 1));
    assert_eq!(calculate_dimensions(u32::MAX, 1, u32::MAX - 1, 1), (u32::MAX - 1, 1));
}

#[test]
fn filter_is_cheap_for_small_outputs() {
    assert_eq!(select_filter(200, 1000), ResizeFilter::Bilinear);
    assert_eq!(select_filter(1000, 200), ResizeFilter::Bilinear);
    assert_eq!(select_filter(201, 201), ResizeFilter::Lanczos3);
}

#[test]
fn compression_levels_fall_into_three_buckets() {
    assert_eq!(compression_bucket(0), CompressionBucket::Fast);
    assert_eq!(compression_bucket(3), CompressionBucket::Fast);
    assert_eq!(compression_bucket(4), CompressionBucket::Balanced);
    assert_eq!(compression_bucket(6), CompressionBucket::Balanced);
    assert_eq!(compression_bucket(7), CompressionBucket::High);
    assert_eq!(compression_bucket(9), CompressionBucket::High);
    assert_eq!(compression_bucket(10), CompressionBucket::Balanced);
    assert_eq!(compression_bucket(255), CompressionBucket::Balanced);
}

#[test]
fn png_colour_follows_the_layout() {
    assert_eq!(png_color(PixelLayout::L8), PngColor::Grayscale);
    assert_eq!(png_color(PixelLayout::La16), PngColor::GrayscaleAlpha);
    assert_eq!(png_color(PixelLayout::Rgb8), PngColor::Rgb);
    assert_eq!(png_color(PixelLayout::Rgba16), PngColor::Rgba);
}

#[test]
fn layouts_have_their_sizes() {
    assert_eq!(PixelLayout::L8.bytes_per_pixel(), 1);
    assert_eq!(PixelLayout::La8.bytes_per_pixel(), 2);
    assert_eq!(PixelLayout::Rgb8.bytes_per_pixel(), 3);
    assert_eq!(PixelLayout::Rgba8.bytes_per_pixel(), 4);
    assert_eq!(PixelLayout::L16.bytes_per_pixel(), 2);
    assert_eq!(PixelLayout::La16.bytes_per_pixel(), 4);
    assert_eq!(PixelLayout::Rgb16.bytes_per_pixel(), 6);
    assert_eq!(PixelLayout::Rgba16.bytes_per_pixel(), 8);
    assert_eq!(PixelLayout::from_counts(3, 6), Some(PixelLayout::Rgb16));
    assert_eq!(PixelLayout::from_counts(3, 12), None);
}

#[test]
fn raster_wants_exactly_its_samples() {
    assert!(Raster::new(2, 2, PixelLayout::Rgb8, vec![0; 12]).is_some());
    assert!(Raster::new(2, 2, PixelLayout::Rgb8, vec![0; 11]).is_none());
    assert!(Raster::new(0, 7, PixelLayout::Rgb8, vec![]).is_some());
}

#[test]
fn png_round_trip_keeps_size_and_samples() {
    let image = gradient(7, 5);
    let file = save_image_as_png(&image, 6).unwrap();
    assert_eq!(&file[..8], &[0x89, 0x50, 0x4E, 0x47, 0x0D, 0x0A, 0x1A, 0x0A]);
    let back = open_image(&file).unwrap();
    assert_eq!((back.width, back.height), (7, 5));
    assert_eq!(back.layout, PixelLayout::Rgba8);
    assert_eq!(back.data, image.data);
}

#[test]
fn sixteen_bit_png_round_trip_keeps_samples() {
    let mut data = Vec::new();
    for i in 0..6u16 {
        data.extend_from_slice(&(i * 1000 + 7).to_ne_bytes());
    }
    let image = Raster { width: 3, height: 2, layout: PixelLayout::L16, data };
    let file = save_image_as_png(&image, 9).unwrap();
    let back = open_image(&file).unwrap();
    assert_eq!((back.width, back.height, back.layout), (3, 2, PixelLayout::L16));
    assert_eq!(back.data, image.data);
}

#[test]
fn malformed_raster_is_refused() {
    let image = Raster { width: 4, height: 4, layout: PixelLayout::Rgba8, data: vec![0; 10] };
    assert_eq!(save_image_as_png(&image, 5), Err(CodecError::Malformed));
    assert_eq!(save_image_as(&image, ImageFormat::Png), Err(CodecError::Malformed));
    assert!(matches!(
        resize_preserving_aspect_ratio(&image, 2, 2),
        Err(CodecError::Malformed)
    ));
    assert_eq!(generate_thumbnail_from_image(&image, 2, 2, 5), Err(CodecError::Malformed));
}

#[test]
fn resize_gives_exactly_the_calculated_size() {
    let image = gradient(400, 200);
    let small = resize_preserving_aspect_ratio(&image, 50, 50).unwrap();
    assert_eq!((small.width, small.height), (50, 25));
    assert_eq!(small.layout, PixelLayout::Rgba8);
    assert_eq!(small.data.len(), 50 * 25 * 4);
    assert!(small.data.iter().any(|b| *b != 0));
}

#[test]
fn resize_leaves_a_fitting_image_alone() {
    let image = gradient(30, 20);
    let same = resize_preserving_aspect_ratio(&image, 50, 50).unwrap();
    assert_eq!((same.width, same.height), (30, 20));
    assert_eq!(same.data, image.data);
}

#[test]
fn resize_works_on_grey_and_wide_layouts() {
    let grey = Raster { width: 40, height: 40, layout: PixelLayout::L8, data: vec![9; 1600] };
    let small = resize_preserving_aspect_ratio(&grey, 10, 10).unwrap();
    assert_eq!((small.width, small.height, small.data.len()), (10, 10, 100));
}

#[test]
fn thumbnail_is_a_png_within_the_bounds() {
    let image = gradient(300, 600);
    let file = generate_thumbnail_from_image(&image, 100, 100, 9).unwrap();
    let thumb = open_image(&file).unwrap();
    assert_eq!((thumb.width, thumb.height), (50, 100));
    assert_eq!(detect_image_format(&file), ImageFormat::Png);
}

#[test]
fn original_is_encoded_in_its_format() {
    let image = Raster {
        width: 8,
        height: 8,
        layout: PixelLayout::Rgb8,
        data: vec![120; 8 * 8 * 3],
    };
    let jpeg = save_image_as(&image, ImageFormat::Jpeg).unwrap();
    assert_eq!(detect_image_format(&jpeg), ImageFormat::Jpeg);
    let bmp = save_image_as(&image, ImageFormat::Bmp).unwrap();
    assert_eq!(detect_image_format(&bmp), ImageFormat::Bmp);
    let gif = save_image_as(&image, ImageFormat::Gif);
    if let Ok(gif) = gif {
        assert_eq!(detect_image_format(&gif), ImageFormat::Gif);
    }
    let back = open_image(&bmp).unwrap();
    assert_eq!((back.width, back.height), (8, 8));
}

#[test]
fn jpeg_refuses_alpha() {
    let image = gradient(4, 4);
    assert_eq!(save_image_as(&image, ImageFormat::Jpeg), Err(CodecError::Encode));
}

#[test]
fn bytes_that_are_no_image_do_not_decode() {
    assert_eq!(open_image(b"this is no image at all").err(), Some(CodecError::Decode));
    assert_eq!(open_image(&[]).err(), Some(CodecError::Decode));
}

#[test]
fn decoding_recovers_a_displaced_png_header() {
    let image = gradient(6, 6);
    let file = save_image_as_png(&image, 5).unwrap();
    let mut spoiled = vec![0x00, 0x13, 0x37, 0x42, 0x42];
    spoiled.extend_from_slice(&file);
    let back = open_image(&spoiled).unwrap();
    assert_eq!((back.width, back.height), (6, 6));
    assert_eq!(back.data, image.data);
}

#[test]
fn decoding_recovers_a_displaced_jpeg_header() {
    let image = Raster {
        width: 8,
        height: 8,
        layout: PixelLayout::Rgb8,
        data: vec![200; 8 * 8 * 3],
    };
    let file = save_image_as(&image, ImageFormat::Jpeg).unwrap();
    let mut spoiled = vec![0x01, 0x02, 0x03];
    spoiled.extend_from_slice(&file);
    let back = open_image(&spoiled).unwrap();
    assert_eq!((back.width, back.height), (8, 8));
}

#[test]
fn signature_is_found_at_its_first_place_from_the_start_given() {
    let bytes = [0xFF, 0xD8, 0x00, 0xFF, 0xD8, 0xFF, 0xD8];
    assert_eq!(signature_offset(&bytes, &[0xFF, 0xD8], 0), Some(0));
    assert_eq!(signature_offset(&bytes, &[0xFF, 0xD8], 1), Some(3));
    assert_eq!(signature_offset(&bytes, &[0xFF, 0xD8], 4), Some(5));
    assert_eq!(signature_offset(&bytes, &[0xFF, 0xD8], 6), None);
    assert_eq!(signature_offset(&bytes, &[0xAA], 0), None);
    assert_eq!(signature_offset(&bytes, &[], 7), Some(7));
    assert_eq!(signature_offset(&bytes, &[], 8), None);
}

#[test]
fn pairs_of_bytes_are_exchanged() {
    assert_eq!(swapped_pairs(&[1, 2, 3, 4]), vec![2, 1, 4, 3]);
    assert_eq!(swapped_pairs(&[1, 2, 3]), vec![2, 1, 3]);
    assert_eq!(swapped_pairs(&[]), Vec::<u8>::new());
}

#[test]
fn format_is_told_from_the_content() {
    assert_eq!(detect_image_format(&[0xFF, 0xD8, 0xFF, 0xAA]), ImageFormat::Jpeg);
    assert_eq!(detect_image_format(b"GIF89a\x01\x00\x01\x00"), ImageFormat::Gif);
    assert_eq!(detect_image_format(b"BM\x00\x00\x00\x00"), ImageFormat::Bmp);
    assert_eq!(detect_image_format(b"plain text"), ImageFormat::Png);
    assert_eq!(detect_image_format(&[]), ImageFormat::Png);
}

#[test]
fn attempts_come_in_their_order() {
    let mut bytes = vec![0u8, 1, 2];
    bytes.extend_from_slice(&[0xFF, 0xD8, 9, 9]);
    bytes.extend_from_slice(&[0x89, 0x50, 0x4E, 0x47, 0x0D, 0x0A, 0x1A, 0x0A]);
    assert_eq!(attempt(&bytes, 0), Some(Attempt { offset: 0, forced: None }));
    assert_eq!(attempt(&bytes, 1), Some(Attempt { offset: 0, forced: Some(ImageFormat::Jpeg) }));
    assert_eq!(attempt(&bytes, 2), Some(Attempt { offset: 0, forced: Some(ImageFormat::Png) }));
    assert_eq!(attempt(&bytes, 3), Some(Attempt { offset: 0, forced: Some(ImageFormat::Gif) }));
    assert_eq!(attempt(&bytes, 4), Some(Attempt { offset: 0, forced: Some(ImageFormat::WebP) }));
    assert_eq!(attempt(&bytes, 5), Some(Attempt { offset: 0, forced: Some(ImageFormat::Tiff) }));
    assert_eq!(attempt(&bytes, 6), Some(Attempt { offset: 0, forced: Some(ImageFormat::Bmp) }));
    assert_eq!(attempt(&bytes, 7), Some(Attempt { offset: 3, forced: None }));
    assert_eq!(attempt(&bytes, 8), Some(Attempt { offset: 7, forced: None }));
    assert_eq!(attempt(&bytes, 9), None);
    assert_eq!(attempt(&[0xFF, 0xD8, 0xFF], 7), None);
    assert_eq!(attempt(&[], 8), None);
}

#[test]
fn decoding_goes_on_until_an_attempt_succeeds() {
    match progress(0, Some(gradient(2, 3))) {
        Progress::Found(raster) => assert_eq!((raster.width, raster.height), (2, 3)),
        _ => panic!("an image ends the decoding"),
    }
    match progress(8, Some(gradient(1, 1))) {
        Progress::Found(raster) => assert_eq!(raster.data.len(), 4),
        _ => panic!("an image ends the decoding"),
    }
    assert!(matches!(progress(0, None), Progress::Retry(1)));
    assert!(matches!(progress(7, None), Progress::Retry(8)));
    assert!(matches!(progress(8, None), Progress::Failed));
    assert!(matches!(progress(usize::MAX, None), Progress::Failed));
    assert_eq!(ATTEMPTS, 9);
}

#[test]
fn forced_decoder_refuses_another_format() {
    let file = save_image_as_png(&gradient(5, 4), 5).unwrap();
    let as_png = decode_as(&file, ImageFormat::Png).unwrap();
    assert_eq!((as_png.width, as_png.height, as_png.layout), (5, 4, PixelLayout::Rgba8));
    assert!(decode_as(&file, ImageFormat::Jpeg).is_none());
    assert!(decode_as(&file, ImageFormat::Gif).is_none());
    assert!(decode_as(&[], ImageFormat::Png).is_none());
}

#[test]
fn attempt_decodes_from_its_offset() {
    let file = save_image_as_png(&gradient(3, 2), 5).unwrap();
    let mut spoiled = vec![7u8; 4];
    spoiled.extend_from_slice(&file);
    assert!(decode_attempt(&spoiled, Attempt { offset: 0, forced: None }).is_none());
    assert!(decode_attempt(&spoiled, Attempt { offset: 0, forced: Some(ImageFormat::Png) }).is_none());
    let found = decode_attempt(&spoiled, Attempt { offset: 4, forced: None }).unwrap();
    assert_eq!((found.width, found.height), (3, 2));
    let found =
        decode_attempt(&spoiled, Attempt { offset: 4, forced: Some(ImageFormat::Png) }).unwrap();
    assert_eq!(found.data, gradient(3, 2).data);
    assert!(decode_attempt(&spoiled, Attempt { offset: spoiled.len(), forced: None }).is_none());
}

#[test]
fn sixteen_bit_colour_keeps_layout_and_values() {
    let mut data = Vec::new();
    for i in 0..(2 * 2 * 3) as u16 {
        data.extend_from_slice(&(i * 5000 + 11).to_ne_bytes());
    }
    let image = Raster { width: 2, height: 2, layout: PixelLayout::Rgb16, data };
    let file = save_image_as_png(&image, 2).unwrap();
    let back = open_image(&file).unwrap();
    assert_eq!((back.width, back.height, back.layout), (2, 2, PixelLayout::Rgb16));
    assert_eq!(back.data, image.data);
}
