use std::io::Cursor;

use base64::engine::general_purpose::STANDARD as BASE64_STANDARD;
use base64::Engine;
use std::path::Path;

use codex_utils_image::cache::PromptImageCache;
use codex_utils_image::format::{can_preserve_source_bytes, format_to_mime};
use codex_utils_image::prompt_image::{choose_image_action, ImageAction};
use codex_utils_image::validate_prompt_image_url;
use codex_utils_image::EncodedImage;
use codex_utils_image::ImageFormat as Format;
use codex_utils_image::ImageProcessingError;
use codex_utils_image::{load_for_prompt_bytes, PromptImageMode, MAX_DIMENSION};
use image::DynamicImage;
use image::GenericImageView;
use image::ImageBuffer;
use image::ImageFormat;
use image::Rgba;

fn image_bytes(image: &ImageBuffer<Rgba<u8>, Vec<u8>>, format: ImageFormat) -> Vec<u8> {
    let mut encoded = Cursor::new(Vec::new());
    DynamicImage::ImageRgba8(image.clone())
        .write_to(&mut encoded, format)
        .expect("encode image to bytes");
    encoded.into_inner()
}

#[test]
fn returns_original_image_when_within_bounds() {
    for (format, mime) in [
        (ImageFormat::Png, "image/png"),
        (ImageFormat::WebP, "image/webp"),
    ] {
        let image = ImageBuffer::from_pixel(64, 32, Rgba([10u8, 20, 30, 255]));
        let original_bytes = image_bytes(&image, format);

        let encoded = load_for_prompt_bytes(
            Path::new("in-memory-image"),
            original_bytes.clone(),
            PromptImageMode::ResizeToFit,
        )
        .expect("process image");

        assert_eq!(encoded.width, 64);
        assert_eq!(encoded.height, 32);
        assert_eq!(encoded.mime, mime);
        assert_eq!(encoded.bytes, original_bytes);
    }
}

#[test]
fn downscales_large_image() {
    for (format, mime) in [
        (ImageFormat::Png, "image/png"),
        (ImageFormat::WebP, "image/webp"),
    ] {
        let image = ImageBuffer::from_pixel(4096, 2048, Rgba([200u8, 10, 10, 255]));
        let original_bytes = image_bytes(&image, format);

        let processed = load_for_prompt_bytes(
            Path::new("in-memory-image"),
            original_bytes,
            PromptImageMode::ResizeToFit,
        )
        .expect("process image");

        assert!(processed.width <= MAX_DIMENSION);
        assert!(processed.height <= MAX_DIMENSION);
        assert_eq!(processed.mime, mime);

        let detected_format =
            image::guess_format(&processed.bytes).expect("detect resized output format");
        assert_eq!(detected_format, format);

        let loaded = image::load_from_memory(&processed.bytes)
            .expect("read resized bytes back into image");
        assert_eq!(loaded.dimensions(), (processed.width, processed.height));
    }
}

#[test]
fn downscales_tall_image_to_fit_square_bounds() {
    let image = ImageBuffer::from_pixel(1024, 4096, Rgba([200u8, 10, 10, 255]));
    let original_bytes = image_bytes(&image, ImageFormat::Png);

    let processed = load_for_prompt_bytes(
        Path::new("in-memory-image"),
        original_bytes,
        PromptImageMode::ResizeToFit,
    )
    .expect("process image");

    assert_eq!(processed.width, 512);
    assert_eq!(processed.height, MAX_DIMENSION);
    assert_eq!(processed.mime, "image/png");
}

#[test]
fn preserves_large_image_in_original_mode() {
    let image = ImageBuffer::from_pixel(4096, 2048, Rgba([180u8, 30, 30, 255]));
    let original_bytes = image_bytes(&image, ImageFormat::Png);

    let processed = load_for_prompt_bytes(
        Path::new("in-memory-image"),
        original_bytes.clone(),
        PromptImageMode::Original,
    )
    .expect("process image");

    assert_eq!(processed.width, 4096);
    assert_eq!(processed.height, 2048);
    assert_eq!(processed.mime, "image/png");
    assert_eq!(processed.bytes, original_bytes);
}

#[test]
fn fails_cleanly_for_invalid_images() {
    let err = load_for_prompt_bytes(
        Path::new("in-memory-image"),
        b"not an image".to_vec(),
        PromptImageMode::ResizeToFit,
    )
    .expect_err("invalid image should fail");
    assert!(matches!(
        err,
        ImageProcessingError::Decode { .. } | ImageProcessingError::UnsupportedImageFormat { .. }
    ));
}

#[test]
fn reprocesses_updated_file_contents() {
    let mut cache = PromptImageCache::new_default();
    {
        cache.clear();
    }

    let first_image = ImageBuffer::from_pixel(32, 16, Rgba([20u8, 120, 220, 255]));
    let first_bytes = image_bytes(&first_image, ImageFormat::Png);

    let first = cache
        .get_or_load(
            Path::new("in-memory-image"),
            first_bytes,
            PromptImageMode::ResizeToFit,
        )
        .expect("process first image");

    let second_image = ImageBuffer::from_pixel(96, 48, Rgba([50u8, 60, 70, 255]));
    let second_bytes = image_bytes(&second_image, ImageFormat::Png);

    let second = cache
        .get_or_load(
            Path::new("in-memory-image"),
            second_bytes,
            PromptImageMode::ResizeToFit,
        )
        .expect("process updated image");

    assert_eq!(first.width, 32);
    assert_eq!(first.height, 16);
    assert_eq!(second.width, 96);
    assert_eq!(second.height, 48);
    assert_ne!(second.bytes, first.bytes);
}

#[test]
fn gif_within_bounds_is_reencoded_as_png() {
    let image = ImageBuffer::from_pixel(20, 10, Rgba([1u8, 2, 3, 255]));
    let gif_bytes = image_bytes(&image, ImageFormat::Gif);

    let processed = load_for_prompt_bytes(
        Path::new("in-memory-image"),
        gif_bytes.clone(),
        PromptImageMode::ResizeToFit,
    )
    .expect("process gif");

    assert_eq!(processed.mime, "image/png");
    assert_eq!((processed.width, processed.height), (20, 10));
    assert_ne!(processed.bytes, gif_bytes);
    assert_eq!(
        image::guess_format(&processed.bytes).expect("detect output"),
        ImageFormat::Png
    );
}

#[test]
fn large_jpeg_is_downscaled_as_jpeg() {
    let image = ImageBuffer::from_pixel(3000, 1500, Rgba([9u8, 99, 199, 255]));
    let rgb = DynamicImage::ImageRgba8(image).to_rgb8();
    let mut encoded = Cursor::new(Vec::new());
    DynamicImage::ImageRgb8(rgb)
        .write_to(&mut encoded, ImageFormat::Jpeg)
        .expect("encode jpeg");
    let jpeg_bytes = encoded.into_inner();

    let processed = load_for_prompt_bytes(
        Path::new("in-memory-image"),
        jpeg_bytes,
        PromptImageMode::ResizeToFit,
    )
    .expect("process jpeg");

    assert_eq!((processed.width, processed.height), (2048, 1024));
    assert_eq!(processed.mime, "image/jpeg");
    assert_eq!(
        image::guess_format(&processed.bytes).expect("detect output"),
        ImageFormat::Jpeg
    );
}

#[test]
fn image_exactly_at_the_limit_is_kept() {
    let image = ImageBuffer::from_pixel(MAX_DIMENSION, 4, Rgba([5u8, 5, 5, 255]));
    let bytes = image_bytes(&image, ImageFormat::Png);

    let processed = load_for_prompt_bytes(
        Path::new("in-memory-image"),
        bytes.clone(),
        PromptImageMode::ResizeToFit,
    )
    .expect("process image");

    assert_eq!(processed.bytes, bytes);
    assert_eq!((processed.width, processed.height), (MAX_DIMENSION, 4));
}

#[test]
fn truncated_png_is_a_decoding_error() {
    let image = ImageBuffer::from_pixel(64, 64, Rgba([1u8, 2, 3, 255]));
    let mut bytes = image_bytes(&image, ImageFormat::Png);
    bytes.truncate(40);

    let err = load_for_prompt_bytes(Path::new("cut.png"), bytes, PromptImageMode::ResizeToFit)
        .expect_err("truncated image should fail");
    assert!(matches!(
        err,
        ImageProcessingError::Decode { .. } | ImageProcessingError::UnsupportedImageFormat { .. }
    ));
}

#[test]
fn unrecognised_bytes_are_an_unsupported_format() {
    let err = load_for_prompt_bytes(
        Path::new("in-memory-image"),
        b"not an image".to_vec(),
        PromptImageMode::Original,
    )
    .expect_err("invalid image should fail");
    assert!(matches!(err, ImageProcessingError::UnsupportedImageFormat { .. }));
}

#[test]
fn data_url_of_prepared_image_is_accepted() {
    let image = ImageBuffer::from_pixel(3, 2, Rgba([7u8, 8, 9, 255]));
    let bytes = image_bytes(&image, ImageFormat::Png);
    let processed = load_for_prompt_bytes(Path::new("a.png"), bytes, PromptImageMode::ResizeToFit)
        .expect("process image");

    let url = processed.into_data_url();
    assert!(url.starts_with("data:image/png;base64,iVBORw0KGgo"));
    assert_eq!(validate_prompt_image_url(&url), Ok(()));
}

#[test]
fn into_data_url_encodes_payload_as_base64() {
    let image = EncodedImage {
        bytes: b"hello".to_vec(),
        mime: "image/png".to_string(),
        width: 1,
        height: 1,
    };
    assert_eq!(image.into_data_url(), "data:image/png;base64,aGVsbG8=");

    let empty = EncodedImage {
        bytes: Vec::new(),
        mime: "image/gif".to_string(),
        width: 0,
        height: 0,
    };
    assert_eq!(empty.into_data_url(), "data:image/gif;base64,");
}

#[test]
fn copy_image_keeps_every_field() {
    let image = EncodedImage {
        bytes: vec![1, 2, 3],
        mime: "image/webp".to_string(),
        width: 9,
        height: 4,
    };
    let copy = image.copy_image();
    assert_eq!(copy.bytes, image.bytes);
    assert_eq!(copy.mime, image.mime);
    assert_eq!((copy.width, copy.height), (9, 4));
}

#[test]
fn mime_types_follow_the_format() {
    assert_eq!(format_to_mime(Format::Jpeg), "image/jpeg");
    assert_eq!(format_to_mime(Format::Gif), "image/gif");
    assert_eq!(format_to_mime(Format::WebP), "image/webp");
    assert_eq!(format_to_mime(Format::Png), "image/png");
}

#[test]
fn only_png_jpeg_and_webp_bytes_are_preserved() {
    assert!(can_preserve_source_bytes(Format::Png));
    assert!(can_preserve_source_bytes(Format::Jpeg));
    assert!(can_preserve_source_bytes(Format::WebP));
    assert!(!can_preserve_source_bytes(Format::Gif));
}

#[test]
fn image_action_follows_mode_size_and_format() {
    let mode = PromptImageMode::ResizeToFit;
    assert_eq!(
        choose_image_action(mode, Some(Format::WebP), 100, 100),
        ImageAction::PassThrough(Format::WebP)
    );
    assert_eq!(
        choose_image_action(mode, Some(Format::Gif), 100, 100),
        ImageAction::Reencode(Format::Png)
    );
    assert_eq!(choose_image_action(mode, None, 2048, 2048), ImageAction::Reencode(Format::Png));
    assert_eq!(
        choose_image_action(mode, Some(Format::Jpeg), 2049, 10),
        ImageAction::Downscale(Format::Jpeg)
    );
    assert_eq!(
        choose_image_action(mode, Some(Format::Gif), 10, 5000),
        ImageAction::Downscale(Format::Png)
    );
    assert_eq!(
        choose_image_action(PromptImageMode::Original, Some(Format::Png), 9000, 9000),
        ImageAction::PassThrough(Format::Png)
    );
    assert_eq!(
        choose_image_action(PromptImageMode::Original, Some(Format::Gif), 9000, 9000),
        ImageAction::Reencode(Format::Png)
    );
}

#[test]
fn corrupted_png_is_a_decode_error() {
    let image = ImageBuffer::from_pixel(8, 8, Rgba([1u8, 2, 3, 255]));
    let mut bytes = image_bytes(&image, ImageFormat::Png);
    // Damage the IHDR chunk so that its checksum no longer matches.
    bytes[17] ^= 0xff;

    let err = load_for_prompt_bytes(Path::new("bad.png"), bytes, PromptImageMode::ResizeToFit)
        .expect_err("corrupted image should fail");
    assert!(matches!(err, ImageProcessingError::Decode { .. }));
}

#[test]
fn reencoded_gif_url_is_accepted() {
    let image = ImageBuffer::from_pixel(5, 7, Rgba([40u8, 50, 60, 255]));
    let gif_bytes = image_bytes(&image, ImageFormat::Gif);
    let processed = load_for_prompt_bytes(Path::new("a.gif"), gif_bytes, PromptImageMode::ResizeToFit)
        .expect("process gif");
    let loaded = image::load_from_memory(&processed.bytes).expect("decode written bytes");
    assert_eq!(loaded.dimensions(), (5, 7));

    let url = processed.into_data_url();
    assert!(url.starts_with("data:image/png;base64,"));
    assert_eq!(validate_prompt_image_url(&url), Ok(()));
}

#[test]
fn data_url_payload_decodes_back_to_the_bytes() {
    let bytes = vec![0u8, 1, 2, 250, 251, 252, 253];
    let image = EncodedImage {
        bytes: bytes.clone(),
        mime: "image/webp".to_string(),
        width: 1,
        height: 1,
    };
    let url = image.into_data_url();
    let (head, payload) = url.split_once(',').expect("comma");
    assert_eq!(head, "data:image/webp;base64");
    assert_eq!(BASE64_STANDARD.decode(payload).expect("valid base64"), bytes);
}

#[test]
fn reencoded_png_keeps_the_pixels() {
    let mut image = ImageBuffer::from_pixel(2, 1, Rgba([1u8, 2, 3, 255]));
    image.put_pixel(1, 0, Rgba([200u8, 100, 50, 255]));
    let gif_bytes = image_bytes(&image, ImageFormat::Gif);
    let source = image::load_from_memory(&gif_bytes).expect("decode gif").to_rgba8();

    let processed = load_for_prompt_bytes(Path::new("a.gif"), gif_bytes, PromptImageMode::Original)
        .expect("process gif");
    assert_eq!(processed.mime, "image/png");
    assert_eq!(
        image::guess_format(&processed.bytes).expect("detect output"),
        ImageFormat::Png
    );
    let written = image::load_from_memory(&processed.bytes).expect("decode png").to_rgba8();
    assert_eq!(written, source);
}

#[test]
fn same_bytes_give_the_same_image() {
    let image = ImageBuffer::from_pixel(3000, 100, Rgba([9u8, 8, 7, 255]));
    let bytes = image_bytes(&image, ImageFormat::WebP);
    let first = load_for_prompt_bytes(Path::new("a"), bytes.clone(), PromptImageMode::ResizeToFit)
        .expect("first");
    let second = load_for_prompt_bytes(Path::new("b"), bytes, PromptImageMode::ResizeToFit)
        .expect("second");
    assert_eq!(first.bytes, second.bytes);
    assert_eq!(first.mime, second.mime);
    assert_eq!((first.width, first.height), (second.width, second.height));
}
