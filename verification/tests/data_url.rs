use std::io::Cursor;

use base64::engine::general_purpose::STANDARD as BASE64_STANDARD;
use base64::Engine;
use codex_utils_image::data_url::check_decoded_payload;
use codex_utils_image::{validate_prompt_image_url, PromptImageUrlError};
use image::DynamicImage;
use image::ImageBuffer;
use image::ImageFormat;
use image::Rgba;

fn image_bytes(image: &ImageBuffer<Rgba<u8>, Vec<u8>>, format: ImageFormat) -> Vec<u8> {
    let mut encoded = Cursor::new(Vec::new());
    DynamicImage::ImageRgba8(image.clone())
        .write_to(&mut encoded, format)
        .expect("encode image to bytes");
    encoded.into_inner()
}

#[test]
fn validate_prompt_image_url_accepts_remote_and_inline_images() {
    let image = ImageBuffer::from_pixel(1, 1, Rgba([10u8, 20, 30, 255]));
    let payload = BASE64_STANDARD.encode(image_bytes(&image, ImageFormat::Png));
    let data_url = format!("data:image/png;base64,{payload}");

    assert_eq!(
        validate_prompt_image_url("https://example.com/image.png"),
        Ok(())
    );
    assert_eq!(validate_prompt_image_url(&data_url), Ok(()));
}

#[test]
fn validate_prompt_image_url_rejects_malformed_inline_images() {
    assert_eq!(
        validate_prompt_image_url("   "),
        Err(PromptImageUrlError::EmptyUrl)
    );
    assert_eq!(
        validate_prompt_image_url("data:image/png;base64"),
        Err(PromptImageUrlError::MissingDataUrlSeparator)
    );
    assert_eq!(
        validate_prompt_image_url("data:text/plain;base64,aGVsbG8="),
        Err(PromptImageUrlError::NonImageDataUrl)
    );
    assert_eq!(
        validate_prompt_image_url("data:image/png,aGVsbG8="),
        Err(PromptImageUrlError::MissingBase64Marker)
    );
    assert_eq!(
        validate_prompt_image_url("data:image/png;base64,"),
        Err(PromptImageUrlError::EmptyBase64Payload)
    );
    assert_eq!(
        validate_prompt_image_url("data:image/png;base64,%%%"),
        Err(PromptImageUrlError::InvalidBase64Payload)
    );
    assert_eq!(
        validate_prompt_image_url("data:image/png;base64,aGVsbG8="),
        Err(PromptImageUrlError::InvalidImageBytes)
    );
}

#[test]
fn empty_url_is_refused() {
    assert_eq!(validate_prompt_image_url(""), Err(PromptImageUrlError::EmptyUrl));
    assert_eq!(
        validate_prompt_image_url("\t\n\u{3000}\u{00a0}"),
        Err(PromptImageUrlError::EmptyUrl)
    );
}

#[test]
fn non_data_urls_are_accepted_as_they_are() {
    assert_eq!(validate_prompt_image_url("file:///tmp/x.png"), Ok(()));
    assert_eq!(validate_prompt_image_url("  data:image/png"), Ok(()));
    assert_eq!(validate_prompt_image_url("dat"), Ok(()));
    assert_eq!(validate_prompt_image_url("déta:image/png;base64,"), Ok(()));
}

#[test]
fn scheme_mime_and_marker_ignore_ascii_case() {
    let image = ImageBuffer::from_pixel(2, 2, Rgba([1u8, 2, 3, 255]));
    let payload = BASE64_STANDARD.encode(image_bytes(&image, ImageFormat::Png));
    let url = format!("DaTa:IMAGE/PNG;charset=x;BASE64,{payload}");
    assert_eq!(validate_prompt_image_url(&url), Ok(()));
}

#[test]
fn marker_must_be_a_whole_parameter() {
    assert_eq!(
        validate_prompt_image_url("data:image/png;base64x,aGVsbG8="),
        Err(PromptImageUrlError::MissingBase64Marker)
    );
    assert_eq!(
        validate_prompt_image_url("data:image/png;xbase64,aGVsbG8="),
        Err(PromptImageUrlError::MissingBase64Marker)
    );
    assert_eq!(
        validate_prompt_image_url("data:image/base64,aGVsbG8="),
        Err(PromptImageUrlError::MissingBase64Marker)
    );
    assert_eq!(
        validate_prompt_image_url("data:image/png;base64;x=1,aGVsbG8="),
        Err(PromptImageUrlError::InvalidImageBytes)
    );
}

#[test]
fn only_the_first_comma_separates_metadata() {
    assert_eq!(
        validate_prompt_image_url("data:image/png,x;base64,aGVsbG8="),
        Err(PromptImageUrlError::MissingBase64Marker)
    );
    assert_eq!(
        validate_prompt_image_url("data:,image/png;base64,aGVsbG8="),
        Err(PromptImageUrlError::NonImageDataUrl)
    );
}

#[test]
fn blank_payload_is_empty() {
    assert_eq!(
        validate_prompt_image_url("data:image/png;base64,  \n"),
        Err(PromptImageUrlError::EmptyBase64Payload)
    );
}

#[test]
fn payload_is_decoded_untrimmed() {
    assert_eq!(
        validate_prompt_image_url("data:image/png;base64, aGVsbG8="),
        Err(PromptImageUrlError::InvalidBase64Payload)
    );
}

#[test]
fn decoded_payload_is_checked() {
    assert_eq!(
        check_decoded_payload(None),
        Err(PromptImageUrlError::InvalidBase64Payload)
    );
    assert_eq!(
        check_decoded_payload(Some(Vec::new())),
        Err(PromptImageUrlError::EmptyBase64Payload)
    );
    assert_eq!(check_decoded_payload(Some(vec![1, 2])), Ok(vec![1, 2]));
}

#[test]
fn error_messages() {
    assert_eq!(PromptImageUrlError::EmptyUrl.message(), "image URL must not be empty");
    assert_eq!(
        PromptImageUrlError::InvalidImageBytes.message(),
        "image data URL payload must decode to a valid image"
    );
    assert_eq!(
        PromptImageUrlError::MissingBase64Marker.message(),
        "image data URL must use base64 encoding"
    );
}

#[test]
fn letter_case_of_the_header_does_not_change_the_verdict() {
    for payload in ["aGVsbG8=", "%%%", "", "  "] {
        let lower = format!("data:image/png;base64,{payload}");
        let upper = format!("DATA:IMAGE/PNG;BASE64,{payload}");
        assert_eq!(
            validate_prompt_image_url(&lower),
            validate_prompt_image_url(&upper)
        );
    }
    assert_eq!(
        validate_prompt_image_url("DATA:TEXT/plain;BASE64,aGVsbG8="),
        Err(PromptImageUrlError::NonImageDataUrl)
    );
}
