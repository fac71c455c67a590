use vstd::prelude::*;
use vstd::string::StringExecFns;

verus! {

/// The image container formats that prompts accept.
#[derive(Debug, Clone, Copy, PartialEq, Eq, Structural, Hash)]
pub enum ImageFormat {
    Png,
    Jpeg,
    Gif,
    WebP,
}

/// Formats whose bytes may be handed on unchanged.
pub open spec fn preserves_source_bytes(format: ImageFormat) -> bool {
    format == ImageFormat::Png || format == ImageFormat::Jpeg || format == ImageFormat::WebP
}

/// Whether bytes already in `format` may be passed on byte for byte.
///
/// GIF is left out on purpose: only still images are supported downstream, and a
/// GIF may be animated.
pub fn can_preserve_source_bytes(format: ImageFormat) -> (r: bool)
    ensures
        r == preserves_source_bytes(format),
{
    match format {
        ImageFormat::Png | ImageFormat::Jpeg | ImageFormat::WebP => true,
        _ => false,
    }
}

/// The MIME type announced for bytes in `format`.
pub open spec fn mime_type(format: ImageFormat) -> Seq<char> {
    match format {
        ImageFormat::Jpeg => "image/jpeg"@,
        ImageFormat::Gif => "image/gif"@,
        ImageFormat::WebP => "image/webp"@,
        ImageFormat::Png => "image/png"@,
    }
}

/// The MIME type for bytes in `format`.
pub fn format_to_mime(format: ImageFormat) -> (r: String)
    ensures
        r@ == mime_type(format),
{
    match format {
        ImageFormat::Jpeg => String::from_str("image/jpeg"),
        ImageFormat::Gif => String::from_str("image/gif"),
        ImageFormat::WebP => String::from_str("image/webp"),
        ImageFormat::Png => String::from_str("image/png"),
    }
}

/// The format an image is written in when `preferred` is asked for: JPEG and
/// WebP are honoured, every other request (PNG, GIF) gives PNG.
pub open spec fn encode_target(preferred: ImageFormat) -> ImageFormat {
    match preferred {
        ImageFormat::Jpeg => ImageFormat::Jpeg,
        ImageFormat::WebP => ImageFormat::WebP,
        _ => ImageFormat::Png,
    }
}

} // verus!
