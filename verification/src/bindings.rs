//! The calls into the `base64`, `image` and `sha1` crates and into `std::path`.
//! The contracts in this file are trusted, not proved; each doc comment says
//! what is claimed of the outside function.
use vstd::prelude::*;

use base64::Engine;
use sha1::Digest;

use crate::format::ImageFormat;

verus! {

/// `image::DynamicImage`, a decoded picture; opaque here.
#[verifier::external_type_specification]
#[verifier::external_body]
pub struct ExDynamicImage(image::DynamicImage);

/// `image::ImageError`; opaque here.
#[verifier::external_type_specification]
#[verifier::external_body]
pub struct ExImageError(image::ImageError);

/// `std::path::PathBuf`; opaque here.
#[verifier::external_type_specification]
#[verifier::external_body]
pub struct ExPathBuf(std::path::PathBuf);

/// `std::path::Path`; opaque here.
#[verifier::external_type_specification]
#[verifier::external_body]
pub struct ExPath(std::path::Path);

/// What `base64::engine::general_purpose::STANDARD.decode` gives for the UTF-8
/// text of these characters: `None` where it returns an error.
pub uninterp spec fn base64_standard_decoding(text: Seq<char>) -> Option<Seq<u8>>;

/// What `base64::engine::general_purpose::STANDARD.encode` gives for these bytes.
pub uninterp spec fn base64_standard_encoding(bytes: Seq<u8>) -> Seq<char>;

/// How `image::load_from_memory` fails.
#[derive(Debug, Clone, Copy, PartialEq, Eq, Structural)]
pub enum DecodeFailure {
    /// `ImageError::Decoding`: the data is malformed.
    Malformed,
    /// Any other `ImageError`, such as an unrecognised or unsupported format.
    Unsupported,
}

/// What `image::load_from_memory` gives for these bytes: the width and height
/// of the decoded picture, or the kind of error it returns.
pub uninterp spec fn image_decoding(bytes: Seq<u8>) -> Result<(u32, u32), DecodeFailure>;

/// The width and height of the picture decoded from these bytes, if they decode.
pub open spec fn decoded_dimensions(bytes: Seq<u8>) -> Option<(u32, u32)> {
    match image_decoding(bytes) {
        Ok(dims) => Some(dims),
        Err(_) => None,
    }
}

/// Sizes whose 8-bit RGBA pixels take at most 256 MiB: half of the 512 MiB that
/// `image::load_from_memory` lets a decoder reserve by default, which leaves
/// room for the decoders' own line buffers.
pub open spec fn within_decode_limits(dims: (u32, u32)) -> bool {
    (dims.0 as int) * (dims.1 as int) <= 0x400_0000
}

/// The sizes the encoder for `format` accepts: PNG any non-empty size, JPEG
/// sides up to 65535, lossless WebP sides up to 16384. (GIF is never written.)
pub open spec fn encoder_accepts(format: ImageFormat, dims: (u32, u32)) -> bool {
    &&& 1 <= dims.0
    &&& 1 <= dims.1
    &&& match format {
        ImageFormat::Jpeg => dims.0 <= 65535 && dims.1 <= 65535,
        ImageFormat::WebP => dims.0 <= 16384 && dims.1 <= 16384,
        _ => true,
    }
}

/// The format that `image::guess_format` reads off the leading bytes where it
/// is PNG, JPEG, GIF or WebP; `None` where it is another format or where
/// `guess_format` returns an error.
pub uninterp spec fn guessed_format(bytes: Seq<u8>) -> Option<ImageFormat>;

/// The size that `image::DynamicImage::resize` gives a `width` x `height` picture
/// asked to fit within `max_width` x `max_height`.
pub uninterp spec fn resized_dimensions(width: u32, height: u32, max_width: u32, max_height: u32) -> (u32, u32);

/// How a picture came about: decoded by `image::load_from_memory` from bytes,
/// or made by `image::DynamicImage::resize` from another picture.
pub enum PictureSource {
    Decoded(Seq<u8>),
    Resized(Box<PictureSource>, u32, u32, ResizeFilter),
}

/// The 8-bit RGBA pixels, row by row (`DynamicImage::to_rgba8`), of the picture
/// that `image::load_from_memory` decodes from these bytes.
pub uninterp spec fn decoded_rgba8(bytes: Seq<u8>) -> Seq<u8>;

/// The 8-bit RGBA pixels (`DynamicImage::to_rgba8`) of the picture that
/// `image::DynamicImage::resize` makes of the picture from `source`, asked to
/// fit within `max_width` x `max_height` with `filter`.
pub uninterp spec fn resized_rgba8(source: PictureSource, max_width: u32, max_height: u32, filter: ResizeFilter) -> Seq<u8>;

/// The 8-bit RGBA pixels of the picture that `source` describes.
pub open spec fn picture_rgba8(source: PictureSource) -> Seq<u8> {
    match source {
        PictureSource::Decoded(bytes) => decoded_rgba8(bytes),
        PictureSource::Resized(from, max_width, max_height, filter) => resized_rgba8(*from, max_width, max_height, filter),
    }
}

/// The bytes that `image::codecs::png::PngEncoder::write_image` writes for
/// these 8-bit RGBA pixels at this size, with the encoder's default settings.
pub uninterp spec fn png_encoding(rgba8: Seq<u8>, width: u32, height: u32) -> Seq<u8>;

/// The bytes that `image::codecs::webp::WebPEncoder::write_image` of a lossless
/// encoder writes for these 8-bit RGBA pixels at this size.
pub uninterp spec fn webp_lossless_encoding(rgba8: Seq<u8>, width: u32, height: u32) -> Seq<u8>;

/// The bytes that `image::codecs::jpeg::JpegEncoder::encode_image` writes for
/// the picture that `source` describes, at this quality.
pub uninterp spec fn jpeg_encoding(source: PictureSource, quality: u8) -> Seq<u8>;

/// The SHA-1 digest of these bytes, as `sha1::Sha1::digest` computes it.
pub uninterp spec fn sha1_digest_of(bytes: Seq<u8>) -> Seq<u8>;

/// A character of the standard base64 alphabet, or the padding `=`.
pub open spec fn is_base64_symbol(c: char) -> bool {
    ||| 'A' <= c <= 'Z'
    ||| 'a' <= c <= 'z'
    ||| '0' <= c <= '9'
    ||| c == '+'
    ||| c == '/'
    ||| c == '='
}

/// The length of the padded standard base64 text for `n` bytes.
pub open spec fn base64_padded_len(n: nat) -> nat {
    4 * ((n + 2) / 3)
}

/// A decoded picture together with its size and how it came about.
///
/// Only the functions of this file make one, and each sets the size and the
/// source from the picture it holds.
pub struct RasterImage {
    pixels: image::DynamicImage,
    width: u32,
    height: u32,
    source: Ghost<PictureSource>,
}

impl RasterImage {
    /// The width and height of the picture.
    pub closed spec fn dims(&self) -> (u32, u32) {
        (self.width, self.height)
    }

    /// How the picture came about.
    pub closed spec fn picture(&self) -> PictureSource {
        self.source@
    }

    /// The 8-bit RGBA pixels of the picture.
    pub open spec fn rgba8(&self) -> Seq<u8> {
        picture_rgba8(self.picture())
    }

    /// The width and height of the picture.
    pub fn dimensions(&self) -> (r: (u32, u32))
        ensures
            r == self.dims(),
    {
        (self.width, self.height)
    }
}

/// The resampling filters that `image::imageops::FilterType` offers.
#[derive(Debug, Clone, Copy, PartialEq, Eq, Structural)]
pub enum ResizeFilter {
    Nearest,
    Triangle,
    CatmullRom,
    Gaussian,
    Lanczos3,
}

/// Calls `STANDARD.decode` of the `base64` crate (standard alphabet, padding
/// required). Claims only that the outcome is the named result for this text.
#[verifier::external_body]
pub(crate) fn decode_base64_standard(text: &str) -> (r: Option<Vec<u8>>)
    ensures
        match r {
            Some(bytes) => base64_standard_decoding(text@) == Some(bytes@),
            None => base64_standard_decoding(text@) is None,
        },
{
    base64::engine::general_purpose::STANDARD.decode(text).ok()
}

/// Calls `STANDARD.encode` of the `base64` crate. Claims, as RFC 4648 and the
/// crate's documentation give them, that the text has the padded length
/// `4 * ceil(n / 3)`, uses only the standard alphabet and `=`, and decodes back
/// to the same bytes. The crate panics where that length overflows `usize`,
/// which `requires` rules out.
#[verifier::external_body]
pub(crate) fn encode_base64_standard(bytes: &[u8]) -> (r: String)
    requires
        base64_padded_len(bytes@.len()) <= usize::MAX,
    ensures
        r@ == base64_standard_encoding(bytes@),
        r@.len() == base64_padded_len(bytes@.len()),
        forall|i: int| 0 <= i < r@.len() ==> is_base64_symbol(#[trigger] r@[i]),
        base64_standard_decoding(r@) == Some(bytes@),
{
    base64::engine::general_purpose::STANDARD.encode(bytes)
}

/// Calls `image::load_from_memory` and reads the size of what it decoded, or
/// tells the `Decoding` variant of its error from the others. Claims that the
/// outcome is the named result for these bytes, and that empty bytes do not
/// decode (no format signature is empty, so the format is not recognised).
#[verifier::external_body]
pub(crate) fn decode_image(bytes: &[u8]) -> (r: Result<RasterImage, (DecodeFailure, image::ImageError)>)
    ensures
        match r {
            Ok(img) => image_decoding(bytes@) == Ok::<_, DecodeFailure>(img.dims()) && bytes@.len() > 0
                && img.picture() == PictureSource::Decoded(bytes@),
            Err((failure, _)) => image_decoding(bytes@) == Err::<(u32, u32), _>(failure),
        },
{
    match image::load_from_memory(bytes) {
        Ok(pixels) => {
            let (width, height) = image::GenericImageView::dimensions(&pixels);
            Ok(RasterImage { pixels, width, height, source: Ghost(PictureSource::Decoded(bytes@)) })
        },
        Err(error @ image::ImageError::Decoding(_)) => Err((DecodeFailure::Malformed, error)),
        Err(error) => Err((DecodeFailure::Unsupported, error)),
    }
}

/// Calls `image::guess_format`, which reads the magic bytes at the start, and
/// keeps the four formats prompts accept. Claims only that the outcome is the
/// named result for these bytes.
#[verifier::external_body]
pub(crate) fn guess_image_format(bytes: &[u8]) -> (r: Option<ImageFormat>)
    ensures
        r == guessed_format(bytes@),
{
    match image::guess_format(bytes) {
        Ok(image::ImageFormat::Png) => Some(ImageFormat::Png),
        Ok(image::ImageFormat::Jpeg) => Some(ImageFormat::Jpeg),
        Ok(image::ImageFormat::Gif) => Some(ImageFormat::Gif),
        Ok(image::ImageFormat::WebP) => Some(ImageFormat::WebP),
        _ => None,
    }
}

/// Calls `image::DynamicImage::resize`, which keeps the aspect ratio. Claims
/// the named size, and, as the crate documents ("scaled to the maximum possible
/// size that fits within the bounds"), that the result fits the bounds and is at
/// least one pixel each way.
#[verifier::external_body]
pub(crate) fn resize_within(img: &RasterImage, max_width: u32, max_height: u32, filter: ResizeFilter) -> (r: RasterImage)
    ensures
        r.dims() == resized_dimensions(img.dims().0, img.dims().1, max_width, max_height),
        max_width >= 1 && max_height >= 1 ==> 1 <= r.dims().0 <= max_width && 1 <= r.dims().1 <= max_height,
        r.picture() == PictureSource::Resized(Box::new(img.picture()), max_width, max_height, filter),
        r.rgba8() == resized_rgba8(img.picture(), max_width, max_height, filter),
{
    let image_filter = match filter {
        ResizeFilter::Nearest => image::imageops::FilterType::Nearest,
        ResizeFilter::Triangle => image::imageops::FilterType::Triangle,
        ResizeFilter::CatmullRom => image::imageops::FilterType::CatmullRom,
        ResizeFilter::Gaussian => image::imageops::FilterType::Gaussian,
        ResizeFilter::Lanczos3 => image::imageops::FilterType::Lanczos3,
    };
    let pixels = img.pixels.resize(max_width, max_height, image_filter);
    let (width, height) = image::GenericImageView::dimensions(&pixels);
    RasterImage { pixels, width, height, source: Ghost(PictureSource::Resized(Box::new(img.source@), max_width, max_height, filter)) }
}

/// Calls `image::codecs::png::PngEncoder::write_image` on the picture as 8-bit
/// RGBA. The `png` crate fails only for a zero width or height; the output
/// starts with the PNG signature. Claims the named bytes for the picture's RGBA
/// pixels, and that PNG being lossless they decode back, at the size, to the
/// same pixels where the size is within the decode limits.
#[verifier::external_body]
pub(crate) fn encode_png_rgba8(img: &RasterImage) -> (r: Result<Vec<u8>, image::ImageError>)
    ensures
        r is Ok <==> encoder_accepts(ImageFormat::Png, img.dims()),
        r matches Ok(out) ==> {
            &&& out@ == png_encoding(img.rgba8(), img.dims().0, img.dims().1)
            &&& out@.len() > 0
            &&& guessed_format(out@) == Some(ImageFormat::Png)
            &&& within_decode_limits(img.dims()) ==> image_decoding(out@) == Ok::<_, DecodeFailure>(img.dims())
                && decoded_rgba8(out@) == img.rgba8()
        },
{
    let rgba = img.pixels.to_rgba8();
    let mut buffer = Vec::new();
    let encoder = image::codecs::png::PngEncoder::new(&mut buffer);
    image::ImageEncoder::write_image(encoder, rgba.as_raw(), rgba.width(), rgba.height(), image::ExtendedColorType::Rgba8)?;
    Ok(buffer)
}

/// Calls `image::codecs::jpeg::JpegEncoder::encode_image` with the given quality
/// (the crate clamps it to 1..=100). It fails only where a side is 0 or does
/// not fit in `u16`; the output starts with the SOI and APP0 markers
/// (`FF D8 FF`). It reads the picture pixel by pixel, so the bytes are named
/// for the picture and the quality. JPEG being lossy, only the size is claimed
/// to decode back, within the decode limits.
#[verifier::external_body]
pub(crate) fn encode_jpeg(img: &RasterImage, quality: u8) -> (r: Result<Vec<u8>, image::ImageError>)
    ensures
        r is Ok <==> encoder_accepts(ImageFormat::Jpeg, img.dims()),
        r matches Ok(out) ==> {
            &&& out@ == jpeg_encoding(img.picture(), quality)
            &&& out@.len() > 0
            &&& guessed_format(out@) == Some(ImageFormat::Jpeg)
            &&& within_decode_limits(img.dims()) ==> image_decoding(out@) == Ok::<_, DecodeFailure>(img.dims())
        },
{
    let mut buffer = Vec::new();
    let mut encoder = image::codecs::jpeg::JpegEncoder::new_with_quality(&mut buffer, quality);
    encoder.encode_image(&img.pixels)?;
    Ok(buffer)
}

/// Calls `image::codecs::webp::WebPEncoder::write_image` of a lossless encoder
/// on the picture as 8-bit RGBA. `image-webp` fails only where a side is 0 or
/// above 16384; the output is a `RIFF`/`WEBP` container. Claims the named bytes
/// for the picture's RGBA pixels, and that lossless WebP decodes back, at the
/// size, to the same pixels where the size is within the decode limits.
#[verifier::external_body]
pub(crate) fn encode_webp_lossless_rgba8(img: &RasterImage) -> (r: Result<Vec<u8>, image::ImageError>)
    ensures
        r is Ok <==> encoder_accepts(ImageFormat::WebP, img.dims()),
        r matches Ok(out) ==> {
            &&& out@ == webp_lossless_encoding(img.rgba8(), img.dims().0, img.dims().1)
            &&& out@.len() > 0
            &&& guessed_format(out@) == Some(ImageFormat::WebP)
            &&& within_decode_limits(img.dims()) ==> image_decoding(out@) == Ok::<_, DecodeFailure>(img.dims())
                && decoded_rgba8(out@) == img.rgba8()
        },
{
    let rgba = img.pixels.to_rgba8();
    let mut buffer = Vec::new();
    let encoder = image::codecs::webp::WebPEncoder::new_lossless(&mut buffer);
    image::ImageEncoder::write_image(encoder, rgba.as_raw(), rgba.width(), rgba.height(), image::ExtendedColorType::Rgba8)?;
    Ok(buffer)
}

/// Calls `sha1::Sha1::digest`. Claims only that the 20 bytes are the named
/// digest of these bytes.
#[verifier::external_body]
pub(crate) fn sha1_digest(bytes: &[u8]) -> (r: [u8; 20])
    ensures
        r@ == sha1_digest_of(bytes@),
{
    sha1::Sha1::digest(bytes).into()
}

/// Calls `std::path::Path::to_path_buf`, an owned copy of the path.
#[verifier::external_body]
pub(crate) fn path_to_owned(path: &std::path::Path) -> (r: std::path::PathBuf) {
    path.to_path_buf()
}

} // verus!
