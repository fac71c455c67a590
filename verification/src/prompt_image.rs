//! Preparing image bytes for a prompt: pass them on, re-encode them, or shrink
//! the picture to fit.
use vstd::prelude::*;

use crate::bindings::{
    encoder_accepts, image_decoding, within_decode_limits, DecodeFailure, base64_standard_decoding,
    decoded_rgba8, jpeg_encoding, picture_rgba8, png_encoding, webp_lossless_encoding,
    PictureSource,
    is_base64_symbol,
    base64_padded_len, base64_standard_encoding, decode_image, decoded_dimensions,
    encode_base64_standard, encode_jpeg, encode_png_rgba8, encode_webp_lossless_rgba8,
    guess_image_format, guessed_format, resize_within, resized_dimensions, RasterImage,
    ResizeFilter,
};
use crate::data_url::{image_mime_prefix, prompt_image_url_verdict, PromptImageUrlError};
use crate::error::ImageProcessingError;
use crate::laws::{
    inline_image_url, lemma_gif_mime_is_distinct, lemma_inline_image_url_accepted,
    lemma_inline_image_url_layout, lemma_fitting_size_is_within_decode_limits,
    lemma_mime_type_is_image,
};
use crate::text::starts_with_ignore_ascii_case;
use crate::format::{
    can_preserve_source_bytes, encode_target, format_to_mime, mime_type, preserves_source_bytes,
    ImageFormat,
};
use vstd::string::StringExecFns;

verus! {

/// Maximum width or height used when resizing images before uploading.
pub const MAX_DIMENSION: u32 = 2048;

/// JPEG quality used when an image is re-encoded as JPEG.
pub const JPEG_QUALITY: u8 = 85;

/// An image ready to be sent: its bytes, their MIME type and its size.
#[derive(Debug, Clone)]
pub struct EncodedImage {
    pub bytes: Vec<u8>,
    pub mime: String,
    pub width: u32,
    pub height: u32,
}

/// How large images are treated.
#[derive(Debug, Clone, Copy, PartialEq, Eq, Structural, Hash)]
pub enum PromptImageMode {
    /// Shrink images larger than `MAX_DIMENSION` either way to fit.
    ResizeToFit,
    /// Keep the image at its own size.
    Original,
}

/// What is done with a decoded image.
#[derive(Debug, Clone, Copy, PartialEq, Eq, Structural)]
pub enum ImageAction {
    /// Hand the source bytes on unchanged; they are in this format.
    PassThrough(ImageFormat),
    /// Keep the size and write the picture in (the encode target of) this format.
    Reencode(ImageFormat),
    /// Shrink the picture to fit `MAX_DIMENSION` and write it in (the encode
    /// target of) this format.
    Downscale(ImageFormat),
}

/// The source format where its bytes may be handed on, else `None`.
pub open spec fn preservable(source_format: Option<ImageFormat>) -> Option<ImageFormat> {
    match source_format {
        Some(f) => if preserves_source_bytes(f) {
            Some(f)
        } else {
            None
        },
        None => None,
    }
}

/// What is done with a `width` x `height` image whose bytes were recognised as
/// `source_format`.
pub open spec fn prompt_image_action(
    mode: PromptImageMode,
    source_format: Option<ImageFormat>,
    width: u32,
    height: u32,
) -> ImageAction {
    if mode == PromptImageMode::Original || (width <= MAX_DIMENSION && height <= MAX_DIMENSION) {
        match preservable(source_format) {
            Some(f) => ImageAction::PassThrough(f),
            None => ImageAction::Reencode(ImageFormat::Png),
        }
    } else {
        match preservable(source_format) {
            Some(f) => ImageAction::Downscale(f),
            None => ImageAction::Downscale(ImageFormat::Png),
        }
    }
}

/// Decides what is done with a `width` x `height` image whose bytes were
/// recognised as `source_format`.
pub fn choose_image_action(
    mode: PromptImageMode,
    source_format: Option<ImageFormat>,
    width: u32,
    height: u32,
) -> (r: ImageAction)
    ensures
        r == prompt_image_action(mode, source_format, width, height),
{
    let preserved = match source_format {
        Some(f) => if can_preserve_source_bytes(f) {
            Some(f)
        } else {
            None
        },
        None => None,
    };
    if mode == PromptImageMode::Original || (width <= MAX_DIMENSION && height <= MAX_DIMENSION) {
        match preserved {
            Some(f) => ImageAction::PassThrough(f),
            None => ImageAction::Reencode(ImageFormat::Png),
        }
    } else {
        match preserved {
            Some(f) => ImageAction::Downscale(f),
            None => ImageAction::Downscale(ImageFormat::Png),
        }
    }
}

/// The bytes written for the picture from `source`, of size `dims`, in
/// `format`: JPEG at `JPEG_QUALITY`, lossless WebP, or PNG.
pub open spec fn encoded_bytes(format: ImageFormat, source: PictureSource, dims: (u32, u32)) -> Seq<u8> {
    match format {
        ImageFormat::Jpeg => jpeg_encoding(source, JPEG_QUALITY),
        ImageFormat::WebP => webp_lossless_encoding(picture_rgba8(source), dims.0, dims.1),
        _ => png_encoding(picture_rgba8(source), dims.0, dims.1),
    }
}

/// `bytes`, written in `format` for the picture from `source` of size `dims`,
/// decode back to a picture of that size, and for the lossless formats (PNG,
/// WebP) to the same RGBA pixels.
pub open spec fn decodes_back(bytes: Seq<u8>, format: ImageFormat, source: PictureSource, dims: (u32, u32)) -> bool {
    &&& image_decoding(bytes) == Ok::<_, DecodeFailure>(dims)
    &&& format != ImageFormat::Jpeg ==> decoded_rgba8(bytes) == picture_rgba8(source)
}

/// `e` is the error for failing to write an image in `format`.
pub open spec fn is_encode_error(e: ImageProcessingError, format: ImageFormat) -> bool {
    e matches ImageProcessingError::Encode { format: f, .. } && f == format
}

/// Writes `image` in the encode target of `preferred_format` (JPEG, WebP, or
/// PNG for every other request) and returns the bytes with the format used.
///
/// It succeeds exactly where that format's encoder accepts the size; the bytes
/// are then recognised as that format and, for sizes within the default decode
/// limits, decode back to a picture of the same size.
pub fn encode_image(image: &RasterImage, preferred_format: ImageFormat) -> (r: Result<
    (Vec<u8>, ImageFormat),
    ImageProcessingError,
>)
    ensures
        r is Ok <==> encoder_accepts(encode_target(preferred_format), image.dims()),
        match r {
            Ok((bytes, format)) => {
                &&& format == encode_target(preferred_format)
                &&& bytes@ == encoded_bytes(format, image.picture(), image.dims())
                &&& bytes@.len() > 0
                &&& guessed_format(bytes@) == Some(format)
                &&& within_decode_limits(image.dims()) ==> decodes_back(
                    bytes@,
                    format,
                    image.picture(),
                    image.dims(),
                )
            },
            Err(e) => is_encode_error(e, encode_target(preferred_format)),
        },
{
    let target_format = match preferred_format {
        ImageFormat::Jpeg => ImageFormat::Jpeg,
        ImageFormat::WebP => ImageFormat::WebP,
        _ => ImageFormat::Png,
    };
    let encoded = match target_format {
        ImageFormat::Jpeg => encode_jpeg(image, JPEG_QUALITY),
        ImageFormat::WebP => encode_webp_lossless_rgba8(image),
        _ => encode_png_rgba8(image),
    };
    match encoded {
        Ok(buffer) => Ok((buffer, target_format)),
        Err(source) => Err(ImageProcessingError::Encode { format: target_format, source }),
    }
}

/// The written image `img` holds the bytes of the picture from `source` in
/// `format`, announced with that format's MIME type; within the decode limits
/// they decode back to its recorded size (and, losslessly written, pixels).
pub open spec fn written_as(img: EncodedImage, format: ImageFormat, source: PictureSource) -> bool {
    &&& img.mime@ == mime_type(format)
    &&& img.bytes@ == encoded_bytes(format, source, (img.width, img.height))
    &&& img.bytes@.len() > 0
    &&& guessed_format(img.bytes@) == Some(format)
    &&& within_decode_limits((img.width, img.height)) ==> decodes_back(
        img.bytes@,
        format,
        source,
        (img.width, img.height),
    )
}

/// The picture written when `file_bytes` are shrunk to fit.
pub open spec fn downscaled_picture(file_bytes: Seq<u8>) -> PictureSource {
    PictureSource::Resized(
        Box::new(PictureSource::Decoded(file_bytes)),
        MAX_DIMENSION,
        MAX_DIMENSION,
        ResizeFilter::Triangle,
    )
}

/// The outcome of preparing `file_bytes`, given that they decode to a
/// `width` x `height` picture.
pub open spec fn prepared_as(
    r: Result<EncodedImage, ImageProcessingError>,
    file_bytes: Seq<u8>,
    mode: PromptImageMode,
    width: u32,
    height: u32,
) -> bool {
    match prompt_image_action(mode, guessed_format(file_bytes), width, height) {
        ImageAction::PassThrough(f) => r matches Ok(img) && img.bytes@ == file_bytes
            && img.mime@ == mime_type(f) && img.width == width && img.height == height,
        ImageAction::Reencode(f) => {
            &&& (r is Ok <==> encoder_accepts(encode_target(f), (width, height)))
            &&& match r {
                Ok(img) => written_as(img, encode_target(f), PictureSource::Decoded(file_bytes))
                    && img.width == width && img.height
                    == height,
                Err(e) => is_encode_error(e, encode_target(f)),
            }
        },
        ImageAction::Downscale(f) => r matches Ok(img) && written_as(
            img,
            encode_target(f),
            downscaled_picture(file_bytes),
        ) && (
        img.width, img.height) == resized_dimensions(width, height, MAX_DIMENSION, MAX_DIMENSION)
            && img.width <= MAX_DIMENSION && img.height <= MAX_DIMENSION,
    }
}

/// The outcome of preparing `file_bytes` in `mode`: where they do not decode,
/// the decoding error of that kind; else as `prepared_as` says for the decoded
/// size.
pub open spec fn prompt_image_outcome(
    r: Result<EncodedImage, ImageProcessingError>,
    file_bytes: Seq<u8>,
    mode: PromptImageMode,
) -> bool {
    match image_decoding(file_bytes) {
        Err(failure) => r matches Err(e) && (failure == DecodeFailure::Malformed ==> e is Decode)
            && (failure == DecodeFailure::Unsupported ==> e is UnsupportedImageFormat),
        Ok((width, height)) => file_bytes.len() > 0 && prepared_as(
            r,
            file_bytes,
            mode,
            width,
            height,
        ),
    }
}

/// Prepares the bytes of an image file for a prompt.
///
/// Bytes that do not decode give an error naming `path`. An image that fits
/// within `MAX_DIMENSION` (or any image in `Original` mode) is handed on
/// unchanged if it is PNG, JPEG or WebP, and re-encoded as PNG otherwise. A
/// larger image in `ResizeToFit` mode is shrunk to fit, keeping its aspect
/// ratio, and written in its own format if that is PNG, JPEG or WebP, else as
/// PNG.
pub fn load_for_prompt_bytes(
    path: &std::path::Path,
    file_bytes: Vec<u8>,
    mode: PromptImageMode,
) -> (r: Result<EncodedImage, ImageProcessingError>)
    ensures
        prompt_image_outcome(r, file_bytes@, mode),
        mode == PromptImageMode::ResizeToFit ==> (r matches Ok(img) ==> img.width <= MAX_DIMENSION
            && img.height <= MAX_DIMENSION),
        r matches Ok(img) ==> starts_with_ignore_ascii_case(img.mime@, image_mime_prefix())
            && !img.mime@.contains(','),
        r matches Ok(img) ==> img.mime@ != mime_type(ImageFormat::Gif),
        mode == PromptImageMode::Original ==> (r matches Ok(img) ==> decoded_dimensions(
            file_bytes@,
        ) == Some((img.width, img.height))),
        r matches Ok(img) ==> (guessed_format(img.bytes@) matches Some(f) && img.mime@ == mime_type(
            f,
        )),
        r matches Ok(img) ==> img.bytes@.len() > 0,
        r matches Ok(img) ==> (mode == PromptImageMode::ResizeToFit || within_decode_limits(
            (img.width, img.height),
        )) ==> decoded_dimensions(img.bytes@) == Some((img.width, img.height)),
        decoded_dimensions(file_bytes@) matches Some((w, h)) && 1 <= w && 1 <= h ==> r is Ok,
        ({
            let f = guessed_format(file_bytes@)->0;
            let dims = decoded_dimensions(file_bytes@)->0;
            guessed_format(file_bytes@) is Some && (f == ImageFormat::Png || f == ImageFormat::Jpeg
                || f == ImageFormat::WebP) && decoded_dimensions(file_bytes@) is Some && (mode
                == PromptImageMode::Original || (dims.0 <= MAX_DIMENSION && dims.1 <= MAX_DIMENSION))
                ==> (r matches Ok(img) && img.bytes@ == file_bytes@ && img.mime@ == mime_type(f)
                && img.width == dims.0 && img.height == dims.1)
        }),
        ({
            let dims = decoded_dimensions(file_bytes@)->0;
            mode == PromptImageMode::ResizeToFit && decoded_dimensions(file_bytes@) is Some && dims.0
                <= MAX_DIMENSION && dims.1 <= MAX_DIMENSION ==> (r matches Ok(img) ==> img.width
                == dims.0 && img.height == dims.1)
        }),
{
    let format = guess_image_format(file_bytes.as_slice());
    let decoded = match decode_image(file_bytes.as_slice()) {
        Ok(decoded) => decoded,
        Err((failure, source)) => {
            return Err(ImageProcessingError::decode_error(path, source, failure));
        },
    };
    let (width, height) = decoded.dimensions();
    proof {
        if width <= MAX_DIMENSION && height <= MAX_DIMENSION {
            lemma_fitting_size_is_within_decode_limits(width, height);
        }
        lemma_mime_type_is_image(ImageFormat::Png);
        lemma_mime_type_is_image(ImageFormat::Jpeg);
        lemma_mime_type_is_image(ImageFormat::WebP);
        if let Some(f) = format {
            lemma_mime_type_is_image(f);
        }
        lemma_gif_mime_is_distinct();
    }
    match choose_image_action(mode, format, width, height) {
        ImageAction::PassThrough(f) => {
            let mime = format_to_mime(f);
            Ok(EncodedImage { bytes: file_bytes, mime, width, height })
        },
        ImageAction::Reencode(f) => {
            let (bytes, output_format) = encode_image(&decoded, f)?;
            let mime = format_to_mime(output_format);
            Ok(EncodedImage { bytes, mime, width, height })
        },
        ImageAction::Downscale(f) => {
            let resized = resize_within(
                &decoded,
                MAX_DIMENSION,
                MAX_DIMENSION,
                ResizeFilter::Triangle,
            );
            let (bytes, output_format) = encode_image(&resized, f)?;
            let mime = format_to_mime(output_format);
            let (new_width, new_height) = resized.dimensions();
            proof {
                lemma_fitting_size_is_within_decode_limits(new_width, new_height);
            }
            Ok(EncodedImage { bytes, mime, width: new_width, height: new_height })
        },
    }
}

/// The bytes, MIME type, width and height of an image.
pub type ImageContent = (Seq<u8>, Seq<char>, u32, u32);

impl EncodedImage {
    /// The bytes, MIME type, width and height of this image.
    pub open spec fn content(&self) -> ImageContent {
        (self.bytes@, self.mime@, self.width, self.height)
    }

    /// A copy of this image.
    pub fn copy_image(&self) -> (r: EncodedImage)
        ensures
            r.content() == self.content(),
    {
        EncodedImage {
            bytes: vstd::slice::slice_to_vec(self.bytes.as_slice()),
            mime: self.mime.clone(),
            width: self.width,
            height: self.height,
        }
    }

    /// The image as a `data:` URL: `data:<mime>;base64,<payload>`.
    pub fn into_data_url(self) -> (r: String)
        requires
            base64_padded_len(self.bytes@.len()) <= usize::MAX,
        ensures
            r@ == inline_image_url(self.mime@, base64_standard_encoding(self.bytes@)),
            base64_standard_decoding(r@.skip(self.mime@.len() + 13 as int)) == Some(self.bytes@),
            forall|i: int|
                self.mime@.len() + 13 <= i < r@.len() ==> is_base64_symbol(#[trigger] r@[i]),
            !self.mime@.contains(',') ==> r@.index_of_first(',') == Some(
                self.mime@.len() + 12 as int,
            ),
            starts_with_ignore_ascii_case(self.mime@, image_mime_prefix()) && !self.mime@.contains(
                ',',
            ) && self.bytes@.len() > 0 && decoded_dimensions(self.bytes@) is Some
                ==> prompt_image_url_verdict(r@) == Ok::<(), PromptImageUrlError>(()),
    {
        let encoded = encode_base64_standard(self.bytes.as_slice());
        proof {
            lemma_inline_image_url_layout(self.mime@, encoded@);
            let url = inline_image_url(self.mime@, encoded@);
            let start: int = self.mime@.len() + 13 as int;
            assert forall|i: int| start <= i < url.len() implies is_base64_symbol(
                #[trigger] url[i],
            ) by {
                assert(url.skip(start)[i - start] == url[i]);
            }
            if starts_with_ignore_ascii_case(self.mime@, image_mime_prefix()) && !self.mime@.contains(
                ',',
            ) && self.bytes@.len() > 0 && decoded_dimensions(self.bytes@) is Some {
                lemma_inline_image_url_accepted(self.mime@, encoded@, self.bytes@);
            }
        }
        let mut url = String::from_str("data:");
        url.append(self.mime.as_str());
        url.append(";base64,");
        url.append(encoded.as_str());
        url
    }
}

} // verus!
