use vstd::prelude::*;

use crate::bindings::DecodeFailure;
use crate::format::ImageFormat;

verus! {

/// Why an image could not be prepared for a prompt.
#[derive(Debug)]
pub enum ImageProcessingError {
    /// The bytes were recognised but are not a well-formed image.
    Decode { path: std::path::PathBuf, source: image::ImageError },
    /// Writing the image in `format` failed.
    Encode { format: ImageFormat, source: image::ImageError },
    /// The bytes are in no format the decoder supports.
    UnsupportedImageFormat { path: std::path::PathBuf, source: image::ImageError },
}

impl ImageProcessingError {
    /// The error for an image at `path` that failed to decode with `source`, of
    /// the kind `failure`: `Decode` where the data is malformed,
    /// `UnsupportedImageFormat` otherwise; either carries `source` itself.
    pub fn decode_error(path: &std::path::Path, source: image::ImageError, failure: DecodeFailure) -> (r: Self)
        ensures
            failure == DecodeFailure::Malformed ==> (r matches ImageProcessingError::Decode {
                source: s,
                ..
            } && s == source),
            failure == DecodeFailure::Unsupported ==> (
            r matches ImageProcessingError::UnsupportedImageFormat { source: s, .. } && s == source),
    {
        let path = crate::bindings::path_to_owned(path);
        match failure {
            DecodeFailure::Malformed => ImageProcessingError::Decode { path, source },
            DecodeFailure::Unsupported => ImageProcessingError::UnsupportedImageFormat { path, source },
        }
    }
}

} // verus!
