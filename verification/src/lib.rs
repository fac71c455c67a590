//! Preparing images for a model prompt: checking image URLs (including inline
//! `data:` URLs), choosing how a decoded image is passed on (unchanged, re-encoded
//! or shrunk to fit), and turning tool output items into protocol items.

pub mod format;

pub use crate::format::ImageFormat;
pub mod text;
pub mod bindings;
pub mod data_url;
pub mod error;
pub mod prompt_image;

pub use crate::data_url::{validate_prompt_image_url, PromptImageUrlError};
pub use crate::error::ImageProcessingError;
pub use crate::prompt_image::{load_for_prompt_bytes, EncodedImage, PromptImageMode, MAX_DIMENSION};
pub mod response_adapter;
pub mod laws;
pub mod cache;
