use std::io::Cursor;
use std::path::Path;

use codex_utils_image::cache::{ImageCacheKey, PromptImageCache, IMAGE_CACHE_CAPACITY};
use codex_utils_image::{EncodedImage, PromptImageMode};
use image::DynamicImage;
use image::ImageBuffer;
use image::ImageFormat;
use image::Rgba;

fn png(width: u32, height: u32) -> Vec<u8> {
    let image = ImageBuffer::from_pixel(width, height, Rgba([10u8, 20, 30, 255]));
    let mut encoded = Cursor::new(Vec::new());
    DynamicImage::ImageRgba8(image)
        .write_to(&mut encoded, ImageFormat::Png)
        .expect("encode image to bytes");
    encoded.into_inner()
}

fn key(n: u8) -> ImageCacheKey {
    ImageCacheKey { digest: [n; 20], mode: PromptImageMode::ResizeToFit }
}

fn image(n: u32) -> EncodedImage {
    EncodedImage { bytes: vec![n as u8], mime: "image/png".to_string(), width: n, height: n }
}

#[test]
fn a_stored_image_is_found_again() {
    let mut cache = PromptImageCache::new(4);
    cache.insert(key(1), image(1));
    cache.insert(key(2), image(2));
    let found = cache.get(&key(1)).expect("cached");
    assert_eq!(found.width, 1);
    assert!(cache.get(&key(3)).is_none());
    assert_eq!(cache.len(), 2);
}

#[test]
fn storing_under_a_known_key_replaces() {
    let mut cache = PromptImageCache::new(4);
    cache.insert(key(1), image(1));
    cache.insert(key(1), image(7));
    assert_eq!(cache.len(), 1);
    assert_eq!(cache.get(&key(1)).expect("cached").width, 7);
}

#[test]
fn the_least_recently_used_image_leaves_a_full_cache() {
    let mut cache = PromptImageCache::new(2);
    cache.insert(key(1), image(1));
    cache.insert(key(2), image(2));
    assert!(cache.get(&key(1)).is_some());
    cache.insert(key(3), image(3));
    assert_eq!(cache.len(), 2);
    assert!(cache.get(&key(2)).is_none());
    assert!(cache.get(&key(1)).is_some());
    assert!(cache.get(&key(3)).is_some());
}

#[test]
fn modes_are_cached_apart() {
    let mut cache = PromptImageCache::new(4);
    let other = ImageCacheKey { digest: [1; 20], mode: PromptImageMode::Original };
    cache.insert(key(1), image(1));
    assert!(cache.get(&other).is_none());
}

#[test]
fn same_bytes_are_prepared_once() {
    let mut cache = PromptImageCache::new_default();
    let bytes = png(8, 8);
    let first = cache
        .get_or_load(Path::new("a.png"), bytes.clone(), PromptImageMode::ResizeToFit)
        .expect("first");
    let second = cache
        .get_or_load(Path::new("b.png"), bytes.clone(), PromptImageMode::ResizeToFit)
        .expect("second");
    assert_eq!(cache.len(), 1);
    assert_eq!(first.bytes, second.bytes);
    cache
        .get_or_load(Path::new("a.png"), bytes, PromptImageMode::Original)
        .expect("third");
    assert_eq!(cache.len(), 2);
}

#[test]
fn failures_are_not_cached() {
    let mut cache = PromptImageCache::new_default();
    assert!(cache
        .get_or_load(Path::new("x"), b"junk".to_vec(), PromptImageMode::ResizeToFit)
        .is_err());
    assert_eq!(cache.len(), 0);
}

#[test]
fn default_capacity_bounds_the_cache() {
    let mut cache = PromptImageCache::new_default();
    for n in 0..40u8 {
        cache.insert(key(n), image(u32::from(n)));
    }
    assert_eq!(cache.len(), IMAGE_CACHE_CAPACITY);
    assert!(cache.get(&key(0)).is_none());
    assert!(cache.get(&key(39)).is_some());
}
