[package]
name = "codex_utils_image"
version = "0.1.0"
edition = "2021"
publish = false

[dependencies]
base64 = "0.22"
image = { version = "0.25", default-features = false, features = ["png", "jpeg", "gif", "webp"] }
sha1 = "0.10"
thiserror = "2"
