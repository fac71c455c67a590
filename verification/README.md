# codex_utils_image

Preparing images for a model prompt, with its behaviour proved in Verus.

- `src/data_url.rs` checks image URLs: remote URLs pass, `data:` URLs must carry
  an `image/...` MIME type, a `base64` parameter and a payload that decodes to an
  image. `validate_prompt_image_url` returns exactly `prompt_image_url_verdict`.
- `src/prompt_image.rs` decides whether decoded image bytes are handed on,
  re-encoded or shrunk to fit `MAX_DIMENSION`, and builds `data:` URLs.
- `src/cache.rs` is a least-recently-used cache of prepared images keyed by the
  SHA-1 digest of the bytes and the mode.
- `src/response_adapter.rs` turns tool output items into protocol items; images
  whose URL is refused become the text `Invalid image`.
- `src/text.rs` holds the character-level helpers (Unicode white space, ASCII
  case folding, searching).
- `src/laws.rs` proves properties that span functions: the `data:` URL of an
  image whose bytes decode is accepted, an image prepared in `ResizeToFit` mode
  meets that condition, the same bytes and mode always give the same image,
  and the letter case of a URL's header does not change the verdict.
- `src/bindings.rs` holds every call into `base64`, `image`, `sha1` and
  `std::path`, with their trusted contracts. A decoded picture is described by
  how it came about (decoded from bytes, or resized), and the encoders' output
  is named as a function of its pixels.
- `app/` holds the process-wide cache and error types that implement
  `std::error::Error`.
