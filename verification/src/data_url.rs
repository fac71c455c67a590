//! Checking the image URLs that go into a prompt.
use vstd::prelude::*;

use crate::bindings::{
    base64_standard_decoding, decode_base64_standard, decode_image, decoded_dimensions,
};
use crate::text::{
    ascii_fold, is_white_space, all_white_space, chars_of, eq_ignore_ascii_case, find_char, is_blank,
    starts_with_ignore_ascii_case, starts_with_ignore_case_at,
};
use vstd::string::StrSliceExecFns;

verus! {

/// Why an image URL was refused.
#[derive(Debug, Clone, Copy, PartialEq, Eq, Structural)]
pub enum PromptImageUrlError {
    /// The URL is empty or only white space.
    EmptyUrl,
    /// A `data:` URL without the `,` between metadata and payload.
    MissingDataUrlSeparator,
    /// A `data:` URL whose MIME type is not `image/...`.
    NonImageDataUrl,
    /// A `data:` URL whose metadata lacks the `base64` marker.
    MissingBase64Marker,
    /// A `data:` URL with no payload bytes.
    EmptyBase64Payload,
    /// A `data:` URL whose payload is not valid base64.
    InvalidBase64Payload,
    /// A `data:` URL whose payload does not decode to an image.
    InvalidImageBytes,
}

impl PromptImageUrlError {
    /// The message shown for this error.
    pub open spec fn message_spec(self) -> Seq<char> {
        match self {
            PromptImageUrlError::EmptyUrl => "image URL must not be empty"@,
            PromptImageUrlError::MissingDataUrlSeparator => "image data URL must include metadata and a payload"@,
            PromptImageUrlError::NonImageDataUrl => "image data URL must use an image MIME type"@,
            PromptImageUrlError::MissingBase64Marker => "image data URL must use base64 encoding"@,
            PromptImageUrlError::EmptyBase64Payload => "image data URL must include base64 payload bytes"@,
            PromptImageUrlError::InvalidBase64Payload => "image data URL payload must be valid base64"@,
            PromptImageUrlError::InvalidImageBytes => "image data URL payload must decode to a valid image"@,
        }
    }

    /// The message shown for this error.
    pub fn message(&self) -> (r: String)
        ensures
            r@ == self.message_spec(),
    {
        match self {
            PromptImageUrlError::EmptyUrl => String::from_str("image URL must not be empty"),
            PromptImageUrlError::MissingDataUrlSeparator => String::from_str("image data URL must include metadata and a payload"),
            PromptImageUrlError::NonImageDataUrl => String::from_str("image data URL must use an image MIME type"),
            PromptImageUrlError::MissingBase64Marker => String::from_str("image data URL must use base64 encoding"),
            PromptImageUrlError::EmptyBase64Payload => String::from_str("image data URL must include base64 payload bytes"),
            PromptImageUrlError::InvalidBase64Payload => String::from_str("image data URL payload must be valid base64"),
            PromptImageUrlError::InvalidImageBytes => String::from_str("image data URL payload must decode to a valid image"),
        }
    }
}

/// `data:`
pub open spec fn data_scheme() -> Seq<char> {
    seq!['d', 'a', 't', 'a', ':']
}

/// `image/`
pub open spec fn image_mime_prefix() -> Seq<char> {
    seq!['i', 'm', 'a', 'g', 'e', '/']
}

/// `base64`
pub open spec fn base64_marker() -> Seq<char> {
    seq!['b', 'a', 's', 'e', '6', '4']
}

/// Some `;`-separated parameter after the MIME type is `base64`, ASCII letters
/// compared without regard to case.
pub open spec fn has_base64_marker(metadata: Seq<char>) -> bool {
    exists|i: int|
        #![trigger metadata[i]]
        0 <= i && i + 7 <= metadata.len() && metadata[i] == ';' && eq_ignore_ascii_case(
            metadata.subrange(i + 1, i + 7),
            base64_marker(),
        ) && (i + 7 == metadata.len() || metadata[i + 7] == ';')
}

/// The verdict on the decoded payload of an inline image.
pub open spec fn decoded_payload_verdict(decoded: Option<Seq<u8>>) -> Result<(), PromptImageUrlError> {
    match decoded {
        None => Err(PromptImageUrlError::InvalidBase64Payload),
        Some(bytes) => if bytes.len() == 0 {
            Err(PromptImageUrlError::EmptyBase64Payload)
        } else if decoded_dimensions(bytes) is None {
            Err(PromptImageUrlError::InvalidImageBytes)
        } else {
            Ok(())
        },
    }
}

/// The verdict on a `data:` URL, given the metadata between `data:` and the first
/// `,` and the payload after that `,`.
pub open spec fn inline_image_verdict(metadata: Seq<char>, payload: Seq<char>) -> Result<(), PromptImageUrlError> {
    if !starts_with_ignore_ascii_case(metadata, image_mime_prefix()) {
        Err(PromptImageUrlError::NonImageDataUrl)
    } else if !has_base64_marker(metadata) {
        Err(PromptImageUrlError::MissingBase64Marker)
    } else if is_blank(payload) {
        Err(PromptImageUrlError::EmptyBase64Payload)
    } else {
        decoded_payload_verdict(base64_standard_decoding(payload))
    }
}

/// The verdict on an image URL: blank URLs are refused, URLs that are not
/// `data:` URLs (remote images) are accepted, and a `data:` URL must carry a
/// base64 image payload.
pub open spec fn prompt_image_url_verdict(url: Seq<char>) -> Result<(), PromptImageUrlError> {
    if is_blank(url) {
        Err(PromptImageUrlError::EmptyUrl)
    } else if !starts_with_ignore_ascii_case(url, data_scheme()) {
        Ok(())
    } else {
        match url.index_of_first(',') {
            None => Err(PromptImageUrlError::MissingDataUrlSeparator),
            Some(comma) => inline_image_verdict(
                url.subrange(data_scheme().len() as int, comma),
                url.subrange(comma + 1, url.len() as int),
            ),
        }
    }
}

/// A URL with some character that is not white space, and whose first five
/// characters are not `data:` (ASCII letters compared without regard to case):
/// a remote image URL.
pub open spec fn is_remote_image_url(url: Seq<char>) -> bool {
    &&& exists|i: int| 0 <= i < url.len() && !is_white_space(#[trigger] url[i])
    &&& !(url.len() >= 5 && forall|i: int|
        0 <= i < 5 ==> ascii_fold(#[trigger] url[i]) == ascii_fold(data_scheme()[i]))
}

/// Every remote image URL is accepted as it is.
pub proof fn lemma_remote_urls_are_accepted(url: Seq<char>)
    ensures
        is_remote_image_url(url) ==> prompt_image_url_verdict(url) == Ok::<(), PromptImageUrlError>(
            (),
        ),
{
    if is_remote_image_url(url) {
        let i = choose|i: int| 0 <= i < url.len() && !is_white_space(#[trigger] url[i]);
        assert(!is_blank(url));
        if starts_with_ignore_ascii_case(url, data_scheme()) {
            assert forall|j: int| 0 <= j < 5 implies ascii_fold(#[trigger] url[j]) == ascii_fold(
                data_scheme()[j],
            ) by {
                assert(url.take(5)[j] == url[j]);
            }
            assert(false);
        }
    }
}

/// Judges the outcome of base64-decoding an inline payload: an error where it
/// did not decode or decoded to nothing, else the bytes to check as an image.
pub fn check_decoded_payload(decoded: Option<Vec<u8>>) -> (r: Result<Vec<u8>, PromptImageUrlError>)
    ensures
        match decoded {
            None => r == Err::<Vec<u8>, _>(PromptImageUrlError::InvalidBase64Payload),
            Some(bytes) => if bytes@.len() == 0 {
                r == Err::<Vec<u8>, _>(PromptImageUrlError::EmptyBase64Payload)
            } else {
                r == Ok::<_, PromptImageUrlError>(bytes)
            },
        },
{
    match decoded {
        None => Err(PromptImageUrlError::InvalidBase64Payload),
        Some(bytes) => if bytes.len() == 0 {
            Err(PromptImageUrlError::EmptyBase64Payload)
        } else {
            Ok(bytes)
        },
    }
}

/// Whether `chars[lo..hi]` holds the `base64` marker as one of its `;`-separated
/// parameters.
fn find_base64_marker(chars: &Vec<char>, lo: usize, hi: usize) -> (r: bool)
    requires
        lo <= hi <= chars@.len(),
    ensures
        r == has_base64_marker(chars@.subrange(lo as int, hi as int)),
{
    let ghost meta = chars@.subrange(lo as int, hi as int);
    let marker: [char; 6] = ['b', 'a', 's', 'e', '6', '4'];
    assert(marker@ == base64_marker());
    let mut i: usize = lo;
    while i < hi
        invariant
            lo <= i <= hi <= chars@.len(),
            meta == chars@.subrange(lo as int, hi as int),
            marker@ == base64_marker(),
            forall|j: int|
                #![trigger meta[j]]
                0 <= j < i - lo ==> !(j + 7 <= meta.len() && meta[j] == ';' && eq_ignore_ascii_case(
                    meta.subrange(j + 1, j + 7),
                    base64_marker(),
                ) && (j + 7 == meta.len() || meta[j + 7] == ';')),
        decreases hi - i,
    {
        let ghost j = i - lo;
        if chars[i] == ';' && hi - i >= 7 {
            let end: usize = i + 7;
            let word = starts_with_ignore_case_at(chars, i + 1, end, &marker);
            if word && (end == hi || chars[end] == ';') {
                proof {
                    assert(meta[j] == chars@[i as int]);
                    assert(chars@.subrange(i + 1, end as int).take(6) =~= meta.subrange(j + 1, j + 7));
                    if end < hi {
                        assert(meta[j + 7] == chars@[end as int]);
                    }
                }
                return true;
            }
            proof {
                assert(meta[j] == chars@[i as int]);
                assert(chars@.subrange(i + 1, end as int).take(6) =~= meta.subrange(j + 1, j + 7));
                if end < hi {
                    assert(meta[j + 7] == chars@[end as int]);
                }
            }
        } else {
            proof {
                assert(meta[j] == chars@[i as int]);
            }
        }
        i += 1;
    }
    false
}

/// Checks an image URL before it goes into a prompt.
///
/// Remote URLs are accepted as they are. A `data:` URL (scheme matched without
/// regard to ASCII case) must carry an `image/...` MIME type, a `base64`
/// parameter and a non-empty base64 payload that decodes to an image.
pub fn validate_prompt_image_url(image_url: &str) -> (r: Result<(), PromptImageUrlError>)
    ensures
        r == prompt_image_url_verdict(image_url@),
        is_remote_image_url(image_url@) ==> r == Ok::<(), PromptImageUrlError>(()),
{
    proof {
        lemma_remote_urls_are_accepted(image_url@);
    }
    let chars = chars_of(image_url);
    let n: usize = chars.len();
    if all_white_space(&chars, 0, n) {
        assert(chars@.subrange(0, n as int) =~= chars@);
        return Err(PromptImageUrlError::EmptyUrl);
    }
    assert(chars@.subrange(0, n as int) =~= chars@);
    let scheme: [char; 5] = ['d', 'a', 't', 'a', ':'];
    assert(scheme@ == data_scheme());
    if !starts_with_ignore_case_at(&chars, 0, n, &scheme) {
        return Ok(());
    }
    let comma: usize = match find_char(&chars, ',') {
        None => {
            return Err(PromptImageUrlError::MissingDataUrlSeparator);
        },
        Some(comma) => comma,
    };
    proof {
        chars@.index_of_first_ensures(',');
        // The scheme holds no `,`, so the metadata starts after it.
        if comma < 5 {
            assert(chars@.take(5)[comma as int] == chars@[comma as int]);
            assert(false);
        }
    }
    let prefix: [char; 6] = ['i', 'm', 'a', 'g', 'e', '/'];
    assert(prefix@ == image_mime_prefix());
    if !starts_with_ignore_case_at(&chars, 5, comma, &prefix) {
        return Err(PromptImageUrlError::NonImageDataUrl);
    }
    if !find_base64_marker(&chars, 5, comma) {
        return Err(PromptImageUrlError::MissingBase64Marker);
    }
    if all_white_space(&chars, comma + 1, n) {
        return Err(PromptImageUrlError::EmptyBase64Payload);
    }
    let payload = image_url.substring_char(comma + 1, n);
    let bytes = check_decoded_payload(decode_base64_standard(payload))?;
    match decode_image(bytes.as_slice()) {
        Ok(_) => Ok(()),
        Err(_) => Err(PromptImageUrlError::InvalidImageBytes),
    }
}

} // verus!
