//! Properties that tie several functions of the library together.
use vstd::prelude::*;

use crate::bindings::{base64_standard_decoding, decoded_dimensions, is_base64_symbol};
use crate::data_url::{
    base64_marker, data_scheme, has_base64_marker, image_mime_prefix, inline_image_verdict,
    prompt_image_url_verdict, PromptImageUrlError,
};
use crate::bindings::{guessed_format, image_decoding, within_decode_limits};
use crate::error::ImageProcessingError;
use crate::format::{encode_target, mime_type, ImageFormat};
use crate::prompt_image::{
    prompt_image_action, prompt_image_outcome, EncodedImage, ImageAction, MAX_DIMENSION,     PromptImageMode,
};
use crate::text::{
    ascii_fold, eq_ignore_ascii_case, is_blank, is_white_space, starts_with_ignore_ascii_case,
};

verus! {

broadcast use vstd::string::group_string_axioms;

/// The text `data:` + `mime` + `;base64,` + `payload`.
pub open spec fn inline_image_url(mime: Seq<char>, payload: Seq<char>) -> Seq<char> {
    "data:"@ + mime + ";base64,"@ + payload
}

/// The parts of `data:` + `mime` + `;base64,` + `payload`: the payload starts
/// 13 characters after the MIME type, and where the MIME type holds no `,`, the
/// first `,` is the one just before the payload.
pub proof fn lemma_inline_image_url_layout(mime: Seq<char>, payload: Seq<char>)
    ensures
        inline_image_url(mime, payload).len() == mime.len() + 13 + payload.len(),
        inline_image_url(mime, payload).skip(mime.len() + 13 as int) == payload,
        !mime.contains(',') ==> inline_image_url(mime, payload).index_of_first(',') == Some(
            mime.len() + 12 as int,
        ),
{
    reveal_strlit("data:");
    reveal_strlit(";base64,");
    let url = inline_image_url(mime, payload);
    let m: int = mime.len() as int;
    let comma: int = m + 12;
    assert(url.len() == comma + 1 + payload.len());
    assert forall|i: int| 0 <= i < m implies url[5 + i] == mime[i] by {}
    assert forall|i: int| 0 <= i < 8 implies url[5 + m + i] == ";base64,"@[i] by {}
    assert forall|i: int| 0 <= i < payload.len() implies url[comma + 1 + i] == payload[i] by {}
    assert(url.skip(m + 13) =~= payload);
    if !mime.contains(',') {
        assert(url[comma] == ',');
        url.index_of_first_ensures(',');
        assert(url.contains(',')) by {
            assert(url[comma] == ',');
        }
        let k: int = url.index_of_first(',')->0;
        assert forall|j: int| 0 <= j < comma implies url[j] != ',' by {
            if 5 <= j < 5 + m {
                assert(url[j] == mime[j - 5]);
                if mime[j - 5] == ',' {
                    assert(mime.contains(','));
                }
            }
        }
        if k < comma {
            assert(url[k] != ',');
        }
        if k > comma {
            assert(url[comma] != ',');
        }
    }
}

/// A `data:` URL accepted by `validate_prompt_image_url`: its MIME type is an
/// `image/...` type without a `,`, and its payload is non-empty base64 text
/// whose bytes decode to an image.
pub proof fn lemma_inline_image_url_accepted(mime: Seq<char>, payload: Seq<char>, bytes: Seq<u8>)
    requires
        starts_with_ignore_ascii_case(mime, image_mime_prefix()),
        !mime.contains(','),
        payload.len() > 0,
        forall|i: int| 0 <= i < payload.len() ==> is_base64_symbol(#[trigger] payload[i]),
        base64_standard_decoding(payload) == Some(bytes),
        bytes.len() > 0,
        decoded_dimensions(bytes) is Some,
    ensures
        prompt_image_url_verdict(inline_image_url(mime, payload)) == Ok::<(), PromptImageUrlError>(()),
{
    reveal_strlit("data:");
    reveal_strlit(";base64,");
    let url = inline_image_url(mime, payload);
    let m: int = mime.len() as int;
    let comma: int = 5 + m + 7;
    assert(url.len() == comma + 1 + payload.len());
    assert forall|i: int| 0 <= i < 5 implies url[i] == data_scheme()[i] by {}
    assert forall|i: int| 0 <= i < m implies url[5 + i] == mime[i] by {}
    assert forall|i: int| 0 <= i < 8 implies url[5 + m + i] == ";base64,"@[i] by {}
    assert forall|i: int| 0 <= i < payload.len() implies url[comma + 1 + i] == payload[i] by {}
    // Not blank: it starts with `d`.
    assert(url[0] == 'd');
    assert(!is_blank(url)) by {
        assert(!crate::text::is_white_space(url[0]));
    }
    // It is a `data:` URL.
    assert(url.take(5) =~= data_scheme());
    assert(starts_with_ignore_ascii_case(url, data_scheme()));
    // The first `,` is the one after `;base64`.
    assert(url[comma] == ',');
    url.index_of_first_ensures(',');
    assert(url.contains(',')) by {
        assert(url[comma] == ',');
    }
    let k: int = url.index_of_first(',')->0;
    assert forall|j: int| 0 <= j < comma implies url[j] != ',' by {
        if 5 <= j < 5 + m {
            assert(url[j] == mime[j - 5]);
            if mime[j - 5] == ',' {
                assert(mime.contains(','));
            }
        }
    }
    if k < comma {
        assert(url[k] != ',');
    }
    if k > comma {
        assert(url[comma] != ',');
    }
    assert(k == comma);
    let metadata = url.subrange(5, comma);
    assert(metadata =~= mime + ";base64"@.take(7)) by {
        reveal_strlit(";base64");
        assert forall|i: int| 0 <= i < 7 implies metadata[m + i] == ";base64,"@[i] by {}
    }
    assert(url.subrange(comma + 1, url.len() as int) =~= payload);
    // An image MIME type.
    assert(metadata.take(6) =~= mime.take(6));
    assert(starts_with_ignore_ascii_case(metadata, image_mime_prefix()));
    // The `base64` marker closes the metadata.
    assert(metadata[m] == ';');
    assert(metadata.subrange(m + 1, m + 7) =~= base64_marker());
    assert(eq_ignore_ascii_case(metadata.subrange(m + 1, m + 7), base64_marker()));
    assert(has_base64_marker(metadata));
    // The payload is not blank: its first character is a base64 symbol.
    assert(is_base64_symbol(payload[0]));
    assert(!is_blank(payload)) by {
        assert(!crate::text::is_white_space(payload[0]));
    }
    assert(inline_image_verdict(metadata, payload) == Ok::<(), PromptImageUrlError>(()));
}

/// Every MIME type the library announces is an `image/...` type without a `,`.
pub proof fn lemma_mime_type_is_image(format: ImageFormat)
    ensures
        starts_with_ignore_ascii_case(mime_type(format), image_mime_prefix()),
        !mime_type(format).contains(','),
{
    reveal_strlit("image/jpeg");
    reveal_strlit("image/gif");
    reveal_strlit("image/webp");
    reveal_strlit("image/png");
    let mime = mime_type(format);
    assert(mime.take(6) =~= image_mime_prefix());
    assert forall|i: int| 0 <= i < mime.len() implies mime[i] != ',' by {}
}

/// The GIF MIME type differs from those of the formats whose bytes are handed
/// on or written.
pub proof fn lemma_gif_mime_is_distinct()
    ensures
        mime_type(ImageFormat::Gif) != mime_type(ImageFormat::Png),
        mime_type(ImageFormat::Gif) != mime_type(ImageFormat::Jpeg),
        mime_type(ImageFormat::Gif) != mime_type(ImageFormat::WebP),
{
    reveal_strlit("image/jpeg");
    reveal_strlit("image/gif");
    reveal_strlit("image/webp");
    reveal_strlit("image/png");
    assert(mime_type(ImageFormat::Gif)[6] != mime_type(ImageFormat::Png)[6]);
    assert(mime_type(ImageFormat::Gif)[6] != mime_type(ImageFormat::Jpeg)[6]);
    assert(mime_type(ImageFormat::Gif)[6] != mime_type(ImageFormat::WebP)[6]);
}

/// A picture that fits within `MAX_DIMENSION` both ways is within the decode
/// limits.
pub proof fn lemma_fitting_size_is_within_decode_limits(width: u32, height: u32)
    requires
        width <= MAX_DIMENSION,
        height <= MAX_DIMENSION,
    ensures
        within_decode_limits((width, height)),
{
    assert((width as int) * (height as int) <= 2048 * 2048) by (nonlinear_arith)
        requires
            width <= 2048,
            height <= 2048,
    ;
}

/// An image prepared from some bytes in `ResizeToFit` mode, or of a size within
/// the default decode limits, meets what `EncodedImage::into_data_url` needs
/// for its URL to pass `validate_prompt_image_url`: an `image/...` MIME type
/// without a `,`, and non-empty bytes that decode.
pub proof fn lemma_prepared_image_is_url_ready(img: EncodedImage, file_bytes: Seq<u8>, mode: PromptImageMode)
    requires
        prompt_image_outcome(Ok(img), file_bytes, mode),
        mode == PromptImageMode::ResizeToFit || within_decode_limits((img.width, img.height)),
    ensures
        starts_with_ignore_ascii_case(img.mime@, image_mime_prefix()),
        !img.mime@.contains(','),
        img.bytes@.len() > 0,
        decoded_dimensions(img.bytes@) == Some((img.width, img.height)),
{
    if mode == PromptImageMode::ResizeToFit && img.width <= MAX_DIMENSION && img.height
        <= MAX_DIMENSION {
        lemma_fitting_size_is_within_decode_limits(img.width, img.height);
    }
    if let Ok((width, height)) = image_decoding(file_bytes) {
        match prompt_image_action(mode, crate::bindings::guessed_format(file_bytes), width, height) {
            ImageAction::PassThrough(f) => {
                lemma_mime_type_is_image(f);
            },
            ImageAction::Reencode(f) => {
                lemma_mime_type_is_image(encode_target(f));
            },
            ImageAction::Downscale(f) => {
                lemma_mime_type_is_image(encode_target(f));
            },
        }
    }
}

/// Preparing the same bytes in the same mode gives the same image whenever it
/// succeeds: the bytes, MIME type and size depend on nothing else (not on the
/// path, nor on earlier calls).
pub proof fn lemma_prepared_image_is_determined(
    first: EncodedImage,
    second: EncodedImage,
    file_bytes: Seq<u8>,
    mode: PromptImageMode,
)
    requires
        prompt_image_outcome(Ok(first), file_bytes, mode),
        prompt_image_outcome(Ok(second), file_bytes, mode),
    ensures
        first.content() == second.content(),
{
}

/// Bytes recognised as PNG, JPEG or WebP that decode to a picture fitting within
/// `MAX_DIMENSION` (or any size in `Original` mode) are handed on unchanged,
/// announced with their own format's MIME type and at their decoded size.
pub proof fn lemma_fitting_recognised_bytes_pass_through(
    r: Result<EncodedImage, ImageProcessingError>,
    file_bytes: Seq<u8>,
    mode: PromptImageMode,
    format: ImageFormat,
    width: u32,
    height: u32,
)
    requires
        prompt_image_outcome(r, file_bytes, mode),
        guessed_format(file_bytes) == Some(format),
        format == ImageFormat::Png || format == ImageFormat::Jpeg || format == ImageFormat::WebP,
        decoded_dimensions(file_bytes) == Some((width, height)),
        mode == PromptImageMode::Original || (width <= MAX_DIMENSION && height <= MAX_DIMENSION),
    ensures
        r matches Ok(img) && img.bytes@ == file_bytes && img.mime@ == mime_type(format) && img.width
            == width && img.height == height,
{
}

/// In `ResizeToFit` mode a picture that already fits within `MAX_DIMENSION` keeps
/// its size: it is neither shrunk nor enlarged.
pub proof fn lemma_fitting_image_keeps_its_size(
    r: Result<EncodedImage, ImageProcessingError>,
    file_bytes: Seq<u8>,
    width: u32,
    height: u32,
)
    requires
        prompt_image_outcome(r, file_bytes, PromptImageMode::ResizeToFit),
        decoded_dimensions(file_bytes) == Some((width, height)),
        width <= MAX_DIMENSION,
        height <= MAX_DIMENSION,
    ensures
        r matches Ok(img) ==> img.width == width && img.height == height,
{
}

/// Two characters that agree once ASCII letters are folded to lower case are
/// either both white space or neither, and either both are a given `,` or `;`
/// or neither.
proof fn lemma_fold_keeps_symbols(a: char, b: char)
    requires
        ascii_fold(a) == ascii_fold(b),
    ensures
        is_white_space(a) <==> is_white_space(b),
        a == ',' <==> b == ',',
        a == ';' <==> b == ';',
{
    let ua = a as u32;
    let ub = b as u32;
    if !(65 <= ua <= 90) && !(65 <= ub <= 90) {
        assert(ua == ub);
    }
}

/// `a` and `b` agree character by character once ASCII letters are folded to
/// lower case.
pub open spec fn same_but_ascii_case(a: Seq<char>, b: Seq<char>) -> bool {
    &&& a.len() == b.len()
    &&& forall|i: int| 0 <= i < a.len() ==> ascii_fold(#[trigger] a[i]) == ascii_fold(b[i])
}

/// Sequences that agree but for ASCII case give the same answer to every test
/// the verdict makes of the metadata and of the whole URL.
proof fn lemma_same_but_ascii_case_tests(a: Seq<char>, b: Seq<char>)
    requires
        same_but_ascii_case(a, b),
    ensures
        is_blank(a) <==> is_blank(b),
        starts_with_ignore_ascii_case(a, data_scheme()) <==> starts_with_ignore_ascii_case(
            b,
            data_scheme(),
        ),
        starts_with_ignore_ascii_case(a, image_mime_prefix()) <==> starts_with_ignore_ascii_case(
            b,
            image_mime_prefix(),
        ),
        has_base64_marker(a) <==> has_base64_marker(b),
        a.index_of_first(',') == b.index_of_first(','),
{
    assert forall|i: int| 0 <= i < a.len() implies (is_white_space(a[i]) <==> is_white_space(
        b[i],
    )) && (a[i] == ',' <==> b[i] == ',') && (a[i] == ';' <==> b[i] == ';') by {
        lemma_fold_keeps_symbols(a[i], b[i]);
    }
    if is_blank(a) {
        assert forall|i: int| 0 <= i < b.len() implies is_white_space(#[trigger] b[i]) by {
            assert(is_white_space(a[i]));
        }
    }
    if is_blank(b) {
        assert forall|i: int| 0 <= i < a.len() implies is_white_space(#[trigger] a[i]) by {
            assert(is_white_space(b[i]));
        }
    }
    // Case-insensitive prefixes.
    assert forall|p: Seq<char>| p.len() <= a.len() implies (eq_ignore_ascii_case(
        #[trigger] a.take(p.len() as int),
        p,
    ) <==> eq_ignore_ascii_case(b.take(p.len() as int), p)) by {
        let n = p.len() as int;
        assert forall|i: int| 0 <= i < n implies ascii_fold(#[trigger] a.take(n)[i]) == ascii_fold(
            b.take(n)[i],
        ) by {
            assert(a.take(n)[i] == a[i]);
            assert(b.take(n)[i] == b[i]);
        }
        if eq_ignore_ascii_case(a.take(n), p) {
            assert forall|i: int| 0 <= i < n implies ascii_fold(#[trigger] b.take(n)[i])
                == ascii_fold(p[i]) by {
                assert(ascii_fold(a.take(n)[i]) == ascii_fold(p[i]));
            }
        }
        if eq_ignore_ascii_case(b.take(n), p) {
            assert forall|i: int| 0 <= i < n implies ascii_fold(#[trigger] a.take(n)[i])
                == ascii_fold(p[i]) by {
                assert(ascii_fold(b.take(n)[i]) == ascii_fold(p[i]));
            }
        }
    }
    // The marker.
    if has_base64_marker(a) {
        let i = choose|i: int|
            #![trigger a[i]]
            0 <= i && i + 7 <= a.len() && a[i] == ';' && eq_ignore_ascii_case(
                a.subrange(i + 1, i + 7),
                base64_marker(),
            ) && (i + 7 == a.len() || a[i + 7] == ';');
        assert forall|j: int| 0 <= j < 6 implies ascii_fold(#[trigger] b.subrange(i + 1, i + 7)[j])
            == ascii_fold(base64_marker()[j]) by {
            assert(a.subrange(i + 1, i + 7)[j] == a[i + 1 + j]);
            assert(b.subrange(i + 1, i + 7)[j] == b[i + 1 + j]);
        }
        assert(b[i] == ';');
        if i + 7 < a.len() {
            assert(b[i + 7] == ';');
        }
        assert(has_base64_marker(b));
    }
    if has_base64_marker(b) {
        let i = choose|i: int|
            #![trigger b[i]]
            0 <= i && i + 7 <= b.len() && b[i] == ';' && eq_ignore_ascii_case(
                b.subrange(i + 1, i + 7),
                base64_marker(),
            ) && (i + 7 == b.len() || b[i + 7] == ';');
        assert forall|j: int| 0 <= j < 6 implies ascii_fold(#[trigger] a.subrange(i + 1, i + 7)[j])
            == ascii_fold(base64_marker()[j]) by {
            assert(a.subrange(i + 1, i + 7)[j] == a[i + 1 + j]);
            assert(b.subrange(i + 1, i + 7)[j] == b[i + 1 + j]);
        }
        assert(a[i] == ';');
        if i + 7 < a.len() {
            assert(a[i + 7] == ';');
        }
        assert(has_base64_marker(a));
    }
    // The first `,`.
    a.index_of_first_ensures(',');
    b.index_of_first_ensures(',');
    match a.index_of_first(',') {
        Some(ka) => {
            assert(b[ka] == ',');
            assert(b.contains(','));
            let kb = b.index_of_first(',')->0;
            assert(a[kb] == ',');
            if ka < kb {
                assert(b[ka] != ',');
            }
            if kb < ka {
                assert(a[kb] != ',');
            }
        },
        None => {
            if b.contains(',') {
                let kb = b.index_of_first(',')->0;
                assert(a[kb] == ',');
                assert(a.contains(','));
            }
        },
    }
}

/// Changing the ASCII letter case of characters before the first `,` of a URL
/// (the scheme, MIME type and parameters of a `data:` URL, or any of a URL
/// without a `,`) leaves the verdict of `validate_prompt_image_url` unchanged.
/// `k` is where the changed part ends.
pub proof fn lemma_verdict_ignores_ascii_case_of_header(s1: Seq<char>, s2: Seq<char>, k: int)
    requires
        s1.len() == s2.len(),
        0 <= k <= s1.len(),
        forall|i: int| 0 <= i < k ==> s1[i] != ',' && ascii_fold(s1[i]) == ascii_fold(s2[i]),
        forall|i: int| k <= i < s1.len() ==> s1[i] == s2[i],
    ensures
        prompt_image_url_verdict(s1) == prompt_image_url_verdict(s2),
{
    assert forall|i: int| 0 <= i < s1.len() implies ascii_fold(#[trigger] s1[i]) == ascii_fold(
        s2[i],
    ) by {
        if i >= k {
            assert(s1[i] == s2[i]);
        }
    }
    lemma_same_but_ascii_case_tests(s1, s2);
    s1.index_of_first_ensures(',');
    if let Some(comma) = s1.index_of_first(',') {
        if comma < k {
            assert(s1[comma] != ',');
        }
        let m1 = s1.subrange(5, comma);
        let m2 = s2.subrange(5, comma);
        if 5 <= comma {
            assert forall|i: int| 0 <= i < m1.len() implies ascii_fold(#[trigger] m1[i]) == ascii_fold(
                m2[i],
            ) by {
                assert(m1[i] == s1[5 + i]);
                assert(m2[i] == s2[5 + i]);
            }
            lemma_same_but_ascii_case_tests(m1, m2);
        }
        assert(s1.subrange(comma + 1, s1.len() as int) =~= s2.subrange(comma + 1, s2.len() as int));
        if !is_blank(s1) && starts_with_ignore_ascii_case(s1, data_scheme()) {
            // A `data:` URL has no `,` in its scheme.
            if comma < 5 {
                assert(s1.take(5)[comma] == s1[comma]);
                assert(ascii_fold(s1[comma]) == ascii_fold(data_scheme()[comma]));
                lemma_fold_keeps_symbols(s1[comma], data_scheme()[comma]);
            }
        }
    }
}

} // verus!
