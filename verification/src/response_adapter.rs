//! Turning the content items that code-mode tools return into protocol content
//! items; image items whose URL is refused become a short text.
use vstd::prelude::*;

use crate::data_url::{prompt_image_url_verdict, validate_prompt_image_url};
use vstd::string::StringExecFns;

verus! {

/// The detail level a code-mode tool asks for an image.
#[derive(Debug, Clone, Copy, PartialEq, Eq, Structural)]
pub enum CodeModeImageDetail {
    High,
    Original,
}

/// The detail level of an image in the protocol.
#[derive(Debug, Clone, Copy, PartialEq, Eq, Structural)]
pub enum ImageDetail {
    Auto,
    Low,
    High,
    Original,
}

/// The detail level given to an image whose tool asked for none.
pub const DEFAULT_IMAGE_DETAIL: ImageDetail = ImageDetail::High;

/// A content item as a code-mode tool returns it.
#[derive(Debug, Clone, PartialEq, Eq)]
pub enum CodeModeFunctionCallOutputContentItem {
    InputText { text: String },
    InputImage { image_url: String, detail: Option<CodeModeImageDetail> },
}

/// A content item of a function call's output in the protocol.
#[derive(Debug, Clone, PartialEq, Eq)]
pub enum FunctionCallOutputContentItem {
    InputText { text: String },
    InputImage { image_url: String, detail: Option<ImageDetail> },
}

/// The protocol detail level for a code-mode one.
pub open spec fn detail_in_protocol(detail: CodeModeImageDetail) -> ImageDetail {
    match detail {
        CodeModeImageDetail::High => ImageDetail::High,
        CodeModeImageDetail::Original => ImageDetail::Original,
    }
}

/// The text that stands in for an image whose URL was refused.
pub open spec fn invalid_image_text() -> Seq<char> {
    "Invalid image"@
}

/// `converted` is the protocol item for the code-mode `item`: text is kept;
/// an image whose URL passes `validate_prompt_image_url` keeps its URL and gets
/// its detail level (the default where none was asked for); any other image
/// becomes the text `Invalid image`.
pub open spec fn converts_to(
    item: CodeModeFunctionCallOutputContentItem,
    converted: FunctionCallOutputContentItem,
) -> bool {
    match item {
        CodeModeFunctionCallOutputContentItem::InputText { text } => converted
            == FunctionCallOutputContentItem::InputText { text },
        CodeModeFunctionCallOutputContentItem::InputImage { image_url, detail } => {
            if prompt_image_url_verdict(image_url@) is Ok {
                converted == FunctionCallOutputContentItem::InputImage {
                    image_url,
                    detail: Some(
                        match detail {
                            Some(d) => detail_in_protocol(d),
                            None => DEFAULT_IMAGE_DETAIL,
                        },
                    ),
                }
            } else {
                converted matches FunctionCallOutputContentItem::InputText { text } && text@
                    == invalid_image_text()
            }
        },
    }
}

/// A text item converts to a text item with exactly the same text.
pub proof fn lemma_text_items_are_kept(
    item: CodeModeFunctionCallOutputContentItem,
    converted: FunctionCallOutputContentItem,
)
    ensures
        converts_to(item, converted) && item is InputText ==> (converted == (
        FunctionCallOutputContentItem::InputText { text: item->text })),
{
}

impl CodeModeImageDetail {
    /// The protocol detail level for this one.
    pub fn into_protocol(self) -> (r: ImageDetail)
        ensures
            r == detail_in_protocol(self),
    {
        let value = self;
        match value {
            CodeModeImageDetail::High => ImageDetail::High,
            CodeModeImageDetail::Original => ImageDetail::Original,
        }
    }
}

impl CodeModeFunctionCallOutputContentItem {
    /// The protocol item for this one.
    pub fn into_protocol(self) -> (r: FunctionCallOutputContentItem)
        ensures
            converts_to(self, r),
            self is InputText ==> (r == (FunctionCallOutputContentItem::InputText {
                text: self->text,
            })),
    {
        let value = self;
        match value {
            CodeModeFunctionCallOutputContentItem::InputText { text } => {
                FunctionCallOutputContentItem::InputText { text }
            },
            CodeModeFunctionCallOutputContentItem::InputImage { image_url, detail } => {
                if validate_prompt_image_url(image_url.as_str()).is_ok() {
                    let detail = match detail {
                        Some(d) => d.into_protocol(),
                        None => DEFAULT_IMAGE_DETAIL,
                    };
                    FunctionCallOutputContentItem::InputImage { image_url, detail: Some(detail) }
                } else {
                    FunctionCallOutputContentItem::InputText {
                        text: String::from_str("Invalid image"),
                    }
                }
            },
        }
    }
}

/// Converts each item, in order.
pub fn into_function_call_output_content_items(
    items: Vec<CodeModeFunctionCallOutputContentItem>,
) -> (r: Vec<FunctionCallOutputContentItem>)
    ensures
        r@.len() == items@.len(),
        forall|i: int| 0 <= i < items@.len() ==> converts_to(items@[i], #[trigger] r@[i]),
        forall|i: int|
            0 <= i < items@.len() && items@[i] is InputText ==> (#[trigger] r@[i] == (
            FunctionCallOutputContentItem::InputText { text: items@[i]->text })),
{
    let ghost source = items@;
    let mut converted: Vec<FunctionCallOutputContentItem> = Vec::new();
    for item in it: items
        invariant
            it.seq() == source,
            converted@.len() == it.index(),
            forall|i: int| 0 <= i < it.index() ==> converts_to(source[i], #[trigger] converted@[i]),
    {
        converted.push(item.into_protocol());
    }
    converted
}

} // verus!
