//! Completion items, as the language server lists them.

use vstd::prelude::*;
use crate::json::{
    json_array_elements, json_is_null, json_string_content, json_u32_value, member_of, texts,
    Json, Member,
};

verus! {

/// The name of a kind of completion item; `Unknown` for a number that stands
/// for none.
pub open spec fn spec_kind_name(kind: u32) -> Seq<char> {
    if kind == 1 {
        "Text"@
    } else if kind == 2 {
        "Method"@
    } else if kind == 3 {
        "Function"@
    } else if kind == 4 {
        "Constructor"@
    } else if kind == 5 {
        "Field"@
    } else if kind == 6 {
        "Variable"@
    } else if kind == 7 {
        "Class"@
    } else if kind == 8 {
        "Interface"@
    } else if kind == 9 {
        "Module"@
    } else if kind == 10 {
        "Property"@
    } else if kind == 11 {
        "Unit"@
    } else if kind == 12 {
        "Value"@
    } else if kind == 13 {
        "Enum"@
    } else if kind == 14 {
        "Keyword"@
    } else if kind == 15 {
        "Snippet"@
    } else if kind == 16 {
        "Color"@
    } else if kind == 17 {
        "File"@
    } else if kind == 18 {
        "Reference"@
    } else if kind == 19 {
        "Folder"@
    } else if kind == 20 {
        "EnumMember"@
    } else if kind == 21 {
        "Constant"@
    } else if kind == 22 {
        "Struct"@
    } else if kind == 23 {
        "Event"@
    } else if kind == 24 {
        "Operator"@
    } else if kind == 25 {
        "TypeParameter"@
    } else {
        "Unknown"@
    }
}

/// The name of a kind of completion item.
pub fn kind_name(kind: u32) -> (name: &'static str)
    ensures
        name@ == spec_kind_name(kind),
{
    if kind == 1 {
        "Text"
    } else if kind == 2 {
        "Method"
    } else if kind == 3 {
        "Function"
    } else if kind == 4 {
        "Constructor"
    } else if kind == 5 {
        "Field"
    } else if kind == 6 {
        "Variable"
    } else if kind == 7 {
        "Class"
    } else if kind == 8 {
        "Interface"
    } else if kind == 9 {
        "Module"
    } else if kind == 10 {
        "Property"
    } else if kind == 11 {
        "Unit"
    } else if kind == 12 {
        "Value"
    } else if kind == 13 {
        "Enum"
    } else if kind == 14 {
        "Keyword"
    } else if kind == 15 {
        "Snippet"
    } else if kind == 16 {
        "Color"
    } else if kind == 17 {
        "File"
    } else if kind == 18 {
        "Reference"
    } else if kind == 19 {
        "Folder"
    } else if kind == 20 {
        "EnumMember"
    } else if kind == 21 {
        "Constant"
    } else if kind == 22 {
        "Struct"
    } else if kind == 23 {
        "Event"
    } else if kind == 24 {
        "Operator"
    } else if kind == 25 {
        "TypeParameter"
    } else {
        "Unknown"
    }
}

/// One proposal of the server.
#[derive(Debug)]
pub struct CompletionItem {
    pub label: String,
    pub kind: Option<u32>,
    pub detail: Option<String>,
}

/// A [`CompletionItem`] with its texts as characters.
pub struct Proposal {
    pub label: Seq<char>,
    pub kind: Option<u32>,
    pub detail: Option<Seq<char>>,
}

impl View for CompletionItem {
    type V = Proposal;

    open spec fn view(&self) -> Proposal {
        Proposal {
            label: self.label@,
            kind: self.kind,
            detail: match self.detail {
                Some(d) => Some(d@),
                None => None,
            },
        }
    }
}

/// The proposal that the JSON object `text` holds: `label`, a string, has to
/// be there; `kind`, a number, and `detail`, a string, may be.
pub open spec fn spec_item(text: Seq<char>) -> Option<Proposal> {
    match member_of(text, "label"@) {
        None => None,
        Some(label) => match json_string_content(label) {
            None => None,
            Some(label) => match member_of(text, "kind"@) {
                None => spec_item_detail(text, label, None),
                Some(kind) => match json_u32_value(kind) {
                    None => None,
                    Some(kind) => spec_item_detail(text, label, Some(kind)),
                },
            },
        },
    }
}

/// The proposal with `label` and `kind`, and the `detail` that `text` holds.
pub open spec fn spec_item_detail(text: Seq<char>, label: Seq<char>, kind: Option<u32>) -> Option<
    Proposal,
> {
    match member_of(text, "detail"@) {
        None => Some(Proposal { label, kind, detail: None }),
        Some(detail) => match json_string_content(detail) {
            None => None,
            Some(detail) => Some(Proposal { label, kind, detail: Some(detail) }),
        },
    }
}

impl CompletionItem {
    /// Reads a proposal from JSON.
    pub fn from_json(value: &Json) -> (r: Option<CompletionItem>)
        ensures
            match r {
                Some(item) => spec_item(value@) == Some(item@),
                None => spec_item(value@).is_none(),
            },
    {
        let label = match value.member("label") {
            Member::Present(label) => label.string()?,
            _ => {
                return None;
            },
        };
        let kind: Option<u32> = match value.member("kind") {
            Member::Present(kind) => Some(kind.number()?),
            _ => None,
        };
        let detail: Option<String> = match value.member("detail") {
            Member::Present(detail) => Some(detail.string()?),
            _ => None,
        };
        Some(CompletionItem { label, kind, detail })
    }
}

/// What a completion result holds.
#[derive(Debug)]
pub enum Completions {
    /// The result is `null`: the server proposes nothing.
    Nothing,
    /// The entries of `items`, as they were written.
    Items(Vec<Json>),
    /// The result is neither `null` nor an object with a list `items`.
    Malformed,
}

/// [`Completions`] with its texts as characters.
pub enum Proposals {
    Nothing,
    Items(Seq<Seq<char>>),
    Malformed,
}

impl View for Completions {
    type V = Proposals;

    open spec fn view(&self) -> Proposals {
        match *self {
            Completions::Nothing => Proposals::Nothing,
            Completions::Items(items) => Proposals::Items(texts(items@)),
            Completions::Malformed => Proposals::Malformed,
        }
    }
}

/// What the completion result `text` holds.
pub open spec fn spec_completions(text: Seq<char>) -> Proposals {
    if json_is_null(text) {
        Proposals::Nothing
    } else {
        match member_of(text, "items"@) {
            None => Proposals::Malformed,
            Some(list) => match json_array_elements(list) {
                None => Proposals::Malformed,
                Some(items) => Proposals::Items(items),
            },
        }
    }
}

/// Takes a completion result apart.
pub fn completions(result: &Json) -> (r: Completions)
    ensures
        r@ == spec_completions(result@),
{
    if result.is_null() {
        return Completions::Nothing;
    }
    match result.member("items") {
        Member::Present(list) => match list.elements() {
            Some(items) => Completions::Items(items),
            None => Completions::Malformed,
        },
        _ => Completions::Malformed,
    }
}

} // verus!
