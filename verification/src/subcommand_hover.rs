//! What the language server says of the symbol at a place.

use vstd::prelude::*;
use crate::json::{json_is_null, json_string_content, member_of, Json, Member};
use crate::lsp::{spec_range, PositionRange};

verus! {

/// What a hover result holds.
#[derive(Debug)]
pub enum Hover {
    /// The result is `null`: the server knows nothing of the place.
    NotFound,
    /// The symbol at `range`, and what the server says of it.
    Found { range: PositionRange, description: String },
    /// The result is neither `null` nor an object with `range` and
    /// `contents.value`.
    Malformed,
}

/// [`Hover`] with its text as characters.
pub enum Info {
    NotFound,
    Found { range: PositionRange, description: Seq<char> },
    Malformed,
}

impl View for Hover {
    type V = Info;

    open spec fn view(&self) -> Info {
        match *self {
            Hover::NotFound => Info::NotFound,
            Hover::Found { range, description } => Info::Found {
                range,
                description: description@,
            },
            Hover::Malformed => Info::Malformed,
        }
    }
}

/// What the hover result `text` holds.
pub open spec fn spec_hover(text: Seq<char>) -> Info {
    if json_is_null(text) {
        Info::NotFound
    } else {
        match member_of(text, "range"@) {
            None => Info::Malformed,
            Some(range) => match spec_range(range) {
                Err(_) => Info::Malformed,
                Ok(range) => match member_of(text, "contents"@) {
                    None => Info::Malformed,
                    Some(contents) => match member_of(contents, "value"@) {
                        None => Info::Malformed,
                        Some(value) => match json_string_content(value) {
                            None => Info::Malformed,
                            Some(description) => Info::Found { range, description },
                        },
                    },
                },
            },
        }
    }
}

/// Takes a hover result apart.
pub fn hover(result: &Json) -> (r: Hover)
    ensures
        r@ == spec_hover(result@),
{
    if result.is_null() {
        return Hover::NotFound;
    }
    let Member::Present(range) = result.member("range") else {
        return Hover::Malformed;
    };
    let Ok(range) = PositionRange::from_json(&range) else {
        return Hover::Malformed;
    };
    let Member::Present(contents) = result.member("contents") else {
        return Hover::Malformed;
    };
    let Member::Present(value) = contents.member("value") else {
        return Hover::Malformed;
    };
    match value.string() {
        Some(description) => Hover::Found { range, description },
        None => Hover::Malformed,
    }
}

} // verus!
