//! How wide a character is on a terminal.

use vstd::prelude::*;

verus! {

/// The number of columns that `c` takes on a terminal, as the `unicode-width`
/// crate tells it; `None` for a control character.
pub uninterp spec fn column_width(c: char) -> Option<usize>;

/// Estimates the number of columns that a character takes.
#[derive(Debug, Default)]
pub struct UnicodeCharWidthEstimator;

/// Asks `unicode_width::UnicodeWidthChar::width` for the width of `c`, a
/// table lookup that depends on the character alone.
#[verifier::external_body]
fn char_width(c: char) -> (width: Option<usize>)
    ensures
        width == column_width(c),
{
    unicode_width::UnicodeWidthChar::width(c)
}

/// The columns that are set aside for `c`: none for a character without a
/// width.
pub open spec fn spec_estimate(c: char) -> usize {
    match column_width(c) {
        Some(w) => w,
        None => 0,
    }
}

/// The columns set aside for a character of the given width.
pub fn width_or_zero(width: Option<usize>) -> (columns: usize)
    ensures
        columns == match width {
            Some(w) => w,
            None => 0,
        },
{
    match width {
        Some(w) => w,
        None => 0,
    }
}

impl UnicodeCharWidthEstimator {
    /// The columns that `c` takes: none for a character without a width.
    pub fn estimate_char_width(&self, c: char) -> (width: usize)
        ensures
            width == spec_estimate(c),
    {
        width_or_zero(char_width(c))
    }
}

} // verus!
