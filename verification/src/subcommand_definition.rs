//! Where a definition is shown: the lines around it.

use vstd::prelude::*;
use crate::lsp::PositionRange;

verus! {

/// The first line to show: `context` lines before the one on which the
/// range starts, or the first line of the text.
pub open spec fn spec_first(range: PositionRange, context: usize) -> int {
    if range.start.line >= context {
        range.start.line - context
    } else {
        0
    }
}

/// The line behind the last one to show: `context` lines behind the one on
/// which the range ends, or the end of a text of `total` lines.
pub open spec fn spec_end(range: PositionRange, context: usize, total: usize) -> int {
    if range.end.line + context + 1 <= total {
        range.end.line + context + 1
    } else {
        total as int
    }
}

/// The lines `window.0 .. window.1` of a text of `total` lines that are shown
/// for a definition at `range` with `context` lines around it.
pub fn context_window(range: PositionRange, context: usize, total: usize) -> (window: (
    usize,
    usize,
))
    ensures
        window.0 == spec_first(range, context),
        window.1 == spec_end(range, context, total),
{
    let first: usize = if range.start.line >= context {
        range.start.line - context
    } else {
        0
    };
    let end: usize = if range.end.line < total && context < total - range.end.line {
        range.end.line + context + 1
    } else {
        total
    };
    (first, end)
}

/// The mark before a shown line: `>` on the line on which the range starts,
/// a blank on the others.
pub fn line_mark(range: PositionRange, line: usize) -> (mark: char)
    ensures
        mark == (if line == range.start.line {
            '>'
        } else {
            ' '
        }),
{
    if line == range.start.line {
        '>'
    } else {
        ' '
    }
}

} // verus!
