//! A place in a file, as it is named on the command line: the file, then a
//! line and a column, both counted from 1 and separated by colons.

use vstd::prelude::*;
use vstd::string::{StrSliceExecFns, StringExecFns, StringSliceAdditionalSpecFns};
use crate::decimal::{decimal, read_decimal, spec_read_decimal};
use crate::json::{ascii_text, json_object_text, json_quoted, Json, Members};
use crate::lsp::{file_scheme, DocumentUri};

verus! {

/// A place in a file. Lines and columns are counted from 1.
#[derive(Debug)]
pub struct TargetLocation {
    pub file: DocumentUri,
    pub line: usize,
    pub character: usize,
}

/// Why a text names no place in a file.
#[derive(Debug, Clone, Copy, PartialEq, Eq, Structural)]
pub enum TargetError {
    /// The line is no positive number.
    InvalidLine,
    /// The column is no positive number.
    InvalidColumn,
}

/// The parts of a target: the file as it was written, the line, the column.
#[derive(Debug)]
pub struct TargetParts {
    pub file: String,
    pub line: usize,
    pub character: usize,
}

/// The index of the first colon at or behind `from`, or the length of `s`.
pub open spec fn colon_from(s: Seq<char>, from: int) -> int
    decreases s.len() - from,
{
    if from < 0 || from >= s.len() {
        s.len() as int
    } else if s[from] == ':' {
        from
    } else {
        colon_from(s, from + 1)
    }
}

/// The positive number that `token` spells, with or without a `+` sign.
pub open spec fn spec_positive(token: Seq<u8>) -> Option<usize> {
    let digits = if token.len() > 0 && token[0] == 0x2b {
        token.skip(1)
    } else {
        token
    };
    match spec_read_decimal(digits) {
        Some(n) => if n > 0 {
            Some(n)
        } else {
            None
        },
        None => None,
    }
}

/// The parts of the target `s`. What stands before the first colon is the
/// file; what stands between the first and the second is the line; the rest
/// is the column. A part that is not given is 1.
pub open spec fn spec_parse_target(s: Seq<char>) -> Result<(Seq<char>, usize, usize), TargetError> {
    let first = colon_from(s, 0);
    let second = colon_from(s, first + 1);
    let file = s.take(first);
    if first >= s.len() {
        Ok((file, 1, 1))
    } else {
        match spec_positive(vstd::utf8::encode_utf8(s.subrange(first + 1, second))) {
            None => Err(TargetError::InvalidLine),
            Some(line) => if second >= s.len() {
                Ok((file, line, 1))
            } else {
                match spec_positive(
                    vstd::utf8::encode_utf8(s.subrange(second + 1, s.len() as int)),
                ) {
                    None => Err(TargetError::InvalidColumn),
                    Some(character) => Ok((file, line, character)),
                }
            },
        }
    }
}

/// Finds the first colon at or behind `from`.
fn find_colon_from(s: &str, from: usize) -> (at: usize)
    requires
        from <= s@.len(),
    ensures
        at == colon_from(s@, from as int),
        from <= at <= s@.len(),
{
    let n: usize = s.unicode_len();
    let mut i: usize = from;
    while i < n && s.get_char(i) != ':'
        invariant
            from <= i <= n,
            n == s@.len(),
            colon_from(s@, from as int) == colon_from(s@, i as int),
        decreases n - i,
    {
        i = i + 1;
    }
    i
}

/// Reads a positive number.
fn positive(token: &str) -> (r: Option<usize>)
    ensures
        r == spec_positive(token.spec_bytes()),
{
    let bytes = token.as_bytes();
    let from: usize = if bytes.len() > 0 && bytes[0] == 0x2b {
        1
    } else {
        0
    };
    proof {
        if from == 1 {
            assert(bytes@.skip(1) =~= bytes@.subrange(1, bytes@.len() as int));
        } else {
            assert(bytes@ =~= bytes@.subrange(0, bytes@.len() as int));
        }
    }
    match read_decimal(bytes, from, bytes.len()) {
        Some(n) => {
            if n > 0 {
                Some(n)
            } else {
                None
            }
        },
        None => None,
    }
}

/// The view of what [`parse_target`] returns.
pub open spec fn parts_view(r: Result<TargetParts, TargetError>) -> Result<
    (Seq<char>, usize, usize),
    TargetError,
> {
    match r {
        Ok(parts) => Ok((parts.file@, parts.line, parts.character)),
        Err(e) => Err(e),
    }
}

/// Takes a target apart.
pub fn parse_target(s: &str) -> (r: Result<TargetParts, TargetError>)
    ensures
        parts_view(r) == spec_parse_target(s@),
        r matches Ok(parts) ==> parts.line >= 1 && parts.character >= 1,
{
    let n: usize = s.unicode_len();
    let first: usize = find_colon_from(s, 0);
    let file = String::from_str(s.substring_char(0, first));
    assert(s@.subrange(0, first as int) =~= s@.take(first as int));
    if first >= n {
        return Ok(TargetParts { file, line: 1, character: 1 });
    }
    let second: usize = find_colon_from(s, first + 1);
    let line = match positive(s.substring_char(first + 1, second)) {
        Some(n) => n,
        None => {
            return Err(TargetError::InvalidLine);
        },
    };
    if second >= n {
        return Ok(TargetParts { file, line, character: 1 });
    }
    match positive(s.substring_char(second + 1, n)) {
        Some(character) => Ok(TargetParts { file, line, character }),
        None => Err(TargetError::InvalidColumn),
    }
}

/// The JSON object that names a document.
pub open spec fn document_text(file: Seq<char>) -> Seq<char> {
    json_object_text(seq!["uri"@], seq![json_quoted(file_scheme() + file)])
}

/// The JSON object for the place `line`, `character`, counted from 1, in the
/// language server's counting, which starts at 0.
pub open spec fn place_text(line: usize, character: usize) -> Seq<char> {
    json_object_text(
        seq!["line"@, "character"@],
        seq![
            ascii_text(decimal((line - 1) as nat)),
            ascii_text(decimal((character - 1) as nat)),
        ],
    )
}

impl TargetLocation {
    /// Lines and columns start at 1.
    pub open spec fn wf(&self) -> bool {
        self.line >= 1 && self.character >= 1
    }

    /// Adds the members that name this place in a request: `textDocument`
    /// with the document's URI, and `position`.
    pub fn fmt_json_object(&self, f: &mut Members)
        requires
            self.wf(),
            old(f).wf(),
        ensures
            final(f).wf(),
            final(f).names() == old(f).names().push("textDocument"@).push("position"@),
            final(f).values() == old(f).values().push(document_text(self.file@)).push(
                place_text(self.line, self.character),
            ),
    {
        let mut document = Members::new();
        document.add("uri", self.file.to_json());
        let mut position = Members::new();
        position.add("line", Json::from_size(self.line - 1));
        position.add("character", Json::from_size(self.character - 1));
        proof {
            assert(document.names() =~= seq!["uri"@]);
            assert(document.values() =~= seq![json_quoted(file_scheme() + self.file@)]);
            assert(position.names() =~= seq!["line"@, "character"@]);
            assert(position.values() =~= seq![
                ascii_text(decimal((self.line - 1) as nat)),
                ascii_text(decimal((self.character - 1) as nat)),
            ]);
        }
        f.add("textDocument", document.finish());
        f.add("position", position.finish());
    }
}

} // verus!
