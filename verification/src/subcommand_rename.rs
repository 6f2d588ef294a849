//! Renaming a symbol: the request, and the preview of its edits.

use vstd::prelude::*;
use crate::document::{Edit, TextEdit};
use crate::json::{json_object_text, json_quoted, Json, Members};
use crate::target::{document_text, place_text, TargetLocation};
use crate::text::{chars_of, copy_chars};

verus! {

/// The parameters of a request to rename the symbol at `target`.
pub open spec fn rename_params_text(target: TargetLocation, new_name: Seq<char>) -> Seq<char> {
    json_object_text(
        seq!["textDocument"@, "position"@, "newName"@],
        seq![
            document_text(target.file@),
            place_text(target.line, target.character),
            json_quoted(new_name),
        ],
    )
}

/// Writes the parameters of a rename request.
pub fn rename_params(target: &TargetLocation, new_name: &str) -> (out: Json)
    requires
        target.wf(),
    ensures
        out@ == rename_params_text(*target, new_name@),
{
    let mut members = Members::new();
    target.fmt_json_object(&mut members);
    members.add("newName", Json::from_string(new_name));
    proof {
        assert(members.names() =~= seq!["textDocument"@, "position"@, "newName"@]);
        assert(members.values() =~= seq![
            document_text(target.file@),
            place_text(target.line, target.character),
            json_quoted(new_name@),
        ]);
    }
    members.finish()
}

/// The first `n` characters of `s`, or all of them.
pub open spec fn first_chars(s: Seq<char>, n: int) -> Seq<char> {
    if n <= s.len() {
        s.take(n)
    } else {
        s
    }
}

/// `s` without its first `n` characters, or nothing.
pub open spec fn rest_chars(s: Seq<char>, n: int) -> Seq<char> {
    if n <= s.len() {
        s.skip(n)
    } else {
        Seq::empty()
    }
}

/// The line as it reads after an edit that lies in it: the characters before
/// the edit, the new text, and the characters behind the edit.
pub open spec fn spec_preview(old_line: Seq<char>, edit: Edit) -> Seq<char> {
    first_chars(old_line, edit.range.start.character as int) + edit.new_text + rest_chars(
        old_line,
        edit.range.end.character as int,
    )
}

/// Shows what an edit makes of the line it lies in.
pub fn preview_line(old_line: &Vec<char>, edit: &TextEdit) -> (out: Vec<char>)
    ensures
        out@ == spec_preview(old_line@, edit@),
{
    let new_text = chars_of(edit.new_text.as_str());
    let n: usize = old_line.len();
    let from: usize = if edit.range.start.character <= n {
        edit.range.start.character
    } else {
        n
    };
    let to: usize = if edit.range.end.character <= n {
        edit.range.end.character
    } else {
        n
    };
    let mut out = copy_chars(old_line, 0, from);
    let ghost head = out@;
    let mut i: usize = 0;
    while i < new_text.len()
        invariant
            i <= new_text.len(),
            out@ == head + new_text@.take(i as int),
        decreases new_text.len() - i,
    {
        out.push(new_text[i]);
        assert(out@ =~= head + new_text@.take(i + 1));
        i = i + 1;
    }
    let ghost middle = out@;
    let mut j: usize = to;
    while j < n
        invariant
            to <= j <= n,
            n == old_line.len(),
            out@ == middle + old_line@.subrange(to as int, j as int),
        decreases n - j,
    {
        out.push(old_line[j]);
        assert(out@ =~= middle + old_line@.subrange(to as int, j + 1));
        j = j + 1;
    }
    proof {
        assert(new_text@.take(new_text.len() as int) =~= new_text@);
        assert(head =~= first_chars(old_line@, edit.range.start.character as int));
        assert(old_line@.subrange(to as int, n as int) =~= rest_chars(
            old_line@,
            edit.range.end.character as int,
        ));
    }
    out
}

} // verus!
