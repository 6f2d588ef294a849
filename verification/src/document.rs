//! The changes to documents that the language server proposes, and how the
//! edits of one document change its text.

use vstd::prelude::*;
use vstd::string::StringExecFns;
use crate::decimal::decimal;
use crate::json::{
    ascii_text, json_array_elements, json_array_text, json_is_null, json_object_text, json_quoted,
    json_string_content, json_u32_value, member_of, names_of, texts, Json, Member, Members,
};
use crate::lsp::{
    file_scheme, range_text, spec_range, spec_uri_path, DocumentUri, Position, PositionRange,
};
use crate::text::{
    chars_of, copy_chars, ends_with_newline, join, lines, lines_view, spec_join, spec_lines,
    string_of,
};

verus! {

/// A list of changes, to be applied in order.
#[derive(Debug)]
pub struct DocumentChanges {
    pub changes: Vec<DocumentChange>,
}

/// One change: to the text of a document, or to the name of its file.
#[derive(Debug)]
pub enum DocumentChange {
    TextDocument(TextDocumentChange),
    RenameFile(RenameFileChange),
}

/// Edits to the text of one document.
#[derive(Debug)]
pub struct TextDocumentChange {
    pub text_document: TextDocument,
    pub edits: Vec<TextEdit>,
}

/// A file that gets a new name.
#[derive(Debug)]
pub struct RenameFileChange {
    pub old_uri: DocumentUri,
    pub new_uri: DocumentUri,
}

/// A document in the version that the edits were computed for.
#[derive(Debug)]
pub struct TextDocument {
    pub uri: DocumentUri,
    pub version: Option<u32>,
}

/// The text that replaces a range of a document. Lines and characters are
/// counted from 0; a character is one `char`.
#[derive(Debug)]
pub struct TextEdit {
    pub range: PositionRange,
    pub new_text: String,
}

/// A [`TextEdit`] with its text as characters.
pub struct Edit {
    pub range: PositionRange,
    pub new_text: Seq<char>,
}

impl View for TextEdit {
    type V = Edit;

    open spec fn view(&self) -> Edit {
        Edit { range: self.range, new_text: self.new_text@ }
    }
}

/// The edits as [`Edit`]s.
pub open spec fn edits_view(edits: Seq<TextEdit>) -> Seq<Edit> {
    edits.map_values(|e: TextEdit| e@)
}

/// Whether `a` lies at `b` or behind it in a text.
pub open spec fn at_or_after(a: Position, b: Position) -> bool {
    a.line > b.line || (a.line == b.line && a.character >= b.character)
}

/// `order` with the edit `i` put in: behind every edit that starts at the
/// same place or later, before every edit that starts earlier.
pub open spec fn insert_into(order: Seq<usize>, edits: Seq<Edit>, i: usize) -> Seq<usize>
    decreases order.len(),
{
    if order.len() == 0 {
        seq![i]
    } else if at_or_after(edits[order.last() as int].range.start, edits[i as int].range.start) {
        order.push(i)
    } else {
        insert_into(order.drop_last(), edits, i).push(order.last())
    }
}

/// The order in which the first `n` of `edits` are applied: from the end of
/// the text to its start, so that no edit moves the place of a later one;
/// edits that start at the same place keep the order in which they were
/// given.
pub open spec fn application_order(edits: Seq<Edit>, n: nat) -> Seq<usize>
    decreases n,
{
    if n == 0 {
        Seq::empty()
    } else {
        insert_into(application_order(edits, (n - 1) as nat), edits, (n - 1) as usize)
    }
}

/// The line that an edit leaves: what stands before the edit on its first
/// line, the new text, and what stands behind the edit on its last line.
pub open spec fn merged_line(lines: Seq<Seq<char>>, edit: Edit) -> Seq<char> {
    lines[edit.range.start.line as int].take(edit.range.start.character as int) + edit.new_text
        + lines[edit.range.end.line as int].skip(edit.range.end.character as int)
}

/// The lines after one edit. An edit that reaches outside the text, or
/// whose end lies before its start, changes nothing; the one exception is an
/// edit that ends on the line before the one it starts on, which puts the
/// merged line in between.
pub open spec fn apply_edit(lines: Seq<Seq<char>>, edit: Edit) -> Seq<Seq<char>> {
    let first = edit.range.start.line as int;
    let last = edit.range.end.line as int;
    let from = edit.range.start.character as int;
    let to = edit.range.end.character as int;
    if first == last {
        if first < lines.len() && from <= to <= lines[first].len() {
            lines.update(first, merged_line(lines, edit))
        } else {
            lines
        }
    } else if first <= last + 1 && first < lines.len() && last < lines.len() && from
        <= lines[first].len() && to <= lines[last].len() {
        lines.take(first).push(merged_line(lines, edit)) + lines.skip(last + 1)
    } else {
        lines
    }
}

/// The lines after the edits `order`, one after the other.
pub open spec fn apply_in_order(lines: Seq<Seq<char>>, edits: Seq<Edit>, order: Seq<usize>) -> Seq<
    Seq<char>,
>
    decreases order.len(),
{
    if order.len() == 0 {
        lines
    } else {
        apply_edit(apply_in_order(lines, edits, order.drop_last()), edits[order.last() as int])
    }
}

/// The text after `edits`: it is split into lines, the edits are applied
/// from the end of the text to its start, and the lines are joined again. A
/// text that ended with a line feed ends with one afterwards.
pub open spec fn spec_apply(content: Seq<char>, edits: Seq<Edit>) -> Seq<char> {
    let joined = spec_join(
        apply_in_order(spec_lines(content), edits, application_order(edits, edits.len())),
    );
    if ends_with_newline(content) && !ends_with_newline(joined) {
        joined.push('\n')
    } else {
        joined
    }
}

/// Putting an edit in comes to inserting it at the place behind the last
/// edit that starts at the same place or later.
proof fn lemma_insert_at(order: Seq<usize>, edits: Seq<Edit>, i: usize, at: int)
    requires
        0 <= at <= order.len(),
        at == 0 || at_or_after(edits[order[at - 1] as int].range.start, edits[i as int].range.start),
        forall|k: int|
            at <= k < order.len() ==> !at_or_after(
                edits[#[trigger] order[k] as int].range.start,
                edits[i as int].range.start,
            ),
    ensures
        insert_into(order, edits, i) == order.insert(at, i),
    decreases order.len(),
{
    if order.len() == 0 {
        assert(order.insert(at, i) =~= seq![i]);
    } else if at == order.len() {
        assert(order.insert(at, i) =~= order.push(i));
    } else {
        let rest = order.drop_last();
        assert(!at_or_after(
            edits[order[order.len() - 1] as int].range.start,
            edits[i as int].range.start,
        ));
        assert forall|k: int| at <= k < rest.len() implies !at_or_after(
            edits[#[trigger] rest[k] as int].range.start,
            edits[i as int].range.start,
        ) by {
            assert(rest[k] == order[k]);
        }
        if at > 0 {
            assert(rest[at - 1] == order[at - 1]);
        }
        lemma_insert_at(rest, edits, i, at);
        assert(rest.insert(at, i).push(order.last()) =~= order.insert(at, i));
    }
}

/// The order lists each of the first `n` edits once, later starts first, and
/// edits with the same start in the order in which they were given.
pub proof fn lemma_application_order(edits: Seq<Edit>, n: nat)
    requires
        n <= edits.len(),
        n <= usize::MAX,
    ensures
        ({
            let order = application_order(edits, n);
            &&& order.len() == n
            &&& forall|k: int| 0 <= k < n ==> (#[trigger] order[k]) < n
            &&& forall|i: usize| i < n ==> order.contains(i)
            &&& forall|j: int, k: int|
                #![trigger order[j], order[k]]
                0 <= j < k < n ==> order[j] != order[k] && at_or_after(
                    edits[order[j] as int].range.start,
                    edits[order[k] as int].range.start,
                ) && (edits[order[j] as int].range.start == edits[order[k] as int].range.start
                    ==> order[j] < order[k])
        }),
    decreases n,
{
    if n > 0 {
        let before = application_order(edits, (n - 1) as nat);
        let i = (n - 1) as usize;
        lemma_application_order(edits, (n - 1) as nat);
        let at = choose_place(before, edits, i);
        lemma_place(before, edits, i);
        lemma_insert_at(before, edits, i, at);
        let after = before.insert(at, i);
        assert(after == application_order(edits, n));
        assert forall|x: usize| x < n implies after.contains(x) by {
            if x == i {
                assert(after[at] == i);
            } else {
                assert(before.contains(x));
                let k = choose|k: int| 0 <= k < before.len() && before[k] == x;
                if k < at {
                    assert(after[k] == x);
                } else {
                    assert(after[k + 1] == x);
                }
            }
        }
        assert forall|j: int, k: int|
            #![trigger after[j], after[k]]
            0 <= j < k < n implies after[j] != after[k] && at_or_after(
            edits[after[j] as int].range.start,
            edits[after[k] as int].range.start,
        ) && (edits[after[j] as int].range.start == edits[after[k] as int].range.start ==> after[j]
            < after[k]) by {
            let a = after[j];
            let b = after[k];
            if k == at {
                assert(a == before[j]);
                if j < at - 1 {
                    assert(at_or_after(
                        edits[before[j] as int].range.start,
                        edits[before[at - 1] as int].range.start,
                    ));
                }
            } else if j == at {
                assert(b == before[k - 1]);
                assert(!at_or_after(edits[b as int].range.start, edits[i as int].range.start));
            } else {
                let jj = if j < at {
                    j
                } else {
                    j - 1
                };
                let kk = if k < at {
                    k
                } else {
                    k - 1
                };
                assert(a == before[jj]);
                assert(b == before[kk]);
            }
        }
    }
}

/// The place at which edit `i` is put into `order`.
pub open spec fn choose_place(order: Seq<usize>, edits: Seq<Edit>, i: usize) -> int
    decreases order.len(),
{
    if order.len() == 0 {
        0
    } else if at_or_after(edits[order.last() as int].range.start, edits[i as int].range.start) {
        order.len() as int
    } else {
        choose_place(order.drop_last(), edits, i)
    }
}

/// The place lies behind the last edit that starts at the same place or
/// later.
proof fn lemma_place(order: Seq<usize>, edits: Seq<Edit>, i: usize)
    ensures
        0 <= choose_place(order, edits, i) <= order.len(),
        choose_place(order, edits, i) == 0 || at_or_after(
            edits[order[choose_place(order, edits, i) - 1] as int].range.start,
            edits[i as int].range.start,
        ),
        forall|k: int|
            choose_place(order, edits, i) <= k < order.len() ==> !at_or_after(
                edits[#[trigger] order[k] as int].range.start,
                edits[i as int].range.start,
            ),
    decreases order.len(),
{
    if order.len() > 0 && !at_or_after(
        edits[order.last() as int].range.start,
        edits[i as int].range.start,
    ) {
        let rest = order.drop_last();
        lemma_place(rest, edits, i);
        let at = choose_place(rest, edits, i);
        if at > 0 {
            assert(rest[at - 1] == order[at - 1]);
        }
        assert forall|k: int| at <= k < order.len() implies !at_or_after(
            edits[#[trigger] order[k] as int].range.start,
            edits[i as int].range.start,
        ) by {
            if k < rest.len() {
                assert(rest[k] == order[k]);
            }
        }
    }
}

fn starts_at_or_after(a: Position, b: Position) -> (r: bool)
    ensures
        r == at_or_after(a, b),
{
    a.line > b.line || (a.line == b.line && a.character >= b.character)
}

/// Computes the order in which `edits` are applied.
pub fn order_edits(edits: &Vec<TextEdit>) -> (order: Vec<usize>)
    ensures
        order@ == application_order(edits_view(edits@), edits.len() as nat),
        order.len() == edits.len(),
        forall|k: int| 0 <= k < order.len() ==> (#[trigger] order[k]) < edits.len(),
{
    let ghost all = edits_view(edits@);
    let mut order: Vec<usize> = Vec::new();
    let mut i: usize = 0;
    while i < edits.len()
        invariant
            i <= edits.len(),
            all == edits_view(edits@),
            order@ == application_order(all, i as nat),
            order.len() == i,
            forall|k: int| 0 <= k < order.len() ==> (#[trigger] order[k]) < i,
        decreases edits.len() - i,
    {
        let start = edits[i].range.start;
        let mut at: usize = order.len();
        while at > 0 && !starts_at_or_after(edits[order[at - 1]].range.start, start)
            invariant
                at <= order.len(),
                i < edits.len(),
                all == edits_view(edits@),
                start == all[i as int].range.start,
                forall|k: int| 0 <= k < order.len() ==> (#[trigger] order[k]) < i,
                forall|k: int|
                    at <= k < order.len() ==> !at_or_after(
                        all[#[trigger] order@[k] as int].range.start,
                        start,
                    ),
            decreases at,
        {
            at = at - 1;
        }
        proof {
            if at > 0 {
                assert(all[order@[at - 1] as int].range.start == edits@[order@[at
                    - 1] as int].range.start);
            }
            lemma_insert_at(order@, all, i, at as int);
        }
        order.insert(at, i);
        i = i + 1;
    }
    order
}

/// Builds the line that an edit leaves.
fn merge(first: &Vec<char>, from: usize, new_text: &Vec<char>, last: &Vec<char>, to: usize) -> (out:
    Vec<char>)
    requires
        from <= first.len(),
        to <= last.len(),
    ensures
        out@ == first@.take(from as int) + new_text@ + last@.skip(to as int),
{
    let mut out = copy_chars(first, 0, from);
    let mut i: usize = 0;
    let ghost head = out@;
    while i < new_text.len()
        invariant
            i <= new_text.len(),
            out@ == head + new_text@.take(i as int),
        decreases new_text.len() - i,
    {
        out.push(new_text[i]);
        assert(out@ =~= head + new_text@.take(i + 1));
        i = i + 1;
    }
    let ghost middle = out@;
    let mut j: usize = to;
    while j < last.len()
        invariant
            to <= j <= last.len(),
            out@ == middle + last@.subrange(to as int, j as int),
        decreases last.len() - j,
    {
        out.push(last[j]);
        assert(out@ =~= middle + last@.subrange(to as int, j + 1));
        j = j + 1;
    }
    proof {
        assert(new_text@.take(new_text.len() as int) =~= new_text@);
        assert(last@.subrange(to as int, last.len() as int) =~= last@.skip(to as int));
        assert(first@.subrange(0, from as int) =~= first@.take(from as int));
    }
    out
}

/// Applies one edit to the lines of a text.
pub fn apply_to_lines(text_lines: &mut Vec<Vec<char>>, edit: &TextEdit)
    ensures
        lines_view(final(text_lines)@) == apply_edit(lines_view(old(text_lines)@), edit@),
{
    let first: usize = edit.range.start.line;
    let last: usize = edit.range.end.line;
    let from: usize = edit.range.start.character;
    let to: usize = edit.range.end.character;
    let ghost before = lines_view(text_lines@);
    let n: usize = text_lines.len();
    if first >= n || last >= n {
        return ;
    }
    assert(before[first as int] == text_lines@[first as int]@);
    assert(before[last as int] == text_lines@[last as int]@);
    if from > text_lines[first].len() || to > text_lines[last].len() {
        return ;
    }
    if first == last {
        if from > to {
            return ;
        }
        let new_text = chars_of(edit.new_text.as_str());
        let line = merge(&text_lines[first], from, &new_text, &text_lines[last], to);
        text_lines.set(first, line);
        assert(lines_view(text_lines@) =~= before.update(first as int, merged_line(before, edit@)));
    } else if first < last {
        let new_text = chars_of(edit.new_text.as_str());
        let line = merge(&text_lines[first], from, &new_text, &text_lines[last], to);
        let ghost merged = line@;
        text_lines.set(first, line);
        let mut removed: usize = 0;
        while removed < last - first
            invariant
                first < last < n,
                removed <= last - first,
                n == before.len(),
                text_lines.len() == n - removed,
                lines_view(text_lines@) == before.take(first as int).push(merged) + before.skip(
                    first + 1 + removed,
                ),
            decreases last - first - removed,
        {
            let ghost current = lines_view(text_lines@);
            text_lines.remove(first + 1);
            proof {
                assert(lines_view(text_lines@) =~= current.remove(first + 1));
                assert(current.remove(first + 1) =~= before.take(first as int).push(merged)
                    + before.skip(first + 2 + removed));
            }
            removed = removed + 1;
        }
    } else if first == last + 1 {
        let new_text = chars_of(edit.new_text.as_str());
        let line = merge(&text_lines[first], from, &new_text, &text_lines[last], to);
        let ghost merged = line@;
        text_lines.insert(first, line);
        assert(lines_view(text_lines@) =~= before.take(first as int).push(merged) + before.skip(
            last + 1,
        ));
    }
}

/// Applies the edits of one document to its text.
pub fn apply_edits(content: &str, edits: &Vec<TextEdit>) -> (out: String)
    ensures
        out@ == spec_apply(content@, edits_view(edits@)),
{
    let chars = chars_of(content);
    let mut text_lines = lines(&chars);
    let order = order_edits(edits);
    let ghost all = edits_view(edits@);
    let ghost start = lines_view(text_lines@);
    let mut k: usize = 0;
    while k < order.len()
        invariant
            k <= order.len(),
            all == edits_view(edits@),
            forall|j: int| 0 <= j < order.len() ==> (#[trigger] order[j]) < edits.len(),
            lines_view(text_lines@) == apply_in_order(start, all, order@.take(k as int)),
        decreases order.len() - k,
    {
        let index: usize = order[k];
        apply_to_lines(&mut text_lines, &edits[index]);
        proof {
            let upto = order@.take(k + 1);
            assert(upto.drop_last() =~= order@.take(k as int));
            assert(upto.last() == index);
            assert(all[index as int] == edits@[index as int]@);
        }
        k = k + 1;
    }
    proof {
        assert(order@.take(order.len() as int) =~= order@);
    }
    let mut joined = join(&text_lines);
    let had_newline: bool = chars.len() > 0 && chars[chars.len() - 1] == '\n';
    let has_newline: bool = joined.len() > 0 && joined[joined.len() - 1] == '\n';
    if had_newline && !has_newline {
        joined.push('\n');
    }
    string_of(&joined)
}

/// A [`DocumentChange`] with its texts as characters.
pub enum Change {
    TextDocument { uri: Seq<char>, version: Option<u32>, edits: Seq<Edit> },
    RenameFile { old_uri: Seq<char>, new_uri: Seq<char> },
}

impl View for DocumentChange {
    type V = Change;

    open spec fn view(&self) -> Change {
        match *self {
            DocumentChange::TextDocument(change) => Change::TextDocument {
                uri: change.text_document.uri@,
                version: change.text_document.version,
                edits: edits_view(change.edits@),
            },
            DocumentChange::RenameFile(change) => Change::RenameFile {
                old_uri: change.old_uri@,
                new_uri: change.new_uri@,
            },
        }
    }
}

/// The changes as [`Change`]s.
pub open spec fn changes_view(changes: Seq<DocumentChange>) -> Seq<Change> {
    changes.map_values(|c: DocumentChange| c@)
}

/// The edits that `changes` hold for the document `uri`, in the order of the
/// changes and, within one change, of its edits.
pub open spec fn edits_for(changes: Seq<Change>, uri: Seq<char>) -> Seq<Edit>
    decreases changes.len(),
{
    if changes.len() == 0 {
        Seq::empty()
    } else {
        match changes.last() {
            Change::TextDocument { uri: document, edits, .. } => if document == uri {
                edits_for(changes.drop_last(), uri) + edits
            } else {
                edits_for(changes.drop_last(), uri)
            },
            Change::RenameFile { .. } => edits_for(changes.drop_last(), uri),
        }
    }
}

/// The new names that `changes` give, old name first, in the order of the
/// changes.
pub open spec fn renames_in(changes: Seq<Change>) -> Seq<(Seq<char>, Seq<char>)>
    decreases changes.len(),
{
    if changes.len() == 0 {
        Seq::empty()
    } else {
        match changes.last() {
            Change::RenameFile { old_uri, new_uri } => renames_in(changes.drop_last()).push(
                (old_uri, new_uri),
            ),
            Change::TextDocument { .. } => renames_in(changes.drop_last()),
        }
    }
}

/// The documents that `changes` edit, each once, in the order in which they
/// first occur.
pub open spec fn edited_in(changes: Seq<Change>) -> Seq<Seq<char>>
    decreases changes.len(),
{
    if changes.len() == 0 {
        Seq::empty()
    } else {
        let before = edited_in(changes.drop_last());
        match changes.last() {
            Change::TextDocument { uri, .. } => if before.contains(uri) {
                before
            } else {
                before.push(uri)
            },
            Change::RenameFile { .. } => before,
        }
    }
}

/// The paths of `documents`.
pub open spec fn paths_of(documents: Seq<DocumentUri>) -> Seq<Seq<char>> {
    documents.map_values(|d: DocumentUri| d@)
}

/// The pairs of `names` as characters.
pub open spec fn pairs_view(names: Seq<(String, String)>) -> Seq<(Seq<char>, Seq<char>)> {
    names.map_values(|p: (String, String)| (p.0@, p.1@))
}

/// Whether two texts are the same.
fn same_text(a: &str, b: &str) -> (r: bool)
    ensures
        r == (a@ == b@),
{
    let x = String::from_str(a);
    let y = String::from_str(b);
    x == y
}

impl TextEdit {
    /// A copy of this edit.
    pub fn duplicate(&self) -> (copy: TextEdit)
        ensures
            copy@ == self@,
    {
        TextEdit { range: self.range, new_text: self.new_text.clone() }
    }
}

impl DocumentChanges {
    /// The changes as [`Change`]s.
    pub open spec fn view(&self) -> Seq<Change> {
        changes_view(self.changes@)
    }

    /// The edits for the document at `path`, in the order in which the
    /// changes list them.
    pub fn edits_for(&self, path: &str) -> (edits: Vec<TextEdit>)
        ensures
            edits_view(edits@) == edits_for(self.view(), path@),
    {
        let mut edits: Vec<TextEdit> = Vec::new();
        let ghost all = self.view();
        let mut i: usize = 0;
        assert(edits_view(edits@) =~= Seq::<Edit>::empty());
        assert(all.take(0) =~= Seq::<Change>::empty());
        while i < self.changes.len()
            invariant
                i <= self.changes.len(),
                all == self.view(),
                edits_view(edits@) == edits_for(all.take(i as int), path@),
            decreases self.changes.len() - i,
        {
            let ghost upto = all.take(i + 1);
            proof {
                assert(upto.drop_last() =~= all.take(i as int));
                assert(upto.last() == self.changes@[i as int]@);
            }
            match &self.changes[i] {
                DocumentChange::TextDocument(change) => {
                    if same_text(change.text_document.uri.path(), path) {
                        let ghost before = edits_view(edits@);
                        let mut j: usize = 0;
                        assert(before + edits_view(change.edits@).take(0) =~= before);
                        while j < change.edits.len()
                            invariant
                                j <= change.edits.len(),
                                edits_view(edits@) == before + edits_view(change.edits@).take(
                                    j as int,
                                ),
                            decreases change.edits.len() - j,
                        {
                            let ghost sofar = edits_view(edits@);
                            let copy = change.edits[j].duplicate();
                            let ghost added = copy@;
                            edits.push(copy);
                            proof {
                                let given = edits_view(change.edits@);
                                assert(given[j as int] == added);
                                assert(edits_view(edits@) =~= sofar.push(added));
                                assert(given.take(j + 1) =~= given.take(j as int).push(added));
                                assert(edits_view(edits@) =~= before + given.take(j + 1));
                            }
                            j = j + 1;
                        }
                        assert(edits_view(change.edits@).take(change.edits.len() as int)
                            =~= edits_view(change.edits@));
                    }
                },
                DocumentChange::RenameFile(_) => {},
            }
            i = i + 1;
        }
        assert(all.take(self.changes.len() as int) =~= all);
        edits
    }

    /// The files that get a new name: the old path and the new one, in the
    /// order of the changes.
    pub fn renames(&self) -> (names: Vec<(String, String)>)
        ensures
            pairs_view(names@) == renames_in(self.view()),
    {
        let mut names: Vec<(String, String)> = Vec::new();
        let ghost all = self.view();
        let mut i: usize = 0;
        assert(pairs_view(names@) =~= Seq::<(Seq<char>, Seq<char>)>::empty());
        assert(all.take(0) =~= Seq::<Change>::empty());
        while i < self.changes.len()
            invariant
                i <= self.changes.len(),
                all == self.view(),
                pairs_view(names@) == renames_in(all.take(i as int)),
            decreases self.changes.len() - i,
        {
            let ghost upto = all.take(i + 1);
            proof {
                assert(upto.drop_last() =~= all.take(i as int));
                assert(upto.last() == self.changes@[i as int]@);
            }
            match &self.changes[i] {
                DocumentChange::RenameFile(change) => {
                    let ghost before = pairs_view(names@);
                    let old_path = String::from_str(change.old_uri.path());
                    let new_path = String::from_str(change.new_uri.path());
                    names.push((old_path, new_path));
                    assert(pairs_view(names@) =~= before.push(
                        (change.old_uri@, change.new_uri@),
                    ));
                },
                DocumentChange::TextDocument(_) => {},
            }
            i = i + 1;
        }
        assert(all.take(self.changes.len() as int) =~= all);
        names
    }

    /// The paths of the documents that are edited, each once, in the order
    /// in which they first occur.
    pub fn edited(&self) -> (paths: Vec<String>)
        ensures
            names_of(paths@) == edited_in(self.view()),
    {
        let mut paths: Vec<String> = Vec::new();
        let ghost all = self.view();
        let mut i: usize = 0;
        assert(names_of(paths@) =~= Seq::<Seq<char>>::empty());
        assert(all.take(0) =~= Seq::<Change>::empty());
        while i < self.changes.len()
            invariant
                i <= self.changes.len(),
                all == self.view(),
                names_of(paths@) == edited_in(all.take(i as int)),
            decreases self.changes.len() - i,
        {
            let ghost upto = all.take(i + 1);
            proof {
                assert(upto.drop_last() =~= all.take(i as int));
                assert(upto.last() == self.changes@[i as int]@);
            }
            match &self.changes[i] {
                DocumentChange::TextDocument(change) => {
                    let path = change.text_document.uri.path();
                    let ghost before = names_of(paths@);
                    let mut known: bool = false;
                    let mut j: usize = 0;
                    while j < paths.len()
                        invariant
                            j <= paths.len(),
                            before == names_of(paths@),
                            known == exists|k: int| 0 <= k < j && before[k] == path@,
                        decreases paths.len() - j,
                    {
                        if same_text(paths[j].as_str(), path) {
                            assert(before[j as int] == path@);
                            known = true;
                        }
                        j = j + 1;
                    }
                    assert(known == before.contains(path@));
                    if !known {
                        paths.push(String::from_str(path));
                        assert(names_of(paths@) =~= before.push(path@));
                    }
                },
                DocumentChange::RenameFile(_) => {},
            }
            i = i + 1;
        }
        assert(all.take(self.changes.len() as int) =~= all);
        paths
    }
}

/// The path that the member `name` of the object `text` names by its URI.
pub open spec fn spec_uri_member(text: Seq<char>, name: Seq<char>) -> Option<Seq<char>> {
    match member_of(text, name) {
        None => None,
        Some(value) => match json_string_content(value) {
            None => None,
            Some(uri) => spec_uri_path(uri),
        },
    }
}

/// The edit that the JSON object `text` holds: its `range` and its
/// `newText`, a string.
pub open spec fn spec_edit(text: Seq<char>) -> Option<Edit> {
    match member_of(text, "range"@) {
        None => None,
        Some(range) => match spec_range(range) {
            Err(_) => None,
            Ok(range) => match member_of(text, "newText"@) {
                None => None,
                Some(new_text) => match json_string_content(new_text) {
                    None => None,
                    Some(new_text) => Some(Edit { range, new_text }),
                },
            },
        },
    }
}

/// The edits that the JSON values `elements` hold; `None` where one of them
/// holds none.
pub open spec fn spec_edit_list(elements: Seq<Seq<char>>) -> Option<Seq<Edit>> {
    if forall|i: int| 0 <= i < elements.len() ==> spec_edit(#[trigger] elements[i]).is_some() {
        Some(Seq::new(elements.len(), |i: int| spec_edit(elements[i]).unwrap()))
    } else {
        None
    }
}

/// The version that the JSON value `text` holds: none for `null`, else a
/// number.
pub open spec fn spec_version(text: Seq<char>) -> Option<Option<u32>> {
    if json_is_null(text) {
        Some(None)
    } else {
        match json_u32_value(text) {
            Some(n) => Some(Some(n)),
            None => None,
        }
    }
}

/// The change to the text of a document that the JSON object `text` holds:
/// `textDocument` with `uri` and `version`, and the list `edits`.
pub open spec fn spec_text_change(text: Seq<char>) -> Option<Change> {
    match member_of(text, "textDocument"@) {
        None => None,
        Some(document) => match spec_uri_member(document, "uri"@) {
            None => None,
            Some(uri) => match member_of(document, "version"@) {
                None => None,
                Some(version) => match spec_version(version) {
                    None => None,
                    Some(version) => match member_of(text, "edits"@) {
                        None => None,
                        Some(list) => match json_array_elements(list) {
                            None => None,
                            Some(elements) => match spec_edit_list(elements) {
                                None => None,
                                Some(edits) => Some(Change::TextDocument { uri, version, edits }),
                            },
                        },
                    },
                },
            },
        },
    }
}

/// The new name for a file that the JSON object `text` holds: `kind` is the
/// string `rename`, and `oldUri` and `newUri` name the file.
pub open spec fn spec_rename(text: Seq<char>) -> Option<Change> {
    match member_of(text, "kind"@) {
        None => None,
        Some(kind) => if json_string_content(kind) != Some("rename"@) {
            None
        } else {
            match spec_uri_member(text, "oldUri"@) {
                None => None,
                Some(old_uri) => match spec_uri_member(text, "newUri"@) {
                    None => None,
                    Some(new_uri) => Some(Change::RenameFile { old_uri, new_uri }),
                },
            }
        },
    }
}

/// The change that the JSON object `text` holds: a change to a text where it
/// reads as one, else a new name for a file.
pub open spec fn spec_change(text: Seq<char>) -> Option<Change> {
    match spec_text_change(text) {
        Some(change) => Some(change),
        None => spec_rename(text),
    }
}

/// The changes that the member `documentChanges` of the object `text` lists;
/// `None` where the member is missing or no list, or one entry is no change.
pub open spec fn spec_changes(text: Seq<char>) -> Option<Seq<Change>> {
    match member_of(text, "documentChanges"@) {
        None => None,
        Some(list) => match json_array_elements(list) {
            None => None,
            Some(elements) => spec_change_list(elements),
        },
    }
}

/// The changes that the JSON values `elements` hold; `None` where one of
/// them holds none.
pub open spec fn spec_change_list(elements: Seq<Seq<char>>) -> Option<Seq<Change>> {
    if forall|i: int| 0 <= i < elements.len() ==> spec_change(#[trigger] elements[i]).is_some() {
        Some(Seq::new(elements.len(), |i: int| spec_change(elements[i]).unwrap()))
    } else {
        None
    }
}

/// The change to the text of a document that an entry of a workspace edit
/// holds when the version of the document is not asked for: `textDocument`
/// with `uri`, and the list `edits`.
pub open spec fn spec_unversioned_change(text: Seq<char>) -> Option<Change> {
    match member_of(text, "textDocument"@) {
        None => None,
        Some(document) => match spec_uri_member(document, "uri"@) {
            None => None,
            Some(uri) => match member_of(text, "edits"@) {
                None => None,
                Some(list) => match json_array_elements(list) {
                    None => None,
                    Some(elements) => match spec_edit_list(elements) {
                        None => None,
                        Some(edits) => Some(Change::TextDocument { uri, version: None, edits }),
                    },
                },
            },
        },
    }
}

/// The changes that the JSON values `elements` hold when versions are not
/// asked for; `None` where one of them holds none.
pub open spec fn spec_unversioned_list(elements: Seq<Seq<char>>) -> Option<Seq<Change>> {
    if forall|i: int|
        0 <= i < elements.len() ==> spec_unversioned_change(#[trigger] elements[i]).is_some() {
        Some(Seq::new(elements.len(), |i: int| spec_unversioned_change(elements[i]).unwrap()))
    } else {
        None
    }
}

/// The changes that the workspace edit `text` lists in `documentChanges`,
/// each a change to the text of a document, its version not asked for.
pub open spec fn spec_workspace_edit(text: Seq<char>) -> Option<Seq<Change>> {
    match member_of(text, "documentChanges"@) {
        None => None,
        Some(list) => match json_array_elements(list) {
            None => None,
            Some(elements) => spec_unversioned_list(elements),
        },
    }
}

fn member(value: &Json, name: &str) -> (r: Option<Json>)
    ensures
        match r {
            Some(found) => member_of(value@, name@) == Some(found@),
            None => member_of(value@, name@).is_none(),
        },
{
    match value.member(name) {
        Member::Present(found) => Some(found),
        _ => None,
    }
}

fn uri_member(value: &Json, name: &str) -> (r: Option<DocumentUri>)
    ensures
        match r {
            Some(document) => spec_uri_member(value@, name@) == Some(document@),
            None => spec_uri_member(value@, name@).is_none(),
        },
{
    let found = member(value, name)?;
    let uri = found.string()?;
    DocumentUri::from_uri(uri.as_str())
}

impl TextEdit {
    /// Reads an edit from JSON.
    pub fn from_json(value: &Json) -> (r: Option<TextEdit>)
        ensures
            match r {
                Some(edit) => spec_edit(value@) == Some(edit@),
                None => spec_edit(value@).is_none(),
            },
    {
        let range = member(value, "range")?;
        let range = match PositionRange::from_json(&range) {
            Ok(range) => range,
            Err(_) => {
                return None;
            },
        };
        let new_text = member(value, "newText")?;
        let new_text = new_text.string()?;
        Some(TextEdit { range, new_text })
    }
}

/// Reads a list of edits.
fn edit_list(elements: &Vec<Json>) -> (r: Option<Vec<TextEdit>>)
    ensures
        match r {
            Some(edits) => spec_edit_list(texts(elements@)) == Some(edits_view(edits@)),
            None => spec_edit_list(texts(elements@)).is_none(),
        },
{
    let mut edits: Vec<TextEdit> = Vec::new();
    let mut i: usize = 0;
    let ghost all = texts(elements@);
    while i < elements.len()
        invariant
            i <= elements.len(),
            all == texts(elements@),
            edits.len() == i,
            forall|j: int| 0 <= j < i ==> spec_edit(#[trigger] all[j]) == Some(edits@[j]@),
        decreases elements.len() - i,
    {
        assert(all[i as int] == elements@[i as int]@);
        match TextEdit::from_json(&elements[i]) {
            Some(edit) => {
                edits.push(edit);
            },
            None => {
                assert(spec_edit(all[i as int]).is_none());
                return None;
            },
        }
        i = i + 1;
    }
    proof {
        assert(edits_view(edits@) =~= Seq::new(all.len(), |k: int| spec_edit(all[k]).unwrap()));
    }
    Some(edits)
}

impl TextDocumentChange {
    /// Reads a change to the text of a document from an entry of a workspace
    /// edit, without asking for the version of the document.
    pub fn from_unversioned(value: &Json) -> (r: Option<TextDocumentChange>)
        ensures
            match r {
                Some(change) => spec_unversioned_change(value@) == Some(
                    DocumentChange::TextDocument(change)@,
                ),
                None => spec_unversioned_change(value@).is_none(),
            },
    {
        let document = member(value, "textDocument")?;
        let uri = uri_member(&document, "uri")?;
        let list = member(value, "edits")?;
        let elements = list.elements()?;
        let edits = edit_list(&elements)?;
        Some(TextDocumentChange { text_document: TextDocument { uri, version: None }, edits })
    }

    /// Reads a change to the text of a document from JSON.
    pub fn from_json(value: &Json) -> (r: Option<TextDocumentChange>)
        ensures
            match r {
                Some(change) => spec_text_change(value@) == Some(
                    DocumentChange::TextDocument(change)@,
                ),
                None => spec_text_change(value@).is_none(),
            },
    {
        let document = member(value, "textDocument")?;
        let uri = uri_member(&document, "uri")?;
        let version = member(&document, "version")?;
        let version: Option<u32> = if version.is_null() {
            None
        } else {
            match version.number() {
                Some(n) => Some(n),
                None => {
                    return None;
                },
            }
        };
        let list = member(value, "edits")?;
        let elements = list.elements()?;
        let mut edits: Vec<TextEdit> = Vec::new();
        let mut i: usize = 0;
        let ghost all = texts(elements@);
        while i < elements.len()
            invariant
                i <= elements.len(),
                all == texts(elements@),
                edits.len() == i,
                forall|j: int| 0 <= j < i ==> spec_edit(#[trigger] all[j]) == Some(edits@[j]@),
                spec_text_change(value@) == match spec_edit_list(all) {
                    None => None,
                    Some(list) => Some(
                        Change::TextDocument { uri: uri@, version, edits: list },
                    ),
                },
            decreases elements.len() - i,
        {
            assert(all[i as int] == elements@[i as int]@);
            match TextEdit::from_json(&elements[i]) {
                Some(edit) => {
                    edits.push(edit);
                },
                None => {
                    proof {
                        assert(spec_edit(all[i as int]).is_none());
                        assert(spec_edit_list(all).is_none());
                    }
                    return None;
                },
            }
            i = i + 1;
        }
        proof {
            assert(edits_view(edits@) =~= Seq::new(all.len(), |k: int| spec_edit(all[k]).unwrap()));
        }
        Some(TextDocumentChange { text_document: TextDocument { uri, version }, edits })
    }
}

impl RenameFileChange {
    /// Reads a new name for a file from JSON.
    pub fn from_json(value: &Json) -> (r: Option<RenameFileChange>)
        ensures
            match r {
                Some(change) => spec_rename(value@) == Some(DocumentChange::RenameFile(change)@),
                None => spec_rename(value@).is_none(),
            },
    {
        let kind = member(value, "kind")?;
        match kind.string() {
            Some(kind) => {
                if !same_text(kind.as_str(), "rename") {
                    return None;
                }
            },
            None => {
                return None;
            },
        }
        let old_uri = uri_member(value, "oldUri")?;
        let new_uri = uri_member(value, "newUri")?;
        Some(RenameFileChange { old_uri, new_uri })
    }
}

impl DocumentChange {
    /// Reads one change from JSON.
    pub fn from_json(value: &Json) -> (r: Option<DocumentChange>)
        ensures
            match r {
                Some(change) => spec_change(value@) == Some(change@),
                None => spec_change(value@).is_none(),
            },
    {
        match TextDocumentChange::from_json(value) {
            Some(change) => Some(DocumentChange::TextDocument(change)),
            None => match RenameFileChange::from_json(value) {
                Some(change) => Some(DocumentChange::RenameFile(change)),
                None => None,
            },
        }
    }
}

impl DocumentChanges {
    /// Reads the changes of a workspace edit that holds only changes to the
    /// texts of documents, without asking for their versions.
    pub fn from_workspace_edit(value: &Json) -> (r: Option<DocumentChanges>)
        ensures
            match r {
                Some(changes) => spec_workspace_edit(value@) == Some(changes.view()),
                None => spec_workspace_edit(value@).is_none(),
            },
    {
        let list = member(value, "documentChanges")?;
        let elements = list.elements()?;
        let mut changes: Vec<DocumentChange> = Vec::new();
        let mut i: usize = 0;
        let ghost all = texts(elements@);
        while i < elements.len()
            invariant
                i <= elements.len(),
                all == texts(elements@),
                changes.len() == i,
                forall|j: int|
                    0 <= j < i ==> spec_unversioned_change(#[trigger] all[j]) == Some(
                        changes@[j]@,
                    ),
                spec_workspace_edit(value@) == spec_unversioned_list(all),
            decreases elements.len() - i,
        {
            assert(all[i as int] == elements@[i as int]@);
            match TextDocumentChange::from_unversioned(&elements[i]) {
                Some(change) => {
                    changes.push(DocumentChange::TextDocument(change));
                },
                None => {
                    proof {
                        assert(spec_unversioned_change(all[i as int]).is_none());
                        assert(spec_unversioned_list(all).is_none());
                    }
                    return None;
                },
            }
            i = i + 1;
        }
        proof {
            assert(changes_view(changes@) =~= Seq::new(
                all.len(),
                |k: int| spec_unversioned_change(all[k]).unwrap(),
            ));
        }
        Some(DocumentChanges { changes })
    }

    /// Reads the changes that a workspace edit lists.
    pub fn from_json(value: &Json) -> (r: Option<DocumentChanges>)
        ensures
            match r {
                Some(changes) => spec_changes(value@) == Some(changes.view()),
                None => spec_changes(value@).is_none(),
            },
    {
        let list = member(value, "documentChanges")?;
        let elements = list.elements()?;
        let mut changes: Vec<DocumentChange> = Vec::new();
        let mut i: usize = 0;
        let ghost all = texts(elements@);
        while i < elements.len()
            invariant
                i <= elements.len(),
                all == texts(elements@),
                changes.len() == i,
                forall|j: int| 0 <= j < i ==> spec_change(#[trigger] all[j]) == Some(changes@[j]@),
                spec_changes(value@) == spec_change_list(all),
            decreases elements.len() - i,
        {
            assert(all[i as int] == elements@[i as int]@);
            match DocumentChange::from_json(&elements[i]) {
                Some(change) => {
                    changes.push(change);
                },
                None => {
                    proof {
                        assert(spec_change(all[i as int]).is_none());
                        assert(spec_change_list(all).is_none());
                    }
                    return None;
                },
            }
            i = i + 1;
        }
        proof {
            assert(changes_view(changes@) =~= Seq::new(
                all.len(),
                |k: int| spec_change(all[k]).unwrap(),
            ));
        }
        Some(DocumentChanges { changes })
    }
}

/// The JSON form of an edit.
pub open spec fn edit_text(edit: Edit) -> Seq<char> {
    json_object_text(
        seq!["range"@, "newText"@],
        seq![range_text(edit.range), json_quoted(edit.new_text)],
    )
}

/// The JSON form of a version: `null` where there is none.
pub open spec fn version_text(version: Option<u32>) -> Seq<char> {
    match version {
        Some(n) => ascii_text(decimal(n as nat)),
        None => "null"@,
    }
}

/// The JSON form of a change.
pub open spec fn change_text(change: Change) -> Seq<char> {
    match change {
        Change::TextDocument { uri, version, edits } => json_object_text(
            seq!["textDocument"@, "edits"@],
            seq![
                json_object_text(
                    seq!["uri"@, "version"@],
                    seq![json_quoted(file_scheme() + uri), version_text(version)],
                ),
                json_array_text(edits.map_values(|e: Edit| edit_text(e))),
            ],
        ),
        Change::RenameFile { old_uri, new_uri } => json_object_text(
            seq!["kind"@, "oldUri"@, "newUri"@],
            seq![
                json_quoted("rename"@),
                json_quoted(file_scheme() + old_uri),
                json_quoted(file_scheme() + new_uri),
            ],
        ),
    }
}

/// The JSON form of a list of changes.
pub open spec fn changes_text(changes: Seq<Change>) -> Seq<char> {
    json_object_text(
        seq!["documentChanges"@],
        seq![json_array_text(changes.map_values(|c: Change| change_text(c)))],
    )
}

impl TextEdit {
    /// Writes this edit as JSON.
    pub fn to_json(&self) -> (out: Json)
        ensures
            out@ == edit_text(self@),
    {
        let mut members = Members::new();
        members.add("range", self.range.to_json());
        members.add("newText", Json::from_string(self.new_text.as_str()));
        proof {
            assert(members.names() =~= seq!["range"@, "newText"@]);
            assert(members.values() =~= seq![range_text(self.range), json_quoted(self.new_text@)]);
        }
        members.finish()
    }
}

impl TextDocument {
    /// Writes this document as JSON.
    pub fn to_json(&self) -> (out: Json)
        ensures
            out@ == json_object_text(
                seq!["uri"@, "version"@],
                seq![json_quoted(file_scheme() + self.uri@), version_text(self.version)],
            ),
    {
        let version = match self.version {
            Some(n) => Json::from_size(n as usize),
            None => Json::null(),
        };
        let mut members = Members::new();
        members.add("uri", self.uri.to_json());
        members.add("version", version);
        proof {
            assert(members.names() =~= seq!["uri"@, "version"@]);
            assert(members.values() =~= seq![
                json_quoted(file_scheme() + self.uri@),
                version_text(self.version),
            ]);
        }
        members.finish()
    }

    /// Reads a document from JSON: `uri`, and `version`, which may be `null`.
    pub fn from_json(value: &Json) -> (r: Option<TextDocument>)
        ensures
            match r {
                Some(document) => spec_uri_member(value@, "uri"@) == Some(document.uri@) && match member_of(
                    value@,
                    "version"@,
                ) {
                    Some(version) => spec_version(version) == Some(document.version),
                    None => false,
                },
                None => spec_uri_member(value@, "uri"@).is_none() || match member_of(
                    value@,
                    "version"@,
                ) {
                    Some(version) => spec_version(version).is_none(),
                    None => true,
                },
            },
    {
        let uri = uri_member(value, "uri")?;
        let version = member(value, "version")?;
        let version: Option<u32> = if version.is_null() {
            None
        } else {
            match version.number() {
                Some(n) => Some(n),
                None => {
                    return None;
                },
            }
        };
        Some(TextDocument { uri, version })
    }
}

impl TextDocumentChange {
    /// Writes this change as JSON.
    pub fn to_json(&self) -> (out: Json)
        ensures
            out@ == change_text(
                Change::TextDocument {
                    uri: self.text_document.uri@,
                    version: self.text_document.version,
                    edits: edits_view(self.edits@),
                },
            ),
    {
        let mut list: Vec<Json> = Vec::new();
        let ghost all = edits_view(self.edits@);
        let mut i: usize = 0;
        while i < self.edits.len()
            invariant
                i <= self.edits.len(),
                all == edits_view(self.edits@),
                list.len() == i,
                forall|j: int| 0 <= j < i ==> (#[trigger] list@[j])@ == edit_text(all[j]),
            decreases self.edits.len() - i,
        {
            assert(all[i as int] == self.edits@[i as int]@);
            list.push(self.edits[i].to_json());
            i = i + 1;
        }
        proof {
            assert(texts(list@) =~= all.map_values(|e: Edit| edit_text(e)));
        }
        let mut members = Members::new();
        members.add("textDocument", self.text_document.to_json());
        members.add("edits", Json::array(&list));
        proof {
            assert(members.names() =~= seq!["textDocument"@, "edits"@]);
            assert(members.values() =~= seq![
                json_object_text(
                    seq!["uri"@, "version"@],
                    seq![
                        json_quoted(file_scheme() + self.text_document.uri@),
                        version_text(self.text_document.version),
                    ],
                ),
                json_array_text(all.map_values(|e: Edit| edit_text(e))),
            ]);
        }
        members.finish()
    }
}

impl RenameFileChange {
    /// Writes this change as JSON.
    pub fn to_json(&self) -> (out: Json)
        ensures
            out@ == change_text(
                Change::RenameFile { old_uri: self.old_uri@, new_uri: self.new_uri@ },
            ),
    {
        let mut members = Members::new();
        members.add("kind", Json::from_string("rename"));
        members.add("oldUri", self.old_uri.to_json());
        members.add("newUri", self.new_uri.to_json());
        proof {
            assert(members.names() =~= seq!["kind"@, "oldUri"@, "newUri"@]);
            assert(members.values() =~= seq![
                json_quoted("rename"@),
                json_quoted(file_scheme() + self.old_uri@),
                json_quoted(file_scheme() + self.new_uri@),
            ]);
        }
        members.finish()
    }
}

impl DocumentChange {
    /// Writes this change as JSON.
    pub fn to_json(&self) -> (out: Json)
        ensures
            out@ == change_text(self@),
    {
        match self {
            DocumentChange::TextDocument(change) => change.to_json(),
            DocumentChange::RenameFile(change) => change.to_json(),
        }
    }
}

impl DocumentChanges {
    /// Writes the changes as JSON.
    pub fn to_json(&self) -> (out: Json)
        ensures
            out@ == changes_text(self.view()),
    {
        let mut list: Vec<Json> = Vec::new();
        let ghost all = self.view();
        let mut i: usize = 0;
        while i < self.changes.len()
            invariant
                i <= self.changes.len(),
                all == self.view(),
                list.len() == i,
                forall|j: int| 0 <= j < i ==> (#[trigger] list@[j])@ == change_text(all[j]),
            decreases self.changes.len() - i,
        {
            assert(all[i as int] == self.changes@[i as int]@);
            list.push(self.changes[i].to_json());
            i = i + 1;
        }
        proof {
            assert(texts(list@) =~= all.map_values(|c: Change| change_text(c)));
        }
        let mut members = Members::new();
        members.add("documentChanges", Json::array(&list));
        proof {
            assert(members.names() =~= seq!["documentChanges"@]);
            assert(members.values() =~= seq![
                json_array_text(all.map_values(|c: Change| change_text(c))),
            ]);
        }
        members.finish()
    }
}

} // verus!
