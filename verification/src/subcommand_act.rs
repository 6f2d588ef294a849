//! Code actions: how to ask for them, and what carrying one out takes.

use vstd::prelude::*;
use crate::json::{
    json_array_text, json_object_text, json_quoted, member_of, texts, Json, Member, Members,
};
use crate::lsp::{file_scheme, range_text, DocumentUri, PositionRange};

verus! {

/// The place of an action in the list, counted from 0, for a number given on
/// the command line, where actions are counted from 1.
pub fn execute_index(given: usize) -> (index: usize)
    ensures
        index == (if given > 0 {
            given - 1
        } else {
            0
        }),
{
    if given > 0 {
        given - 1
    } else {
        0
    }
}

/// The parameters of a request for the code actions at `range` of `file`.
pub open spec fn code_action_params_text(file: Seq<char>, range: PositionRange) -> Seq<char> {
    json_object_text(
        seq!["textDocument"@, "range"@, "context"@],
        seq![
            json_object_text(seq!["uri"@], seq![json_quoted(file_scheme() + file)]),
            range_text(range),
            json_object_text(seq!["diagnostics"@], seq![json_array_text(Seq::empty())]),
        ],
    )
}

/// Writes the parameters of a request for code actions.
pub fn code_action_params(file: &DocumentUri, range: PositionRange) -> (out: Json)
    ensures
        out@ == code_action_params_text(file@, range),
{
    let mut document = Members::new();
    document.add("uri", file.to_json());
    let none: Vec<Json> = Vec::new();
    let mut context = Members::new();
    proof {
        assert(texts(none@) =~= Seq::<Seq<char>>::empty());
    }
    context.add("diagnostics", Json::array(&none));
    let first = document.finish();
    let second = range.to_json();
    let third = context.finish();
    let ghost a = first@;
    let ghost b = second@;
    let ghost c = third@;
    let mut members = Members::new();
    members.add("textDocument", first);
    members.add("range", second);
    members.add("context", third);
    proof {
        assert(document.names() =~= seq!["uri"@]);
        assert(document.values() =~= seq![json_quoted(file_scheme() + file@)]);
        assert(context.names() =~= seq!["diagnostics"@]);
        assert(context.values() =~= seq![json_array_text(Seq::empty())]);
        assert(members.names() =~= seq!["textDocument"@, "range"@, "context"@]);
        assert(members.values() =~= seq![a, b, c]);
    }
    members.finish()
}

/// Why the action `text` cannot be carried out, where it says so: the
/// `reason` of its member `disabled`.
pub open spec fn spec_disabled(text: Seq<char>) -> Option<Seq<char>> {
    match member_of(text, "disabled"@) {
        None => None,
        Some(disabled) => member_of(disabled, "reason"@),
    }
}

/// The reason for which an action is disabled, as the server wrote it.
pub fn disabled_reason(action: &Json) -> (r: Option<Json>)
    ensures
        match r {
            Some(reason) => spec_disabled(action@) == Some(reason@),
            None => spec_disabled(action@).is_none(),
        },
{
    match action.member("disabled") {
        Member::Present(disabled) => match disabled.member("reason") {
            Member::Present(reason) => Some(reason),
            _ => None,
        },
        _ => None,
    }
}

/// Which action the user picked.
#[derive(Debug, Clone, Copy, PartialEq, Eq, Structural)]
pub enum Choice {
    /// The action at this place of the list.
    Action(usize),
    /// The list has no action at the place asked for.
    OutOfRange,
}

/// Picks the action at `index` of a list of `count` actions.
pub fn choose_action(index: usize, count: usize) -> (choice: Choice)
    ensures
        choice == (if index < count {
            Choice::Action(index)
        } else {
            Choice::OutOfRange
        }),
{
    if index < count {
        Choice::Action(index)
    } else {
        Choice::OutOfRange
    }
}

/// Whether the action `text` has to be resolved by the server before it can
/// be carried out: it has to where it carries `data`.
pub open spec fn spec_needs_resolve(text: Seq<char>) -> bool {
    member_of(text, "data"@).is_some()
}

/// Whether an action has to be resolved first.
pub fn needs_resolve(action: &Json) -> (r: bool)
    ensures
        r == spec_needs_resolve(action@),
{
    match action.member("data") {
        Member::Present(_) => true,
        _ => false,
    }
}

/// What carrying out a resolved action takes.
#[derive(Debug)]
pub struct Steps {
    /// The edit to apply to the workspace, first.
    pub edit: Option<Json>,
    /// The command to have the server execute, second.
    pub command: Option<Json>,
}

/// Takes a resolved action apart.
pub fn steps(action: &Json) -> (r: Steps)
    ensures
        match r.edit {
            Some(edit) => member_of(action@, "edit"@) == Some(edit@),
            None => member_of(action@, "edit"@).is_none(),
        },
        match r.command {
            Some(command) => member_of(action@, "command"@) == Some(command@),
            None => member_of(action@, "command"@).is_none(),
        },
{
    let edit = match action.member("edit") {
        Member::Present(edit) => Some(edit),
        _ => None,
    };
    let command = match action.member("command") {
        Member::Present(command) => Some(command),
        _ => None,
    };
    Steps { edit, command }
}

} // verus!
