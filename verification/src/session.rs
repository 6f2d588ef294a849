//! The session with the language server: the handshake that opens it, and
//! the one that closes it.

use vstd::prelude::*;
use vstd::string::StringExecFns;
use crate::json::{
    json_array_text, json_member, json_object_text, json_quoted, json_u32_value, Json, Member,
    Members,
};
use crate::lsp::{
    file_scheme, notification_text, request_text, send_notification, send_request, wire, written,
    DocumentUri,
};
use crate::lsp_server::{Command, LspMessage, LspServerSpec, INITIALIZE_REQUEST_ID};
use crate::subcommand_initialize::{
    client_info, client_info_text, one_member, single, workspace_folder,
};

verus! {

/// How often the server is asked whether it has exited before it is killed.
pub const EXIT_POLLS: u32 = 10;

/// How long to sleep between two such questions, in milliseconds.
pub const EXIT_POLL_MILLIS: u64 = 100;

/// What the client tells the server it can take: links for definitions,
/// progress reports, and positions counted in UTF-8.
pub open spec fn capabilities_text() -> Seq<char> {
    json_object_text(
        seq!["textDocument"@, "window"@, "general"@],
        seq![
            json_object_text(
                seq!["definition"@],
                seq![json_object_text(seq!["linkSupport"@], seq!["true"@])],
            ),
            json_object_text(seq!["workDoneProgress"@], seq!["true"@]),
            json_object_text(
                seq!["positionEncodings"@],
                seq![json_array_text(seq![json_quoted("utf-8"@)])],
            ),
        ],
    )
}

/// The one element of `workspaceFolders`.
pub open spec fn folder_text(folder: Seq<char>) -> Seq<char> {
    json_object_text(
        seq!["uri"@, "name"@],
        seq![json_quoted(file_scheme() + folder), json_quoted("main"@)],
    )
}

/// The parameters of `initialize`: who asks, for which workspace, what the
/// client can take, and the options for the server, where there are any.
pub open spec fn initialize_params_text(folder: Seq<char>, options: Option<Seq<char>>) -> Seq<
    char,
> {
    match options {
        Some(given) => json_object_text(
            seq!["clientInfo"@, "workspaceFolders"@, "capabilities"@, "initializationOptions"@],
            seq![
                client_info_text(),
                json_array_text(seq![folder_text(folder)]),
                capabilities_text(),
                written(given),
            ],
        ),
        None => json_object_text(
            seq!["clientInfo"@, "workspaceFolders"@, "capabilities"@],
            seq![client_info_text(), json_array_text(seq![folder_text(folder)]), capabilities_text()],
        ),
    }
}

/// Writes the capabilities.
pub fn capabilities() -> (out: Json)
    ensures
        out@ == capabilities_text(),
{
    let definition = one_member("linkSupport", Json::from_bool(true));
    let text_document = one_member("definition", definition);
    let window = one_member("workDoneProgress", Json::from_bool(true));
    let general = one_member("positionEncodings", single(Json::from_string("utf-8")));
    let ghost a = text_document@;
    let ghost b = window@;
    let ghost c = general@;
    let mut members = Members::new();
    members.add("textDocument", text_document);
    members.add("window", window);
    members.add("general", general);
    proof {
        assert(members.names() =~= seq!["textDocument"@, "window"@, "general"@]);
        assert(members.values() =~= seq![a, b, c]);
    }
    members.finish()
}

/// Writes the parameters of `initialize`.
pub fn initialize_params(workspace_folder_uri: &DocumentUri, spec: &LspServerSpec) -> (out: Json)
    ensures
        out@ == initialize_params_text(
            workspace_folder_uri@,
            match spec.initialize_options {
                Some(options) => Some(options@),
                None => None,
            },
        ),
{
    let info = client_info();
    let folders = single(workspace_folder(workspace_folder_uri.to_json()));
    let caps = capabilities();
    let ghost a = info@;
    let ghost b = folders@;
    let ghost c = caps@;
    let mut members = Members::new();
    members.add("clientInfo", info);
    members.add("workspaceFolders", folders);
    members.add("capabilities", caps);
    match &spec.initialize_options {
        Some(options) => {
            members.add("initializationOptions", options.compact());
            proof {
                assert(members.names() =~= seq![
                    "clientInfo"@,
                    "workspaceFolders"@,
                    "capabilities"@,
                    "initializationOptions"@,
                ]);
                assert(members.values() =~= seq![a, b, c, written(options@)]);
            }
        },
        None => {
            proof {
                assert(members.names() =~= seq![
                    "clientInfo"@,
                    "workspaceFolders"@,
                    "capabilities"@,
                ]);
                assert(members.values() =~= seq![a, b, c]);
            }
        },
    }
    members.finish()
}

/// The bytes of the `initialize` request, which goes out under the reserved
/// identifier.
pub fn initialize_request(workspace_folder_uri: &DocumentUri, spec: &LspServerSpec) -> (bytes: Vec<
    u8,
>)
    ensures
        bytes@ == wire(
            request_text(
                INITIALIZE_REQUEST_ID,
                "initialize"@,
                Some(
                    initialize_params_text(
                        workspace_folder_uri@,
                        match spec.initialize_options {
                            Some(options) => Some(options@),
                            None => None,
                        },
                    ),
                ),
            ),
        ),
{
    let params = initialize_params(workspace_folder_uri, spec);
    send_request(INITIALIZE_REQUEST_ID, "initialize", Some(&params))
}

/// The bytes of the `initialized` notification.
pub fn initialized_notification() -> (bytes: Vec<u8>)
    ensures
        bytes@ == wire(notification_text("initialized"@, None)),
{
    send_notification("initialized", None)
}

/// What a message means to a client that waits for the answer to
/// `initialize`.
#[derive(Debug, Clone, Copy, PartialEq, Eq, Structural)]
pub enum Greeting {
    /// The server has accepted: send `initialized`.
    Accepted,
    /// The server has answered with an error: the session cannot start.
    Refused,
    /// The message is not the answer: go on waiting.
    Unrelated,
}

/// What the message `text` means to a client that waits for the answer to
/// `initialize`. The answer is the message that carries the reserved
/// identifier and no `method`; it accepts unless it holds an `error`.
pub open spec fn spec_greeting(text: Seq<char>) -> Greeting {
    match json_member(text, "id"@) {
        Some(Some(id)) => if json_u32_value(id) == Some(INITIALIZE_REQUEST_ID)
            && json_member(text, "method"@) == Some(None::<Seq<char>>) {
            match json_member(text, "error"@) {
                Some(Some(_)) => Greeting::Refused,
                _ => Greeting::Accepted,
            }
        } else {
            Greeting::Unrelated
        },
        _ => Greeting::Unrelated,
    }
}

/// Judges a message that arrives while the answer to `initialize` is
/// awaited.
pub fn greeting(message: &Json) -> (r: Greeting)
    ensures
        r == spec_greeting(message@),
{
    let Member::Present(id) = message.member("id") else {
        return Greeting::Unrelated;
    };
    match id.number() {
        Some(n) => {
            if n != INITIALIZE_REQUEST_ID {
                return Greeting::Unrelated;
            }
        },
        None => {
            return Greeting::Unrelated;
        },
    }
    match message.member("method") {
        Member::Absent => {},
        _ => {
            return Greeting::Unrelated;
        },
    }
    match message.member("error") {
        Member::Present(_) => Greeting::Refused,
        _ => Greeting::Accepted,
    }
}

/// The command that asks the server to shut down. The request goes out
/// under the identifier kept for it, and the server's answer comes back on
/// `reply_tx`.
pub fn shutdown_request(reply_tx: u64) -> (message: LspMessage)
    ensures
        message@ == (Command::Shutdown { reply_tx }),
{
    LspMessage::Shutdown { reply_tx }
}

/// The command that tells the server to exit, sent once it has answered
/// `shutdown`.
pub fn exit_notification() -> (message: LspMessage)
    ensures
        message@ == (Command::Notification { method: "exit"@, params: None }),
{
    LspMessage::Notification { method: String::from_str("exit"), params: None }
}

/// What is known of the server process when it is asked about.
#[derive(Debug, Clone, Copy, PartialEq, Eq, Structural)]
pub enum ProcessStatus {
    /// It has exited.
    Exited,
    /// It still runs.
    Running,
    /// The question failed.
    Unknown,
}

/// What to do about a server process that has been told to exit.
#[derive(Debug, Clone, Copy, PartialEq, Eq, Structural)]
pub enum Teardown {
    /// Nothing more: it has exited.
    Done,
    /// Sleep for [`EXIT_POLL_MILLIS`], then ask again.
    Sleep,
    /// Kill it.
    Kill,
}

/// What to do when the answer to question number `poll`, counted from 0, is
/// `status`: a process that has exited is left alone; one that still runs
/// is waited for as long as questions are left; after the last question,
/// or when a question fails, it is killed.
pub open spec fn spec_teardown(poll: u32, status: ProcessStatus) -> Teardown {
    if poll >= EXIT_POLLS {
        Teardown::Kill
    } else {
        match status {
            ProcessStatus::Exited => Teardown::Done,
            ProcessStatus::Unknown => Teardown::Kill,
            ProcessStatus::Running => Teardown::Sleep,
        }
    }
}

/// Decides how to go on with a server process that has been told to exit.
/// The same holds wherever the session is given up.
pub fn teardown(poll: u32, status: ProcessStatus) -> (r: Teardown)
    ensures
        r == spec_teardown(poll, status),
{
    if poll >= EXIT_POLLS {
        return Teardown::Kill;
    }
    match status {
        ProcessStatus::Exited => Teardown::Done,
        ProcessStatus::Unknown => Teardown::Kill,
        ProcessStatus::Running => Teardown::Sleep,
    }
}

/// However the process answers, it is asked at most [`EXIT_POLLS`] times
/// before it is killed: no process outlives the session.
pub proof fn lemma_teardown_is_bounded(status: ProcessStatus)
    ensures
        spec_teardown(EXIT_POLLS, status) == Teardown::Kill,
        forall|poll: u32| poll >= EXIT_POLLS ==> spec_teardown(poll, status) != Teardown::Sleep,
{
}

} // verus!
