//! The `initialize` request as a client sends it on its own.

use vstd::prelude::*;
use crate::json::{json_array_text, json_object_text, json_quoted, texts, Json, Members};
use crate::lsp::file_scheme;

verus! {

/// The name under which this client introduces itself.
pub open spec fn client_name() -> Seq<char> {
    "lspterm"@
}

/// The version under which this client introduces itself.
pub open spec fn client_version() -> Seq<char> {
    "0.1.0"@
}

/// The request for the workspace at `workspace_folder`.
#[derive(Debug)]
pub struct InitializeRequest {
    pub workspace_folder: String,
}

/// What the server answered: its capabilities, as it wrote them.
#[derive(Debug)]
pub struct InitializeResponse {
    value: Json,
}

/// The member `clientInfo`.
pub open spec fn client_info_text() -> Seq<char> {
    json_object_text(
        seq!["name"@, "version"@],
        seq![json_quoted(client_name()), json_quoted(client_version())],
    )
}

/// The one element of `workspaceFolders`.
pub open spec fn workspace_folder_text(folder: Seq<char>) -> Seq<char> {
    json_object_text(
        seq!["uri"@, "name"@],
        seq![json_quoted(file_scheme() + folder), json_quoted("main"@)],
    )
}

/// The member `capabilities`: links for definitions, and positions counted in
/// UTF-8.
pub open spec fn capabilities_text() -> Seq<char> {
    json_object_text(
        seq!["textDocument"@, "general"@],
        seq![
            json_object_text(
                seq!["definition"@],
                seq![json_object_text(seq!["linkSupport"@], seq!["true"@])],
            ),
            json_object_text(
                seq!["positionEncodings"@],
                seq![json_array_text(seq![json_quoted("utf-8"@)])],
            ),
        ],
    )
}

/// The parameters of the request.
pub open spec fn params_text(folder: Seq<char>) -> Seq<char> {
    json_object_text(
        seq!["clientInfo"@, "workspaceFolders"@, "capabilities"@],
        seq![
            client_info_text(),
            json_array_text(seq![workspace_folder_text(folder)]),
            capabilities_text(),
        ],
    )
}

/// Writes `clientInfo`.
pub fn client_info() -> (out: Json)
    ensures
        out@ == client_info_text(),
{
    let mut info = Members::new();
    info.add("name", Json::from_string("lspterm"));
    info.add("version", Json::from_string("0.1.0"));
    proof {
        assert(info.names() =~= seq!["name"@, "version"@]);
        assert(info.values() =~= seq![json_quoted(client_name()), json_quoted(client_version())]);
    }
    info.finish()
}

/// Writes the element of `workspaceFolders` for the folder `uri`.
pub fn workspace_folder(uri: Json) -> (out: Json)
    ensures
        out@ == json_object_text(seq!["uri"@, "name"@], seq![uri@, json_quoted("main"@)]),
{
    let ghost text = uri@;
    let mut folder = Members::new();
    folder.add("uri", uri);
    folder.add("name", Json::from_string("main"));
    proof {
        assert(folder.names() =~= seq!["uri"@, "name"@]);
        assert(folder.values() =~= seq![text, json_quoted("main"@)]);
    }
    folder.finish()
}

/// A JSON array of one element.
pub fn single(element: Json) -> (out: Json)
    ensures
        out@ == json_array_text(seq![element@]),
{
    let ghost text = element@;
    let mut elements: Vec<Json> = Vec::new();
    elements.push(element);
    proof {
        assert(texts(elements@) =~= seq![text]);
    }
    Json::array(&elements)
}

/// An object of one member.
pub fn one_member(name: &str, value: Json) -> (out: Json)
    ensures
        out@ == json_object_text(seq![name@], seq![value@]),
{
    let ghost text = value@;
    let mut members = Members::new();
    members.add(name, value);
    proof {
        assert(members.names() =~= seq![name@]);
        assert(members.values() =~= seq![text]);
    }
    members.finish()
}

/// Writes `capabilities`.
pub fn capabilities() -> (out: Json)
    ensures
        out@ == capabilities_text(),
{
    let definition = one_member("linkSupport", Json::from_bool(true));
    let text_document = one_member("definition", definition);
    let general = one_member("positionEncodings", single(Json::from_string("utf-8")));
    let ghost first = text_document@;
    let ghost second = general@;
    let mut members = Members::new();
    members.add("textDocument", text_document);
    members.add("general", general);
    proof {
        assert(members.names() =~= seq!["textDocument"@, "general"@]);
        assert(members.values() =~= seq![first, second]);
    }
    members.finish()
}

impl InitializeRequest {
    /// The request for the workspace at `workspace_folder`, an absolute path.
    pub fn new(workspace_folder: String) -> (request: InitializeRequest)
        ensures
            request.workspace_folder == workspace_folder,
    {
        InitializeRequest { workspace_folder }
    }

    /// The method of the request.
    pub fn method(&self) -> (method: &'static str)
        ensures
            method@ == "initialize"@,
    {
        "initialize"
    }

    /// The parameters: who asks, for which workspace, and what the client can
    /// take.
    pub fn params(&self) -> (out: Json)
        ensures
            out@ == params_text(self.workspace_folder@),
    {
        let mut uri = String::new();
        vstd::string::StringExecFns::append(&mut uri, "file://");
        vstd::string::StringExecFns::append(&mut uri, self.workspace_folder.as_str());
        let folder = workspace_folder(Json::from_string(uri.as_str()));
        let info = client_info();
        let folders = single(folder);
        let caps = capabilities();
        let ghost a = info@;
        let ghost b = folders@;
        let ghost c = caps@;
        let mut members = Members::new();
        members.add("clientInfo", info);
        members.add("workspaceFolders", folders);
        members.add("capabilities", caps);
        proof {
            assert(uri@ =~= file_scheme() + self.workspace_folder@);
            assert(members.names() =~= seq!["clientInfo"@, "workspaceFolders"@, "capabilities"@]);
            assert(members.values() =~= seq![a, b, c]);
        }
        members.finish()
    }
}

impl View for InitializeResponse {
    type V = Seq<char>;

    closed spec fn view(&self) -> Seq<char> {
        self.value@
    }
}

impl InitializeResponse {
    /// Keeps the result of the request as it came.
    pub fn from_result_value(value: Json) -> (response: InitializeResponse)
        ensures
            response@ == value@,
    {
        InitializeResponse { value }
    }

    /// The result.
    pub fn value(&self) -> (value: &Json)
        ensures
            value@ == self@,
    {
        &self.value
    }
}

} // verus!
