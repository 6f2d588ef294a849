//! Requests with their identifier in them.

use vstd::prelude::*;
use crate::decimal::decimal;
use crate::json::{ascii_text, json_array_text, json_object_text, json_quoted, Json, Members};
use crate::subcommand_initialize::{client_name, client_version, single};

verus! {

/// The first request of a session, for the workspace at `workspace_folder`.
#[derive(Debug)]
pub struct InitializeRequest {
    pub id: u64,
    pub workspace_folder: String,
}

/// The parameters of the request: who asks, and for which workspace.
pub open spec fn numbered_params_text(folder: Seq<char>) -> Seq<char> {
    json_object_text(
        seq!["client_info"@, "workspace_folders"@, "capabilities"@],
        seq![
            json_object_text(
                seq!["name"@, "version"@],
                seq![json_quoted(client_name()), json_quoted(client_version())],
            ),
            json_array_text(
                seq![
                    json_object_text(
                        seq!["uri"@, "name"@],
                        seq![json_quoted(folder), json_quoted("main"@)],
                    ),
                ],
            ),
            "null"@,
        ],
    )
}

/// The request as a whole.
pub open spec fn numbered_request_text(id: u64, folder: Seq<char>) -> Seq<char> {
    json_object_text(
        seq!["jsonrpc"@, "id"@, "method"@, "params"@],
        seq![
            json_quoted("2"@),
            ascii_text(decimal(id as nat)),
            json_quoted("initialize"@),
            numbered_params_text(folder),
        ],
    )
}

impl InitializeRequest {
    /// Writes the request.
    pub fn to_json(&self) -> (out: Json)
        ensures
            out@ == numbered_request_text(self.id, self.workspace_folder@),
    {
        let mut info = Members::new();
        info.add("name", Json::from_string("lspterm"));
        info.add("version", Json::from_string("0.1.0"));
        let mut folder = Members::new();
        folder.add("uri", Json::from_string(self.workspace_folder.as_str()));
        folder.add("name", Json::from_string("main"));
        let first = info.finish();
        let second = single(folder.finish());
        let ghost a = first@;
        let ghost b = second@;
        let mut params = Members::new();
        params.add("client_info", first);
        params.add("workspace_folders", second);
        params.add("capabilities", Json::null());
        let inner = params.finish();
        let ghost c = inner@;
        let mut members = Members::new();
        members.add("jsonrpc", Json::from_string("2"));
        members.add("id", Json::from_long(self.id));
        members.add("method", Json::from_string("initialize"));
        members.add("params", inner);
        proof {
            assert(info.names() =~= seq!["name"@, "version"@]);
            assert(info.values() =~= seq![
                json_quoted(client_name()),
                json_quoted(client_version()),
            ]);
            assert(folder.names() =~= seq!["uri"@, "name"@]);
            assert(folder.values() =~= seq![
                json_quoted(self.workspace_folder@),
                json_quoted("main"@),
            ]);
            assert(params.names() =~= seq!["client_info"@, "workspace_folders"@, "capabilities"@]);
            assert(params.values() =~= seq![a, b, "null"@]);
            assert(members.names() =~= seq!["jsonrpc"@, "id"@, "method"@, "params"@]);
            assert(members.values() =~= seq![
                json_quoted("2"@),
                ascii_text(decimal(self.id as nat)),
                json_quoted("initialize"@),
                c,
            ]);
        }
        members.finish()
    }
}

} // verus!
