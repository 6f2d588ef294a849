//! A client that talks to a language server of its own, without a proxy.

use vstd::prelude::*;
use vstd::string::{StrSliceExecFns, StringExecFns};
use crate::json::{
    json_member, json_object_text, json_quoted, json_string_content, json_u64_value, json_valid,
    integer_text, names_of, Json, JsonError, Member, Members,
};
use crate::lsp::{frame_content, wire, written};
use crate::lsp_server::{spec_server_spec, LspServerSpec as FullSpec};

verus! {

/// How to start the language server: the program and its arguments.
#[derive(Debug)]
pub struct LspServerSpec {
    pub command: String,
    pub args: Vec<String>,
}

/// What a client is started with.
#[derive(Debug)]
pub struct LspClientOptions {
    pub server_spec: LspServerSpec,
    pub verbose: bool,
}

/// The server that `s` names: a JSON object with `command` and `args` where
/// `s` starts with a brace, else the program `s` without arguments.
pub open spec fn spec_server(s: Seq<char>) -> Result<(Seq<char>, Seq<Seq<char>>), JsonError> {
    if s.len() > 0 && s[0] == '{' {
        if !json_valid(s) {
            Err(JsonError::WrongKind)
        } else {
            match spec_server_spec(s) {
                Ok((command, args, _)) => Ok((command, args)),
                Err(e) => Err(e),
            }
        }
    } else {
        Ok((s, Seq::empty()))
    }
}

/// The view of what [`LspServerSpec::from_text`] returns.
pub open spec fn server_view(r: Result<LspServerSpec, JsonError>) -> Result<
    (Seq<char>, Seq<Seq<char>>),
    JsonError,
> {
    match r {
        Ok(spec) => Ok((spec.command@, names_of(spec.args@))),
        Err(e) => Err(e),
    }
}

impl LspServerSpec {
    /// Reads the server from the value of a command-line option.
    pub fn from_text(s: &str) -> (r: Result<LspServerSpec, JsonError>)
        ensures
            server_view(r) == spec_server(s@),
    {
        if s.unicode_len() > 0 && s.get_char(0) == '{' {
            let Some(json) = Json::parse(s) else {
                return Err(JsonError::WrongKind);
            };
            match FullSpec::from_json(&json) {
                Ok(full) => Ok(LspServerSpec { command: full.command, args: full.args }),
                Err(e) => Err(e),
            }
        } else {
            let args: Vec<String> = Vec::new();
            assert(names_of(args@) =~= Seq::<Seq<char>>::empty());
            Ok(LspServerSpec { command: String::from_str(s), args })
        }
    }
}

/// The numbering of a client's requests, from 0.
#[derive(Debug)]
pub struct LspClient {
    next_request_id: u64,
}

/// Why a response gives no result.
#[derive(Debug, Clone, Copy, PartialEq, Eq, Structural)]
pub enum ResponseError {
    /// The response is no JSON object.
    NotAnObject,
    /// The response has no `jsonrpc`, or another one than the string `2.0`.
    UnsupportedVersion,
    /// The response has no `id`, or another one than that of the request.
    WrongId,
    /// The server answered with an error.
    ErrorResponse,
    /// The response has no `result`.
    MissingResult,
}

/// The text of a request whose parameters are always an object.
pub open spec fn client_request_text(id: u64, method: Seq<char>, params: Seq<char>) -> Seq<char> {
    json_object_text(
        seq!["jsonrpc"@, "id"@, "method"@, "params"@],
        seq![json_quoted("2.0"@), integer_text(id as int), json_quoted(method), written(params)],
    )
}

/// What the response `text` gives to the caller of request `request_id`. The
/// response has to name the protocol version, carry the identifier of the
/// request and no `error`, and hold a `result`. The checks are made in this
/// order.
pub open spec fn spec_response(text: Seq<char>, request_id: u64) -> Result<
    Seq<char>,
    ResponseError,
> {
    match json_member(text, "jsonrpc"@) {
        None => Err(ResponseError::NotAnObject),
        Some(None) => Err(ResponseError::UnsupportedVersion),
        Some(Some(version)) => if json_string_content(version) != Some("2.0"@) {
            Err(ResponseError::UnsupportedVersion)
        } else {
            match json_member(text, "id"@) {
                Some(Some(id)) => if json_u64_value(id) != Some(request_id) {
                    Err(ResponseError::WrongId)
                } else {
                    match json_member(text, "error"@) {
                        Some(Some(_)) => Err(ResponseError::ErrorResponse),
                        _ => match json_member(text, "result"@) {
                            Some(Some(result)) => Ok(result),
                            _ => Err(ResponseError::MissingResult),
                        },
                    }
                },
                _ => Err(ResponseError::WrongId),
            }
        },
    }
}

/// The view of what [`LspClient::parse_response`] returns.
pub open spec fn response_view(r: Result<Json, ResponseError>) -> Result<Seq<char>, ResponseError> {
    match r {
        Ok(result) => Ok(result@),
        Err(e) => Err(e),
    }
}

impl LspClient {
    /// The identifier that the next request gets.
    pub closed spec fn next(&self) -> u64 {
        self.next_request_id
    }

    /// A client that has sent nothing yet.
    pub fn new() -> (client: LspClient)
        ensures
            client.next() == 0,
    {
        LspClient { next_request_id: 0 }
    }

    /// The bytes that send the next request, and its identifier; `None` when
    /// the identifiers are used up.
    pub fn send_request(&mut self, method: &str, params: &Json) -> (r: Option<(u64, Vec<u8>)>)
        ensures
            old(self).next() < 0x7fff_ffff_ffff_ffff ==> r.is_some() && final(self).next() == old(
                self,
            ).next() + 1,
            old(self).next() >= 0x7fff_ffff_ffff_ffff ==> r.is_none() && final(self).next() == old(
                self,
            ).next(),
            r matches Some((id, bytes)) ==> id == old(self).next() && bytes@ == wire(
                client_request_text(id, method@, params@),
            ),
    {
        if self.next_request_id >= 0x7fff_ffff_ffff_ffff {
            return None;
        }
        let id: u64 = self.next_request_id;
        self.next_request_id = id + 1;
        let version = Json::from_string("2.0");
        let number = Json::from_number(id as i64);
        let name = Json::from_string(method);
        let ghost a = version@;
        let ghost b = number@;
        let ghost c = name@;
        let mut members = Members::new();
        members.add("jsonrpc", version);
        members.add("id", number);
        members.add("method", name);
        members.add("params", params.compact());
        proof {
            assert(members.names() =~= seq!["jsonrpc"@, "id"@, "method"@, "params"@]);
            assert(members.values() =~= seq![a, b, c, written(params@)]);
        }
        let content = members.finish();
        Some((id, frame_content(&content)))
    }

    /// The bytes that send a notification.
    pub fn send_notification(&self, method: &str, params: &Json) -> (bytes: Vec<u8>)
        ensures
            bytes@ == wire(
                json_object_text(
                    seq!["jsonrpc"@, "method"@, "params"@],
                    seq![json_quoted("2.0"@), json_quoted(method@), written(params@)],
                ),
            ),
    {
        let version = Json::from_string("2.0");
        let name = Json::from_string(method);
        let ghost a = version@;
        let ghost b = name@;
        let mut members = Members::new();
        members.add("jsonrpc", version);
        members.add("method", name);
        members.add("params", params.compact());
        proof {
            assert(members.names() =~= seq!["jsonrpc"@, "method"@, "params"@]);
            assert(members.values() =~= seq![a, b, written(params@)]);
        }
        let content = members.finish();
        frame_content(&content)
    }

    /// What the response gives to the caller of request `request_id`.
    pub fn parse_response(request_id: u64, value: &Json) -> (r: Result<Json, ResponseError>)
        ensures
            response_view(r) == spec_response(value@, request_id),
    {
        match value.member("jsonrpc") {
            Member::NotObject => {
                return Err(ResponseError::NotAnObject);
            },
            Member::Absent => {
                return Err(ResponseError::UnsupportedVersion);
            },
            Member::Present(version) => {
                let expected = String::from_str("2.0");
                match version.string() {
                    Some(found) => {
                        if !(found == expected) {
                            return Err(ResponseError::UnsupportedVersion);
                        }
                    },
                    None => {
                        return Err(ResponseError::UnsupportedVersion);
                    },
                }
            },
        }
        match value.member("id") {
            Member::Present(id) => match id.long() {
                Some(found) => {
                    if found != request_id {
                        return Err(ResponseError::WrongId);
                    }
                },
                None => {
                    return Err(ResponseError::WrongId);
                },
            },
            _ => {
                return Err(ResponseError::WrongId);
            },
        }
        if let Member::Present(_) = value.member("error") {
            return Err(ResponseError::ErrorResponse);
        }
        match value.member("result") {
            Member::Present(result) => Ok(result),
            _ => Err(ResponseError::MissingResult),
        }
    }
}

} // verus!
