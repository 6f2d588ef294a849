//! The client side of the proxy: one request, one response.

use vstd::prelude::*;
use crate::json::{json_member, json_u32_value, Json, Member};
use crate::lsp::{notification_text, request_text, send_notification, send_request, wire};

verus! {

/// A client of the proxy. It numbers its requests from 0.
#[derive(Debug)]
pub struct ProxyClient {
    next_request_id: u32,
}

/// Why a call did not give a result.
#[derive(Debug)]
pub enum CallError {
    /// The response is no JSON object.
    NotAnObject,
    /// The response has no `id`.
    MissingId,
    /// The `id` of the response is no integer between 0 and 2^32 - 1.
    BadId,
    /// The response answers another request than the one that was sent.
    IdMismatch { expected: u32, found: u32 },
    /// The server answered with this error.
    Server(Json),
    /// The response holds neither `error` nor `result`.
    MissingResult,
}

/// [`CallError`] with the error of the server as text.
pub enum CallFailure {
    NotAnObject,
    MissingId,
    BadId,
    IdMismatch { expected: u32, found: u32 },
    Server(Seq<char>),
    MissingResult,
}

impl View for CallError {
    type V = CallFailure;

    open spec fn view(&self) -> CallFailure {
        match *self {
            CallError::NotAnObject => CallFailure::NotAnObject,
            CallError::MissingId => CallFailure::MissingId,
            CallError::BadId => CallFailure::BadId,
            CallError::IdMismatch { expected, found } => CallFailure::IdMismatch {
                expected,
                found,
            },
            CallError::Server(error) => CallFailure::Server(error@),
            CallError::MissingResult => CallFailure::MissingResult,
        }
    }
}

/// What the response `text` gives to the caller of request `request_id`: the
/// result, where the response carries the same `id`, no `error`, and a
/// `result`.
pub open spec fn spec_result(text: Seq<char>, request_id: u32) -> Result<Seq<char>, CallFailure> {
    match json_member(text, "id"@) {
        None => Err(CallFailure::NotAnObject),
        Some(None) => Err(CallFailure::MissingId),
        Some(Some(id)) => match json_u32_value(id) {
            None => Err(CallFailure::BadId),
            Some(found) => if found != request_id {
                Err(CallFailure::IdMismatch { expected: request_id, found })
            } else {
                match json_member(text, "error"@) {
                    Some(Some(error)) => Err(CallFailure::Server(error)),
                    _ => match json_member(text, "result"@) {
                        Some(Some(result)) => Ok(result),
                        _ => Err(CallFailure::MissingResult),
                    },
                }
            },
        },
    }
}

/// The view of what [`ProxyClient::result_of`] returns.
pub open spec fn result_view(r: Result<Json, CallError>) -> Result<Seq<char>, CallFailure> {
    match r {
        Ok(result) => Ok(result@),
        Err(e) => Err(e@),
    }
}

impl ProxyClient {
    /// The identifier that the next request gets.
    pub closed spec fn next(&self) -> u32 {
        self.next_request_id
    }

    /// A client that has sent nothing yet.
    pub fn new() -> (client: ProxyClient)
        ensures
            client.next() == 0,
    {
        ProxyClient { next_request_id: 0 }
    }

    /// The bytes that send the next request, and its identifier; `None` when
    /// the identifiers are used up.
    pub fn request(&mut self, method: &str, params: Option<&Json>) -> (r: Option<(u32, Vec<u8>)>)
        ensures
            old(self).next() < u32::MAX ==> final(self).next() == old(self).next() + 1 && r.is_some(),
            old(self).next() == u32::MAX ==> final(self).next() == old(self).next() && r.is_none(),
            r matches Some((id, bytes)) ==> id == old(self).next() && bytes@ == wire(
                request_text(
                    id,
                    method@,
                    match params {
                        Some(p) => Some(p@),
                        None => None,
                    },
                ),
            ),
    {
        if self.next_request_id == u32::MAX {
            return None;
        }
        let request_id: u32 = self.next_request_id;
        self.next_request_id = request_id + 1;
        Some((request_id, send_request(request_id, method, params)))
    }

    /// What the response gives to the caller of request `request_id`.
    pub fn result_of(request_id: u32, response: &Json) -> (r: Result<Json, CallError>)
        ensures
            result_view(r) == spec_result(response@, request_id),
    {
        let id = match response.member("id") {
            Member::NotObject => {
                return Err(CallError::NotAnObject);
            },
            Member::Absent => {
                return Err(CallError::MissingId);
            },
            Member::Present(id) => id,
        };
        let Some(found) = id.number() else {
            return Err(CallError::BadId);
        };
        if found != request_id {
            return Err(CallError::IdMismatch { expected: request_id, found });
        }
        if let Member::Present(error) = response.member("error") {
            return Err(CallError::Server(error));
        }
        match response.member("result") {
            Member::Present(result) => Ok(result),
            _ => Err(CallError::MissingResult),
        }
    }

    /// The bytes that send a notification. No response follows.
    pub fn cast(&self, method: &str, params: Option<&Json>) -> (bytes: Vec<u8>)
        ensures
            bytes@ == wire(
                notification_text(
                    method@,
                    match params {
                        Some(p) => Some(p@),
                        None => None,
                    },
                ),
            ),
    {
        send_notification(method, params)
    }
}

} // verus!
