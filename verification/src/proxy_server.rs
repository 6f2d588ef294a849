//! One client connection of the proxy: what each message of the client
//! becomes for the broker, and what goes back to the client.

use vstd::prelude::*;
use crate::json::{json_member, json_string_content, member_of, Json, Member};
use crate::lsp::{response_text, result_texts, send_response, wire, DocumentUri};
use crate::lsp_server::{Command, LspMessage, LspServerSpec};

verus! {

/// The port on which the proxy listens unless told otherwise.
pub const DEFAULT_PORT: u16 = 9257;

/// What a proxy needs to run.
#[derive(Debug)]
pub struct ProxyServerConfig {
    pub port: u16,
    pub workspace_folder_uri: DocumentUri,
    pub lsp_server_spec: LspServerSpec,
}

/// A proxy that hands the requests of its clients to one language server.
#[derive(Debug)]
pub struct ProxyServer {
    config: ProxyServerConfig,
}

impl ProxyServer {
    /// A proxy for `config`.
    pub fn new(config: ProxyServerConfig) -> (server: ProxyServer)
        ensures
            server.config() == config,
    {
        ProxyServer { config }
    }

    /// What the proxy was made for.
    pub closed spec fn config(&self) -> ProxyServerConfig {
        self.config
    }

    /// The port to listen on.
    pub fn port(&self) -> (port: u16)
        ensures
            port == self.config().port,
    {
        self.config.port
    }

    /// Gives the configuration back.
    pub fn into_config(self) -> (config: ProxyServerConfig)
        ensures
            config == self.config(),
    {
        self.config
    }
}

/// Why a message of a client cannot be forwarded.
#[derive(Debug, Clone, Copy, PartialEq, Eq, Structural)]
pub enum ProxyError {
    /// The message is no JSON object.
    NotAnObject,
    /// The message has no `method`.
    MissingMethod,
    /// The `method` is no string.
    BadMethod,
}

/// What a message of a client becomes: the command for the broker, and,
/// for a request, the `id` under which the client expects the answer.
///
/// A message with an `id` is a request, one without is a notification. The
/// `id` is kept as the client wrote it.
pub open spec fn spec_forward(text: Seq<char>, reply_tx: u64) -> Result<
    (Command, Option<Seq<char>>),
    ProxyError,
> {
    match json_member(text, "method"@) {
        None => Err(ProxyError::NotAnObject),
        Some(None) => Err(ProxyError::MissingMethod),
        Some(Some(method)) => match json_string_content(method) {
            None => Err(ProxyError::BadMethod),
            Some(name) => match member_of(text, "id"@) {
                Some(id) => Ok(
                    (
                        Command::Request {
                            method: name,
                            params: member_of(text, "params"@),
                            reply_tx,
                        },
                        Some(id),
                    ),
                ),
                None => Ok(
                    (
                        Command::Notification { method: name, params: member_of(text, "params"@) },
                        None,
                    ),
                ),
            },
        },
    }
}

/// A command for the broker, and the `id` that the client waits under.
#[derive(Debug)]
pub struct Forwarded {
    pub message: LspMessage,
    pub id: Option<Json>,
}

/// The view of what [`forward`] returns.
pub open spec fn forwarded_view(r: Result<Forwarded, ProxyError>) -> Result<
    (Command, Option<Seq<char>>),
    ProxyError,
> {
    match r {
        Ok(forwarded) => Ok(
            (
                forwarded.message@,
                match forwarded.id {
                    Some(id) => Some(id@),
                    None => None,
                },
            ),
        ),
        Err(e) => Err(e),
    }
}

fn optional(value: &Json, name: &str) -> (r: Option<Json>)
    ensures
        match r {
            Some(found) => member_of(value@, name@) == Some(found@),
            None => member_of(value@, name@).is_none(),
        },
{
    match value.member(name) {
        Member::Present(found) => Some(found),
        _ => None,
    }
}

/// Turns a message of a client into a command for the broker. `reply_tx`
/// stands for the channel on which the connection will wait if the message is
/// a request.
pub fn forward(message: &Json, reply_tx: u64) -> (r: Result<Forwarded, ProxyError>)
    ensures
        forwarded_view(r) == spec_forward(message@, reply_tx),
{
    let method = match message.member("method") {
        Member::NotObject => {
            return Err(ProxyError::NotAnObject);
        },
        Member::Absent => {
            return Err(ProxyError::MissingMethod);
        },
        Member::Present(method) => match method.string() {
            None => {
                return Err(ProxyError::BadMethod);
            },
            Some(name) => name,
        },
    };
    let params = optional(message, "params");
    match optional(message, "id") {
        Some(id) => Ok(
            Forwarded { message: LspMessage::Request { method, params, reply_tx }, id: Some(id) },
        ),
        None => Ok(Forwarded { message: LspMessage::Notification { method, params }, id: None }),
    }
}

/// Where a connection stands.
#[derive(Debug)]
pub enum Connection {
    /// Between two messages of the client.
    Idle,
    /// A request is with the broker; the client waits for the answer under
    /// `id`.
    AwaitingReply { id: Json },
    /// Over.
    Closed,
}

/// [`Connection`] with the `id` as text.
pub enum Phase {
    Idle,
    AwaitingReply { id: Seq<char> },
    Closed,
}

impl View for Connection {
    type V = Phase;

    open spec fn view(&self) -> Phase {
        match *self {
            Connection::Idle => Phase::Idle,
            Connection::AwaitingReply { id } => Phase::AwaitingReply { id: id@ },
            Connection::Closed => Phase::Closed,
        }
    }
}

/// What happens on a connection.
#[derive(Debug)]
pub enum ConnectionEvent {
    /// The client has sent a message. `reply_tx` stands for a fresh channel.
    Message { message: Json, reply_tx: u64 },
    /// The broker has answered the request that the connection waits for.
    Reply { result: Result<Json, Json> },
    /// The broker is gone, or the client's stream has ended or cannot be
    /// decoded.
    Lost,
}

/// [`ConnectionEvent`] with its texts as sequences.
pub enum Occurrence {
    Message { message: Seq<char>, reply_tx: u64 },
    Reply { result: Result<Seq<char>, Seq<char>> },
    Lost,
}

impl View for ConnectionEvent {
    type V = Occurrence;

    open spec fn view(&self) -> Occurrence {
        match *self {
            ConnectionEvent::Message { message, reply_tx } => Occurrence::Message {
                message: message@,
                reply_tx,
            },
            ConnectionEvent::Reply { result } => Occurrence::Reply { result: result_texts(result) },
            ConnectionEvent::Lost => Occurrence::Lost,
        }
    }
}

/// What the handler of a connection has to do next.
#[derive(Debug)]
pub enum ConnectionAction {
    /// Hand this command to the broker, then read the next message.
    Forward(LspMessage),
    /// Hand this command to the broker, then wait for the reply.
    ForwardAndWait(LspMessage),
    /// Write these bytes to the client, then read the next message.
    Respond(Vec<u8>),
    /// Close the connection because of a message that cannot be forwarded.
    Reject(ProxyError),
    /// Close the connection.
    Close,
    /// Nothing: the event does not belong to this state.
    Nothing,
}

/// [`ConnectionAction`] with its texts as sequences.
pub enum Consequence {
    Forward(Command),
    ForwardAndWait(Command),
    Respond(Seq<u8>),
    Reject(ProxyError),
    Close,
    Nothing,
}

impl View for ConnectionAction {
    type V = Consequence;

    open spec fn view(&self) -> Consequence {
        match *self {
            ConnectionAction::Forward(message) => Consequence::Forward(message@),
            ConnectionAction::ForwardAndWait(message) => Consequence::ForwardAndWait(message@),
            ConnectionAction::Respond(bytes) => Consequence::Respond(bytes@),
            ConnectionAction::Reject(e) => Consequence::Reject(e),
            ConnectionAction::Close => Consequence::Close,
            ConnectionAction::Nothing => Consequence::Nothing,
        }
    }
}

/// The state after `event`, and what is to be done.
///
/// An idle connection forwards a notification and stays idle; it forwards a
/// request and waits. A waiting connection answers its client under the `id`
/// of the request, as the client wrote it, and is idle again. The loss of
/// either side closes the connection, and only this one.
pub open spec fn spec_step(phase: Phase, event: Occurrence) -> (Phase, Consequence) {
    match (phase, event) {
        (Phase::Idle, Occurrence::Message { message, reply_tx }) => match spec_forward(
            message,
            reply_tx,
        ) {
            Err(e) => (Phase::Closed, Consequence::Reject(e)),
            Ok((command, None)) => (Phase::Idle, Consequence::Forward(command)),
            Ok((command, Some(id))) => (
                Phase::AwaitingReply { id },
                Consequence::ForwardAndWait(command),
            ),
        },
        (Phase::AwaitingReply { id }, Occurrence::Reply { result }) => (
            Phase::Idle,
            Consequence::Respond(wire(response_text(id, result))),
        ),
        (Phase::Closed, _) => (Phase::Closed, Consequence::Nothing),
        (_, Occurrence::Lost) => (Phase::Closed, Consequence::Close),
        (phase, _) => (phase, Consequence::Nothing),
    }
}

impl Connection {
    /// A connection that has just been accepted.
    pub fn new() -> (connection: Connection)
        ensures
            connection@ == Phase::Idle,
    {
        Connection::Idle
    }

    /// Takes one event and says what is to be done.
    pub fn step(self, event: ConnectionEvent) -> (r: (Connection, ConnectionAction))
        ensures
            (r.0@, r.1@) == spec_step(self@, event@),
    {
        match self {
            Connection::Closed => (Connection::Closed, ConnectionAction::Nothing),
            Connection::Idle => match event {
                ConnectionEvent::Message { message, reply_tx } => match forward(
                    &message,
                    reply_tx,
                ) {
                    Err(e) => (Connection::Closed, ConnectionAction::Reject(e)),
                    Ok(forwarded) => match forwarded.id {
                        None => (Connection::Idle, ConnectionAction::Forward(forwarded.message)),
                        Some(id) => (
                            Connection::AwaitingReply { id },
                            ConnectionAction::ForwardAndWait(forwarded.message),
                        ),
                    },
                },
                ConnectionEvent::Lost => (Connection::Closed, ConnectionAction::Close),
                ConnectionEvent::Reply { .. } => (Connection::Idle, ConnectionAction::Nothing),
            },
            Connection::AwaitingReply { id } => match event {
                ConnectionEvent::Reply { result } => {
                    let bytes = send_response(&id, &result);
                    (Connection::Idle, ConnectionAction::Respond(bytes))
                },
                ConnectionEvent::Lost => (Connection::Closed, ConnectionAction::Close),
                ConnectionEvent::Message { .. } => (
                    Connection::AwaitingReply { id },
                    ConnectionAction::Nothing,
                ),
            },
        }
    }
}

} // verus!
