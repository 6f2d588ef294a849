//! The broker: the one place that writes to the language server, numbers the
//! requests, and hands each response to the caller that waits for it.

use std::collections::HashMap;
use vstd::prelude::*;
use vstd::std_specs::hash::*;
use vstd::string::StringExecFns;
use crate::json::{
    integer_text, json_array_elements, json_member, json_object_text, json_quoted,
    json_string_content, json_u32_value, member_of, names_of, required_member, texts, Json,
    JsonError, Member,
};
use crate::lsp::{
    notification_text, params_text, request_text, response_text, result_texts, send_notification,
    send_request, send_response, wire,
};

verus! {

broadcast use group_hash_axioms;

/// How to start the language server.
#[derive(Debug)]
pub struct LspServerSpec {
    /// The program.
    pub command: String,
    /// Its arguments.
    pub args: Vec<String>,
    /// What the `initialize` request carries as `initializationOptions`.
    pub initialize_options: Option<Json>,
}

/// The strings that the JSON strings `elements` stand for; `None` where one
/// of them is no string.
pub open spec fn spec_strings(elements: Seq<Seq<char>>) -> Option<Seq<Seq<char>>> {
    if forall|i: int| 0 <= i < elements.len() ==> json_string_content(#[trigger] elements[i]).is_some() {
        Some(Seq::new(elements.len(), |i: int| json_string_content(elements[i]).unwrap()))
    } else {
        None
    }
}

/// The arguments that the member `args` of `text` lists: none where the
/// member is absent.
pub open spec fn spec_args(text: Seq<char>) -> Result<Seq<Seq<char>>, JsonError> {
    match member_of(text, "args"@) {
        None => Ok(Seq::empty()),
        Some(list) => match json_array_elements(list) {
            None => Err(JsonError::WrongKind),
            Some(elements) => match spec_strings(elements) {
                None => Err(JsonError::WrongKind),
                Some(args) => Ok(args),
            },
        },
    }
}

/// The server that the JSON object `text` describes: `command`, a string,
/// has to be there; `args`, a list of strings, and `initialize_options` may
/// be.
pub open spec fn spec_server_spec(text: Seq<char>) -> Result<
    (Seq<char>, Seq<Seq<char>>, Option<Seq<char>>),
    JsonError,
> {
    match required_member(text, "command"@) {
        Err(e) => Err(e),
        Ok(command) => match json_string_content(command) {
            None => Err(JsonError::WrongKind),
            Some(program) => match spec_args(text) {
                Err(e) => Err(e),
                Ok(args) => Ok((program, args, member_of(text, "initialize_options"@))),
            },
        },
    }
}

/// The view of what [`LspServerSpec::from_json`] returns.
pub open spec fn server_spec_view(r: Result<LspServerSpec, JsonError>) -> Result<
    (Seq<char>, Seq<Seq<char>>, Option<Seq<char>>),
    JsonError,
> {
    match r {
        Ok(spec) => Ok(
            (
                spec.command@,
                names_of(spec.args@),
                match spec.initialize_options {
                    Some(options) => Some(options@),
                    None => None,
                },
            ),
        ),
        Err(e) => Err(e),
    }
}

/// Reads a list of JSON strings.
fn strings(elements: &Vec<Json>) -> (r: Option<Vec<String>>)
    ensures
        match r {
            Some(list) => spec_strings(texts(elements@)) == Some(names_of(list@)),
            None => spec_strings(texts(elements@)).is_none(),
        },
{
    let mut list: Vec<String> = Vec::new();
    let mut i: usize = 0;
    while i < elements.len()
        invariant
            i <= elements.len(),
            list.len() == i,
            forall|j: int|
                0 <= j < i ==> json_string_content(#[trigger] texts(elements@)[j]) == Some(
                    list@[j]@,
                ),
        decreases elements.len() - i,
    {
        match elements[i].string() {
            Some(s) => {
                list.push(s);
            },
            None => {
                proof {
                    assert(texts(elements@)[i as int] == elements@[i as int]@);
                    assert(json_string_content(texts(elements@)[i as int]).is_none());
                }
                return None;
            },
        }
        proof {
            assert(texts(elements@)[i as int] == elements@[i as int]@);
        }
        i = i + 1;
    }
    proof {
        let all = texts(elements@);
        assert(names_of(list@) =~= Seq::new(
            all.len(),
            |k: int| json_string_content(all[k]).unwrap(),
        ));
    }
    Some(list)
}

impl LspServerSpec {
    /// Reads the description of a server from a JSON object.
    pub fn from_json(value: &Json) -> (r: Result<LspServerSpec, JsonError>)
        ensures
            server_spec_view(r) == spec_server_spec(value@),
    {
        let command = match value.member("command") {
            Member::NotObject => {
                return Err(JsonError::NotObject);
            },
            Member::Absent => {
                return Err(JsonError::Missing);
            },
            Member::Present(command) => match command.string() {
                None => {
                    return Err(JsonError::WrongKind);
                },
                Some(program) => program,
            },
        };
        let args = match value.member("args") {
            Member::Present(list) => match list.elements() {
                None => {
                    return Err(JsonError::WrongKind);
                },
                Some(elements) => match strings(&elements) {
                    None => {
                        return Err(JsonError::WrongKind);
                    },
                    Some(args) => args,
                },
            },
            _ => {
                let none: Vec<String> = Vec::new();
                assert(names_of(none@) =~= Seq::<Seq<char>>::empty());
                none
            },
        };
        let initialize_options = match value.member("initialize_options") {
            Member::Present(options) => Some(options),
            _ => None,
        };
        Ok(LspServerSpec { command, args, initialize_options })
    }
}

/// The identifier of the `initialize` request, which no later request gets.
pub const INITIALIZE_REQUEST_ID: u32 = 0;

/// The identifier of the `shutdown` request, which no other request gets.
pub const SHUTDOWN_REQUEST_ID: u32 = 1;

/// What the broker is asked to do. `reply_tx` stands for the channel on which
/// one caller waits for its reply.
#[derive(Debug)]
#[allow(inconsistent_fields)]
pub enum LspMessage {
    /// Send a request and remember who waits for the reply.
    Request { method: String, params: Option<Json>, reply_tx: u64 },
    /// Send a notification.
    Notification { method: String, params: Option<Json> },
    /// The server has answered the request `request_id`.
    ResponseFromLspServer { request_id: u32, result: Result<Json, Json> },
    /// Answer a request that the server made, under the identifier it gave.
    ResponseToLspServer { request_id: Json, result: Result<Json, Json> },
    /// Ask the server to shut down, under the identifier kept for that, and
    /// remember who waits for the reply.
    Shutdown { reply_tx: u64 },
    /// The server's output has ended or can no longer be read.
    LspServerStdoutError,
    /// Writing to the server has failed.
    LspServerStdinError,
}

/// An [`LspMessage`] with its texts as sequences of characters.
#[allow(inconsistent_fields)]
pub enum Command {
    Request { method: Seq<char>, params: Option<Seq<char>>, reply_tx: u64 },
    Notification { method: Seq<char>, params: Option<Seq<char>> },
    ResponseFromLspServer { request_id: u32, result: Result<Seq<char>, Seq<char>> },
    ResponseToLspServer { request_id: Seq<char>, result: Result<Seq<char>, Seq<char>> },
    Shutdown { reply_tx: u64 },
    LspServerStdoutError,
    LspServerStdinError,
}

impl View for LspMessage {
    type V = Command;

    open spec fn view(&self) -> Command {
        match *self {
            LspMessage::Request { method, params, reply_tx } => Command::Request {
                method: method@,
                params: params_text(params),
                reply_tx,
            },
            LspMessage::Notification { method, params } => Command::Notification {
                method: method@,
                params: params_text(params),
            },
            LspMessage::ResponseFromLspServer { request_id, result } => {
                Command::ResponseFromLspServer { request_id, result: result_texts(result) }
            },
            LspMessage::ResponseToLspServer { request_id, result } => {
                Command::ResponseToLspServer { request_id: request_id@, result: result_texts(result) }
            },
            LspMessage::Shutdown { reply_tx } => Command::Shutdown { reply_tx },
            LspMessage::LspServerStdoutError => Command::LspServerStdoutError,
            LspMessage::LspServerStdinError => Command::LspServerStdinError,
        }
    }
}

/// What the owner of the pipes has to do after a step of the broker.
#[derive(Debug)]
pub enum Action {
    /// Write these bytes to the server.
    Write(Vec<u8>),
    /// Hand `result` to the caller that waits on `reply_tx`.
    Reply { reply_tx: u64, result: Result<Json, Json> },
    /// Nothing: the message was a response that nobody waits for.
    Nothing,
    /// No identifier is left for this request, or a shutdown is already
    /// under way: fail the caller on `reply_tx`.
    Refuse { reply_tx: u64 },
    /// Stop: the server is gone. Fail the callers that wait on `abandoned`.
    Stop { abandoned: Vec<u64> },
}

/// An [`Action`] with its texts as sequences.
pub enum Effect {
    Write(Seq<u8>),
    Reply { reply_tx: u64, result: Result<Seq<char>, Seq<char>> },
    Nothing,
    Refuse { reply_tx: u64 },
    Stop { abandoned: Seq<u64> },
}

impl View for Action {
    type V = Effect;

    open spec fn view(&self) -> Effect {
        match *self {
            Action::Write(bytes) => Effect::Write(bytes@),
            Action::Reply { reply_tx, result } => Effect::Reply {
                reply_tx,
                result: result_texts(result),
            },
            Action::Nothing => Effect::Nothing,
            Action::Refuse { reply_tx } => Effect::Refuse { reply_tx },
            Action::Stop { abandoned } => Effect::Stop { abandoned: abandoned@ },
        }
    }
}

/// The broker's state: the next identifier to give out, and who waits for
/// the reply to which request.
pub struct Table {
    pub next_request_id: u32,
    pub pending: Map<u32, u64>,
}

impl Table {
    /// Every pending request has the identifier kept for `shutdown` or one
    /// that was given out: one behind the reserved ones and before the next.
    pub open spec fn wf(self) -> bool {
        &&& self.next_request_id > SHUTDOWN_REQUEST_ID
        &&& forall|id: u32| #[trigger]
            self.pending.contains_key(id) ==> id == SHUTDOWN_REQUEST_ID || SHUTDOWN_REQUEST_ID
                < id < self.next_request_id
    }

    /// The state of a broker that has sent nothing yet: the first request
    /// gets the identifier behind the two reserved ones.
    pub open spec fn start() -> Table {
        Table { next_request_id: (SHUTDOWN_REQUEST_ID + 1) as u32, pending: Map::empty() }
    }

    /// The state when the server is gone, and the order to fail everyone who
    /// still waits.
    pub open spec fn stop(self) -> (Table, Effect) {
        (
            Table { next_request_id: self.next_request_id, pending: Map::empty() },
            Effect::Stop { abandoned: self.waiting(0, self.next_request_id as int) },
        )
    }

    /// The callers that wait for requests `from..to`, by identifier.
    pub open spec fn waiting(self, from: int, to: int) -> Seq<u64>
        decreases to - from,
    {
        if from >= to {
            Seq::empty()
        } else if self.pending.contains_key(from as u32) {
            seq![self.pending[from as u32]] + self.waiting(from + 1, to)
        } else {
            self.waiting(from + 1, to)
        }
    }

    /// The state after `command`, and what is to be done for it.
    pub open spec fn step(self, command: Command) -> (Table, Effect) {
        match command {
            Command::Request { method, params, reply_tx } => {
                if self.next_request_id < u32::MAX {
                    (
                        Table {
                            next_request_id: (self.next_request_id + 1) as u32,
                            pending: self.pending.insert(self.next_request_id, reply_tx),
                        },
                        Effect::Write(wire(request_text(self.next_request_id, method, params))),
                    )
                } else {
                    (self, Effect::Refuse { reply_tx })
                }
            },
            Command::Notification { method, params } => (
                self,
                Effect::Write(wire(notification_text(method, params))),
            ),
            Command::ResponseFromLspServer { request_id, result } => {
                if self.pending.contains_key(request_id) {
                    (
                        Table {
                            next_request_id: self.next_request_id,
                            pending: self.pending.remove(request_id),
                        },
                        Effect::Reply { reply_tx: self.pending[request_id], result },
                    )
                } else {
                    (self, Effect::Nothing)
                }
            },
            Command::ResponseToLspServer { request_id, result } => (
                self,
                Effect::Write(wire(response_text(request_id, result))),
            ),
            Command::Shutdown { reply_tx } => {
                if self.pending.contains_key(SHUTDOWN_REQUEST_ID) {
                    (self, Effect::Refuse { reply_tx })
                } else {
                    (
                        Table {
                            next_request_id: self.next_request_id,
                            pending: self.pending.insert(SHUTDOWN_REQUEST_ID, reply_tx),
                        },
                        Effect::Write(wire(request_text(SHUTDOWN_REQUEST_ID, "shutdown"@, None))),
                    )
                }
            },
            Command::LspServerStdoutError => self.stop(),
            Command::LspServerStdinError => self.stop(),
        }
    }
}

/// The writer's state. Only [`Broker::handle`] changes it, one message at a
/// time, so it needs no lock.
pub struct Broker {
    next_request_id: u32,
    ongoing_requests: HashMap<u32, u64>,
}

impl View for Broker {
    type V = Table;

    closed spec fn view(&self) -> Table {
        Table { next_request_id: self.next_request_id, pending: self.ongoing_requests@ }
    }
}

impl Broker {
    /// The identifiers of the pending requests have all been given out.
    pub open spec fn wf(&self) -> bool {
        self@.wf()
    }

    /// A broker that has sent nothing yet: the first request gets the
    /// identifier behind the reserved ones.
    pub fn new() -> (broker: Broker)
        ensures
            broker@ == Table::start(),
            broker.wf(),
    {
        Broker { next_request_id: SHUTDOWN_REQUEST_ID + 1, ongoing_requests: HashMap::new() }
    }

    /// The identifier that the next request gets.
    pub fn next_request_id(&self) -> (id: u32)
        ensures
            id == self@.next_request_id,
    {
        self.next_request_id
    }

    /// How many requests wait for a reply.
    pub fn pending_len(&self) -> (n: usize)
        ensures
            n == self@.pending.dom().len(),
    {
        self.ongoing_requests.len()
    }

    /// Who waits for the reply to `request_id`, if anyone.
    pub fn waiting_on(&self, request_id: u32) -> (r: Option<u64>)
        ensures
            r == if self@.pending.contains_key(request_id) {
                Some(self@.pending[request_id])
            } else {
                None
            },
    {
        match self.ongoing_requests.get(&request_id) {
            Some(reply_tx) => Some(*reply_tx),
            None => None,
        }
    }

    /// Takes out every pending request, in the order of the identifiers.
    fn abandon(&mut self) -> (abandoned: Vec<u64>)
        requires
            old(self).wf(),
        ensures
            abandoned@ == old(self)@.waiting(0, old(self)@.next_request_id as int),
            final(self)@.next_request_id == old(self)@.next_request_id,
            final(self)@.pending == Map::<u32, u64>::empty(),
    {
        let ghost before = self@;
        let mut abandoned: Vec<u64> = Vec::new();
        let mut id: u32 = self.next_request_id;
        while id > 0
            invariant
                id <= self.next_request_id,
                self.next_request_id == before.next_request_id,
                before.wf(),
                abandoned@.reverse() == before.waiting(id as int, before.next_request_id as int),
                forall|k: u32| #[trigger]
                    self.ongoing_requests@.contains_key(k) ==> before.pending.contains_key(k) && k
                        < id,
                forall|k: u32|
                    k < id && before.pending.contains_key(k)
                        ==> #[trigger] self.ongoing_requests@.contains_key(k)
                        && self.ongoing_requests@[k] == before.pending[k],
            decreases id,
        {
            id = id - 1;
            let ghost rest = abandoned@;
            match self.ongoing_requests.remove(&id) {
                Some(reply_tx) => {
                    abandoned.push(reply_tx);
                    proof {
                        assert(before.pending.contains_key(id));
                        assert(abandoned@.reverse() =~= seq![reply_tx] + rest.reverse());
                    }
                },
                None => {
                    proof {
                        assert(!before.pending.contains_key(id));
                    }
                },
            }
        }
        proof {
            assert(self.ongoing_requests@ =~= Map::<u32, u64>::empty());
        }
        reverse(abandoned)
    }

    /// Takes one message and says what is to be done for it.
    ///
    /// A request gets the next identifier and its caller is remembered; a
    /// notification gets none. A response from the server goes to the caller
    /// that waits for it and to nobody else; one that nobody waits for is
    /// dropped. The request to shut down goes out under the identifier kept
    /// for it. When the server is gone, or cannot be written to, every
    /// caller still waiting is handed back to be failed.
    pub fn handle(&mut self, message: LspMessage) -> (action: Action)
        requires
            old(self).wf(),
        ensures
            (final(self)@, action@) == old(self)@.step(message@),
            final(self).wf(),
    {
        match message {
            LspMessage::Request { method, params, reply_tx } => {
                if self.next_request_id < u32::MAX {
                    let id: u32 = self.next_request_id;
                    let bytes = send_request(id, method.as_str(), params.as_ref());
                    self.ongoing_requests.insert(id, reply_tx);
                    self.next_request_id = id + 1;
                    Action::Write(bytes)
                } else {
                    Action::Refuse { reply_tx }
                }
            },
            LspMessage::Notification { method, params } => {
                Action::Write(send_notification(method.as_str(), params.as_ref()))
            },
            LspMessage::ResponseFromLspServer { request_id, result } => {
                match self.ongoing_requests.remove(&request_id) {
                    Some(reply_tx) => Action::Reply { reply_tx, result },
                    None => {
                        proof {
                            assert(self.ongoing_requests@ =~= old(self).ongoing_requests@);
                        }
                        Action::Nothing
                    },
                }
            },
            LspMessage::ResponseToLspServer { request_id, result } => {
                Action::Write(send_response(&request_id, &result))
            },
            LspMessage::Shutdown { reply_tx } => {
                if self.ongoing_requests.contains_key(&SHUTDOWN_REQUEST_ID) {
                    Action::Refuse { reply_tx }
                } else {
                    let bytes = send_request(SHUTDOWN_REQUEST_ID, "shutdown", None);
                    self.ongoing_requests.insert(SHUTDOWN_REQUEST_ID, reply_tx);
                    Action::Write(bytes)
                }
            },
            LspMessage::LspServerStdoutError => {
                let abandoned = self.abandon();
                Action::Stop { abandoned }
            },
            LspMessage::LspServerStdinError => {
                let abandoned = self.abandon();
                Action::Stop { abandoned }
            },
        }
    }
}

/// The state after `commands`, one after the other, and what was to be done
/// for each.
pub open spec fn run(table: Table, commands: Seq<Command>) -> (Table, Seq<Effect>)
    decreases commands.len(),
{
    if commands.len() == 0 {
        (table, Seq::empty())
    } else {
        let (before, effects) = run(table, commands.drop_last());
        let (after, effect) = before.step(commands.last());
        (after, effects.push(effect))
    }
}

/// How many of `commands` are requests.
pub open spec fn requests_in(commands: Seq<Command>) -> nat
    decreases commands.len(),
{
    if commands.len() == 0 {
        0
    } else if commands.last() is Request {
        requests_in(commands.drop_last()) + 1
    } else {
        requests_in(commands.drop_last())
    }
}

/// The identifiers of the requests `from..to` that wait for a reply, in
/// rising order.
pub open spec fn waiting_ids(table: Table, from: int, to: int) -> Seq<u32>
    decreases to - from,
{
    if from >= to {
        Seq::empty()
    } else if table.pending.contains_key(from as u32) {
        seq![from as u32] + waiting_ids(table, from + 1, to)
    } else {
        waiting_ids(table, from + 1, to)
    }
}

/// A step keeps the state well formed.
pub proof fn lemma_step_wf(table: Table, command: Command)
    requires
        table.wf(),
    ensures
        table.step(command).0.wf(),
        table.step(command).0.next_request_id >= table.next_request_id,
{
}

/// Running commands keeps the state well formed, answers each command, and
/// moves the next identifier forward by one for each request and by nothing
/// for anything else, as long as identifiers are left.
pub proof fn lemma_run(table: Table, commands: Seq<Command>)
    requires
        table.wf(),
    ensures
        run(table, commands).0.wf(),
        run(table, commands).1.len() == commands.len(),
        run(table, commands).0.next_request_id >= table.next_request_id,
        table.next_request_id + requests_in(commands) <= u32::MAX ==> run(
            table,
            commands,
        ).0.next_request_id == table.next_request_id + requests_in(commands),
    decreases commands.len(),
{
    if commands.len() > 0 {
        lemma_run(table, commands.drop_last());
        lemma_step_wf(run(table, commands.drop_last()).0, commands.last());
    }
}

/// Running a prefix of the commands gives a prefix of the effects.
pub proof fn lemma_run_prefix(table: Table, commands: Seq<Command>, n: int)
    requires
        table.wf(),
        0 <= n <= commands.len(),
    ensures
        run(table, commands).1.len() == commands.len(),
        run(table, commands.take(n)).1 == run(table, commands).1.take(n),
    decreases commands.len(),
{
    lemma_run(table, commands);
    lemma_run(table, commands.take(n));
    if n == commands.len() {
        assert(commands.take(n) =~= commands);
        assert(run(table, commands).1.take(n) =~= run(table, commands).1);
    } else {
        lemma_run_prefix(table, commands.drop_last(), n);
        lemma_run(table, commands.drop_last());
        assert(commands.drop_last().take(n) =~= commands.take(n));
        assert(run(table, commands).1.take(n) =~= run(table, commands.drop_last()).1.take(n));
    }
}

/// Requests get distinct identifiers, rising by one from request to request;
/// a notification, a response or anything else in between takes none.
///
/// As long as identifiers are left, the request at place `i` is sent with
/// the first identifier plus the number of requests before it, which is
/// neither of the two reserved ones.
pub proof fn lemma_identifiers_in_order(table: Table, commands: Seq<Command>, i: int)
    requires
        table.wf(),
        0 <= i < commands.len(),
        commands[i] is Request,
        table.next_request_id + requests_in(commands.take(i)) < u32::MAX,
    ensures
        table.next_request_id + requests_in(commands.take(i)) > SHUTDOWN_REQUEST_ID,
        run(table, commands).1.len() == commands.len(),
        run(table, commands).1[i] == Effect::Write(
            wire(
                request_text(
                    (table.next_request_id + requests_in(commands.take(i))) as u32,
                    commands[i]->Request_method,
                    commands[i]->Request_params,
                ),
            ),
        ),
{
    let upto = commands.take(i + 1);
    lemma_run_prefix(table, commands, i + 1);
    lemma_run(table, commands);
    assert(upto.drop_last() =~= commands.take(i));
    assert(upto.last() == commands[i]);
    lemma_run(table, commands.take(i));
    assert(run(table, upto).1.last() == run(table, commands).1[i]);
}

/// A later request has more requests before it than an earlier one, so its
/// identifier is larger.
pub proof fn lemma_later_request_counts_more(commands: Seq<Command>, i: int, j: int)
    requires
        0 <= i < j <= commands.len(),
        commands[i] is Request,
    ensures
        requests_in(commands.take(i)) < requests_in(commands.take(j)),
    decreases j - i,
{
    let upto = commands.take(j);
    assert(upto.drop_last() =~= commands.take(j - 1));
    assert(upto.last() == commands[j - 1]);
    if j - 1 > i {
        lemma_later_request_counts_more(commands, i, j - 1);
    }
}

/// Whether `command` leaves the entry of request `id` alone.
pub open spec fn spares(command: Command, id: u32) -> bool {
    match command {
        Command::ResponseFromLspServer { request_id, .. } => request_id != id,
        Command::LspServerStdoutError => false,
        Command::LspServerStdinError => false,
        _ => true,
    }
}

/// A caller that waits for request `id` still waits for it after any
/// commands that are neither the response to `id` nor the loss of the
/// server.
pub proof fn lemma_caller_keeps_waiting(table: Table, commands: Seq<Command>, id: u32)
    requires
        table.wf(),
        table.pending.contains_key(id),
        forall|k: int| 0 <= k < commands.len() ==> spares(#[trigger] commands[k], id),
    ensures
        run(table, commands).0.pending.contains_key(id),
        run(table, commands).0.pending[id] == table.pending[id],
    decreases commands.len(),
{
    if commands.len() > 0 {
        let earlier = commands.drop_last();
        assert forall|k: int| 0 <= k < earlier.len() implies spares(#[trigger] earlier[k], id) by {
            assert(earlier[k] == commands[k]);
        }
        lemma_caller_keeps_waiting(table, earlier, id);
        lemma_run(table, earlier);
        assert(spares(commands[commands.len() - 1], id));
    }
}

/// Each response reaches the caller of its own request, in whatever order
/// the responses arrive.
///
/// After a request is sent for the caller on `reply_tx`, and after any
/// commands that do not answer that request, the response to it is handed to
/// `reply_tx` with the result that the server gave, and the request waits no
/// longer.
pub proof fn lemma_reply_reaches_its_caller(
    table: Table,
    method: Seq<char>,
    params: Option<Seq<char>>,
    reply_tx: u64,
    between: Seq<Command>,
    result: Result<Seq<char>, Seq<char>>,
)
    requires
        table.wf(),
        table.next_request_id < u32::MAX,
        forall|k: int|
            0 <= k < between.len() ==> spares(#[trigger] between[k], table.next_request_id),
    ensures
        ({
            let id = table.next_request_id;
            let sent = table.step(Command::Request { method, params, reply_tx }).0;
            let later = run(sent, between).0;
            let (end, effect) = later.step(
                Command::ResponseFromLspServer { request_id: id, result },
            );
            &&& effect == Effect::Reply { reply_tx, result }
            &&& !end.pending.contains_key(id)
            &&& end.pending == later.pending.remove(id)
        }),
{
    let id = table.next_request_id;
    let sent = table.step(Command::Request { method, params, reply_tx }).0;
    lemma_step_wf(table, Command::Request { method, params, reply_tx });
    assert(sent.pending.contains_key(id));
    lemma_caller_keeps_waiting(sent, between, id);
}

/// Two requests wait at once and the server answers the second first: each
/// caller gets its own result, and the table is as it was before the two.
pub proof fn lemma_crossed_replies(
    table: Table,
    first: Command,
    second: Command,
    first_result: Result<Seq<char>, Seq<char>>,
    second_result: Result<Seq<char>, Seq<char>>,
)
    requires
        table.wf(),
        first is Request,
        second is Request,
        table.next_request_id + 1 < u32::MAX,
    ensures
        ({
            let a = table.next_request_id;
            let b = (table.next_request_id + 1) as u32;
            let (end, effects) = run(
                table,
                seq![
                    first,
                    second,
                    Command::ResponseFromLspServer { request_id: b, result: second_result },
                    Command::ResponseFromLspServer { request_id: a, result: first_result },
                ],
            );
            &&& effects.len() == 4
            &&& effects[2] == Effect::Reply {
                reply_tx: second->Request_reply_tx,
                result: second_result,
            }
            &&& effects[3] == Effect::Reply {
                reply_tx: first->Request_reply_tx,
                result: first_result,
            }
            &&& end.pending == table.pending
        }),
{
    let a = table.next_request_id;
    let b = (table.next_request_id + 1) as u32;
    let c2 = Command::ResponseFromLspServer { request_id: b, result: second_result };
    let c3 = Command::ResponseFromLspServer { request_id: a, result: first_result };
    let all = seq![first, second, c2, c3];
    let s3 = all.drop_last();
    let s2 = s3.drop_last();
    let s1 = s2.drop_last();
    assert(s3 =~= seq![first, second, c2]);
    assert(s2 =~= seq![first, second]);
    assert(s1 =~= seq![first]);
    assert(s1.drop_last() =~= Seq::<Command>::empty());
    assert(run(table, s1.drop_last()).0 == table);
    let t1 = run(table, s1).0;
    assert(t1 == table.step(first).0);
    let t2 = run(table, s2).0;
    assert(t2 == t1.step(second).0);
    let t3 = run(table, s3).0;
    assert(t3 == t2.step(c2).0);
    let t4 = run(table, all).0;
    assert(t4 == t3.step(c3).0);
    assert(!table.pending.contains_key(a));
    assert(!table.pending.contains_key(b));
    assert(t4.pending =~= table.pending);
}

/// What [`Table::waiting`] lists: the callers of exactly the pending
/// requests `from..to`, each once, by rising identifier.
pub proof fn lemma_waiting(table: Table, from: int, to: int)
    requires
        0 <= from,
        to <= u32::MAX + 1,
    ensures
        table.waiting(from, to).len() == waiting_ids(table, from, to).len(),
        forall|k: int|
            0 <= k < waiting_ids(table, from, to).len() ==> {
                let id = #[trigger] waiting_ids(table, from, to)[k];
                &&& from <= id < to
                &&& table.pending.contains_key(id)
                &&& table.waiting(from, to)[k] == table.pending[id]
            },
        forall|k: int, l: int|
            0 <= k < l < waiting_ids(table, from, to).len() ==> waiting_ids(table, from, to)[k]
                < waiting_ids(table, from, to)[l],
        forall|id: u32|
            from <= id < to && table.pending.contains_key(id) ==> waiting_ids(
                table,
                from,
                to,
            ).contains(id),
    decreases to - from,
{
    if from < to {
        lemma_waiting(table, from + 1, to);
        let rest = waiting_ids(table, from + 1, to);
        let ids = waiting_ids(table, from, to);
        if table.pending.contains_key(from as u32) {
            assert(ids =~= seq![from as u32] + rest);
            assert forall|id: u32|
                from <= id < to && table.pending.contains_key(id) implies ids.contains(id) by {
                if id == from {
                    assert(ids[0] == id);
                } else {
                    assert(rest.contains(id));
                    let k = choose|k: int| 0 <= k < rest.len() && rest[k] == id;
                    assert(ids[k + 1] == id);
                }
            }
            assert forall|k: int, l: int| 0 <= k < l < ids.len() implies ids[k] < ids[l] by {
                if k > 0 {
                    assert(ids[k] == rest[k - 1]);
                }
                assert(ids[l] == rest[l - 1]);
            }
            assert forall|k: int| 0 <= k < ids.len() implies ({
                let id = #[trigger] ids[k];
                &&& from <= id < to
                &&& table.pending.contains_key(id)
                &&& table.waiting(from, to)[k] == table.pending[id]
            }) by {
                if k > 0 {
                    assert(ids[k] == rest[k - 1]);
                }
            }
        } else {
            assert forall|id: u32|
                from <= id < to && table.pending.contains_key(id) implies ids.contains(id) by {
                assert(rest.contains(id));
            }
        }
    }
}

/// When the server goes away, every caller that still waits is handed back
/// to be failed, each once, and nobody is left waiting. The same happens when
/// writing to the server fails.
pub proof fn lemma_all_waiting_are_abandoned(table: Table)
    requires
        table.wf(),
    ensures
        table.step(Command::LspServerStdinError) == table.step(Command::LspServerStdoutError),
        ({
            let (end, effect) = table.step(Command::LspServerStdoutError);
            let ids = waiting_ids(table, 0, table.next_request_id as int);
            &&& effect is Stop
            &&& end.pending == Map::<u32, u64>::empty()
            &&& effect->abandoned.len() == ids.len()
            &&& ids.no_duplicates()
            &&& forall|id: u32| table.pending.contains_key(id) <==> ids.contains(id)
            &&& forall|k: int|
                0 <= k < ids.len() ==> #[trigger] effect->abandoned[k] == table.pending[ids[k]]
        }),
{
    let ids = waiting_ids(table, 0, table.next_request_id as int);
    lemma_waiting(table, 0, table.next_request_id as int);
    assert forall|id: u32| table.pending.contains_key(id) <==> ids.contains(id) by {
        if ids.contains(id) {
            let k = choose|k: int| 0 <= k < ids.len() && ids[k] == id;
            assert(table.pending.contains_key(ids[k]));
        }
    }
    assert forall|k: int, l: int| 0 <= k < ids.len() && 0 <= l < ids.len() && k != l implies ids[k]
        != ids[l] by {
        if k < l {
            assert(ids[k] < ids[l]);
        } else {
            assert(ids[l] < ids[k]);
        }
    }
}

/// The code of the JSON-RPC error "method not found".
pub const METHOD_NOT_FOUND: i64 = -32601;

/// Why a message from the server cannot be routed.
#[derive(Debug, Clone, Copy, PartialEq, Eq, Structural)]
pub enum RouteError {
    /// The message is no JSON object.
    NotAnObject,
    /// The `method` of a request is no string.
    BadMethod,
    /// The `id` of a response is no integer between 0 and 2^32 - 1.
    BadId,
    /// A response holds neither `error` nor `result`.
    MissingResult,
}

/// The error object with which a request for an unknown method is answered.
pub open spec fn method_not_found_text() -> Seq<char> {
    json_object_text(
        seq!["code"@, "message"@],
        seq![integer_text(METHOD_NOT_FOUND as int), json_quoted("method not found"@)],
    )
}

/// The answer that the broker itself gives to a request of the server for
/// `method`: `null` to the request to create a progress token, "method not
/// found" to any other.
pub open spec fn own_answer(method: Seq<char>) -> Result<Seq<char>, Seq<char>> {
    if method == "window/workDoneProgress/create"@ {
        Ok("null"@)
    } else {
        Err(method_not_found_text())
    }
}

/// What a message from the server leads to: nothing for a message without
/// `id`; for one with `id` and `method` the broker's own answer, to be sent
/// back under the same `id`; for one with `id` alone the response, to be
/// handed to the writer.
pub open spec fn spec_route(text: Seq<char>) -> Result<Option<Command>, RouteError> {
    match json_member(text, "id"@) {
        None => Err(RouteError::NotAnObject),
        Some(None) => Ok(None),
        Some(Some(id)) => match json_member(text, "method"@) {
            None => Err(RouteError::NotAnObject),
            Some(Some(method)) => match json_string_content(method) {
                None => Err(RouteError::BadMethod),
                Some(name) => Ok(
                    Some(Command::ResponseToLspServer { request_id: id, result: own_answer(name) }),
                ),
            },
            Some(None) => match json_u32_value(id) {
                None => Err(RouteError::BadId),
                Some(request_id) => match json_member(text, "error"@) {
                    None => Err(RouteError::NotAnObject),
                    Some(Some(error)) => Ok(
                        Some(Command::ResponseFromLspServer { request_id, result: Err(error) }),
                    ),
                    Some(None) => match json_member(text, "result"@) {
                        Some(Some(result)) => Ok(
                            Some(Command::ResponseFromLspServer { request_id, result: Ok(result) }),
                        ),
                        Some(None) => Err(RouteError::MissingResult),
                        None => Err(RouteError::NotAnObject),
                    },
                },
            },
        },
    }
}

/// The view of what [`route`] returns.
pub open spec fn routed_view(r: Result<Option<LspMessage>, RouteError>) -> Result<
    Option<Command>,
    RouteError,
> {
    match r {
        Ok(Some(message)) => Ok(Some(message@)),
        Ok(None) => Ok(None),
        Err(e) => Err(e),
    }
}

/// The error object "method not found".
pub fn method_not_found() -> (error: Json)
    ensures
        error@ == method_not_found_text(),
{
    let mut names: Vec<String> = Vec::new();
    let mut values: Vec<Json> = Vec::new();
    names.push(String::from_str("code"));
    values.push(Json::from_number(METHOD_NOT_FOUND));
    names.push(String::from_str("message"));
    values.push(Json::from_string("method not found"));
    proof {
        assert(names_of(names@) =~= seq!["code"@, "message"@]);
        assert(texts(values@) =~= seq![
            integer_text(METHOD_NOT_FOUND as int),
            json_quoted("method not found"@),
        ]);
    }
    Json::object(&names, &values)
}

/// The broker's own answer to a request of the server for `method`.
pub fn answer_server_request(method: &str) -> (result: Result<Json, Json>)
    ensures
        result_texts(result) == own_answer(method@),
{
    let known = String::from_str("window/workDoneProgress/create");
    let asked = String::from_str(method);
    if asked == known {
        Ok(Json::null())
    } else {
        Err(method_not_found())
    }
}

/// Decides what a message that the server wrote leads to.
///
/// Nothing in this depends on who waits for what: a request of the server is
/// answered here and never reaches a client.
pub fn route(message: &Json) -> (r: Result<Option<LspMessage>, RouteError>)
    ensures
        routed_view(r) == spec_route(message@),
{
    let id = match message.member("id") {
        Member::NotObject => {
            return Err(RouteError::NotAnObject);
        },
        Member::Absent => {
            return Ok(None);
        },
        Member::Present(id) => id,
    };
    match message.member("method") {
        Member::NotObject => Err(RouteError::NotAnObject),
        Member::Present(method) => match method.string() {
            None => Err(RouteError::BadMethod),
            Some(name) => {
                let result = answer_server_request(name.as_str());
                Ok(Some(LspMessage::ResponseToLspServer { request_id: id, result }))
            },
        },
        Member::Absent => {
            let Some(request_id) = id.number() else {
                return Err(RouteError::BadId);
            };
            match message.member("error") {
                Member::NotObject => Err(RouteError::NotAnObject),
                Member::Present(error) => Ok(
                    Some(LspMessage::ResponseFromLspServer { request_id, result: Err(error) }),
                ),
                Member::Absent => match message.member("result") {
                    Member::Present(result) => Ok(
                        Some(LspMessage::ResponseFromLspServer { request_id, result: Ok(result) }),
                    ),
                    Member::Absent => Err(RouteError::MissingResult),
                    Member::NotObject => Err(RouteError::NotAnObject),
                },
            }
        },
    }
}

/// What reading from the server's output gave.
#[derive(Debug)]
pub enum Read {
    /// A message.
    Message(Json),
    /// The end of the stream.
    End,
    /// Bytes that hold no message.
    Failed,
}

/// What the reader has to do after a read.
#[derive(Debug)]
pub enum ReaderAction {
    /// Hand this command to the writer, then read on.
    Send(LspMessage),
    /// Read on.
    Continue,
    /// Hand [`LspMessage::LspServerStdoutError`] to the writer and end.
    Stop,
}

/// Decides what follows a read from the server's output: a message is
/// routed; the end of the stream, bytes that hold no message, and a message
/// that cannot be routed all end the reader, and with it the broker.
pub fn reader_step(read: Read) -> (action: ReaderAction)
    ensures
        match read {
            Read::End => action is Stop,
            Read::Failed => action is Stop,
            Read::Message(message) => match spec_route(message@) {
                Ok(Some(command)) => action matches ReaderAction::Send(sent) && sent@ == command,
                Ok(None) => action is Continue,
                Err(_) => action is Stop,
            },
        },
{
    match read {
        Read::End => ReaderAction::Stop,
        Read::Failed => ReaderAction::Stop,
        Read::Message(message) => match route(&message) {
            Ok(Some(command)) => ReaderAction::Send(command),
            Ok(None) => ReaderAction::Continue,
            Err(_) => ReaderAction::Stop,
        },
    }
}

/// `v` in reverse order.
fn reverse(v: Vec<u64>) -> (out: Vec<u64>)
    ensures
        out@ == v@.reverse(),
{
    let mut out: Vec<u64> = Vec::new();
    let mut i: usize = v.len();
    while i > 0
        invariant
            i <= v.len(),
            out@ == v@.reverse().subrange(0, v.len() - i),
        decreases i,
    {
        i = i - 1;
        out.push(v[i]);
        assert(out@ =~= v@.reverse().subrange(0, v.len() - i));
    }
    assert(v@.reverse().subrange(0, v.len() as int) =~= v@.reverse());
    out
}

} // verus!
