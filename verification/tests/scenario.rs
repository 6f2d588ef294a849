use lspterm::json::{Json, Member, Members};
use lspterm::lsp::{recv_message, send_response, DocumentUri};
use lspterm::lsp_server::{route, Action, Broker, LspMessage, LspServerSpec};
use lspterm::proxy_client::ProxyClient;
use lspterm::proxy_server::{Connection, ConnectionAction, ConnectionEvent};
use lspterm::session::{greeting, initialize_request, initialized_notification, Greeting};

fn member(json: &Json, name: &str) -> Json {
    match json.member(name) {
        Member::Present(value) => value,
        other => panic!("no member {name}: {other:?}"),
    }
}

fn messages(stream: &[u8]) -> Vec<Json> {
    let mut found = Vec::new();
    let mut pos = 0;
    while let Some((message, next)) = recv_message(stream, pos).expect("frames") {
        found.push(message);
        pos = next;
    }
    found
}

/// A server that accepts `initialize` and answers any other request with
/// the name of its method.
fn fake_server(input: &[u8]) -> Vec<Vec<u8>> {
    let mut output = Vec::new();
    for message in messages(input) {
        let Member::Present(id) = message.member("id") else {
            continue;
        };
        let method = member(&message, "method").string().expect("a method");
        let result = if method == "initialize" {
            Json::parse("{}").expect("JSON")
        } else {
            let mut echo = Members::new();
            echo.add("echo", Json::from_string(&method));
            echo.finish()
        };
        output.push(send_response(&id, &Ok(result)));
    }
    output
}

fn written(action: Action) -> Vec<u8> {
    match action {
        Action::Write(bytes) => bytes,
        other => panic!("nothing written: {other:?}"),
    }
}

fn open_session() -> Broker {
    let spec = LspServerSpec { command: "fake".to_string(), args: Vec::new(), initialize_options: None };
    let folder = DocumentUri::from_path("/w".to_string());
    let answers = fake_server(&initialize_request(&folder, &spec));
    assert_eq!(answers.len(), 1);
    let answer = messages(&answers[0]).pop().expect("an answer");
    assert_eq!(greeting(&answer), Greeting::Accepted);
    assert!(fake_server(&initialized_notification()).is_empty());
    Broker::new()
}

fn client_request(id: &str, method: &str) -> Json {
    let mut client = Members::new();
    client.add("jsonrpc", Json::from_string("2.0"));
    client.add("id", Json::parse(id).expect("JSON"));
    client.add("method", Json::from_string(method));
    client.finish()
}

fn accept(broker: &mut Broker, server_input: &mut Vec<u8>, message: Json, reply_tx: u64) -> Connection {
    let (connection, action) = Connection::new().step(ConnectionEvent::Message { message, reply_tx });
    match action {
        ConnectionAction::ForwardAndWait(command) => server_input.extend(written(broker.handle(command))),
        other => panic!("not forwarded: {other:?}"),
    }
    connection
}

#[test]
fn two_clients_get_their_own_echo() {
    let mut broker = open_session();
    let mut server_input = Vec::new();
    let first = accept(&mut broker, &mut server_input, client_request("\"one\"", "ping"), 1);
    let second = accept(&mut broker, &mut server_input, client_request("2", "pong"), 2);
    let mut answers = fake_server(&server_input);
    assert_eq!(answers.len(), 2);
    answers.reverse();
    let mut connections = vec![(1u64, Some(first)), (2u64, Some(second))];
    let mut seen = Vec::new();
    for answer in answers {
        let message = messages(&answer).pop().expect("a message");
        let command = route(&message).expect("routed").expect("a response");
        let Action::Reply { reply_tx, result } = broker.handle(command) else {
            panic!("no reply");
        };
        let slot = connections.iter_mut().find(|(token, _)| *token == reply_tx).expect("a caller");
        let connection = slot.1.take().expect("still waiting");
        let (connection, action) = connection.step(ConnectionEvent::Reply { result });
        assert!(matches!(connection, Connection::Idle));
        let ConnectionAction::Respond(bytes) = action else {
            panic!("no response");
        };
        let response = messages(&bytes).pop().expect("a response");
        let echo = member(&member(&response, "result"), "echo").string().expect("an echo");
        seen.push((reply_tx, member(&response, "id").as_str().to_string(), echo));
    }
    seen.sort();
    assert_eq!(
        seen,
        vec![(1, "\"one\"".to_string(), "ping".to_string()), (2, "2".to_string(), "pong".to_string())]
    );
    assert_eq!(broker.pending_len(), 0);
}

#[test]
fn client_that_left_does_not_disturb_the_others() {
    let mut broker = open_session();
    let mut server_input = Vec::new();
    let gone = accept(&mut broker, &mut server_input, client_request("1", "slow"), 10);
    let stays = accept(&mut broker, &mut server_input, client_request("1", "quick"), 20);
    let (gone, action) = gone.step(ConnectionEvent::Lost);
    assert!(matches!(gone, Connection::Closed));
    assert!(matches!(action, ConnectionAction::Close));
    assert_eq!(broker.pending_len(), 2);
    let mut stays = Some(stays);
    for answer in fake_server(&server_input) {
        let message = messages(&answer).pop().expect("a message");
        let command = route(&message).expect("routed").expect("a response");
        match broker.handle(command) {
            Action::Reply { reply_tx: 10, .. } => {}
            Action::Reply { reply_tx: 20, result } => {
                let (_, action) = stays.take().expect("waiting").step(ConnectionEvent::Reply { result });
                let ConnectionAction::Respond(bytes) = action else {
                    panic!("no response");
                };
                let response = messages(&bytes).pop().expect("a response");
                assert_eq!(member(&member(&response, "result"), "echo").string(), Some("quick".to_string()));
            }
            other => panic!("unexpected {other:?}"),
        }
    }
    assert!(stays.is_none());
    assert_eq!(broker.pending_len(), 0);
    let next = accept(&mut broker, &mut server_input, client_request("2", "again"), 30);
    assert!(matches!(next, Connection::AwaitingReply { .. }));
    assert_eq!(broker.waiting_on(4), Some(30));
}

#[test]
fn every_waiting_client_is_released_when_the_server_ends() {
    let mut broker = open_session();
    let mut server_input = Vec::new();
    let mut waiting = Vec::new();
    for reply_tx in 0..5u64 {
        waiting.push((reply_tx, accept(&mut broker, &mut server_input, client_request("7", "m"), reply_tx)));
    }
    let Action::Stop { abandoned } = broker.handle(LspMessage::LspServerStdoutError) else {
        panic!("not stopped");
    };
    assert_eq!(abandoned, vec![0, 1, 2, 3, 4]);
    for (reply_tx, connection) in waiting {
        assert!(abandoned.contains(&reply_tx));
        let (connection, action) = connection.step(ConnectionEvent::Lost);
        assert!(matches!(connection, Connection::Closed));
        assert!(matches!(action, ConnectionAction::Close));
    }
    assert_eq!(broker.pending_len(), 0);
}

#[test]
fn server_request_is_answered_by_the_broker_itself() {
    let mut broker = open_session();
    let asked = Json::parse("{\"jsonrpc\":\"2.0\",\"id\":\"s-1\",\"method\":\"foo/bar\"}").expect("JSON");
    let command = route(&asked).expect("routed").expect("an answer");
    let answer = messages(&written(broker.handle(command))).pop().expect("an answer");
    assert_eq!(member(&answer, "id").as_str(), "\"s-1\"");
    assert_eq!(member(&member(&answer, "error"), "code").as_str(), "-32601");
    assert!(matches!(answer.member("result"), Member::Absent));
    let asked = Json::parse("{\"jsonrpc\":\"2.0\",\"id\":5,\"method\":\"window/workDoneProgress/create\"}").expect("JSON");
    let command = route(&asked).expect("routed").expect("an answer");
    let answer = messages(&written(broker.handle(command))).pop().expect("an answer");
    assert_eq!(member(&answer, "result").as_str(), "null");
    assert!(matches!(answer.member("error"), Member::Absent));
    assert_eq!(broker.pending_len(), 0);
    assert_eq!(broker.next_request_id(), 2);
}

#[test]
fn call_through_the_proxy() {
    let mut broker = open_session();
    let mut client = ProxyClient::new();
    let (request_id, bytes) = client.request("textDocument/hover", None).expect("a request");
    let message = messages(&bytes).pop().expect("a message");
    let mut server_input = Vec::new();
    let connection = accept(&mut broker, &mut server_input, message, 1);
    let answer = messages(&fake_server(&server_input)[0]).pop().expect("an answer");
    let Action::Reply { result, .. } = broker.handle(route(&answer).expect("routed").expect("a response")) else {
        panic!("no reply");
    };
    let (_, action) = connection.step(ConnectionEvent::Reply { result });
    let ConnectionAction::Respond(bytes) = action else {
        panic!("no response");
    };
    let response = messages(&bytes).pop().expect("a response");
    let result = ProxyClient::result_of(request_id, &response).expect("a result");
    assert_eq!(result.as_str(), "{\"echo\":\"textDocument/hover\"}");
}
