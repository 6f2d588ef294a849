use lspterm::json::Json;
use lspterm::lsp_server::LspMessage;
use lspterm::proxy_client::{CallError, ProxyClient};
use lspterm::proxy_server::{
    forward, Connection, ConnectionAction, ConnectionEvent, ProxyError, DEFAULT_PORT,
};

fn parsed(text: &str) -> Json {
    Json::parse(text).expect("valid JSON")
}

#[test]
fn default_port() {
    assert_eq!(DEFAULT_PORT, 9257);
}

#[test]
fn forward_turns_a_message_with_id_into_a_request() {
    let forwarded = forward(&parsed("{\"jsonrpc\":\"2.0\",\"id\":\"x-1\",\"method\":\"ping\",\"params\":{\"a\":1}}"), 4).expect("forwarded");
    assert_eq!(forwarded.id.expect("an id").as_str(), "\"x-1\"");
    match forwarded.message {
        LspMessage::Request { method, params, reply_tx } => {
            assert_eq!(method, "ping");
            assert_eq!(params.expect("params").as_str(), "{\"a\":1}");
            assert_eq!(reply_tx, 4);
        }
        other => panic!("unexpected {other:?}"),
    }
}

#[test]
fn forward_turns_a_message_without_id_into_a_notification() {
    let forwarded = forward(&parsed("{\"method\":\"textDocument/didOpen\"}"), 4).expect("forwarded");
    assert!(forwarded.id.is_none());
    match forwarded.message {
        LspMessage::Notification { method, params } => {
            assert_eq!(method, "textDocument/didOpen");
            assert!(params.is_none());
        }
        other => panic!("unexpected {other:?}"),
    }
}

#[test]
fn forward_errors() {
    assert_eq!(forward(&parsed("[]"), 0).unwrap_err(), ProxyError::NotAnObject);
    assert_eq!(forward(&parsed("{\"id\":1}"), 0).unwrap_err(), ProxyError::MissingMethod);
    assert_eq!(forward(&parsed("{\"id\":1,\"method\":1}"), 0).unwrap_err(), ProxyError::BadMethod);
}

#[test]
fn connection_forwards_a_notification_and_stays_idle() {
    let connection = Connection::new();
    let (connection, action) = connection.step(ConnectionEvent::Message { message: parsed("{\"method\":\"n\"}"), reply_tx: 1 });
    assert!(matches!(connection, Connection::Idle));
    assert!(matches!(action, ConnectionAction::Forward(LspMessage::Notification { .. })));
}

#[test]
fn connection_answers_under_the_id_of_the_client() {
    let connection = Connection::new();
    let (connection, action) = connection.step(ConnectionEvent::Message {
        message: parsed("{\"id\":\"seven\",\"method\":\"ping\"}"),
        reply_tx: 9,
    });
    assert!(matches!(connection, Connection::AwaitingReply { .. }));
    assert!(matches!(action, ConnectionAction::ForwardAndWait(LspMessage::Request { reply_tx: 9, .. })));
    let (connection, action) = connection.step(ConnectionEvent::Reply { result: Ok(parsed("{\"echo\":\"ping\"}")) });
    assert!(matches!(connection, Connection::Idle));
    match action {
        ConnectionAction::Respond(bytes) => assert_eq!(
            bytes,
            b"Content-Length: 55\r\n\r\n{\"jsonrpc\":\"2.0\",\"id\":\"seven\",\"result\":{\"echo\":\"ping\"}}".to_vec()
        ),
        other => panic!("unexpected {other:?}"),
    }
}

#[test]
fn connection_passes_an_error_of_the_server_on() {
    let (connection, _) = Connection::new().step(ConnectionEvent::Message { message: parsed("{\"id\":1,\"method\":\"m\"}"), reply_tx: 0 });
    let (_, action) = connection.step(ConnectionEvent::Reply { result: Err(parsed("{\"code\":-32601}")) });
    match action {
        ConnectionAction::Respond(bytes) => assert_eq!(
            bytes,
            b"Content-Length: 48\r\n\r\n{\"jsonrpc\":\"2.0\",\"id\":1,\"error\":{\"code\":-32601}}".to_vec()
        ),
        other => panic!("unexpected {other:?}"),
    }
}

#[test]
fn connection_closes_on_loss_and_on_a_bad_message() {
    let (connection, action) = Connection::new().step(ConnectionEvent::Lost);
    assert!(matches!(connection, Connection::Closed));
    assert!(matches!(action, ConnectionAction::Close));
    let (connection, action) = Connection::new().step(ConnectionEvent::Message { message: parsed("{}"), reply_tx: 0 });
    assert!(matches!(connection, Connection::Closed));
    assert!(matches!(action, ConnectionAction::Reject(ProxyError::MissingMethod)));
    let (connection, _) = Connection::new().step(ConnectionEvent::Message { message: parsed("{\"id\":1,\"method\":\"m\"}"), reply_tx: 0 });
    let (connection, action) = connection.step(ConnectionEvent::Lost);
    assert!(matches!(connection, Connection::Closed));
    assert!(matches!(action, ConnectionAction::Close));
    let (connection, action) = connection.step(ConnectionEvent::Message { message: parsed("{\"method\":\"m\"}"), reply_tx: 0 });
    assert!(matches!(connection, Connection::Closed));
    assert!(matches!(action, ConnectionAction::Nothing));
}

#[test]
fn connection_ignores_events_that_do_not_belong_to_its_state() {
    let (connection, action) = Connection::new().step(ConnectionEvent::Reply { result: Ok(Json::null()) });
    assert!(matches!(connection, Connection::Idle));
    assert!(matches!(action, ConnectionAction::Nothing));
    let (connection, _) = connection.step(ConnectionEvent::Message { message: parsed("{\"id\":1,\"method\":\"m\"}"), reply_tx: 0 });
    let (connection, action) = connection.step(ConnectionEvent::Message { message: parsed("{\"id\":2,\"method\":\"m\"}"), reply_tx: 0 });
    assert!(matches!(action, ConnectionAction::Nothing));
    match connection {
        Connection::AwaitingReply { id } => assert_eq!(id.as_str(), "1"),
        other => panic!("unexpected {other:?}"),
    }
}

#[test]
fn client_numbers_requests_from_zero() {
    let mut client = ProxyClient::new();
    let (id, bytes) = client.request("textDocument/hover", None).expect("a request");
    assert_eq!(id, 0);
    assert_eq!(bytes, b"Content-Length: 68\r\n\r\n{\"jsonrpc\":\"2.0\",\"id\":0,\"method\":\"textDocument/hover\",\"params\":null}".to_vec());
    let (id, _) = client.request("m", Some(&parsed("{}"))).expect("a request");
    assert_eq!(id, 1);
    assert_eq!(client.cast("n", None), b"Content-Length: 44\r\n\r\n{\"jsonrpc\":\"2.0\",\"method\":\"n\",\"params\":null}".to_vec());
    let (id, _) = client.request("m", None).expect("a request");
    assert_eq!(id, 2);
}

#[test]
fn client_takes_the_result_of_its_own_request() {
    let result = ProxyClient::result_of(3, &parsed("{\"jsonrpc\":\"2.0\",\"id\":3,\"result\":{\"a\":[1]}}")).expect("a result");
    assert_eq!(result.as_str(), "{\"a\":[1]}");
    assert_eq!(ProxyClient::result_of(0, &parsed("{\"id\":0,\"result\":null}")).expect("a result").as_str(), "null");
}

#[test]
fn client_errors() {
    assert!(matches!(ProxyClient::result_of(3, &parsed("[]")), Err(CallError::NotAnObject)));
    assert!(matches!(ProxyClient::result_of(3, &parsed("{\"result\":1}")), Err(CallError::MissingId)));
    assert!(matches!(ProxyClient::result_of(3, &parsed("{\"id\":\"3\",\"result\":1}")), Err(CallError::BadId)));
    assert!(matches!(
        ProxyClient::result_of(3, &parsed("{\"id\":4,\"result\":1}")),
        Err(CallError::IdMismatch { expected: 3, found: 4 })
    ));
    match ProxyClient::result_of(3, &parsed("{\"id\":3,\"error\":{\"code\":-32601},\"result\":1}")) {
        Err(CallError::Server(error)) => assert_eq!(error.as_str(), "{\"code\":-32601}"),
        other => panic!("unexpected {other:?}"),
    }
    assert!(matches!(ProxyClient::result_of(3, &parsed("{\"id\":3}")), Err(CallError::MissingResult)));
}
