use lspterm::codec::{recv_frame, Received};
use lspterm::json::Json;
use lspterm::lsp_server::{
    reader_step, route, Action, Broker, LspMessage, Read, ReaderAction, RouteError,
    INITIALIZE_REQUEST_ID, SHUTDOWN_REQUEST_ID,
};

fn parsed(text: &str) -> Json {
    Json::parse(text).expect("valid JSON")
}

fn body_of(bytes: &[u8]) -> String {
    match recv_frame(bytes, 0) {
        Received::Frame { body, next } => {
            assert_eq!(next, bytes.len());
            String::from_utf8(body).expect("text")
        }
        other => panic!("no frame: {other:?}"),
    }
}

fn request(method: &str, reply_tx: u64) -> LspMessage {
    LspMessage::Request { method: method.to_string(), params: None, reply_tx }
}

fn written(action: Action) -> String {
    match action {
        Action::Write(bytes) => body_of(&bytes),
        other => panic!("nothing written: {other:?}"),
    }
}

#[test]
fn first_request_follows_the_reserved_identifiers() {
    let mut broker = Broker::new();
    assert_eq!(INITIALIZE_REQUEST_ID, 0);
    assert_eq!(SHUTDOWN_REQUEST_ID, 1);
    assert_eq!(broker.next_request_id(), 2);
    let text = written(broker.handle(request("ping", 5)));
    assert_eq!(text, "{\"jsonrpc\":\"2.0\",\"id\":2,\"method\":\"ping\",\"params\":null}");
    assert_eq!(broker.next_request_id(), 3);
    assert_eq!(broker.waiting_on(2), Some(5));
    assert_eq!(broker.pending_len(), 1);
}

#[test]
fn shutdown_goes_out_under_its_own_identifier() {
    for earlier in [0u64, 3] {
        let mut broker = Broker::new();
        for reply_tx in 0..earlier {
            written(broker.handle(request("m", reply_tx)));
        }
        let next = broker.next_request_id();
        let text = written(broker.handle(LspMessage::Shutdown { reply_tx: 77 }));
        assert_eq!(text, "{\"jsonrpc\":\"2.0\",\"id\":1,\"method\":\"shutdown\",\"params\":null}");
        assert_eq!(broker.next_request_id(), next);
        assert_eq!(broker.waiting_on(SHUTDOWN_REQUEST_ID), Some(77));
        assert!(matches!(
            broker.handle(LspMessage::Shutdown { reply_tx: 78 }),
            Action::Refuse { reply_tx: 78 }
        ));
        assert_eq!(broker.waiting_on(SHUTDOWN_REQUEST_ID), Some(77));
        assert!(matches!(
            broker.handle(LspMessage::ResponseFromLspServer { request_id: 1, result: Ok(Json::null()) }),
            Action::Reply { reply_tx: 77, .. }
        ));
        assert_eq!(broker.waiting_on(SHUTDOWN_REQUEST_ID), None);
        let text = written(broker.handle(request("later", 5)));
        assert!(text.starts_with(&format!("{{\"jsonrpc\":\"2.0\",\"id\":{next},")));
    }
}

#[test]
fn failed_write_hands_back_every_waiting_caller() {
    let mut broker = Broker::new();
    written(broker.handle(request("a", 10)));
    written(broker.handle(LspMessage::Shutdown { reply_tx: 20 }));
    written(broker.handle(request("b", 30)));
    match broker.handle(LspMessage::LspServerStdinError) {
        Action::Stop { abandoned } => assert_eq!(abandoned, vec![20, 10, 30]),
        other => panic!("not stopped: {other:?}"),
    }
    assert_eq!(broker.pending_len(), 0);
}

#[test]
fn reader_ends_on_the_end_of_the_stream_and_on_what_it_cannot_route() {
    assert!(matches!(reader_step(Read::End), ReaderAction::Stop));
    assert!(matches!(reader_step(Read::Failed), ReaderAction::Stop));
    assert!(matches!(reader_step(Read::Message(parsed("[1]"))), ReaderAction::Stop));
    assert!(matches!(reader_step(Read::Message(parsed("{\"id\":1}"))), ReaderAction::Stop));
    assert!(matches!(reader_step(Read::Message(parsed("{\"method\":\"n\"}"))), ReaderAction::Continue));
    assert!(matches!(
        reader_step(Read::Message(parsed("{\"id\":4,\"result\":null}"))),
        ReaderAction::Send(LspMessage::ResponseFromLspServer { request_id: 4, .. })
    ));
    assert!(matches!(
        reader_step(Read::Message(parsed("{\"id\":4,\"method\":\"foo/bar\"}"))),
        ReaderAction::Send(LspMessage::ResponseToLspServer { .. })
    ));
}

#[test]
fn requests_get_rising_identifiers_and_notifications_none() {
    let mut broker = Broker::new();
    let mut ids = Vec::new();
    for i in 0..20u64 {
        if i % 3 == 0 {
            let text = written(broker.handle(LspMessage::Notification {
                method: "note".to_string(),
                params: Some(parsed("[1]")),
            }));
            assert_eq!(text, "{\"jsonrpc\":\"2.0\",\"method\":\"note\",\"params\":[1]}");
        }
        let text = written(broker.handle(request("m", i)));
        let id = parsed(&text).member("id");
        match id {
            lspterm::json::Member::Present(id) => ids.push(id.number().expect("a number")),
            other => panic!("no id: {other:?}"),
        }
    }
    let expected: Vec<u32> = (2..=21).collect();
    assert_eq!(ids, expected);
    assert_eq!(broker.next_request_id(), 22);
    assert_eq!(broker.pending_len(), 20);
}

#[test]
fn request_carries_its_parameters() {
    let mut broker = Broker::new();
    let text = written(broker.handle(LspMessage::Request {
        method: "textDocument/hover".to_string(),
        params: Some(parsed("{ \"a\" : 1 }")),
        reply_tx: 0,
    }));
    assert_eq!(text, "{\"jsonrpc\":\"2.0\",\"id\":2,\"method\":\"textDocument/hover\",\"params\":{\"a\":1}}");
}

#[test]
fn replies_reach_their_own_callers_in_any_order() {
    let mut broker = Broker::new();
    written(broker.handle(request("a", 100)));
    written(broker.handle(request("b", 200)));
    match broker.handle(LspMessage::ResponseFromLspServer { request_id: 3, result: Ok(parsed("\"for b\"")) }) {
        Action::Reply { reply_tx, result } => {
            assert_eq!(reply_tx, 200);
            assert_eq!(result.expect("a result").as_str(), "\"for b\"");
        }
        other => panic!("no reply: {other:?}"),
    }
    assert_eq!(broker.waiting_on(2), Some(100));
    assert_eq!(broker.waiting_on(3), None);
    match broker.handle(LspMessage::ResponseFromLspServer { request_id: 2, result: Err(parsed("{\"code\":1}")) }) {
        Action::Reply { reply_tx, result } => {
            assert_eq!(reply_tx, 100);
            assert_eq!(result.expect_err("an error").as_str(), "{\"code\":1}");
        }
        other => panic!("no reply: {other:?}"),
    }
    assert_eq!(broker.pending_len(), 0);
    assert_eq!(broker.next_request_id(), 4);
}

#[test]
fn response_that_nobody_waits_for_is_dropped() {
    let mut broker = Broker::new();
    written(broker.handle(request("a", 1)));
    for request_id in [9u32, 0, 1, 3] {
        assert!(matches!(
            broker.handle(LspMessage::ResponseFromLspServer { request_id, result: Ok(Json::null()) }),
            Action::Nothing
        ));
    }
    assert_eq!(broker.pending_len(), 1);
    assert!(matches!(
        broker.handle(LspMessage::ResponseFromLspServer { request_id: 2, result: Ok(Json::null()) }),
        Action::Reply { reply_tx: 1, .. }
    ));
    assert!(matches!(
        broker.handle(LspMessage::ResponseFromLspServer { request_id: 2, result: Ok(Json::null()) }),
        Action::Nothing
    ));
}

#[test]
fn response_to_the_server_keeps_the_identifier_as_given() {
    let mut broker = Broker::new();
    let text = written(broker.handle(LspMessage::ResponseToLspServer {
        request_id: parsed("\"token-7\""),
        result: Ok(Json::null()),
    }));
    assert_eq!(text, "{\"jsonrpc\":\"2.0\",\"id\":\"token-7\",\"result\":null}");
    let text = written(broker.handle(LspMessage::ResponseToLspServer {
        request_id: parsed("12"),
        result: Err(parsed("{\"code\": -32601}")),
    }));
    assert_eq!(text, "{\"jsonrpc\":\"2.0\",\"id\":12,\"error\":{\"code\":-32601}}");
    assert_eq!(broker.next_request_id(), 2);
    assert_eq!(broker.pending_len(), 0);
}

#[test]
fn end_of_the_server_hands_back_every_waiting_caller() {
    let mut broker = Broker::new();
    for reply_tx in [10u64, 20, 30, 40, 50] {
        written(broker.handle(request("m", reply_tx)));
    }
    broker.handle(LspMessage::ResponseFromLspServer { request_id: 3, result: Ok(Json::null()) });
    broker.handle(LspMessage::ResponseFromLspServer { request_id: 5, result: Ok(Json::null()) });
    match broker.handle(LspMessage::LspServerStdoutError) {
        Action::Stop { abandoned } => assert_eq!(abandoned, vec![10, 30, 50]),
        other => panic!("not stopped: {other:?}"),
    }
    assert_eq!(broker.pending_len(), 0);
    assert_eq!(broker.next_request_id(), 7);
}

#[test]
fn end_of_the_server_with_nobody_waiting() {
    let mut broker = Broker::new();
    match broker.handle(LspMessage::LspServerStdoutError) {
        Action::Stop { abandoned } => assert!(abandoned.is_empty()),
        other => panic!("not stopped: {other:?}"),
    }
}

#[test]
fn route_ignores_a_notification() {
    assert!(matches!(route(&parsed("{\"jsonrpc\":\"2.0\",\"method\":\"window/logMessage\",\"params\":{}}")), Ok(None)));
    assert!(matches!(route(&parsed("{}")), Ok(None)));
}

#[test]
fn route_answers_an_unknown_request_with_method_not_found() {
    match route(&parsed("{\"jsonrpc\":\"2.0\",\"id\":\"x1\",\"method\":\"foo/bar\",\"params\":[]}")) {
        Ok(Some(LspMessage::ResponseToLspServer { request_id, result })) => {
            assert_eq!(request_id.as_str(), "\"x1\"");
            let error = result.expect_err("an error");
            assert_eq!(error.as_str(), "{\"code\":-32601,\"message\":\"method not found\"}");
        }
        other => panic!("unexpected {other:?}"),
    }
}

#[test]
fn route_acknowledges_a_progress_token() {
    match route(&parsed("{\"jsonrpc\":\"2.0\",\"id\":3,\"method\":\"window/workDoneProgress/create\",\"params\":{\"token\":\"t\"}}")) {
        Ok(Some(LspMessage::ResponseToLspServer { request_id, result })) => {
            assert_eq!(request_id.as_str(), "3");
            assert_eq!(result.expect("a result").as_str(), "null");
        }
        other => panic!("unexpected {other:?}"),
    }
}

#[test]
fn route_hands_a_response_to_the_writer() {
    match route(&parsed("{\"jsonrpc\":\"2.0\",\"id\":4,\"result\":{\"ok\": true}}")) {
        Ok(Some(LspMessage::ResponseFromLspServer { request_id, result })) => {
            assert_eq!(request_id, 4);
            assert_eq!(result.expect("a result").as_str(), "{\"ok\": true}");
        }
        other => panic!("unexpected {other:?}"),
    }
    match route(&parsed("{\"id\":5,\"error\":{\"code\":-1},\"result\":1}")) {
        Ok(Some(LspMessage::ResponseFromLspServer { request_id, result })) => {
            assert_eq!(request_id, 5);
            assert_eq!(result.expect_err("an error").as_str(), "{\"code\":-1}");
        }
        other => panic!("unexpected {other:?}"),
    }
}

#[test]
fn route_errors() {
    assert!(matches!(route(&parsed("[1]")), Err(RouteError::NotAnObject)));
    assert!(matches!(route(&parsed("{\"id\":1,\"method\":7}")), Err(RouteError::BadMethod)));
    assert!(matches!(route(&parsed("{\"id\":\"a\",\"result\":1}")), Err(RouteError::BadId)));
    assert!(matches!(route(&parsed("{\"id\":-1,\"result\":1}")), Err(RouteError::BadId)));
    assert!(matches!(route(&parsed("{\"id\":1}")), Err(RouteError::MissingResult)));
}
