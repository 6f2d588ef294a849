use lspterm::document::TextEdit;
use lspterm::json::{Json, JsonError};
use lspterm::lsp::{DocumentUri, Position, PositionRange};
use lspterm::lsp_client::{LspClient, LspServerSpec, ResponseError};
use lspterm::subcommand_act::{
    choose_action, code_action_params, disabled_reason, execute_index, needs_resolve, steps, Choice,
};
use lspterm::subcommand_completion::{completions, kind_name, CompletionItem, Completions};
use lspterm::subcommand_definition::{context_window, line_mark};
use lspterm::subcommand_hover::{hover, Hover};
use lspterm::subcommand_rename::{preview_line, rename_params};
use lspterm::target::TargetLocation;

fn parsed(text: &str) -> Json {
    Json::parse(text).expect("valid JSON")
}

fn range(start_line: usize, start_character: usize, end_line: usize, end_character: usize) -> PositionRange {
    PositionRange {
        start: Position { line: start_line, character: start_character },
        end: Position { line: end_line, character: end_character },
    }
}

#[test]
fn server_from_a_plain_command() {
    let spec = LspServerSpec::from_text("/usr/bin/rust-analyzer").expect("a server");
    assert_eq!(spec.command, "/usr/bin/rust-analyzer");
    assert!(spec.args.is_empty());
    let spec = LspServerSpec::from_text("").expect("a server");
    assert_eq!(spec.command, "");
}

#[test]
fn server_from_json_text() {
    let spec = LspServerSpec::from_text("{\"command\":\"ra\",\"args\":[\"-v\"]}").expect("a server");
    assert_eq!(spec.command, "ra");
    assert_eq!(spec.args, vec!["-v".to_string()]);
    assert_eq!(LspServerSpec::from_text("{\"command\":").unwrap_err(), JsonError::WrongKind);
    assert_eq!(LspServerSpec::from_text("{}").unwrap_err(), JsonError::Missing);
    assert_eq!(LspServerSpec::from_text("{\"command\":[]}").unwrap_err(), JsonError::WrongKind);
}

#[test]
fn lone_client_numbers_requests_from_zero() {
    let mut client = LspClient::new();
    let (id, bytes) = client.send_request("initialize", &parsed("{\"a\": 1}")).expect("a request");
    assert_eq!(id, 0);
    assert_eq!(
        bytes,
        b"Content-Length: 63\r\n\r\n{\"jsonrpc\":\"2.0\",\"id\":0,\"method\":\"initialize\",\"params\":{\"a\":1}}".to_vec()
    );
    let (id, _) = client.send_request("x", &parsed("{}")).expect("a request");
    assert_eq!(id, 1);
    assert_eq!(
        client.send_notification("initialized", &parsed("{}")),
        b"Content-Length: 52\r\n\r\n{\"jsonrpc\":\"2.0\",\"method\":\"initialized\",\"params\":{}}".to_vec()
    );
}

#[test]
fn lone_client_checks_the_response() {
    let ok = LspClient::parse_response(4, &parsed("{\"jsonrpc\":\"2.0\",\"id\":4,\"result\":[1]}")).expect("a result");
    assert_eq!(ok.as_str(), "[1]");
    let error = |text: &str| LspClient::parse_response(4, &parsed(text)).unwrap_err();
    assert_eq!(error("[]"), ResponseError::NotAnObject);
    assert_eq!(error("{\"id\":4,\"result\":1}"), ResponseError::UnsupportedVersion);
    assert_eq!(error("{\"jsonrpc\":\"2\",\"id\":4,\"result\":1}"), ResponseError::UnsupportedVersion);
    assert_eq!(error("{\"jsonrpc\":\"2.0\",\"result\":1}"), ResponseError::WrongId);
    assert_eq!(error("{\"jsonrpc\":\"2.0\",\"id\":5,\"result\":1}"), ResponseError::WrongId);
    assert_eq!(error("{\"jsonrpc\":\"2.0\",\"id\":\"4\",\"result\":1}"), ResponseError::WrongId);
    assert_eq!(error("{\"jsonrpc\":\"2.0\",\"id\":4,\"error\":{}}"), ResponseError::ErrorResponse);
    assert_eq!(error("{\"jsonrpc\":\"2.0\",\"id\":4}"), ResponseError::MissingResult);
}

#[test]
fn kinds_of_completion_items() {
    let names = [
        "Text", "Method", "Function", "Constructor", "Field", "Variable", "Class", "Interface", "Module",
        "Property", "Unit", "Value", "Enum", "Keyword", "Snippet", "Color", "File", "Reference", "Folder",
        "EnumMember", "Constant", "Struct", "Event", "Operator", "TypeParameter",
    ];
    for (i, name) in names.iter().enumerate() {
        assert_eq!(kind_name(i as u32 + 1), *name);
    }
    assert_eq!(kind_name(0), "Unknown");
    assert_eq!(kind_name(26), "Unknown");
    assert_eq!(kind_name(u32::MAX), "Unknown");
}

#[test]
fn completion_items_from_json() {
    let item = CompletionItem::from_json(&parsed("{\"label\":\"push\",\"kind\":2,\"detail\":\"fn(&mut self, T)\"}")).expect("an item");
    assert_eq!(item.label, "push");
    assert_eq!(item.kind, Some(2));
    assert_eq!(item.detail.as_deref(), Some("fn(&mut self, T)"));
    let item = CompletionItem::from_json(&parsed("{\"label\":\"x\"}")).expect("an item");
    assert_eq!((item.kind, item.detail), (None, None));
    assert!(CompletionItem::from_json(&parsed("{\"kind\":2}")).is_none());
    assert!(CompletionItem::from_json(&parsed("{\"label\":1}")).is_none());
    assert!(CompletionItem::from_json(&parsed("{\"label\":\"x\",\"kind\":\"2\"}")).is_none());
    assert!(CompletionItem::from_json(&parsed("{\"label\":\"x\",\"detail\":2}")).is_none());
}

#[test]
fn completion_results() {
    assert!(matches!(completions(&parsed("null")), Completions::Nothing));
    match completions(&parsed("{\"isIncomplete\":false,\"items\":[{\"label\":\"a\"},{\"label\":\"b\"}]}")) {
        Completions::Items(items) => assert_eq!(items.len(), 2),
        other => panic!("unexpected {other:?}"),
    }
    assert!(matches!(completions(&parsed("{\"items\":[]}")), Completions::Items(items) if items.is_empty()));
    assert!(matches!(completions(&parsed("{}")), Completions::Malformed));
    assert!(matches!(completions(&parsed("{\"items\":{}}")), Completions::Malformed));
    assert!(matches!(completions(&parsed("[]")), Completions::Malformed));
}

#[test]
fn definition_context() {
    assert_eq!(context_window(range(10, 0, 10, 5), 5, 100), (5, 16));
    assert_eq!(context_window(range(2, 0, 3, 5), 5, 100), (0, 9));
    assert_eq!(context_window(range(98, 0, 98, 5), 5, 100), (93, 100));
    assert_eq!(context_window(range(0, 0, 0, 0), 1, 0), (0, 0));
    assert_eq!(context_window(range(200, 0, 200, 0), 5, 100), (195, 100));
    assert_eq!(context_window(range(1, 0, usize::MAX, 0), usize::MAX, 10), (0, 10));
    assert_eq!(line_mark(range(10, 0, 11, 0), 10), '>');
    assert_eq!(line_mark(range(10, 0, 11, 0), 11), ' ');
}

#[test]
fn code_action_request() {
    let file = DocumentUri::from_path("/w/a.rs".to_string());
    assert_eq!(
        code_action_params(&file, range(1, 2, 3, 4)).as_str(),
        "{\"textDocument\":{\"uri\":\"file:///w/a.rs\"},\"range\":{\"start\":{\"line\":1,\"character\":2},\"end\":{\"line\":3,\"character\":4}},\"context\":{\"diagnostics\":[]}}"
    );
}

#[test]
fn code_action_choice() {
    assert_eq!(execute_index(1), 0);
    assert_eq!(execute_index(5), 4);
    assert_eq!(execute_index(0), 0);
    assert_eq!(choose_action(0, 3), Choice::Action(0));
    assert_eq!(choose_action(2, 3), Choice::Action(2));
    assert_eq!(choose_action(3, 3), Choice::OutOfRange);
    assert_eq!(choose_action(0, 0), Choice::OutOfRange);
}

#[test]
fn code_action_parts() {
    let action = parsed("{\"title\":\"t\",\"disabled\":{\"reason\":\"busy\"},\"data\":1,\"edit\":{\"documentChanges\":[]},\"command\":{\"command\":\"c\"}}");
    assert_eq!(disabled_reason(&action).expect("a reason").as_str(), "\"busy\"");
    assert!(needs_resolve(&action));
    let parts = steps(&action);
    assert_eq!(parts.edit.expect("an edit").as_str(), "{\"documentChanges\":[]}");
    assert_eq!(parts.command.expect("a command").as_str(), "{\"command\":\"c\"}");
    let plain = parsed("{\"title\":\"t\",\"disabled\":{}}");
    assert!(disabled_reason(&plain).is_none());
    assert!(!needs_resolve(&plain));
    let parts = steps(&plain);
    assert!(parts.edit.is_none() && parts.command.is_none());
    assert!(disabled_reason(&parsed("[]")).is_none());
}

#[test]
fn hover_results() {
    assert!(matches!(hover(&parsed("null")), Hover::NotFound));
    match hover(&parsed("{\"contents\":{\"kind\":\"markdown\",\"value\":\"# doc\"},\"range\":{\"start\":{\"line\":1,\"character\":2},\"end\":{\"line\":1,\"character\":6}}}")) {
        Hover::Found { range: found, description } => {
            assert_eq!(found, range(1, 2, 1, 6));
            assert_eq!(description, "# doc");
        }
        other => panic!("unexpected {other:?}"),
    }
    assert!(matches!(hover(&parsed("{\"contents\":{\"value\":\"x\"}}")), Hover::Malformed));
    assert!(matches!(hover(&parsed("{\"contents\":\"x\",\"range\":{\"start\":{\"line\":1,\"character\":2},\"end\":{\"line\":1,\"character\":6}}}")), Hover::Malformed));
    assert!(matches!(hover(&parsed("[]")), Hover::Malformed));
}

#[test]
fn rename_request_and_preview() {
    let target = TargetLocation { file: DocumentUri::from_path("/w/a.rs".to_string()), line: 3, character: 7 };
    assert_eq!(
        rename_params(&target, "fresh").as_str(),
        "{\"textDocument\":{\"uri\":\"file:///w/a.rs\"},\"position\":{\"line\":2,\"character\":6},\"newName\":\"fresh\"}"
    );
    let line: Vec<char> = "let old = 1;".chars().collect();
    let preview = |start: usize, end: usize, text: &str| -> String {
        let edit = TextEdit { range: range(0, start, 0, end), new_text: text.to_string() };
        preview_line(&line, &edit).into_iter().collect()
    };
    assert_eq!(preview(4, 7, "fresh"), "let fresh = 1;");
    assert_eq!(preview(0, 0, ">"), ">let old = 1;");
    assert_eq!(preview(12, 12, "!"), "let old = 1;!");
    assert_eq!(preview(40, 50, "!"), "let old = 1;!");
    assert_eq!(preview(4, 40, "x"), "let x");
    assert_eq!(preview(7, 4, "-"), "let old-old = 1;");
}
