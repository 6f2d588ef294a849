use lspterm::app::{key_action, render_tabs, KeyAction, Tab};
use lspterm::json::Json;
use lspterm::lsp::DocumentUri;
use lspterm::lsp_messages::InitializeRequest as NumberedInitializeRequest;
use lspterm::mame::{width_or_zero, UnicodeCharWidthEstimator};
use lspterm::state::State;
use lspterm::subcommand_find_def::{DefinitionRequest, DefinitionResponse};
use lspterm::subcommand_initialize::{InitializeRequest, InitializeResponse};
use lspterm::target::{parse_target, TargetError, TargetLocation};

#[test]
fn tab_names_and_order() {
    assert_eq!(Tab::Main.name(), "Main");
    assert_eq!(Tab::Console.name(), "Console");
    assert_eq!(Tab::Trace.name(), "Trace");
    assert_eq!(Tab::all(), [Tab::Main, Tab::Console, Tab::Trace]);
}

#[test]
fn tab_key_goes_round() {
    assert_eq!(Tab::Main.next(), Tab::Console);
    assert_eq!(Tab::Console.next(), Tab::Trace);
    assert_eq!(Tab::Trace.next(), Tab::Main);
}

#[test]
fn keys() {
    assert_eq!(key_action(Tab::Main, Some('q'), false), KeyAction::Quit);
    assert_eq!(key_action(Tab::Trace, Some('1'), false), KeyAction::Show(Tab::Main));
    assert_eq!(key_action(Tab::Main, Some('2'), false), KeyAction::Show(Tab::Console));
    assert_eq!(key_action(Tab::Main, Some('3'), false), KeyAction::Show(Tab::Trace));
    assert_eq!(key_action(Tab::Console, None, true), KeyAction::Show(Tab::Trace));
    assert_eq!(key_action(Tab::Main, Some('x'), false), KeyAction::Ignore);
    assert_eq!(key_action(Tab::Main, None, false), KeyAction::Ignore);
}

#[test]
fn tab_line_brackets_the_active_tab() {
    assert_eq!(render_tabs(Tab::Main), "[Main]  Console   Trace ");
    assert_eq!(render_tabs(Tab::Console), " Main  [Console]  Trace ");
    assert_eq!(render_tabs(Tab::Trace), " Main   Console  [Trace]");
}

#[test]
fn state_starts_with_an_empty_log() {
    let mut state = State::new();
    assert!(state.console_log.is_empty());
    assert_eq!(state.tail_start(10), 0);
    for i in 0..12 {
        state.log(format!("line {i}"));
    }
    assert_eq!(state.console_log.len(), 12);
    assert_eq!(state.console_log[11], "line 11");
    assert_eq!(state.tail_start(10), 2);
    assert_eq!(state.tail_start(12), 0);
}

#[test]
fn character_widths() {
    let estimator = UnicodeCharWidthEstimator;
    assert_eq!(estimator.estimate_char_width('a'), 1);
    assert_eq!(estimator.estimate_char_width('\u{3042}'), 2);
    assert_eq!(estimator.estimate_char_width('\u{0301}'), 0);
    assert_eq!(estimator.estimate_char_width('\u{7}'), 0);
    assert_eq!(width_or_zero(Some(2)), 2);
    assert_eq!(width_or_zero(None), 0);
}

#[test]
fn target_with_all_parts() {
    let parts = parse_target("src/main.rs:12:5").expect("a target");
    assert_eq!(parts.file, "src/main.rs");
    assert_eq!(parts.line, 12);
    assert_eq!(parts.character, 5);
}

#[test]
fn target_parts_default_to_one() {
    let parts = parse_target("src/main.rs").expect("a target");
    assert_eq!((parts.file.as_str(), parts.line, parts.character), ("src/main.rs", 1, 1));
    let parts = parse_target("a.rs:7").expect("a target");
    assert_eq!((parts.file.as_str(), parts.line, parts.character), ("a.rs", 7, 1));
    let parts = parse_target("").expect("a target");
    assert_eq!((parts.file.as_str(), parts.line, parts.character), ("", 1, 1));
    let parts = parse_target("\u{e9}.rs:+3:+4").expect("a target");
    assert_eq!((parts.file.as_str(), parts.line, parts.character), ("\u{e9}.rs", 3, 4));
}

#[test]
fn target_errors() {
    assert_eq!(parse_target("a.rs:0").unwrap_err(), TargetError::InvalidLine);
    assert_eq!(parse_target("a.rs:").unwrap_err(), TargetError::InvalidLine);
    assert_eq!(parse_target("a.rs:x:1").unwrap_err(), TargetError::InvalidLine);
    assert_eq!(parse_target("a.rs:1:0").unwrap_err(), TargetError::InvalidColumn);
    assert_eq!(parse_target("a.rs:1:").unwrap_err(), TargetError::InvalidColumn);
    assert_eq!(parse_target("a.rs:1:2:3").unwrap_err(), TargetError::InvalidColumn);
    assert_eq!(parse_target("a.rs:-1").unwrap_err(), TargetError::InvalidLine);
}

#[test]
fn target_counts_from_zero_in_requests() {
    let target = TargetLocation { file: DocumentUri::from_path("/w/a.rs".to_string()), line: 12, character: 1 };
    let mut members = lspterm::json::Members::new();
    target.fmt_json_object(&mut members);
    members.add("newName", Json::from_string("fresh"));
    assert_eq!(
        members.finish().as_str(),
        "{\"textDocument\":{\"uri\":\"file:///w/a.rs\"},\"position\":{\"line\":11,\"character\":0},\"newName\":\"fresh\"}"
    );
}

#[test]
fn initialize_request_of_a_lone_client() {
    let request = InitializeRequest::new("/w".to_string());
    assert_eq!(request.workspace_folder, "/w");
    assert_eq!(request.method(), "initialize");
    assert_eq!(
        request.params().as_str(),
        "{\"clientInfo\":{\"name\":\"lspterm\",\"version\":\"0.1.0\"},\"workspaceFolders\":[{\"uri\":\"file:///w\",\"name\":\"main\"}],\"capabilities\":{\"textDocument\":{\"definition\":{\"linkSupport\":true}},\"general\":{\"positionEncodings\":[\"utf-8\"]}}}"
    );
    let response = InitializeResponse::from_result_value(Json::parse("{\"capabilities\":{}}").expect("JSON"));
    assert_eq!(response.value().as_str(), "{\"capabilities\":{}}");
    let numbered = NumberedInitializeRequest { id: 4, workspace_folder: "/w".to_string() };
    assert_eq!(numbered.id, 4);
    assert_eq!(
        numbered.to_json().as_str(),
        "{\"jsonrpc\":\"2\",\"id\":4,\"method\":\"initialize\",\"params\":{\"client_info\":{\"name\":\"lspterm\",\"version\":\"0.1.0\"},\"workspace_folders\":[{\"uri\":\"/w\",\"name\":\"main\"}],\"capabilities\":null}}"
    );
    let big = NumberedInitializeRequest { id: u64::MAX, workspace_folder: String::new() };
    assert!(big.to_json().as_str().contains("\"id\":18446744073709551615,"));
}

#[test]
fn definition_request() {
    let request = DefinitionRequest::new("/w/a.rs".to_string(), 3, 9);
    assert_eq!(request.method(), "textDocument/definition");
    assert_eq!(
        request.params().as_str(),
        "{\"textDocument\":{\"uri\":\"file:///w/a.rs\"},\"position\":{\"line\":3,\"character\":9}}"
    );
    let response = DefinitionResponse::from_result_value(Json::parse("[]").expect("JSON"));
    assert_eq!(response.value().as_str(), "[]");
}
