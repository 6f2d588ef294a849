//! The request for the definition of the symbol at a place.

use vstd::prelude::*;
use crate::decimal::decimal;
use crate::json::{ascii_text, json_object_text, json_quoted, Json, Members};
use crate::lsp::file_scheme;

verus! {

/// Asks where the symbol at `line`, `character` of `file` is defined. Lines
/// and characters are counted from 0.
#[derive(Debug)]
pub struct DefinitionRequest {
    pub file: String,
    pub line: u32,
    pub character: u32,
}

/// What the server answered, as it wrote it.
#[derive(Debug)]
pub struct DefinitionResponse {
    value: Json,
}

/// The parameters of the request.
pub open spec fn definition_params_text(file: Seq<char>, line: u32, character: u32) -> Seq<char> {
    json_object_text(
        seq!["textDocument"@, "position"@],
        seq![
            json_object_text(seq!["uri"@], seq![json_quoted(file_scheme() + file)]),
            json_object_text(
                seq!["line"@, "character"@],
                seq![ascii_text(decimal(line as nat)), ascii_text(decimal(character as nat))],
            ),
        ],
    )
}

impl DefinitionRequest {
    /// The request for the place `line`, `character` in `file`.
    pub fn new(file: String, line: u32, character: u32) -> (request: DefinitionRequest)
        ensures
            request.file == file,
            request.line == line,
            request.character == character,
    {
        DefinitionRequest { file, line, character }
    }

    /// The method of the request.
    pub fn method(&self) -> (method: &'static str)
        ensures
            method@ == "textDocument/definition"@,
    {
        "textDocument/definition"
    }

    /// The parameters: the document by its URI, and the place in it.
    pub fn params(&self) -> (out: Json)
        ensures
            out@ == definition_params_text(self.file@, self.line, self.character),
    {
        let mut uri = String::new();
        vstd::string::StringExecFns::append(&mut uri, "file://");
        vstd::string::StringExecFns::append(&mut uri, self.file.as_str());
        let mut document = Members::new();
        document.add("uri", Json::from_string(uri.as_str()));
        let mut position = Members::new();
        position.add("line", Json::from_size(self.line as usize));
        position.add("character", Json::from_size(self.character as usize));
        let first = document.finish();
        let second = position.finish();
        let ghost a = first@;
        let ghost b = second@;
        let mut members = Members::new();
        members.add("textDocument", first);
        members.add("position", second);
        proof {
            assert(uri@ =~= file_scheme() + self.file@);
            assert(document.names() =~= seq!["uri"@]);
            assert(document.values() =~= seq![json_quoted(file_scheme() + self.file@)]);
            assert(position.names() =~= seq!["line"@, "character"@]);
            assert(position.values() =~= seq![
                ascii_text(decimal(self.line as nat)),
                ascii_text(decimal(self.character as nat)),
            ]);
            assert(members.names() =~= seq!["textDocument"@, "position"@]);
            assert(members.values() =~= seq![a, b]);
        }
        members.finish()
    }
}

impl View for DefinitionResponse {
    type V = Seq<char>;

    closed spec fn view(&self) -> Seq<char> {
        self.value@
    }
}

impl DefinitionResponse {
    /// Keeps the result of the request as it came.
    pub fn from_result_value(value: Json) -> (response: DefinitionResponse)
        ensures
            response@ == value@,
    {
        DefinitionResponse { value }
    }

    /// The result.
    pub fn value(&self) -> (value: &Json)
        ensures
            value@ == self@,
    {
        &self.value
    }
}

} // verus!
