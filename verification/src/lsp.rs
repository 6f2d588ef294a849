//! JSON-RPC messages on the wire, and the positions and documents that the
//! language server speaks of.

use vstd::prelude::*;
use vstd::string::{StringExecFns, StrSliceExecFns, StringSliceAdditionalSpecFns};
use vstd::utf8::{
    decode_utf8, encode_utf8, encode_utf8_decode_utf8, encode_utf8_valid_utf8, is_char_boundary,
    is_char_boundary_iff_not_is_continuation_byte, is_char_boundary_start_end_of_seq,
    is_continuation_byte, length_of_first_scalar, pop_first_scalar, valid_utf8, valid_utf8_split,
};
use crate::codec::{
    frame, frame_of, lemma_frame_round_trip, line_end, recv_frame, space_end, spec_recv, trim_end,
    FrameError, Reading, Received,
};
use crate::decimal::decimal;
use crate::json::{
    ascii_text, integer_text, json_compact, json_member, json_object_text, json_quoted, json_string_content,
    json_usize_value, json_valid, names_of, required_member, texts, Json, JsonError, Member,
};

verus! {

/// Why the bytes of a stream hold no message.
#[derive(Debug, Clone, Copy, PartialEq, Eq, Structural)]
pub enum RecvError {
    /// The framing is broken.
    Frame(FrameError),
    /// The body is not UTF-8 text.
    BodyNotText,
    /// The body is not JSON.
    BodyNotJson,
    /// The body is JSON, but no object.
    NotAnObject,
    /// The `jsonrpc` member is there and is not the string `2.0`.
    UnsupportedVersion,
}

/// What is written for a value that was read: the value without white space
/// between its parts.
pub open spec fn written(value: Seq<char>) -> Seq<char> {
    json_compact(value)
}

/// The text of a request: `jsonrpc`, `id`, `method` and `params`, where absent
/// parameters are written as `null`.
pub open spec fn request_text(id: u32, method: Seq<char>, params: Option<Seq<char>>) -> Seq<char> {
    json_object_text(
        seq!["jsonrpc"@, "id"@, "method"@, "params"@],
        seq![
            json_quoted("2.0"@),
            integer_text(id as int),
            json_quoted(method),
            match params {
                Some(p) => written(p),
                None => "null"@,
            },
        ],
    )
}

/// The text of a notification: `jsonrpc`, `method` and `params`, where absent
/// parameters are written as `null`.
pub open spec fn notification_text(method: Seq<char>, params: Option<Seq<char>>) -> Seq<char> {
    json_object_text(
        seq!["jsonrpc"@, "method"@, "params"@],
        seq![
            json_quoted("2.0"@),
            json_quoted(method),
            match params {
                Some(p) => written(p),
                None => "null"@,
            },
        ],
    )
}

/// The text of a response: `jsonrpc`, the `id` as it was received, and either
/// `result` or `error`.
pub open spec fn response_text(id: Seq<char>, result: Result<Seq<char>, Seq<char>>) -> Seq<char> {
    match result {
        Ok(value) => json_object_text(
            seq!["jsonrpc"@, "id"@, "result"@],
            seq![json_quoted("2.0"@), written(id), written(value)],
        ),
        Err(value) => json_object_text(
            seq!["jsonrpc"@, "id"@, "error"@],
            seq![json_quoted("2.0"@), written(id), written(value)],
        ),
    }
}

/// The frame that carries the text `content`.
pub open spec fn wire(content: Seq<char>) -> Seq<u8> {
    frame_of(encode_utf8(content))
}

/// The texts of a result, whichever side it is on.
pub open spec fn result_texts(result: Result<Json, Json>) -> Result<Seq<char>, Seq<char>> {
    match result {
        Ok(value) => Ok(value@),
        Err(value) => Err(value@),
    }
}

/// The text of optional parameters.
pub open spec fn params_text(params: Option<Json>) -> Option<Seq<char>> {
    match params {
        Some(p) => Some(p@),
        None => None,
    }
}

fn params_or_null(params: Option<&Json>) -> (out: Json)
    ensures
        out@ == match params {
            Some(p) => written(p@),
            None => "null"@,
        },
{
    match params {
        Some(p) => p.compact(),
        None => Json::null(),
    }
}

/// The content of a request.
pub fn request_content(request_id: u32, method: &str, params: Option<&Json>) -> (content: Json)
    ensures
        content@ == request_text(
            request_id,
            method@,
            match params {
                Some(p) => Some(p@),
                None => None,
            },
        ),
{
    let mut names: Vec<String> = Vec::new();
    let mut values: Vec<Json> = Vec::new();
    names.push(String::from_str("jsonrpc"));
    values.push(Json::from_string("2.0"));
    names.push(String::from_str("id"));
    values.push(Json::from_number(request_id as i64));
    names.push(String::from_str("method"));
    values.push(Json::from_string(method));
    names.push(String::from_str("params"));
    values.push(params_or_null(params));
    proof {
        assert(names_of(names@) =~= seq!["jsonrpc"@, "id"@, "method"@, "params"@]);
        let given: Option<Seq<char>> = match params {
            Some(p) => Some(p@),
            None => None,
        };
        assert(texts(values@) =~= seq![
            json_quoted("2.0"@),
            integer_text(request_id as int),
            json_quoted(method@),
            match given {
                Some(p) => written(p),
                None => "null"@,
            },
        ]);
    }
    Json::object(&names, &values)
}

/// The content of a notification.
pub fn notification_content(method: &str, params: Option<&Json>) -> (content: Json)
    ensures
        content@ == notification_text(
            method@,
            match params {
                Some(p) => Some(p@),
                None => None,
            },
        ),
{
    let mut names: Vec<String> = Vec::new();
    let mut values: Vec<Json> = Vec::new();
    names.push(String::from_str("jsonrpc"));
    values.push(Json::from_string("2.0"));
    names.push(String::from_str("method"));
    values.push(Json::from_string(method));
    names.push(String::from_str("params"));
    values.push(params_or_null(params));
    proof {
        assert(names_of(names@) =~= seq!["jsonrpc"@, "method"@, "params"@]);
        let given: Option<Seq<char>> = match params {
            Some(p) => Some(p@),
            None => None,
        };
        assert(texts(values@) =~= seq![
            json_quoted("2.0"@),
            json_quoted(method@),
            match given {
                Some(p) => written(p),
                None => "null"@,
            },
        ]);
    }
    Json::object(&names, &values)
}

/// The content of a response to the request `request_id`.
pub fn response_content(request_id: &Json, result: &Result<Json, Json>) -> (content: Json)
    ensures
        content@ == response_text(request_id@, result_texts(*result)),
{
    let mut names: Vec<String> = Vec::new();
    let mut values: Vec<Json> = Vec::new();
    names.push(String::from_str("jsonrpc"));
    values.push(Json::from_string("2.0"));
    names.push(String::from_str("id"));
    values.push(request_id.compact());
    match result {
        Ok(value) => {
            names.push(String::from_str("result"));
            values.push(value.compact());
            proof {
                assert(names_of(names@) =~= seq!["jsonrpc"@, "id"@, "result"@]);
                assert(texts(values@) =~= seq![
                    json_quoted("2.0"@),
                    written(request_id@),
                    written(value@),
                ]);
            }
        },
        Err(value) => {
            names.push(String::from_str("error"));
            values.push(value.compact());
            proof {
                assert(names_of(names@) =~= seq!["jsonrpc"@, "id"@, "error"@]);
                assert(texts(values@) =~= seq![
                    json_quoted("2.0"@),
                    written(request_id@),
                    written(value@),
                ]);
            }
        },
    }
    Json::object(&names, &values)
}

/// The frame that carries `content`.
pub fn frame_content(content: &Json) -> (out: Vec<u8>)
    ensures
        out@ == wire(content@),
{
    frame(content.as_str().as_bytes())
}

/// The bytes that send a request: its content, framed.
pub fn send_request(request_id: u32, method: &str, params: Option<&Json>) -> (out: Vec<u8>)
    ensures
        out@ == wire(
            request_text(
                request_id,
                method@,
                match params {
                    Some(p) => Some(p@),
                    None => None,
                },
            ),
        ),
{
    let content = request_content(request_id, method, params);
    frame_content(&content)
}

/// The bytes that send a notification: its content, framed.
pub fn send_notification(method: &str, params: Option<&Json>) -> (out: Vec<u8>)
    ensures
        out@ == wire(
            notification_text(
                method@,
                match params {
                    Some(p) => Some(p@),
                    None => None,
                },
            ),
        ),
{
    let content = notification_content(method, params);
    frame_content(&content)
}

/// The bytes that send a response: its content, framed.
pub fn send_response(request_id: &Json, result: &Result<Json, Json>) -> (out: Vec<u8>)
    ensures
        out@ == wire(response_text(request_id@, result_texts(*result))),
{
    let content = response_content(request_id, result);
    frame_content(&content)
}

/// Turns bytes into text with `String::from_utf8`, which succeeds exactly on
/// well-formed UTF-8 and then holds the characters that the bytes encode.
#[verifier::external_body]
fn text_of(bytes: Vec<u8>) -> (r: Option<String>)
    ensures
        r.is_some() == valid_utf8(bytes@),
        r matches Some(text) ==> text@ == decode_utf8(bytes@),
{
    String::from_utf8(bytes).ok()
}

/// Whether a JSON text passes as a message of this protocol: an object whose
/// `jsonrpc` member, where it has one, is the string `2.0`.
pub open spec fn spec_check_version(text: Seq<char>) -> Result<(), RecvError> {
    match json_member(text, "jsonrpc"@) {
        None => Err(RecvError::NotAnObject),
        Some(None) => Ok(()),
        Some(Some(version)) => if json_string_content(version) == Some("2.0"@) {
            Ok(())
        } else {
            Err(RecvError::UnsupportedVersion)
        },
    }
}

/// What the body of a frame holds.
pub open spec fn spec_decode_body(body: Seq<u8>) -> Result<Seq<char>, RecvError> {
    if !valid_utf8(body) {
        Err(RecvError::BodyNotText)
    } else if !json_valid(decode_utf8(body)) {
        Err(RecvError::BodyNotJson)
    } else {
        match spec_check_version(decode_utf8(body)) {
            Ok(()) => Ok(decode_utf8(body)),
            Err(e) => Err(e),
        }
    }
}

/// What reading one message from the stream `s` at `pos` gives: the message
/// and where the next one starts, or `None` at the end of the stream.
pub open spec fn spec_recv_message(s: Seq<u8>, pos: int) -> Result<
    Option<(Seq<char>, int)>,
    RecvError,
> {
    match spec_recv(s, pos) {
        Reading::EndOfStream => Ok(None),
        Reading::Failed(e) => Err(RecvError::Frame(e)),
        Reading::Frame { body, next } => match spec_decode_body(body) {
            Ok(text) => Ok(Some((text, next))),
            Err(e) => Err(e),
        },
    }
}

/// Checks the protocol version that a message claims.
pub fn check_jsonrpc_version(value: &Json) -> (r: Result<(), RecvError>)
    ensures
        r == spec_check_version(value@),
{
    match value.member("jsonrpc") {
        Member::NotObject => Err(RecvError::NotAnObject),
        Member::Absent => Ok(()),
        Member::Present(version) => {
            let expected = String::from_str("2.0");
            match version.string() {
                Some(found) => {
                    if found == expected {
                        Ok(())
                    } else {
                        Err(RecvError::UnsupportedVersion)
                    }
                },
                None => Err(RecvError::UnsupportedVersion),
            }
        },
    }
}

/// Decodes the body of a frame: UTF-8, then JSON, then the version check.
pub fn decode_body(body: Vec<u8>) -> (r: Result<Json, RecvError>)
    ensures
        match r {
            Ok(json) => spec_decode_body(body@) == Ok::<Seq<char>, RecvError>(json@),
            Err(e) => spec_decode_body(body@) == Err::<Seq<char>, RecvError>(e),
        },
{
    let Some(text) = text_of(body) else {
        return Err(RecvError::BodyNotText);
    };
    let Some(json) = Json::parse(text.as_str()) else {
        return Err(RecvError::BodyNotJson);
    };
    match check_jsonrpc_version(&json) {
        Ok(()) => Ok(json),
        Err(e) => Err(e),
    }
}

/// The view of what [`recv_message`] returns.
pub open spec fn received_view(r: Result<Option<(Json, usize)>, RecvError>) -> Result<
    Option<(Seq<char>, int)>,
    RecvError,
> {
    match r {
        Ok(Some((json, next))) => Ok(Some((json@, next as int))),
        Ok(None) => Ok(None),
        Err(e) => Err(e),
    }
}

/// Reads one message from the bytes of a stream, starting at `pos`: the
/// message and the position behind it, or `None` where the stream ends
/// before another frame begins.
pub fn recv_message(s: &[u8], pos: usize) -> (r: Result<Option<(Json, usize)>, RecvError>)
    ensures
        received_view(r) == spec_recv_message(s@, pos as int),
{
    match recv_frame(s, pos) {
        Received::EndOfStream => Ok(None),
        Received::Failed(e) => Err(RecvError::Frame(e)),
        Received::Frame { body, next } => match decode_body(body) {
            Ok(json) => Ok(Some((json, next))),
            Err(e) => Err(e),
        },
    }
}

/// A message that was sent is the message that is received: reading finds,
/// in the bytes that carry a JSON text which passes the version check, that
/// same text, wherever the frame starts in the stream and whatever follows
/// it.
pub proof fn lemma_message_round_trip(before: Seq<u8>, content: Seq<char>, rest: Seq<u8>)
    requires
        json_valid(content),
        spec_check_version(content).is_ok(),
        encode_utf8(content).len() <= usize::MAX,
    ensures
        spec_recv_message(before + wire(content) + rest, before.len() as int) == Ok::<
            Option<(Seq<char>, int)>,
            RecvError,
        >(Some((content, (before.len() + wire(content).len()) as int))),
{
    let body = encode_utf8(content);
    lemma_frame_round_trip(before, body, rest);
    encode_utf8_valid_utf8(content);
    encode_utf8_decode_utf8(content);
}

/// Frames a text for sending, after making sure that it will be read as the
/// message it is: `None` where the text is no JSON or does not pass the
/// version check, else the frame, which reads back as that text.
pub fn frame_message(content: &str) -> (r: Option<Vec<u8>>)
    ensures
        r.is_some() == (json_valid(content@) && spec_check_version(content@).is_ok()),
        r matches Some(bytes) ==> bytes@ == wire(content@) && spec_recv_message(bytes@, 0) == Ok::<
            Option<(Seq<char>, int)>,
            RecvError,
        >(Some((content@, bytes.len() as int))),
{
    let Some(json) = Json::parse(content) else {
        return None;
    };
    if check_jsonrpc_version(&json).is_err() {
        return None;
    }
    let body = content.as_bytes();
    let bytes = frame(body);
    proof {
        let none = Seq::<u8>::empty();
        assert(body@ == encode_utf8(content@));
        assert(body@.len() == body.len());
        lemma_message_round_trip(none, content@, none);
        assert(none + wire(content@) + none =~= wire(content@));
    }
    Some(bytes)
}

/// A place in a text: a line and an offset in it, both counted from 0.
#[derive(Debug, Clone, Copy, PartialEq, Eq, PartialOrd, Ord, Hash, Structural)]
pub struct Position {
    pub line: usize,
    pub character: usize,
}

/// The part of a text from `start` up to `end`.
#[derive(Debug, Clone, Copy, PartialEq, Eq, Structural)]
pub struct PositionRange {
    pub start: Position,
    pub end: Position,
}

/// The JSON form of a position.
pub open spec fn position_text(position: Position) -> Seq<char> {
    json_object_text(
        seq!["line"@, "character"@],
        seq![
            ascii_text(decimal(position.line as nat)),
            ascii_text(decimal(position.character as nat)),
        ],
    )
}

/// The JSON form of a range.
pub open spec fn range_text(range: PositionRange) -> Seq<char> {
    json_object_text(
        seq!["start"@, "end"@],
        seq![position_text(range.start), position_text(range.end)],
    )
}

/// The member `name` of the object `text` as a number.
pub open spec fn spec_size_member(text: Seq<char>, name: Seq<char>) -> Result<usize, JsonError> {
    match required_member(text, name) {
        Err(e) => Err(e),
        Ok(value) => match json_usize_value(value) {
            Some(n) => Ok(n),
            None => Err(JsonError::WrongKind),
        },
    }
}

/// The position that the JSON object `text` holds: its members `line` and
/// `character`, looked at in this order.
pub open spec fn spec_position(text: Seq<char>) -> Result<Position, JsonError> {
    match spec_size_member(text, "line"@) {
        Err(e) => Err(e),
        Ok(line) => match spec_size_member(text, "character"@) {
            Err(e) => Err(e),
            Ok(character) => Ok(Position { line, character }),
        },
    }
}

/// The range that the JSON object `text` holds: its members `start` and
/// `end`, looked at in this order.
pub open spec fn spec_range(text: Seq<char>) -> Result<PositionRange, JsonError> {
    match required_member(text, "start"@) {
        Err(e) => Err(e),
        Ok(first) => match spec_position(first) {
            Err(e) => Err(e),
            Ok(start) => match required_member(text, "end"@) {
                Err(e) => Err(e),
                Ok(second) => match spec_position(second) {
                    Err(e) => Err(e),
                    Ok(end) => Ok(PositionRange { start, end }),
                },
            },
        },
    }
}

/// The member `name` of `value`, which has to be there.
fn required(value: &Json, name: &str) -> (r: Result<Json, JsonError>)
    ensures
        match r {
            Ok(found) => required_member(value@, name@) == Ok::<Seq<char>, JsonError>(found@),
            Err(e) => required_member(value@, name@) == Err::<Seq<char>, JsonError>(e),
        },
{
    match value.member(name) {
        Member::NotObject => Err(JsonError::NotObject),
        Member::Absent => Err(JsonError::Missing),
        Member::Present(found) => Ok(found),
    }
}

/// The member `name` of `value` as a number.
fn size_member(value: &Json, name: &str) -> (r: Result<usize, JsonError>)
    ensures
        r == spec_size_member(value@, name@),
{
    match required(value, name) {
        Err(e) => Err(e),
        Ok(found) => match found.size() {
            Some(n) => Ok(n),
            None => Err(JsonError::WrongKind),
        },
    }
}

impl Position {
    /// Writes this position as JSON.
    pub fn to_json(&self) -> (out: Json)
        ensures
            out@ == position_text(*self),
    {
        let mut names: Vec<String> = Vec::new();
        let mut values: Vec<Json> = Vec::new();
        names.push(String::from_str("line"));
        values.push(Json::from_size(self.line));
        names.push(String::from_str("character"));
        values.push(Json::from_size(self.character));
        proof {
            assert(names_of(names@) =~= seq!["line"@, "character"@]);
            assert(texts(values@) =~= seq![
                ascii_text(decimal(self.line as nat)),
                ascii_text(decimal(self.character as nat)),
            ]);
        }
        Json::object(&names, &values)
    }

    /// Reads a position from JSON.
    pub fn from_json(value: &Json) -> (r: Result<Position, JsonError>)
        ensures
            r == spec_position(value@),
    {
        let line = match size_member(value, "line") {
            Ok(n) => n,
            Err(e) => {
                return Err(e);
            },
        };
        match size_member(value, "character") {
            Ok(character) => Ok(Position { line, character }),
            Err(e) => Err(e),
        }
    }
}

/// Where line number `n`, counted from 0, starts in the text `s` when lines
/// are counted from the byte `from` on; `None` where the text has no such
/// line. A line ends with a line feed or with the text; behind the last line
/// feed of a text no further line starts.
pub open spec fn line_start(s: Seq<u8>, from: int, n: nat) -> Option<int>
    decreases n,
{
    if from < 0 || from >= s.len() {
        None
    } else if n == 0 {
        Some(from)
    } else {
        line_start(s, line_end(s, from), (n - 1) as nat)
    }
}

/// Where the line that starts at `from` ends, its line feed and a carriage
/// return before that left out.
pub open spec fn content_end(s: Seq<u8>, from: int) -> int {
    let end = line_end(s, from);
    if end > from && s[end - 1] == 0x0a {
        if end - 1 > from && s[end - 2] == 0x0d {
            end - 2
        } else {
            end - 1
        }
    } else {
        end
    }
}

/// Line number `n` of the text `s`, without its terminator and without
/// white space at its end.
pub open spec fn spec_start_line(s: Seq<u8>, n: nat) -> Option<Seq<u8>> {
    match line_start(s, 0, n) {
        None => None,
        Some(from) => Some(trim_end(s.subrange(from, content_end(s, from)))),
    }
}

/// The bytes `from..to` of `s`, where both are boundaries of characters and
/// in order.
pub open spec fn spec_slice(s: Seq<u8>, from: int, to: int) -> Option<Seq<u8>> {
    if 0 <= from <= to <= s.len() && is_char_boundary(s, from) && is_char_boundary(s, to) {
        Some(s.subrange(from, to))
    } else {
        None
    }
}

/// The text of a range that lies in one line: the bytes of that line from the
/// start's offset up to the end's.
pub open spec fn spec_range_text(s: Seq<u8>, range: PositionRange) -> Option<Seq<u8>> {
    match spec_start_line(s, range.start.line as nat) {
        None => None,
        Some(line) => spec_slice(line, range.start.character as int, range.end.character as int),
    }
}

/// In UTF-8 text a character starts behind every byte below 0x80.
proof fn lemma_boundary_after_ascii(s: Seq<u8>, i: int)
    requires
        valid_utf8(s),
        0 <= i < s.len(),
        s[i] < 0x80,
    ensures
        is_char_boundary(s, i + 1),
    decreases s.len(),
{
    let tail = pop_first_scalar(s);
    let first = length_of_first_scalar(s);
    reveal_with_fuel(is_char_boundary, 2);
    if i > 0 {
        lemma_leading(s[i]);
        is_char_boundary_iff_not_is_continuation_byte(s, i);
        assert(is_char_boundary(tail, i - first));
        assert(i - first >= 0);
        assert(tail[i - first] == s[i]);
        lemma_boundary_after_ascii(tail, i - first);
    }
}

/// A byte that starts a white-space character, or is a line terminator, is
/// no continuation byte.
proof fn lemma_leading(b: u8)
    requires
        b < 0x80 || b == 0xc2 || b == 0xe1 || b == 0xe2 || b == 0xe3,
    ensures
        !is_continuation_byte(b),
{
    assert(!is_continuation_byte(b)) by (bit_vector)
        requires
            b < 0x80 || b == 0xc2 || b == 0xe1 || b == 0xe2 || b == 0xe3,
    ;
}

/// The part `from..to` of `text`, both boundaries of characters.
fn slice<'a>(text: &'a str, from: usize, to: usize) -> (part: &'a str)
    requires
        from <= to <= text.spec_bytes().len(),
        is_char_boundary(text.spec_bytes(), from as int),
        is_char_boundary(text.spec_bytes(), to as int),
    ensures
        part.spec_bytes() == text.spec_bytes().subrange(from as int, to as int),
{
    let ghost s = text.spec_bytes();
    proof {
        encode_utf8_valid_utf8(text@);
    }
    let (head, _) = text.split_at(to);
    proof {
        let h = head.spec_bytes();
        valid_utf8_split(s, to as int);
        assert(h =~= s.subrange(0, to as int));
        if from == to {
            is_char_boundary_start_end_of_seq(h);
        } else if from == 0 {
        } else {
            is_char_boundary_iff_not_is_continuation_byte(s, from as int);
            assert(h[from as int] == s[from as int]);
            is_char_boundary_iff_not_is_continuation_byte(h, from as int);
        }
    }
    let (_, part) = head.split_at(from);
    proof {
        assert(part.spec_bytes() =~= s.subrange(from as int, to as int));
    }
    part
}

/// Finds where line `n` starts.
fn find_line_start(s: &[u8], n: usize) -> (r: Option<usize>)
    ensures
        match r {
            Some(at) => line_start(s@, 0, n as nat) == Some(at as int) && at < s.len() && (at == 0
                || s@[at - 1] == 0x0a),
            None => line_start(s@, 0, n as nat).is_none(),
        },
{
    let mut at: usize = 0;
    let mut left: usize = n;
    while left > 0 && at < s.len()
        invariant
            at <= s.len(),
            left <= n,
            line_start(s@, 0, n as nat) == line_start(s@, at as int, left as nat),
            at == 0 || s@[at - 1] == 0x0a || at == s.len(),
        decreases left,
    {
        let mut end: usize = at;
        while end < s.len() && s[end] != 0x0a
            invariant
                at <= end <= s.len(),
                line_end(s@, at as int) == line_end(s@, end as int),
            decreases s.len() - end,
        {
            end = end + 1;
        }
        if end < s.len() {
            end = end + 1;
        }
        at = end;
        left = left - 1;
    }
    if at < s.len() {
        Some(at)
    } else {
        None
    }
}

/// Finds where the line that starts at `from` ends, terminator left out.
fn find_content_end(s: &[u8], from: usize) -> (end: usize)
    requires
        from < s.len(),
    ensures
        end == content_end(s@, from as int),
        from <= end <= s.len(),
        end == s.len() || s@[end as int] == 0x0a || s@[end as int] == 0x0d,
{
    let mut end: usize = from;
    while end < s.len() && s[end] != 0x0a
        invariant
            from <= end <= s.len(),
            line_end(s@, from as int) == line_end(s@, end as int),
            forall|k: int| from <= k < end ==> s@[k] != 0x0a,
        decreases s.len() - end,
    {
        end = end + 1;
    }
    if end < s.len() {
        if end > from && s[end - 1] == 0x0d {
            end - 1
        } else {
            end
        }
    } else {
        proof {
            if end > from {
                assert(s@[end - 1] != 0x0a);
            }
        }
        end
    }
}

/// Finds where `s[from..to]` ends when the white space at its end is left
/// out.
fn find_trimmed_end(s: &[u8], from: usize, to: usize) -> (end: usize)
    requires
        from <= to <= s.len(),
        to == s.len() || s@[to as int] < 0x80,
    ensures
        from <= end <= to,
        s@.subrange(from as int, end as int) == trim_end(s@.subrange(from as int, to as int)),
        end == s.len() || !is_continuation_byte(s@[end as int]),
{
    let mut hi: usize = to;
    proof {
        if to < s.len() {
            lemma_leading(s@[to as int]);
        }
    }
    loop
        invariant
            from <= hi <= to <= s.len(),
            trim_end(s@.subrange(from as int, to as int)) == trim_end(
                s@.subrange(from as int, hi as int),
            ),
            hi == s.len() || !is_continuation_byte(s@[hi as int]),
        ensures
            trim_end(s@.subrange(from as int, to as int)) == s@.subrange(from as int, hi as int),
        decreases hi - from,
    {
        let ghost t = s@.subrange(from as int, hi as int);
        let k: usize = space_end(s, from, hi);
        proof {
            if k >= 1 {
                assert(t[t.len() - k] == s@[hi - k]);
            }
        }
        if k == 0 {
            break ;
        }
        proof {
            assert(t.take(t.len() - k) =~= s@.subrange(from as int, hi - k));
            lemma_leading(s@[hi - k]);
        }
        hi = hi - k;
    }
    hi
}

impl PositionRange {
    /// The line on which the range starts, without its terminator and
    /// without white space at its end; `None` where the text has no such
    /// line.
    pub fn get_start_line<'a>(self, text: &'a str) -> (r: Option<&'a str>)
        ensures
            match r {
                Some(line) => spec_start_line(text.spec_bytes(), self.start.line as nat) == Some(
                    line.spec_bytes(),
                ),
                None => spec_start_line(text.spec_bytes(), self.start.line as nat).is_none(),
            },
    {
        let bytes = text.as_bytes();
        let ghost s = text.spec_bytes();
        proof {
            encode_utf8_valid_utf8(text@);
        }
        let Some(from) = find_line_start(bytes, self.start.line) else {
            return None;
        };
        let to: usize = find_content_end(bytes, from);
        let end: usize = find_trimmed_end(bytes, from, to);
        proof {
            if from > 0 {
                lemma_boundary_after_ascii(s, from - 1);
            }
            if end == s.len() {
                is_char_boundary_start_end_of_seq(s);
            } else {
                is_char_boundary_iff_not_is_continuation_byte(s, end as int);
            }
        }
        Some(slice(text, from, end))
    }

    /// The text of the range, which has to lie in one line; `None` where the
    /// text has no such line or the offsets do not bound characters of it.
    pub fn get_range_text<'a>(self, text: &'a str) -> (r: Option<&'a str>)
        requires
            self.end.line <= self.start.line,
        ensures
            match r {
                Some(part) => spec_range_text(text.spec_bytes(), self) == Some(part.spec_bytes()),
                None => spec_range_text(text.spec_bytes(), self).is_none(),
            },
    {
        let Some(line) = self.get_start_line(text) else {
            return None;
        };
        let from: usize = self.start.character;
        let to: usize = self.end.character;
        let ghost whole = line.spec_bytes();
        assert(spec_range_text(text.spec_bytes(), self) == spec_slice(
            whole,
            from as int,
            to as int,
        ));
        if from > to || to > line.as_bytes().len() {
            return None;
        }
        let starts: bool = line.is_char_boundary(from);
        let ends: bool = line.is_char_boundary(to);
        if starts && ends {
            Some(slice(line, from, to))
        } else {
            None
        }
    }

    /// Whether the range ends on a later line than it starts on.
    pub fn is_multiline(self) -> (r: bool)
        ensures
            r == (self.end.line > self.start.line),
    {
        self.end.line > self.start.line
    }

    /// Writes this range as JSON.
    pub fn to_json(&self) -> (out: Json)
        ensures
            out@ == range_text(*self),
    {
        let mut names: Vec<String> = Vec::new();
        let mut values: Vec<Json> = Vec::new();
        names.push(String::from_str("start"));
        values.push(self.start.to_json());
        names.push(String::from_str("end"));
        values.push(self.end.to_json());
        proof {
            assert(names_of(names@) =~= seq!["start"@, "end"@]);
            assert(texts(values@) =~= seq![position_text(self.start), position_text(self.end)]);
        }
        Json::object(&names, &values)
    }

    /// Reads a range from JSON.
    pub fn from_json(value: &Json) -> (r: Result<PositionRange, JsonError>)
        ensures
            r == spec_range(value@),
    {
        let first = match required(value, "start") {
            Ok(found) => found,
            Err(e) => {
                return Err(e);
            },
        };
        let start = match Position::from_json(&first) {
            Ok(p) => p,
            Err(e) => {
                return Err(e);
            },
        };
        let second = match required(value, "end") {
            Ok(found) => found,
            Err(e) => {
                return Err(e);
            },
        };
        match Position::from_json(&second) {
            Ok(end) => Ok(PositionRange { start, end }),
            Err(e) => Err(e),
        }
    }
}

/// The scheme and the two slashes that start the URI of a file.
pub open spec fn file_scheme() -> Seq<char> {
    "file://"@
}

/// A document, named by the absolute path of its file.
#[derive(Debug, Clone, PartialEq, Eq, PartialOrd, Ord, Hash)]
pub struct DocumentUri {
    path: String,
}

impl View for DocumentUri {
    type V = Seq<char>;

    closed spec fn view(&self) -> Seq<char> {
        self.path@
    }
}

/// The path that the URI `uri` names: what follows `file://`.
pub open spec fn spec_uri_path(uri: Seq<char>) -> Option<Seq<char>> {
    if uri.len() >= 7 && uri.take(7) == file_scheme() {
        Some(uri.skip(7))
    } else {
        None
    }
}

/// Asks `std::path::Path::strip_prefix` for `path` without the leading
/// `base`. Paths are compared part by part in the syntax of the platform, so
/// nothing is said here of what comes back.
#[verifier::external_body]
fn strip_prefix(path: &str, base: &str) -> (r: Option<String>) {
    let rest = std::path::Path::new(path).strip_prefix(base).ok()?;
    rest.to_str().map(String::from)
}

/// The path to show for a document: the part below the base directory where
/// there is one, else the whole path.
pub fn relative_or_whole(below_base: Option<String>, whole: &str) -> (shown: String)
    ensures
        shown@ == match below_base {
            Some(rest) => rest@,
            None => whole@,
        },
{
    match below_base {
        Some(rest) => rest,
        None => String::from_str(whole),
    }
}

impl DocumentUri {
    /// The path of the document below `base_dir`, or its whole path where it
    /// does not lie below `base_dir`.
    pub fn relative_path(&self, base_dir: &str) -> (shown: String) {
        relative_or_whole(strip_prefix(self.path.as_str(), base_dir), self.path.as_str())
    }

    /// The document at the absolute path `path`.
    pub fn from_path(path: String) -> (uri: DocumentUri)
        ensures
            uri@ == path@,
    {
        DocumentUri { path }
    }

    /// The path of the document's file.
    pub fn path(&self) -> (path: &str)
        ensures
            path@ == self@,
    {
        self.path.as_str()
    }

    /// The URI of the document: `file://` and the path.
    pub fn uri(&self) -> (uri: String)
        ensures
            uri@ == file_scheme() + self@,
    {
        let mut uri = String::from_str("file://");
        uri.append(self.path.as_str());
        uri
    }

    /// Writes the URI as a JSON string.
    pub fn to_json(&self) -> (out: Json)
        ensures
            out@ == json_quoted(file_scheme() + self@),
    {
        let uri = self.uri();
        Json::from_string(uri.as_str())
    }

    /// Reads the document that a URI names; `None` where the URI does not
    /// start with `file://`.
    pub fn from_uri(uri: &str) -> (r: Option<DocumentUri>)
        ensures
            match r {
                Some(document) => spec_uri_path(uri@) == Some(document@),
                None => spec_uri_path(uri@).is_none(),
            },
    {
        let scheme = "file://";
        proof {
            reveal_strlit("file://");
        }
        let n: usize = uri.unicode_len();
        if n < 7 {
            return None;
        }
        let mut i: usize = 0;
        while i < 7
            invariant
                i <= 7 <= n,
                n == uri@.len(),
                scheme@ == file_scheme(),
                scheme@.len() == 7,
                forall|j: int| 0 <= j < i ==> uri@[j] == scheme@[j],
            decreases 7 - i,
        {
            if uri.get_char(i) != scheme.get_char(i) {
                proof {
                    assert(uri@.take(7)[i as int] != file_scheme()[i as int]);
                }
                return None;
            }
            i = i + 1;
        }
        proof {
            assert(uri@.take(7) =~= file_scheme());
            assert(uri@.skip(7) =~= uri@.subrange(7, n as int));
        }
        let path = uri.substring_char(7, n);
        Some(DocumentUri { path: String::from_str(path) })
    }

    /// Reads the document that a JSON string names by its URI.
    pub fn from_json(value: &Json) -> (r: Result<DocumentUri, JsonError>)
        ensures
            match r {
                Ok(document) => match json_string_content(value@) {
                    Some(uri) => spec_uri_path(uri) == Some(document@),
                    None => false,
                },
                Err(e) => e == JsonError::WrongKind && match json_string_content(value@) {
                    Some(uri) => spec_uri_path(uri).is_none(),
                    None => true,
                },
            },
    {
        match value.string() {
            None => Err(JsonError::WrongKind),
            Some(uri) => match DocumentUri::from_uri(uri.as_str()) {
                Some(document) => Ok(document),
                None => Err(JsonError::WrongKind),
            },
        }
    }
}

} // verus!
