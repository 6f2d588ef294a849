//! JSON texts. Reading and writing JSON is the `nojson` crate's work; this
//! module names what it returns and carries the texts it has read or
//! written. That a text was written says nothing of whether it can be read:
//! the reader refuses what nests too deep, the writer does not.

use vstd::prelude::*;
use vstd::string::StringExecFns;
use crate::decimal::decimal;

verus! {

/// Whether `text` is one well-formed JSON value, as `nojson` judges it.
pub uninterp spec fn json_valid(text: Seq<char>) -> bool;

/// The member `name` of the JSON object `text`: `None` where `text` is no
/// JSON object, `Some(None)` where the object has no such member, else the
/// member's value as it is written in `text`.
pub uninterp spec fn json_member(text: Seq<char>, name: Seq<char>) -> Option<Option<Seq<char>>>;

/// The characters that the JSON string `text` stands for, escapes resolved;
/// `None` where `text` is no JSON string.
pub uninterp spec fn json_string_content(text: Seq<char>) -> Option<Seq<char>>;

/// The number that the JSON integer `text` stands for, where it is one and
/// fits 64 bits without a sign; else `None`.
pub uninterp spec fn json_u64_value(text: Seq<char>) -> Option<u64>;

/// The number that the JSON integer `text` stands for, where it is one and
/// fits 32 bits without a sign; else `None`.
pub open spec fn json_u32_value(text: Seq<char>) -> Option<u32> {
    match json_u64_value(text) {
        Some(n) => if n <= u32::MAX {
            Some(n as u32)
        } else {
            None
        },
        None => None,
    }
}

/// The number that the JSON integer `text` stands for, where it is one and
/// fits the machine word without a sign; else `None`.
pub open spec fn json_usize_value(text: Seq<char>) -> Option<usize> {
    match json_u64_value(text) {
        Some(n) => if n <= usize::MAX {
            Some(n as usize)
        } else {
            None
        },
        None => None,
    }
}

/// The elements of the JSON array `text`, each as it is written in `text`;
/// `None` where `text` is no JSON array.
pub uninterp spec fn json_array_elements(text: Seq<char>) -> Option<Seq<Seq<char>>>;

/// Whether the JSON value `text` is `null`.
pub uninterp spec fn json_is_null(text: Seq<char>) -> bool;

/// The JSON string that stands for `s`: quoted, with escapes.
pub uninterp spec fn json_quoted(s: Seq<char>) -> Seq<char>;

/// The JSON object with the members `names[i]: values[i]`, in that order,
/// written without white space, each value as it stands in `values`.
pub uninterp spec fn json_object_text(names: Seq<Seq<char>>, values: Seq<Seq<char>>) -> Seq<char>;

/// The JSON array of `values`, in that order, written without white space,
/// each value as it stands in `values`.
pub uninterp spec fn json_array_text(values: Seq<Seq<char>>) -> Seq<char>;

/// The JSON value `text` as `nojson` writes it after reading it: without
/// white space between its parts. A text that it cannot read is left as it
/// is.
pub uninterp spec fn json_compact(text: Seq<char>) -> Seq<char>;

/// The decimal notation of `n`, with a minus sign where it is negative.
pub open spec fn integer_text(n: int) -> Seq<char> {
    if n < 0 {
        seq!['-'] + ascii_text(decimal((-n) as nat))
    } else {
        ascii_text(decimal(n as nat))
    }
}

/// The bytes `b` as characters, one for one.
pub open spec fn ascii_text(b: Seq<u8>) -> Seq<char> {
    Seq::new(b.len(), |i: int| b[i] as char)
}

/// A JSON text that `nojson` has read or written.
#[derive(Debug)]
pub struct Json {
    text: String,
}

/// The member of an object that a name refers to.
#[derive(Debug)]
pub enum Member {
    /// The value is no object.
    NotObject,
    /// The object has no member of that name.
    Absent,
    /// The member's value.
    Present(Json),
}

impl View for Json {
    type V = Seq<char>;

    closed spec fn view(&self) -> Seq<char> {
        self.text@
    }
}

impl View for Member {
    type V = Option<Option<Seq<char>>>;

    open spec fn view(&self) -> Option<Option<Seq<char>>> {
        match *self {
            Member::NotObject => None,
            Member::Absent => Some(None),
            Member::Present(value) => Some(Some(value@)),
        }
    }
}

impl Json {
    /// Takes `text` as JSON, if it is one well-formed JSON value.
    pub fn parse(text: &str) -> (r: Option<Json>)
        ensures
            r.is_some() == json_valid(text@),
            r matches Some(json) ==> json@ == text@,
    {
        if json_is_valid(text) {
            Some(Json { text: String::from_str(text) })
        } else {
            None
        }
    }

    /// The text.
    pub fn as_str(&self) -> (text: &str)
        ensures
            text@ == self@,
    {
        self.text.as_str()
    }

    /// A copy of this text.
    pub fn duplicate(&self) -> (copy: Json)
        ensures
            copy@ == self@,
    {
        Json { text: self.text.clone() }
    }

    /// This value as it is written after it was read: without white space
    /// between its parts.
    pub fn compact(&self) -> (out: Json)
        ensures
            out@ == json_compact(self@),
    {
        compact_text(self.text.as_str())
    }

    /// Looks up the member `name`.
    pub fn member(&self, name: &str) -> (r: Member)
        ensures
            r@ == json_member(self@, name@),
    {
        lookup_member(self.text.as_str(), name)
    }

    /// The characters of this JSON string; `None` where this is no string.
    pub fn string(&self) -> (r: Option<String>)
        ensures
            r.is_some() == json_string_content(self@).is_some(),
            r matches Some(s) ==> json_string_content(self@) == Some(s@),
    {
        read_string(self.text.as_str())
    }

    /// The number this JSON integer stands for; `None` where this is no
    /// integer between 0 and 2^32 - 1.
    pub fn number(&self) -> (r: Option<u32>)
        ensures
            r == json_u32_value(self@),
    {
        match read_u64(self.text.as_str()) {
            Some(n) => {
                if n <= 0xffff_ffff {
                    Some(n as u32)
                } else {
                    None
                }
            },
            None => None,
        }
    }

    /// The number this JSON integer stands for; `None` where this is no
    /// integer between 0 and 2^64 - 1.
    pub fn long(&self) -> (r: Option<u64>)
        ensures
            r == json_u64_value(self@),
    {
        read_u64(self.text.as_str())
    }

    /// Whether this is the value `null`.
    pub fn is_null(&self) -> (r: bool)
        ensures
            r == json_is_null(self@),
    {
        read_null(self.text.as_str())
    }

    /// The elements of this JSON array; `None` where this is no array.
    pub fn elements(&self) -> (r: Option<Vec<Json>>)
        ensures
            r.is_some() == json_array_elements(self@).is_some(),
            r matches Some(elements) ==> json_array_elements(self@) == Some(texts(elements@)),
    {
        read_array(self.text.as_str())
    }

    /// The number this JSON integer stands for; `None` where this is no
    /// integer from 0 up that fits the machine word.
    pub fn size(&self) -> (r: Option<usize>)
        ensures
            r == json_usize_value(self@),
    {
        match read_u64(self.text.as_str()) {
            Some(n) => {
                if n <= usize::MAX as u64 {
                    Some(n as usize)
                } else {
                    None
                }
            },
            None => None,
        }
    }

    /// The JSON integer `n`, in decimal.
    pub fn from_size(n: usize) -> (out: Json)
        ensures
            out@ == ascii_text(decimal(n as nat)),
    {
        write_u64(n as u64)
    }

    /// The JSON integer `n`, in decimal.
    pub fn from_long(n: u64) -> (out: Json)
        ensures
            out@ == ascii_text(decimal(n as nat)),
    {
        write_u64(n)
    }

    /// The JSON string that stands for `s`.
    pub fn from_string(s: &str) -> (out: Json)
        ensures
            out@ == json_quoted(s@),
    {
        write_string(s)
    }

    /// The JSON integer `n`, in decimal.
    pub fn from_number(n: i64) -> (out: Json)
        ensures
            out@ == integer_text(n as int),
    {
        write_i64(n)
    }

    /// The JSON value `true` or `false`.
    pub fn from_bool(b: bool) -> (out: Json)
        ensures
            out@ == (if b {
                "true"@
            } else {
                "false"@
            }),
    {
        write_bool(b)
    }

    /// The JSON value `null`.
    pub fn null() -> (out: Json)
        ensures
            out@ == "null"@,
    {
        write_null()
    }

    /// The JSON object with the members `names[i]: values[i]`, in that
    /// order, each value as it was read or written.
    pub fn object(names: &Vec<String>, values: &Vec<Json>) -> (out: Json)
        requires
            names.len() == values.len(),
        ensures
            out@ == json_object_text(names_of(names@), texts(values@)),
    {
        write_object(names, values)
    }

    /// The JSON array of `values`, in that order, each value as it was read
    /// or written.
    pub fn array(values: &Vec<Json>) -> (out: Json)
        ensures
            out@ == json_array_text(texts(values@)),
    {
        write_array(values)
    }
}

/// Why a JSON value is not what was asked for.
#[derive(Debug, Clone, Copy, PartialEq, Eq, Structural)]
pub enum JsonError {
    /// The value is no object.
    NotObject,
    /// The object lacks a member that is required.
    Missing,
    /// The value is of another kind than the one asked for, or out of range.
    WrongKind,
}

/// A JSON value that is an object.
#[derive(Debug)]
pub struct JsonObject {
    value: Json,
}

impl View for JsonObject {
    type V = Seq<char>;

    closed spec fn view(&self) -> Seq<char> {
        self.value@
    }
}

/// The member `name` of the object `text`, where it has one.
pub open spec fn member_of(text: Seq<char>, name: Seq<char>) -> Option<Seq<char>> {
    match json_member(text, name) {
        Some(Some(value)) => Some(value),
        _ => None,
    }
}

/// The member `name` of `text`, or why there is none.
pub open spec fn required_member(text: Seq<char>, name: Seq<char>) -> Result<
    Seq<char>,
    JsonError,
> {
    match json_member(text, name) {
        None => Err(JsonError::NotObject),
        Some(None) => Err(JsonError::Missing),
        Some(Some(value)) => Ok(value),
    }
}

impl JsonObject {
    /// Takes `value` as an object: fails where a lookup in it fails.
    pub fn new(value: Json) -> (r: Result<JsonObject, JsonError>)
        ensures
            r.is_ok() == json_member(value@, ""@).is_some(),
            r matches Ok(object) ==> object@ == value@,
            r matches Err(e) ==> e == JsonError::NotObject,
    {
        match value.member("") {
            Member::NotObject => Err(JsonError::NotObject),
            _ => Ok(JsonObject { value }),
        }
    }

    /// The object as a plain JSON value.
    pub fn value(&self) -> (value: &Json)
        ensures
            value@ == self@,
    {
        &self.value
    }

    /// The member `name`, which has to be there.
    pub fn get_required(&self, name: &str) -> (r: Result<Json, JsonError>)
        ensures
            match r {
                Ok(value) => required_member(self@, name@) == Ok::<Seq<char>, JsonError>(value@),
                Err(e) => required_member(self@, name@) == Err::<Seq<char>, JsonError>(e),
            },
    {
        match self.value.member(name) {
            Member::NotObject => Err(JsonError::NotObject),
            Member::Absent => Err(JsonError::Missing),
            Member::Present(value) => Ok(value),
        }
    }

    /// The member `name`, if it is there.
    pub fn get_optional(&self, name: &str) -> (r: Option<Json>)
        ensures
            match r {
                Some(value) => member_of(self@, name@) == Some(value@),
                None => member_of(self@, name@).is_none(),
            },
    {
        match self.value.member(name) {
            Member::Present(value) => Some(value),
            _ => None,
        }
    }
}

/// The members of an object that is being written.
#[derive(Debug)]
pub struct Members {
    names: Vec<String>,
    values: Vec<Json>,
}

impl Members {
    /// The names so far.
    pub closed spec fn names(&self) -> Seq<Seq<char>> {
        names_of(self.names@)
    }

    /// The values so far.
    pub closed spec fn values(&self) -> Seq<Seq<char>> {
        texts(self.values@)
    }

    /// As many values as names.
    pub closed spec fn wf(&self) -> bool {
        self.names.len() == self.values.len()
    }

    /// No members.
    pub fn new() -> (members: Members)
        ensures
            members.wf(),
            members.names() == Seq::<Seq<char>>::empty(),
            members.values() == Seq::<Seq<char>>::empty(),
    {
        let members = Members { names: Vec::new(), values: Vec::new() };
        assert(members.names() =~= Seq::<Seq<char>>::empty());
        assert(members.values() =~= Seq::<Seq<char>>::empty());
        members
    }

    /// Adds the member `name: value` behind the others.
    pub fn add(&mut self, name: &str, value: Json)
        requires
            old(self).wf(),
        ensures
            final(self).wf(),
            final(self).names() == old(self).names().push(name@),
            final(self).values() == old(self).values().push(value@),
    {
        self.names.push(String::from_str(name));
        self.values.push(value);
        assert(self.names() =~= old(self).names().push(name@));
        assert(self.values() =~= old(self).values().push(value@));
    }

    /// The object with these members.
    pub fn finish(&self) -> (out: Json)
        requires
            self.wf(),
        ensures
            out@ == json_object_text(self.names(), self.values()),
    {
        Json::object(&self.names, &self.values)
    }
}

/// The texts of `values`.
pub open spec fn texts(values: Seq<Json>) -> Seq<Seq<char>> {
    values.map_values(|j: Json| j@)
}

/// The characters of `names`.
pub open spec fn names_of(names: Seq<String>) -> Seq<Seq<char>> {
    names.map_values(|s: String| s@)
}

/// Parses `text` with `nojson::RawJson::parse` and reports whether that
/// succeeded: the result is the crate's verdict on the text, nothing more.
#[verifier::external_body]
fn json_is_valid(text: &str) -> (ok: bool)
    ensures
        ok == json_valid(text@),
{
    nojson::RawJson::parse(text).is_ok()
}

/// Looks `name` up in `text` with `RawJsonValue::to_member`, which fails on
/// anything but an object and else finds the first member of that name. The
/// value found is handed out as the slice of `text` that holds it.
#[verifier::external_body]
fn lookup_member(text: &str, name: &str) -> (r: Member)
    ensures
        r@ == json_member(text@, name@),
{
    let Ok(json) = nojson::RawJson::parse(text) else {
        return Member::NotObject;
    };
    match json.value().to_member(name) {
        Err(_) => Member::NotObject,
        Ok(member) => match member.optional() {
            None => Member::Absent,
            Some(value) => Member::Present(Json { text: value.as_raw_str().to_string() }),
        },
    }
}

/// Reads `text` as a JSON string with `RawJsonValue::to_unquoted_string_str`,
/// which fails on any other kind of value.
#[verifier::external_body]
fn read_string(text: &str) -> (r: Option<String>)
    ensures
        r.is_some() == json_string_content(text@).is_some(),
        r matches Some(s) ==> json_string_content(text@) == Some(s@),
{
    let json = nojson::RawJson::parse(text).ok()?;
    let content = json.value().to_unquoted_string_str().ok()?;
    Some(content.into_owned())
}

/// Reads `text` as a number with `nojson`'s `TryFrom<RawJsonValue>` for
/// `u64`, which fails unless the value is an integer in range.
#[verifier::external_body]
fn read_u64(text: &str) -> (r: Option<u64>)
    ensures
        r == json_u64_value(text@),
{
    let json = nojson::RawJson::parse(text).ok()?;
    u64::try_from(json.value()).ok()
}

/// Writes `n` with `nojson::Json`, which prints an integer in decimal.
#[verifier::external_body]
fn write_u64(n: u64) -> (out: Json)
    ensures
        out@ == ascii_text(decimal(n as nat)),
{
    Json { text: nojson::Json(n).to_string() }
}

/// Asks `RawJsonValue::kind` whether `text` is the value `null`; a text that
/// is no JSON is none.
#[verifier::external_body]
fn read_null(text: &str) -> (r: bool)
    ensures
        r == json_is_null(text@),
{
    nojson::RawJson::parse(text).is_ok_and(|json| json.value().kind().is_null())
}

/// Reads `text` as an array with `RawJsonValue::to_array`, which fails on
/// any other kind of value and else walks the elements in order. Each is
/// handed out as the slice of `text` that holds it.
#[verifier::external_body]
fn read_array(text: &str) -> (r: Option<Vec<Json>>)
    ensures
        r.is_some() == json_array_elements(text@).is_some(),
        r matches Some(elements) ==> json_array_elements(text@) == Some(texts(elements@)),
{
    let json = nojson::RawJson::parse(text).ok()?;
    let elements = json.value().to_array().ok()?;
    Some(elements.map(|v| Json { text: v.as_raw_str().to_string() }).collect())
}

/// Reads `text` with `nojson::RawJson::parse` and writes what was read with
/// the crate's `Display`, which leaves out the white space between the parts
/// of a value. Where the crate cannot read `text`, `text` comes back as it
/// is.
#[verifier::external_body]
fn compact_text(text: &str) -> (out: Json)
    ensures
        out@ == json_compact(text@),
{
    match nojson::RawJson::parse(text) {
        Ok(json) => Json { text: json.to_string() },
        Err(_) => Json { text: text.to_string() },
    }
}

/// Writes `s` as a JSON string with `nojson::Json`.
#[verifier::external_body]
fn write_string(s: &str) -> (out: Json)
    ensures
        out@ == json_quoted(s@),
{
    Json { text: nojson::Json(s).to_string() }
}

/// Writes `n` with `nojson::Json`, which prints an integer in decimal.
#[verifier::external_body]
fn write_i64(n: i64) -> (out: Json)
    ensures
        out@ == integer_text(n as int),
{
    Json { text: nojson::Json(n).to_string() }
}

/// Writes `b` with `nojson::Json`, which prints `true` or `false`.
#[verifier::external_body]
fn write_bool(b: bool) -> (out: Json)
    ensures
        out@ == (if b {
            "true"@
        } else {
            "false"@
        }),
{
    Json { text: nojson::Json(b).to_string() }
}

/// Writes the unit value with `nojson::Json`, which prints it as `null`.
#[verifier::external_body]
fn write_null() -> (out: Json)
    ensures
        out@ == "null"@,
{
    Json { text: nojson::Json(()).to_string() }
}

/// Writes an object with `nojson::object`, one `member` call for each name
/// and value in turn. A name is written as a JSON string; a value is put
/// into the output as it stands.
#[verifier::external_body]
fn write_object(names: &Vec<String>, values: &Vec<Json>) -> (out: Json)
    requires
        names.len() == values.len(),
    ensures
        out@ == json_object_text(names_of(names@), texts(values@)),
{
    let object = nojson::object(|f| {
        f.members(
            names.iter().zip(
                values.iter().map(|v| nojson::json(move |f| f.inner_mut().write_str(&v.text))),
            ),
        )
    });
    Json { text: object.to_string() }
}

/// Writes an array with `nojson::array`, one `element` call for each value
/// in turn; a value is put into the output as it stands.
#[verifier::external_body]
fn write_array(values: &Vec<Json>) -> (out: Json)
    ensures
        out@ == json_array_text(texts(values@)),
{
    let array = nojson::array(|f| {
        f.elements(values.iter().map(|v| nojson::json(move |f| f.inner_mut().write_str(&v.text))))
    });
    Json { text: array.to_string() }
}

} // verus!
