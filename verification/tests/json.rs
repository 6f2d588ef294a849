use lspterm::json::{Json, JsonError, JsonObject, Member, Members};

fn parsed(text: &str) -> Json {
    Json::parse(text).expect("valid JSON")
}

#[test]
fn parse_accepts_json_and_keeps_the_text() {
    let json = parsed(" {\"a\": [1, 2.5, \"x\", null, true]} ");
    assert_eq!(json.as_str(), " {\"a\": [1, 2.5, \"x\", null, true]} ");
    assert_eq!(parsed("null").as_str(), "null");
}

#[test]
fn parse_rejects_what_is_not_json() {
    assert!(Json::parse("").is_none());
    assert!(Json::parse("{").is_none());
    assert!(Json::parse("{\"a\":}").is_none());
    assert!(Json::parse("nul").is_none());
    assert!(Json::parse("1 2").is_none());
}

#[test]
fn member_finds_the_value_as_written() {
    let json = parsed("{\"id\": 7, \"params\": {\"x\": [1, 2]}, \"s\": \"a\\nb\"}");
    match json.member("id") {
        Member::Present(v) => assert_eq!(v.as_str(), "7"),
        other => panic!("unexpected {other:?}"),
    }
    match json.member("params") {
        Member::Present(v) => assert_eq!(v.as_str(), "{\"x\": [1, 2]}"),
        other => panic!("unexpected {other:?}"),
    }
    match json.member("s") {
        Member::Present(v) => assert_eq!(v.as_str(), "\"a\\nb\""),
        other => panic!("unexpected {other:?}"),
    }
    assert!(matches!(json.member("missing"), Member::Absent));
}

#[test]
fn member_of_a_value_that_is_no_object() {
    assert!(matches!(parsed("[1]").member("a"), Member::NotObject));
    assert!(matches!(parsed("\"a\"").member("a"), Member::NotObject));
    assert!(matches!(parsed("null").member("a"), Member::NotObject));
}

#[test]
fn string_resolves_escapes() {
    assert_eq!(parsed("\"a\\nb\\u0041\"").string(), Some("a\nbA".to_string()));
    assert_eq!(parsed("\"\"").string(), Some(String::new()));
    assert_eq!(parsed("12").string(), None);
    assert_eq!(parsed("null").string(), None);
}

#[test]
fn number_reads_integers_in_range() {
    assert_eq!(parsed("0").number(), Some(0));
    assert_eq!(parsed("4294967295").number(), Some(u32::MAX));
    assert_eq!(parsed("4294967296").number(), None);
    assert_eq!(parsed("-1").number(), None);
    assert_eq!(parsed("1.5").number(), None);
    assert_eq!(parsed("\"1\"").number(), None);
    assert_eq!(parsed("17").size(), Some(17));
    assert_eq!(parsed("-17").size(), None);
}

#[test]
fn elements_lists_an_array_in_order() {
    let elements = parsed("[1, \"two\", [3], {\"four\": 4}]").elements().expect("an array");
    let texts: Vec<&str> = elements.iter().map(|e| e.as_str()).collect();
    assert_eq!(texts, vec!["1", "\"two\"", "[3]", "{\"four\": 4}"]);
    assert_eq!(parsed("[]").elements().expect("an array").len(), 0);
    assert!(parsed("{}").elements().is_none());
}

#[test]
fn from_string_quotes_and_escapes() {
    assert_eq!(Json::from_string("plain").as_str(), "\"plain\"");
    assert_eq!(Json::from_string("a\"b\\c\nd").as_str(), "\"a\\\"b\\\\c\\nd\"");
    assert_eq!(Json::from_string("").as_str(), "\"\"");
    assert_eq!(Json::from_string("a\"b").string(), Some("a\"b".to_string()));
}

#[test]
fn from_number_writes_decimal() {
    assert_eq!(Json::from_number(0).as_str(), "0");
    assert_eq!(Json::from_number(-32601).as_str(), "-32601");
    assert_eq!(Json::from_number(4294967295).as_str(), "4294967295");
    assert_eq!(Json::from_size(120).as_str(), "120");
}

#[test]
fn literals() {
    assert_eq!(Json::null().as_str(), "null");
    assert_eq!(Json::from_bool(true).as_str(), "true");
    assert_eq!(Json::from_bool(false).as_str(), "false");
}

#[test]
fn object_writes_members_in_order_and_values_as_they_stand() {
    let names = vec!["b".to_string(), "a".to_string(), "q\"".to_string()];
    let values = vec![parsed("[1, 2]").compact(), parsed("{ \"x\" : null }"), parsed("\"s\"")];
    assert_eq!(Json::object(&names, &values).as_str(), "{\"b\":[1,2],\"a\":{ \"x\" : null },\"q\\\"\":\"s\"}");
    assert_eq!(Json::object(&Vec::new(), &Vec::new()).as_str(), "{}");
}

#[test]
fn array_writes_elements_in_order_and_as_they_stand() {
    let values = vec![parsed(" 1").compact(), parsed("[ ]"), parsed("\"x\"")];
    assert_eq!(Json::array(&values).as_str(), "[1,[ ],\"x\"]");
    assert_eq!(Json::array(&Vec::new()).as_str(), "[]");
}

#[test]
fn compact_leaves_out_the_white_space_between_parts() {
    assert_eq!(parsed(" { \"a b\" : [ 1 , \"x y\" , { } ] } ").compact().as_str(), "{\"a b\":[1,\"x y\",{}]}");
    assert_eq!(parsed("null").compact().as_str(), "null");
    assert_eq!(parsed("\"\\u0041\"").compact().as_str(), "\"A\"");
}

#[test]
fn writer_nests_deeper_than_the_reader_reads() {
    let mut value = Json::parse("0").expect("valid JSON");
    for _ in 0..128 {
        value = Json::array(&vec![value]);
    }
    let text = value.as_str().to_string();
    assert_eq!(text.len(), 257);
    assert!(Json::parse(&text).is_some());
    let deeper = Json::array(&vec![value.duplicate()]);
    assert_eq!(deeper.as_str(), format!("[{text}]"));
    assert!(Json::parse(deeper.as_str()).is_none());
    assert_eq!(deeper.compact().as_str(), deeper.as_str());
    assert!(matches!(deeper.member("a"), Member::NotObject));
    let mut members = Members::new();
    members.add("a", value);
    let object = members.finish();
    assert_eq!(object.as_str(), format!("{{\"a\":{text}}}"));
    assert!(Json::parse(object.as_str()).is_none());
}

#[test]
fn members_builds_an_object() {
    let mut members = Members::new();
    members.add("one", Json::from_number(1));
    members.add("two", Json::from_string("2"));
    assert_eq!(members.finish().as_str(), "{\"one\":1,\"two\":\"2\"}");
}

#[test]
fn duplicate_keeps_the_text() {
    let json = parsed("{\"a\": 1}");
    assert_eq!(json.duplicate().as_str(), json.as_str());
}

#[test]
fn json_object_wants_an_object() {
    assert!(matches!(JsonObject::new(parsed("[]")), Err(JsonError::NotObject)));
    let object = JsonObject::new(parsed("{\"a\": 1}")).expect("an object");
    assert_eq!(object.value().as_str(), "{\"a\": 1}");
    assert_eq!(object.get_required("a").expect("there").as_str(), "1");
    assert!(matches!(object.get_required("b"), Err(JsonError::Missing)));
    assert_eq!(object.get_optional("a").expect("there").as_str(), "1");
    assert!(object.get_optional("b").is_none());
    assert!(JsonObject::new(parsed("{}")).is_ok());
}
