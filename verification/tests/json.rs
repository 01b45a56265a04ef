use pj::json::{strings_from_json, strings_to_json, Json, JsonNumber};

fn object(members: Vec<(&str, Json)>) -> Json {
    Json::Object(members.into_iter().map(|(name, value)| (name.to_string(), value)).collect())
}

#[test]
fn members_are_read() {
    let value = object(vec![
        ("path", Json::Text("/a".to_string())),
        ("offset", Json::Number(JsonNumber::Unsigned(7))),
        ("all", Json::Bool(true)),
        ("low", Json::Number(JsonNumber::Negative(-3))),
    ]);
    assert_eq!(value.get_text("path"), Some("/a".to_string()));
    assert_eq!(value.get_text("offset"), None);
    assert_eq!(value.get_u64("offset"), Some(7));
    assert_eq!(value.get_u64("low"), None);
    assert_eq!(value.get_bool("all"), Some(true));
    assert_eq!(value.get_bool("path"), None);
    assert!(value.get("none").is_none());
    assert!(Json::Null.get("path").is_none());
}

#[test]
fn a_member_is_replaced_in_its_place() {
    let value = object(vec![("a", Json::Null), ("b", Json::Bool(false))]);
    let changed = value.replace_member("b", Json::Text("x".to_string()));
    assert_eq!(changed.to_text(), "{\"a\":null,\"b\":\"x\"}");
    assert_eq!(value.replace_member("c", Json::Null).to_text(), value.to_text());
}

#[test]
fn values_are_written_as_serde_writes_them() {
    let value = object(vec![
        ("list", Json::Array(vec![Json::Null, Json::Bool(true), Json::Text("\"\\\n\u{1}\u{e9}/".to_string())])),
        ("n", Json::Number(JsonNumber::Unsigned(u64::MAX))),
        ("x", Json::Number(JsonNumber::Float("1.5".to_string()))),
        ("z", Json::Number(JsonNumber::Negative(-12))),
    ]);
    let text = value.to_text();
    let read: serde_json::Value = serde_json::from_str(&text).unwrap();
    assert_eq!(read.to_string(), text);
    assert_eq!(
        text,
        "{\"list\":[null,true,\"\\\"\\\\\\n\\u0001\u{e9}/\"],\"n\":18446744073709551615,\"x\":1.5,\"z\":-12}"
    );
    assert_eq!(Json::Array(Vec::new()).to_text(), "[]");
    assert_eq!(Json::Object(Vec::new()).to_text(), "{}");
}

#[test]
fn every_control_character_is_escaped_as_serde_escapes_it() {
    for n in 0u32..0x180 {
        if let Some(c) = char::from_u32(n) {
            let value = Json::Text(c.to_string());
            assert_eq!(value.to_text(), serde_json::Value::String(c.to_string()).to_string());
        }
    }
}

#[test]
fn a_copy_is_written_the_same() {
    let value = object(vec![("a", Json::Array(vec![Json::Text("b".to_string())]))]);
    assert_eq!(value.copy().to_text(), value.to_text());
    assert_eq!(value.clone().to_text(), value.to_text());
}

#[test]
fn lists_of_strings_go_there_and_back() {
    let list = vec!["a".to_string(), "\"q\"\n".to_string(), "\u{4e2d}".to_string()];
    let text = strings_to_json(&list);
    assert_eq!(text, "[\"a\",\"\\\"q\\\"\\n\",\"\u{4e2d}\"]");
    assert_eq!(strings_from_json(&text), Some(list));
    assert_eq!(strings_to_json(&Vec::new()), "[]");
    assert_eq!(strings_from_json(" [ \"x\" ] "), Some(vec!["x".to_string()]));
}

#[test]
fn other_texts_are_no_lists_of_strings() {
    for text in ["", "{}", "[1]", "[\"a\"", "null", "[\"a\"] x"] {
        assert_eq!(strings_from_json(text), None);
    }
}
