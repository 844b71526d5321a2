use openchamber_tauri::json_text::to_json_pretty_text;
use openchamber_tauri::json_text::{json_from_text, to_json_text};
use openchamber_tauri::json::{JsonMember, JsonNumber, JsonValue};

fn s(t: &str) -> JsonValue {
    JsonValue::Str(t.to_string())
}

fn obj(members: Vec<(&str, JsonValue)>) -> JsonValue {
    JsonValue::Object(
        members
            .into_iter()
            .map(|(k, v)| JsonMember { key: k.to_string(), value: v })
            .collect(),
    )
}

#[test]
fn get_reads_members_of_objects_only() {
    let v = obj(vec![("a", s("x")), ("n", JsonValue::Number(JsonNumber::PosInt(3)))]);
    assert_eq!(v.get("a"), Some(&s("x")));
    assert_eq!(v.get("b"), None);
    assert_eq!(v.get_u64("n"), Some(3));
    assert_eq!(v.get_str("n"), None);
    assert_eq!(JsonValue::Array(vec![]).get("a"), None);
    assert_eq!(JsonValue::Number(JsonNumber::NegInt(-1)).as_u64(), None);
    assert_eq!(JsonValue::Number(JsonNumber::Float("1.5".into())).as_u64(), None);
}

#[test]
fn with_member_replaces_or_appends() {
    let v = obj(vec![("a", s("x")), ("b", s("y"))]);
    let v = v.with_member("a".to_string(), s("z"));
    assert_eq!(v.get_str("a"), Some("z".to_string()));
    assert_eq!(v.get_str("b"), Some("y".to_string()));
    let v = v.with_member("c".to_string(), JsonValue::Bool(true));
    assert_eq!(v.get_bool("c"), Some(true));
    if let JsonValue::Object(ms) = &v {
        assert_eq!(ms.len(), 3);
    } else {
        panic!("not an object");
    }
}

#[test]
fn without_member_removes_the_key_only() {
    let v = obj(vec![("a", s("x")), ("b", s("y"))]);
    let v = v.without_member("a");
    assert_eq!(v.get("a"), None);
    assert_eq!(v.get_str("b"), Some("y".to_string()));
    let v = v.without_member("missing");
    assert_eq!(v.get_str("b"), Some("y".to_string()));
}

#[test]
fn into_member_moves_the_value_out() {
    let v = obj(vec![("a", JsonValue::Array(vec![s("1")]))]);
    assert_eq!(v.into_member("a"), Some(JsonValue::Array(vec![s("1")])));
    assert_eq!(JsonValue::Null.into_member("a"), None);
}

#[test]
fn written_json_reads_back() {
    let v = || {
        JsonValue::Object(vec![
            JsonMember { key: "a\"}".into(), value: JsonValue::Array(vec![s("x\\"), JsonValue::Null]) },
            JsonMember { key: "b".into(), value: JsonValue::Number(JsonNumber::NegInt(-7)) },
            JsonMember { key: "c".into(), value: JsonValue::Number(JsonNumber::Float("2.5e3".into())) },
        ])
    };
    let text = to_json_text(&v());
    assert_eq!(text, "{\"a\\\"}\":[\"x\\\\\",null],\"b\":-7,\"c\":2.5e3}");
    let back = json_from_text(&text).unwrap();
    match back {
        JsonValue::Object(ms) => {
            assert_eq!(ms.len(), 3);
            assert_eq!(ms[0].key, "a\"}");
            assert_eq!(ms[0].value, JsonValue::Array(vec![s("x\\"), JsonValue::Null]));
            assert_eq!(ms[1].value, JsonValue::Number(JsonNumber::NegInt(-7)));
        }
        other => panic!("not an object: {:?}", other),
    }
    assert_eq!(json_from_text("{"), None);
}

#[test]
fn pretty_text_matches_serde_json() {
    let text = "{\"a\":[1,{\"b\":null},[]],\"c\":{},\"d\":\"x\\ny\"}";
    let v = json_from_text(text).unwrap();
    let parsed: serde_json::Value = serde_json::from_str(text).unwrap();
    let pretty = to_json_pretty_text(&v);
    assert_eq!(pretty, serde_json::to_string_pretty(&parsed).unwrap());
    assert_eq!(pretty, "{\n  \"a\": [\n    1,\n    {\n      \"b\": null\n    },\n    []\n  ],\n  \"c\": {},\n  \"d\": \"x\\ny\"\n}");
}
