use drata_cli::client::encode_query;
use drata_cli::json::{insert_member, Json};
use drata_cli::json_text::{to_compact, to_pretty};
use drata_cli::pointer::pointer;

fn to_json(v: &serde_json::Value) -> Json {
    match v {
        serde_json::Value::Null => Json::Null,
        serde_json::Value::Bool(b) => Json::Bool(*b),
        serde_json::Value::Number(n) => Json::Number(n.to_string()),
        serde_json::Value::String(s) => Json::Str(s.clone()),
        serde_json::Value::Array(a) => Json::Array(a.iter().map(to_json).collect()),
        serde_json::Value::Object(m) => Json::Object(m.iter().map(|(k, v)| (k.clone(), to_json(v))).collect()),
    }
}

fn json(text: &str) -> Json {
    to_json(&serde_json::from_str(text).unwrap())
}

#[test]
fn compact_and_pretty_match_serde_json() {
    for text in [
        r#"{"a":1,"b":[true,null,"x\ny"],"c":{"d":"é\u0001\"\\"}}"#,
        r#"[]"#,
        r#"{}"#,
        r#"[{"k":[]},{"k":{}}]"#,
        r#""tab\there""#,
    ] {
        let v: serde_json::Value = serde_json::from_str(text).unwrap();
        let j = to_json(&v);
        assert_eq!(to_compact(&j), serde_json::to_string(&v).unwrap(), "{text}");
        assert_eq!(to_pretty(&j), serde_json::to_string_pretty(&v).unwrap(), "{text}");
    }
}

#[test]
fn json_pointer_walks_members_and_indices() {
    let doc = json(r#"{"components":{"schemas":{"a~b":{"x/y":[10,20]}}}}"#);
    let found = pointer(&doc, "/components/schemas/a~0b/x~1y/1").unwrap();
    assert_eq!(to_compact(found), "20");
    assert!(pointer(&doc, "/components/missing").is_none());
    assert!(pointer(&doc, "/components/schemas/a~0b/x~1y/01").is_none());
    assert!(pointer(&doc, "/components/schemas/a~0b/x~1y/2").is_none());
    assert_eq!(to_compact(pointer(&doc, "").unwrap()), to_compact(&doc));
}

#[test]
fn members_are_kept_in_key_order() {
    let mut m: Vec<(String, Json)> = Vec::new();
    insert_member(&mut m, "b".to_string(), Json::Null);
    insert_member(&mut m, "a".to_string(), Json::Bool(true));
    insert_member(&mut m, "c".to_string(), Json::Null);
    insert_member(&mut m, "b".to_string(), Json::Bool(false));
    assert_eq!(to_compact(&Json::Object(m)), r#"{"a":true,"b":false,"c":null}"#);
}

#[test]
fn encoded_query_holds_no_reserved_character() {
    for raw in ["a b&c=d+e#f", "naïve ✓", "[x]{y}|z^`\"<>\\", "plain-text_1.0~"] {
        let out = encode_query(raw);
        assert!(out.chars().all(|c| c.is_ascii_graphic()), "{out}");
        for bad in [' ', '"', '#', '<', '>', '[', '\\', ']', '^', '`', '{', '|', '}', '&', '+', '='] {
            assert!(!out.contains(bad), "{raw} -> {out}");
        }
    }
}
