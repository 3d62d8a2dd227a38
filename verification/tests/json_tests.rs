use rusty_framework::json::{array, entry, object, write_quoted, Json};

fn text(j: &Json) -> String {
    j.to_json_string()
}

#[test]
fn scalars_are_written_compactly() {
    assert_eq!(text(&Json::Null), "null");
    assert_eq!(text(&Json::Bool(true)), "true");
    assert_eq!(text(&Json::Bool(false)), "false");
    assert_eq!(text(&Json::Number("6".to_string())), "6");
    assert_eq!(text(&Json::from_u64(0)), "0");
    assert_eq!(text(&Json::from_u64(500)), "500");
    assert_eq!(text(&Json::from_u64(u64::MAX)), "18446744073709551615");
    assert_eq!(text(&Json::string("Hi")), "\"Hi\"");
}

#[test]
fn strings_are_escaped_like_serde_json() {
    for code in 0u32..0x100 {
        let c = char::from_u32(code).unwrap();
        let s: String = ['a', c, 'z'].iter().collect();
        let mut out = String::new();
        write_quoted(&s, &mut out);
        assert_eq!(out, serde_json::to_string(&s).unwrap(), "char {code:#x}");
    }
    let mixed = "tab\there \"quoted\" back\\slash ⭐ \u{1e}\u{7f}";
    assert_eq!(text(&Json::string(mixed)), serde_json::to_string(mixed).unwrap());
}

#[test]
fn control_characters_use_short_or_hex_escapes() {
    assert_eq!(text(&Json::string("\n\r\t\u{8}\u{c}")), "\"\\n\\r\\t\\b\\f\"");
    assert_eq!(text(&Json::string("\u{0}\u{1e}\u{1f}")), "\"\\u0000\\u001e\\u001f\"");
}

#[test]
fn write_quoted_appends() {
    let mut out = String::from("key:");
    write_quoted("v", &mut out);
    assert_eq!(out, "key:\"v\"");
}

#[test]
fn nested_values_keep_their_order() {
    let v = object(vec![
        entry("b", array(vec![Json::from_u64(1), Json::Null, Json::Bool(true)])),
        entry("a", object(vec![])),
        entry("c", array(vec![])),
    ]);
    assert_eq!(text(&v), "{\"b\":[1,null,true],\"a\":{},\"c\":[]}");
}

#[test]
fn sorted_objects_match_serde_json() {
    let v = object(vec![
        entry("children", array(vec![])),
        entry("id", Json::string("x\"y")),
        entry("props", object(vec![entry("content", Json::string("Hello\n"))])),
        entry("type", Json::string("Ivy.TextBlock")),
    ]);
    let mut props = serde_json::Map::new();
    props.insert("content".to_string(), serde_json::Value::String("Hello\n".to_string()));
    let mut m = serde_json::Map::new();
    m.insert("type".to_string(), serde_json::Value::String("Ivy.TextBlock".to_string()));
    m.insert("props".to_string(), serde_json::Value::Object(props));
    m.insert("id".to_string(), serde_json::Value::String("x\"y".to_string()));
    m.insert("children".to_string(), serde_json::Value::Array(vec![]));
    assert_eq!(text(&v), serde_json::Value::Object(m).to_string());
}

#[test]
fn optional_helpers() {
    assert_eq!(text(&Json::opt_string(&None)), "null");
    assert_eq!(text(&Json::opt_string(&Some("s".to_string()))), "\"s\"");
    assert_eq!(text(&Json::opt_u32(None)), "null");
    assert_eq!(text(&Json::opt_u32(Some(4294967295))), "4294967295");
}

#[test]
fn written_json_has_no_control_characters() {
    let v = array(vec![
        Json::string("\u{0}\u{1}\n\u{1e}"),
        object(vec![entry("\u{1f}", Json::from_u64(7))]),
    ]);
    let t = text(&v);
    assert!(t.chars().all(|c| (c as u32) >= 0x20));
    assert_eq!(t, "[\"\\u0000\\u0001\\n\\u001e\",{\"\\u001f\":7}]");
}
