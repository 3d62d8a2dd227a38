use rusty_framework::json::{array, entry, object, Json};
use rusty_framework::server::{
    handle_frame, FrameAction,
    decide, handshake_reply, is_change_without_value, negotiate, negotiate_response,
    pong_message, refresh_message, strip_record_separators, ClientAction,
};

fn from_value(v: &serde_json::Value) -> Json {
    match v {
        serde_json::Value::Null => Json::Null,
        serde_json::Value::Bool(b) => Json::Bool(*b),
        serde_json::Value::Number(n) => Json::Number(n.to_string()),
        serde_json::Value::String(s) => Json::Str(s.clone()),
        serde_json::Value::Array(items) => array(items.iter().map(from_value).collect()),
        serde_json::Value::Object(m) => {
            object(m.iter().map(|(k, v)| entry(k, from_value(v))).collect())
        }
    }
}

fn msg(text: &str) -> Json {
    from_value(&serde_json::from_str::<serde_json::Value>(text).unwrap())
}

#[test]
fn handshake_answers_protocol_requests() {
    assert_eq!(
        handshake_reply("{\"protocol\":\"json\",\"version\":1}\u{1e}").as_deref(),
        Some("{}\u{1e}")
    );
    assert_eq!(handshake_reply("{\"hello\":1}"), None);
    assert_eq!(handshake_reply(""), None);
}

#[test]
fn trailing_separators_are_removed() {
    assert_eq!(strip_record_separators("{\"type\":6}\u{1e}"), "{\"type\":6}");
    assert_eq!(strip_record_separators("{}\u{1e}\u{1e}\u{1e}"), "{}");
    assert_eq!(strip_record_separators("a\u{1e}b"), "a\u{1e}b");
    assert_eq!(strip_record_separators("\u{1e}"), "");
    assert_eq!(strip_record_separators(""), "");
}

#[test]
fn stripping_twice_equals_stripping_once() {
    for s in ["x\u{1e}\u{1e}", "\u{1e}x", "", "plain"] {
        let once = strip_record_separators(s);
        assert_eq!(strip_record_separators(&once), once);
    }
}

#[test]
fn ping_is_answered() {
    assert!(matches!(decide(&msg("{\"type\":6}")), ClientAction::Pong));
    assert_eq!(pong_message(), "{\"type\":6}\u{1e}");
}

#[test]
fn on_change_sets_the_state() {
    let m = msg("{\"type\":1,\"target\":\"Event\",\"arguments\":[\"OnChange\",\"name\",[\"Rory\"]]}");
    assert!(!is_change_without_value(&m));
    match decide(&m) {
        ClientAction::ChangeValue { id, value } => {
            assert_eq!(id, "name");
            assert_eq!(value, "Rory");
        }
        other => panic!("unexpected {:?}", other),
    }
}

#[test]
fn on_change_with_non_strings_reads_empty_text() {
    let m = msg("{\"type\":1,\"target\":\"Event\",\"arguments\":[\"OnChange\",5,[true,\"x\"],\"extra\"]}");
    match decide(&m) {
        ClientAction::ChangeValue { id, value } => {
            assert_eq!(id, "");
            assert_eq!(value, "");
        }
        other => panic!("unexpected {:?}", other),
    }
}

#[test]
fn other_messages_are_ignored() {
    let ignored = [
        "{\"type\":1,\"target\":\"Event\",\"arguments\":[\"OnClick\",\"b\",[]]}",
        "{\"type\":1,\"target\":\"Event\",\"arguments\":[\"OnChange\",\"n\"]}",
        "{\"type\":1,\"target\":\"Other\",\"arguments\":[\"OnChange\",\"n\",[\"v\"]]}",
        "{\"type\":1,\"target\":\"Event\",\"arguments\":[\"OnChange\",\"n\",\"v\"]}",
        "{\"type\":1.0,\"target\":\"Event\",\"arguments\":[\"OnChange\",\"n\",[\"v\"]]}",
        "{\"type\":6.5}",
        "{\"type\":\"6\"}",
        "{\"type\":7}",
        "[6]",
        "null",
        "{}",
    ];
    for text in ignored {
        let m = msg(text);
        assert!(!is_change_without_value(&m), "{text}");
        assert!(matches!(decide(&m), ClientAction::Ignore), "{text}");
    }
}

#[test]
fn change_without_value_is_detected() {
    let m = msg("{\"type\":1,\"target\":\"Event\",\"arguments\":[\"OnChange\",\"n\",[]]}");
    assert!(is_change_without_value(&m));
}

#[test]
fn refresh_message_frames_the_tree() {
    let widgets = object(vec![entry("type", Json::string("logo"))]);
    let text = refresh_message(widgets);
    assert_eq!(
        text,
        "{\"arguments\":[{\"widgets\":{\"type\":\"logo\"}}],\"target\":\"Refresh\",\"type\":1}\u{1e}"
    );
    let mut holder = serde_json::Map::new();
    let mut w = serde_json::Map::new();
    w.insert("type".to_string(), serde_json::Value::String("logo".to_string()));
    holder.insert("widgets".to_string(), serde_json::Value::Object(w));
    let mut m = serde_json::Map::new();
    m.insert("type".to_string(), serde_json::Value::from(1));
    m.insert("target".to_string(), serde_json::Value::String("Refresh".to_string()));
    m.insert(
        "arguments".to_string(),
        serde_json::Value::Array(vec![serde_json::Value::Object(holder)]),
    );
    assert_eq!(text, serde_json::Value::Object(m).to_string() + "\u{1e}");
}

#[test]
fn refresh_framing_survives_stripping() {
    let widgets = array(vec![Json::string("a\u{1e}"), Json::Null]);
    let framed = refresh_message(widgets);
    let stripped = strip_record_separators(&framed);
    assert_eq!(stripped.len() + 1, framed.len());
    assert!(framed.ends_with('\u{1e}'));
    let back: serde_json::Value = serde_json::from_str(&stripped).unwrap();
    assert_eq!(back["arguments"][0]["widgets"][0], "a\u{1e}");
}

#[test]
fn negotiate_response_text() {
    assert_eq!(
        negotiate_response("abc").to_json_string(),
        "{\"connectionId\":\"abc\",\"connectionToken\":\"abc\",\"negotiateVersion\":1,\"availableTransports\":[{\"transport\":\"WebSockets\",\"transferFormats\":[\"Text\"]}]}"
    );
}

#[test]
fn negotiate_uses_one_fresh_id() {
    let a: serde_json::Value = serde_json::from_str(&negotiate().to_json_string()).unwrap();
    let b: serde_json::Value = serde_json::from_str(&negotiate().to_json_string()).unwrap();
    let id = a["connectionId"].as_str().unwrap();
    assert_eq!(id.len(), 36);
    assert_eq!(a["connectionToken"], a["connectionId"]);
    assert_ne!(a["connectionId"], b["connectionId"]);
    assert_eq!(a["negotiateVersion"], 1);
}

#[test]
fn frames_are_parsed_then_decided() {
    assert!(matches!(handle_frame("not json\u{1e}"), FrameAction::Skip));
    assert!(matches!(handle_frame(""), FrameAction::Skip));
    assert!(matches!(handle_frame("{\"type\":6}\u{1e}"), FrameAction::Act(ClientAction::Pong)));
    assert!(matches!(handle_frame("{\"type\":6.0}\u{1e}"), FrameAction::Act(ClientAction::Ignore)));
    assert!(matches!(
        handle_frame("{\"type\":1,\"target\":\"Event\",\"arguments\":[\"OnChange\",\"n\",[]]}\u{1e}"),
        FrameAction::Fail
    ));
    match handle_frame("{\"arguments\":[\"OnChange\",\"name\",[\"Rory\"]],\"type\":1,\"target\":\"Event\"}\u{1e}\u{1e}") {
        FrameAction::Act(ClientAction::ChangeValue { id, value }) => {
            assert_eq!(id, "name");
            assert_eq!(value, "Rory");
        }
        other => panic!("unexpected {:?}", other),
    }
    // a repeated key keeps its last value
    assert!(matches!(handle_frame("{\"type\":1,\"type\":6}"), FrameAction::Act(ClientAction::Pong)));
}
