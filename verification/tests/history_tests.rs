use front_chat::content::{parse_json_data, MessageContent};
use front_chat::history::{
    convert_chat_state_messages_to_client, extract_text_from_content_array, history_is_displayable,
    parse_content_array,
};
use front_chat::json::JsonValue;
use front_chat::message::ChatMessageType;

fn items(text: &str) -> Vec<JsonValue> {
    match parse_json_data(text.as_bytes()).expect("test document is JSON") {
        JsonValue::Array(items) => items,
        other => panic!("not an array: {:?}", other),
    }
}

#[test]
fn content_array_parts() {
    let parsed = parse_content_array(&items(
        r#"[
            {"Text": "hello"},
            {"ToolUse": {"id": "t1", "name": "search", "input": {"q": "x"}}},
            {"ToolUse": {}},
            {"ToolUse": "odd"},
            {"ToolResult": {"tool-use-id": "t1", "content": [1], "is-error": true}},
            {"ToolResult": {"tool_use_id": 5}},
            {"ToolResult": 1},
            {"Other": 1},
            "not an object"
        ]"#,
    ))
    .unwrap();
    assert_eq!(parsed.len(), 7);
    assert!(matches!(&parsed[0], MessageContent::Text(t) if t == "hello"));
    match &parsed[1] {
        MessageContent::ToolUse(u) => {
            assert_eq!(u.id, "t1");
            assert_eq!(u.name, "search");
            assert_eq!(u.input, br#"{"q":"x"}"#.to_vec());
        }
        other => panic!("unexpected {:?}", other),
    }
    match &parsed[2] {
        MessageContent::ToolUse(u) => {
            assert_eq!(u.id, "unknown");
            assert_eq!(u.name, "unknown_tool");
            assert_eq!(u.input, b"{}".to_vec());
        }
        other => panic!("unexpected {:?}", other),
    }
    assert!(matches!(&parsed[3], MessageContent::Text(t) if t == "[Tool Use]"));
    match &parsed[4] {
        MessageContent::ToolResult(r) => {
            assert_eq!(r.tool_use_id, "t1");
            assert_eq!(r.content, b"[1]".to_vec());
            assert!(r.is_error);
        }
        other => panic!("unexpected {:?}", other),
    }
    match &parsed[5] {
        MessageContent::ToolResult(r) => {
            assert_eq!(r.tool_use_id, "unknown");
            assert_eq!(r.content, b"null".to_vec());
            assert!(!r.is_error);
        }
        other => panic!("unexpected {:?}", other),
    }
    assert!(matches!(&parsed[6], MessageContent::Text(t) if t == "[Tool Result]"));
}

#[test]
fn content_array_text_rendering() {
    let text = extract_text_from_content_array(&items(
        r#"[{"Text": "a"}, {"ToolUse": 1}, {"ToolResult": {}}, {"Text": 5}, 3]"#,
    ));
    assert_eq!(text, "a [Tool Use] [Tool Result]");
    assert_eq!(extract_text_from_content_array(&items("[]")), "[No displayable content]");
    assert_eq!(extract_text_from_content_array(&items(r#"[{"x": 1}]"#)), "[No displayable content]");
}

#[test]
fn history_becomes_chat_messages() {
    let entries = items(
        r#"[
            {"id": "m1", "entry": {"Message": {"role": "User", "content": [{"Text": "hi"}]}}},
            {"parent_id": "m1", "entry": {"Completion": {"content": [{"Text": "hello"}], "stop_reason": "MaxTokens"}}},
            {"id": "m3", "entry": {"Completion": {"content": [{"ToolUse": {"id": "t", "name": "n"}}]}}},
            {"id": "m4", "entry": "not an object"},
            {"id": "m5", "entry": {"Message": {"content": []}}},
            {"id": "m6"}
        ]"#,
    );
    assert!(history_is_displayable(&entries));
    let msgs = convert_chat_state_messages_to_client(&entries).unwrap();
    assert_eq!(msgs.len(), 3);
    assert_eq!(msgs[0].id, "m1");
    assert_eq!(msgs[0].role, "user");
    assert_eq!(msgs[0].finished, Some(true));
    assert_eq!(msgs[0].timestamp, 0);
    assert_eq!(msgs[1].id, "msg_1");
    assert_eq!(msgs[1].parent_id.as_deref(), Some("m1"));
    assert_eq!(msgs[1].role, "assistant");
    assert_eq!(msgs[1].finished, Some(false));
    assert_eq!(msgs[1].display_text, "hello");
    assert_eq!(msgs[2].id, "m3");
    assert_eq!(msgs[2].finished, Some(true));
    assert_eq!(msgs[2].message_type, ChatMessageType::ToolCall);
}

#[test]
fn history_with_an_uncuttable_preview_is_not_displayable() {
    let wide = "\u{e9}".repeat(60);
    let entries = items(&format!(
        r#"[{{"entry": {{"Completion": {{"content": [{{"ToolResult": {{"tool_use_id": "t", "content": "{}"}}}}]}}}}}}]"#,
        wide
    ));
    assert!(!history_is_displayable(&entries));
}
