use front_chat::content::{
    extract_enhanced_content, extract_text_content, format_tool_result_preview, parse_json_data,
    parts_are_displayable, preview_is_defined, MessageContent, ToolResult, ToolStatus, ToolUse,
};
use front_chat::json::JsonValue;

fn doc(text: &str) -> JsonValue {
    parse_json_data(text.as_bytes()).expect("test document is JSON")
}

fn preview(text: &str) -> String {
    format_tool_result_preview(&doc(text))
}

#[test]
fn parse_json_data_reads_documents() {
    match doc(r#"{"a": [1, true, null], "b": "x"}"#) {
        JsonValue::Object(fields) => {
            assert_eq!(fields.len(), 2);
            assert_eq!(fields[0].0, "a");
            assert_eq!(fields[1].0, "b");
            match &fields[0].1 {
                JsonValue::Array(items) => assert_eq!(items.len(), 3),
                other => panic!("unexpected {:?}", other),
            }
        }
        other => panic!("unexpected {:?}", other),
    }
}

#[test]
fn parse_json_data_rejects_bad_utf8_and_bad_json() {
    let e = parse_json_data(&[0xff, 0xfe]).unwrap_err();
    assert!(e.starts_with("Invalid UTF-8 in JSON data: "), "{}", e);
    let e = parse_json_data(b"{oops").unwrap_err();
    assert!(e.starts_with("Invalid JSON: "), "{}", e);
}

#[test]
fn preview_of_short_and_long_strings() {
    assert_eq!(preview(r#""hello""#), "hello");
    let exact = "a".repeat(100);
    assert_eq!(preview(&format!("\"{}\"", exact)), exact);
    let long = "b".repeat(150);
    let p = preview(&format!("\"{}\"", long));
    assert_eq!(p, format!("{}...", "b".repeat(97)));
    assert_eq!(p.len(), 100);
}

#[test]
fn preview_of_objects() {
    assert_eq!(preview(r#"{"text": "from text", "content": "from content"}"#), "from text");
    assert_eq!(preview(r#"{"text": 3, "content": "from content"}"#), "from content");
    assert_eq!(preview(r#"{"a": 1, "b": 2, "c": 3}"#), "Object with 3 fields");
    assert_eq!(preview(r#"{}"#), "Object with 0 fields");
}

#[test]
fn preview_of_other_values() {
    assert_eq!(preview("[1, 2, 3, 4]"), "Array with 4 items");
    assert_eq!(preview("42"), "42");
    assert_eq!(preview("-1.5"), "-1.5");
    assert_eq!(preview("true"), "true");
    assert_eq!(preview("false"), "false");
    assert_eq!(preview("null"), "null");
}

#[test]
fn preview_that_would_cut_a_character_is_not_defined() {
    let wide = "\u{e9}".repeat(51);
    assert!(!preview_is_defined(&doc(&format!("\"{}\"", wide))));
    let narrow = "\u{e9}".repeat(50);
    assert!(preview_is_defined(&doc(&format!("\"{}\"", narrow))));
    assert!(preview_is_defined(&doc(&format!("\"{}\"", "x".repeat(300)))));
}

fn tool_use(id: &str, name: &str, input: &str) -> MessageContent {
    MessageContent::ToolUse(ToolUse { id: id.to_string(), name: name.to_string(), input: input.as_bytes().to_vec() })
}

fn tool_result(id: &str, content: &str, is_error: bool) -> MessageContent {
    MessageContent::ToolResult(ToolResult {
        tool_use_id: id.to_string(),
        content: content.as_bytes().to_vec(),
        is_error,
    })
}

#[test]
fn enhanced_content_reads_each_part() {
    let parts = vec![
        MessageContent::Text("Let me look.".to_string()),
        tool_use("t1", "search", r#"{"q": "rust"}"#),
        tool_result("t1", r#""found it""#, false),
        tool_result("t2", "not json", true),
    ];
    assert!(parts_are_displayable(&parts));
    let (text, uses, results) = extract_enhanced_content(&parts);
    assert_eq!(uses.len(), 1);
    assert_eq!(uses[0].id, "t1");
    assert_eq!(uses[0].name, "search");
    assert_eq!(uses[0].status, ToolStatus::Pending);
    assert!(matches!(&uses[0].input, JsonValue::Object(f) if f.len() == 1));
    assert_eq!(results.len(), 2);
    assert!(matches!(&results[0].content, JsonValue::Str(s) if s == "found it"));
    assert!(!results[0].is_error);
    assert_eq!(results[0].execution_time_ms, None);
    match &results[1].content {
        JsonValue::Str(s) => assert!(s.starts_with("Error parsing result: Invalid JSON: "), "{}", s),
        other => panic!("unexpected {:?}", other),
    }
    let lines: Vec<&str> = text.split('\n').collect();
    assert_eq!(lines.len(), 4);
    assert_eq!(lines[0], "Let me look.");
    assert_eq!(lines[1], "\u{1f527} **Tool Call**: search");
    assert_eq!(lines[2], "\u{2705} **Tool Result**: found it");
    assert!(lines[3].starts_with("\u{274c} **Tool Result**: Error parsing result: Invalid JSON: "));
}

#[test]
fn tool_use_with_bad_input_gets_an_empty_object() {
    let parts = vec![tool_use("t9", "calc", "{not json")];
    let (_, uses, _) = extract_enhanced_content(&parts);
    assert!(matches!(&uses[0].input, JsonValue::Object(f) if f.is_empty()));
}

#[test]
fn extract_text_content_joins_lines() {
    let parts = vec![MessageContent::Text("one".to_string()), MessageContent::Text("two".to_string())];
    assert_eq!(extract_text_content(&parts), "one\ntwo");
    assert_eq!(extract_text_content(&[]), "");
}

#[test]
fn display_text_of_two_part_lists_joins_with_a_newline() {
    let a = vec![MessageContent::Text("one".into()), tool_use("t", "search", "{}")];
    let b = vec![tool_result("t", "\"ok\"", true)];
    let both: Vec<MessageContent> = vec![
        MessageContent::Text("one".into()),
        tool_use("t", "search", "{}"),
        tool_result("t", "\"ok\"", true),
    ];
    let joined = format!("{}\n{}", extract_text_content(&a), extract_text_content(&b));
    assert_eq!(extract_text_content(&both), joined);
    assert_eq!(joined, "one\n\u{1f527} **Tool Call**: search\n\u{274c} **Tool Result**: ok");
    assert_eq!(extract_text_content(&[]), "");
}
