use front_chat::content::{MessageContent, ToolResult, ToolUse};
use front_chat::message::{
    create_enhanced_chat_message, create_separated_tool_messages, create_text_only_message,
    create_tool_call_message, create_tool_result_message, ChatMessage, ChatMessageType,
};

fn text(t: &str) -> MessageContent {
    MessageContent::Text(t.to_string())
}

fn use_part(id: &str, name: &str) -> MessageContent {
    MessageContent::ToolUse(ToolUse { id: id.to_string(), name: name.to_string(), input: b"{}".to_vec() })
}

fn result_part(id: &str, content: &str) -> MessageContent {
    MessageContent::ToolResult(ToolResult {
        tool_use_id: id.to_string(),
        content: content.as_bytes().to_vec(),
        is_error: false,
    })
}

fn ids(msgs: &[ChatMessage]) -> Vec<String> {
    msgs.iter().map(|m| m.id.clone()).collect()
}

#[test]
fn enhanced_message_is_classified_by_its_tools() {
    let m = create_enhanced_chat_message("a".into(), None, "user".into(), vec![text("hi")], 7, Some(true));
    assert_eq!(m.message_type, ChatMessageType::Text);
    assert!(!m.has_tools);
    assert_eq!(m.display_text, "hi");
    assert_eq!(m.timestamp, 7);
    let m = create_enhanced_chat_message("b".into(), None, "assistant".into(), vec![use_part("t", "x")], 0, None);
    assert_eq!(m.message_type, ChatMessageType::ToolCall);
    assert!(m.has_tools);
    let m = create_enhanced_chat_message("c".into(), None, "assistant".into(), vec![result_part("t", "1")], 0, None);
    assert_eq!(m.message_type, ChatMessageType::ToolResult);
    let m = create_enhanced_chat_message(
        "d".into(),
        Some("p".into()),
        "assistant".into(),
        vec![use_part("t", "x"), result_part("t", "1")],
        0,
        None,
    );
    assert_eq!(m.message_type, ChatMessageType::Mixed);
    assert_eq!(m.parent_id.as_deref(), Some("p"));
    assert_eq!(m.tool_call_id, None);
    assert_eq!(m.related_message_id, None);
}

#[test]
fn text_only_message_never_claims_tools() {
    let m = create_text_only_message("e".into(), None, "assistant".into(), vec![use_part("t", "x")], 0, None);
    assert_eq!(m.message_type, ChatMessageType::Text);
    assert!(!m.has_tools);
    assert_eq!(m.tool_uses.len(), 1);
}

#[test]
fn tool_call_and_result_messages_link() {
    let call = create_tool_call_message(
        "m1".into(),
        None,
        "assistant".into(),
        ToolUse { id: "t7".into(), name: "fetch".into(), input: b"{}".to_vec() },
        0,
        Some(false),
    );
    assert_eq!(call.tool_call_id.as_deref(), Some("t7"));
    assert_eq!(call.display_text, "\u{1f527} **Tool Call**: fetch");
    let result = create_tool_result_message(
        "m2".into(),
        Some("m1".into()),
        "assistant".into(),
        ToolResult { tool_use_id: "t7".into(), content: b"[1,2]".to_vec(), is_error: true },
        0,
        Some(true),
    );
    assert_eq!(result.message_type, ChatMessageType::ToolResult);
    assert_eq!(result.tool_call_id.as_deref(), Some("t7"));
    assert_eq!(result.related_message_id.as_deref(), Some("m1"));
    assert_eq!(result.display_text, "\u{274c} **Tool Result**: Array with 2 items");
}

#[test]
fn separated_messages_follow_the_turn() {
    let parts = vec![
        text("Checking."),
        use_part("t1", "search"),
        result_part("t1", r#""ok""#),
        text("Done,"),
        text("bye."),
    ];
    let msgs = create_separated_tool_messages("base".into(), Some("parent".into()), "assistant".into(), parts, 0, Some(true));
    assert_eq!(ids(&msgs), vec!["base-text-0", "base-tool-1", "base-result-2", "base-text-final"]);
    assert_eq!(msgs[0].parent_id.as_deref(), Some("parent"));
    assert_eq!(msgs[0].finished, Some(true));
    assert_eq!(msgs[1].parent_id.as_deref(), Some("base-text-0"));
    assert_eq!(msgs[1].finished, Some(false));
    assert_eq!(msgs[2].parent_id.as_deref(), Some("base-tool-1"));
    assert_eq!(msgs[2].related_message_id.as_deref(), Some("base-tool-1"));
    assert_eq!(msgs[3].parent_id.as_deref(), Some("base-result-2"));
    assert_eq!(msgs[3].display_text, "Done,\nbye.");
    assert_eq!(msgs[3].finished, Some(true));
}

#[test]
fn separated_result_without_its_call_has_no_link() {
    let msgs = create_separated_tool_messages(
        "b".into(),
        None,
        "assistant".into(),
        vec![result_part("missing", "1")],
        0,
        Some(false),
    );
    assert_eq!(ids(&msgs), vec!["b-result-0"]);
    assert_eq!(msgs[0].parent_id, None);
    assert_eq!(msgs[0].related_message_id, None);
}

#[test]
fn separated_result_links_to_the_latest_matching_call() {
    let msgs = create_separated_tool_messages(
        "b".into(),
        None,
        "assistant".into(),
        vec![use_part("x", "a"), use_part("y", "b"), use_part("x", "c"), result_part("x", "1")],
        0,
        None,
    );
    assert_eq!(ids(&msgs), vec!["b-tool-0", "b-tool-1", "b-tool-2", "b-result-3"]);
    assert_eq!(msgs[0].parent_id, None);
    assert_eq!(msgs[1].parent_id.as_deref(), Some("b-tool-0"));
    assert_eq!(msgs[3].related_message_id.as_deref(), Some("b-tool-2"));
}

#[test]
fn separated_empty_turn_gets_a_placeholder() {
    let msgs = create_separated_tool_messages("b".into(), Some("p".into()), "assistant".into(), vec![], 0, Some(true));
    assert_eq!(ids(&msgs), vec!["b"]);
    assert_eq!(msgs[0].display_text, "[No content]");
    assert_eq!(msgs[0].parent_id.as_deref(), Some("p"));
    assert_eq!(msgs[0].message_type, ChatMessageType::Text);
}

#[test]
fn separated_numbers_pass_ten() {
    let mut parts = Vec::new();
    for i in 0..12 {
        parts.push(use_part(&format!("t{}", i), "n"));
    }
    let msgs = create_separated_tool_messages("q".into(), None, "assistant".into(), parts, 0, None);
    assert_eq!(msgs.len(), 12);
    assert_eq!(msgs[10].id, "q-tool-10");
    assert_eq!(msgs[11].id, "q-tool-11");
}

#[test]
fn separated_messages_keep_every_part() {
    let parts = vec![text("a"), use_part("t1", "n"), text("b"), result_part("t1", "1"), text("c")];
    let msgs = create_separated_tool_messages("m".into(), None, "assistant".into(), parts, 0, Some(true));
    assert_eq!(ids(&msgs), vec!["m-text-0", "m-tool-1", "m-result-2", "m-text-final"]);
    let mut texts = Vec::new();
    let mut tools = Vec::new();
    for m in &msgs {
        for p in &m.content {
            match p {
                MessageContent::Text(t) => texts.push(t.clone()),
                MessageContent::ToolUse(u) => tools.push(format!("use {}", u.id)),
                MessageContent::ToolResult(r) => tools.push(format!("result {}", r.tool_use_id)),
            }
        }
    }
    assert_eq!(texts, vec!["a", "b", "c"]);
    assert_eq!(tools, vec!["use t1", "result t1"]);
}

#[test]
fn separated_messages_have_the_turns_shape() {
    let parts = vec![text("a"), use_part("t1", "n"), use_part("t2", "n"), result_part("t1", "1"), text("b")];
    let msgs = create_separated_tool_messages("m".into(), Some("p".into()), "assistant".into(), parts, 9, Some(true));
    let calls = msgs.iter().filter(|m| m.message_type == ChatMessageType::ToolCall).count();
    let results = msgs.iter().filter(|m| m.message_type == ChatMessageType::ToolResult).count();
    assert_eq!((calls, results), (2, 1));
    for (i, m) in msgs.iter().enumerate() {
        assert_eq!(m.role, "assistant");
        assert_eq!(m.timestamp, 9);
        assert!(!m.content.is_empty());
        assert_ne!(m.message_type, ChatMessageType::Mixed);
        assert_eq!(m.tool_call_id.is_some(), m.message_type != ChatMessageType::Text);
        if m.message_type == ChatMessageType::ToolCall {
            assert_eq!(m.content.len(), 1);
            assert_eq!(m.finished, Some(false));
            let expected = if i == 0 { Some("p".to_string()) } else { Some(msgs[i - 1].id.clone()) };
            assert_eq!(m.parent_id, expected);
        }
    }
}
