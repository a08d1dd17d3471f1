use front_chat::actor::{
    broadcast_to_connections, channel_message_update, checked_conversation_reply,
    checked_history_for_connection, handle_channel_message, conversation_reply, fallback_reply,
    handle_channel_open, handle_chat_message_update, handle_chat_proxy_response, handle_client_request,
    handle_websocket_connect, handle_websocket_disconnect, handle_websocket_message, history_for_connection,
    incoming_text,
    invalid_request_reply, reply_text, send_message_plan, ClientPlan,
};
use front_chat::content::{parse_json_data, MessageContent, ToolResult, ToolUse};
use front_chat::json::JsonValue;
use front_chat::message::ChatMessageType;
use front_chat::protocol::{
    ChannelMessage, ChatMessageEntry, ChatProxyRequest, ChatProxyResponse, ClientRequest, ClientSettings,
    CompletionMessage, MessageEntryVariant, MessageRole, MessageType, ProxyOutcome, ServerResponse,
    UserMessage, WebsocketMessage,
};
use front_chat::state::{connection_ids, initial_state, FrontChatState};

fn state_with_service() -> FrontChatState {
    initial_state(1, Some("svc".to_string()), "conv".to_string(), None)
}

fn state_alone() -> FrontChatState {
    initial_state(1, None, "conv".to_string(), None)
}

fn error_text(r: &ServerResponse) -> &str {
    match r {
        ServerResponse::Error { message } => message,
        other => panic!("not an error: {:?}", other),
    }
}

#[test]
fn connect_registers_and_greets() {
    let mut state = state_with_service();
    let plan = handle_websocket_connect(&mut state, 42);
    assert!(state.active_connections.contains_key(&42));
    assert_eq!(state.active_connections[&42].connected_at, 0);
    match &plan.welcome {
        ServerResponse::Connected { conversation_id } => assert_eq!(conversation_id, "conv"),
        other => panic!("unexpected {:?}", other),
    }
    assert_eq!(plan.history_from.as_deref(), Some("svc"));

    let mut alone = state_alone();
    let plan = handle_websocket_connect(&mut alone, 7);
    assert_eq!(plan.history_from, None);
}

#[test]
fn disconnect_after_connect_restores_the_connections() {
    let mut state = state_with_service();
    handle_websocket_connect(&mut state, 1);
    let before: Vec<u64> = connection_ids(&state);
    handle_websocket_connect(&mut state, 2);
    assert_eq!(state.active_connections.len(), 2);
    assert!(handle_websocket_disconnect(&mut state, 2));
    assert_eq!(connection_ids(&state), before);
    assert!(!handle_websocket_disconnect(&mut state, 2));
    assert_eq!(state.conversation_id, "conv");
    assert_eq!(state.chat_state_id.as_deref(), Some("svc"));
}

#[test]
fn connection_ids_lists_each_connection_once() {
    let mut state = state_alone();
    for id in [5u64, 3, 9, 3] {
        handle_websocket_connect(&mut state, id);
    }
    let mut ids = connection_ids(&state);
    ids.sort();
    assert_eq!(ids, vec![3, 5, 9]);
}

#[test]
fn broadcast_needs_an_open_connection() {
    let mut state = state_alone();
    let out = broadcast_to_connections(&state, ServerResponse::Error { message: "x".into() });
    assert!(out.is_empty());
    handle_websocket_connect(&mut state, 1);
    let out = broadcast_to_connections(&state, ServerResponse::Error { message: "x".into() });
    assert_eq!(out.len(), 1);
    assert_eq!(error_text(&out[0]), "x");
}

#[test]
fn only_text_frames_are_read() {
    let frame = WebsocketMessage { ty: MessageType::Text, text: Some("hi".into()), data: None };
    assert_eq!(incoming_text(&frame).as_deref(), Some("hi"));
    let frame = WebsocketMessage { ty: MessageType::Text, text: None, data: None };
    assert_eq!(incoming_text(&frame), None);
    let frame = WebsocketMessage { ty: MessageType::Binary, text: Some("hi".into()), data: Some(vec![1]) };
    assert_eq!(incoming_text(&frame), None);
    let frame = WebsocketMessage { ty: MessageType::Other("x".into()), text: Some("hi".into()), data: None };
    assert_eq!(incoming_text(&frame), None);
}

#[test]
fn unreadable_request_is_answered_with_an_error() {
    let mut state = state_alone();
    handle_websocket_connect(&mut state, 1);
    let out = invalid_request_reply(&state, "expected value");
    assert_eq!(out.len(), 1);
    assert_eq!(error_text(&out[0]), "Invalid request format: expected value");
}

#[test]
fn send_message_request_asks_for_an_id() {
    let state = state_alone();
    match handle_client_request(&state, ClientRequest::SendMessage { content: "hello".into() }) {
        ClientPlan::SendMessage { content } => assert_eq!(content, "hello"),
        other => panic!("unexpected {:?}", other),
    }
}

#[test]
fn conversation_request_without_a_service_is_empty() {
    let mut state = state_alone();
    handle_websocket_connect(&mut state, 1);
    match handle_client_request(&state, ClientRequest::GetConversation) {
        ClientPlan::Reply(out) => {
            assert_eq!(out.len(), 1);
            match &out[0] {
                ServerResponse::ConversationState { messages, conversation_id } => {
                    assert!(messages.is_empty());
                    assert_eq!(conversation_id, "conv");
                }
                other => panic!("unexpected {:?}", other),
            }
        }
        other => panic!("unexpected {:?}", other),
    }
}

#[test]
fn conversation_request_with_a_service_fetches_history() {
    let state = state_with_service();
    match handle_client_request(&state, ClientRequest::GetConversation) {
        ClientPlan::FetchHistory { chat_state_id, request } => {
            assert_eq!(chat_state_id, "svc");
            assert!(matches!(request, ChatProxyRequest::GetHistory));
        }
        other => panic!("unexpected {:?}", other),
    }
}

#[test]
fn settings_update_without_a_service_is_not_implemented() {
    let mut state = state_alone();
    handle_websocket_connect(&mut state, 1);
    let settings = ClientSettings { temperature: None, max_tokens: Some(10), model: None };
    match handle_client_request(&state, ClientRequest::UpdateSettings { settings }) {
        ClientPlan::Reply(out) => {
            assert_eq!(out.len(), 1);
            assert_eq!(error_text(&out[0]), "Settings update not implemented yet");
        }
        other => panic!("unexpected {:?}", other),
    }
}

#[test]
fn posted_message_is_shown_and_forwarded() {
    let mut state = state_with_service();
    handle_websocket_connect(&mut state, 1);
    let plan = send_message_plan(&state, "hello".into(), Ok("id-1".into())).unwrap();
    assert!(!plan.needs_fallback);
    assert_eq!(plan.responses.len(), 1);
    match &plan.responses[0] {
        ServerResponse::MessageAdded { message } => {
            assert_eq!(message.id, "id-1");
            assert_eq!(message.role, "user");
            assert_eq!(message.display_text, "hello");
            assert_eq!(message.finished, Some(true));
            assert_eq!(message.message_type, ChatMessageType::Text);
        }
        other => panic!("unexpected {:?}", other),
    }
    assert_eq!(plan.forward.len(), 2);
    match &plan.forward[0] {
        (to, ChatProxyRequest::AddMessage { message }) => {
            assert_eq!(to, "svc");
            assert_eq!(message.role, MessageRole::User);
            assert_eq!(message.content.len(), 1);
            assert!(matches!(&message.content[0], MessageContent::Text(t) if t == "hello"));
        }
        other => panic!("unexpected {:?}", other),
    }
    match &plan.forward[1] {
        (to, ChatProxyRequest::GenerateCompletion) => assert_eq!(to, "svc"),
        other => panic!("unexpected {:?}", other),
    }
}

#[test]
fn posted_message_without_a_service_needs_a_stand_in_answer() {
    let state = state_alone();
    let plan = send_message_plan(&state, "hello".into(), Ok("id-1".into())).unwrap();
    assert!(plan.needs_fallback);
    assert!(plan.forward.is_empty());
    assert!(plan.responses.is_empty());
    let err = send_message_plan(&state, "hello".into(), Err("no entropy".into())).unwrap_err();
    assert_eq!(err, "Failed to generate message ID: no entropy");
}

#[test]
fn stand_in_answer() {
    let mut state = state_alone();
    handle_websocket_connect(&mut state, 1);
    let out = fallback_reply(&state, Ok("f-1".into())).unwrap();
    assert_eq!(out.len(), 1);
    match &out[0] {
        ServerResponse::MessageAdded { message } => {
            assert_eq!(message.id, "f-1");
            assert_eq!(message.role, "assistant");
            assert_eq!(message.display_text, "Chat-state-proxy actor not available. Please try again.");
        }
        other => panic!("unexpected {:?}", other),
    }
    let err = fallback_reply(&state, Err("boom".into())).unwrap_err();
    assert_eq!(err, "Failed to generate message ID: boom");
}

fn history_entries() -> Vec<JsonValue> {
    match parse_json_data(
        br#"[{"id": "m1", "entry": {"Message": {"role": "User", "content": [{"Text": "hi"}]}}}]"#,
    )
    .unwrap()
    {
        JsonValue::Array(items) => items,
        other => panic!("not an array: {:?}", other),
    }
}

#[test]
fn history_reply_outcomes() {
    let mut state = state_with_service();
    handle_websocket_connect(&mut state, 1);
    let out = conversation_reply(
        &state,
        ProxyOutcome::Reply(ChatProxyResponse::History { messages: history_entries() }),
    );
    match &out[0] {
        ServerResponse::ConversationState { messages, conversation_id } => {
            assert_eq!(conversation_id, "conv");
            assert_eq!(messages.len(), 1);
            assert_eq!(messages[0].id, "m1");
            assert_eq!(messages[0].role, "user");
        }
        other => panic!("unexpected {:?}", other),
    }
    let cases = [
        (ProxyOutcome::Reply(ChatProxyResponse::Success), "Failed to get conversation history"),
        (ProxyOutcome::Unreadable, "Failed to parse conversation history"),
        (ProxyOutcome::NotText, "Failed to decode conversation history"),
        (ProxyOutcome::RequestFailed, "Failed to request conversation history"),
    ];
    for (outcome, text) in cases {
        let out = conversation_reply(&state, outcome);
        assert_eq!(out.len(), 1);
        assert_eq!(error_text(&out[0]), text);
    }
}

#[test]
fn history_for_a_new_connection() {
    let state = state_with_service();
    let r = history_for_connection(
        &state,
        ProxyOutcome::Reply(ChatProxyResponse::History { messages: history_entries() }),
    );
    match r {
        Some(ServerResponse::ConversationState { messages, conversation_id }) => {
            assert_eq!(conversation_id, "conv");
            assert_eq!(messages.len(), 1);
        }
        other => panic!("unexpected {:?}", other),
    }
    assert!(history_for_connection(&state, ProxyOutcome::RequestFailed).is_none());
    assert!(history_for_connection(&state, ProxyOutcome::Reply(ChatProxyResponse::Success)).is_none());
}

#[test]
fn reply_bytes_must_be_utf8() {
    assert_eq!(reply_text(b"{\"a\":1}").as_deref(), Some("{\"a\":1}"));
    assert_eq!(reply_text(&[0xff, 0xfe]), None);
}

#[test]
fn channel_is_accepted_only_from_the_own_service() {
    let state = state_with_service();
    let r = handle_channel_open(&state, "svc");
    assert!(r.accepted);
    assert_eq!(
        r.message.unwrap(),
        br#"{"message":"Channel established for real-time updates","type":"channel_accepted"}"#.to_vec()
    );
    let r = handle_channel_open(&state, "other");
    assert!(!r.accepted);
    assert!(r.message.is_none());
    let r = handle_channel_open(&state_alone(), "svc");
    assert!(!r.accepted);
}

#[test]
fn service_error_notice_is_passed_on() {
    let mut state = state_alone();
    handle_websocket_connect(&mut state, 4);
    let d = handle_chat_proxy_response(&state, ChatProxyResponse::Error { message: "bad".into() });
    assert_eq!(d.connection_ids, vec![4]);
    assert_eq!(d.responses.len(), 1);
    assert_eq!(error_text(&d.responses[0]), "Chat error: bad");
    let d = handle_chat_proxy_response(&state, ChatProxyResponse::Success);
    assert!(d.responses.is_empty());
}

fn completion(content: Vec<MessageContent>, stop: &str) -> ChatMessageEntry {
    ChatMessageEntry {
        id: "c1".into(),
        parent_id: Some("u1".into()),
        entry: MessageEntryVariant::Completion(CompletionMessage {
            content,
            id: "x".into(),
            model: "m".into(),
            role: "assistant".into(),
            stop_reason: stop.into(),
            usage: None,
        }),
    }
}

#[test]
fn user_entry_is_announced_once() {
    let mut state = state_alone();
    handle_websocket_connect(&mut state, 1);
    let entry = ChatMessageEntry {
        id: "u1".into(),
        parent_id: None,
        entry: MessageEntryVariant::Message(UserMessage {
            role: "User".into(),
            content: vec![MessageContent::Text("hi".into())],
        }),
    };
    let d = handle_chat_message_update(&state, entry);
    assert_eq!(d.connection_ids, vec![1]);
    assert_eq!(d.responses.len(), 1);
    match &d.responses[0] {
        ServerResponse::MessageAdded { message } => {
            assert_eq!(message.role, "user");
            assert_eq!(message.finished, Some(true));
        }
        other => panic!("unexpected {:?}", other),
    }
}

#[test]
fn completion_with_tools_is_split() {
    let state = state_alone();
    let entry = completion(
        vec![
            MessageContent::Text("looking".into()),
            MessageContent::ToolUse(ToolUse { id: "t".into(), name: "search".into(), input: b"{}".to_vec() }),
            MessageContent::ToolResult(ToolResult {
                tool_use_id: "t".into(),
                content: b"\"found\"".to_vec(),
                is_error: false,
            }),
        ],
        "EndTurn",
    );
    let d = channel_message_update(&state, entry).unwrap();
    assert!(d.connection_ids.is_empty());
    let kinds: Vec<ChatMessageType> = d
        .responses
        .iter()
        .map(|r| match r {
            ServerResponse::MessageAdded { message } => message.message_type,
            other => panic!("unexpected {:?}", other),
        })
        .collect();
    assert_eq!(kinds, vec![ChatMessageType::Text, ChatMessageType::ToolCall, ChatMessageType::ToolResult]);
}

#[test]
fn completion_without_tools_is_one_message() {
    let state = state_alone();
    let d = handle_chat_message_update(&state, completion(vec![MessageContent::Text("done".into())], "MaxTokens"));
    assert_eq!(d.responses.len(), 1);
    match &d.responses[0] {
        ServerResponse::MessageAdded { message } => {
            assert_eq!(message.id, "c1");
            assert_eq!(message.parent_id.as_deref(), Some("u1"));
            assert_eq!(message.finished, Some(false));
            assert_eq!(message.display_text, "done");
        }
        other => panic!("unexpected {:?}", other),
    }
}

#[test]
fn entry_with_an_uncuttable_preview_is_not_shown() {
    let state = state_alone();
    let wide = format!("\"{}\"", "\u{e9}".repeat(60));
    let entry = completion(
        vec![MessageContent::ToolResult(ToolResult {
            tool_use_id: "t".into(),
            content: wide.into_bytes(),
            is_error: false,
        })],
        "EndTurn",
    );
    assert!(channel_message_update(&state, entry).is_none());
}

#[test]
fn browser_frames_are_planned_by_what_they_hold() {
    let mut state = state_alone();
    handle_websocket_connect(&mut state, 1);
    match handle_websocket_message(&state, None) {
        ClientPlan::Reply(out) => assert!(out.is_empty()),
        other => panic!("unexpected {:?}", other),
    }
    match handle_websocket_message(&state, Some(Err("missing field `type`".into()))) {
        ClientPlan::Reply(out) => {
            assert_eq!(out.len(), 1);
            assert_eq!(error_text(&out[0]), "Invalid request format: missing field `type`");
        }
        other => panic!("unexpected {:?}", other),
    }
    match handle_websocket_message(&state, Some(Ok(ClientRequest::SendMessage { content: "x".into() }))) {
        ClientPlan::SendMessage { content } => assert_eq!(content, "x"),
        other => panic!("unexpected {:?}", other),
    }
}

#[test]
fn channel_notices() {
    let mut state = state_alone();
    handle_websocket_connect(&mut state, 2);
    let d = handle_channel_message(&state, ChannelMessage::Head { head: "h".into() }).unwrap();
    assert!(d.responses.is_empty());
    let notice = ChannelMessage::ChatMessage { message: completion(vec![MessageContent::Text("a".into())], "EndTurn") };
    let d = handle_channel_message(&state, notice).unwrap();
    assert_eq!(d.connection_ids, vec![2]);
    assert_eq!(d.responses.len(), 1);
}

#[test]
fn settings_update_goes_to_the_service() {
    let state = state_with_service();
    let settings = ClientSettings { temperature: Some("0.7".into()), max_tokens: Some(2048), model: Some("m".into()) };
    match handle_client_request(&state, ClientRequest::UpdateSettings { settings }) {
        ClientPlan::Forward { chat_state_id, request: ChatProxyRequest::UpdateSettings { settings } } => {
            assert_eq!(chat_state_id, "svc");
            assert_eq!(settings.temperature.as_deref(), Some("0.7"));
            assert_eq!(settings.max_tokens, Some(2048));
            assert_eq!(settings.model.as_deref(), Some("m"));
        }
        other => panic!("unexpected {:?}", other),
    }
}

fn wide_history() -> Vec<JsonValue> {
    let text = format!(
        r#"[{{"entry": {{"Completion": {{"content": [{{"ToolResult": {{"tool_use_id": "t", "content": "{}"}}}}]}}}}}}]"#,
        "\u{e9}".repeat(60)
    );
    match parse_json_data(text.as_bytes()).unwrap() {
        JsonValue::Array(items) => items,
        other => panic!("not an array: {:?}", other),
    }
}

#[test]
fn checked_history_replies() {
    let mut state = state_with_service();
    handle_websocket_connect(&mut state, 1);
    let out = checked_conversation_reply(
        &state,
        ProxyOutcome::Reply(ChatProxyResponse::History { messages: history_entries() }),
    )
    .unwrap();
    assert_eq!(out.len(), 1);
    assert!(checked_conversation_reply(
        &state,
        ProxyOutcome::Reply(ChatProxyResponse::History { messages: wide_history() }),
    )
    .is_none());
    let out = checked_conversation_reply(&state, ProxyOutcome::NotText).unwrap();
    assert_eq!(error_text(&out[0]), "Failed to decode conversation history");
    assert!(matches!(
        checked_history_for_connection(
            &state,
            ProxyOutcome::Reply(ChatProxyResponse::History { messages: history_entries() })
        ),
        Some(Some(ServerResponse::ConversationState { .. }))
    ));
    assert!(matches!(checked_history_for_connection(&state, ProxyOutcome::RequestFailed), Some(None)));
    assert!(checked_history_for_connection(
        &state,
        ProxyOutcome::Reply(ChatProxyResponse::History { messages: wide_history() }),
    )
    .is_none());
}

#[test]
fn posted_message_without_a_service_gets_two_answers() {
    let mut state = state_alone();
    handle_websocket_connect(&mut state, 1);
    let plan = send_message_plan(&state, "hi".into(), Ok("u".into())).unwrap();
    assert!(plan.needs_fallback);
    let mut out = plan.responses;
    out.extend(fallback_reply(&state, Ok("f".into())).unwrap());
    assert_eq!(out.len(), 2);
    let err = fallback_reply(&state, Err("x".into())).unwrap_err();
    assert_eq!(err, "Failed to generate message ID: x");
}
