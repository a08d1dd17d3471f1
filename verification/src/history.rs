//! Reading the conversation history that the chat-state service sends as JSON.
use crate::content::{contents_view, parts_displayable, ContentView, MessageContent, ToolResult, ToolUse};
use crate::external::{decimal_text, encode_json, json_encode, lowercase, to_lowercase};
use crate::json::{
    items_view, json_get, json_get_array, json_get_str, json_has, lemma_items_view,
    JsonValue, JsonView,
};
use crate::message::{create_enhanced_chat_message, enhanced_message, messages_view, ChatMessage, ChatMessageView};
use crate::text::{decimal, join, join_strings, owned, strings_view};
use vstd::prelude::*;

verus! {

/// `value.get(first).or_else(|| value.get(second))`.
pub open spec fn json_get_either(v: JsonView, first: Seq<char>, second: Seq<char>) -> Option<JsonView> {
    match json_get(v, first) {
        Some(x) => Some(x),
        None => json_get(v, second),
    }
}

/// The string inside `v`, if it is one.
pub open spec fn as_str_view(v: Option<JsonView>) -> Option<Seq<char>> {
    match v {
        Some(JsonView::Str(s)) => Some(s),
        _ => None,
    }
}

/// The boolean inside `v`, if it is one.
pub open spec fn as_bool_view(v: Option<JsonView>) -> Option<bool> {
    match v {
        Some(JsonView::Bool(b)) => Some(b),
        _ => None,
    }
}

/// `o.unwrap_or(d)`.
pub open spec fn or_default<T>(o: Option<T>, d: T) -> T {
    match o {
        Some(x) => x,
        None => d,
    }
}

/// The message part that a tool-call entry becomes.
pub open spec fn parse_tool_use(tool_use: JsonView) -> ContentView {
    let input = or_default(json_get(tool_use, "input"@), JsonView::Object(Seq::empty()));
    match json_encode(input) {
        Ok(bytes) => ContentView::ToolUse {
            id: or_default(json_get_str(tool_use, "id"@), "unknown"@),
            name: or_default(json_get_str(tool_use, "name"@), "unknown_tool"@),
            input: bytes,
        },
        Err(_) => ContentView::Text("[Invalid Tool Use]"@),
    }
}

/// The message part that a tool-result entry becomes.
pub open spec fn parse_tool_result(tool_result: JsonView) -> ContentView {
    let content = or_default(json_get(tool_result, "content"@), JsonView::Null);
    match json_encode(content) {
        Ok(bytes) => ContentView::ToolResult {
            tool_use_id: or_default(
                as_str_view(json_get_either(tool_result, "tool_use_id"@, "tool-use-id"@)),
                "unknown"@,
            ),
            content: bytes,
            is_error: or_default(as_bool_view(json_get_either(tool_result, "is_error"@, "is-error"@)), false),
        },
        Err(_) => ContentView::Text("[Invalid Tool Result]"@),
    }
}

/// The message part that one entry of a content array becomes, if any: a
/// text, a tool call or a tool result; other entries are left out.
pub open spec fn parse_content_item(item: JsonView) -> Option<ContentView> {
    match item {
        JsonView::Object(_) => {
            if json_get_str(item, "Text"@) is Some {
                Some(ContentView::Text(json_get_str(item, "Text"@).unwrap()))
            } else if json_has(item, "ToolUse"@) {
                match json_get(item, "ToolUse"@).unwrap() {
                    JsonView::Object(f) => Some(parse_tool_use(JsonView::Object(f))),
                    _ => Some(ContentView::Text("[Tool Use]"@)),
                }
            } else if json_has(item, "ToolResult"@) {
                match json_get(item, "ToolResult"@).unwrap() {
                    JsonView::Object(f) => Some(parse_tool_result(JsonView::Object(f))),
                    _ => Some(ContentView::Text("[Tool Result]"@)),
                }
            } else {
                None
            }
        },
        _ => None,
    }
}

/// The message parts of a content array, in order.
pub open spec fn parsed_contents(items: Seq<JsonView>) -> Seq<ContentView>
    decreases items.len(),
{
    if items.len() == 0 {
        Seq::empty()
    } else {
        let rest = parsed_contents(items.drop_last());
        match parse_content_item(items.last()) {
            Some(c) => rest.push(c),
            None => rest,
        }
    }
}

/// Reads a content array into message parts. It never fails.
pub fn parse_content_array(content_array: &[JsonValue]) -> (r: Result<Vec<MessageContent>, String>)
    ensures
        r is Ok,
        r matches Ok(parts) ==> contents_view(parts@) == parsed_contents(items_view(content_array@)),
{
    let ghost items = items_view(content_array@);
    proof {
        lemma_items_view(content_array@);
    }
    let mut parsed: Vec<MessageContent> = Vec::new();
    let mut i: usize = 0;
    while i < content_array.len()
        invariant
            i <= content_array.len(),
            items == items_view(content_array@),
            items.len() == content_array@.len(),
            forall|j: int| 0 <= j < content_array@.len() ==> #[trigger] items[j] == content_array@[j]@,
            contents_view(parsed@) == parsed_contents(items.take(i as int)),
        decreases content_array.len() - i,
    {
        proof {
            assert(items.take(i + 1).drop_last() =~= items.take(i as int));
            assert(items.take(i + 1).last() == content_array@[i as int]@);
        }
        let ghost old_parsed = parsed@;
        let item = &content_array[i];
        let next = parse_item(item);
        match next {
            Some(part) => {
                parsed.push(part);
                assert(contents_view(parsed@) =~= contents_view(old_parsed).push(part@));
            },
            None => {},
        }
        i = i + 1;
    }
    assert(items.take(content_array.len() as int) =~= items);
    Ok(parsed)
}

/// The string member `key` of `v`, or `default`.
fn get_str_or(v: &JsonValue, key: &str, default: &str) -> (r: String)
    ensures
        r@ == or_default(json_get_str(v@, key@), default@),
{
    match v.get(key) {
        Some(JsonValue::Str(s)) => s.clone(),
        _ => owned(default),
    }
}

/// `v.get(first).or_else(|| v.get(second))`.
fn get_either<'a>(v: &'a JsonValue, first: &str, second: &str) -> (r: Option<&'a JsonValue>)
    ensures
        match json_get_either(v@, first@, second@) {
            Some(m) => r is Some && r->0@ == m,
            None => r is None,
        },
{
    match v.get(first) {
        Some(x) => Some(x),
        None => v.get(second),
    }
}

/// The message part of one content entry.
fn parse_item(item: &JsonValue) -> (r: Option<MessageContent>)
    ensures
        match parse_content_item(item@) {
            Some(c) => r is Some && r->0@ == c,
            None => r is None,
        },
{
    match item {
        JsonValue::Object(_) => {},
        _ => {
            return None;
        },
    }
    if let Some(JsonValue::Str(text)) = item.get("Text") {
        return Some(MessageContent::Text(text.clone()));
    }
    if let Some(tool_use) = item.get("ToolUse") {
        match tool_use {
            JsonValue::Object(_) => {
                let id = get_str_or(tool_use, "id", "unknown");
                let name = get_str_or(tool_use, "name", "unknown_tool");
                let default_input = JsonValue::Object(Vec::new());
                proof {
                    crate::json::lemma_fields_view(Seq::<(String, JsonValue)>::empty());
                }
                let input_json = match tool_use.get("input") {
                    Some(x) => x,
                    None => &default_input,
                };
                return match encode_json(input_json) {
                    Ok(input) => Some(MessageContent::ToolUse(ToolUse { id, name, input })),
                    Err(_) => Some(MessageContent::Text(owned("[Invalid Tool Use]"))),
                };
            },
            _ => {
                return Some(MessageContent::Text(owned("[Tool Use]")));
            },
        }
    }
    if let Some(tool_result) = item.get("ToolResult") {
        match tool_result {
            JsonValue::Object(_) => {
                let tool_use_id = match get_either(tool_result, "tool_use_id", "tool-use-id") {
                    Some(JsonValue::Str(s)) => s.clone(),
                    _ => owned("unknown"),
                };
                let null = JsonValue::Null;
                let content_json = match tool_result.get("content") {
                    Some(x) => x,
                    None => &null,
                };
                let is_error = match get_either(tool_result, "is_error", "is-error") {
                    Some(JsonValue::Bool(b)) => *b,
                    _ => false,
                };
                return match encode_json(content_json) {
                    Ok(content) => Some(
                        MessageContent::ToolResult(ToolResult { tool_use_id, content, is_error }),
                    ),
                    Err(_) => Some(MessageContent::Text(owned("[Invalid Tool Result]"))),
                };
            },
            _ => {
                return Some(MessageContent::Text(owned("[Tool Result]")));
            },
        }
    }
    None
}

/// The label that one content entry contributes to a plain-text rendering.
pub open spec fn content_item_label(item: JsonView) -> Option<Seq<char>> {
    match item {
        JsonView::Object(_) => {
            if json_get_str(item, "Text"@) is Some {
                json_get_str(item, "Text"@)
            } else if json_has(item, "ToolUse"@) {
                Some("[Tool Use]"@)
            } else if json_has(item, "ToolResult"@) {
                Some("[Tool Result]"@)
            } else {
                None
            }
        },
        _ => None,
    }
}

/// The labels of the entries of a content array, in order.
pub open spec fn content_labels(items: Seq<JsonView>) -> Seq<Seq<char>>
    decreases items.len(),
{
    if items.len() == 0 {
        Seq::empty()
    } else {
        let rest = content_labels(items.drop_last());
        match content_item_label(items.last()) {
            Some(l) => rest.push(l),
            None => rest,
        }
    }
}

/// The plain-text rendering of a content array.
pub open spec fn content_array_text(items: Seq<JsonView>) -> Seq<char> {
    if content_labels(items).len() == 0 {
        "[No displayable content]"@
    } else {
        join(content_labels(items), " "@)
    }
}

/// Renders a content array as plain text: texts as they are, tool entries as
/// labels, separated by spaces.
pub fn extract_text_from_content_array(content_array: &[JsonValue]) -> (r: String)
    ensures
        r@ == content_array_text(items_view(content_array@)),
{
    let ghost items = items_view(content_array@);
    proof {
        lemma_items_view(content_array@);
    }
    let mut extracted: Vec<String> = Vec::new();
    let mut i: usize = 0;
    while i < content_array.len()
        invariant
            i <= content_array.len(),
            items == items_view(content_array@),
            items.len() == content_array@.len(),
            forall|j: int| 0 <= j < content_array@.len() ==> #[trigger] items[j] == content_array@[j]@,
            strings_view(extracted@) == content_labels(items.take(i as int)),
        decreases content_array.len() - i,
    {
        proof {
            assert(items.take(i + 1).drop_last() =~= items.take(i as int));
            assert(items.take(i + 1).last() == content_array@[i as int]@);
        }
        let ghost old = extracted@;
        let item = &content_array[i];
        let label: Option<String> = match item {
            JsonValue::Object(_) => {
                if let Some(JsonValue::Str(text)) = item.get("Text") {
                    Some(text.clone())
                } else if item.get("ToolUse").is_some() {
                    Some(owned("[Tool Use]"))
                } else if item.get("ToolResult").is_some() {
                    Some(owned("[Tool Result]"))
                } else {
                    None
                }
            },
            _ => None,
        };
        match label {
            Some(l) => {
                extracted.push(l);
                assert(strings_view(extracted@) =~= strings_view(old).push(l@));
            },
            None => {},
        }
        i = i + 1;
    }
    assert(items.take(content_array.len() as int) =~= items);
    if extracted.len() == 0 {
        owned("[No displayable content]")
    } else {
        join_strings(&extracted, " ")
    }
}

// ---------------------------------------------------------------------------
// History entries
// ---------------------------------------------------------------------------
/// The content array of a history entry that becomes a message, if any.
pub open spec fn entry_content(v: JsonView) -> Option<Seq<JsonView>> {
    match json_get(v, "entry"@) {
        Some(JsonView::Object(f)) => {
            let entry = JsonView::Object(f);
            if json_has(entry, "Message"@) {
                let data = json_get(entry, "Message"@).unwrap();
                if json_get_str(data, "role"@) is Some {
                    json_get_array(data, "content"@)
                } else {
                    None
                }
            } else if json_has(entry, "Completion"@) {
                json_get_array(json_get(entry, "Completion"@).unwrap(), "content"@)
            } else {
                None
            }
        },
        _ => None,
    }
}

/// The message that the history entry at `index` becomes, if any: a user
/// message or an assistant completion; its id is the entry's or "msg_<index>".
pub open spec fn history_message(v: JsonView, index: nat) -> Option<ChatMessageView> {
    let id = or_default(json_get_str(v, "id"@), "msg_"@ + decimal(index));
    let parent_id = json_get_str(v, "parent_id"@);
    match entry_content(v) {
        None => None,
        Some(items) => {
            let entry = json_get(v, "entry"@).unwrap();
            if json_has(entry, "Message"@) {
                let data = json_get(entry, "Message"@).unwrap();
                Some(
                    enhanced_message(
                        id,
                        parent_id,
                        lowercase(json_get_str(data, "role"@).unwrap()),
                        parsed_contents(items),
                        0,
                        Some(true),
                    ),
                )
            } else {
                let data = json_get(entry, "Completion"@).unwrap();
                let stop_reason = or_default(json_get_str(data, "stop_reason"@), "EndTurn"@);
                Some(
                    enhanced_message(
                        id,
                        parent_id,
                        "assistant"@,
                        parsed_contents(items),
                        0,
                        Some(stop_reason == "EndTurn"@),
                    ),
                )
            }
        },
    }
}

/// The messages that the history entries become, in order.
pub open spec fn history_messages(entries: Seq<JsonView>) -> Seq<ChatMessageView>
    decreases entries.len(),
{
    if entries.len() == 0 {
        Seq::empty()
    } else {
        let rest = history_messages(entries.drop_last());
        match history_message(entries.last(), (entries.len() - 1) as nat) {
            Some(m) => rest.push(m),
            None => rest,
        }
    }
}

/// Whether every history entry that becomes a message can be displayed.
pub open spec fn history_displayable(entries: Seq<JsonView>) -> bool {
    forall|i: int|
        0 <= i < entries.len() ==> match #[trigger] entry_content(entries[i]) {
            Some(items) => parts_displayable(parsed_contents(items)),
            None => true,
        }
}

/// Converts history entries of the chat-state service into chat messages
/// for the browser. It never fails.
pub fn convert_chat_state_messages_to_client(messages: &[JsonValue]) -> (r: Result<Vec<ChatMessage>, String>)
    requires
        history_displayable(items_view(messages@)),
    ensures
        r is Ok,
        r matches Ok(out) ==> messages_view(out@) == history_messages(items_view(messages@)),
{
    let ghost entries = items_view(messages@);
    proof {
        lemma_items_view(messages@);
    }
    let mut client_messages: Vec<ChatMessage> = Vec::new();
    let mut i: usize = 0;
    while i < messages.len()
        invariant
            i <= messages.len(),
            entries == items_view(messages@),
            entries.len() == messages@.len(),
            forall|j: int| 0 <= j < messages@.len() ==> #[trigger] entries[j] == messages@[j]@,
            history_displayable(entries),
            messages_view(client_messages@) == history_messages(entries.take(i as int)),
        decreases messages.len() - i,
    {
        proof {
            assert(entries.take(i + 1).drop_last() =~= entries.take(i as int));
            assert(entries.take(i + 1).last() == messages@[i as int]@);
            assert(entries.take(i + 1).len() - 1 == i);
        }
        let ghost old = client_messages@;
        let next = convert_entry(&messages[i], i);
        match next {
            Some(m) => {
                client_messages.push(m);
                assert(messages_view(client_messages@) =~= messages_view(old).push(m@));
            },
            None => {},
        }
        i = i + 1;
    }
    assert(entries.take(messages.len() as int) =~= entries);
    Ok(client_messages)
}

/// The content array of a history entry that becomes a message, computed.
fn entry_content_of(message_value: &JsonValue) -> (r: Option<&Vec<JsonValue>>)
    ensures
        match entry_content(message_value@) {
            Some(items) => r is Some && items_view(r->0@) == items,
            None => r is None,
        },
{
    let entry = match message_value.get("entry") {
        Some(e) => e,
        None => {
            return None;
        },
    };
    match entry {
        JsonValue::Object(_) => {},
        _ => {
            return None;
        },
    }
    if let Some(message_data) = entry.get("Message") {
        if let Some(JsonValue::Str(_)) = message_data.get("role") {
            if let Some(JsonValue::Array(content_array)) = message_data.get("content") {
                return Some(content_array);
            }
        }
        None
    } else if let Some(completion_data) = entry.get("Completion") {
        if let Some(JsonValue::Array(content_array)) = completion_data.get("content") {
            return Some(content_array);
        }
        None
    } else {
        None
    }
}

/// Whether every history entry that becomes a message can be displayed, computed.
pub fn history_is_displayable(messages: &[JsonValue]) -> (r: bool)
    ensures
        r == history_displayable(items_view(messages@)),
{
    let ghost entries = items_view(messages@);
    proof {
        lemma_items_view(messages@);
    }
    let mut i: usize = 0;
    while i < messages.len()
        invariant
            i <= messages.len(),
            entries == items_view(messages@),
            entries.len() == messages@.len(),
            forall|j: int| 0 <= j < messages@.len() ==> #[trigger] entries[j] == messages@[j]@,
            forall|j: int|
                0 <= j < i ==> match #[trigger] entry_content(entries[j]) {
                    Some(items) => parts_displayable(parsed_contents(items)),
                    None => true,
                },
        decreases messages.len() - i,
    {
        assert(entries[i as int] == messages@[i as int]@);
        if let Some(content_array) = entry_content_of(&messages[i]) {
            let parts = match parse_content_array(content_array.as_slice()) {
                Ok(p) => p,
                Err(_) => Vec::new(),
            };
            if !crate::content::parts_are_displayable(parts.as_slice()) {
                return false;
            }
        }
        i = i + 1;
    }
    true
}

/// The chat message of one history entry.
fn convert_entry(message_value: &JsonValue, index: usize) -> (r: Option<ChatMessage>)
    requires
        match entry_content(message_value@) {
            Some(items) => parts_displayable(parsed_contents(items)),
            None => true,
        },
    ensures
        match history_message(message_value@, index as nat) {
            Some(m) => r is Some && r->0@ == m,
            None => r is None,
        },
{
    let id = match message_value.get("id") {
        Some(JsonValue::Str(s)) => s.clone(),
        _ => {
            let mut fallback = owned("msg_");
            fallback.append(decimal_text(index).as_str());
            fallback
        },
    };
    let parent_id = match message_value.get("parent_id") {
        Some(JsonValue::Str(s)) => Some(s.clone()),
        _ => None,
    };
    let entry = match message_value.get("entry") {
        Some(e) => e,
        None => {
            return None;
        },
    };
    match entry {
        JsonValue::Object(_) => {},
        _ => {
            return None;
        },
    }
    if let Some(message_data) = entry.get("Message") {
        if let Some(JsonValue::Str(role)) = message_data.get("role") {
            if let Some(JsonValue::Array(content_array)) = message_data.get("content") {
                proof {
                    lemma_items_view(content_array@);
                }
                let rich_content = match parse_content_array(content_array.as_slice()) {
                    Ok(parts) => parts,
                    Err(_) => {
                        return None;
                    },
                };
                let _display_text = extract_text_from_content_array(content_array.as_slice());
                return Some(
                    create_enhanced_chat_message(
                        id,
                        parent_id,
                        to_lowercase(role.as_str()),
                        rich_content,
                        0,
                        Some(true),
                    ),
                );
            }
        }
        return None;
    } else if let Some(completion_data) = entry.get("Completion") {
        if let Some(JsonValue::Array(content_array)) = completion_data.get("content") {
            let rich_content = match parse_content_array(content_array.as_slice()) {
                Ok(parts) => parts,
                Err(_) => {
                    return None;
                },
            };
            let _display_text = extract_text_from_content_array(content_array.as_slice());
            let stop_reason = get_str_or(completion_data, "stop_reason", "EndTurn");
            let end_turn = crate::external::text_eq(stop_reason.as_str(), "EndTurn");
            return Some(
                create_enhanced_chat_message(
                    id,
                    parent_id,
                    owned("assistant"),
                    rich_content,
                    0,
                    Some(end_turn),
                ),
            );
        }
        return None;
    }
    None
}

} // verus!
