//! Chat messages as the browser receives them, and how they are made from
//! message parts.
use crate::content::{
    part_displayable, contents_view, display_text_of, extract_enhanced_content, parts_displayable, rich_tool_results,
    rich_tool_uses, tool_results_view, tool_uses_view, ContentView, MessageContent, RichToolResult,
    RichToolResultView, RichToolUse, RichToolUseView, ToolResult, ToolUse,
};
use crate::external::decimal_text;
use crate::text::{decimal, owned};
use vstd::prelude::*;

verus! {

/// What a chat message holds, by the kinds of its parts.
#[derive(Debug, Clone, Copy, PartialEq, Eq, Structural)]
pub enum ChatMessageType {
    Text,
    ToolCall,
    ToolResult,
    Mixed,
}

/// A message as the browser displays it.
#[derive(Debug)]
pub struct ChatMessage {
    pub id: String,
    pub parent_id: Option<String>,
    pub role: String,
    pub content: Vec<MessageContent>,
    pub timestamp: u64,
    pub finished: Option<bool>,
    pub message_type: ChatMessageType,
    pub display_text: String,
    pub tool_uses: Vec<RichToolUse>,
    pub tool_results: Vec<RichToolResult>,
    pub has_tools: bool,
    pub tool_call_id: Option<String>,
    pub related_message_id: Option<String>,
}

/// The model of a chat message.
pub struct ChatMessageView {
    pub id: Seq<char>,
    pub parent_id: Option<Seq<char>>,
    pub role: Seq<char>,
    pub content: Seq<ContentView>,
    pub timestamp: u64,
    pub finished: Option<bool>,
    pub message_type: ChatMessageType,
    pub display_text: Seq<char>,
    pub tool_uses: Seq<RichToolUseView>,
    pub tool_results: Seq<RichToolResultView>,
    pub has_tools: bool,
    pub tool_call_id: Option<Seq<char>>,
    pub related_message_id: Option<Seq<char>>,
}

/// The characters of an optional string.
pub open spec fn opt_view(o: Option<String>) -> Option<Seq<char>> {
    match o {
        Some(s) => Some(s@),
        None => None,
    }
}

impl View for ChatMessage {
    type V = ChatMessageView;

    open spec fn view(&self) -> ChatMessageView {
        ChatMessageView {
            id: self.id@,
            parent_id: opt_view(self.parent_id),
            role: self.role@,
            content: contents_view(self.content@),
            timestamp: self.timestamp,
            finished: self.finished,
            message_type: self.message_type,
            display_text: self.display_text@,
            tool_uses: tool_uses_view(self.tool_uses@),
            tool_results: tool_results_view(self.tool_results@),
            has_tools: self.has_tools,
            tool_call_id: opt_view(self.tool_call_id),
            related_message_id: opt_view(self.related_message_id),
        }
    }
}

/// The models of a sequence of chat messages.
pub open spec fn messages_view(v: Seq<ChatMessage>) -> Seq<ChatMessageView> {
    v.map_values(|m: ChatMessage| m@)
}

/// The kind of a message with these tool calls and tool results.
pub open spec fn classify(uses: nat, results: nat) -> ChatMessageType {
    if uses > 0 && results > 0 {
        ChatMessageType::Mixed
    } else if uses > 0 {
        ChatMessageType::ToolCall
    } else if results > 0 {
        ChatMessageType::ToolResult
    } else {
        ChatMessageType::Text
    }
}

/// A message made from its parts, classified by the tool parts it holds.
pub open spec fn enhanced_message(
    id: Seq<char>,
    parent_id: Option<Seq<char>>,
    role: Seq<char>,
    content: Seq<ContentView>,
    timestamp: u64,
    finished: Option<bool>,
) -> ChatMessageView {
    let uses = rich_tool_uses(content);
    let results = rich_tool_results(content);
    ChatMessageView {
        id,
        parent_id,
        role,
        content,
        timestamp,
        finished,
        message_type: classify(uses.len(), results.len()),
        display_text: display_text_of(content),
        tool_uses: uses,
        tool_results: results,
        has_tools: uses.len() > 0 || results.len() > 0,
        tool_call_id: None,
        related_message_id: None,
    }
}

/// A message that is shown as text, whatever its parts.
pub open spec fn text_only_message(
    id: Seq<char>,
    parent_id: Option<Seq<char>>,
    role: Seq<char>,
    content: Seq<ContentView>,
    timestamp: u64,
    finished: Option<bool>,
) -> ChatMessageView {
    ChatMessageView {
        message_type: ChatMessageType::Text,
        has_tools: false,
        ..enhanced_message(id, parent_id, role, content, timestamp, finished)
    }
}

/// A message that holds one tool call.
pub open spec fn tool_call_message(
    id: Seq<char>,
    parent_id: Option<Seq<char>>,
    role: Seq<char>,
    tool_use: ContentView,
    timestamp: u64,
    finished: Option<bool>,
) -> ChatMessageView {
    ChatMessageView {
        message_type: ChatMessageType::ToolCall,
        has_tools: true,
        tool_call_id: Some(tool_use->ToolUse_id),
        ..enhanced_message(id, parent_id, role, seq![tool_use], timestamp, finished)
    }
}

/// A message that holds one tool result, linked to the message it answers.
pub open spec fn tool_result_message(
    id: Seq<char>,
    parent_id: Option<Seq<char>>,
    role: Seq<char>,
    tool_result: ContentView,
    timestamp: u64,
    finished: Option<bool>,
) -> ChatMessageView {
    ChatMessageView {
        message_type: ChatMessageType::ToolResult,
        has_tools: true,
        tool_call_id: Some(tool_result->ToolResult_tool_use_id),
        related_message_id: parent_id,
        ..enhanced_message(id, parent_id, role, seq![tool_result], timestamp, finished)
    }
}

/// Makes a message from its parts and classifies it by the tool parts it holds.
pub fn create_enhanced_chat_message(
    id: String,
    parent_id: Option<String>,
    role: String,
    content: Vec<MessageContent>,
    timestamp: u64,
    finished: Option<bool>,
) -> (r: ChatMessage)
    requires
        parts_displayable(contents_view(content@)),
    ensures
        r@ == enhanced_message(
            id@,
            opt_view(parent_id),
            role@,
            contents_view(content@),
            timestamp,
            finished,
        ),
{
    let (display_text, tool_uses, tool_results) = extract_enhanced_content(content.as_slice());
    let has_tools = tool_uses.len() != 0 || tool_results.len() != 0;
    let message_type = if tool_uses.len() > 0 && tool_results.len() > 0 {
        ChatMessageType::Mixed
    } else if tool_uses.len() > 0 {
        ChatMessageType::ToolCall
    } else if tool_results.len() > 0 {
        ChatMessageType::ToolResult
    } else {
        ChatMessageType::Text
    };
    ChatMessage {
        id,
        parent_id,
        role,
        content,
        timestamp,
        finished,
        message_type,
        display_text,
        tool_uses,
        tool_results,
        has_tools,
        tool_call_id: None,
        related_message_id: None,
    }
}

/// Makes a message that is shown as text.
pub fn create_text_only_message(
    id: String,
    parent_id: Option<String>,
    role: String,
    content: Vec<MessageContent>,
    timestamp: u64,
    finished: Option<bool>,
) -> (r: ChatMessage)
    requires
        parts_displayable(contents_view(content@)),
    ensures
        r@ == text_only_message(
            id@,
            opt_view(parent_id),
            role@,
            contents_view(content@),
            timestamp,
            finished,
        ),
{
    let (display_text, tool_uses, tool_results) = extract_enhanced_content(content.as_slice());
    ChatMessage {
        id,
        parent_id,
        role,
        content,
        timestamp,
        finished,
        message_type: ChatMessageType::Text,
        display_text,
        tool_uses,
        tool_results,
        has_tools: false,
        tool_call_id: None,
        related_message_id: None,
    }
}

/// Makes a message that holds one tool call.
pub fn create_tool_call_message(
    id: String,
    parent_id: Option<String>,
    role: String,
    tool_use: ToolUse,
    timestamp: u64,
    finished: Option<bool>,
) -> (r: ChatMessage)
    ensures
        r@ == tool_call_message(
            id@,
            opt_view(parent_id),
            role@,
            MessageContent::ToolUse(tool_use)@,
            timestamp,
            finished,
        ),
{
    let tool_call_id = tool_use.id.clone();
    let content = vec![MessageContent::ToolUse(tool_use)];
    assert(contents_view(content@) =~= seq![MessageContent::ToolUse(tool_use)@]);
    let (display_text, tool_uses, tool_results) = extract_enhanced_content(content.as_slice());
    ChatMessage {
        id,
        parent_id,
        role,
        content,
        timestamp,
        finished,
        message_type: ChatMessageType::ToolCall,
        display_text,
        tool_uses,
        tool_results,
        has_tools: true,
        tool_call_id: Some(tool_call_id),
        related_message_id: None,
    }
}

/// Makes a message that holds one tool result; it is linked to `parent_id`.
pub fn create_tool_result_message(
    id: String,
    parent_id: Option<String>,
    role: String,
    tool_result: ToolResult,
    timestamp: u64,
    finished: Option<bool>,
) -> (r: ChatMessage)
    requires
        parts_displayable(seq![MessageContent::ToolResult(tool_result)@]),
    ensures
        r@ == tool_result_message(
            id@,
            opt_view(parent_id),
            role@,
            MessageContent::ToolResult(tool_result)@,
            timestamp,
            finished,
        ),
{
    let tool_call_id = tool_result.tool_use_id.clone();
    let related = match &parent_id {
        Some(p) => Some(p.clone()),
        None => None,
    };
    let content = vec![MessageContent::ToolResult(tool_result)];
    assert(contents_view(content@) =~= seq![MessageContent::ToolResult(tool_result)@]);
    let (display_text, tool_uses, tool_results) = extract_enhanced_content(content.as_slice());
    ChatMessage {
        id,
        parent_id,
        role,
        content,
        timestamp,
        finished,
        message_type: ChatMessageType::ToolResult,
        display_text,
        tool_uses,
        tool_results,
        has_tools: true,
        tool_call_id: Some(tool_call_id),
        related_message_id: related,
    }
}

// ---------------------------------------------------------------------------
// Splitting an assistant turn into one message per tool step
// ---------------------------------------------------------------------------
/// Whether `m` is a tool-call message for the call named `tool_use_id`.
pub open spec fn calls_tool(m: ChatMessageView, tool_use_id: Seq<char>) -> bool {
    &&& m.message_type == ChatMessageType::ToolCall
    &&& exists|k: int| 0 <= k < m.tool_uses.len() && #[trigger] m.tool_uses[k].id == tool_use_id
}

/// The id of the latest tool-call message for the call named `tool_use_id`.
pub open spec fn last_tool_call_id(msgs: Seq<ChatMessageView>, tool_use_id: Seq<char>) -> Option<
    Seq<char>,
>
    decreases msgs.len(),
{
    if msgs.len() == 0 {
        None
    } else if calls_tool(msgs.last(), tool_use_id) {
        Some(msgs.last().id)
    } else {
        last_tool_call_id(msgs.drop_last(), tool_use_id)
    }
}

/// The id of the latest message, or `parent_id` when there is none yet.
pub open spec fn last_id_or(msgs: Seq<ChatMessageView>, parent_id: Option<Seq<char>>) -> Option<
    Seq<char>,
> {
    if msgs.len() == 0 {
        parent_id
    } else {
        Some(msgs.last().id)
    }
}

/// The messages made so far, and the text parts not yet put in a message.
pub struct SplitState {
    pub messages: Seq<ChatMessageView>,
    pub pending: Seq<ContentView>,
}

/// Puts the pending text parts in a message of their own, if there are any.
pub open spec fn flush_text(
    base_id: Seq<char>,
    parent_id: Option<Seq<char>>,
    role: Seq<char>,
    timestamp: u64,
    st: SplitState,
) -> SplitState {
    if st.pending.len() > 0 {
        SplitState {
            messages: st.messages.push(
                text_only_message(
                    base_id + "-text-"@ + decimal(st.messages.len()),
                    parent_id,
                    role,
                    st.pending,
                    timestamp,
                    Some(true),
                ),
            ),
            pending: Seq::empty(),
        }
    } else {
        st
    }
}

/// What one part does to the split: text waits; a tool call closes the
/// waiting text and gets its own message; a tool result gets its own message,
/// linked to the latest call that it answers.
pub open spec fn split_step(
    base_id: Seq<char>,
    parent_id: Option<Seq<char>>,
    role: Seq<char>,
    timestamp: u64,
    st: SplitState,
    item: ContentView,
) -> SplitState {
    match item {
        ContentView::Text(_) => SplitState { messages: st.messages, pending: st.pending.push(item) },
        ContentView::ToolUse { .. } => {
            let flushed = flush_text(base_id, parent_id, role, timestamp, st);
            SplitState {
                messages: flushed.messages.push(
                    tool_call_message(
                        base_id + "-tool-"@ + decimal(flushed.messages.len()),
                        last_id_or(flushed.messages, parent_id),
                        role,
                        item,
                        timestamp,
                        Some(false),
                    ),
                ),
                pending: flushed.pending,
            }
        },
        ContentView::ToolResult { tool_use_id, .. } => SplitState {
            messages: st.messages.push(
                tool_result_message(
                    base_id + "-result-"@ + decimal(st.messages.len()),
                    last_tool_call_id(st.messages, tool_use_id),
                    role,
                    item,
                    timestamp,
                    Some(true),
                ),
            ),
            pending: st.pending,
        },
    }
}

/// The split after the given parts.
pub open spec fn split_fold(
    base_id: Seq<char>,
    parent_id: Option<Seq<char>>,
    role: Seq<char>,
    timestamp: u64,
    items: Seq<ContentView>,
) -> SplitState
    decreases items.len(),
{
    if items.len() == 0 {
        SplitState { messages: Seq::empty(), pending: Seq::empty() }
    } else {
        split_step(
            base_id,
            parent_id,
            role,
            timestamp,
            split_fold(base_id, parent_id, role, timestamp, items.drop_last()),
            items.last(),
        )
    }
}

/// The messages that an assistant turn is split into: the split of its parts,
/// a final text message for text left over, and a placeholder when nothing
/// else came out.
pub open spec fn separated_messages(
    base_id: Seq<char>,
    parent_id: Option<Seq<char>>,
    role: Seq<char>,
    content: Seq<ContentView>,
    timestamp: u64,
    finished: Option<bool>,
) -> Seq<ChatMessageView> {
    let st = split_fold(base_id, parent_id, role, timestamp, content);
    let msgs = if st.pending.len() > 0 {
        st.messages.push(
            text_only_message(
                base_id + "-text-final"@,
                last_id_or(st.messages, parent_id),
                role,
                st.pending,
                timestamp,
                finished,
            ),
        )
    } else {
        st.messages
    };
    if msgs.len() == 0 {
        seq![
            text_only_message(
                base_id,
                parent_id,
                role,
                seq![ContentView::Text("[No content]"@)],
                timestamp,
                finished,
            ),
        ]
    } else {
        msgs
    }
}

/// The parts not yet put in a message are all text.
pub open spec fn all_text(c: Seq<ContentView>) -> bool {
    forall|i: int| 0 <= i < c.len() ==> #[trigger] c[i] is Text
}

/// The pending parts of a split are always text.
pub proof fn lemma_split_pending_text(
    base_id: Seq<char>,
    parent_id: Option<Seq<char>>,
    role: Seq<char>,
    timestamp: u64,
    items: Seq<ContentView>,
)
    ensures
        all_text(split_fold(base_id, parent_id, role, timestamp, items).pending),
    decreases items.len(),
{
    if items.len() > 0 {
        lemma_split_pending_text(base_id, parent_id, role, timestamp, items.drop_last());
    }
}

/// Whether the message `m` answers to the tool call `tool_use_id`, computed.
fn is_call_for(m: &ChatMessage, tool_use_id: &String) -> (r: bool)
    ensures
        r == calls_tool(m@, tool_use_id@),
{
    match m.message_type {
        ChatMessageType::ToolCall => {},
        _ => {
            return false;
        },
    }
    let ghost uses = tool_uses_view(m.tool_uses@);
    let mut k: usize = 0;
    while k < m.tool_uses.len()
        invariant
            k <= m.tool_uses.len(),
            m.message_type == ChatMessageType::ToolCall,
            uses == tool_uses_view(m.tool_uses@),
            uses.len() == m.tool_uses@.len(),
            forall|j: int| 0 <= j < k ==> uses[j].id != tool_use_id@,
        decreases m.tool_uses.len() - k,
    {
        assert(uses[k as int] == m.tool_uses@[k as int]@);
        if m.tool_uses[k].id == *tool_use_id {
            assert(m@.tool_uses == uses);
            assert(m@.tool_uses[k as int].id == tool_use_id@);
            return true;
        }
        k = k + 1;
    }
    false
}

/// The id of the latest tool-call message in `messages` for `tool_use_id`.
fn find_tool_call(messages: &Vec<ChatMessage>, tool_use_id: &String) -> (r: Option<String>)
    ensures
        opt_view(r) == last_tool_call_id(messages_view(messages@), tool_use_id@),
{
    let ghost all = messages_view(messages@);
    let mut j: usize = messages.len();
    assert(all.take(j as int) =~= all);
    while j > 0
        invariant
            j <= messages.len(),
            all == messages_view(messages@),
            all.len() == messages@.len(),
            last_tool_call_id(all, tool_use_id@) == last_tool_call_id(all.take(j as int), tool_use_id@),
        decreases j,
    {
        let ghost cur = all.take(j as int);
        assert(cur.last() == messages@[j - 1]@);
        assert(cur.drop_last() =~= all.take(j - 1));
        if is_call_for(&messages[j - 1], tool_use_id) {
            return Some(messages[j - 1].id.clone());
        }
        j = j - 1;
    }
    None
}

/// `base_id`, then `suffix`, then the decimal numeral of `n`.
fn numbered_id(base_id: &String, suffix: &str, n: usize) -> (r: String)
    ensures
        r@ == base_id@ + suffix@ + decimal(n as nat),
{
    let mut r = base_id.clone();
    r.append(suffix);
    r.append(decimal_text(n).as_str());
    r
}

/// The id of the last message, or a copy of `parent_id` when there is none.
fn last_id_or_parent(messages: &Vec<ChatMessage>, parent_id: &Option<String>) -> (r: Option<String>)
    ensures
        opt_view(r) == last_id_or(messages_view(messages@), opt_view(*parent_id)),
{
    if messages.len() == 0 {
        match parent_id {
            Some(p) => Some(p.clone()),
            None => None,
        }
    } else {
        assert(messages_view(messages@).last() == messages@.last()@);
        Some(messages[messages.len() - 1].id.clone())
    }
}

/// A copy of an optional string.
fn copy_opt(o: &Option<String>) -> (r: Option<String>)
    ensures
        opt_view(r) == opt_view(*o),
{
    match o {
        Some(s) => Some(s.clone()),
        None => None,
    }
}

/// Splits an assistant turn into messages: one per run of text, one per tool
/// call and one per tool result, each tool result linked to the call it answers.
pub fn create_separated_tool_messages(
    base_id: String,
    parent_id: Option<String>,
    role: String,
    content: Vec<MessageContent>,
    timestamp: u64,
    finished: Option<bool>,
) -> (r: Vec<ChatMessage>)
    requires
        parts_displayable(contents_view(content@)),
    ensures
        messages_view(r@) == separated_messages(
            base_id@,
            opt_view(parent_id),
            role@,
            contents_view(content@),
            timestamp,
            finished,
        ),
{
    let ghost c = contents_view(content@);
    let ghost parent = opt_view(parent_id);
    let mut messages: Vec<ChatMessage> = Vec::new();
    let mut current_text_content: Vec<MessageContent> = Vec::new();
    let mut i: usize = 0;
    while i < content.len()
        invariant
            i <= content.len(),
            c == contents_view(content@),
            c.len() == content@.len(),
            parts_displayable(c),
            parent == opt_view(parent_id),
            messages_view(messages@) == split_fold(base_id@, parent, role@, timestamp, c.take(i as int)).messages,
            contents_view(current_text_content@) == split_fold(
                base_id@,
                parent,
                role@,
                timestamp,
                c.take(i as int),
            ).pending,
        decreases content.len() - i,
    {
        let ghost before = split_fold(base_id@, parent, role@, timestamp, c.take(i as int));
        proof {
            assert(c.take(i + 1).drop_last() =~= c.take(i as int));
            assert(c.take(i + 1).last() == content@[i as int]@);
            lemma_split_pending_text(base_id@, parent, role@, timestamp, c.take(i as int));
        }
        let ghost old_messages = messages@;
        let ghost old_pending = current_text_content@;
        match &content[i] {
            MessageContent::Text(_text) => {
                current_text_content.push(content[i].duplicate());
                assert(contents_view(current_text_content@) =~= before.pending.push(c[i as int]));
            },
            MessageContent::ToolUse(tool_use) => {
                if current_text_content.len() != 0 {
                    let pending = current_text_content;
                    current_text_content = Vec::new();
                    assert(parts_displayable(contents_view(pending@)));
                    let text_msg = create_text_only_message(
                        numbered_id(&base_id, "-text-", messages.len()),
                        copy_opt(&parent_id),
                        role.clone(),
                        pending,
                        timestamp,
                        Some(true),
                    );
                    messages.push(text_msg);
                    assert(messages_view(messages@) =~= messages_view(old_messages).push(text_msg@));
                    assert(contents_view(current_text_content@) =~= Seq::<ContentView>::empty());
                }
                let ghost flushed_messages = messages@;
                let tool_parent = last_id_or_parent(&messages, &parent_id);
                let tool_msg = create_tool_call_message(
                    numbered_id(&base_id, "-tool-", messages.len()),
                    tool_parent,
                    role.clone(),
                    tool_use.duplicate(),
                    timestamp,
                    Some(false),
                );
                messages.push(tool_msg);
                assert(messages_view(messages@) =~= messages_view(flushed_messages).push(tool_msg@));
            },
            MessageContent::ToolResult(tool_result) => {
                let tool_call_msg_id = find_tool_call(&messages, &tool_result.tool_use_id);
                let copied = tool_result.duplicate();
                assert(part_displayable(c[i as int]));
                assert(seq![MessageContent::ToolResult(copied)@] =~= seq![c[i as int]]);
                let result_msg = create_tool_result_message(
                    numbered_id(&base_id, "-result-", messages.len()),
                    tool_call_msg_id,
                    role.clone(),
                    copied,
                    timestamp,
                    Some(true),
                );
                messages.push(result_msg);
                assert(messages_view(messages@) =~= messages_view(old_messages).push(result_msg@));
            },
        }
        i = i + 1;
    }
    let ghost st = split_fold(base_id@, parent, role@, timestamp, c);
    proof {
        assert(c.take(content.len() as int) =~= c);
        lemma_split_pending_text(base_id@, parent, role@, timestamp, c);
    }
    if current_text_content.len() != 0 {
        let ghost old_messages = messages@;
        let final_parent = last_id_or_parent(&messages, &parent_id);
        let mut final_id = base_id.clone();
        final_id.append("-text-final");
        let final_text_msg = create_text_only_message(
            final_id,
            final_parent,
            role.clone(),
            current_text_content,
            timestamp,
            finished,
        );
        messages.push(final_text_msg);
        assert(messages_view(messages@) =~= messages_view(old_messages).push(final_text_msg@));
    }
    if messages.len() == 0 {
        let placeholder = vec![MessageContent::Text(owned("[No content]"))];
        assert(contents_view(placeholder@) =~= seq![ContentView::Text("[No content]"@)]);
        let default_msg = create_text_only_message(
            base_id,
            parent_id,
            role,
            placeholder,
            timestamp,
            finished,
        );
        messages.push(default_msg);
        assert(messages_view(messages@) =~= seq![default_msg@]);
    }
    messages
}

} // verus!
