//! Properties that hold across the functions of the library.
use crate::actor::{
    entry_parts, has_tool_parts, update_messages,
    accepts_channel, broadcast_view, conversation_reply_view, fallback_message_view, registered, unregistered,
    user_message_view,
};
use crate::content::{content_line, content_lines, display_text_of, json_data_parse, rich_tool_results, rich_tool_uses, ContentView, ToolStatus};
use crate::history::{history_messages, parsed_contents};
use crate::json::{json_get, json_get_array, json_get_str, JsonView};
use crate::message::{enhanced_message, opt_view, separated_messages, ChatMessageType};
use crate::protocol::{ChatMessageEntry, ClientRequest, MessageEntryVariant, ProxyOutcome, ServerResponseView};
use crate::state::{ConnectionInfo, FrontChatState};
use crate::content::{clip, clip_defined, tool_result_preview};
use crate::external::lowercase;
use crate::text::{decimal, is_digit, join, lemma_decimal_digits, lemma_decimal_injective};
use crate::message::{
    all_text, calls_tool, flush_text, last_id_or, last_tool_call_id, lemma_split_pending_text, split_fold,
    split_step, text_only_message, tool_call_message, tool_result_message, ChatMessageView, SplitState,
};
use vstd::prelude::*;
use vstd::utf8::{
    decode_utf8, decode_utf8_encode_utf8, encode_utf8, encode_utf8_valid_utf8, valid_utf8_split,
};

verus! {

/// A browser that connects and then disconnects leaves the open connections
/// as they were before it connected.
pub proof fn law_disconnect_undoes_connect(m: Map<u64, ConnectionInfo>, id: u64)
    requires
        !m.contains_key(id),
    ensures
        unregistered(registered(m, id), id) == m,
{
    assert(unregistered(registered(m, id), id) =~= m);
}

/// Connecting registers exactly the connecting browser: every other
/// connection stays as it was.
pub proof fn law_connect_registers_only_itself(m: Map<u64, ConnectionInfo>, id: u64, other: u64)
    ensures
        registered(m, id).contains_key(id),
        registered(m, id)[id] == (ConnectionInfo { connected_at: 0 }),
        other != id ==> (registered(m, id).contains_key(other) == m.contains_key(other)),
        other != id && m.contains_key(other) ==> registered(m, id)[other] == m[other],
{
}

/// Disconnecting removes exactly the disconnecting browser, and doing it
/// twice is the same as doing it once.
pub proof fn law_disconnect_removes_only_itself(m: Map<u64, ConnectionInfo>, id: u64, other: u64)
    ensures
        !unregistered(m, id).contains_key(id),
        other != id ==> (unregistered(m, id).contains_key(other) == m.contains_key(other)),
        unregistered(unregistered(m, id), id) == unregistered(m, id),
{
    assert(unregistered(unregistered(m, id), id) =~= unregistered(m, id));
}

/// Without a chat-state service, every channel is refused; with one, only
/// the channel that it opens is accepted.
pub proof fn law_channels_only_from_own_service(state: FrontChatState, from: Seq<char>, other: Seq<char>)
    ensures
        state.chat_state_id is None ==> !accepts_channel(&state, from),
        accepts_channel(&state, from) && accepts_channel(&state, other) ==> from == other,
{
}

/// A broadcast reaches the browser only when a connection is open, and then
/// carries the response exactly once.
pub proof fn law_broadcast_needs_a_connection(state: FrontChatState, response: ServerResponseView)
    ensures
        broadcast_view(&state, response).len() == if state.connections().is_empty() {
            0nat
        } else {
            1nat
        },
        broadcast_view(&state, response).len() > 0 ==> broadcast_view(&state, response)[0] == response,
{
}

/// A message made from its parts says it has tools exactly when it is not a
/// plain text message, and it is mixed exactly when it holds both tool calls
/// and tool results.
pub proof fn law_message_kind_matches_its_tools(
    id: Seq<char>,
    parent_id: Option<Seq<char>>,
    role: Seq<char>,
    content: Seq<ContentView>,
    timestamp: u64,
    finished: Option<bool>,
)
    ensures
        ({
            let m = enhanced_message(id, parent_id, role, content, timestamp, finished);
            &&& m.has_tools <==> m.message_type != ChatMessageType::Text
            &&& m.message_type == ChatMessageType::Mixed <==> (rich_tool_uses(content).len() > 0
                && rich_tool_results(content).len() > 0)
            &&& m.tool_uses == rich_tool_uses(content)
            &&& m.tool_results == rich_tool_results(content)
        }),
{
}

/// Splitting an assistant turn always gives at least one message.
pub proof fn law_split_is_never_empty(
    base_id: Seq<char>,
    parent_id: Option<Seq<char>>,
    role: Seq<char>,
    content: Seq<ContentView>,
    timestamp: u64,
    finished: Option<bool>,
)
    ensures
        separated_messages(base_id, parent_id, role, content, timestamp, finished).len() >= 1,
{
}

/// A content array gives at most one message part per entry.
pub proof fn law_at_most_one_part_per_entry(items: Seq<JsonView>)
    ensures
        parsed_contents(items).len() <= items.len(),
    decreases items.len(),
{
    if items.len() > 0 {
        law_at_most_one_part_per_entry(items.drop_last());
    }
}

/// A history gives at most one message per entry.
pub proof fn law_at_most_one_message_per_entry(entries: Seq<JsonView>)
    ensures
        history_messages(entries).len() <= entries.len(),
    decreases entries.len(),
{
    if entries.len() > 0 {
        law_at_most_one_message_per_entry(entries.drop_last());
    }
}

/// The encoding of two texts one after the other is their encodings one
/// after the other.
pub proof fn lemma_encode_concat(a: Seq<char>, b: Seq<char>)
    ensures
        encode_utf8(a + b) == encode_utf8(a) + encode_utf8(b),
    decreases a.len(),
{
    if a.len() == 0 {
        assert(a + b =~= b);
        assert(encode_utf8(a) + encode_utf8(b) =~= encode_utf8(b));
    } else {
        assert((a + b)[0] == a[0]);
        assert((a + b).drop_first() =~= a.drop_first() + b);
        lemma_encode_concat(a.drop_first(), b);
        assert(encode_utf8(a + b) =~= encode_utf8(a) + encode_utf8(b));
    }
}

/// A preview of a text is never more than 100 bytes long, and a cut one is
/// exactly 100 bytes: 97 of the text and three dots.
pub proof fn law_preview_fits_in_100_bytes(s: Seq<char>)
    requires
        clip_defined(s),
    ensures
        encode_utf8(clip(s)).len() <= 100,
        encode_utf8(s).len() > 100 ==> encode_utf8(clip(s)).len() == 100,
{
    let b = encode_utf8(s);
    if b.len() > 100 {
        encode_utf8_valid_utf8(s);
        valid_utf8_split(b, 97);
        let head = b.subrange(0, 97);
        decode_utf8_encode_utf8(head);
        reveal_strlit("...");
        lemma_encode_concat(decode_utf8(head), "..."@);
        assert(encode_utf8("..."@).len() == 3) by {
            reveal_with_fuel(encode_utf8, 4);
            assert("..."@.drop_first().drop_first().drop_first().len() == 0);
        }
    }
}

/// `call` is the tool-call message named `link` that calls `tool_use_id`.
#[verifier::opaque]
pub open spec fn is_linked_call(call: ChatMessageView, link: Seq<char>, tool_use_id: Seq<char>) -> bool {
    call.id == link && calls_tool(call, tool_use_id)
}

/// A tool-result message in a list links to a tool-call message earlier in
/// the list that calls the same tool, whenever it links to anything.
pub open spec fn results_link_to_earlier_calls(msgs: Seq<ChatMessageView>) -> bool {
    forall|k: int|
        #![trigger msgs[k]]
        0 <= k < msgs.len() && msgs[k].message_type == ChatMessageType::ToolResult
            && msgs[k].related_message_id is Some ==> exists|j: int|
            0 <= j < k && is_linked_call(
                #[trigger] msgs[j],
                msgs[k].related_message_id->0,
                msgs[k].tool_call_id->0,
            )
}

/// The call that `last_tool_call_id` finds is in the list.
pub proof fn lemma_last_tool_call_is_in_list(msgs: Seq<ChatMessageView>, tool_use_id: Seq<char>)
    ensures
        last_tool_call_id(msgs, tool_use_id) matches Some(x) ==> exists|j: int|
            0 <= j < msgs.len() && is_linked_call(#[trigger] msgs[j], x, tool_use_id),
    decreases msgs.len(),
{
    reveal(is_linked_call);
    if msgs.len() > 0 && !calls_tool(msgs.last(), tool_use_id) {
        let rest = msgs.drop_last();
        lemma_last_tool_call_is_in_list(rest, tool_use_id);
        if let Some(x) = last_tool_call_id(msgs, tool_use_id) {
            let j = choose|j: int| 0 <= j < rest.len() && is_linked_call(#[trigger] rest[j], x, tool_use_id);
            assert(msgs[j] == rest[j]);
        }
    } else if msgs.len() > 0 {
        assert(msgs[msgs.len() - 1] == msgs.last());
    }
}

/// Pushing a message that is not a linked tool result keeps the links.
proof fn lemma_push_keeps_links(msgs: Seq<ChatMessageView>, m: ChatMessageView)
    requires
        results_link_to_earlier_calls(msgs),
        m.message_type != ChatMessageType::ToolResult || m.related_message_id is None || exists|j: int|
            0 <= j < msgs.len() && is_linked_call(
                #[trigger] msgs[j],
                m.related_message_id->0,
                m.tool_call_id->0,
            ),
    ensures
        results_link_to_earlier_calls(msgs.push(m)),
{
    let n = msgs.push(m);
    assert forall|k: int|
        #![trigger n[k]]
        0 <= k < n.len() && n[k].message_type == ChatMessageType::ToolResult
            && n[k].related_message_id is Some implies exists|j: int|
        0 <= j < k && is_linked_call(#[trigger] n[j], n[k].related_message_id->0, n[k].tool_call_id->0) by {
        if k < msgs.len() {
            assert(n[k] == msgs[k]);
            let j = choose|j: int|
                0 <= j < k && is_linked_call(
                    #[trigger] msgs[j],
                    msgs[k].related_message_id->0,
                    msgs[k].tool_call_id->0,
                );
            assert(n[j] == msgs[j]);
        } else {
            assert(n[k] == m);
            let j = choose|j: int|
                0 <= j < msgs.len() && is_linked_call(
                    #[trigger] msgs[j],
                    m.related_message_id->0,
                    m.tool_call_id->0,
                );
            assert(n[j] == msgs[j]);
        }
    }
}

/// Every split keeps tool results linked to earlier calls.
proof fn lemma_split_links(
    base_id: Seq<char>,
    parent_id: Option<Seq<char>>,
    role: Seq<char>,
    timestamp: u64,
    items: Seq<ContentView>,
)
    ensures
        results_link_to_earlier_calls(split_fold(base_id, parent_id, role, timestamp, items).messages),
    decreases items.len(),
{
    if items.len() > 0 {
        let st = split_fold(base_id, parent_id, role, timestamp, items.drop_last());
        lemma_split_links(base_id, parent_id, role, timestamp, items.drop_last());
        let item = items.last();
        match item {
            ContentView::Text(_) => {},
            ContentView::ToolUse { .. } => {
                let flushed = flush_text(base_id, parent_id, role, timestamp, st);
                if st.pending.len() > 0 {
                    lemma_push_keeps_links(st.messages, flushed.messages.last());
                    assert(flushed.messages =~= st.messages.push(flushed.messages.last()));
                }
                let call = split_step(base_id, parent_id, role, timestamp, st, item).messages.last();
                lemma_push_keeps_links(flushed.messages, call);
                assert(split_step(base_id, parent_id, role, timestamp, st, item).messages
                    =~= flushed.messages.push(call));
            },
            ContentView::ToolResult { tool_use_id, .. } => {
                lemma_last_tool_call_is_in_list(st.messages, tool_use_id);
                let result = split_step(base_id, parent_id, role, timestamp, st, item).messages.last();
                lemma_push_keeps_links(st.messages, result);
                assert(split_step(base_id, parent_id, role, timestamp, st, item).messages
                    =~= st.messages.push(result));
            },
        }
    }
}

/// In the messages that an assistant turn is split into, a tool result
/// that links to a message links to an earlier tool-call message for the same
/// tool call.
pub proof fn law_split_results_follow_their_calls(
    base_id: Seq<char>,
    parent_id: Option<Seq<char>>,
    role: Seq<char>,
    content: Seq<ContentView>,
    timestamp: u64,
    finished: Option<bool>,
)
    ensures
        results_link_to_earlier_calls(
            separated_messages(base_id, parent_id, role, content, timestamp, finished),
        ),
{
    let st = split_fold(base_id, parent_id, role, timestamp, content);
    lemma_split_links(base_id, parent_id, role, timestamp, content);
    if st.pending.len() > 0 {
        let last = separated_messages(base_id, parent_id, role, content, timestamp, finished).last();
        lemma_push_keeps_links(st.messages, last);
    }
    let out = separated_messages(base_id, parent_id, role, content, timestamp, finished);
    if out.len() == 1 && st.messages.len() == 0 && st.pending.len() == 0 {
        assert(out[0].message_type == ChatMessageType::Text);
    }
}

/// `id` is the id given to the message at place `k` of a split: the turn's
/// id, the kind of the message, and `k`.
pub open spec fn numbered_id_of(base_id: Seq<char>, k: nat, id: Seq<char>) -> bool {
    ||| id == base_id + "-text-"@ + decimal(k)
    ||| id == base_id + "-tool-"@ + decimal(k)
    ||| id == base_id + "-result-"@ + decimal(k)
}

/// The messages of a split are numbered by their places.
proof fn lemma_split_ids(
    base_id: Seq<char>,
    parent_id: Option<Seq<char>>,
    role: Seq<char>,
    timestamp: u64,
    items: Seq<ContentView>,
)
    ensures
        forall|k: int|
            0 <= k < split_fold(base_id, parent_id, role, timestamp, items).messages.len()
                ==> numbered_id_of(
                base_id,
                k as nat,
                #[trigger] split_fold(base_id, parent_id, role, timestamp, items).messages[k].id,
            ),
    decreases items.len(),
{
    if items.len() > 0 {
        lemma_split_ids(base_id, parent_id, role, timestamp, items.drop_last());
    }
}

/// Two texts that start alike and are equal are equal after the common start.
proof fn lemma_cancel_prefix(pre: Seq<char>, a: Seq<char>, b: Seq<char>)
    requires
        pre + a == pre + b,
    ensures
        a == b,
{
    assert(a =~= (pre + a).subrange(pre.len() as int, (pre + a).len() as int));
    assert(b =~= (pre + b).subrange(pre.len() as int, (pre + b).len() as int));
}

/// Messages at different places of a split have different ids.
proof fn lemma_numbered_ids_differ(base_id: Seq<char>, j: nat, k: nat, x: Seq<char>, y: Seq<char>)
    requires
        numbered_id_of(base_id, j, x),
        numbered_id_of(base_id, k, y),
        j != k,
    ensures
        x != y,
{
    reveal_strlit("-text-");
    reveal_strlit("-tool-");
    reveal_strlit("-result-");
    let b = base_id.len() as int;
    if x == y {
        let texts = |n: nat| base_id + "-text-"@ + decimal(n);
        let tools = |n: nat| base_id + "-tool-"@ + decimal(n);
        let results = |n: nat| base_id + "-result-"@ + decimal(n);
        assert(x[b + 1] == y[b + 1]);
        assert(x[b + 2] == y[b + 2]);
        if x == texts(j) && y == texts(k) {
            lemma_cancel_prefix(base_id + "-text-"@, decimal(j), decimal(k));
            lemma_decimal_injective(j, k);
        } else if x == tools(j) && y == tools(k) {
            lemma_cancel_prefix(base_id + "-tool-"@, decimal(j), decimal(k));
            lemma_decimal_injective(j, k);
        } else if x == results(j) && y == results(k) {
            lemma_cancel_prefix(base_id + "-result-"@, decimal(j), decimal(k));
            lemma_decimal_injective(j, k);
        }
    }
}

/// The id of the final text message differs from every numbered id.
proof fn lemma_final_id_differs(base_id: Seq<char>, k: nat, x: Seq<char>)
    requires
        numbered_id_of(base_id, k, x),
    ensures
        x != base_id + "-text-final"@,
{
    reveal_strlit("-text-");
    reveal_strlit("-tool-");
    reveal_strlit("-result-");
    reveal_strlit("-text-final");
    let b = base_id.len() as int;
    let f = base_id + "-text-final"@;
    lemma_decimal_digits(k);
    if x == f {
        assert(x[b + 1] == f[b + 1]);
        assert(x[b + 2] == f[b + 2]);
        if x == base_id + "-text-"@ + decimal(k) {
            assert(x[b + 6] == decimal(k)[0]);
            assert(f[b + 6] == 'f');
            assert(is_digit(decimal(k)[0]));
        }
    }
}

/// No two messages in a list have the same id.
pub open spec fn ids_distinct(msgs: Seq<ChatMessageView>) -> bool {
    forall|i: int, j: int| 0 <= i < j < msgs.len() ==> #[trigger] msgs[i].id != #[trigger] msgs[j].id
}

/// The messages that an assistant turn is split into all have different ids.
pub proof fn law_split_ids_are_distinct(
    base_id: Seq<char>,
    parent_id: Option<Seq<char>>,
    role: Seq<char>,
    content: Seq<ContentView>,
    timestamp: u64,
    finished: Option<bool>,
)
    ensures
        ids_distinct(separated_messages(base_id, parent_id, role, content, timestamp, finished)),
{
    let st = split_fold(base_id, parent_id, role, timestamp, content);
    let out = separated_messages(base_id, parent_id, role, content, timestamp, finished);
    lemma_split_ids(base_id, parent_id, role, timestamp, content);
    assert forall|i: int, j: int| 0 <= i < j < out.len() implies #[trigger] out[i].id
        != #[trigger] out[j].id by {
        if st.messages.len() > 0 || st.pending.len() > 0 {
            if j < st.messages.len() {
                assert(out[i] == st.messages[i]);
                assert(out[j] == st.messages[j]);
                lemma_numbered_ids_differ(base_id, i as nat, j as nat, out[i].id, out[j].id);
            } else {
                assert(out[i] == st.messages[i]);
                assert(out[j].id == base_id + "-text-final"@);
                lemma_final_id_differs(base_id, i as nat, out[i].id);
            }
        }
    }
}

/// All the parts of a list of messages, message after message.
pub open spec fn parts_of(msgs: Seq<ChatMessageView>) -> Seq<ContentView>
    decreases msgs.len(),
{
    if msgs.len() == 0 {
        Seq::empty()
    } else {
        parts_of(msgs.drop_last()) + msgs.last().content
    }
}

/// The text parts among `c`, in order.
pub open spec fn text_parts(c: Seq<ContentView>) -> Seq<ContentView>
    decreases c.len(),
{
    if c.len() == 0 {
        Seq::empty()
    } else if c.last() is Text {
        text_parts(c.drop_last()).push(c.last())
    } else {
        text_parts(c.drop_last())
    }
}

/// The tool calls and tool results among `c`, in order.
pub open spec fn tool_parts(c: Seq<ContentView>) -> Seq<ContentView>
    decreases c.len(),
{
    if c.len() == 0 {
        Seq::empty()
    } else if c.last() is Text {
        tool_parts(c.drop_last())
    } else {
        tool_parts(c.drop_last()).push(c.last())
    }
}

/// Taking the parts of each kind commutes with putting two sequences together.
proof fn lemma_kinds_of_concat(a: Seq<ContentView>, b: Seq<ContentView>)
    ensures
        text_parts(a + b) == text_parts(a) + text_parts(b),
        tool_parts(a + b) == tool_parts(a) + tool_parts(b),
    decreases b.len(),
{
    if b.len() == 0 {
        assert(a + b =~= a);
        assert(text_parts(a) + text_parts(b) =~= text_parts(a));
        assert(tool_parts(a) + tool_parts(b) =~= tool_parts(a));
    } else {
        lemma_kinds_of_concat(a, b.drop_last());
        assert((a + b).drop_last() =~= a + b.drop_last());
        assert((a + b).last() == b.last());
        assert(text_parts(a) + text_parts(b.drop_last()).push(b.last()) =~= (text_parts(a) + text_parts(
            b.drop_last(),
        )).push(b.last()));
        assert(tool_parts(a) + tool_parts(b.drop_last()).push(b.last()) =~= (tool_parts(a) + tool_parts(
            b.drop_last(),
        )).push(b.last()));
    }
}

/// Of parts that are all text, the text parts are all of them and there is
/// no tool part.
proof fn lemma_kinds_of_text(c: Seq<ContentView>)
    requires
        all_text(c),
    ensures
        text_parts(c) == c,
        tool_parts(c) == Seq::<ContentView>::empty(),
    decreases c.len(),
{
    if c.len() > 0 {
        assert(all_text(c.drop_last()));
        lemma_kinds_of_text(c.drop_last());
        assert(c[c.len() - 1] is Text);
        assert(c.drop_last().push(c.last()) =~= c);
    }
}

/// Of a single tool part, the tool parts are that part and there is no text.
proof fn lemma_kinds_of_tool(item: ContentView)
    requires
        !(item is Text),
    ensures
        text_parts(seq![item]) == Seq::<ContentView>::empty(),
        tool_parts(seq![item]) == seq![item],
{
    let s = seq![item];
    let none = Seq::<ContentView>::empty();
    assert(s.last() == item);
    assert(s.drop_last() =~= none);
    assert(text_parts(none) == none);
    assert(tool_parts(none) == none);
    assert(text_parts(s) == text_parts(s.drop_last()));
    assert(tool_parts(s) == tool_parts(s.drop_last()).push(item));
    assert(none.push(item) =~= s);
}

/// The split so far holds every part seen: its messages hold the tool parts
/// in order, and its messages followed by the waiting text hold the text
/// parts in order.
proof fn lemma_split_keeps_parts(
    base_id: Seq<char>,
    parent_id: Option<Seq<char>>,
    role: Seq<char>,
    timestamp: u64,
    items: Seq<ContentView>,
)
    ensures
        ({
            let st = split_fold(base_id, parent_id, role, timestamp, items);
            &&& text_parts(parts_of(st.messages)) + st.pending == text_parts(items)
            &&& tool_parts(parts_of(st.messages)) == tool_parts(items)
            &&& items.len() > 0 ==> st.messages.len() > 0 || st.pending.len() > 0
        }),
    decreases items.len(),
{
    if items.len() == 0 {
        assert(Seq::<ContentView>::empty() + Seq::<ContentView>::empty() =~= Seq::<ContentView>::empty());
    } else {
        let prev = items.drop_last();
        let item = items.last();
        lemma_split_keeps_parts(base_id, parent_id, role, timestamp, prev);
        lemma_split_pending_text(base_id, parent_id, role, timestamp, prev);
        let st0 = split_fold(base_id, parent_id, role, timestamp, prev);
        let st = split_fold(base_id, parent_id, role, timestamp, items);
        assert(st == split_step(base_id, parent_id, role, timestamp, st0, item));
        match item {
            ContentView::Text(_) => {
                assert(text_parts(parts_of(st0.messages)) + st0.pending.push(item) =~= (text_parts(
                    parts_of(st0.messages),
                ) + st0.pending).push(item));
            },
            ContentView::ToolUse { .. } => {
                let flushed = flush_text(base_id, parent_id, role, timestamp, st0);
                if st0.pending.len() > 0 {
                    let m = flushed.messages.last();
                    assert(flushed.messages.drop_last() =~= st0.messages);
                    assert(m.content == st0.pending);
                    lemma_kinds_of_concat(parts_of(st0.messages), st0.pending);
                    lemma_kinds_of_text(st0.pending);
                    assert(tool_parts(parts_of(st0.messages)) + Seq::<ContentView>::empty() =~= tool_parts(
                        parts_of(st0.messages),
                    ));
                }
                assert(text_parts(parts_of(flushed.messages)) + flushed.pending == text_parts(prev));
                assert(tool_parts(parts_of(flushed.messages)) == tool_parts(prev));
                assert(flushed.pending.len() == 0);
                assert(st.messages.drop_last() =~= flushed.messages);
                assert(st.messages.last().content == seq![item]);
                lemma_kinds_of_concat(parts_of(flushed.messages), seq![item]);
                lemma_kinds_of_tool(item);
                assert(text_parts(parts_of(flushed.messages)) + Seq::<ContentView>::empty() =~= text_parts(
                    parts_of(flushed.messages),
                ));
                assert(text_parts(parts_of(st.messages)) + st.pending =~= text_parts(
                    parts_of(flushed.messages),
                ));
            },
            ContentView::ToolResult { .. } => {
                assert(st.messages.drop_last() =~= st0.messages);
                assert(st.messages.last().content == seq![item]);
                lemma_kinds_of_concat(parts_of(st0.messages), seq![item]);
                lemma_kinds_of_tool(item);
                assert(text_parts(parts_of(st0.messages)) + Seq::<ContentView>::empty() =~= text_parts(
                    parts_of(st0.messages),
                ));
            },
        }
    }
}

/// Splitting an assistant turn loses no part and keeps the order of each
/// kind: taken message after message, the parts of the messages hold the
/// turn's text parts in their order and its tool calls and tool results in
/// their order.
pub proof fn law_split_keeps_every_part(
    base_id: Seq<char>,
    parent_id: Option<Seq<char>>,
    role: Seq<char>,
    content: Seq<ContentView>,
    timestamp: u64,
    finished: Option<bool>,
)
    requires
        content.len() > 0,
    ensures
        text_parts(parts_of(separated_messages(base_id, parent_id, role, content, timestamp, finished)))
            == text_parts(content),
        tool_parts(parts_of(separated_messages(base_id, parent_id, role, content, timestamp, finished)))
            == tool_parts(content),
{
    let st = split_fold(base_id, parent_id, role, timestamp, content);
    let out = separated_messages(base_id, parent_id, role, content, timestamp, finished);
    lemma_split_keeps_parts(base_id, parent_id, role, timestamp, content);
    lemma_split_pending_text(base_id, parent_id, role, timestamp, content);
    if st.pending.len() > 0 {
        assert(out.drop_last() =~= st.messages);
        assert(out.last().content == st.pending);
        lemma_kinds_of_concat(parts_of(st.messages), st.pending);
        lemma_kinds_of_text(st.pending);
        assert(tool_parts(parts_of(st.messages)) + Seq::<ContentView>::empty() =~= tool_parts(
            parts_of(st.messages),
        ));
    } else {
        assert(out == st.messages);
        assert(text_parts(parts_of(st.messages)) + st.pending =~= text_parts(parts_of(st.messages)));
    }
}

// ---------------------------------------------------------------------------
// What a browser request is answered with
// ---------------------------------------------------------------------------
/// The error that a failed id gives.
pub open spec fn id_error(e: Seq<char>) -> Seq<char> {
    "Failed to generate message ID: "@ + e
}

/// What the browser is sent for a request, as the host carries out the plan
/// of `handle_client_request` with `send_message_plan`, `fallback_reply` and
/// `conversation_reply`: `user_id` and `fallback_id` are the outcomes of making
/// the ids, `history` the reply of the chat-state service to a history request.
pub open spec fn client_request_answer(
    state: &FrontChatState,
    request: ClientRequest,
    user_id: Result<Seq<char>, Seq<char>>,
    fallback_id: Result<Seq<char>, Seq<char>>,
    history: ProxyOutcome,
) -> Result<Seq<ServerResponseView>, Seq<char>> {
    match request {
        ClientRequest::SendMessage { content } => match user_id {
            Err(e) => Err(id_error(e)),
            Ok(id) => {
                let shown = broadcast_view(
                    state,
                    ServerResponseView::MessageAdded { message: user_message_view(id, content@) },
                );
                if state.chat_state_id is Some {
                    Ok(shown)
                } else {
                    match fallback_id {
                        Err(e) => Err(id_error(e)),
                        Ok(f) => Ok(
                            shown + broadcast_view(
                                state,
                                ServerResponseView::MessageAdded { message: fallback_message_view(f) },
                            ),
                        ),
                    }
                }
            },
        },
        ClientRequest::GetConversation => match state.chat_state_id {
            Some(_) => Ok(conversation_reply_view(state, history)),
            None => Ok(
                broadcast_view(
                    state,
                    ServerResponseView::ConversationState {
                        messages: Seq::empty(),
                        conversation_id: state.conversation_id@,
                    },
                ),
            ),
        },
        ClientRequest::UpdateSettings { .. } => match state.chat_state_id {
            Some(_) => Ok(Seq::empty()),
            None => Ok(
                broadcast_view(
                    state,
                    ServerResponseView::Error { message: "Settings update not implemented yet"@ },
                ),
            ),
        },
    }
}

/// A browser request fails only when it posts a message and an id cannot be
/// made, and then with that id's error. Otherwise it is answered with at most
/// two messages: none when no browser is connected, and at least one when one
/// is, but for settings passed on to the chat-state service.
pub proof fn law_client_request_answers(
    state: &FrontChatState,
    request: ClientRequest,
    user_id: Result<Seq<char>, Seq<char>>,
    fallback_id: Result<Seq<char>, Seq<char>>,
    history: ProxyOutcome,
)
    ensures
        match client_request_answer(state, request, user_id, fallback_id, history) {
            Err(e) => request is SendMessage && (match user_id {
                Err(x) => e == id_error(x),
                Ok(_) => state.chat_state_id is None && (fallback_id matches Err(x) && e == id_error(x)),
            }),
            Ok(ms) => {
                &&& ms.len() <= 2
                &&& state.connections().is_empty() ==> ms.len() == 0
                &&& !state.connections().is_empty() && !(request is UpdateSettings
                    && state.chat_state_id is Some) ==> ms.len() > 0
            },
        },
{
}

// ---------------------------------------------------------------------------
// The shape of a split
// ---------------------------------------------------------------------------
/// A message of a split speaks for `role` at `timestamp`, holds parts, is
/// never mixed, has a tool call id exactly when it is a tool message, holds
/// only text when it is a text message, and holds its one tool part when it
/// is a tool message; a tool-call message is not finished.
#[verifier::opaque]
pub open spec fn split_message_shaped(m: ChatMessageView, role: Seq<char>, timestamp: u64) -> bool {
    &&& m.role == role
    &&& m.timestamp == timestamp
    &&& m.content.len() > 0
    &&& m.message_type != ChatMessageType::Mixed
    &&& (m.tool_call_id is Some <==> m.message_type != ChatMessageType::Text)
    &&& m.message_type == ChatMessageType::Text ==> all_text(m.content)
    &&& m.message_type == ChatMessageType::ToolCall ==> m.content.len() == 1 && m.content[0] is ToolUse
        && m.finished == Some(false)
    &&& m.message_type == ChatMessageType::ToolResult ==> m.content.len() == 1
        && m.content[0] is ToolResult
}

/// Each tool-call message follows the message before it, or `parent_id`
/// when it comes first.
pub open spec fn calls_follow(msgs: Seq<ChatMessageView>, parent_id: Option<Seq<char>>) -> bool {
    forall|i: int|
        0 <= i < msgs.len() && (#[trigger] msgs[i]).message_type == ChatMessageType::ToolCall
            ==> msgs[i].parent_id == (if i == 0 {
            parent_id
        } else {
            Some(msgs[i - 1].id)
        })
}

/// The number of messages of kind `t`.
pub open spec fn count_type(msgs: Seq<ChatMessageView>, t: ChatMessageType) -> nat
    decreases msgs.len(),
{
    if msgs.len() == 0 {
        0
    } else {
        count_type(msgs.drop_last(), t) + if msgs.last().message_type == t {
            1nat
        } else {
            0nat
        }
    }
}

/// The number of tool calls among the parts.
pub open spec fn count_uses(c: Seq<ContentView>) -> nat
    decreases c.len(),
{
    if c.len() == 0 {
        0
    } else {
        count_uses(c.drop_last()) + if c.last() is ToolUse {
            1nat
        } else {
            0nat
        }
    }
}

/// The number of tool results among the parts.
pub open spec fn count_results(c: Seq<ContentView>) -> nat
    decreases c.len(),
{
    if c.len() == 0 {
        0
    } else {
        count_results(c.drop_last()) + if c.last() is ToolResult {
            1nat
        } else {
            0nat
        }
    }
}

/// The shape that a split keeps, for its messages so far.
pub open spec fn split_shaped(
    msgs: Seq<ChatMessageView>,
    parent_id: Option<Seq<char>>,
    role: Seq<char>,
    timestamp: u64,
) -> bool {
    &&& forall|i: int| 0 <= i < msgs.len() ==> split_message_shaped(#[trigger] msgs[i], role, timestamp)
    &&& calls_follow(msgs, parent_id)
}

/// Adding a message keeps the shape when the message has it and, as a tool
/// call, follows the last message.
proof fn lemma_shaped_push(
    msgs: Seq<ChatMessageView>,
    m: ChatMessageView,
    parent_id: Option<Seq<char>>,
    role: Seq<char>,
    timestamp: u64,
)
    requires
        split_shaped(msgs, parent_id, role, timestamp),
        split_message_shaped(m, role, timestamp),
        m.message_type == ChatMessageType::ToolCall ==> m.parent_id == last_id_or(msgs, parent_id),
    ensures
        split_shaped(msgs.push(m), parent_id, role, timestamp),
{
    let out = msgs.push(m);
    assert forall|i: int| 0 <= i < out.len() implies split_message_shaped(#[trigger] out[i], role, timestamp) by {
        if i < msgs.len() {
            assert(out[i] == msgs[i]);
        }
    }
    assert forall|i: int|
        0 <= i < out.len() && (#[trigger] out[i]).message_type == ChatMessageType::ToolCall
            implies out[i].parent_id == (if i == 0 {
            parent_id
        } else {
            Some(out[i - 1].id)
        }) by {
        if i < msgs.len() {
            assert(out[i] == msgs[i]);
            if i > 0 {
                assert(out[i - 1] == msgs[i - 1]);
            }
        } else if i > 0 {
            assert(out[i - 1] == msgs.last());
        }
    }
}

/// Adding a message adds one to the count of its kind.
proof fn lemma_count_push(msgs: Seq<ChatMessageView>, m: ChatMessageView, t: ChatMessageType)
    ensures
        count_type(msgs.push(m), t) == count_type(msgs, t) + if m.message_type == t {
            1nat
        } else {
            0nat
        },
{
    assert(msgs.push(m).drop_last() =~= msgs);
}

/// A text message of a split, made from waiting text, has the shape.
proof fn lemma_text_message_shaped(
    id: Seq<char>,
    parent_id: Option<Seq<char>>,
    role: Seq<char>,
    pending: Seq<ContentView>,
    timestamp: u64,
    finished: Option<bool>,
)
    requires
        pending.len() > 0,
        all_text(pending),
    ensures
        split_message_shaped(text_only_message(id, parent_id, role, pending, timestamp, finished), role, timestamp),
        text_only_message(id, parent_id, role, pending, timestamp, finished).message_type == ChatMessageType::Text,
{
    reveal(split_message_shaped);
}

/// A tool-call message of a split has the shape.
proof fn lemma_call_message_shaped(
    id: Seq<char>,
    parent_id: Option<Seq<char>>,
    role: Seq<char>,
    item: ContentView,
    timestamp: u64,
)
    requires
        item is ToolUse,
    ensures
        split_message_shaped(tool_call_message(id, parent_id, role, item, timestamp, Some(false)), role, timestamp),
        tool_call_message(id, parent_id, role, item, timestamp, Some(false)).message_type == ChatMessageType::ToolCall,
        tool_call_message(id, parent_id, role, item, timestamp, Some(false)).parent_id == parent_id,
{
    reveal(split_message_shaped);
}

/// A tool-result message of a split has the shape.
proof fn lemma_result_message_shaped(
    id: Seq<char>,
    parent_id: Option<Seq<char>>,
    role: Seq<char>,
    item: ContentView,
    timestamp: u64,
)
    requires
        item is ToolResult,
    ensures
        split_message_shaped(tool_result_message(id, parent_id, role, item, timestamp, Some(true)), role, timestamp),
        tool_result_message(id, parent_id, role, item, timestamp, Some(true)).message_type
            == ChatMessageType::ToolResult,
{
    reveal(split_message_shaped);
}

/// The counts of a split so far match the parts it has seen.
pub open spec fn counts_match(msgs: Seq<ChatMessageView>, items: Seq<ContentView>) -> bool {
    &&& count_type(msgs, ChatMessageType::ToolCall) == count_uses(items)
    &&& count_type(msgs, ChatMessageType::ToolResult) == count_results(items)
}

/// A tool call closes the waiting text and adds its own message, keeping
/// the shape and the counts.
#[verifier::spinoff_prover]
proof fn lemma_step_call(
    base_id: Seq<char>,
    parent_id: Option<Seq<char>>,
    role: Seq<char>,
    timestamp: u64,
    st0: SplitState,
    prev: Seq<ContentView>,
    item: ContentView,
)
    requires
        item is ToolUse,
        split_shaped(st0.messages, parent_id, role, timestamp),
        counts_match(st0.messages, prev),
        all_text(st0.pending),
    ensures
        split_shaped(split_step(base_id, parent_id, role, timestamp, st0, item).messages, parent_id, role, timestamp),
        counts_match(split_step(base_id, parent_id, role, timestamp, st0, item).messages, prev.push(item)),
{
    let flushed = flush_text(base_id, parent_id, role, timestamp, st0);
    if st0.pending.len() > 0 {
        let tid = base_id + "-text-"@ + decimal(st0.messages.len());
        let t = text_only_message(tid, parent_id, role, st0.pending, timestamp, Some(true));
        lemma_text_message_shaped(tid, parent_id, role, st0.pending, timestamp, Some(true));
        assert(flushed.messages =~= st0.messages.push(t));
        lemma_shaped_push(st0.messages, t, parent_id, role, timestamp);
        lemma_count_push(st0.messages, t, ChatMessageType::ToolCall);
        lemma_count_push(st0.messages, t, ChatMessageType::ToolResult);
    }
    let cid = base_id + "-tool-"@ + decimal(flushed.messages.len());
    let cparent = last_id_or(flushed.messages, parent_id);
    let m = tool_call_message(cid, cparent, role, item, timestamp, Some(false));
    lemma_call_message_shaped(cid, cparent, role, item, timestamp);
    assert(split_step(base_id, parent_id, role, timestamp, st0, item).messages =~= flushed.messages.push(m));
    lemma_shaped_push(flushed.messages, m, parent_id, role, timestamp);
    lemma_count_push(flushed.messages, m, ChatMessageType::ToolCall);
    lemma_count_push(flushed.messages, m, ChatMessageType::ToolResult);
    assert(prev.push(item).drop_last() =~= prev);
}

/// A tool result adds its own message, keeping the shape and the counts.
#[verifier::spinoff_prover]
proof fn lemma_step_result(
    base_id: Seq<char>,
    parent_id: Option<Seq<char>>,
    role: Seq<char>,
    timestamp: u64,
    st0: SplitState,
    prev: Seq<ContentView>,
    item: ContentView,
)
    requires
        item is ToolResult,
        split_shaped(st0.messages, parent_id, role, timestamp),
        counts_match(st0.messages, prev),
    ensures
        split_shaped(split_step(base_id, parent_id, role, timestamp, st0, item).messages, parent_id, role, timestamp),
        counts_match(split_step(base_id, parent_id, role, timestamp, st0, item).messages, prev.push(item)),
{
    let rid = base_id + "-result-"@ + decimal(st0.messages.len());
    let rparent = last_tool_call_id(st0.messages, item->ToolResult_tool_use_id);
    let m = tool_result_message(rid, rparent, role, item, timestamp, Some(true));
    lemma_result_message_shaped(rid, rparent, role, item, timestamp);
    assert(split_step(base_id, parent_id, role, timestamp, st0, item).messages =~= st0.messages.push(m));
    lemma_shaped_push(st0.messages, m, parent_id, role, timestamp);
    lemma_count_push(st0.messages, m, ChatMessageType::ToolCall);
    lemma_count_push(st0.messages, m, ChatMessageType::ToolResult);
    assert(prev.push(item).drop_last() =~= prev);
}

/// Text waits: the messages and the counts stay as they are.
proof fn lemma_step_text(
    base_id: Seq<char>,
    parent_id: Option<Seq<char>>,
    role: Seq<char>,
    timestamp: u64,
    st0: SplitState,
    prev: Seq<ContentView>,
    item: ContentView,
)
    requires
        item is Text,
        counts_match(st0.messages, prev),
    ensures
        split_step(base_id, parent_id, role, timestamp, st0, item).messages == st0.messages,
        counts_match(st0.messages, prev.push(item)),
{
    assert(prev.push(item).drop_last() =~= prev);
}

/// Every split so far has the shape, and counts one tool-call message per
/// tool call and one tool-result message per tool result.
#[verifier::spinoff_prover]
#[verifier::rlimit(40)]
proof fn lemma_split_shape(
    base_id: Seq<char>,
    parent_id: Option<Seq<char>>,
    role: Seq<char>,
    timestamp: u64,
    items: Seq<ContentView>,
)
    ensures
        split_shaped(split_fold(base_id, parent_id, role, timestamp, items).messages, parent_id, role, timestamp),
        counts_match(split_fold(base_id, parent_id, role, timestamp, items).messages, items),
    decreases items.len(),
{
    if items.len() > 0 {
        let prev = items.drop_last();
        let item = items.last();
        lemma_split_shape(base_id, parent_id, role, timestamp, prev);
        lemma_split_pending_text(base_id, parent_id, role, timestamp, prev);
        let st0 = split_fold(base_id, parent_id, role, timestamp, prev);
        assert(prev.push(item) =~= items);
        if item is ToolUse {
            lemma_step_call(base_id, parent_id, role, timestamp, st0, prev, item);
        } else if item is ToolResult {
            lemma_step_result(base_id, parent_id, role, timestamp, st0, prev, item);
        } else {
            lemma_step_text(base_id, parent_id, role, timestamp, st0, prev, item);
        }
    }
}

/// The messages that an assistant turn is split into all speak for the
/// turn's role at its timestamp and hold parts; none is mixed; a message has
/// a tool call id exactly when it is a tool message; a text message holds
/// only text, a tool message exactly its one tool part; a tool-call message
/// is unfinished and follows the message before it (or the turn's parent);
/// and there is one tool-call message per tool call and one tool-result
/// message per tool result.
#[verifier::spinoff_prover]
pub proof fn law_split_shape(
    base_id: Seq<char>,
    parent_id: Option<Seq<char>>,
    role: Seq<char>,
    content: Seq<ContentView>,
    timestamp: u64,
    finished: Option<bool>,
)
    ensures
        split_shaped(separated_messages(base_id, parent_id, role, content, timestamp, finished), parent_id, role, timestamp),
        count_type(separated_messages(base_id, parent_id, role, content, timestamp, finished), ChatMessageType::ToolCall)
            == count_uses(content),
        count_type(separated_messages(base_id, parent_id, role, content, timestamp, finished), ChatMessageType::ToolResult)
            == count_results(content),
{
    let st = split_fold(base_id, parent_id, role, timestamp, content);
    let out = separated_messages(base_id, parent_id, role, content, timestamp, finished);
    lemma_split_shape(base_id, parent_id, role, timestamp, content);
    lemma_split_pending_text(base_id, parent_id, role, timestamp, content);
    let fparent = last_id_or(st.messages, parent_id);
    let fid = base_id + "-text-final"@;
    let t = text_only_message(fid, fparent, role, st.pending, timestamp, finished);
    let msgs = if st.pending.len() > 0 {
        st.messages.push(t)
    } else {
        st.messages
    };
    if st.pending.len() > 0 {
        lemma_text_message_shaped(fid, fparent, role, st.pending, timestamp, finished);
        lemma_shaped_push(st.messages, t, parent_id, role, timestamp);
        lemma_count_push(st.messages, t, ChatMessageType::ToolCall);
        lemma_count_push(st.messages, t, ChatMessageType::ToolResult);
    }
    if msgs.len() == 0 {
        let none = Seq::<ChatMessageView>::empty();
        let placeholder = seq![ContentView::Text("[No content]"@)];
        assert(all_text(placeholder));
        let p = text_only_message(base_id, parent_id, role, placeholder, timestamp, finished);
        lemma_text_message_shaped(base_id, parent_id, role, placeholder, timestamp, finished);
        lemma_shaped_push(none, p, parent_id, role, timestamp);
        lemma_count_push(none, p, ChatMessageType::ToolCall);
        lemma_count_push(none, p, ChatMessageType::ToolResult);
        assert(out == none.push(p));
    } else {
        assert(out == msgs);
    }
}

// ---------------------------------------------------------------------------
// Display text
// ---------------------------------------------------------------------------
/// Joining two non-empty lists of lines is joining each and putting the
/// separator between.
proof fn lemma_join_concat(x: Seq<Seq<char>>, y: Seq<Seq<char>>, sep: Seq<char>)
    requires
        x.len() > 0,
        y.len() > 0,
    ensures
        join(x + y, sep) == join(x, sep) + sep + join(y, sep),
    decreases y.len(),
{
    let xy = x + y;
    if y.len() == 1 {
        assert(xy.drop_last() =~= x);
        assert(xy.last() == y[0]);
    } else {
        lemma_join_concat(x, y.drop_last(), sep);
        assert(xy.drop_last() =~= x + y.drop_last());
        assert(xy.last() == y.last());
        assert(join(x, sep) + sep + (join(y.drop_last(), sep) + sep + y.last()) =~= (join(x, sep) + sep
            + join(y.drop_last(), sep)) + sep + y.last());
    }
}

/// The display text of no parts is empty, and that of two non-empty part
/// lists one after the other is their two display texts joined by a newline.
pub proof fn law_display_text_of_concat(a: Seq<ContentView>, b: Seq<ContentView>)
    requires
        a.len() > 0,
        b.len() > 0,
    ensures
        display_text_of(Seq::<ContentView>::empty()) == Seq::<char>::empty(),
        display_text_of(a + b) == display_text_of(a) + "\n"@ + display_text_of(b),
{
    assert(content_lines(a + b) =~= content_lines(a) + content_lines(b));
    lemma_join_concat(content_lines(a), content_lines(b), "\n"@);
}

// ---------------------------------------------------------------------------
// Which call a tool result answers
// ---------------------------------------------------------------------------
/// `m` is a tool-call message with a call whose id is `id`.
pub open spec fn calls_id(m: ChatMessageView, id: Seq<char>) -> bool {
    &&& m.message_type == ChatMessageType::ToolCall
    &&& exists|k: int| 0 <= k < m.tool_uses.len() && #[trigger] m.tool_uses[k].id == id
}

/// `link` names the latest message before place `i` that calls `id`, and is
/// `None` exactly when no message before `i` does.
pub open spec fn links_to_latest_call(
    msgs: Seq<ChatMessageView>,
    i: int,
    id: Seq<char>,
    link: Option<Seq<char>>,
) -> bool {
    match link {
        Some(x) => exists|j: int|
            0 <= j < i && (#[trigger] msgs[j]).id == x && calls_id(msgs[j], id) && forall|l: int|
                j < l < i ==> !calls_id(#[trigger] msgs[l], id),
        None => forall|j: int| 0 <= j < i ==> !calls_id(#[trigger] msgs[j], id),
    }
}

/// The message at place `i`, when it is a tool result, holds one tool result
/// part, names that part's call as its `tool_call_id`, and links (as parent
/// and as related message) to the latest earlier message that makes that
/// call, or to nothing when none does.
pub open spec fn result_links_latest(msgs: Seq<ChatMessageView>, i: int) -> bool {
    msgs[i].message_type == ChatMessageType::ToolResult ==> {
        &&& msgs[i].content.len() == 1
        &&& msgs[i].content[0] is ToolResult
        &&& msgs[i].tool_call_id == Some(msgs[i].content[0]->ToolResult_tool_use_id)
        &&& msgs[i].parent_id == msgs[i].related_message_id
        &&& links_to_latest_call(
            msgs,
            i,
            msgs[i].content[0]->ToolResult_tool_use_id,
            msgs[i].related_message_id,
        )
    }
}

/// Every tool-result message of a list links to the latest call it answers.
pub open spec fn results_link_latest(msgs: Seq<ChatMessageView>) -> bool {
    forall|i: int| 0 <= i < msgs.len() ==> #[trigger] result_links_latest(msgs, i)
}

/// The search for a tool call finds the latest message that makes it.
proof fn lemma_last_call_is_latest(msgs: Seq<ChatMessageView>, id: Seq<char>)
    ensures
        links_to_latest_call(msgs, msgs.len() as int, id, last_tool_call_id(msgs, id)),
    decreases msgs.len(),
{
    if msgs.len() > 0 {
        let rest = msgs.drop_last();
        let n = msgs.len() - 1;
        lemma_last_call_is_latest(rest, id);
        assert(msgs[n] == msgs.last());
        if calls_tool(msgs.last(), id) {
            let k = choose|k: int| 0 <= k < msgs.last().tool_uses.len() && #[trigger] msgs.last().tool_uses[k].id == id;
            assert(calls_id(msgs[n], id));
        } else {
            assert(!calls_id(msgs[n], id)) by {
                if calls_id(msgs[n], id) {
                    let k = choose|k: int| 0 <= k < msgs[n].tool_uses.len() && #[trigger] msgs[n].tool_uses[k].id == id;
                    assert(calls_tool(msgs.last(), id));
                }
            }
            match last_tool_call_id(rest, id) {
                Some(x) => {
                    let j = choose|j: int|
                        0 <= j < n && (#[trigger] rest[j]).id == x && calls_id(rest[j], id) && forall|l: int|
                            j < l < n ==> !calls_id(#[trigger] rest[l], id);
                    assert(msgs[j] == rest[j]);
                    assert forall|l: int| j < l < n + 1 implies !calls_id(#[trigger] msgs[l], id) by {
                        if l < n {
                            assert(msgs[l] == rest[l]);
                        }
                    }
                },
                None => {
                    assert forall|j: int| 0 <= j < n + 1 implies !calls_id(#[trigger] msgs[j], id) by {
                        if j < n {
                            assert(msgs[j] == rest[j]);
                        }
                    }
                },
            }
        }
    }
}

/// What is said of the places up to `i` stays true when a message is added.
proof fn lemma_latest_push(msgs: Seq<ChatMessageView>, m: ChatMessageView, i: int, id: Seq<char>, link: Option<Seq<char>>)
    requires
        0 <= i <= msgs.len(),
        links_to_latest_call(msgs, i, id, link),
    ensures
        links_to_latest_call(msgs.push(m), i, id, link),
{
    let out = msgs.push(m);
    match link {
        Some(x) => {
            let j = choose|j: int|
                0 <= j < i && (#[trigger] msgs[j]).id == x && calls_id(msgs[j], id) && forall|l: int|
                    j < l < i ==> !calls_id(#[trigger] msgs[l], id);
            assert(out[j] == msgs[j]);
            assert forall|l: int| j < l < i implies !calls_id(#[trigger] out[l], id) by {
                assert(out[l] == msgs[l]);
            }
        },
        None => {
            assert forall|j: int| 0 <= j < i implies !calls_id(#[trigger] out[j], id) by {
                assert(out[j] == msgs[j]);
            }
        },
    }
}

/// Adding a message keeps every link when the new one, if a tool result,
/// links to the latest call it answers.
proof fn lemma_results_link_latest_push(msgs: Seq<ChatMessageView>, m: ChatMessageView)
    requires
        results_link_latest(msgs),
        result_links_latest(msgs.push(m), msgs.len() as int),
    ensures
        results_link_latest(msgs.push(m)),
{
    let out = msgs.push(m);
    assert forall|i: int| 0 <= i < out.len() implies #[trigger] result_links_latest(out, i) by {
        if i < msgs.len() {
            assert(result_links_latest(msgs, i));
            assert(out[i] == msgs[i]);
            if msgs[i].message_type == ChatMessageType::ToolResult {
                lemma_latest_push(
                    msgs,
                    m,
                    i,
                    msgs[i].content[0]->ToolResult_tool_use_id,
                    msgs[i].related_message_id,
                );
            }
        }
    }
}

/// A tool result adds a message that links to the latest call it answers.
#[verifier::spinoff_prover]
proof fn lemma_step_result_links(
    base_id: Seq<char>,
    parent_id: Option<Seq<char>>,
    role: Seq<char>,
    timestamp: u64,
    st0: SplitState,
    item: ContentView,
)
    requires
        item is ToolResult,
        results_link_latest(st0.messages),
    ensures
        results_link_latest(split_step(base_id, parent_id, role, timestamp, st0, item).messages),
{
    let tid = item->ToolResult_tool_use_id;
    let rid = base_id + "-result-"@ + decimal(st0.messages.len());
    let rparent = last_tool_call_id(st0.messages, tid);
    let m = tool_result_message(rid, rparent, role, item, timestamp, Some(true));
    assert(split_step(base_id, parent_id, role, timestamp, st0, item).messages =~= st0.messages.push(m));
    lemma_last_call_is_latest(st0.messages, tid);
    lemma_latest_push(st0.messages, m, st0.messages.len() as int, tid, rparent);
    let out = st0.messages.push(m);
    assert(out[st0.messages.len() as int] == m);
    assert(m.content == seq![item]);
    lemma_results_link_latest_push(st0.messages, m);
}

/// A tool call adds messages that are not tool results.
#[verifier::spinoff_prover]
proof fn lemma_step_call_links(
    base_id: Seq<char>,
    parent_id: Option<Seq<char>>,
    role: Seq<char>,
    timestamp: u64,
    st0: SplitState,
    item: ContentView,
)
    requires
        item is ToolUse,
        results_link_latest(st0.messages),
        all_text(st0.pending),
    ensures
        results_link_latest(split_step(base_id, parent_id, role, timestamp, st0, item).messages),
{
    let flushed = flush_text(base_id, parent_id, role, timestamp, st0);
    if st0.pending.len() > 0 {
        let tid = base_id + "-text-"@ + decimal(st0.messages.len());
        let t = text_only_message(tid, parent_id, role, st0.pending, timestamp, Some(true));
        assert(flushed.messages =~= st0.messages.push(t));
        assert(t.message_type == ChatMessageType::Text);
        lemma_results_link_latest_push(st0.messages, t);
    }
    let cid = base_id + "-tool-"@ + decimal(flushed.messages.len());
    let cparent = last_id_or(flushed.messages, parent_id);
    let m = tool_call_message(cid, cparent, role, item, timestamp, Some(false));
    assert(split_step(base_id, parent_id, role, timestamp, st0, item).messages =~= flushed.messages.push(m));
    assert(m.message_type == ChatMessageType::ToolCall);
    lemma_results_link_latest_push(flushed.messages, m);
}

/// Every split so far links each tool result to the latest call it answers.
proof fn lemma_split_links_latest(
    base_id: Seq<char>,
    parent_id: Option<Seq<char>>,
    role: Seq<char>,
    timestamp: u64,
    items: Seq<ContentView>,
)
    ensures
        results_link_latest(split_fold(base_id, parent_id, role, timestamp, items).messages),
    decreases items.len(),
{
    if items.len() > 0 {
        let prev = items.drop_last();
        let item = items.last();
        lemma_split_links_latest(base_id, parent_id, role, timestamp, prev);
        lemma_split_pending_text(base_id, parent_id, role, timestamp, prev);
        let st0 = split_fold(base_id, parent_id, role, timestamp, prev);
        if item is ToolUse {
            lemma_step_call_links(base_id, parent_id, role, timestamp, st0, item);
        } else if item is ToolResult {
            lemma_step_result_links(base_id, parent_id, role, timestamp, st0, item);
        }
    }
}

/// In the messages that an assistant turn is split into, each tool-result
/// message holds its one tool result, names that result's call as its
/// `tool_call_id`, and links, as parent and as related message, to the
/// latest earlier tool-call message whose calls include that id; it links
/// to nothing exactly when no earlier message makes that call.
pub proof fn law_split_results_answer_their_own_call(
    base_id: Seq<char>,
    parent_id: Option<Seq<char>>,
    role: Seq<char>,
    content: Seq<ContentView>,
    timestamp: u64,
    finished: Option<bool>,
)
    ensures
        results_link_latest(separated_messages(base_id, parent_id, role, content, timestamp, finished)),
{
    let st = split_fold(base_id, parent_id, role, timestamp, content);
    let out = separated_messages(base_id, parent_id, role, content, timestamp, finished);
    lemma_split_links_latest(base_id, parent_id, role, timestamp, content);
    let fparent = last_id_or(st.messages, parent_id);
    let t = text_only_message(base_id + "-text-final"@, fparent, role, st.pending, timestamp, finished);
    let msgs = if st.pending.len() > 0 {
        st.messages.push(t)
    } else {
        st.messages
    };
    if st.pending.len() > 0 {
        assert(t.message_type == ChatMessageType::Text);
        lemma_results_link_latest_push(st.messages, t);
    }
    if msgs.len() == 0 {
        assert(out.len() == 1 && out[0].message_type == ChatMessageType::Text);
        assert(result_links_latest(out, 0));
    } else {
        assert(out == msgs);
    }
}

// ---------------------------------------------------------------------------
// Completions in the history
// ---------------------------------------------------------------------------
/// The completion data of a history entry whose body is a completion (and
/// not a user message).
pub open spec fn completion_data(v: JsonView) -> Option<JsonView> {
    match json_get(v, "entry"@) {
        Some(JsonView::Object(f)) => if json_get(JsonView::Object(f), "Message"@) is Some {
            None
        } else {
            json_get(JsonView::Object(f), "Completion"@)
        },
        _ => None,
    }
}

/// The messages of the first entries of a history are the first messages of
/// the whole history.
proof fn lemma_history_prefix(entries: Seq<JsonView>, j: int)
    requires
        0 <= j <= entries.len(),
    ensures
        history_messages(entries.take(j)).len() <= history_messages(entries).len(),
        forall|k: int|
            0 <= k < history_messages(entries.take(j)).len() ==> #[trigger] history_messages(entries.take(j))[k]
                == history_messages(entries)[k],
    decreases entries.len(),
{
    if j == entries.len() {
        assert(entries.take(j) =~= entries);
    } else {
        let rest = entries.drop_last();
        lemma_history_prefix(rest, j);
        assert(rest.take(j) =~= entries.take(j));
    }
}

/// A completion entry of the history becomes an assistant message with the
/// entry's id (or "msg_" and its place), the entry's parent, and `finished`
/// set exactly when its stop reason is "EndTurn" or missing. Its message
/// comes after the messages of the entries before it.
pub proof fn law_history_completion_finishes_on_end_turn(entries: Seq<JsonView>, i: int)
    requires
        0 <= i < entries.len(),
        completion_data(entries[i]) is Some,
        json_get_array(completion_data(entries[i])->0, "content"@) is Some,
    ensures
        ({
            let k = history_messages(entries.take(i)).len() as int;
            let m = history_messages(entries)[k];
            let stop = json_get_str(completion_data(entries[i])->0, "stop_reason"@);
            &&& k < history_messages(entries).len()
            &&& m.id == (match json_get_str(entries[i], "id"@) {
                Some(x) => x,
                None => "msg_"@ + decimal(i as nat),
            })
            &&& m.parent_id == json_get_str(entries[i], "parent_id"@)
            &&& m.role == "assistant"@
            &&& m.finished == Some(stop is None || stop == Some("EndTurn"@))
        }),
{
    let upto = entries.take(i + 1);
    assert(upto.drop_last() =~= entries.take(i));
    assert(upto.last() == entries[i]);
    lemma_history_prefix(entries, i + 1);
    let k = history_messages(entries.take(i)).len() as int;
    assert(history_messages(upto)[k] == history_messages(entries)[k]);
}

// ---------------------------------------------------------------------------
// Entries pushed on the conversation channel
// ---------------------------------------------------------------------------
/// A channel entry that is shown as one message (a user message, or a
/// completion that holds only text) is announced once, with the entry's id,
/// parent and parts; a completion is from the assistant and finished exactly
/// when it stopped at the end of its turn; a user message is finished.
pub proof fn law_unsplit_entry_keeps_its_ids(e: ChatMessageEntry)
    requires
        e.entry is Message || all_text(entry_parts(e)),
    ensures
        update_messages(e).len() == 1,
        update_messages(e)[0].id == e.id@,
        update_messages(e)[0].parent_id == opt_view(e.parent_id),
        update_messages(e)[0].content == entry_parts(e),
        e.entry matches MessageEntryVariant::Message(_) ==> update_messages(e)[0].finished == Some(true),
        e.entry matches MessageEntryVariant::Completion(c) ==> update_messages(e)[0].role == "assistant"@
            && update_messages(e)[0].finished == Some(c.stop_reason@ == "EndTurn"@),
{
    if !(e.entry is Message) {
        let parts = entry_parts(e);
        assert(!has_tool_parts(parts)) by {
            if has_tool_parts(parts) {
                let i = choose|i: int| 0 <= i < parts.len() && !(#[trigger] parts[i] is Text);
                assert(parts[i] is Text);
            }
        }
    }
}

// ---------------------------------------------------------------------------
// Tool calls and results read for display
// ---------------------------------------------------------------------------
/// The tool-result parts among `c`, in order.
pub open spec fn result_parts(c: Seq<ContentView>) -> Seq<ContentView>
    decreases c.len(),
{
    if c.len() == 0 {
        Seq::empty()
    } else if c.last() is ToolResult {
        result_parts(c.drop_last()).push(c.last())
    } else {
        result_parts(c.drop_last())
    }
}

/// The tool-call parts among `c`, in order.
pub open spec fn use_parts(c: Seq<ContentView>) -> Seq<ContentView>
    decreases c.len(),
{
    if c.len() == 0 {
        Seq::empty()
    } else if c.last() is ToolUse {
        use_parts(c.drop_last()).push(c.last())
    } else {
        use_parts(c.drop_last())
    }
}

/// Reading the parts of a message for display gives one rich tool result per
/// tool-result part, in order, carrying that part's call id and error flag
/// unchanged and no execution time; and one rich tool call per tool-call
/// part, in order, carrying that part's id and name, pending.
pub proof fn law_rich_tools_carry_their_parts(c: Seq<ContentView>)
    ensures
        rich_tool_results(c).len() == result_parts(c).len(),
        forall|k: int|
            0 <= k < result_parts(c).len() ==> {
                &&& (#[trigger] rich_tool_results(c)[k]).tool_use_id == result_parts(c)[k]->ToolResult_tool_use_id
                &&& rich_tool_results(c)[k].is_error == result_parts(c)[k]->ToolResult_is_error
                &&& rich_tool_results(c)[k].execution_time_ms is None
                &&& rich_tool_results(c)[k].content == match json_data_parse(
                    result_parts(c)[k]->ToolResult_content,
                ) {
                    Ok(doc) => doc,
                    Err(e) => JsonView::Str("Error parsing result: "@ + e),
                }
            },
        rich_tool_uses(c).len() == use_parts(c).len(),
        forall|k: int|
            0 <= k < use_parts(c).len() ==> {
                &&& (#[trigger] rich_tool_uses(c)[k]).id == use_parts(c)[k]->ToolUse_id
                &&& rich_tool_uses(c)[k].name == use_parts(c)[k]->ToolUse_name
                &&& rich_tool_uses(c)[k].status == ToolStatus::Pending
                &&& rich_tool_uses(c)[k].input == match json_data_parse(use_parts(c)[k]->ToolUse_input) {
                    Ok(doc) => doc,
                    Err(_) => JsonView::Object(Seq::empty()),
                }
            },
    decreases c.len(),
{
    if c.len() > 0 {
        let rest = c.drop_last();
        law_rich_tools_carry_their_parts(rest);
        assert forall|k: int| 0 <= k < result_parts(rest).len() implies #[trigger] rich_tool_results(c)[k]
            == rich_tool_results(rest)[k] && result_parts(c)[k] == result_parts(rest)[k] by {}
        assert forall|k: int| 0 <= k < use_parts(rest).len() implies #[trigger] rich_tool_uses(c)[k]
            == rich_tool_uses(rest)[k] && use_parts(c)[k] == use_parts(rest)[k] by {}
    }
}

// ---------------------------------------------------------------------------
// Previews of tool results
// ---------------------------------------------------------------------------
/// `s` is the text that the preview of `v` shows: `v` itself when it is a
/// string; for an object, its "text" member when that is a string, else its
/// "content" member when that is a string.
pub open spec fn previews_text(v: JsonView, s: Seq<char>) -> bool {
    ||| v == JsonView::Str(s)
    ||| v is Object && json_get(v, "text"@) == Some(JsonView::Str(s))
    ||| v is Object && !(json_get(v, "text"@) matches Some(JsonView::Str(_))) && json_get(v, "content"@)
        == Some(JsonView::Str(s))
}

/// The preview of a string, or of an object's "text" or "content" string,
/// is the text itself when it is at most 100 bytes long; a longer text is cut
/// to a preview of exactly 100 bytes: its first 97 bytes and then "...".
pub proof fn law_tool_result_preview_cuts_long_text(v: JsonView, s: Seq<char>)
    requires
        previews_text(v, s),
        clip_defined(s),
    ensures
        encode_utf8(s).len() <= 100 ==> tool_result_preview(v) == s,
        encode_utf8(s).len() > 100 ==> {
            &&& encode_utf8(tool_result_preview(v)).len() == 100
            &&& encode_utf8(tool_result_preview(v)).subrange(0, 97) == encode_utf8(s).subrange(0, 97)
            &&& tool_result_preview(v) == decode_utf8(encode_utf8(s).subrange(0, 97)) + "..."@
        },
{
    let p = tool_result_preview(v);
    assert(p == clip(s));
    law_preview_fits_in_100_bytes(s);
    let b = encode_utf8(s);
    if b.len() > 100 {
        encode_utf8_valid_utf8(s);
        valid_utf8_split(b, 97);
        let head = b.subrange(0, 97);
        decode_utf8_encode_utf8(head);
        lemma_encode_concat(decode_utf8(head), "..."@);
        assert(encode_utf8(p).subrange(0, 97) =~= head);
    }
}

/// Each part of a message is one line of its display text: a text is
/// itself; a tool call reads "🔧 **Tool Call**: " and its name; a tool result
/// reads "❌" (failed) or "✅", " **Tool Result**: ", and the preview of its
/// content read as JSON (or of the reason it could not be read).
pub proof fn law_display_line_of_each_part(p: ContentView)
    ensures
        display_text_of(seq![p]) == match p {
            ContentView::Text(t) => t,
            ContentView::ToolUse { name, .. } => "\u{1f527} **Tool Call**: "@ + name,
            ContentView::ToolResult { content, is_error, .. } => (if is_error {
                "\u{274c}"@
            } else {
                "\u{2705}"@
            }) + " **Tool Result**: "@ + tool_result_preview(
                match json_data_parse(content) {
                    Ok(doc) => doc,
                    Err(e) => JsonView::Str("Error parsing result: "@ + e),
                },
            ),
        },
{
    assert(content_lines(seq![p]) =~= seq![content_line(p)]);
}

/// The preview of a value that shows no text: an array or an object gives
/// its size, a number its JSON text, a boolean and null their names.
pub proof fn law_tool_result_preview_of_other_values(v: JsonView)
    ensures
        v matches JsonView::Array(items) ==> tool_result_preview(v) == "Array with "@ + decimal(items.len())
            + " items"@,
        v matches JsonView::Object(fields) ==> (!(json_get(v, "text"@) matches Some(JsonView::Str(_)))
            && !(json_get(v, "content"@) matches Some(JsonView::Str(_))) ==> tool_result_preview(v)
            == "Object with "@ + decimal(fields.len()) + " fields"@),
        v matches JsonView::Number(n) ==> tool_result_preview(v) == n,
        v == JsonView::Bool(true) ==> tool_result_preview(v) == "true"@,
        v == JsonView::Bool(false) ==> tool_result_preview(v) == "false"@,
        v == JsonView::Null ==> tool_result_preview(v) == "null"@,
{
}

/// A completion with tool parts pushed on the channel is shown as the split
/// of its parts, under the entry's id and parent, from the assistant, and
/// finished (at its end) exactly when it stopped at the end of its turn.
pub proof fn law_split_entry_is_its_split_turn(e: ChatMessageEntry)
    ensures
        e.entry matches MessageEntryVariant::Completion(c) ==> (!all_text(entry_parts(e)) ==> update_messages(e)
            == separated_messages(
            e.id@,
            opt_view(e.parent_id),
            "assistant"@,
            entry_parts(e),
            0,
            Some(c.stop_reason@ == "EndTurn"@),
        )),
{
    if e.entry is Completion && !all_text(entry_parts(e)) {
        let parts = entry_parts(e);
        let i = choose|i: int| 0 <= i < parts.len() && !(#[trigger] parts[i] is Text);
        assert(has_tool_parts(parts));
    }
}

/// The user-message data of a history entry whose body is a user message.
pub open spec fn user_message_data(v: JsonView) -> Option<JsonView> {
    match json_get(v, "entry"@) {
        Some(JsonView::Object(f)) => json_get(JsonView::Object(f), "Message"@),
        _ => None,
    }
}

/// A user-message entry of the history (with a role and a content array)
/// becomes a finished message with the entry's id (or "msg_" and its place),
/// the entry's parent, and the role in lower case. Its message comes after
/// the messages of the entries before it.
pub proof fn law_history_user_message(entries: Seq<JsonView>, i: int)
    requires
        0 <= i < entries.len(),
        user_message_data(entries[i]) is Some,
        json_get_str(user_message_data(entries[i])->0, "role"@) is Some,
        json_get_array(user_message_data(entries[i])->0, "content"@) is Some,
    ensures
        ({
            let k = history_messages(entries.take(i)).len() as int;
            let m = history_messages(entries)[k];
            &&& k < history_messages(entries).len()
            &&& m.id == (match json_get_str(entries[i], "id"@) {
                Some(x) => x,
                None => "msg_"@ + decimal(i as nat),
            })
            &&& m.parent_id == json_get_str(entries[i], "parent_id"@)
            &&& m.role == lowercase(json_get_str(user_message_data(entries[i])->0, "role"@)->0)
            &&& m.finished == Some(true)
        }),
{
    let upto = entries.take(i + 1);
    assert(upto.drop_last() =~= entries.take(i));
    assert(upto.last() == entries[i]);
    lemma_history_prefix(entries, i + 1);
    let k = history_messages(entries.take(i)).len() as int;
    assert(history_messages(upto)[k] == history_messages(entries)[k]);
}

} // verus!
