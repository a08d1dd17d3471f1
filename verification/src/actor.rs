//! The decisions of the chat front end: what each event does to the state
//! and which messages go out. The host runs them in order and performs the
//! I/O in between.
use crate::content::{
    contents_view, parts_are_displayable, parts_displayable, ContentView, MessageContent,
};
use crate::external::{encode_json, json_encode, lowercase, text_eq, to_lowercase, utf8_text};
use crate::history::{
    convert_chat_state_messages_to_client, history_displayable, history_is_displayable, history_messages,
};
use crate::json::{fields_view, items_view, lemma_fields_view, JsonValue, JsonView};
use crate::message::{
    create_enhanced_chat_message, create_separated_tool_messages, enhanced_message, messages_view,
    opt_view, separated_messages, ChatMessage, ChatMessageView,
};
use crate::protocol::{
    ChannelAccept, ChannelMessage, ChatMessageEntry, ChatProxyRequest, ChatProxyResponse, ClientRequest, Message, MessageEntryVariant,
    MessageRole, MessageType, ProxyOutcome, ServerResponse, ServerResponseView, WebsocketMessage,
    responses_view,
};
use crate::state::{connection_ids, ConnectionInfo, FrontChatState};
use crate::text::owned;
use vstd::prelude::*;
use vstd::utf8::{decode_utf8, valid_utf8};

verus! {

broadcast use vstd::std_specs::hash::group_hash_axioms;

/// Messages to send to connections: every response goes to every listed
/// connection, response by response.
#[derive(Debug)]
pub struct Delivery {
    pub connection_ids: Vec<u64>,
    pub responses: Vec<ServerResponse>,
}

/// `ids` lists every open connection of `state` once.
pub open spec fn lists_connections(ids: Seq<u64>, state: &FrontChatState) -> bool {
    &&& ids.no_duplicates()
    &&& ids.to_set() == state.connections().dom()
}

/// What goes to the connections when a response is broadcast: nothing when
/// none is open, else the response once (the host fans it out).
pub fn broadcast_to_connections(state: &FrontChatState, response: ServerResponse) -> (r: Vec<
    ServerResponse,
>)
    ensures
        state.connections().is_empty() ==> r@.len() == 0,
        !state.connections().is_empty() ==> r@.len() == 1 && r@[0]@ == response@,
{
    if state.active_connections.is_empty() {
        return Vec::new();
    }
    let mut out = Vec::new();
    out.push(response);
    out
}

/// What the broadcast of `response` gives, as a model.
pub open spec fn broadcast_view(state: &FrontChatState, response: ServerResponseView) -> Seq<
    ServerResponseView,
> {
    if state.connections().is_empty() {
        Seq::empty()
    } else {
        seq![response]
    }
}

// ---------------------------------------------------------------------------
// WebSocket connections
// ---------------------------------------------------------------------------
/// What a new connection needs: its welcome, and the chat-state service to
/// ask for the history, if there is one.
#[derive(Debug)]
pub struct ConnectPlan {
    pub welcome: ServerResponse,
    pub history_from: Option<String>,
}

/// The open connections after `id` connects: it is recorded, at time 0.
pub open spec fn registered(m: Map<u64, ConnectionInfo>, id: u64) -> Map<u64, ConnectionInfo> {
    m.insert(id, ConnectionInfo { connected_at: 0 })
}

/// The open connections after `id` disconnects.
pub open spec fn unregistered(m: Map<u64, ConnectionInfo>, id: u64) -> Map<u64, ConnectionInfo> {
    m.remove(id)
}

/// A browser connects: it is registered, greeted with the conversation id,
/// and its history is to be loaded from the chat-state service.
pub fn handle_websocket_connect(state: &mut FrontChatState, connection_id: u64) -> (r: ConnectPlan)
    ensures
        final(state).connections() == registered(old(state).connections(), connection_id),
        final(state).same_but_connections(old(state)),
        r.welcome@ == (ServerResponseView::Connected { conversation_id: old(state).conversation_id@ }),
        opt_view(r.history_from) == opt_view(old(state).chat_state_id),
{
    state.active_connections.insert(connection_id, ConnectionInfo { connected_at: 0 });
    let welcome = ServerResponse::Connected { conversation_id: state.conversation_id.clone() };
    let history_from = match &state.chat_state_id {
        Some(id) => Some(id.clone()),
        None => None,
    };
    ConnectPlan { welcome, history_from }
}

/// Whether a reply of the chat-state service, when it is a history, can be
/// displayed.
pub open spec fn outcome_displayable(outcome: ProxyOutcome) -> bool {
    outcome matches ProxyOutcome::Reply(ChatProxyResponse::History { messages }) ==> history_displayable(
        items_view(messages@),
    )
}

/// Whether a reply of the chat-state service can be displayed, computed.
fn outcome_is_displayable(outcome: &ProxyOutcome) -> (r: bool)
    ensures
        r == outcome_displayable(*outcome),
{
    match outcome {
        ProxyOutcome::Reply(ChatProxyResponse::History { messages }) => history_is_displayable(messages.as_slice()),
        _ => true,
    }
}

/// The history message for a new connection: the conversation, when the
/// chat-state service answered with its history; nothing otherwise.
pub fn history_for_connection(state: &FrontChatState, outcome: ProxyOutcome) -> (r: Option<
    ServerResponse,
>)
    requires
        outcome_displayable(outcome),
    ensures
        match outcome {
            ProxyOutcome::Reply(ChatProxyResponse::History { messages }) => r is Some && r->0@ == (
            ServerResponseView::ConversationState {
                messages: history_messages(items_view(messages@)),
                conversation_id: state.conversation_id@,
            }),
            _ => r is None,
        },
{
    match outcome {
        ProxyOutcome::Reply(ChatProxyResponse::History { messages }) => {
            match convert_chat_state_messages_to_client(messages.as_slice()) {
                Ok(client_messages) => Some(
                    ServerResponse::ConversationState {
                        messages: client_messages,
                        conversation_id: state.conversation_id.clone(),
                    },
                ),
                Err(_) => None,
            }
        },
        _ => None,
    }
}

/// A browser disconnects: it is no longer registered. Tells whether it was.
pub fn handle_websocket_disconnect(state: &mut FrontChatState, connection_id: u64) -> (was_connected:
    bool)
    ensures
        final(state).connections() == unregistered(old(state).connections(), connection_id),
        final(state).same_but_connections(old(state)),
        was_connected == old(state).connections().contains_key(connection_id),
{
    let removed = state.active_connections.remove(&connection_id);
    removed.is_some()
}

/// The text of a frame from the browser: only text frames that carry text
/// are read; every other frame is ignored.
pub fn incoming_text(message: &WebsocketMessage) -> (r: Option<String>)
    ensures
        match message.ty {
            MessageType::Text => opt_view(r) == opt_view(message.text),
            _ => r is None,
        },
{
    match message.ty {
        MessageType::Text => match &message.text {
            Some(t) => Some(t.clone()),
            None => None,
        },
        _ => None,
    }
}

/// The answer to a frame whose text is not a request: an error for the
/// browser that quotes the reason.
pub fn invalid_request_reply(state: &FrontChatState, parse_error: &str) -> (r: Vec<ServerResponse>)
    ensures
        responses_view(r@) == broadcast_view(
            state,
            ServerResponseView::Error { message: "Invalid request format: "@ + parse_error@ },
        ),
{
    let mut message = owned("Invalid request format: ");
    message.append(parse_error);
    let r = broadcast_to_connections(state, ServerResponse::Error { message });
    assert(responses_view(r@) =~= broadcast_view(
        state,
        ServerResponseView::Error { message: "Invalid request format: "@ + parse_error@ },
    ));
    r
}

// ---------------------------------------------------------------------------
// Requests from the browser
// ---------------------------------------------------------------------------
/// What a browser request needs next.
#[derive(Debug)]
pub enum ClientPlan {
    /// A message to post: it needs an id first (see `send_message_plan`).
    SendMessage { content: String },
    /// The history to fetch from the chat-state service (see `conversation_reply`).
    FetchHistory { chat_state_id: String, request: ChatProxyRequest },
    /// A request to pass on to the chat-state service; the browser gets no answer.
    Forward { chat_state_id: String, request: ChatProxyRequest },
    /// Messages for the browser, and nothing more to do.
    Reply(Vec<ServerResponse>),
}

/// `r` is how a browser request starts: a message to post waits for its id;
/// a history request goes to the chat-state service, or, without one, is
/// answered with an empty conversation; a settings update goes to the
/// chat-state service, or, without one, is answered with an error.
pub open spec fn plans_request(state: &FrontChatState, request: ClientRequest, r: ClientPlan) -> bool {
    match request {
        ClientRequest::SendMessage { content } => r matches ClientPlan::SendMessage { content: c }
            && c@ == content@,
        ClientRequest::GetConversation => match state.chat_state_id {
            Some(id) => r matches ClientPlan::FetchHistory { chat_state_id, request }
                && chat_state_id@ == id@ && request is GetHistory,
            None => r matches ClientPlan::Reply(out) && responses_view(out@) == broadcast_view(
                state,
                ServerResponseView::ConversationState {
                    messages: Seq::empty(),
                    conversation_id: state.conversation_id@,
                },
            ),
        },
        ClientRequest::UpdateSettings { settings } => match state.chat_state_id {
            Some(id) => r matches ClientPlan::Forward { chat_state_id, request } && (
            chat_state_id@ == id@ && (request matches ChatProxyRequest::UpdateSettings { settings: s }
                && s == settings)),
            None => r matches ClientPlan::Reply(out) && responses_view(out@) == broadcast_view(
                state,
                ServerResponseView::Error { message: "Settings update not implemented yet"@ },
            ),
        },
    }
}

/// Starts handling a browser request.
pub fn handle_client_request(state: &FrontChatState, request: ClientRequest) -> (r: ClientPlan)
    ensures
        plans_request(state, request, r),
{
    match request {
        ClientRequest::SendMessage { content } => ClientPlan::SendMessage { content },
        ClientRequest::GetConversation => match &state.chat_state_id {
            Some(id) => ClientPlan::FetchHistory {
                chat_state_id: id.clone(),
                request: ChatProxyRequest::GetHistory,
            },
            None => {
                let empty: Vec<ChatMessage> = Vec::new();
                let response = ServerResponse::ConversationState {
                    messages: empty,
                    conversation_id: state.conversation_id.clone(),
                };
                assert(response@ == ServerResponseView::ConversationState {
                    messages: Seq::empty(),
                    conversation_id: state.conversation_id@,
                }) by {
                    assert(messages_view(empty@) =~= Seq::<ChatMessageView>::empty());
                }
                let out = broadcast_to_connections(state, response);
                assert(responses_view(out@) =~= broadcast_view(state, response@));
                ClientPlan::Reply(out)
            },
        },
        ClientRequest::UpdateSettings { settings } => match &state.chat_state_id {
            Some(id) => ClientPlan::Forward {
                chat_state_id: id.clone(),
                request: ChatProxyRequest::UpdateSettings { settings },
            },
            None => {
                let response = ServerResponse::Error {
                    message: owned("Settings update not implemented yet"),
                };
                let out = broadcast_to_connections(state, response);
                assert(responses_view(out@) =~= broadcast_view(state, response@));
                ClientPlan::Reply(out)
            },
        },
    }
}

/// Handles a frame from the browser, given what its text was read as:
/// nothing to do for a frame without text, an error for a text that is no
/// request, and the request's plan otherwise.
pub fn handle_websocket_message(state: &FrontChatState, request: Option<Result<ClientRequest, String>>) -> (r:
    ClientPlan)
    ensures
        match request {
            None => r matches ClientPlan::Reply(out) && out@.len() == 0,
            Some(Err(e)) => r matches ClientPlan::Reply(out) && responses_view(out@) == broadcast_view(
                state,
                ServerResponseView::Error { message: "Invalid request format: "@ + e@ },
            ),
            Some(Ok(q)) => plans_request(state, q, r),
        },
{
    match request {
        None => ClientPlan::Reply(Vec::new()),
        Some(Err(e)) => ClientPlan::Reply(invalid_request_reply(state, e.as_str())),
        Some(Ok(q)) => handle_client_request(state, q),
    }
}

/// A message that a user posts, as the browser shows it.
pub open spec fn user_message_view(id: Seq<char>, content: Seq<char>) -> ChatMessageView {
    enhanced_message(id, None, "user"@, seq![ContentView::Text(content)], 0, Some(true))
}

/// The stand-in answer when no chat-state service is there.
pub open spec fn fallback_message_view(id: Seq<char>) -> ChatMessageView {
    enhanced_message(
        id,
        None,
        "assistant"@,
        seq![ContentView::Text("Chat-state-proxy actor not available. Please try again."@)],
        0,
        Some(true),
    )
}

/// What posting a message does, once it has an id: the browser sees it at
/// once; the requests in `forward` go, in order, to the chat-state service,
/// or a stand-in answer follows.
#[derive(Debug)]
pub struct SendPlan {
    pub responses: Vec<ServerResponse>,
    pub forward: Vec<(String, ChatProxyRequest)>,
    pub needs_fallback: bool,
}

/// A one-part text message for the chat-state service.
pub open spec fn is_user_text(m: Message, content: Seq<char>) -> bool {
    &&& m.role == MessageRole::User
    &&& contents_view(m.content@) == seq![ContentView::Text(content)]
}

/// `forward` sends the text `content` as a user message to `target`, then
/// asks `target` for a completion.
pub open spec fn forwards_text(forward: Seq<(String, ChatProxyRequest)>, target: Seq<char>, content: Seq<char>) -> bool {
    &&& forward.len() == 2
    &&& forward[0].0@ == target
    &&& forward[0].1 matches ChatProxyRequest::AddMessage { message } && is_user_text(message, content)
    &&& forward[1].0@ == target
    &&& forward[1].1 is GenerateCompletion
}

/// Posts a message, given the outcome of making its id.
pub fn send_message_plan(state: &FrontChatState, content: String, user_message_id: Result<String, String>) -> (r:
    Result<SendPlan, String>)
    ensures
        match user_message_id {
            Err(e) => r matches Err(m) && m@ == "Failed to generate message ID: "@ + e@,
            Ok(id) => r matches Ok(plan) && {
                &&& responses_view(plan.responses@) == broadcast_view(
                    state,
                    ServerResponseView::MessageAdded { message: user_message_view(id@, content@) },
                )
                &&& plan.needs_fallback == (state.chat_state_id is None)
                &&& match state.chat_state_id {
                    Some(target) => forwards_text(plan.forward@, target@, content@),
                    None => plan.forward@.len() == 0,
                }
            },
        },
{
    let id = match user_message_id {
        Ok(id) => id,
        Err(e) => {
            let mut m = owned("Failed to generate message ID: ");
            m.append(e.as_str());
            return Err(m);
        },
    };
    let for_display = vec![MessageContent::Text(content.clone())];
    assert(contents_view(for_display@) =~= seq![ContentView::Text(content@)]);
    let user_message = create_enhanced_chat_message(
        id,
        None,
        owned("user"),
        for_display,
        0,
        Some(true),
    );
    let response = ServerResponse::MessageAdded { message: user_message };
    let responses = broadcast_to_connections(state, response);
    assert(responses_view(responses@) =~= broadcast_view(state, response@));
    match &state.chat_state_id {
        Some(target) => {
            let for_service = vec![MessageContent::Text(content)];
            let message = Message { role: MessageRole::User, content: for_service };
            assert(contents_view(message.content@) =~= seq![ContentView::Text(content@)]);
            let forward = vec![
                (target.clone(), ChatProxyRequest::AddMessage { message }),
                (target.clone(), ChatProxyRequest::GenerateCompletion),
            ];
            Ok(SendPlan { responses, forward, needs_fallback: false })
        },
        None => Ok(SendPlan { responses, forward: Vec::new(), needs_fallback: true }),
    }
}

/// The stand-in answer when no chat-state service is there, given the
/// outcome of making its id.
pub fn fallback_reply(state: &FrontChatState, fallback_id: Result<String, String>) -> (r: Result<
    Vec<ServerResponse>,
    String,
>)
    ensures
        match fallback_id {
            Err(e) => r matches Err(m) && m@ == "Failed to generate message ID: "@ + e@,
            Ok(id) => r matches Ok(out) && responses_view(out@) == broadcast_view(
                state,
                ServerResponseView::MessageAdded { message: fallback_message_view(id@) },
            ),
        },
{
    let id = match fallback_id {
        Ok(id) => id,
        Err(e) => {
            let mut m = owned("Failed to generate message ID: ");
            m.append(e.as_str());
            return Err(m);
        },
    };
    let content = vec![
        MessageContent::Text(owned("Chat-state-proxy actor not available. Please try again.")),
    ];
    assert(contents_view(content@) =~= seq![
        ContentView::Text("Chat-state-proxy actor not available. Please try again."@),
    ]);
    let message = create_enhanced_chat_message(id, None, owned("assistant"), content, 0, Some(true));
    let response = ServerResponse::MessageAdded { message };
    let out = broadcast_to_connections(state, response);
    assert(responses_view(out@) =~= broadcast_view(state, response@));
    Ok(out)
}

/// What the browser gets for a history request, by what the chat-state
/// service answered.
pub open spec fn conversation_reply_view(state: &FrontChatState, outcome: ProxyOutcome) -> Seq<
    ServerResponseView,
> {
    let response = match outcome {
        ProxyOutcome::Reply(ChatProxyResponse::History { messages }) =>
            ServerResponseView::ConversationState {
            messages: history_messages(items_view(messages@)),
            conversation_id: state.conversation_id@,
        },
        ProxyOutcome::Reply(_) => ServerResponseView::Error {
            message: "Failed to get conversation history"@,
        },
        ProxyOutcome::Unreadable => ServerResponseView::Error {
            message: "Failed to parse conversation history"@,
        },
        ProxyOutcome::NotText => ServerResponseView::Error {
            message: "Failed to decode conversation history"@,
        },
        ProxyOutcome::RequestFailed => ServerResponseView::Error {
            message: "Failed to request conversation history"@,
        },
    };
    broadcast_view(state, response)
}

/// Answers a history request once the chat-state service has replied.
pub fn conversation_reply(state: &FrontChatState, outcome: ProxyOutcome) -> (r: Vec<ServerResponse>)
    requires
        outcome_displayable(outcome),
    ensures
        responses_view(r@) == conversation_reply_view(state, outcome),
{
    let ghost before = outcome;
    let response = match outcome {
        ProxyOutcome::Reply(ChatProxyResponse::History { messages }) => {
            let client_messages = match convert_chat_state_messages_to_client(messages.as_slice()) {
                Ok(m) => m,
                Err(_) => Vec::new(),
            };
            ServerResponse::ConversationState {
                messages: client_messages,
                conversation_id: state.conversation_id.clone(),
            }
        },
        ProxyOutcome::Reply(_) => ServerResponse::Error {
            message: owned("Failed to get conversation history"),
        },
        ProxyOutcome::Unreadable => ServerResponse::Error {
            message: owned("Failed to parse conversation history"),
        },
        ProxyOutcome::NotText => ServerResponse::Error {
            message: owned("Failed to decode conversation history"),
        },
        ProxyOutcome::RequestFailed => ServerResponse::Error {
            message: owned("Failed to request conversation history"),
        },
    };
    let out = broadcast_to_connections(state, response);
    assert(responses_view(out@) =~= conversation_reply_view(state, before));
    out
}

/// The history message for a new connection, once the reply is known to be
/// displayable; `None` when the history holds a tool-result preview that
/// would be cut inside a character.
pub fn checked_history_for_connection(state: &FrontChatState, outcome: ProxyOutcome) -> (r: Option<
    Option<ServerResponse>,
>)
    ensures
        r is Some <==> outcome_displayable(outcome),
        r matches Some(h) ==> match outcome {
            ProxyOutcome::Reply(ChatProxyResponse::History { messages }) => h is Some && h->0@ == (
            ServerResponseView::ConversationState {
                messages: history_messages(items_view(messages@)),
                conversation_id: state.conversation_id@,
            }),
            _ => h is None,
        },
{
    if outcome_is_displayable(&outcome) {
        Some(history_for_connection(state, outcome))
    } else {
        None
    }
}

/// The answer to a history request, once the reply is known to be
/// displayable; `None` when the history holds a tool-result preview that
/// would be cut inside a character.
pub fn checked_conversation_reply(state: &FrontChatState, outcome: ProxyOutcome) -> (r: Option<
    Vec<ServerResponse>,
>)
    ensures
        r is Some <==> outcome_displayable(outcome),
        r matches Some(out) ==> responses_view(out@) == conversation_reply_view(state, outcome),
{
    if outcome_is_displayable(&outcome) {
        Some(conversation_reply(state, outcome))
    } else {
        None
    }
}

/// The text of a reply from another actor, when it is UTF-8.
pub fn reply_text(bytes: &[u8]) -> (r: Option<String>)
    ensures
        r is Some <==> valid_utf8(bytes@),
        r matches Some(t) ==> t@ == decode_utf8(bytes@),
{
    match utf8_text(bytes) {
        Ok(t) => Some(t),
        Err(_) => None,
    }
}

// ---------------------------------------------------------------------------
// Channels and notices from the chat-state service
// ---------------------------------------------------------------------------
/// The document that confirms an accepted channel.
pub open spec fn channel_accepted_doc() -> JsonView {
    JsonView::Object(
        seq![
            ("type"@, JsonView::Str("channel_accepted"@)),
            ("message"@, JsonView::Str("Channel established for real-time updates"@)),
        ],
    )
}

/// The JSON bytes of a document, or nothing when it cannot be written.
pub open spec fn encoded_or_empty(doc: JsonView) -> Seq<u8> {
    match json_encode(doc) {
        Ok(x) => x,
        Err(_) => Seq::empty(),
    }
}

/// A channel is accepted only from the actor's own chat-state service.
pub open spec fn accepts_channel(state: &FrontChatState, from_actor_id: Seq<char>) -> bool {
    state.chat_state_id matches Some(id) && id@ == from_actor_id
}

/// Answers another actor that opens a channel: accepted, with a
/// confirmation, when it is the chat-state service; refused otherwise.
pub fn handle_channel_open(state: &FrontChatState, from_actor_id: &str) -> (r: ChannelAccept)
    ensures
        r.accepted == accepts_channel(state, from_actor_id@),
        r.accepted ==> (r.message matches Some(b) && b@ == encoded_or_empty(channel_accepted_doc())),
        !r.accepted ==> r.message is None,
{
    let should_accept = match &state.chat_state_id {
        Some(chat_state_id) => text_eq(from_actor_id, chat_state_id.as_str()),
        None => false,
    };
    if should_accept {
        let fields = vec![
            (owned("type"), JsonValue::Str(owned("channel_accepted"))),
            (owned("message"), JsonValue::Str(owned("Channel established for real-time updates"))),
        ];
        proof {
            lemma_fields_view(fields@);
            assert(fields_view(fields@) =~= seq![
                ("type"@, JsonView::Str("channel_accepted"@)),
                ("message"@, JsonView::Str("Channel established for real-time updates"@)),
            ]);
        }
        let doc = JsonValue::Object(fields);
        let bytes = match encode_json(&doc) {
            Ok(b) => b,
            Err(_) => Vec::new(),
        };
        ChannelAccept { accepted: true, message: Some(bytes) }
    } else {
        ChannelAccept { accepted: false, message: None }
    }
}

/// Whether some part is a tool call or a tool result.
pub open spec fn has_tool_parts(c: Seq<ContentView>) -> bool {
    exists|i: int| 0 <= i < c.len() && !(#[trigger] c[i] is Text)
}

/// The parts of a stored conversation entry.
pub open spec fn entry_parts(e: ChatMessageEntry) -> Seq<ContentView> {
    match e.entry {
        MessageEntryVariant::Message(u) => contents_view(u.content@),
        MessageEntryVariant::Completion(c) => contents_view(c.content@),
    }
}

/// The messages that a new conversation entry is shown as: a completion with
/// tool parts is split into one message per step; anything else is one message.
pub open spec fn update_messages(e: ChatMessageEntry) -> Seq<ChatMessageView> {
    match e.entry {
        MessageEntryVariant::Completion(c) => {
            let parts = contents_view(c.content@);
            let finished = Some(c.stop_reason@ == "EndTurn"@);
            if has_tool_parts(parts) {
                separated_messages(e.id@, opt_view(e.parent_id), "assistant"@, parts, 0, finished)
            } else {
                seq![enhanced_message(e.id@, opt_view(e.parent_id), "assistant"@, parts, 0, finished)]
            }
        },
        MessageEntryVariant::Message(u) => seq![
            enhanced_message(
                e.id@,
                opt_view(e.parent_id),
                lowercase(u.role@),
                contents_view(u.content@),
                0,
                Some(true),
            ),
        ],
    }
}

/// Each message, as an announcement that it was added.
pub open spec fn added(msgs: Seq<ChatMessageView>) -> Seq<ServerResponseView> {
    msgs.map_values(|m: ChatMessageView| ServerResponseView::MessageAdded { message: m })
}

/// Whether some part is a tool call or a tool result, computed.
fn any_tool_parts(content: &Vec<MessageContent>) -> (r: bool)
    ensures
        r == has_tool_parts(contents_view(content@)),
{
    let ghost c = contents_view(content@);
    let mut i: usize = 0;
    while i < content.len()
        invariant
            i <= content.len(),
            c == contents_view(content@),
            c.len() == content@.len(),
            forall|j: int| 0 <= j < i ==> #[trigger] c[j] is Text,
        decreases content.len() - i,
    {
        match &content[i] {
            MessageContent::Text(_) => {},
            _ => {
                assert(!(c[i as int] is Text));
                return true;
            },
        }
        i = i + 1;
    }
    false
}

/// Announces each message as added, in order.
fn announce(messages: Vec<ChatMessage>) -> (r: Vec<ServerResponse>)
    ensures
        responses_view(r@) == added(messages_view(messages@)),
{
    let ghost all = messages_view(messages@);
    let mut rest = messages;
    let mut out: Vec<ServerResponse> = Vec::new();
    // Taken from the back, so that each message moves without a copy.
    while rest.len() > 0
        invariant
            rest@.len() <= all.len(),
            messages_view(rest@) == all.take(rest@.len() as int),
            responses_view(out@) == added(all.skip(rest@.len() as int)),
        decreases rest.len(),
    {
        let ghost before = rest@;
        let m = rest.pop().unwrap();
        proof {
            assert(before == rest@.push(m));
            assert(messages_view(rest@) =~= all.take(rest@.len() as int));
            assert(messages_view(before)[rest@.len() as int] == before[rest@.len() as int]@);
            assert(all.take(rest@.len() as int + 1)[rest@.len() as int] == all[rest@.len() as int]);
            assert(m@ == all[rest@.len() as int]);
        }
        let ghost old_out = out@;
        let ghost k = rest@.len() as int;
        let announcement = ServerResponse::MessageAdded { message: m };
        out.insert(0, announcement);
        proof {
            assert(out@ == old_out.insert(0, announcement));
            assert(responses_view(out@) =~= seq![announcement@] + responses_view(old_out));
            assert(all.skip(k) =~= seq![all[k]] + all.skip(k + 1));
            assert(added(all.skip(k)) =~= seq![ServerResponseView::MessageAdded { message: all[k] }]
                + added(all.skip(k + 1)));
        }
        assert(responses_view(out@) =~= added(all.skip(rest@.len() as int)));
    }
    assert(all.skip(0) =~= all);
    out
}

/// Shows a new conversation entry from the channel of the chat-state
/// service: its messages are announced to every open connection.
pub fn handle_chat_message_update(state: &FrontChatState, chat_message: ChatMessageEntry) -> (r: Delivery)
    requires
        parts_displayable(entry_parts(chat_message)),
    ensures
        lists_connections(r.connection_ids@, state),
        responses_view(r.responses@) == added(update_messages(chat_message)),
{
    let ChatMessageEntry { id, parent_id, entry } = chat_message;
    let messages: Vec<ChatMessage> = match entry {
        MessageEntryVariant::Completion(completion) => {
            let finished = Some(text_eq(completion.stop_reason.as_str(), "EndTurn"));
            if any_tool_parts(&completion.content) {
                create_separated_tool_messages(
                    id,
                    parent_id,
                    owned("assistant"),
                    completion.content,
                    0,
                    finished,
                )
            } else {
                let m = create_enhanced_chat_message(
                    id,
                    parent_id,
                    owned("assistant"),
                    completion.content,
                    0,
                    finished,
                );
                vec![m]
            }
        },
        MessageEntryVariant::Message(user_msg) => {
            let m = create_enhanced_chat_message(
                id,
                parent_id,
                to_lowercase(user_msg.role.as_str()),
                user_msg.content,
                0,
                Some(true),
            );
            vec![m]
        },
    };
    assert(messages_view(messages@) =~= update_messages(chat_message));
    let responses = announce(messages);
    Delivery { connection_ids: connection_ids(state), responses }
}

/// The entry's parts, as a slice.
fn entry_parts_of(entry: &ChatMessageEntry) -> (r: &Vec<MessageContent>)
    ensures
        contents_view(r@) == entry_parts(*entry),
{
    match &entry.entry {
        MessageEntryVariant::Message(u) => &u.content,
        MessageEntryVariant::Completion(c) => &c.content,
    }
}

/// Shows a new conversation entry when every part of it can be displayed;
/// gives nothing for an entry with a tool result whose preview would be cut
/// inside a character.
pub fn channel_message_update(state: &FrontChatState, chat_message: ChatMessageEntry) -> (r: Option<
    Delivery,
>)
    ensures
        r is Some <==> parts_displayable(entry_parts(chat_message)),
        r matches Some(d) ==> (lists_connections(d.connection_ids@, state) && responses_view(
            d.responses@,
        ) == added(update_messages(chat_message))),
{
    if parts_are_displayable(entry_parts_of(&chat_message).as_slice()) {
        Some(handle_chat_message_update(state, chat_message))
    } else {
        None
    }
}

/// What a notice on the conversation channel sends to the browsers: nothing
/// for a new head; for a new entry, its messages, when every part of it can
/// be displayed (and no delivery at all otherwise).
pub fn handle_channel_message(state: &FrontChatState, notice: ChannelMessage) -> (r: Option<Delivery>)
    ensures
        match notice {
            ChannelMessage::Head { .. } => r matches Some(d) && d.responses@.len() == 0,
            ChannelMessage::ChatMessage { message } => {
                &&& r is Some <==> parts_displayable(entry_parts(message))
                &&& r matches Some(d) ==> (lists_connections(d.connection_ids@, state) && responses_view(
                    d.responses@,
                ) == added(update_messages(message)))
            },
        },
{
    match notice {
        ChannelMessage::Head { .. } => Some(Delivery { connection_ids: Vec::new(), responses: Vec::new() }),
        ChannelMessage::ChatMessage { message } => channel_message_update(state, message),
    }
}

/// What a notice from the chat-state service sends to the browser: an error
/// it reports is passed on to every open connection; nothing else is.
pub fn handle_chat_proxy_response(state: &FrontChatState, response: ChatProxyResponse) -> (r: Delivery)
    ensures
        lists_connections(r.connection_ids@, state),
        match response {
            ChatProxyResponse::Error { message } => responses_view(r.responses@) == seq![
                ServerResponseView::Error { message: "Chat error: "@ + message@ },
            ],
            _ => r.responses@.len() == 0,
        },
{
    let connection_ids = connection_ids(state);
    match response {
        ChatProxyResponse::Error { message } => {
            let mut text = owned("Chat error: ");
            text.append(message.as_str());
            let mut responses = Vec::new();
            responses.push(ServerResponse::Error { message: text });
            assert(responses_view(responses@) =~= seq![
                ServerResponseView::Error { message: "Chat error: "@ + message@ },
            ]);
            Delivery { connection_ids, responses }
        },
        _ => Delivery { connection_ids, responses: Vec::new() },
    }
}

} // verus!
