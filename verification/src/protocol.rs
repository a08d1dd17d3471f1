//! The messages exchanged with the browser and with the chat-state service.
use crate::content::{MessageContent, ToolStatus};
use crate::json::{JsonValue, JsonView};
use crate::message::{messages_view, ChatMessage, ChatMessageView};
use vstd::prelude::*;

verus! {

/// The conversation settings that a browser may send. The temperature is
/// carried as the decimal text of the number, as it is passed on untouched.
#[derive(Debug)]
pub struct ClientSettings {
    pub temperature: Option<String>,
    pub max_tokens: Option<u32>,
    pub model: Option<String>,
}

/// A request from the browser.
#[derive(Debug)]
pub enum ClientRequest {
    SendMessage { content: String },
    GetConversation,
    UpdateSettings { settings: ClientSettings },
}

/// A message to the browser.
#[derive(Debug)]
pub enum ServerResponse {
    MessageAdded { message: ChatMessage },
    MessageUpdate { message: ChatMessage },
    ConversationState { messages: Vec<ChatMessage>, conversation_id: String },
    ToolExecutionUpdate {
        tool_use_id: String,
        status: ToolStatus,
        partial_result: Option<JsonValue>,
    },
    Error { message: String },
    Connected { conversation_id: String },
}

/// The model of a message to the browser.
pub enum ServerResponseView {
    MessageAdded { message: ChatMessageView },
    MessageUpdate { message: ChatMessageView },
    ConversationState { messages: Seq<ChatMessageView>, conversation_id: Seq<char> },
    ToolExecutionUpdate {
        tool_use_id: Seq<char>,
        status: ToolStatus,
        partial_result: Option<JsonView>,
    },
    Error { message: Seq<char> },
    Connected { conversation_id: Seq<char> },
}

impl View for ServerResponse {
    type V = ServerResponseView;

    open spec fn view(&self) -> ServerResponseView {
        match self {
            ServerResponse::MessageAdded { message } => ServerResponseView::MessageAdded {
                message: message@,
            },
            ServerResponse::MessageUpdate { message } => ServerResponseView::MessageUpdate {
                message: message@,
            },
            ServerResponse::ConversationState { messages, conversation_id } =>
                ServerResponseView::ConversationState {
                messages: messages_view(messages@),
                conversation_id: conversation_id@,
            },
            ServerResponse::ToolExecutionUpdate { tool_use_id, status, partial_result } =>
                ServerResponseView::ToolExecutionUpdate {
                tool_use_id: tool_use_id@,
                status: *status,
                partial_result: match partial_result {
                    Some(v) => Some(v@),
                    None => None,
                },
            },
            ServerResponse::Error { message } => ServerResponseView::Error { message: message@ },
            ServerResponse::Connected { conversation_id } => ServerResponseView::Connected {
                conversation_id: conversation_id@,
            },
        }
    }
}

/// The models of a sequence of messages to the browser.
pub open spec fn responses_view(v: Seq<ServerResponse>) -> Seq<ServerResponseView> {
    v.map_values(|r: ServerResponse| r@)
}

/// Who speaks in a conversation message.
#[derive(Debug, Clone, Copy, PartialEq, Eq, Structural)]
pub enum MessageRole {
    System,
    User,
    Assistant,
}

/// A conversation message as the chat-state service takes it.
#[derive(Debug)]
pub struct Message {
    pub role: MessageRole,
    pub content: Vec<MessageContent>,
}

/// A request to the chat-state service.
#[derive(Debug)]
pub enum ChatProxyRequest {
    StartChat,
    GetChatStateActorId,
    AddMessage { message: Message },
    GenerateCompletion,
    GetHistory,
    UpdateSettings { settings: ClientSettings },
    GetMetadata,
}

/// A reply or notice from the chat-state service.
#[derive(Debug)]
pub enum ChatProxyResponse {
    ChatStateActorId { actor_id: String },
    Success,
    Error { message: String },
    History { messages: Vec<JsonValue> },
    Metadata { conversation_id: String, store_id: String },
}

/// Token counts of a completion.
#[derive(Debug)]
pub struct TokenUsage {
    pub input_tokens: u32,
    pub output_tokens: u32,
}

/// A message that a user wrote, as the chat-state service stores it.
#[derive(Debug)]
pub struct UserMessage {
    pub role: String,
    pub content: Vec<MessageContent>,
}

/// A completion of the model, as the chat-state service stores it.
#[derive(Debug)]
pub struct CompletionMessage {
    pub content: Vec<MessageContent>,
    pub id: String,
    pub model: String,
    pub role: String,
    pub stop_reason: String,
    pub usage: Option<TokenUsage>,
}

/// The body of a stored conversation entry.
#[derive(Debug)]
pub enum MessageEntryVariant {
    Message(UserMessage),
    Completion(CompletionMessage),
}

/// A stored conversation entry.
#[derive(Debug)]
pub struct ChatMessageEntry {
    pub id: String,
    pub parent_id: Option<String>,
    pub entry: MessageEntryVariant,
}

/// A notice on the conversation channel of the chat-state service.
#[derive(Debug)]
pub enum ChannelMessage {
    Head { head: String },
    ChatMessage { message: ChatMessageEntry },
}

/// The kind of a WebSocket frame.
#[derive(Debug, Clone, PartialEq, Eq)]
pub enum MessageType {
    Text,
    Binary,
    Connect,
    Close,
    Ping,
    Pong,
    Other(String),
}

/// A WebSocket frame.
#[derive(Debug)]
pub struct WebsocketMessage {
    pub ty: MessageType,
    pub text: Option<String>,
    pub data: Option<Vec<u8>>,
}

/// What became of a request to the chat-state service: it failed, its reply
/// was not UTF-8, its reply could not be read, or it was read.
#[derive(Debug)]
pub enum ProxyOutcome {
    RequestFailed,
    NotText,
    Unreadable,
    Reply(ChatProxyResponse),
}

/// The answer to a channel that another actor opens.
#[derive(Debug)]
pub struct ChannelAccept {
    pub accepted: bool,
    pub message: Option<Vec<u8>>,
}

} // verus!
