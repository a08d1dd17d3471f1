//! Message shaping, protocol decisions and connection bookkeeping of a
//! WebSocket chat front end that relays a browser to a chat-state service.
pub mod json;
pub(crate) mod external;
pub mod text;
pub mod content;
pub mod message;
pub mod history;
pub mod protocol;
pub mod state;
pub mod actor;
pub mod http;
pub mod init;
pub mod laws;
