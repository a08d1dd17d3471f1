//! Start-up: the server to create, the configuration to read, the
//! chat-state service to spawn and the channel to open to it.
use crate::external::{encode_json, json_encode, json_parse_bytes, parse_json_bytes};
use crate::json::{fields_view, json_get, json_get_str, lemma_fields_view, JsonValue, JsonView};
use crate::protocol::{ChatProxyResponse, ProxyOutcome};
use crate::text::owned;
use vstd::prelude::*;

verus! {

/// Where the HTTP server listens.
#[derive(Debug)]
pub struct ServerConfig {
    pub port: Option<u16>,
    pub host: Option<String>,
}

/// The server to create: where it listens, its two handlers, its plain
/// routes (each served by the static handler) and its WebSocket path (served
/// by the WebSocket handler on connect, message and disconnect).
#[derive(Debug)]
pub struct ServerSetup {
    pub config: ServerConfig,
    pub static_handler: String,
    pub websocket_handler: String,
    pub routes: Vec<(String, String)>,
    pub websocket_path: String,
}

/// The server of the chat front end: port 8080 on every interface, `GET /`
/// and `GET /health`, and WebSockets at `/ws`.
pub fn server_setup() -> (r: ServerSetup)
    ensures
        r.config.port == Some(8080u16),
        r.config.host matches Some(h) && h@ == "0.0.0.0"@,
        r.static_handler@ == "static"@,
        r.websocket_handler@ == "websocket"@,
        r.routes@.len() == 2,
        r.routes@[0].0@ == "/"@ && r.routes@[0].1@ == "GET"@,
        r.routes@[1].0@ == "/health"@ && r.routes@[1].1@ == "GET"@,
        r.websocket_path@ == "/ws"@,
{
    ServerSetup {
        config: ServerConfig { port: Some(8080), host: Some(owned("0.0.0.0")) },
        static_handler: owned("static"),
        websocket_handler: owned("websocket"),
        routes: vec![(owned("/"), owned("GET")), (owned("/health"), owned("GET"))],
        websocket_path: owned("/ws"),
    }
}

/// Reads the actor's configuration from its start-up data, which must be
/// there and must be one JSON document.
pub fn actor_config(data: Option<Vec<u8>>) -> (r: Result<JsonValue, String>)
    ensures
        match data {
            None => r matches Err(e) && e@ == "No configuration provided - actor config is required"@,
            Some(bytes) => match json_parse_bytes(bytes@) {
                Ok(doc) => r matches Ok(v) && v@ == doc,
                Err(msg) => r matches Err(e) && e@ == "Failed to parse init configuration: "@ + msg,
            },
        },
{
    match data {
        Some(bytes) => match parse_json_bytes(bytes.as_slice()) {
            Ok(config) => Ok(config),
            Err(e) => {
                let mut m = owned("Failed to parse init configuration: ");
                m.append(e.as_str());
                Err(m)
            },
        },
        None => Err(owned("No configuration provided - actor config is required")),
    }
}

/// How to spawn the chat-state service: from which manifest, and with which
/// start-up bytes (none when there are none).
#[derive(Debug)]
pub struct SpawnPlan {
    pub manifest_path: String,
    pub init_bytes: Option<Vec<u8>>,
}

/// `config.actor.manifest_path`, when it is a string.
pub open spec fn manifest_path_of(config: JsonView) -> Option<Seq<char>> {
    match json_get(config, "actor"@) {
        Some(actor) => json_get_str(actor, "manifest_path"@),
        None => None,
    }
}

/// `config.actor.initial_state`, when it is there.
pub open spec fn initial_state_of(config: JsonView) -> Option<JsonView> {
    match json_get(config, "actor"@) {
        Some(actor) => json_get(actor, "initial_state"@),
        None => None,
    }
}

/// Plans the spawn of the chat-state service from the configuration: the
/// manifest path is required; the initial state, when given, is passed on as
/// JSON bytes.
pub fn spawn_plan(config: &JsonValue) -> (r: Result<SpawnPlan, String>)
    ensures
        match manifest_path_of(config@) {
            None => r matches Err(e) && e@ == "Missing actor.manifest_path in configuration"@,
            Some(path) => match initial_state_of(config@) {
                None => r matches Ok(plan) && plan.manifest_path@ == path && plan.init_bytes is None,
                Some(state) => match json_encode(state) {
                    Err(msg) => r matches Err(e) && e@ == "Failed to serialize initial state: "@ + msg,
                    Ok(bytes) => r matches Ok(plan) && plan.manifest_path@ == path && (if bytes.len() == 0 {
                        plan.init_bytes is None
                    } else {
                        plan.init_bytes matches Some(b) && b@ == bytes
                    }),
                },
            },
        },
{
    let actor = config.get("actor");
    let manifest_path = match actor {
        Some(a) => match a.get("manifest_path") {
            Some(JsonValue::Str(p)) => Some(p.clone()),
            _ => None,
        },
        None => None,
    };
    let manifest_path = match manifest_path {
        Some(p) => p,
        None => {
            return Err(owned("Missing actor.manifest_path in configuration"));
        },
    };
    let initial_state = match actor {
        Some(a) => a.get("initial_state"),
        None => None,
    };
    let init_bytes = match initial_state {
        Some(state) => match encode_json(state) {
            Ok(b) => b,
            Err(e) => {
                let mut m = owned("Failed to serialize initial state: ");
                m.append(e.as_str());
                return Err(m);
            },
        },
        None => Vec::new(),
    };
    let init_bytes = if init_bytes.len() == 0 {
        None
    } else {
        Some(init_bytes)
    };
    Ok(SpawnPlan { manifest_path, init_bytes })
}

/// The chat-state service that the spawned actor names, when it answered
/// with one.
pub fn chat_state_actor_id(outcome: ProxyOutcome) -> (r: Option<String>)
    ensures
        match outcome {
            ProxyOutcome::Reply(ChatProxyResponse::ChatStateActorId { actor_id }) => r matches Some(
                id,
            ) && id@ == actor_id@,
            _ => r is None,
        },
{
    match outcome {
        ProxyOutcome::Reply(ChatProxyResponse::ChatStateActorId { actor_id }) => Some(actor_id),
        _ => None,
    }
}

/// The document that subscribes to the channel of a conversation.
pub open spec fn subscribe_doc(conversation_id: Seq<char>) -> JsonView {
    JsonView::Object(
        seq![
            ("type"@, JsonView::Str("channel_subscribe"@)),
            ("channel"@, JsonView::Str("conversation_"@ + conversation_id)),
        ],
    )
}

/// The bytes that open the channel of a conversation with the chat-state
/// service.
pub fn channel_subscribe_message(conversation_id: &str) -> (r: Result<Vec<u8>, String>)
    ensures
        match json_encode(subscribe_doc(conversation_id@)) {
            Ok(bytes) => r matches Ok(b) && b@ == bytes,
            Err(msg) => r matches Err(e) && e@ == "Failed to serialize subscribe message: "@ + msg,
        },
{
    let mut channel = owned("conversation_");
    channel.append(conversation_id);
    let fields = vec![
        (owned("type"), JsonValue::Str(owned("channel_subscribe"))),
        (owned("channel"), JsonValue::Str(channel)),
    ];
    proof {
        lemma_fields_view(fields@);
        assert(fields_view(fields@) =~= seq![
            ("type"@, JsonView::Str("channel_subscribe"@)),
            ("channel"@, JsonView::Str("conversation_"@ + conversation_id@)),
        ]);
    }
    let doc = JsonValue::Object(fields);
    match encode_json(&doc) {
        Ok(b) => Ok(b),
        Err(e) => {
            let mut m = owned("Failed to serialize subscribe message: ");
            m.append(e.as_str());
            Err(m)
        },
    }
}

} // verus!
