use front_chat::content::parse_json_data;
use front_chat::init::{
    actor_config, channel_subscribe_message, chat_state_actor_id, server_setup, spawn_plan,
};
use front_chat::json::JsonValue;
use front_chat::protocol::{ChatProxyResponse, ProxyOutcome};

fn doc(text: &str) -> JsonValue {
    parse_json_data(text.as_bytes()).expect("test document is JSON")
}

#[test]
fn server_listens_on_8080_with_two_routes_and_websockets() {
    let s = server_setup();
    assert_eq!(s.config.port, Some(8080));
    assert_eq!(s.config.host.as_deref(), Some("0.0.0.0"));
    assert_eq!(s.static_handler, "static");
    assert_eq!(s.websocket_handler, "websocket");
    assert_eq!(
        s.routes,
        vec![("/".to_string(), "GET".to_string()), ("/health".to_string(), "GET".to_string())]
    );
    assert_eq!(s.websocket_path, "/ws");
}

#[test]
fn configuration_is_required() {
    assert_eq!(
        actor_config(None).unwrap_err(),
        "No configuration provided - actor config is required"
    );
    let err = actor_config(Some(b"{not json".to_vec())).unwrap_err();
    assert!(err.starts_with("Failed to parse init configuration: "), "{}", err);
    let config = actor_config(Some(br#"{"actor": {"manifest_path": "m.toml"}}"#.to_vec())).unwrap();
    assert!(config.get("actor").is_some());
}

#[test]
fn spawn_needs_a_manifest_path() {
    let err = spawn_plan(&doc(r#"{"actor": {}}"#)).unwrap_err();
    assert_eq!(err, "Missing actor.manifest_path in configuration");
    let err = spawn_plan(&doc(r#"{"actor": {"manifest_path": 3}}"#)).unwrap_err();
    assert_eq!(err, "Missing actor.manifest_path in configuration");
    let err = spawn_plan(&doc(r#"{}"#)).unwrap_err();
    assert_eq!(err, "Missing actor.manifest_path in configuration");
}

#[test]
fn spawn_passes_the_initial_state_as_json() {
    let plan = spawn_plan(&doc(r#"{"actor": {"manifest_path": "m.toml"}}"#)).unwrap();
    assert_eq!(plan.manifest_path, "m.toml");
    assert_eq!(plan.init_bytes, None);
    let plan = spawn_plan(&doc(
        r#"{"actor": {"manifest_path": "m.toml", "initial_state": {"b": [1, 2], "a": "x"}}}"#,
    ))
    .unwrap();
    assert_eq!(plan.init_bytes, Some(br#"{"a":"x","b":[1,2]}"#.to_vec()));
    let plan = spawn_plan(&doc(r#"{"actor": {"manifest_path": "m.toml", "initial_state": null}}"#)).unwrap();
    assert_eq!(plan.init_bytes, Some(b"null".to_vec()));
}

#[test]
fn spawned_service_names_its_chat_state_actor() {
    let r = chat_state_actor_id(ProxyOutcome::Reply(ChatProxyResponse::ChatStateActorId {
        actor_id: "a-1".into(),
    }));
    assert_eq!(r.as_deref(), Some("a-1"));
    assert_eq!(chat_state_actor_id(ProxyOutcome::Reply(ChatProxyResponse::Success)), None);
    assert_eq!(chat_state_actor_id(ProxyOutcome::NotText), None);
}

#[test]
fn subscribe_message_names_the_conversation_channel() {
    let bytes = channel_subscribe_message("abc").unwrap();
    assert_eq!(bytes, br#"{"channel":"conversation_abc","type":"channel_subscribe"}"#.to_vec());
}
