//! Tests for the confirmation registry, the command payload, and generated
//! identifiers.
use dry_agent::ids::fresh_id;
use dry_agent::json::Json;
use dry_agent::models::ActionType;
use dry_agent::models::MqttActionMessage;
use dry_agent::registry::ConfirmationRegistry;

fn command(kind: ActionType, services: &[&str], request_id: &str) -> MqttActionMessage {
    MqttActionMessage {
        action_type: kind,
        services: services.iter().map(|s| s.to_string()).collect(),
        parameters: Vec::new(),
        request_id: request_id.to_string(),
    }
}

#[test]
fn take_of_never_inserted_id_is_none() {
    let mut r = ConfirmationRegistry::new();
    assert!(r.take(&"ghost".to_string()).is_none());
}

#[test]
fn take_is_single_shot() {
    let mut r = ConfirmationRegistry::new();
    r.put("a1".to_string(), command(ActionType::Start, &["web"], "a1"));
    let first = r.take(&"a1".to_string());
    assert!(first.is_some());
    assert_eq!(first.unwrap().request_id, "a1");
    assert!(r.take(&"a1".to_string()).is_none(), "a taken id is gone");
}

#[test]
fn put_overwrites_same_id() {
    let mut r = ConfirmationRegistry::new();
    r.put("x".to_string(), command(ActionType::Start, &["a"], "x"));
    r.put("x".to_string(), command(ActionType::Stop, &["b"], "x"));
    let got = r.take(&"x".to_string()).expect("id still present");
    assert!(matches!(got.action_type, ActionType::Stop), "last write wins");
    assert_eq!(got.services, vec!["b".to_string()]);
    assert!(r.take(&"x".to_string()).is_none(), "overwrite keeps a single entry");
}

#[test]
fn distinct_ids_are_independent() {
    let mut r = ConfirmationRegistry::new();
    r.put("one".to_string(), command(ActionType::Status, &[], "one"));
    r.put("two".to_string(), command(ActionType::Restart, &["api"], "two"));
    assert!(r.take(&"one".to_string()).is_some());
    assert!(r.take(&"one".to_string()).is_none());
    let two = r.take(&"two".to_string()).expect("other entries survive");
    assert!(matches!(two.action_type, ActionType::Restart));
}

#[test]
fn payload_serializes_exactly() {
    let cmd = MqttActionMessage {
        action_type: ActionType::Start,
        services: vec!["a".to_string(), "b c".to_string()],
        parameters: vec![
            ("timeout".to_string(), Json::Num("30".to_string())),
            ("note".to_string(), Json::Str("line1\nline2".to_string())),
        ],
        request_id: "rid-7".to_string(),
    };
    assert_eq!(
        cmd.payload(),
        "{\"action_type\":\"start\",\"services\":[\"a\",\"b c\"],\"parameters\":{\"timeout\":30,\"note\":\"line1\\u000aline2\"},\"request_id\":\"rid-7\"}"
    );
}

#[test]
fn payload_is_valid_json_for_the_bus() {
    let cmd = command(ActionType::StartWithTimeout, &["api", "worker"], "r1");
    let v: serde_json::Value = serde_json::from_str(&cmd.payload()).expect("bus payload is JSON");
    assert_eq!(v["action_type"], "start_with_timeout");
    assert_eq!(v["services"][1], "worker");
    assert_eq!(v["request_id"], "r1");
}

#[test]
fn wire_names_cover_every_kind() {
    assert_eq!(ActionType::Status.wire_name(), "status");
    assert_eq!(ActionType::Start.wire_name(), "start");
    assert_eq!(ActionType::Stop.wire_name(), "stop");
    assert_eq!(ActionType::Restart.wire_name(), "restart");
    assert_eq!(ActionType::StartWithTimeout.wire_name(), "start_with_timeout");
    assert_eq!(ActionType::Configure.wire_name(), "configure");
}

#[test]
fn fresh_ids_look_like_hyphenated_uuids() {
    let a = fresh_id();
    let b = fresh_id();
    assert_eq!(a.len(), 36);
    assert_eq!(b.len(), 36);
    assert!(a.chars().all(|c| c.is_ascii_hexdigit() || c == '-'));
    assert_ne!(a, b, "two generated ids should differ");
}
