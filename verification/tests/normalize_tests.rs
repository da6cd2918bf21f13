//! Tests for the response normalizer and the JSON layer.
use dry_agent::json::Json;
use dry_agent::models::ActionType;
use dry_agent::models::MessageContentEnum;
use dry_agent::models::MessageType;
use dry_agent::normalize::normalize;
use dry_agent::normalize::parse_llm_response;
use dry_agent::normalize::NormalizeError;

fn parse_text(s: &str) -> Option<Json> {
    let cs: Vec<char> = s.chars().collect();
    dry_agent::json::parse_chars(&cs)
}

fn refusal(r: Result<dry_agent::models::BotMessage, NormalizeError>) -> NormalizeError {
    match r {
        Err(e) => e,
        Ok(_) => panic!("expected the envelope to be refused"),
    }
}

#[test]
fn chat_envelope_parses() {
    let raw = r#"{"message_type":"chat","content":{"text":"hello there"},"conversation_id":"c1"}"#;
    let m = parse_llm_response(raw).expect("chat envelope should parse");
    assert!(matches!(m.message_type, MessageType::Chat));
    match m.content.content {
        MessageContentEnum::Chat(c) => assert_eq!(c.text, "hello there"),
        _ => panic!("expected chat content"),
    }
    assert_eq!(m.conversation_id, "c1");
}

#[test]
fn action_envelope_parses() {
    let raw = r#"{"message_type":"action","content":{"action_type":"stop","services":["db"],"parameters":{"grace":10},"confirmation_required":false},"conversation_id":"x"}"#;
    let m = parse_llm_response(raw).expect("action envelope should parse");
    assert!(matches!(m.message_type, MessageType::Action));
    match m.content.content {
        MessageContentEnum::Action(a) => {
            assert!(matches!(a.action_type, ActionType::Stop));
            assert_eq!(a.services, vec!["db".to_string()]);
            assert!(!a.confirmation_required);
            assert_eq!(a.parameters.len(), 1);
            assert_eq!(a.parameters[0].0, "grace");
        }
        _ => panic!("expected action content"),
    }
}

#[test]
fn confirmation_envelope_parses() {
    let raw = r#"{"message_type":"confirmation","content":{"action_id":"id9","description":"Restart the api?","action_details":{"action_type":"restart","services":["api"],"parameters":{}}},"conversation_id":""}"#;
    let m = parse_llm_response(raw).expect("confirmation envelope should parse");
    assert!(matches!(m.message_type, MessageType::Confirmation));
    match m.content.content {
        MessageContentEnum::Confirmation(c) => {
            assert_eq!(c.action_id, "id9");
            assert_eq!(c.description, "Restart the api?");
            assert!(matches!(c.action_details.action_type, ActionType::Restart));
            assert_eq!(c.action_details.services, vec!["api".to_string()]);
            assert!(!c.action_details.confirmation_required);
        }
        _ => panic!("expected confirmation content"),
    }
}

#[test]
fn invalid_json_is_malformed() {
    assert_eq!(
        refusal(parse_llm_response("not json at all")),
        NormalizeError::MalformedModelOutput
    );
}

#[test]
fn missing_envelope_field_is_malformed() {
    let raw = r#"{"message_type":"chat","content":{"text":"hi"}}"#;
    assert_eq!(
        refusal(parse_llm_response(raw)),
        NormalizeError::MalformedModelOutput
    );
}

#[test]
fn unknown_message_type_is_its_own_error() {
    let raw = r#"{"message_type":"weather","content":{},"conversation_id":"c"}"#;
    assert_eq!(
        refusal(parse_llm_response(raw)),
        NormalizeError::UnknownMessageType
    );
}

#[test]
fn wrong_payload_shape_is_schema_violation() {
    let raw = r#"{"message_type":"action","content":{"action_type":"stop"},"conversation_id":"c"}"#;
    assert_eq!(
        refusal(parse_llm_response(raw)),
        NormalizeError::SchemaViolation
    );
}

#[test]
fn unknown_action_kind_is_schema_violation() {
    let raw = r#"{"message_type":"action","content":{"action_type":"reboot","services":[],"parameters":{},"confirmation_required":true},"conversation_id":"c"}"#;
    assert_eq!(
        refusal(parse_llm_response(raw)),
        NormalizeError::SchemaViolation
    );
}

#[test]
fn non_json_falls_back_to_raw_text() {
    let raw = "I'm sorry, I can only help with service management.";
    let m = normalize(raw, "fresh-conv");
    assert!(matches!(m.message_type, MessageType::Chat));
    match m.content.content {
        MessageContentEnum::Chat(c) => assert_eq!(c.text, raw),
        _ => panic!("expected chat fallback"),
    }
    assert_eq!(m.conversation_id, "fresh-conv");
}

#[test]
fn truncated_json_falls_back_to_raw_text() {
    let raw = r#"{"message_type":"action"#;
    let m = normalize(raw, "f");
    match m.content.content {
        MessageContentEnum::Chat(c) => assert_eq!(c.text, raw),
        _ => panic!("expected chat fallback"),
    }
}

#[test]
fn schema_violation_fallback_embeds_raw_text() {
    let raw = r#"{"message_type":"action","content":{},"conversation_id":"c"}"#;
    let m = normalize(raw, "f");
    match m.content.content {
        MessageContentEnum::Chat(c) => {
            assert!(c.text.contains(raw));
            assert!(c.text.starts_with("I couldn't interpret the model's reply."));
        }
        _ => panic!("expected chat fallback"),
    }
}

#[test]
fn json_fenced_block_is_found() {
    let raw = "Sure, here is the plan:\n```json\n{\"message_type\":\"chat\",\"content\":{\"text\":\"ok\"},\"conversation_id\":\"z\"}\n```\nLet me know.";
    let m = normalize(raw, "f");
    match m.content.content {
        MessageContentEnum::Chat(c) => assert_eq!(c.text, "ok"),
        _ => panic!("expected chat intent from fenced JSON"),
    }
    assert_eq!(m.conversation_id, "z");
}

#[test]
fn generic_fenced_block_is_found() {
    let raw = "```\n{\"message_type\":\"chat\",\"content\":{\"text\":\"hi\"},\"conversation_id\":\"\"}\n```";
    let m = normalize(raw, "fresh");
    match m.content.content {
        MessageContentEnum::Chat(c) => assert_eq!(c.text, "hi"),
        _ => panic!("expected chat intent from fenced JSON"),
    }
    assert_eq!(m.conversation_id, "fresh");
}

#[test]
fn braces_inside_prose_are_found() {
    let raw = "Here you go: {\"message_type\":\"chat\",\"content\":{\"text\":\"yo\"},\"conversation_id\":\"k\"} hope that helps";
    let m = normalize(raw, "f");
    match m.content.content {
        MessageContentEnum::Chat(c) => assert_eq!(c.text, "yo"),
        _ => panic!("expected chat intent from braced JSON"),
    }
}

#[test]
fn empty_conversation_id_is_replaced() {
    let raw = r#"{"message_type":"chat","content":{"text":"t"},"conversation_id":""}"#;
    let m = normalize(raw, "supplied");
    assert_eq!(m.conversation_id, "supplied");
}

#[test]
fn model_conversation_id_is_preserved() {
    let raw = r#"{"message_type":"chat","content":{"text":"t"},"conversation_id":"kept"}"#;
    let m = normalize(raw, "supplied");
    assert_eq!(m.conversation_id, "kept");
}

#[test]
fn string_escapes_decode() {
    let raw = "{\"message_type\":\"chat\",\"content\":{\"text\":\"a\\n\\t\\\"\\\\\\u0041\\ud83d\\ude00\"},\"conversation_id\":\"c\"}";
    let m = parse_llm_response(raw).expect("escapes should parse");
    match m.content.content {
        MessageContentEnum::Chat(c) => assert_eq!(c.text, "a\n\t\"\\A\u{1F600}"),
        _ => panic!("expected chat content"),
    }
}

#[test]
fn lone_surrogate_is_rejected() {
    let raw = "{\"message_type\":\"chat\",\"content\":{\"text\":\"\\ud800\"},\"conversation_id\":\"c\"}";
    assert_eq!(
        refusal(parse_llm_response(raw)),
        NormalizeError::MalformedModelOutput
    );
}

#[test]
fn parse_and_reserialize_round_trip() {
    let v = parse_text(" {\"a\" : [ 1 , -2.5e3 , \"x\\nY\" , true , null ] } ").expect("valid JSON");
    assert_eq!(v.to_text(), "{\"a\":[1,-2.5e3,\"x\\u000aY\",true,null]}");
}

#[test]
fn number_grammar_is_strict() {
    assert!(parse_text("01").is_none());
    assert!(parse_text("1.").is_none());
    assert!(parse_text("-").is_none());
    assert!(parse_text("1e").is_none());
    assert!(parse_text("[-0.5e+10, 0, 12e2]").is_some());
}

#[test]
fn trailing_garbage_is_rejected() {
    assert!(parse_text("{} {}").is_none());
    assert!(parse_text("null,").is_none());
}

#[test]
fn empty_output_falls_back_to_empty_chat() {
    let m = normalize("", "f");
    assert!(matches!(m.message_type, MessageType::Chat));
    match m.content.content {
        MessageContentEnum::Chat(c) => assert_eq!(c.text, ""),
        _ => panic!("expected chat fallback"),
    }
    assert_eq!(m.conversation_id, "f");
}

#[test]
fn serde_json_agrees_on_envelope_acceptance() {
    let cases = [
        r#"{"message_type":"chat","content":{"text":"x"},"conversation_id":"1"}"#,
        r#"{"a":[1,2,{"b":null}],"c":"d"}"#,
        r#"{"message_type":"action"#,
        "plain words",
        "[1,2,",
    ];
    for case in cases {
        let ours = parse_text(case).is_some();
        let theirs = serde_json::from_str::<serde_json::Value>(case).is_ok();
        assert_eq!(ours, theirs, "disagreement on: {}", case);
    }
}
