//! End-to-end tests for the dispatcher: classification, the confirmation
//! handshake, and the planned replies and publishes.
use dry_agent::classify::classify_reply;
use dry_agent::dispatch::Dispatcher;
use dry_agent::dispatch::Outcome;
use dry_agent::dispatch::Turn;

/// Extracts the action id from a confirmation prompt of the form
/// `... Reply with 'confirm <id>' to proceed ...`.
fn id_from_prompt(prompt: &str) -> String {
    let marker = "'confirm ";
    let start = prompt.find(marker).expect("prompt names the confirm reply") + marker.len();
    let rest = &prompt[start..];
    let end = rest.find('\'').expect("prompt closes the quote");
    rest[..end].to_string()
}

#[test]
fn classifier_finds_confirm_and_id() {
    assert_eq!(classify_reply("confirm abc"), Some(("abc".to_string(), true)));
    assert_eq!(classify_reply("cancel abc"), Some(("abc".to_string(), false)));
    assert_eq!(classify_reply("yes, confirm 3f2a"), Some(("3f2a".to_string(), true)));
    assert_eq!(classify_reply("please cancel job7  "), Some(("job7".to_string(), false)));
}

#[test]
fn classifier_is_case_insensitive_but_preserves_id_case() {
    assert_eq!(classify_reply("CONFIRM AbC"), Some(("AbC".to_string(), true)));
}

#[test]
fn classifier_needs_two_tokens() {
    assert_eq!(classify_reply("confirm"), None);
    assert_eq!(classify_reply("  cancel  "), None);
}

#[test]
fn classifier_ignores_ordinary_messages() {
    assert_eq!(classify_reply("now start the api"), None);
    assert_eq!(classify_reply("what services are up?"), None);
}

#[test]
fn affirmation_beats_negation() {
    let r = classify_reply("cancel no wait confirm 9z").expect("classifies");
    assert_eq!(r.0, "9z");
    assert!(r.1, "a reply containing both keywords resolves as a confirmation");
}

#[test]
fn confirmable_action_inserts_once_and_publishes_nothing() {
    let mut d = Dispatcher::new();
    match d.on_message("start nginx and redis") {
        Turn::AskModel => {}
        Turn::Respond(_) => panic!("a fresh request goes to the model"),
    }
    let raw = r#"{"message_type":"action","content":{"action_type":"start","services":["nginx","redis"],"parameters":{},"confirmation_required":true},"conversation_id":""}"#;
    let prompt = match d.on_model_reply(raw) {
        Outcome::Reply { text } => text,
        Outcome::ReplyAndPublish { .. } => panic!("a gated action must not publish"),
    };
    assert!(prompt.contains("nginx"));
    assert!(prompt.contains("redis"));
    let id = id_from_prompt(&prompt);
    assert!(!id.is_empty());

    // Exactly one entry: the first confirm publishes, the second finds nothing.
    let first = d.on_message(&format!("confirm {}", id));
    match first {
        Turn::Respond(Outcome::ReplyAndPublish { ok_reply, .. }) => {
            assert!(ok_reply.contains("start"));
            assert!(ok_reply.contains("nginx"));
        }
        _ => panic!("a pending confirm resolves to a publish"),
    }
    let second = d.on_message(&format!("confirm {}", id));
    match second {
        Turn::Respond(Outcome::Reply { text }) => {
            assert_eq!(text, "I couldn't find that confirmation request. It may have expired.");
        }
        _ => panic!("a consumed confirmation is gone"),
    }
}

#[test]
fn unknown_confirmation_id_reports_not_found() {
    let mut d = Dispatcher::new();
    match d.on_message("confirm 3f2a") {
        Turn::Respond(Outcome::Reply { text }) => {
            assert_eq!(text, "I couldn't find that confirmation request. It may have expired.");
        }
        _ => panic!("an unknown confirmation never publishes"),
    }
}

#[test]
fn cancel_consumes_without_publishing() {
    let mut d = Dispatcher::new();
    let raw = r#"{"message_type":"action","content":{"action_type":"stop","services":["db"],"parameters":{},"confirmation_required":true},"conversation_id":""}"#;
    let prompt = match d.on_model_reply(raw) {
        Outcome::Reply { text } => text,
        _ => panic!("gated action replies with a prompt"),
    };
    let id = id_from_prompt(&prompt);
    match d.on_message(&format!("cancel {}", id)) {
        Turn::Respond(Outcome::Reply { text }) => assert_eq!(text, "Action cancelled."),
        _ => panic!("cancel never publishes"),
    }
    match d.on_message(&format!("confirm {}", id)) {
        Turn::Respond(Outcome::Reply { text }) => {
            assert_eq!(text, "I couldn't find that confirmation request. It may have expired.");
        }
        _ => panic!("a cancelled entry is consumed"),
    }
}

#[test]
fn immediate_action_publishes_with_fresh_request_id() {
    let mut d = Dispatcher::new();
    match d.on_message("restart api") {
        Turn::AskModel => {}
        _ => panic!("a fresh request goes to the model"),
    }
    let raw = r#"{"message_type":"action","content":{"action_type":"restart","services":["api"],"parameters":{},"confirmation_required":false},"conversation_id":""}"#;
    match d.on_model_reply(raw) {
        Outcome::ReplyAndPublish { payload, ok_reply, err_reply } => {
            let v: serde_json::Value = serde_json::from_str(&payload).expect("payload is JSON");
            assert_eq!(v["action_type"], "restart");
            assert_eq!(v["services"].as_array().unwrap().len(), 1);
            assert_eq!(v["services"][0], "api");
            let rid = v["request_id"].as_str().expect("request id is a string");
            assert!(!rid.is_empty());
            assert_eq!(rid.len(), 36);
            assert!(ok_reply.contains("restart"));
            assert!(ok_reply.contains("api"));
            assert!(!err_reply.is_empty());
        }
        Outcome::Reply { .. } => panic!("an unconfirmed action publishes immediately"),
    }
}

#[test]
fn chat_intent_replies_verbatim() {
    let mut d = Dispatcher::new();
    let raw = r#"{"message_type":"chat","content":{"text":"All services are healthy."},"conversation_id":""}"#;
    match d.on_model_reply(raw) {
        Outcome::Reply { text } => assert_eq!(text, "All services are healthy."),
        _ => panic!("chat never publishes"),
    }
}

#[test]
fn model_confirmation_request_uses_model_id() {
    let mut d = Dispatcher::new();
    let raw = r#"{"message_type":"confirmation","content":{"action_id":"job-42","description":"Stop everything?","action_details":{"action_type":"stop","services":["db","api"],"parameters":{}}},"conversation_id":""}"#;
    match d.on_model_reply(raw) {
        Outcome::Reply { text } => {
            assert!(text.starts_with("Stop everything?"));
            assert!(text.contains("'confirm job-42'"));
            assert!(text.contains("'cancel job-42'"));
        }
        _ => panic!("confirmation request replies with a prompt"),
    }
    match d.on_message("confirm job-42") {
        Turn::Respond(Outcome::ReplyAndPublish { payload, .. }) => {
            let v: serde_json::Value = serde_json::from_str(&payload).unwrap();
            assert_eq!(v["request_id"], "job-42");
            assert_eq!(v["action_type"], "stop");
        }
        _ => panic!("the model-supplied id resolves the pending action"),
    }
}

#[test]
fn both_keywords_resolve_as_confirmation() {
    let mut d = Dispatcher::new();
    let raw = r#"{"message_type":"confirmation","content":{"action_id":"k1","description":"Go?","action_details":{"action_type":"status","services":[],"parameters":{}}},"conversation_id":""}"#;
    let _ = d.on_model_reply(raw);
    match d.on_message("cancel or confirm k1") {
        Turn::Respond(Outcome::ReplyAndPublish { .. }) => {}
        _ => panic!("affirmation takes priority when both keywords appear"),
    }
}

#[test]
fn normalizer_failure_still_replies_and_touches_nothing() {
    let mut d = Dispatcher::new();
    let raw = "sorry, no JSON today";
    match d.on_model_reply(raw) {
        Outcome::Reply { text } => assert_eq!(text, raw),
        _ => panic!("fallback never publishes"),
    }
    let failure = dry_agent::dispatch::model_failure_outcome();
    match failure {
        Outcome::Reply { text } => {
            assert_eq!(text, "Sorry, I encountered an error processing your request.");
        }
        _ => panic!("a transport failure only apologizes"),
    }
}
