use async_demos::textmap::TextMap;
use async_demos::trace_timeline::{event, external_export, Attribute, Correlation};

fn context() -> Correlation {
    Correlation {
        session_id: "session-1",
        prompt_id: "prompt-7",
        traceparent: "00-aaaaaaaaaaaaaaaaaaaaaaaaaaaaaaaa-bbbbbbbbbbbbbbbb-01",
    }
}

#[test]
fn events_carry_the_task_correlation() {
    let context = context();
    let prompt = event("prompt.accepted", None, None, Some(&context));
    let bare_child = event("bare.spawn", None, None, None);
    let sampler = event("sampler.attempt", Some("request-9"), None, Some(&context));
    let tool = event("tool.completed", Some("request-9"), Some("call-3"), Some(&context));

    assert_eq!(prompt.session_id, Some("session-1"));
    assert_eq!(prompt.prompt_id, Some("prompt-7"));
    assert_eq!(bare_child.session_id, None);
    assert_eq!(bare_child.prompt_id, None);
    assert_eq!(sampler.session_id, Some("session-1"));
    assert_eq!(sampler.prompt_id, Some("prompt-7"));
    assert_eq!(sampler.request_id, Some("request-9"));
    assert_eq!(tool.request_id, Some("request-9"));
    assert_eq!(tool.tool_call_id, Some("call-3"));

    let timeline = [&prompt, &sampler, &tool];
    assert_eq!(
        timeline.map(|entry| entry.kind),
        ["prompt.accepted", "sampler.attempt", "tool.completed"]
    );
}

#[test]
fn export_keeps_numbers_flags_and_allowed_text_only() {
    let mut attributes = TextMap::new();
    attributes.insert("session_id".to_owned(), Attribute::Text("session-1".to_owned()));
    attributes.insert("request_id".to_owned(), Attribute::Text("request-9".to_owned()));
    attributes.insert("attempt".to_owned(), Attribute::Integer(1));
    attributes.insert("success".to_owned(), Attribute::Boolean(true));
    attributes.insert("user_prompt".to_owned(), Attribute::Text("private source code".to_owned()));
    attributes.insert("authorization".to_owned(), Attribute::Text("Bearer secret".to_owned()));
    let exported = external_export(attributes);
    assert_eq!(exported.len(), 4);
    assert!(exported.contains_key("session_id"));
    assert!(exported.contains_key("request_id"));
    assert!(exported.contains_key("attempt"));
    assert!(exported.contains_key("success"));
    assert!(!exported.contains_key("user_prompt"));
    assert!(!exported.contains_key("authorization"));
    assert_eq!(exported.get("attempt"), Some(&Attribute::Integer(1)));
}
