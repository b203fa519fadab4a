use async_demos::storage_recovery::{AppendError, FailureStage, Storage};
use serde_json::Value;

fn json(text: &str) -> Value {
    serde_json::from_str(text).unwrap()
}

#[test]
fn chat_is_durable_only_after_flush() {
    let mut storage = Storage::new();
    storage.enqueue_chat(json(r#"{"role": "user", "text": "hello"}"#));
    assert!(storage.durable_chat.is_empty());
    storage.flush_and_ack();
    assert_eq!(storage.durable_chat.len(), 1);
    assert!(storage.pending.is_empty());
}

#[test]
fn committed_boundary_and_torn_tail_recovery() {
    let mut storage = Storage::new();
    let first = json(r#"{"kind": "user", "prompt": 1}"#);
    assert_eq!(
        storage.append_update(&first, FailureStage::Write),
        Err(AppendError::NotCommitted)
    );
    assert!(storage.updates_jsonl.is_empty());
    storage.append_update(&first, FailureStage::NoFailure).unwrap();
    assert_eq!(storage.updates_jsonl, "{\"kind\":\"user\",\"prompt\":1}\n");

    let committed = json(r#"{"kind": "assistant", "prompt": 1}"#);
    assert_eq!(
        storage.append_update(&committed, FailureStage::Summary),
        Err(AppendError::Committed)
    );
    assert_eq!(storage.summary_count, 1);

    storage.updates_jsonl.push_str("{\"kind\":\"torn\"");
    storage
        .append_update(
            &json(r#"{"kind": "turn_completed", "prompt": 1}"#),
            FailureStage::NoFailure,
        )
        .unwrap();
    let recovered = storage.recover_updates();
    assert_eq!(recovered.len(), 3);
    assert_eq!(recovered[0], first);
    assert_eq!(recovered[1], committed);
    assert_eq!(recovered[2]["kind"], "turn_completed");
}

#[test]
fn snapshot_replace_is_atomic() {
    let mut storage = Storage::new();
    storage.visible_chat_snapshot = vec![json(r#"{"role": "user", "text": "old"}"#)];
    storage.stage_chat_replace(vec![json(r#"{"role": "summary", "text": "new"}"#)]);
    storage.abandon_chat_replace();
    assert_eq!(storage.visible_chat_snapshot[0]["text"], "old");
    storage.stage_chat_replace(vec![json(r#"{"role": "summary", "text": "new"}"#)]);
    storage.commit_chat_replace();
    assert_eq!(storage.visible_chat_snapshot[0]["text"], "new");
    assert!(storage.temporary_snapshot.is_none());
}

#[test]
fn recovery_handles_carriage_returns_and_blank_lines() {
    let mut storage = Storage::new();
    storage.updates_jsonl.push_str("1\r\n\n[2]\nnot json\n\"x\"");
    let recovered = storage.recover_updates();
    assert_eq!(recovered, vec![json("1"), json("[2]"), json("\"x\"")]);
}
