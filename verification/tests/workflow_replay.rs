use async_demos::workflow_replay::{
    call_host, request_hash, AgentCallBudget, Journal, JournalError,
};
use serde_json::Value;

fn json(text: &str) -> Value {
    serde_json::from_str(text).unwrap()
}

fn fnv_hex(kind: &str, payload: &Value) -> String {
    let bytes = [kind.as_bytes(), &[0], payload.to_string().as_bytes()].concat();
    let mut hash = 0xcbf29ce484222325_u64;
    for byte in bytes {
        hash ^= u64::from(byte);
        hash = hash.wrapping_mul(0x100000001b3);
    }
    format!("{hash:016x}")
}

#[test]
fn replayed_call_returns_the_recorded_result_without_running_the_host() {
    let payload = json(r#"{ "prompt": "inspect auth", "model": "fast" }"#);
    let mut journal = Journal::default();
    let mut host_executions = 0;

    let (first, replayed) =
        call_host(&mut journal, 0, "spawn_agent", &payload, &mut host_executions).unwrap();
    assert!(!replayed);
    assert_eq!(host_executions, 1);
    assert_eq!(journal.entries.len(), 1);
    assert_eq!(first, json(r#"{ "agent_id": "child-1", "success": true }"#));

    let (restored, replayed) =
        call_host(&mut journal, 0, "spawn_agent", &payload, &mut host_executions).unwrap();
    assert!(replayed);
    assert_eq!(restored, first);
    assert_eq!(host_executions, 1);
}

#[test]
fn changed_request_is_a_divergence() {
    let payload = json(r#"{ "prompt": "inspect auth", "model": "fast" }"#);
    let mut journal = Journal::default();
    let mut host_executions = 0;
    call_host(&mut journal, 0, "spawn_agent", &payload, &mut host_executions).unwrap();

    let changed = json(r#"{ "prompt": "different prompt", "model": "fast" }"#);
    assert_eq!(
        call_host(&mut journal, 0, "spawn_agent", &changed, &mut host_executions).unwrap_err(),
        JournalError::Divergence {
            seq: 0,
            kind: "spawn_agent".to_owned()
        }
    );
    assert_eq!(host_executions, 1);
}

#[test]
fn journal_is_dense() {
    let payload = json(r#"{ "prompt": "inspect auth" }"#);
    let mut journal = Journal::default();
    let mut host_executions = 0;
    call_host(&mut journal, 0, "spawn_agent", &payload, &mut host_executions).unwrap();
    assert_eq!(
        journal
            .record(2, "budget", "hash".to_owned(), Value::Null)
            .unwrap_err(),
        JournalError::Sequence {
            expected: 1,
            actual: 2
        }
    );
    assert_eq!(journal.entries.len(), 1);
    assert_eq!(journal.replay(5, "spawn_agent", "x"), Ok(None));
    journal
        .record(1, "budget", "hash".to_owned(), Value::Null)
        .unwrap();
    assert_eq!(journal.replay(1, "budget", "hash"), Ok(Some(Value::Null)));
}

#[test]
fn request_hash_is_fnv1a_over_kind_and_payload() {
    let payload = json(r#"{ "prompt": "inspect auth", "model": "fast" }"#);
    let hash = request_hash("spawn_agent", &payload);
    assert_eq!(hash.len(), 16);
    assert_eq!(hash, fnv_hex("spawn_agent", &payload));
    assert_ne!(hash, request_hash("spawn_agent", &json("1")));
    assert_eq!(request_hash("", &Value::Null), fnv_hex("", &Value::Null));
}

#[test]
fn budget_is_reserved_all_or_nothing() {
    let mut budget = AgentCallBudget {
        maximum: 3,
        reserved: 0,
    };
    budget.reserve(2).unwrap();
    assert_eq!(budget.reserved, 2);
    assert_eq!(budget.reserve(2).unwrap_err(), "agent-call quota exceeded");
    assert_eq!(budget.reserved, 2);
    budget.release(1);
    budget.reserve(2).unwrap();
    assert_eq!(budget.reserved, 3);
    budget.release(10);
    assert_eq!(budget.reserved, 0);
    assert!(budget.reserve(u64::MAX).is_err());
}
