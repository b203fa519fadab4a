use async_demos::capability_injection::{
    build_toolset, read_with, run_read, run_web, ReadCount, Resources, State, ToolCallContext,
    WorkspaceRoot,
};
use std::sync::atomic::{AtomicBool, AtomicUsize, Ordering};
use std::sync::Arc;

#[test]
fn rebuilt_toolsets_share_state_and_keep_call_context_separate() {
    let persisted_state = Arc::new(State(ReadCount(AtomicUsize::new(0))));
    let first = build_toolset("/workspace/old", true, persisted_state.clone());
    let context = ToolCallContext {
        call_id: "call-1",
        cancelled: Arc::new(AtomicBool::new(false)),
        ephemeral_credential: Some("request-only-token"),
    };
    assert_eq!(run_read(&context, &first).unwrap(), "/workspace/old:4096");
    assert_eq!(run_web(&first).unwrap(), "https-only");
    assert_eq!(persisted_state.0 .0.load(Ordering::SeqCst), 1);
    assert_eq!(context.ephemeral_credential, Some("request-only-token"));
    assert!(first.get::<String>().is_none());

    let rebuilt = build_toolset("/workspace/new", true, persisted_state.clone());
    assert_eq!(run_read(&context, &rebuilt).unwrap(), "/workspace/new:4096");
    assert_eq!(run_web(&rebuilt).unwrap(), "https-only");
    assert_eq!(persisted_state.0 .0.load(Ordering::SeqCst), 2);
    assert_eq!(first.get::<WorkspaceRoot>().unwrap().0, "/workspace/old");
    assert_eq!(rebuilt.get::<WorkspaceRoot>().unwrap().0, "/workspace/new");

    let without_web = build_toolset("/workspace/new", false, persisted_state);
    assert_eq!(
        run_web(&without_web).unwrap_err(),
        "missing resource: WebFetchClient"
    );

    context.cancelled.store(true, Ordering::SeqCst);
    assert_eq!(run_read(&context, &rebuilt).unwrap_err(), "call-1 cancelled");
}

#[test]
fn get_returns_what_was_inserted() {
    let mut resources = Resources::new();
    assert!(resources.get::<String>().is_none());
    resources.insert("hello".to_owned());
    assert_eq!(*resources.get::<String>().unwrap(), "hello");
    resources.insert("again".to_owned());
    assert_eq!(*resources.get::<String>().unwrap(), "again");
    assert_eq!(
        resources.require::<WorkspaceRoot>("WorkspaceRoot").unwrap_err(),
        "missing resource: WorkspaceRoot"
    );
    let shared = Arc::new(WorkspaceRoot("/w"));
    resources.insert_shared(shared.clone());
    assert!(Arc::ptr_eq(&resources.get::<WorkspaceRoot>().unwrap(), &shared));
}

#[test]
fn read_reports_the_first_missing_resource() {
    let context = ToolCallContext {
        call_id: "c",
        cancelled: Arc::new(AtomicBool::new(false)),
        ephemeral_credential: None,
    };
    let mut resources = Resources::default();
    assert_eq!(
        run_read(&context, &resources).unwrap_err(),
        "missing resource: WorkspaceRoot"
    );
    resources.insert(WorkspaceRoot("/w"));
    assert_eq!(
        run_read(&context, &resources).unwrap_err(),
        "missing resource: ReadParams"
    );
}

#[test]
fn read_with_follows_the_flag() {
    let state = Arc::new(State(ReadCount(AtomicUsize::new(0))));
    let resources = build_toolset("/w", false, state.clone());
    assert_eq!(read_with(true, "c", &resources).unwrap_err(), "c cancelled");
    assert_eq!(state.0 .0.load(Ordering::SeqCst), 0);
    assert_eq!(read_with(false, "c", &resources).unwrap(), "/w:4096");
    assert_eq!(state.0 .0.load(Ordering::SeqCst), 1);
}
