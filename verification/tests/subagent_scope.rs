use async_demos::subagent_scope::{cancel_via_owner, spawn_child, ContextMode, Parent, Request, ResumeSource};

fn parent() -> Parent {
    Parent {
        session_id: "parent-s1",
        prompt_id: "parent-p9",
        cwd: "/workspace/main",
        conversation: vec!["user:root task".to_owned(), "assistant:delegating".to_owned()],
        permission_manager: "permission-manager-parent",
    }
}

fn request(
    id: &'static str,
    subagent_type: &'static str,
    persona: &'static str,
    requested_model: &'static str,
    task: &'static str,
    mode: ContextMode,
    isolation: (bool, bool),
    depth: usize,
) -> Request {
    Request {
        id,
        subagent_type,
        persona,
        requested_model,
        task,
        mode,
        isolation_worktree: isolation.0,
        worktree_created: isolation.1,
        depth,
        max_depth: 2,
    }
}

fn source() -> ResumeSource {
    ResumeSource {
        subagent_type: "explore",
        persona: "reader",
        model: "source-model",
        conversation: vec!["child-system".to_owned(), "assistant:prior".to_owned()],
        worktree_path: None,
        snapshot_available: true,
    }
}

#[test]
fn fresh_child_starts_clean_in_the_parent_workspace() {
    let parent = parent();
    let fresh = spawn_child(
        &parent,
        request("fresh", "explore", "reader", "model-b", "find entrypoint", ContextMode::Fresh, (false, false), 1),
        None,
    )
    .unwrap();
    assert_eq!(fresh.conversation, ["child-system", "find entrypoint"]);
    assert_eq!(fresh.cwd, parent.cwd);
    assert!(fresh.task_tool_enabled);
    assert_eq!(fresh.model, "model-b");
    assert_eq!(fresh.session_id, "child-fresh");
    assert_eq!(fresh.warning, None);
}

#[test]
fn forked_child_has_an_independent_history_and_its_own_worktree() {
    let parent = parent();
    let mut forked = spawn_child(
        &parent,
        request("fork", "audit", "auditor", "model-c", "audit the change", ContextMode::Fork, (true, true), 2),
        None,
    )
    .unwrap();
    assert!(forked.conversation[1].contains("<background_context>"));
    assert_eq!(
        forked.conversation[1],
        "<background_context>user:root task|assistant:delegating</background_context>"
    );
    forked.conversation.push("assistant:child-only".to_owned());
    assert_eq!(parent.conversation.len(), 2);
    assert_eq!(forked.cwd, "/tmp/child-worktree");
    assert!(!forked.task_tool_enabled);
    assert_eq!(forked.permission_manager, parent.permission_manager);
    assert_eq!(forked.parent_session_id, parent.session_id);
    assert_eq!(forked.parent_prompt_id, parent.prompt_id);

    cancel_via_owner(&mut forked, true);
    assert!(forked.cancelled);
    assert!(forked.usage_incomplete);
    assert_eq!(
        forked.events,
        [
            "coordinator:cancel-command",
            "child:drained",
            "coordinator:completion-reported"
        ]
    );
}

#[test]
fn failed_worktree_falls_back_with_a_warning() {
    let parent = parent();
    let child = spawn_child(
        &parent,
        request("iso", "explore", "reader", "m", "t", ContextMode::Fresh, (true, false), 0),
        None,
    )
    .unwrap();
    assert_eq!(child.cwd, parent.cwd);
    assert_eq!(child.warning, Some("worktree creation failed; using shared workspace"));
}

#[test]
fn resumed_child_takes_the_source_model_and_rehydrates() {
    let parent = parent();
    let source = source();
    let resumed = spawn_child(
        &parent,
        request("resume", "explore", "reader", "ignored-model", "continue", ContextMode::Resume, (false, false), 1),
        Some(&source),
    )
    .unwrap();
    assert_eq!(resumed.model, "source-model");
    assert_eq!(resumed.cwd, "/tmp/rehydrated-child");
    assert_eq!(resumed.warning, None);
    assert_eq!(resumed.session_id, "child-resume");
    assert_eq!(resumed.conversation, ["child-system", "assistant:prior", "continue"]);

    let mut without_snapshot = source.clone();
    without_snapshot.snapshot_available = false;
    let shared = spawn_child(
        &parent,
        request("r2", "explore", "reader", "m", "continue", ContextMode::Resume, (false, false), 1),
        Some(&without_snapshot),
    )
    .unwrap();
    assert_eq!(shared.cwd, parent.cwd);
    assert_eq!(shared.warning, Some("resume fell back to shared workspace"));
}

#[test]
fn resume_is_refused_on_mismatch_or_missing_source() {
    let parent = parent();
    let source = source();
    let mismatch = spawn_child(
        &parent,
        request("bad", "audit", "reader", "model", "continue", ContextMode::Resume, (false, false), 1),
        Some(&source),
    );
    assert!(matches!(mismatch, Err("resume identity mismatch")));
    let missing = spawn_child(
        &parent,
        request("bad", "explore", "reader", "model", "continue", ContextMode::Resume, (false, false), 1),
        None,
    );
    assert!(matches!(missing, Err("resume source missing")));
}

#[test]
fn cancel_without_activity_leaves_usage_complete() {
    let parent = parent();
    let mut child = spawn_child(
        &parent,
        request("c", "explore", "reader", "m", "t", ContextMode::Fresh, (false, false), 0),
        None,
    )
    .unwrap();
    cancel_via_owner(&mut child, false);
    assert!(child.cancelled);
    assert!(!child.usage_incomplete);
}
