use async_demos::extension_lifecycle::{
    dispatch_lifecycle, run_tool, Permission, PreHook, Terminal, ToolExecution,
};

#[test]
fn lifecycle_contributors_hear_events_in_order() {
    let contributors = ["metrics", "memory"];
    assert_eq!(dispatch_lifecycle(&contributors, "turn-start"), ["metrics:turn-start", "memory:turn-start"]);
    assert_eq!(dispatch_lifecycle(&contributors, "turn-done"), ["metrics:turn-done", "memory:turn-done"]);
    assert!(dispatch_lifecycle(&[], "x").is_empty());
}

#[test]
fn lifecycle_hook_gate_permission_and_one_post_hook() {
    let denied_by_hook = run_tool(PreHook::ExplicitDeny, Permission::Allow, ToolExecution::Success);
    assert!(!denied_by_hook.dispatched);
    assert_eq!(denied_by_hook.terminal, Terminal::HookDenied);
    assert!(!denied_by_hook.events.contains(&"permission:check"));

    let denied_by_permission = run_tool(PreHook::Allow, Permission::Deny, ToolExecution::Success);
    assert!(!denied_by_permission.dispatched);
    assert_eq!(denied_by_permission.terminal, Terminal::PermissionDenied);
    assert_eq!(denied_by_permission.events, ["hook:pre", "hook:allow", "permission:check", "permission:deny"]);

    let fail_open = run_tool(PreHook::RunnerFailed, Permission::Allow, ToolExecution::Success);
    assert!(fail_open.dispatched);
    assert_eq!(fail_open.terminal, Terminal::Success);
    assert!(fail_open.events.contains(&"hook:runner-failed-open"));
    assert!(fail_open.events.contains(&"hook:post-success"));
    assert!(!fail_open.events.contains(&"hook:post-failure"));

    let tool_failed = run_tool(PreHook::Allow, Permission::Allow, ToolExecution::Failure);
    assert_eq!(tool_failed.terminal, Terminal::ToolFailed);
    assert!(tool_failed.events.contains(&"hook:post-failure"));
    assert!(!tool_failed.events.contains(&"hook:post-success"));
}
