//! Extension lifecycle: contributors hear each lifecycle event in order, and a tool call
//! passes the pre-hook gate, then permission, then dispatch, ending in exactly one post hook.
use vstd::prelude::*;
use vstd::string::*;

verus! {

#[derive(Clone, Copy, Debug, PartialEq, Eq, Structural)]
pub enum PreHook {
    Allow,
    ExplicitDeny,
    RunnerFailed,
}

#[derive(Clone, Copy, Debug, PartialEq, Eq, Structural)]
pub enum Permission {
    Allow,
    Deny,
}

#[derive(Clone, Copy, Debug, PartialEq, Eq, Structural)]
pub enum ToolExecution {
    Success,
    Failure,
}

#[derive(Clone, Copy, Debug, PartialEq, Eq, Structural)]
pub enum Terminal {
    Success,
    HookDenied,
    PermissionDenied,
    ToolFailed,
}

#[derive(Debug, PartialEq, Eq)]
pub struct ToolRun {
    pub dispatched: bool,
    pub terminal: Terminal,
    pub events: Vec<&'static str>,
}

/// The lifecycle a tool call goes through: whether it was dispatched, how it ended, and the
/// events it emitted.
pub open spec fn tool_lifecycle(pre_hook: PreHook, permission: Permission, execution: ToolExecution) -> (
    bool,
    Terminal,
    Seq<&'static str>,
) {
    if pre_hook == PreHook::ExplicitDeny {
        (false, Terminal::HookDenied, seq!["hook:pre", "hook:explicit-deny"])
    } else {
        let hook = if pre_hook == PreHook::RunnerFailed {
            "hook:runner-failed-open"
        } else {
            "hook:allow"
        };
        if permission == Permission::Deny {
            (
                false,
                Terminal::PermissionDenied,
                seq!["hook:pre", hook, "permission:check", "permission:deny"],
            )
        } else if execution == ToolExecution::Success {
            (
                true,
                Terminal::Success,
                seq!["hook:pre", hook, "permission:check", "tool:dispatch", "hook:post-success"],
            )
        } else {
            (
                true,
                Terminal::ToolFailed,
                seq!["hook:pre", hook, "permission:check", "tool:dispatch", "hook:post-failure"],
            )
        }
    }
}

/// Runs one tool call through the hook gate, permission, and dispatch.
pub fn run_tool(pre_hook: PreHook, permission: Permission, execution: ToolExecution) -> (r: ToolRun)
    ensures
        (r.dispatched, r.terminal, r.events@) == tool_lifecycle(pre_hook, permission, execution),
{
    let mut events = Vec::new();
    events.push("hook:pre");
    match pre_hook {
        PreHook::ExplicitDeny => {
            events.push("hook:explicit-deny");
            assert(events@ =~= seq!["hook:pre", "hook:explicit-deny"]);
            return ToolRun { dispatched: false, terminal: Terminal::HookDenied, events };
        },
        PreHook::RunnerFailed => events.push("hook:runner-failed-open"),
        PreHook::Allow => events.push("hook:allow"),
    }
    let ghost hook = events@[1];
    events.push("permission:check");
    if permission == Permission::Deny {
        events.push("permission:deny");
        assert(events@ =~= seq!["hook:pre", hook, "permission:check", "permission:deny"]);
        return ToolRun { dispatched: false, terminal: Terminal::PermissionDenied, events };
    }
    events.push("tool:dispatch");
    match execution {
        ToolExecution::Success => {
            events.push("hook:post-success");
            assert(events@ =~= seq![
                "hook:pre",
                hook,
                "permission:check",
                "tool:dispatch",
                "hook:post-success",
            ]);
            ToolRun { dispatched: true, terminal: Terminal::Success, events }
        },
        ToolExecution::Failure => {
            events.push("hook:post-failure");
            assert(events@ =~= seq![
                "hook:pre",
                hook,
                "permission:check",
                "tool:dispatch",
                "hook:post-failure",
            ]);
            ToolRun { dispatched: true, terminal: Terminal::ToolFailed, events }
        },
    }
}

/// A dispatched call ends in exactly one post hook, and a call denied by the hook never
/// reaches the permission check.
pub proof fn law_one_post_hook(pre_hook: PreHook, permission: Permission, execution: ToolExecution)
    ensures
        ({
            let (dispatched, terminal, events) = tool_lifecycle(pre_hook, permission, execution);
            &&& dispatched ==> (events.contains("hook:post-success") != events.contains(
                "hook:post-failure",
            ))
            &&& dispatched <==> (terminal == Terminal::Success || terminal == Terminal::ToolFailed)
            &&& terminal == Terminal::HookDenied ==> !events.contains("permission:check")
        }),
{
    let (dispatched, terminal, events) = tool_lifecycle(pre_hook, permission, execution);
    reveal_strlit("hook:post-success");
    reveal_strlit("hook:post-failure");
    reveal_strlit("permission:check");
    reveal_strlit("hook:pre");
    reveal_strlit("hook:explicit-deny");
    reveal_strlit("hook:allow");
    reveal_strlit("hook:runner-failed-open");
    reveal_strlit("tool:dispatch");
    if dispatched {
        if terminal == Terminal::Success {
            assert(events[4] == "hook:post-success");
            assert(!events.contains("hook:post-failure")) by {
                if events.contains("hook:post-failure") {
                    let i = choose|i: int| 0 <= i < events.len() && events[i] == "hook:post-failure";
                    assert(events[i]@ == "hook:post-failure"@);
                }
            }
        } else {
            assert(events[4] == "hook:post-failure");
            assert(!events.contains("hook:post-success")) by {
                if events.contains("hook:post-success") {
                    let i = choose|i: int| 0 <= i < events.len() && events[i] == "hook:post-success";
                    assert(events[i]@ == "hook:post-success"@);
                }
            }
        }
    }
    if terminal == Terminal::HookDenied {
        assert(!events.contains("permission:check")) by {
            if events.contains("permission:check") {
                let i = choose|i: int| 0 <= i < events.len() && events[i] == "permission:check";
                assert(events[i]@ == "permission:check"@);
            }
        }
    }
}

/// The message each contributor receives for a lifecycle event: its name, a colon, the event.
pub open spec fn lifecycle_message(name: Seq<char>, event: Seq<char>) -> Seq<char> {
    name + ":"@ + event
}

/// Tells every contributor, in order, that `event` happened.
pub fn dispatch_lifecycle(contributors: &[&'static str], event: &'static str) -> (r: Vec<String>)
    ensures
        r@.len() == contributors@.len(),
        forall|i: int|
            0 <= i < contributors@.len() ==> #[trigger] r@[i]@ == lifecycle_message(
                contributors@[i]@,
                event@,
            ),
{
    let mut out: Vec<String> = Vec::new();
    let mut i: usize = 0;
    while i < contributors.len()
        invariant
            i <= contributors@.len(),
            out@.len() == i,
            forall|j: int|
                0 <= j < i ==> #[trigger] out@[j]@ == lifecycle_message(contributors@[j]@, event@),
        decreases contributors@.len() - i,
    {
        let mut message = String::from_str(contributors[i]);
        message.append(":");
        message.append(event);
        out.push(message);
        i = i + 1;
    }
    out
}

/// A denied permission is final: whatever the pre hook said (including a runner that failed
/// open) and however the tool would have run, the call is never dispatched, never runs a post
/// hook, and ends denied.
pub proof fn law_denied_permission_never_dispatches(pre_hook: PreHook, execution: ToolExecution)
    ensures
        ({
            let (dispatched, terminal, events) = tool_lifecycle(pre_hook, Permission::Deny, execution);
            &&& !dispatched
            &&& terminal == Terminal::PermissionDenied || terminal == Terminal::HookDenied
            &&& !events.contains("tool:dispatch")
        }),
{
    let (dispatched, terminal, events) = tool_lifecycle(pre_hook, Permission::Deny, execution);
    reveal_strlit("tool:dispatch");
    reveal_strlit("hook:pre");
    reveal_strlit("hook:explicit-deny");
    reveal_strlit("hook:allow");
    reveal_strlit("hook:runner-failed-open");
    reveal_strlit("permission:check");
    reveal_strlit("permission:deny");
    if events.contains("tool:dispatch") {
        let i = choose|i: int| 0 <= i < events.len() && events[i] == "tool:dispatch";
        assert(events[i]@ == "tool:dispatch"@);
    }
}

} // verus!
