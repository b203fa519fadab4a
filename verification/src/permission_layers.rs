//! Layered tool permission: the semantic access a tool asks for, the plan-mode gate, the
//! permission decision, and the kernel sandbox, checked in that order.
use vstd::prelude::*;

verus! {

#[derive(Clone, Copy, Debug, PartialEq, Eq)]
pub enum ToolInput {
    ListDir(&'static str),
    Edit(&'static str),
    Execute(&'static str),
    WebFetch(&'static str),
}

#[derive(Clone, Copy, Debug, PartialEq, Eq)]
pub enum AccessKind {
    Read(&'static str),
    Edit(&'static str),
    Bash(&'static str),
    WebFetch(&'static str),
}

/// The access a tool input asks for.
pub open spec fn access_of(input: ToolInput) -> AccessKind {
    match input {
        ToolInput::ListDir(path) => AccessKind::Read(path),
        ToolInput::Edit(path) => AccessKind::Edit(path),
        ToolInput::Execute(command) => AccessKind::Bash(command),
        ToolInput::WebFetch(url) => AccessKind::WebFetch(url),
    }
}

impl From<ToolInput> for AccessKind {
    fn from(input: ToolInput) -> (r: Self) {
        match input {
            ToolInput::ListDir(path) => Self::Read(path),
            ToolInput::Edit(path) => Self::Edit(path),
            ToolInput::Execute(command) => Self::Bash(command),
            ToolInput::WebFetch(url) => Self::WebFetch(url),
        }
    }
}

impl vstd::std_specs::convert::FromSpecImpl<ToolInput> for AccessKind {
    open spec fn obeys_from_spec() -> bool {
        true
    }

    open spec fn from_spec(input: ToolInput) -> AccessKind {
        access_of(input)
    }
}

impl AccessKind {
    /// Plan mode forbids edits and shell commands.
    pub fn blocked_in_plan(self) -> (r: bool)
        ensures
            r == (self is Edit || self is Bash),
    {
        match self {
            Self::Edit(_) | Self::Bash(_) => true,
            _ => false,
        }
    }
}

#[derive(Clone, Copy, Debug, PartialEq, Eq, Structural)]
pub enum SessionMode {
    Plan,
    Act,
}

#[derive(Clone, Copy, Debug, PartialEq, Eq)]
pub enum PolicyRule {
    Allow,
    Ask,
    Deny(&'static str),
    UnknownBashShape,
}

#[derive(Clone, Copy, Debug, PartialEq, Eq)]
pub enum Decision {
    Allow,
    Ask,
    FollowupMessage(&'static str),
    Reject(&'static str),
    PolicyDeny(&'static str),
    Cancelled,
}

#[derive(Debug, Default, PartialEq, Eq)]
pub struct PermissionModes {
    pub yolo: bool,
    pub auto: bool,
    pub managed_yolo_pin: bool,
}

impl PermissionModes {
    /// Yolo turns on only when no managed pin forbids it, and then turns auto off.
    pub fn set_yolo(&mut self, enabled: bool)
        ensures
            final(self).yolo == (enabled && !old(self).managed_yolo_pin),
            final(self).auto == (if final(self).yolo { false } else { old(self).auto }),
            final(self).managed_yolo_pin == old(self).managed_yolo_pin,
            !(final(self).yolo && final(self).auto),
    {
        self.yolo = enabled && !self.managed_yolo_pin;
        if self.yolo {
            self.auto = false;
        }
    }

    /// Auto follows the request; turning it on turns yolo off.
    pub fn set_auto(&mut self, enabled: bool)
        ensures
            final(self).auto == enabled,
            final(self).yolo == (if enabled { false } else { old(self).yolo }),
            final(self).managed_yolo_pin == old(self).managed_yolo_pin,
            !(final(self).yolo && final(self).auto),
    {
        self.auto = enabled;
        if enabled {
            self.yolo = false;
        }
    }

    /// Explicit rules decide; questions are answered yes in yolo mode and asked otherwise.
    pub fn decide(&self, rule: PolicyRule) -> (d: Decision)
        ensures
            d == match rule {
                PolicyRule::Allow => Decision::Allow,
                PolicyRule::Deny(reason) => Decision::PolicyDeny(reason),
                _ => if self.yolo {
                    Decision::Allow
                } else {
                    Decision::Ask
                },
            },
    {
        match rule {
            PolicyRule::Allow => Decision::Allow,
            PolicyRule::Deny(reason) => Decision::PolicyDeny(reason),
            PolicyRule::Ask | PolicyRule::UnknownBashShape => if self.yolo {
                Decision::Allow
            } else {
                Decision::Ask
            },
        }
    }
}

#[derive(Clone, Copy, Debug, PartialEq, Eq, Structural)]
pub enum KernelOperation {
    Read,
    Write,
    Network,
}

#[derive(Clone, Copy, Debug, PartialEq, Eq, Structural)]
pub struct SandboxProfile {
    pub allow_write: bool,
    pub allow_network: bool,
}

#[derive(Clone, Copy, Debug, PartialEq, Eq)]
pub enum Outcome {
    Executed,
    PlanDenied,
    AwaitingUser,
    ModelCanContinue(&'static str),
    TurnRejected(&'static str),
    TurnCancelled,
    TurnFollowup(&'static str),
    SandboxDenied,
}

/// What the layers decide for one tool call.
pub open spec fn tool_outcome(
    mode: SessionMode,
    access: AccessKind,
    decision: Decision,
    operation: KernelOperation,
    sandbox: SandboxProfile,
) -> Outcome {
    if mode == SessionMode::Plan && (access is Edit || access is Bash) {
        Outcome::PlanDenied
    } else {
        match decision {
            Decision::Ask => Outcome::AwaitingUser,
            Decision::PolicyDeny(reason) => Outcome::ModelCanContinue(reason),
            Decision::Reject(reason) => Outcome::TurnRejected(reason),
            Decision::Cancelled => Outcome::TurnCancelled,
            Decision::FollowupMessage(message) => Outcome::TurnFollowup(message),
            Decision::Allow => {
                let kernel_allows = match operation {
                    KernelOperation::Read => true,
                    KernelOperation::Write => sandbox.allow_write,
                    KernelOperation::Network => sandbox.allow_network,
                };
                if kernel_allows {
                    Outcome::Executed
                } else {
                    Outcome::SandboxDenied
                }
            },
        }
    }
}

/// Runs a tool call through the plan gate, the decision, and the sandbox.
pub fn run_tool(
    mode: SessionMode,
    access: AccessKind,
    decision: Decision,
    operation: KernelOperation,
    sandbox: SandboxProfile,
) -> (r: Outcome)
    ensures
        r == tool_outcome(mode, access, decision, operation, sandbox),
{
    if mode == SessionMode::Plan && access.blocked_in_plan() {
        return Outcome::PlanDenied;
    }
    match decision {
        Decision::Ask => {
            return Outcome::AwaitingUser;
        },
        Decision::PolicyDeny(reason) => {
            return Outcome::ModelCanContinue(reason);
        },
        Decision::Reject(reason) => {
            return Outcome::TurnRejected(reason);
        },
        Decision::Cancelled => {
            return Outcome::TurnCancelled;
        },
        Decision::FollowupMessage(message) => {
            return Outcome::TurnFollowup(message);
        },
        Decision::Allow => {},
    }
    let kernel_allows = match operation {
        KernelOperation::Read => true,
        KernelOperation::Write => sandbox.allow_write,
        KernelOperation::Network => sandbox.allow_network,
    };
    if kernel_allows {
        Outcome::Executed
    } else {
        Outcome::SandboxDenied
    }
}

/// Only an allowed decision, outside a plan block, inside the sandbox, executes a tool.
pub proof fn law_execution_needs_every_layer(
    mode: SessionMode,
    access: AccessKind,
    decision: Decision,
    operation: KernelOperation,
    sandbox: SandboxProfile,
)
    ensures
        tool_outcome(mode, access, decision, operation, sandbox) == Outcome::Executed <==> {
            &&& !(mode == SessionMode::Plan && (access is Edit || access is Bash))
            &&& decision == Decision::Allow
            &&& match operation {
                KernelOperation::Read => true,
                KernelOperation::Write => sandbox.allow_write,
                KernelOperation::Network => sandbox.allow_network,
            }
        },
{
}

/// Plan mode blocks every edit and every shell command before anything else is consulted:
/// whatever the decision (even one that would ask the user or allow the call) and whatever
/// the sandbox, the outcome is a plan denial.
pub proof fn law_plan_mode_blocks_edits_and_bash(
    access: AccessKind,
    decision: Decision,
    operation: KernelOperation,
    sandbox: SandboxProfile,
)
    requires
        access is Edit || access is Bash,
    ensures
        tool_outcome(SessionMode::Plan, access, decision, operation, sandbox) == Outcome::PlanDenied,
{
}

} // verus!
