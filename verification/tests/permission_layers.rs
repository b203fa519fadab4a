use async_demos::permission_layers::{
    run_tool, AccessKind, Decision, KernelOperation, Outcome, PermissionModes, PolicyRule,
    SandboxProfile, SessionMode, ToolInput,
};

#[test]
fn permission_semantic_access_and_modes() {
    assert_eq!(AccessKind::from(ToolInput::ListDir("src")), AccessKind::Read("src"));
    assert_eq!(AccessKind::from(ToolInput::Edit("src/main.rs")), AccessKind::Edit("src/main.rs"));
    assert_eq!(AccessKind::from(ToolInput::Execute("cargo test")), AccessKind::Bash("cargo test"));
    assert_eq!(
        AccessKind::from(ToolInput::WebFetch("https://example.test")),
        AccessKind::WebFetch("https://example.test")
    );

    let mut modes = PermissionModes::default();
    assert_eq!(modes.decide(PolicyRule::UnknownBashShape), Decision::Ask);
    modes.set_yolo(true);
    assert_eq!(modes.decide(PolicyRule::Ask), Decision::Allow);
    assert_eq!(modes.decide(PolicyRule::Deny("managed policy")), Decision::PolicyDeny("managed policy"));
    modes.set_auto(true);
    assert!(!modes.yolo);
    assert!(modes.auto);

    let mut pinned = PermissionModes { managed_yolo_pin: true, ..PermissionModes::default() };
    pinned.set_yolo(true);
    assert!(!pinned.yolo);
}

#[test]
fn permission_layers_in_order() {
    let permissive = SandboxProfile { allow_write: true, allow_network: true };
    assert_eq!(
        run_tool(SessionMode::Plan, AccessKind::Edit("src/main.rs"), Decision::Allow, KernelOperation::Write, permissive),
        Outcome::PlanDenied
    );
    assert_eq!(
        run_tool(
            SessionMode::Act,
            AccessKind::WebFetch("https://example.test"),
            Decision::Allow,
            KernelOperation::Network,
            SandboxProfile { allow_write: true, allow_network: false },
        ),
        Outcome::SandboxDenied
    );
    assert_eq!(
        run_tool(SessionMode::Act, AccessKind::Read("README.md"), Decision::PolicyDeny("outside policy"), KernelOperation::Read, permissive),
        Outcome::ModelCanContinue("outside policy")
    );
    assert_eq!(
        run_tool(SessionMode::Act, AccessKind::Read("README.md"), Decision::Reject("user rejected"), KernelOperation::Read, permissive),
        Outcome::TurnRejected("user rejected")
    );
    assert_eq!(
        run_tool(SessionMode::Act, AccessKind::Read("README.md"), Decision::Cancelled, KernelOperation::Read, permissive),
        Outcome::TurnCancelled
    );
    assert_eq!(
        run_tool(SessionMode::Act, AccessKind::Read("README.md"), Decision::FollowupMessage("use another file"), KernelOperation::Read, permissive),
        Outcome::TurnFollowup("use another file")
    );
    let modes = PermissionModes::default();
    assert_eq!(
        run_tool(SessionMode::Act, AccessKind::Read("README.md"), modes.decide(PolicyRule::Allow), KernelOperation::Read, permissive),
        Outcome::Executed
    );
    assert_eq!(
        run_tool(SessionMode::Plan, AccessKind::Read("a"), Decision::Ask, KernelOperation::Read, permissive),
        Outcome::AwaitingUser
    );
    assert!(AccessKind::Bash("ls").blocked_in_plan());
    assert!(!AccessKind::WebFetch("u").blocked_in_plan());
}
