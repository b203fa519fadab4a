use async_demos::prompt_assembly::{
    ensure_project_instructions, push_runtime_reminder, render_initial_preamble,
    render_stable_system, Audience, ConversationItem, PromptMode, SyntheticReason, ToolRegistry,
};

#[test]
fn stable_system_prompt_per_audience() {
    let tools = ToolRegistry::with_read_override("inspect_file");
    let body = "Review narrowly and cite evidence.";
    let primary = render_stable_system(PromptMode::Extend, Audience::Primary, body, &tools);
    let child = render_stable_system(PromptMode::Extend, Audience::Subagent, body, &tools);
    assert!(primary.contains("inspect_file"));
    assert!(tools.definitions.contains(&"inspect_file"));
    assert_eq!(tools.definitions, vec!["inspect_file", "search_code"]);
    assert!(primary.contains("Parent catalog enabled"));
    assert!(!child.contains("Parent catalog enabled"));
    assert!(primary.ends_with(body));
    assert!(child.ends_with(body));
    assert_eq!(
        primary,
        "You are the primary coding agent. Read with inspect_file. Parent catalog enabled.\nReview narrowly and cite evidence."
    );
    assert_eq!(
        child,
        "You are a focused child agent. Read with inspect_file.\nReview narrowly and cite evidence."
    );
}

#[test]
fn full_mode_is_the_body_alone() {
    let tools = ToolRegistry::with_read_override("inspect_file");
    let body = "Review narrowly and cite evidence.";
    let full = render_stable_system(PromptMode::Full, Audience::Primary, body, &tools);
    assert_eq!(full, body);
    assert!(!full.contains("inspect_file"));
}

#[test]
fn initial_preamble_lists_every_part() {
    let preamble = render_initial_preamble(
        "/workspace/project",
        "Run tests before editing.",
        &["code-review"],
        &["docs-server"],
    );
    assert!(preamble.contains("workspace=/workspace/project"));
    assert!(preamble.contains("project_rules=Run tests before editing."));
    assert!(preamble.contains("skills=code-review"));
    assert!(preamble.contains("mcp=docs-server"));
    let two = render_initial_preamble("w", "r", &["a", "b"], &[]);
    assert_eq!(two, "workspace=w\nproject_rules=r\nskills=a,b\nmcp=");
}

#[test]
fn project_instructions_are_added_once_and_reminders_appended() {
    let tools = ToolRegistry::with_read_override("inspect_file");
    let primary = render_stable_system(
        PromptMode::Extend,
        Audience::Primary,
        "Review narrowly and cite evidence.",
        &tools,
    );
    let preamble = render_initial_preamble(
        "/workspace/project",
        "Run tests before editing.",
        &["code-review"],
        &["docs-server"],
    );
    let mut conversation = vec![ConversationItem {
        text: "User request".to_owned(),
        reason: None,
    }];
    ensure_project_instructions(&mut conversation, &preamble);
    ensure_project_instructions(&mut conversation, &preamble);
    assert_eq!(
        conversation
            .iter()
            .filter(|item| item.reason == Some(SyntheticReason::ProjectInstructions))
            .count(),
        1
    );
    assert_eq!(conversation.len(), 2);
    assert_eq!(conversation[1].text, preamble);

    let stable_before_runtime_change = primary.clone();
    push_runtime_reminder(&mut conversation, "Plan mode is now active.");
    assert_eq!(primary, stable_before_runtime_change);
    assert_eq!(
        conversation.last().unwrap().reason,
        Some(SyntheticReason::RuntimeReminder)
    );
    assert!(conversation.last().unwrap().text.contains("Plan mode"));
    assert_eq!(conversation.len(), 3);
}
