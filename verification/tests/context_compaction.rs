use async_demos::context_compaction::{
    build_request_with_pruning, compact_authoritative_history, estimated_tokens, should_compact,
    Item,
};

fn sample_conversation() -> Vec<Item> {
    vec![
        Item::System("You are a coding agent.".to_owned()),
        Item::User("Trace and improve the authentication flow.".to_owned()),
        Item::Assistant("I will inspect the configuration and token paths.".repeat(4)),
        Item::ToolResult("first large search result\n".repeat(20)),
        Item::Assistant("Now I will inspect refresh handling.".repeat(4)),
        Item::ToolResult("second large search result\n".repeat(20)),
    ]
}

#[test]
fn pruning_leaves_authoritative_history_alone() {
    let conversation = sample_conversation();
    let authoritative_before_pruning = conversation.clone();
    let request = build_request_with_pruning(&conversation);
    assert_eq!(conversation, authoritative_before_pruning);
    assert_ne!(request, conversation);
    assert!(matches!(
        &request[3],
        Item::ToolResult(text) if text == "[older tool result pruned]"
    ));
    assert!(matches!(&request[5], Item::ToolResult(text) if text.len() > 100));
    assert_eq!(request[0], conversation[0]);
    assert_eq!(request[4], conversation[4]);
}

#[test]
fn pruning_without_tool_results_changes_nothing() {
    let conversation = vec![
        Item::System("s".to_owned()),
        Item::User("u".to_owned()),
    ];
    assert_eq!(build_request_with_pruning(&conversation), conversation);
    let single = vec![Item::ToolResult("only".to_owned())];
    assert_eq!(build_request_with_pruning(&single), single);
}

#[test]
fn compaction_threshold_is_eighty_five_percent() {
    assert!(!should_compact(70, 100));
    assert!(should_compact(70, 80));
    assert!(should_compact(85, 100));
    assert!(!should_compact(84, 100));
    assert!(should_compact(usize::MAX, usize::MAX));
}

#[test]
fn token_estimate_rounds_up_per_item() {
    assert_eq!(estimated_tokens(&[]), 0);
    assert_eq!(estimated_tokens(&[Item::User("abcd".to_owned())]), 1);
    assert_eq!(estimated_tokens(&[Item::User("abcde".to_owned())]), 2);
    assert_eq!(
        estimated_tokens(&[Item::User("a".to_owned()), Item::Summary("b".to_owned())]),
        2
    );
}

#[test]
fn full_compaction_keeps_anchors_and_shrinks() {
    let mut conversation = sample_conversation();
    let tokens_before = estimated_tokens(&conversation);
    compact_authoritative_history(&mut conversation);
    let tokens_after = estimated_tokens(&conversation);
    assert!(tokens_after < tokens_before);
    assert_eq!(conversation.len(), 4);
    assert!(matches!(&conversation[0], Item::System(text) if text == "You are a coding agent."));
    assert!(matches!(&conversation[1], Item::Summary(_)));
    assert!(matches!(&conversation[2], Item::User(goal) if goal.contains("authentication")));
    assert!(matches!(&conversation[3], Item::Reminder(_)));
}
