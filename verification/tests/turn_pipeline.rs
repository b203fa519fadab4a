use async_demos::turn_pipeline::{run_turn, ChatItem, ChatState, Pager, Persistence, ReplayBuffer};

#[test]
fn one_turn_end_to_end() {
    let mut pager = Pager::default();
    let mut chat = ChatState::default();
    let mut persistence = Persistence::default();
    let result = run_turn("p-42", &mut pager, &mut chat, &mut persistence);

    assert_eq!(result.samples, 2);
    assert_eq!(result.tool_runs, 1);
    assert_eq!(pager.user_entries, ["Read src/main.rs"]);
    assert_eq!(pager.updates, ["InspectingEntry is main."]);
    assert!(pager.prompt_response_received);

    assert_eq!(
        chat.conversation,
        [
            ChatItem::User("Read src/main.rs"),
            ChatItem::AssistantToolCall { call_id: "tc-17" },
            ChatItem::ToolResult { call_id: "tc-17" },
            ChatItem::AssistantText("Entry is main."),
        ]
    );
    assert!(persistence.queued.is_empty());
    assert_eq!(
        persistence.durable,
        ["chat:user:p-42", "update:turn-completed:p-42"]
    );

    let position = |name: &str| {
        result
            .timeline
            .iter()
            .position(|event| *event == name)
            .unwrap()
    };
    let flush = position("replay:flush");
    let response = position("rpc:prompt-response");
    let terminal = position("persistence:turn-completed");
    let next = position("session:start-next");
    assert!(flush < response);
    assert!(response < terminal);
    assert!(terminal < next);
}

#[test]
fn persistence_makes_queued_events_durable_in_order() {
    let mut persistence = Persistence::default();
    persistence.enqueue("a".to_owned());
    persistence.enqueue("b".to_owned());
    assert!(persistence.durable.is_empty());
    persistence.flush_and_ack();
    assert_eq!(persistence.durable, ["a", "b"]);
    assert!(persistence.queued.is_empty());
}

#[test]
fn empty_replay_buffer_emits_nothing() {
    let mut pager = Pager::default();
    let mut replay = ReplayBuffer::default();
    replay.flush(&mut pager);
    assert!(pager.updates.is_empty());
    replay.push_text("x");
    replay.push_text("y");
    replay.flush(&mut pager);
    assert_eq!(pager.updates, ["xy"]);
    assert!(replay.pending.is_empty());
}
