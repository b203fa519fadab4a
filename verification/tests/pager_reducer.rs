use async_demos::pager_reducer::{PagerState, RenderBlock, ToolStatus, Tracker, Update};

#[test]
fn pager_stream_merge_echo_tool_routing_and_follow_state() {
    let mut pager = PagerState::default();
    let mut tracker = Tracker::default();

    let local_prompt_id = pager.push(RenderBlock::User {
        text: "Explain the reducer".to_owned(),
    });
    tracker.expect_user_echo();
    assert!(!tracker.apply(Update::UserChunk("Explain the reducer"), &mut pager));
    assert_eq!(pager.entries.len(), 1);
    assert_eq!(pager.entries[0].id, local_prompt_id);

    tracker.apply(
        Update::AgentChunk {
            stream: 10,
            text: "Hello",
        },
        &mut pager,
    );
    tracker.apply(
        Update::AgentChunk {
            stream: 10,
            text: " world",
        },
        &mut pager,
    );
    assert_eq!(pager.entries.len(), 2);
    assert!(matches!(
        &pager.entries[1].block,
        RenderBlock::Agent {
            text,
            running: true,
            ..
        } if text == "Hello world"
    ));

    tracker.apply(
        Update::ToolStart {
            call_id: "tool-a",
            title: "read",
        },
        &mut pager,
    );
    tracker.apply(
        Update::ToolStart {
            call_id: "tool-b",
            title: "search",
        },
        &mut pager,
    );
    tracker.apply(
        Update::ToolDelta {
            call_id: "tool-a",
            output: "A",
            status: ToolStatus::Completed,
        },
        &mut pager,
    );
    assert!(matches!(
        &pager.entries[2].block,
        RenderBlock::Tool {
            call_id: "tool-a",
            output,
            status: ToolStatus::Completed,
            ..
        } if output == "A"
    ));
    assert!(matches!(
        &pager.entries[3].block,
        RenderBlock::Tool {
            call_id: "tool-b",
            status: ToolStatus::Running,
            ..
        }
    ));

    assert!(!tracker.apply(
        Update::ToolDelta {
            call_id: "tool-race",
            output: "already done",
            status: ToolStatus::Completed,
        },
        &mut pager,
    ));
    tracker.apply(
        Update::ToolStart {
            call_id: "tool-race",
            title: "late start",
        },
        &mut pager,
    );
    assert!(matches!(
        &pager.entries[4].block,
        RenderBlock::Tool {
            call_id: "tool-race",
            output,
            status: ToolStatus::Completed,
            ..
        } if output == "already done"
    ));

    pager.user_scrolled_up();
    tracker.apply(
        Update::AgentChunk {
            stream: 11,
            text: "New stream",
        },
        &mut pager,
    );
    assert!(!pager.following);
    assert!(!pager.scroll_at_bottom);
    pager.return_to_bottom();

    tracker.finish_turn(&mut pager);
    assert!(matches!(
        &pager.entries[3].block,
        RenderBlock::Tool {
            call_id: "tool-b",
            status: ToolStatus::Failed,
            ..
        }
    ));
    assert!(matches!(
        &pager.entries[5].block,
        RenderBlock::Agent { running: false, .. }
    ));
    assert!(pager.following);
    assert!(pager.scroll_at_bottom);
}

#[test]
fn pager_blank_chunk_without_open_stream_is_dropped() {
    let mut pager = PagerState::default();
    let mut tracker = Tracker::default();
    assert!(!tracker.apply(Update::AgentChunk { stream: 1, text: "  \n\t" }, &mut pager));
    assert!(!tracker.apply(Update::AgentChunk { stream: 1, text: "" }, &mut pager));
    assert!(pager.entries.is_empty());
    assert!(tracker.apply(Update::AgentChunk { stream: 1, text: "x" }, &mut pager));
    assert!(tracker.apply(Update::AgentChunk { stream: 1, text: "  " }, &mut pager));
    assert!(matches!(&pager.entries[0].block, RenderBlock::Agent { text, .. } if text == "x  "));
}

#[test]
fn pager_user_chunk_closes_agent_and_pushes_entry() {
    let mut pager = PagerState::default();
    let mut tracker = Tracker::default();
    tracker.apply(Update::AgentChunk { stream: 3, text: "thinking" }, &mut pager);
    assert!(tracker.apply(Update::UserChunk("next"), &mut pager));
    assert!(matches!(&pager.entries[0].block, RenderBlock::Agent { running: false, .. }));
    assert!(matches!(&pager.entries[1].block, RenderBlock::User { text } if text == "next"));
    assert_eq!(pager.entries[1].id, 2);
    assert!(tracker.current_agent.is_none());
}

#[test]
fn pager_running_delta_keeps_routing_until_terminal() {
    let mut pager = PagerState::default();
    let mut tracker = Tracker::default();
    tracker.apply(Update::ToolStart { call_id: "t", title: "grep" }, &mut pager);
    assert!(tracker.apply(
        Update::ToolDelta { call_id: "t", output: "a", status: ToolStatus::Running },
        &mut pager
    ));
    assert!(tracker.pending_tools.contains_key("t"));
    assert!(tracker.apply(
        Update::ToolDelta { call_id: "t", output: "b", status: ToolStatus::Failed },
        &mut pager
    ));
    assert!(!tracker.pending_tools.contains_key("t"));
    assert!(matches!(
        &pager.entries[0].block,
        RenderBlock::Tool { output, status: ToolStatus::Failed, .. } if output == "ab"
    ));
    assert!(pager.get_mut(99).is_none());
}
