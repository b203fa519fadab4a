use async_demos::session_actor::{turn_output, SessionState, Status};

#[test]
fn prompts_run_one_at_a_time_in_arrival_order() {
    let mut state: SessionState<&'static str> = SessionState::new();
    let started = state.on_prompt("first", "slow prompt");
    assert_eq!(started, Some(("first", "slow prompt")));
    let started = state.on_prompt("second", "fast prompt");
    assert_eq!(started, None);
    assert_eq!(
        state.status(),
        Status {
            running: Some("first"),
            queued: 1,
            completed: 0,
        }
    );

    let started = state.on_completion("first");
    assert_eq!(started, Some(("second", "fast prompt")));
    let started = state.on_completion("second");
    assert_eq!(started, None);
    state.on_shutdown();

    assert_eq!(state.completed, ["first", "second"]);
    assert_eq!(
        state.events,
        [
            "queued:first",
            "started:first",
            "queued:second",
            "completed:first",
            "started:second",
            "completed:second",
            "shutdown:flush",
        ]
    );
}

#[test]
fn nothing_starts_while_a_task_runs() {
    let mut state: SessionState<u32> = SessionState::new();
    assert_eq!(state.maybe_start_running_task(), None);
    assert_eq!(state.on_prompt("a", 1), Some(("a", 1)));
    assert_eq!(state.maybe_start_running_task(), None);
    assert_eq!(state.status().running, Some("a"));
}

#[test]
fn finished_turn_replies_to_its_prompt() {
    assert_eq!(turn_output("slow prompt"), "reply to slow prompt");
}
