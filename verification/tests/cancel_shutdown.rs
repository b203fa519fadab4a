use async_demos::cancel_shutdown::{SessionCore, TurnOutcome};

#[test]
fn cancel_then_complete_then_shutdown() {
    let mut core: SessionCore<&'static str, u32> = SessionCore::new();
    core.on_start("first", "first-handles");
    assert_eq!(core.running_handles(), Some(&"first-handles"));
    core.on_cancel(7);
    let (handles, waiter) = core.on_completion("first", TurnOutcome::Cancelled);
    assert_eq!(handles, "first-handles");
    assert_eq!(waiter, Some(7));
    assert!(core.running.is_none());
    assert!(core.running_handles().is_none());

    core.on_start("second", "second-handles");
    let (handles, waiter) = core.on_completion("second", TurnOutcome::Completed);
    assert_eq!(handles, "second-handles");
    assert_eq!(waiter, None);

    core.on_shutdown_requested();
    core.on_workflow_joined();
    assert_eq!(
        core.events,
        [
            "turn_started:first",
            "cancel_requested:first",
            "turn_cancelled:first",
            "turn_started:second",
            "turn_completed:second",
            "shutdown:requested",
            "shutdown:workflow_joined",
            "shutdown:flush",
        ]
    );
}
