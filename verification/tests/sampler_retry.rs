use async_demos::sampler_retry::{attempt, can_retry, Attempt, Failure, RequestRun, Response, Step};

fn run_attempts(attempts: Vec<Attempt>, max_attempts: usize, retry_only_before_output: bool) -> RequestRun {
    let mut run = RequestRun::new();
    for next in attempts {
        if run.absorb(next, max_attempts, retry_only_before_output) == Step::Finished {
            break;
        }
    }
    run
}

#[test]
fn transient_failure_before_output_is_retried() {
    let recovered = run_attempts(
        vec![
            attempt(Vec::new(), Err(Failure::Transient)),
            attempt(vec!["done"], Ok(Response::Text("done"))),
        ],
        3,
        true,
    );
    assert_eq!(recovered.attempts, 2);
    assert_eq!(recovered.retry_events, 1);
    assert_eq!(recovered.visible_text, "done");
    assert_eq!(recovered.terminal, Ok(Response::Text("done")));
}

#[test]
fn failure_after_output_is_not_retried() {
    let partial = run_attempts(
        vec![
            attempt(vec!["half"], Err(Failure::Transient)),
            attempt(vec![" duplicate"], Ok(Response::Text("should not run"))),
        ],
        3,
        true,
    );
    assert_eq!(partial.attempts, 1);
    assert_eq!(partial.retry_events, 0);
    assert_eq!(partial.visible_text, "half");
    assert_eq!(partial.terminal, Err(Failure::Transient));
}

#[test]
fn empty_reply_is_retried_as_a_failure() {
    let empty_then_tool = run_attempts(
        vec![
            attempt(Vec::new(), Ok(Response::Empty)),
            attempt(Vec::new(), Ok(Response::ToolCall("read_file"))),
        ],
        3,
        true,
    );
    assert_eq!(empty_then_tool.attempts, 2);
    assert_eq!(empty_then_tool.retry_events, 1);
    assert_eq!(empty_then_tool.terminal, Ok(Response::ToolCall("read_file")));
}

#[test]
fn auth_and_context_failures_go_back_to_the_session() {
    for failure in [Failure::Auth, Failure::ContextOverflow] {
        let delegated = run_attempts(
            vec![
                attempt(Vec::new(), Err(failure)),
                attempt(vec!["wrong"], Ok(Response::Text("wrong"))),
            ],
            3,
            true,
        );
        assert_eq!(delegated.attempts, 1);
        assert_eq!(delegated.retry_events, 0);
        assert_eq!(delegated.terminal, Err(failure));
    }
}

#[test]
fn attempts_stop_at_the_maximum() {
    let exhausted = run_attempts(
        vec![
            attempt(Vec::new(), Err(Failure::Transient)),
            attempt(Vec::new(), Err(Failure::Transient)),
            attempt(Vec::new(), Ok(Response::Text("late"))),
        ],
        2,
        true,
    );
    assert_eq!(exhausted.attempts, 2);
    assert_eq!(exhausted.retry_events, 1);
    assert_eq!(exhausted.terminal, Err(Failure::Transient));
}

#[test]
fn retry_rule_table() {
    assert!(can_retry(Failure::Transient, false, true));
    assert!(can_retry(Failure::EmptyResponse, true, false));
    assert!(!can_retry(Failure::Transient, true, true));
    assert!(!can_retry(Failure::Auth, false, false));
    assert!(!can_retry(Failure::ContextOverflow, false, false));
}
