use async_demos::tool_pipeline::{
    begin_tool_call, collect_tool_stream, complete_tool_call, permission_denial,
    prepare_tool_call, read_file_stream, ReadArgs, ToolCallStep, ToolOutput, ToolRun,
    ToolStreamItem,
};

fn run_tool_call(id: &'static str, name: &'static str, decoded: Result<ReadArgs, String>) -> ToolRun {
    match begin_tool_call(id, name, decoded) {
        ToolCallStep::Finished(run) => run,
        ToolCallStep::Execute(prepared) => {
            let stream = read_file_stream(&prepared.args);
            complete_tool_call(prepared.id, collect_tool_stream(stream))
        }
    }
}

#[test]
fn allowed_read_streams_progress_then_output() {
    let allowed = run_tool_call(
        "call-1",
        "read_file",
        Ok(ReadArgs { path: "docs/README.md".to_owned() }),
    );
    assert_eq!(allowed.call_id, "call-1");
    assert_eq!(allowed.progress, ["opening file", "reading bytes"]);
    let output = allowed.terminal.unwrap();
    assert_eq!(output.prompt_text, "contents of docs/README.md");
    assert_eq!(output.ui_summary, "read docs/README.md");

    let chat_state = vec![format!("tool_result:{}:{}", allowed.call_id, output.prompt_text)];
    assert_eq!(chat_state, ["tool_result:call-1:contents of docs/README.md"]);
}

#[test]
fn reads_under_etc_are_denied_without_progress() {
    let denied = run_tool_call(
        "call-2",
        "read_file",
        Ok(ReadArgs { path: "/etc/passwd".to_owned() }),
    );
    assert!(denied.progress.is_empty());
    assert_eq!(denied.terminal.unwrap_err(), "permission denied: /etc/passwd");
    assert_eq!(
        permission_denial(&ReadArgs { path: "/etcetera".to_owned() }),
        None
    );
}

#[test]
fn unknown_tools_and_bad_arguments_are_refused() {
    let unknown = prepare_tool_call("c", "write_file", Ok(ReadArgs { path: "x".to_owned() }));
    assert_eq!(unknown.err().unwrap(), "unknown tool: write_file");
    let invalid = prepare_tool_call("c", "read_file", Err("missing field `path`".to_owned()));
    assert_eq!(invalid.err().unwrap(), "invalid arguments: missing field `path`");
    let run = run_tool_call("c", "read_file", Err("bad".to_owned()));
    assert_eq!(run.terminal.unwrap_err(), "invalid arguments: bad");
}

#[test]
fn stream_without_terminal_is_an_error() {
    let broken = vec![ToolStreamItem::Progress("started".to_owned())];
    assert_eq!(
        collect_tool_stream(broken).unwrap_err(),
        "tool stream ended without Terminal"
    );
    assert_eq!(
        collect_tool_stream(Vec::new()).unwrap_err(),
        "tool stream ended without Terminal"
    );
}

#[test]
fn failed_terminal_is_reported_as_tool_failure() {
    let failed = vec![
        ToolStreamItem::Progress("p".to_owned()),
        ToolStreamItem::Terminal(Err("disk".to_owned())),
    ];
    assert_eq!(collect_tool_stream(failed).unwrap_err(), "tool failed: disk");
    let run = complete_tool_call("x", Err("tool failed: disk".to_owned()));
    assert!(run.progress.is_empty());
    let ok = complete_tool_call(
        "y",
        Ok((
            vec!["a".to_owned()],
            ToolOutput { prompt_text: "p".to_owned(), ui_summary: "u".to_owned() },
        )),
    );
    assert_eq!(ok.progress, ["a"]);
}
