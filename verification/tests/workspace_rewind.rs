use async_demos::workspace_rewind::MemoryWorkspace;

#[test]
fn permission_before_write_and_rewind_with_conflict() {
    let mut workspace = MemoryWorkspace::new();
    workspace
        .files
        .insert("/workspace/app.rs".to_owned(), "v1".to_owned());

    let files_before_denial: Vec<(String, String)> = workspace.files.entries().clone();
    assert_eq!(
        workspace.edit("/etc/passwd", "blocked").unwrap_err(),
        "permission denied: /etc/passwd"
    );
    assert_eq!(workspace.files.entries(), &files_before_denial);
    assert_eq!(workspace.current_turn.len(), 0);

    workspace.edit("/workspace/app.rs", "v2").unwrap();
    workspace.edit("/workspace/app.rs", "v2-final").unwrap();
    assert_eq!(
        workspace
            .current_turn
            .get("/workspace/app.rs")
            .unwrap()
            .before
            .as_deref(),
        Some("v1")
    );
    workspace.finish_turn();
    assert_eq!(
        workspace.checkpoints[0]
            .get("/workspace/app.rs")
            .unwrap()
            .after
            .as_deref(),
        Some("v2-final")
    );

    workspace
        .files
        .insert("/workspace/app.rs".to_owned(), "v3-external".to_owned());
    let conflicts = workspace.rewind_last().unwrap();
    assert_eq!(conflicts, ["/workspace/app.rs"]);
    assert_eq!(workspace.files.get("/workspace/app.rs").unwrap(), "v1");
    assert!(workspace.checkpoints.is_empty());
}

#[test]
fn failed_write_keeps_the_checkpoint() {
    let mut workspace = MemoryWorkspace::new();
    workspace
        .files
        .insert("/workspace/app.rs".to_owned(), "v1".to_owned());
    workspace.edit("/workspace/app.rs", "v4").unwrap();
    workspace.finish_turn();
    workspace
        .fail_writes
        .insert("/workspace/app.rs".to_owned(), ());
    assert_eq!(
        workspace.rewind_last().unwrap_err(),
        "simulated write failure: /workspace/app.rs"
    );
    assert_eq!(workspace.files.get("/workspace/app.rs").unwrap(), "v4");
    assert_eq!(workspace.checkpoints.len(), 1);

    workspace.fail_writes.remove("/workspace/app.rs");
    assert!(workspace.rewind_last().unwrap().is_empty());
    assert_eq!(workspace.files.get("/workspace/app.rs").unwrap(), "v1");
    assert!(workspace.checkpoints.is_empty());
}

#[test]
fn rewind_deletes_files_created_in_the_turn() {
    let mut workspace = MemoryWorkspace::new();
    workspace.edit("/workspace/new.rs", "fresh").unwrap();
    workspace.finish_turn();
    assert!(workspace.rewind_last().unwrap().is_empty());
    assert!(!workspace.files.contains_key("/workspace/new.rs"));
}

#[test]
fn rewind_without_checkpoint_changes_nothing() {
    let mut workspace = MemoryWorkspace::new();
    workspace
        .files
        .insert("/workspace/a.rs".to_owned(), "a".to_owned());
    assert_eq!(workspace.rewind_last().unwrap_err(), "no checkpoint");
    assert_eq!(workspace.files.get("/workspace/a.rs").unwrap(), "a");
}
