use executable_runner::{KillOutcome, NexusError, ProcessTable, StopFailure};

#[test]
fn table_starts_empty() {
    let table = ProcessTable::new();
    assert_eq!(table.len(), 0);
    assert!(!table.contains("a.exe"));
}

#[test]
fn table_spawn_adds_the_path_once() {
    let mut table = ProcessTable::new();
    assert_eq!(table.spawn("a.exe", Ok(())), Ok(()));
    assert!(table.contains("a.exe"));
    assert_eq!(table.len(), 1);
    assert_eq!(table.spawn("a.exe", Ok(())), Err(NexusError::AlreadyRunning("a.exe".to_string())));
    assert_eq!(table.len(), 1);
}

#[test]
fn table_spawn_failure_changes_nothing() {
    let mut table = ProcessTable::new();
    table.spawn("a.exe", Ok(())).unwrap();
    assert_eq!(
        table.spawn("b.exe", Err("not found".to_string())),
        Err(NexusError::SpawnError { path: "b.exe".to_string(), reason: "not found".to_string() })
    );
    assert!(!table.contains("b.exe"));
    assert!(table.contains("a.exe"));
    assert_eq!(table.len(), 1);
}

#[test]
fn table_kill_removes_the_path_whatever_the_answer() {
    let mut table = ProcessTable::new();
    table.spawn("a.exe", Ok(())).unwrap();
    table.spawn("b.exe", Ok(())).unwrap();
    assert_eq!(table.kill("a.exe", Ok(())), Ok(()));
    assert_eq!(
        table.kill("b.exe", Err("denied".to_string())),
        Err(NexusError::KillError { path: "b.exe".to_string(), reason: "denied".to_string() })
    );
    assert_eq!(table.len(), 0);
}

#[test]
fn table_kill_of_an_untracked_path_is_refused() {
    let mut table = ProcessTable::new();
    table.spawn("a.exe", Ok(())).unwrap();
    assert_eq!(table.kill("b.exe", Ok(())), Err(NexusError::NotRunning("b.exe".to_string())));
    assert_eq!(table.len(), 1);
}

#[test]
fn table_forget_tells_whether_the_path_was_tracked() {
    let mut table = ProcessTable::new();
    table.spawn("a.exe", Ok(())).unwrap();
    assert!(table.forget("a.exe"));
    assert!(!table.forget("a.exe"));
    assert_eq!(table.len(), 0);
}

#[test]
fn table_poll_exited_removes_the_named_paths() {
    let mut table = ProcessTable::new();
    table.spawn("a.exe", Ok(())).unwrap();
    table.spawn("b.exe", Ok(())).unwrap();
    table.spawn("c.exe", Ok(())).unwrap();
    table.poll_exited(&[]);
    assert_eq!(table.len(), 3);
    table.poll_exited(&["b.exe".to_string(), "zzz.exe".to_string()]);
    assert!(table.contains("a.exe"));
    assert!(!table.contains("b.exe"));
    assert!(table.contains("c.exe"));
    assert_eq!(table.len(), 2);
}

#[test]
fn table_kill_all_empties_the_table_and_returns_the_failures() {
    let mut table = ProcessTable::new();
    table.spawn("a.exe", Ok(())).unwrap();
    table.spawn("b.exe", Ok(())).unwrap();
    let failures = table.kill_all(&[
        KillOutcome { path: "a.exe".to_string(), result: Ok(()) },
        KillOutcome { path: "b.exe".to_string(), result: Err("denied".to_string()) },
    ]);
    assert_eq!(
        failures,
        vec![StopFailure { path: "b.exe".to_string(), reason: "denied".to_string() }]
    );
    assert_eq!(table.len(), 0);
    assert!(!table.contains("a.exe"));
    assert!(!table.contains("b.exe"));
}
