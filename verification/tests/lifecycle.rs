use executable_runner::{
    load, toggle_window, unload, ExeManager, Executable, KillOutcome, NexusError, StopFailure,
    StoreFile,
};

fn stored(path: &str, launch_on_startup: bool) -> Executable {
    Executable { path: path.to_string(), launch_on_startup, is_running: false }
}

#[test]
fn startup_paths_are_the_flagged_entries_in_order() {
    let file = StoreFile::Entries(vec![
        stored("a.exe", true),
        stored("b.exe", false),
        stored("c.exe", true),
    ]);
    let manager = ExeManager::new(file).unwrap();
    assert_eq!(manager.startup_paths(), vec!["a.exe".to_string(), "c.exe".to_string()]);
}

#[test]
fn startup_paths_of_an_empty_list() {
    let manager = ExeManager::new(StoreFile::Missing).unwrap();
    assert!(manager.startup_paths().is_empty());
}

#[test]
fn startup_paths_skip_an_entry_that_is_running() {
    let file = StoreFile::Entries(vec![stored("a.exe", true), stored("b.exe", true)]);
    let mut manager = ExeManager::new(file).unwrap();
    manager.launch_exe("a.exe", Ok(())).unwrap();
    assert_eq!(manager.startup_paths(), vec!["b.exe".to_string()]);
}

#[test]
fn load_goes_on_after_a_launch_that_failed() {
    let file = StoreFile::Entries(vec![
        stored("a.exe", true),
        stored("b.exe", false),
        stored("c.exe", true),
    ]);
    let mut manager = ExeManager::new(file).unwrap();
    let failures = load(&mut manager, &[Ok(()), Err("file not found".to_string())]);
    assert!(manager.is_running("a.exe"));
    assert!(!manager.is_running("b.exe"));
    assert!(!manager.is_running("c.exe"));
    assert_eq!(manager.running_count(), 1);
    assert_eq!(
        failures,
        vec![NexusError::SpawnError {
            path: "c.exe".to_string(),
            reason: "file not found".to_string()
        }]
    );
    assert_eq!(
        manager.executables(),
        &vec![
            Executable { path: "a.exe".to_string(), launch_on_startup: true, is_running: true },
            stored("b.exe", false),
            stored("c.exe", true),
        ]
    );
}

#[test]
fn load_goes_on_after_a_first_launch_that_failed() {
    let file = StoreFile::Entries(vec![stored("a.exe", true), stored("b.exe", true)]);
    let mut manager = ExeManager::new(file).unwrap();
    let failures = load(&mut manager, &[Err("denied".to_string()), Ok(())]);
    assert_eq!(failures.len(), 1);
    assert!(!manager.is_running("a.exe"));
    assert!(manager.is_running("b.exe"));
    assert_eq!(manager.running_count(), 1);
}

#[test]
fn load_launches_nothing_without_flagged_entries() {
    let file = StoreFile::Entries(vec![stored("a.exe", false), stored("b.exe", false)]);
    let mut manager = ExeManager::new(file).unwrap();
    assert!(load(&mut manager, &[]).is_empty());
    assert_eq!(manager.running_count(), 0);
}

#[test]
fn load_refuses_the_second_of_two_equal_paths() {
    let file = StoreFile::Entries(vec![stored("a.exe", true), stored("a.exe", true)]);
    let mut manager = ExeManager::new(file).unwrap();
    let failures = load(&mut manager, &[Ok(()), Ok(())]);
    assert_eq!(failures, vec![NexusError::AlreadyRunning("a.exe".to_string())]);
    assert_eq!(manager.running_count(), 1);
}

#[test]
fn load_stops_where_the_answers_end() {
    let file = StoreFile::Entries(vec![stored("a.exe", true), stored("b.exe", true)]);
    let mut manager = ExeManager::new(file).unwrap();
    assert!(load(&mut manager, &[Ok(())]).is_empty());
    assert!(manager.is_running("a.exe"));
    assert!(!manager.is_running("b.exe"));
}

#[test]
fn launch_each_records_every_attempt() {
    let mut manager = ExeManager::new(StoreFile::Missing).unwrap();
    manager.add_exe("a.exe".to_string()).unwrap();
    let paths = vec!["a.exe".to_string(), "x.exe".to_string(), "a.exe".to_string()];
    let failures =
        manager.launch_each(&paths, &[Err("busy".to_string()), Ok(()), Ok(())]);
    assert_eq!(
        failures,
        vec![NexusError::SpawnError { path: "a.exe".to_string(), reason: "busy".to_string() }]
    );
    assert!(manager.is_running("a.exe"));
    assert!(manager.is_running("x.exe"));
    assert_eq!(manager.running_count(), 2);
}

#[test]
fn unload_stops_everything() {
    let file = StoreFile::Entries(vec![stored("a.exe", true), stored("b.exe", true)]);
    let mut manager = ExeManager::new(file).unwrap();
    manager.launch_exe("a.exe", Ok(())).unwrap();
    manager.launch_exe("b.exe", Ok(())).unwrap();
    let kills = vec![
        KillOutcome { path: "a.exe".to_string(), result: Ok(()) },
        KillOutcome { path: "b.exe".to_string(), result: Ok(()) },
    ];
    assert_eq!(unload(&mut manager, &kills), Ok(()));
    assert_eq!(manager.running_count(), 0);
    assert!(!manager.is_running("a.exe"));
    assert!(!manager.is_running("b.exe"));
}

#[test]
fn unload_reports_the_refused_kills_and_still_stops_everything() {
    let file = StoreFile::Entries(vec![stored("a.exe", true), stored("b.exe", true)]);
    let mut manager = ExeManager::new(file).unwrap();
    manager.launch_exe("a.exe", Ok(())).unwrap();
    manager.launch_exe("b.exe", Ok(())).unwrap();
    let kills = vec![
        KillOutcome { path: "a.exe".to_string(), result: Err("access denied".to_string()) },
        KillOutcome { path: "b.exe".to_string(), result: Ok(()) },
    ];
    assert_eq!(
        unload(&mut manager, &kills),
        Err(NexusError::PartialStopFailure(vec![StopFailure {
            path: "a.exe".to_string(),
            reason: "access denied".to_string()
        }]))
    );
    assert_eq!(manager.running_count(), 0);
    assert!(!manager.is_running("a.exe"));
    assert!(!manager.is_running("b.exe"));
}

#[test]
fn toggle_window_opens_a_closed_window() {
    assert!(toggle_window(false));
}

#[test]
fn toggle_window_closes_an_open_window() {
    assert!(!toggle_window(true));
}

#[test]
fn toggle_window_twice_gives_the_first_state() {
    assert!(!toggle_window(toggle_window(false)));
    assert!(toggle_window(toggle_window(true)));
}

#[test]
fn display_path_keeps_a_short_path() {
    assert_eq!(executable_runner::display_path("C:/Tools/a.exe"), "C:/Tools/a.exe");
    assert_eq!(executable_runner::display_path(""), "");
}

#[test]
fn display_path_keeps_a_path_of_fifty_characters() {
    let path = "a".repeat(50);
    assert_eq!(executable_runner::display_path(&path), path);
}

#[test]
fn display_path_shortens_a_path_of_fifty_one_characters() {
    let path = format!("abcd{}", "x".repeat(47));
    assert_eq!(executable_runner::display_path(&path), format!("...{}", "x".repeat(47)));
}

#[test]
fn display_path_shows_the_end_of_a_long_path() {
    let path = "C:/Program Files/Some Vendor/Some Product/bin/x64/release/tool.exe";
    let shown = executable_runner::display_path(path);
    assert_eq!(shown, "...me Vendor/Some Product/bin/x64/release/tool.exe");
    assert_eq!(shown.chars().count(), 50);
}

#[test]
fn display_path_counts_characters_not_bytes() {
    let path = format!("é{}", "ü".repeat(50));
    assert_eq!(executable_runner::display_path(&path), format!("...{}", "ü".repeat(47)));
}
