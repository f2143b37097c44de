use executable_runner::text::{blank, decimal, whitespace};
use executable_runner::{NexusError, StopFailure};

#[test]
fn message_of_invalid_input() {
    assert_eq!(
        NexusError::InvalidInput.message(),
        "File operation error: Cannot add empty executable path"
    );
}

#[test]
fn message_of_index_out_of_range() {
    assert_eq!(
        NexusError::IndexOutOfRange { index: 12, len: 3 }.message(),
        "File operation error: Invalid index 12 for exe list of length 3"
    );
}

#[test]
fn message_of_already_running() {
    assert_eq!(
        NexusError::AlreadyRunning("a.exe".to_string()).message(),
        "Process launch error: Process is already running: a.exe"
    );
}

#[test]
fn message_of_not_running() {
    assert_eq!(
        NexusError::NotRunning("a.exe".to_string()).message(),
        "Process stop error: Process is not running: a.exe"
    );
}

#[test]
fn message_of_spawn_error() {
    let error =
        NexusError::SpawnError { path: "a.exe".to_string(), reason: "file not found".to_string() };
    assert_eq!(error.message(), "Process launch error: Failed to launch a.exe: file not found");
}

#[test]
fn message_of_kill_error() {
    let error =
        NexusError::KillError { path: "a.exe".to_string(), reason: "access denied".to_string() };
    assert_eq!(error.message(), "Process stop error: Failed to stop a.exe: access denied");
}

#[test]
fn message_of_partial_stop_failure_joins_the_lines() {
    let error = NexusError::PartialStopFailure(vec![
        StopFailure { path: "a.exe".to_string(), reason: "access denied".to_string() },
        StopFailure { path: "b.exe".to_string(), reason: "gone".to_string() },
        StopFailure { path: "c.exe".to_string(), reason: "busy".to_string() },
    ]);
    assert_eq!(
        error.message(),
        "Process stop error: Failed to stop some processes: Failed to stop a.exe: access denied, \
         Failed to stop b.exe: gone, Failed to stop c.exe: busy"
    );
}

#[test]
fn message_of_partial_stop_failure_with_one_line() {
    let error = NexusError::PartialStopFailure(vec![StopFailure {
        path: "a.exe".to_string(),
        reason: "access denied".to_string(),
    }]);
    assert_eq!(
        error.message(),
        "Process stop error: Failed to stop some processes: Failed to stop a.exe: access denied"
    );
}

#[test]
fn message_of_persistence_error() {
    assert_eq!(
        NexusError::PersistenceError("Failed to save exe list: disk full".to_string()).message(),
        "File operation error: Failed to save exe list: disk full"
    );
}

#[test]
fn stop_failure_line() {
    let failure = StopFailure { path: "a.exe".to_string(), reason: "gone".to_string() };
    assert_eq!(failure.line(), "Failed to stop a.exe: gone");
}

#[test]
fn decimal_of_small_and_large_numbers() {
    assert_eq!(decimal(0), "0");
    assert_eq!(decimal(7), "7");
    assert_eq!(decimal(10), "10");
    assert_eq!(decimal(409), "409");
    assert_eq!(decimal(1234567890), "1234567890");
    assert_eq!(decimal(usize::MAX), usize::MAX.to_string());
}

#[test]
fn blank_texts() {
    assert!(blank(""));
    assert!(blank(" "));
    assert!(blank("   "));
    assert!(blank("\t\r\n"));
    assert!(blank("\u{85}\u{a0}\u{1680}\u{2000}\u{200a}\u{2028}\u{2029}\u{202f}\u{205f}\u{3000}"));
}

#[test]
fn texts_that_are_not_blank() {
    assert!(!blank("a"));
    assert!(!blank("  a  "));
    assert!(!blank("\u{200b}"));
    assert!(!blank(" \u{feff}"));
    assert!(!blank("\u{1c}"));
}

#[test]
fn blank_agrees_with_trimming() {
    let samples = ["", " ", "x", " x ", "\u{b}\u{c}", "\u{2007}", "\u{180e}", "\u{0}", "\u{2060}"];
    for sample in samples {
        assert_eq!(blank(sample), sample.trim().is_empty());
    }
}

#[test]
fn whitespace_agrees_with_the_standard_library() {
    let mut code: u32 = 0;
    while code <= 0x3100 {
        if let Some(c) = char::from_u32(code) {
            assert_eq!(whitespace(c), c.is_whitespace());
        }
        code += 1;
    }
}
