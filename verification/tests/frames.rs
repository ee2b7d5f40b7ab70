use portus_window::interaction::{bound_result_for_frame, trim_for_frame, InteractionResult, RESULT_BUDGET};
use portus_window::protocol::{ConsoleEntry, ConsoleLevel, ConsoleResult, MAX_FRAME_BYTES};
use portus_window::registry::{ActiveWindow, WindowRegistry};

fn entry(message: &str) -> ConsoleEntry {
    ConsoleEntry {
        level: ConsoleLevel::Error,
        message: message.to_string(),
        source: Some("https://example.com/script.js".to_string()),
        line: Some(1),
    }
}

fn status() -> ActiveWindow {
    let mut registry = WindowRegistry::default();
    let id = registry.next_id().unwrap();
    let mut window = registry.insert_opened_web(id, "https://example.com/".to_string(), None, None);
    window.url_history = Some(vec![
        "https://example.com/a".to_string(),
        "https://example.com/b".to_string(),
        "https://example.com/c".to_string(),
    ]);
    window.console_errors = vec![entry("e0"), entry("e1")];
    window
}

fn result() -> InteractionResult {
    InteractionResult {
        window_session_id: "wsess_00000000000000000000000000000001".to_string(),
        completed: true,
        actions: Vec::new(),
        post_status: Some(status()),
        console: Some(ConsoleResult {
            window_session_id: "wsess_00000000000000000000000000000001".to_string(),
            entries: vec![entry("0"), entry("1"), entry("2"), entry("3"), entry("4")],
            truncated: false,
        }),
        screenshot: None,
        post_errors: Vec::new(),
        output_truncated: true,
    }
}

fn console_len(r: &InteractionResult) -> usize {
    r.console.as_ref().map_or(0, |c| c.entries.len())
}

#[test]
fn result_budget_leaves_frame_headroom() {
    assert_eq!(RESULT_BUDGET, MAX_FRAME_BYTES - 1_024);
}

#[test]
fn a_fitting_result_is_kept_and_unmarked() {
    let bounded = bound_result_for_frame(result(), |_| true);
    assert!(!bounded.output_truncated);
    assert_eq!(console_len(&bounded), 5);
    assert_eq!(bounded.post_status.unwrap().console_errors.len(), 2);
}

#[test]
fn oldest_console_entries_go_first() {
    let bounded = bound_result_for_frame(result(), |r| console_len(r) <= 2);
    assert!(bounded.output_truncated);
    let console = bounded.console.unwrap();
    assert!(console.truncated);
    let messages: Vec<&str> = console.entries.iter().map(|e| e.message.as_str()).collect();
    assert_eq!(messages, vec!["3", "4"]);
    let status = bounded.post_status.unwrap();
    assert_eq!(status.console_errors.len(), 2);
    assert!(!status.console_errors_truncated);
}

#[test]
fn status_errors_then_history_go_before_the_console() {
    let bounded = bound_result_for_frame(result(), |r| r.console.is_none());
    assert!(bounded.output_truncated);
    let status = bounded.post_status.unwrap();
    assert!(status.console_errors.is_empty());
    assert!(status.console_errors_truncated);
    assert_eq!(status.url_history, Some(vec!["https://example.com/c".to_string()]));
    assert_eq!(status.url_history_truncated, Some(true));
}

#[test]
fn a_result_that_never_fits_loses_console_and_status() {
    let bounded = bound_result_for_frame(result(), |_| false);
    assert!(bounded.output_truncated);
    assert!(bounded.console.is_none());
    assert!(bounded.post_status.is_none());
    assert_eq!(bounded.window_session_id, "wsess_00000000000000000000000000000001");
    assert!(bounded.completed);
}

#[test]
fn trimming_an_empty_result_changes_nothing() {
    let mut r = result();
    r.console = None;
    r.post_status = None;
    r.output_truncated = false;
    assert!(!trim_for_frame(&mut r));
    assert!(!r.output_truncated);
}
