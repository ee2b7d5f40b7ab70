use portus_window::authority::AuthGrantTarget;
use portus_window::database::PersistenceError;
use portus_window::dispatch::{
    apply_grant_target, bounded_interaction_message, grant_target_of, interaction_post_error,
    manager_error, manager_error_message, select_windows, window_auth_domain, window_for_domain,
    DaemonSelecting, WindowSelection,
};
use portus_window::ipc::{
    check_request_version, decode_failure_response, end_of_stream, read_failure_response,
    sanitize_pipe_name, FrameReadError,
};
use portus_window::protocol::{
    AuthSessionAction, AuthSessionTarget, ErrorCode, FrameError, InteractionPostErrorCode,
};
use portus_window::registry::{ActiveWindow, WindowRegistry};
use portus_window::web_profile::WebProfileError;
use portus_window::web_video::WebVideoError;
use portus_window::window_core::WindowCoreError;
use portus_window::window_manager::WindowManagerError;
use portus_window::workspace::WorkspaceError;

fn web_window(url: &str) -> ActiveWindow {
    let mut registry = WindowRegistry::default();
    let id = registry.next_id().unwrap();
    registry.insert_opened_web(id, url.to_string(), None, None)
}

#[test]
fn manager_errors_map_to_stable_codes_and_messages() {
    let not_found = manager_error(WindowManagerError::Core(WindowCoreError::TargetNotFound("docs".to_string())));
    assert_eq!(not_found.code, ErrorCode::TargetNotFound);
    assert_eq!(not_found.message, "target 'docs' was not found");
    let ambiguous = manager_error(WindowManagerError::Core(WindowCoreError::TargetAmbiguous("x".to_string())));
    assert_eq!(ambiguous.code, ErrorCode::TargetAmbiguous);
    assert_eq!(ambiguous.message, "target 'x' matches multiple active windows");
    let full = manager_error(WindowManagerError::Core(WindowCoreError::CapacityExhausted));
    assert_eq!((full.code, full.message.as_str()), (ErrorCode::WindowOperationFailed, "window capacity exhausted"));
    let workspace = manager_error(WindowManagerError::Workspace(WorkspaceError::InvalidWorkspace("9".to_string())));
    assert_eq!((workspace.code, workspace.message.as_str()), (ErrorCode::InvalidWorkspace, "workspace target '9' is invalid"));
    let display = manager_error(WindowManagerError::Workspace(WorkspaceError::DisplayUnavailable("no DISPLAY".to_string())));
    assert_eq!(display.code, ErrorCode::DisplayUnavailable);
    assert_eq!(display.message, "X11 display is unavailable: no DISPLAY");
    let worker = manager_error(WindowManagerError::Persistence(PersistenceError::WorkerUnavailable));
    assert_eq!((worker.code, worker.message.as_str()), (ErrorCode::PersistenceFailed, "persistence service worker is unavailable"));
    let video = manager_error(WindowManagerError::WebVideo(WebVideoError::Service("down".to_string())));
    assert_eq!((video.code, video.message.as_str()), (ErrorCode::WebVideoFailed, "web-video service failed: down"));
    let profile = manager_error(WindowManagerError::WebProfile(WebProfileError::Storage("disk".to_string())));
    assert_eq!((profile.code, profile.message.as_str()), (ErrorCode::Internal, "web profile storage operation failed: disk"));
    let shot = manager_error(WindowManagerError::Screenshot("failed".to_string()));
    assert_eq!(shot.code, ErrorCode::ScreenshotFailed);
    assert_eq!(shot.code.exit_code(), 6);
}

#[test]
fn window_targets_resolve_to_the_domain_of_their_url() {
    let target = window_auth_domain(&web_window("https://Example.COM/path")).unwrap();
    assert_eq!(target.requested_domain(), "example.com");
    let mut moved = web_window("https://example.com/");
    moved.current_url = Some("https://www.youtube.com/watch?v=x".to_string());
    assert_eq!(window_auth_domain(&moved).unwrap().requested_domain(), "www.youtube.com");
    let address = window_auth_domain(&web_window("http://127.0.0.1:8080/")).unwrap_err();
    assert_eq!(address.code, ErrorCode::ValidationFailed);
    assert_eq!(
        address.message,
        "authenticated-session domain must be a DNS hostname, not an IP address or single-label local host"
    );
    let hostless = window_auth_domain(&web_window("not a url")).unwrap_err();
    assert_eq!(hostless.message, "authenticated-session window target has no usable web domain");
}

#[test]
fn apply_commands_name_their_grant() {
    let domain = AuthSessionAction::Apply {
        target: AuthSessionTarget::Domain { domain: "Example.com".to_string() },
        window_session_id: "wsess_0123456789abcdef0123456789abcdef".to_string(),
    };
    assert_eq!(
        apply_grant_target(&domain).unwrap().unwrap(),
        AuthGrantTarget::Domain("example.com".to_string())
    );
    let window = AuthSessionAction::Apply {
        target: AuthSessionTarget::Window { window_session_id: "wsess_00000000000000000000000000000001".to_string() },
        window_session_id: "wsess_00000000000000000000000000000001".to_string(),
    };
    let elsewhere = AuthSessionAction::Apply {
        target: AuthSessionTarget::Window { window_session_id: "wsess_00000000000000000000000000000001".to_string() },
        window_session_id: "wsess_0123456789abcdef0123456789abcdef".to_string(),
    };
    assert_eq!(
        apply_grant_target(&elsewhere).unwrap().unwrap_err().message,
        "authenticated-session window target must use the exact wsess_<32-lowercase-hex> identity format"
    );
    assert_eq!(
        apply_grant_target(&window).unwrap().unwrap(),
        AuthGrantTarget::Window("wsess_00000000000000000000000000000001".to_string())
    );
    let bad = AuthSessionAction::Apply {
        target: AuthSessionTarget::Domain { domain: "example.com".to_string() },
        window_session_id: "window-7".to_string(),
    };
    let refused = apply_grant_target(&bad).unwrap().unwrap_err();
    assert_eq!(refused.code, ErrorCode::ValidationFailed);
    let status = AuthSessionAction::Status {
        target: AuthSessionTarget::Window { window_session_id: "wsess_00000000000000000000000000000001".to_string() },
    };
    assert!(apply_grant_target(&status).is_none());
    assert_eq!(
        window_for_domain(&status).map(String::as_str),
        Some("wsess_00000000000000000000000000000001")
    );
    assert!(window_for_domain(&domain).is_none());
    assert_eq!(
        grant_target_of(&AuthSessionTarget::Domain { domain: "example.com".to_string() }),
        AuthGrantTarget::Domain("example.com".to_string())
    );
}

#[test]
fn unreadable_frames_and_foreign_versions_are_answered() {
    let too_large = read_failure_response(FrameReadError::TooLarge).unwrap();
    assert_eq!(too_large.code, ErrorCode::FrameTooLarge);
    assert_eq!(too_large.message, "request exceeded the 65536-byte frame limit");
    let empty = read_failure_response(end_of_stream(0)).unwrap();
    assert_eq!((empty.code, empty.message.as_str()), (ErrorCode::ValidationFailed, "request frame was empty"));
    let open = read_failure_response(end_of_stream(12)).unwrap();
    assert_eq!(open.message, "request frame was not newline terminated");
    let slow = read_failure_response(FrameReadError::Timeout).unwrap();
    assert_eq!((slow.code, slow.message.as_str()), (ErrorCode::Timeout, "request frame read timed out"));
    let io = std::io::Error::new(std::io::ErrorKind::BrokenPipe, "gone");
    assert_eq!(read_failure_response(FrameReadError::Io(io)).unwrap_err().kind(), std::io::ErrorKind::BrokenPipe);

    let bad_json = decode_failure_response(FrameError::InvalidJson("expected value".to_string()));
    assert_eq!(bad_json.code, ErrorCode::ValidationFailed);
    assert_eq!(bad_json.message, "could not decode request: payload is invalid JSON: expected value");
    let huge = decode_failure_response(FrameError::TooLarge { actual: 70000, maximum: 65536 });
    assert_eq!((huge.code, huge.message.as_str()), (ErrorCode::FrameTooLarge, "request frame was too large"));

    assert!(check_request_version(7).is_ok());
    let old = check_request_version(5).unwrap_err();
    assert_eq!(old.code, ErrorCode::VersionMismatch);
    assert_eq!(old.message, "protocol version 5 is unsupported; expected 7");
}

#[test]
fn socket_paths_name_windows_pipes() {
    assert_eq!(sanitize_pipe_name("\\\\.\\pipe\\custom", Some("custom")), "\\\\.\\pipe\\custom");
    assert_eq!(sanitize_pipe_name("C:\\temp\\portus.sock", Some("portus.sock")), "\\\\.\\pipe\\portus.sock");
    assert_eq!(sanitize_pipe_name("", None), "\\\\.\\pipe\\portus-window");
}

#[test]
fn follow_up_failures_are_reported_with_bounded_text() {
    let error = WindowManagerError::Core(WindowCoreError::TargetNotFound("docs".to_string()));
    assert_eq!(manager_error_message(error), "target not found: docs");
    assert_eq!(
        manager_error_message(WindowManagerError::Persistence(PersistenceError::WorkerUnavailable)),
        "persistence worker is unavailable"
    );
    let post = interaction_post_error(
        InteractionPostErrorCode::ScreenshotFailed,
        WindowManagerError::Screenshot("x".repeat(2000)),
    );
    assert_eq!(post.code, InteractionPostErrorCode::ScreenshotFailed);
    assert_eq!(post.message.chars().count(), 1024);
    assert!(post.message.starts_with("screenshot failed: xxx"));
    assert_eq!(bounded_interaction_message("short".to_string()), "short");
    assert_eq!(bounded_interaction_message("é".repeat(1500)).chars().count(), 1024);
}

#[test]
fn daemon_selection_takes_all_or_a_target() {
    assert_eq!(select_windows(DaemonSelecting::Tag, None, true).unwrap(), WindowSelection::All);
    assert_eq!(
        select_windows(DaemonSelecting::Console, Some("docs".to_string()), true).unwrap(),
        WindowSelection::All
    );
    assert_eq!(
        select_windows(DaemonSelecting::Media, Some("docs".to_string()), false).unwrap(),
        WindowSelection::Target("docs".to_string())
    );
    let both = select_windows(DaemonSelecting::Close, Some("docs".to_string()), true).unwrap_err();
    assert_eq!(both.code, ErrorCode::ValidationFailed);
    assert_eq!(both.message, "close accepts either target or --all, not both");
    let neither = select_windows(DaemonSelecting::Screenshot, None, false).unwrap_err();
    assert_eq!(neither.code, ErrorCode::ValidationFailed);
    assert_eq!(neither.message, "screenshot requires either target or --all");
    let close = select_windows(DaemonSelecting::Close, None, false).unwrap_err();
    assert_eq!(close.message, "close requires either target or --all");
}
