use portus_window::authority::{dispatch_action, AuthGrantTarget, AuthenticatedSessionAuthority};
use portus_window::cli::{
    absolute_utf8_path, check_global_timeout, check_interaction_action_count,
    check_interaction_timeout, check_open_batch, check_selection, geometry_for,
    history_request_for, resize_workspace_for, tag_request_for, window_state_for, CurrentDir,
    SelectingCommand,
};
use portus_window::consent::{
    consent_overlay_removal_script, consent_overlay_script, AuthConsentError, ConsentBook,
};
use portus_window::protocol::{
    check_response_version, frame_progress, interaction_exit_code, AuthSessionAction,
    AuthSessionScope, AuthSessionTarget, BrowserKind, ErrorCode, FrameProgress,
    InteractionActionKind, InteractionStepCode, InteractionStepResult, WindowStateAction,
    WorkspaceTarget, MAX_FRAME_BYTES, PROTOCOL_VERSION,
};
use portus_window::urls::WebUrl;
use portus_window::video_service::{
    route_video_request, validate_web_video_navigation, VideoRequest, WebVideoRegistry,
};
use portus_window::web_video::YouTubeVideo;

fn video() -> YouTubeVideo {
    YouTubeVideo::parse(&WebUrl::parse("https://www.youtube.com/watch?v=M7lc1UVf-VE").unwrap())
        .unwrap()
}

#[test]
fn authority_registers_and_revokes_windows() {
    let window = "wsess_00000000000000000000000000000001";
    let mut registry = WebVideoRegistry::new();
    let reg = registry.register(window, video(), 43123).unwrap();
    assert_eq!(reg.view_url.scheme(), "http");
    assert_eq!(reg.view_url.host_str().as_deref(), Some("127.0.0.1"));
    assert_eq!(reg.token.len(), 32);
    assert!(!registry.is_authenticated_embed(window).unwrap());

    registry.enable_authenticated_embed(window, 43123).unwrap();
    assert!(registry.is_authenticated_embed(window).unwrap());

    registry.disable_authenticated_embed(window, 43123).unwrap();
    assert!(!registry.is_authenticated_embed(window).unwrap());

    assert!(registry.contains_window(window));
    assert!(registry.revoke_window(window));
    assert!(!registry.contains_window(window));
}

#[test]
fn one_presentation_per_window_and_pages_by_token() {
    let window = "wsess_00000000000000000000000000000001";
    let mut registry = WebVideoRegistry::new();
    let reg = registry.register_authenticated(window, video(), 8080).unwrap();
    assert!(reg.embed_url.starts_with("https://www.youtube.com/embed/M7lc1UVf-VE?"));
    assert!(registry.register(window, video(), 8080).is_err());
    let page = registry.page_for_token(&reg.token).unwrap();
    assert_eq!(page.embed_url, reg.embed_url);
    assert!(registry.page_for_token("missing").is_none());
    let view = registry.view_url_for_window(window, 8080).unwrap();
    assert_eq!(view.as_string(), format!("http://127.0.0.1:8080/{}/view", reg.token));
    assert!(registry.view_url_for_window("wsess_ffffffffffffffffffffffffffffffff", 8080).is_err());
    assert!(validate_web_video_navigation(&view, &view));
    let other = WebUrl::parse("http://127.0.0.1:9090/x/view").unwrap();
    assert!(!validate_web_video_navigation(&other, &view));
    assert!(registry.enable_authenticated_embed("wsess_ffffffffffffffffffffffffffffffff", 1).is_err());
}

#[test]
fn request_lines_route_to_pages() {
    assert_eq!(
        route_video_request("GET /abc/view HTTP/1.1\r\n"),
        VideoRequest::View { token: "abc".to_string(), head_only: false }
    );
    assert_eq!(
        route_video_request("HEAD //abc/view HTTP/1.1"),
        VideoRequest::View { token: "abc".to_string(), head_only: true }
    );
    assert_eq!(
        route_video_request("GET /abc/other HTTP/1.1"),
        VideoRequest::NotFound { head_only: false }
    );
    assert_eq!(route_video_request("POST /abc/view HTTP/1.1"), VideoRequest::MethodNotAllowed);
    assert_eq!(route_video_request("GET"), VideoRequest::BadRequest);
    assert_eq!(route_video_request("   "), VideoRequest::BadRequest);
}

fn pending_window_grant(authority: &mut AuthenticatedSessionAuthority) -> AuthGrantTarget {
    dispatch_action(
        authority,
        &AuthSessionAction::Request {
            target: AuthSessionTarget::Domain { domain: "example.com".to_string() },
            browser: BrowserKind::Firefox,
            scope: AuthSessionScope::Session,
            reason: None,
            presentation_window_session_id: Some(
                "wsess_0123456789abcdef0123456789abcdef".to_string(),
            ),
        },
        None,
    )
    .unwrap();
    AuthGrantTarget::Domain("example.com".to_string())
}

#[test]
fn consent_decisions_come_only_from_the_presenting_window() {
    let mut authority = AuthenticatedSessionAuthority::new();
    let key = pending_window_grant(&mut authority);
    let mut book = ConsentBook::new();
    let (grant, window) = book.prepare_presentation(&authority, &key).unwrap().unwrap();
    assert_eq!(window, "wsess_0123456789abcdef0123456789abcdef");
    let token = book.record(key.clone(), grant);
    assert!(book.prepare_presentation(&authority, &key).unwrap().is_none());

    assert!(!book.decide_for_window(&mut authority, &token, "wsess_ffffffffffffffffffffffffffffffff", true));
    assert!(authority.pending_grant(&key).is_some());
    assert!(book.decide_for_window(&mut authority, &token, &window, true));
    assert_eq!(authority.grant(&key).map(|g| g.domain), Some("example.com".to_string()));
    assert!(authority.pending_grant(&key).is_none());
    assert!(!book.decide_for_window(&mut authority, &token, &window, true));
    assert!(matches!(
        book.prepare_presentation(&authority, &key),
        Err(AuthConsentError::NotPending)
    ));
}

#[test]
fn closing_a_window_denies_its_prompts() {
    let mut authority = AuthenticatedSessionAuthority::new();
    let key = pending_window_grant(&mut authority);
    let mut book = ConsentBook::new();
    let (grant, window) = book.prepare_presentation(&authority, &key).unwrap().unwrap();
    let token = book.record(key.clone(), grant);
    book.cancel_window(&mut authority, &window);
    assert!(book.remove_record(&token).is_none());
    assert!(authority.pending_grant(&key).is_none());
    assert!(authority.grant(&key).is_some());
    assert!(authority.authorize(&key).is_err());
}

#[test]
fn cli_state_flags_pick_the_first_set() {
    assert_eq!(window_state_for(true, true, false, false), Some(WindowStateAction::Maximize));
    assert_eq!(window_state_for(false, true, true, false), Some(WindowStateAction::Minimize));
    assert_eq!(window_state_for(false, false, true, true), Some(WindowStateAction::Restore));
    assert_eq!(window_state_for(false, false, false, true), Some(WindowStateAction::Fullscreen));
    assert_eq!(window_state_for(false, false, false, false), None);
}

#[test]
fn cli_geometry_and_resize_requests() {
    assert_eq!(geometry_for(None, None, None, None, None, None, None).unwrap(), None);
    let geometry = geometry_for(Some(800), None, None, Some(5), None, Some(true), Some("2"))
        .unwrap()
        .unwrap();
    assert_eq!(geometry.width, Some(800));
    assert_eq!(geometry.y, Some(5));
    assert_eq!(geometry.workspace, Some(WorkspaceTarget::Index { index: 2 }));
    assert!(geometry_for(None, None, None, None, None, None, Some("  ")).is_err());
    assert_eq!(
        resize_workspace_for(None, None, None, None, None, None, None),
        Err("resize requires at least one operation".to_string())
    );
    assert_eq!(
        resize_workspace_for(Some(1200), None, None, None, None, None, Some("Code")).unwrap(),
        Some(WorkspaceTarget::Name { name: "Code".to_string() })
    );
}

#[test]
fn cli_tag_history_and_batch_rules() {
    assert_eq!(
        tag_request_for(&Some("w".to_string()), &Some("docs".to_string()), false).unwrap(),
        (Some("w".to_string()), "docs".to_string())
    );
    assert_eq!(
        tag_request_for(&Some("docs".to_string()), &None, true).unwrap(),
        (None, "docs".to_string())
    );
    assert!(tag_request_for(&Some("docs".to_string()), &Some("x".to_string()), true).is_err());
    assert!(tag_request_for(&None, &Some("x".to_string()), false).is_err());
    assert!(tag_request_for(&Some("w".to_string()), &Some("y".repeat(257)), false).is_err());
    assert!(history_request_for(&Some("q".to_string()), true).is_err());
    assert_eq!(history_request_for(&None, true).unwrap(), None);
    assert!(check_interaction_timeout(99).is_err());
    assert!(check_interaction_timeout(100).is_ok());
    assert!(check_interaction_timeout(60_001).is_err());
    assert!(check_open_batch(&[]).is_err());
    assert!(check_open_batch(&[false, true]).is_err());
    assert!(check_open_batch(&[false; 32]).is_ok());
    assert!(check_open_batch(&[false; 33]).is_err());
}

#[test]
fn cli_paths_are_made_absolute() {
    let cwd = CurrentDir::Path("/work/".to_string());
    assert_eq!(absolute_utf8_path("out.png", "screenshot output", &cwd).unwrap(), "/work/out.png");
    assert_eq!(absolute_utf8_path("/tmp/a.png", "screenshot output", &cwd).unwrap(), "/tmp/a.png");
    assert_eq!(
        absolute_utf8_path("", "screenshot output", &cwd),
        Err("screenshot output path must not be empty".to_string())
    );
    assert_eq!(
        absolute_utf8_path("a.png", "record output", &CurrentDir::Unavailable("gone".to_string())),
        Err("could not resolve current directory: gone".to_string())
    );
}

#[test]
fn selecting_commands_need_exactly_one_target_or_all() {
    assert!(check_selection(SelectingCommand::Console, true, false).is_ok());
    assert!(check_selection(SelectingCommand::Console, false, true).is_ok());
    assert_eq!(
        check_selection(SelectingCommand::Screenshot, false, false),
        Err("screenshot requires either target or --all".to_string())
    );
    assert_eq!(
        check_selection(SelectingCommand::Media, true, true),
        Err("media requires either target or --all".to_string())
    );
    assert_eq!(
        check_selection(SelectingCommand::Close, true, true),
        Err("close requires exactly one target or --all".to_string())
    );
}

#[test]
fn interaction_timeouts_and_action_counts_are_bounded() {
    assert!(check_global_timeout(5000, 4000).is_ok());
    assert_eq!(
        check_global_timeout(4000, 4000),
        Err("global --timeout-ms (4000) must be greater than --interaction-timeout-ms (4000)".to_string())
    );
    assert_eq!(
        check_interaction_action_count(0),
        Err("interact requires at least one --action JSON object".to_string())
    );
    assert!(check_interaction_action_count(32).is_ok());
    assert_eq!(
        check_interaction_action_count(33),
        Err("interact accepts at most 32 ordered --action values".to_string())
    );
}

fn step(ok: bool, code: InteractionStepCode) -> InteractionStepResult {
    InteractionStepResult {
        index: 0,
        kind: InteractionActionKind::Click,
        selector: Some("#go".to_string()),
        ok,
        code,
        message: None,
        elapsed_ms: 3,
    }
}

#[test]
fn incomplete_interactions_get_their_own_exit_statuses() {
    let timed_out = vec![step(true, InteractionStepCode::Succeeded), step(false, InteractionStepCode::Timeout)];
    let failed = vec![step(false, InteractionStepCode::SelectorNotFound)];
    assert_eq!(interaction_exit_code(true, &timed_out, 0), 0);
    assert_eq!(interaction_exit_code(false, &timed_out, 0), 5);
    assert_eq!(interaction_exit_code(false, &failed, 0), 6);
    assert_eq!(interaction_exit_code(false, &[], 0), 6);
}

#[test]
fn daemon_answers_in_another_version_are_refused() {
    assert!(check_response_version(7).is_ok());
    let error = check_response_version(6).unwrap_err();
    assert_eq!(error.code, ErrorCode::VersionMismatch);
    assert_eq!(error.message, "daemon response uses protocol version 6; expected 7");
    assert_eq!(error.code.exit_code(), 2);
}

#[test]
fn frames_are_read_until_newline_or_limit() {
    assert_eq!(frame_progress(b"{\"status\""), FrameProgress::More);
    assert_eq!(frame_progress(b"{}\n"), FrameProgress::Complete);
    assert_eq!(frame_progress(&vec![b'a'; MAX_FRAME_BYTES + 1]), FrameProgress::TooLong);
    assert_eq!(frame_progress(&vec![b'a'; MAX_FRAME_BYTES]), FrameProgress::More);
}

#[test]
fn consent_overlay_scripts_quote_the_token_and_embed_the_request() {
    let script = consent_overlay_script("abc\"def", "{\"domain\":\"example.com\"}");
    assert!(script.starts_with(
        "(() => {\nconst ID=\"__portus_auth_consent_overlay\";\nconst token=\"abc\\\"def\";\nconst data={\"domain\":\"example.com\"};\n"
    ));
    assert!(script.contains("'portus-consent://'+(value?'approve':'deny')+'?token='+encodeURIComponent(token)"));
    assert!(script.ends_with("})();"));
    assert_eq!(
        consent_overlay_removal_script(),
        "document.getElementById(\"__portus_auth_consent_overlay\")?.remove();document.getElementById(\"__portus_auth_consent_overlay\"+'-style')?.remove();"
    );
}

#[test]
fn mismatched_daemon_response_version_is_rejected() {
    let error = check_response_version(PROTOCOL_VERSION + 1).unwrap_err();
    assert_eq!(error.code, ErrorCode::VersionMismatch);
    assert_eq!(error.code.exit_code(), 2);
}

#[test]
fn lower_daemon_response_version_is_rejected() {
    let error = check_response_version(PROTOCOL_VERSION - 1).unwrap_err();
    assert_eq!(error.code, ErrorCode::VersionMismatch);
    assert_eq!(error.code.exit_code(), 2);
}

#[test]
fn incomplete_interaction_results_use_stable_nonzero_cli_exits() {
    let timed_out = vec![InteractionStepResult {
        index: 0,
        kind: InteractionActionKind::WaitForSelector,
        selector: Some("#elem".to_string()),
        ok: false,
        code: InteractionStepCode::Timeout,
        elapsed_ms: 4_000,
        message: Some("timeout".to_string()),
    }];
    assert_eq!(interaction_exit_code(false, &timed_out, 0), 5);

    let failed = vec![InteractionStepResult {
        index: 0,
        kind: InteractionActionKind::CheckSelector,
        selector: Some("#elem".to_string()),
        ok: false,
        code: InteractionStepCode::SelectorNotFound,
        elapsed_ms: 1,
        message: Some("failed".to_string()),
    }];
    assert_eq!(interaction_exit_code(false, &failed, 0), 6);
}
