use portus_window::database::{apply_config_action, schema_state_from_reads, urls_to_json, workspaces_to_json};
use portus_window::cli::{
    classify_open_source, config_action_for, history_query_for, validate_interaction_action_cli,
    validate_profile_name, workspace_target_for, CurrentDir,
};
use portus_window::database::{
    bool_int, close_reason_str, content_kind_str, format_timestamp, history_matches,
    inspect_database_schema, lowercase_query, parse_close_reason, parse_content_kind,
    parse_source_kind, parse_stored_config, retention_cutoff, schema_state_for, source_kind_str,
    validate_config_action, validate_history_query, ActiveSession, DatabaseSchemaState,
    plan_config_change, retention_value, ConfigChange, PersistenceError, SessionObservation,
    DATABASE_SCHEMA_VERSION,
};
use portus_window::interaction::validate_request;
use portus_window::protocol::{
    CloseReason, ConfigAction, Configuration, ContentKind, ErrorCode, HistoricalWindow,
    InteractionAction, OpenSource, SourceKind, WorkspaceTarget, MAX_INTERACTION_TIMEOUT_MS,
};
use rusqlite::Connection;
use tempfile::TempDir;

fn assert_unsupported_schema_is_untouched(version: i64) {
    let dir = TempDir::new().unwrap();
    let path = dir.path().join("history.sqlite3");
    let conn = Connection::open(&path).unwrap();
    conn.execute_batch(
        "CREATE TABLE marker (value TEXT NOT NULL);
         INSERT INTO marker(value) VALUES('preserve-me');",
    )
    .unwrap();
    conn.pragma_update(None, "user_version", version).unwrap();
    let journal_mode_before: String = conn
        .pragma_query_value(None, "journal_mode", |row| row.get(0))
        .unwrap();
    drop(conn);

    let conn = Connection::open(&path).unwrap();
    assert!(matches!(
        inspect_database_schema(&conn),
        Err(PersistenceError::Storage(message))
            if message.contains("unsupported")
                && message.contains(&DATABASE_SCHEMA_VERSION.to_string())
    ));
    drop(conn);

    let conn = Connection::open(path).unwrap();
    let version_after: i64 = conn
        .pragma_query_value(None, "user_version", |row| row.get(0))
        .unwrap();
    let journal_mode_after: String = conn
        .pragma_query_value(None, "journal_mode", |row| row.get(0))
        .unwrap();
    let marker: String = conn
        .query_row("SELECT value FROM marker", [], |row| row.get(0))
        .unwrap();
    assert_eq!(version_after, version);
    assert_eq!(journal_mode_after, journal_mode_before);
    assert_eq!(marker, "preserve-me");
}

#[test]
fn unsupported_nonzero_schema_versions_are_rejected_without_mutation() {
    for version in [1, 2, DATABASE_SCHEMA_VERSION + 1] {
        assert_unsupported_schema_is_untouched(version);
    }
}

#[test]
fn schema_v1_is_rejected_without_mutation() {
    assert_unsupported_schema_is_untouched(1);
}

#[test]
fn schema_v2_is_rejected_without_mutation() {
    assert_unsupported_schema_is_untouched(2);
}

#[test]
fn future_schema_is_rejected_without_mutation() {
    assert_unsupported_schema_is_untouched(DATABASE_SCHEMA_VERSION + 1);
}

#[test]
fn nonempty_unversioned_database_is_rejected_without_adoption() {
    let dir = TempDir::new().unwrap();
    let path = dir.path().join("history.sqlite3");
    let conn = Connection::open(&path).unwrap();
    conn.execute_batch(
        "CREATE TABLE marker (value TEXT NOT NULL);
         INSERT INTO marker(value) VALUES('preserve-me');",
    )
    .unwrap();
    assert!(matches!(
        inspect_database_schema(&conn),
        Err(PersistenceError::Storage(message))
            if message.contains("unversioned") && message.contains("not empty")
    ));
    let version: i64 = conn
        .pragma_query_value(None, "user_version", |row| row.get(0))
        .unwrap();
    assert_eq!(version, 0);
}

#[test]
fn empty_and_current_databases_are_accepted() {
    let conn = Connection::open_in_memory().unwrap();
    assert_eq!(inspect_database_schema(&conn).unwrap(), DatabaseSchemaState::Fresh);
    conn.pragma_update(None, "user_version", DATABASE_SCHEMA_VERSION).unwrap();
    assert_eq!(inspect_database_schema(&conn).unwrap(), DatabaseSchemaState::Current);
    assert_eq!(schema_state_for(0, false).unwrap(), DatabaseSchemaState::Fresh);
    assert_eq!(
        schema_state_for(-4, false),
        Err(PersistenceError::Storage(
            "database schema version -4 is unsupported; expected version 3".to_string()
        ))
    );
}

#[test]
fn stored_configuration_is_parsed_strictly() {
    assert_eq!(
        parse_stored_config("true", "15").unwrap(),
        Configuration { history_enabled: true, retention_days: Some(15) }
    );
    assert_eq!(
        parse_stored_config("false", "null").unwrap(),
        Configuration { history_enabled: false, retention_days: None }
    );
    assert!(parse_stored_config("yes", "15").is_err());
    assert!(parse_stored_config("true", "0").is_err());
    assert!(parse_stored_config("true", "3651").is_err());
    assert!(parse_stored_config("true", "abc").is_err());
}

#[test]
fn retention_cutoff_counts_whole_days_back() {
    let config = Configuration { history_enabled: true, retention_days: Some(2) };
    assert_eq!(retention_cutoff(&config, 1_000_000), Some(1_000_000 - 2 * 86_400));
    let forever = Configuration { history_enabled: true, retention_days: None };
    assert_eq!(retention_cutoff(&forever, 1_000_000), None);
}

#[test]
fn config_actions_and_queries_are_bounded() {
    assert!(validate_config_action(&ConfigAction::Show).is_ok());
    assert!(validate_config_action(&ConfigAction::SetRetentionDays { days: Some(0) }).is_err());
    assert!(validate_config_action(&ConfigAction::SetRetentionDays { days: Some(3650) }).is_ok());
    assert!(validate_config_action(&ConfigAction::SetRetentionDays { days: None }).is_ok());
    assert_eq!(validate_history_query(None).unwrap(), None);
    assert_eq!(
        validate_history_query(Some("  demo ".to_string())).unwrap(),
        Some("demo".to_string())
    );
    assert!(validate_history_query(Some("   ".to_string())).is_err());
    assert!(validate_history_query(Some("q".repeat(513))).is_err());
}

#[test]
fn stored_kinds_round_trip() {
    for kind in [SourceKind::Web, SourceKind::LocalMedia] {
        assert_eq!(parse_source_kind(source_kind_str(kind)).unwrap(), kind);
    }
    for kind in [ContentKind::Web, ContentKind::Video, ContentKind::Audio, ContentKind::Image] {
        assert_eq!(parse_content_kind(content_kind_str(kind)).unwrap(), kind);
    }
    for reason in [CloseReason::Explicit, CloseReason::Destroyed, CloseReason::AbruptTermination] {
        assert_eq!(parse_close_reason(close_reason_str(reason)).unwrap(), reason);
    }
    assert!(parse_source_kind("remote").is_err());
    assert!(parse_content_kind("text").is_err());
    assert!(parse_close_reason("crash").is_err());
    assert_eq!(bool_int(true), 1);
    assert_eq!(bool_int(false), 0);
}

#[test]
fn timestamps_are_rfc3339_utc() {
    assert_eq!(format_timestamp(0).unwrap(), "1970-01-01T00:00:00Z");
    assert_eq!(format_timestamp(86_400 + 61).unwrap(), "1970-01-02T00:01:01Z");
}

fn historical(title: &str, description: Option<&str>) -> HistoricalWindow {
    HistoricalWindow {
        historical_id: "session-1".to_string(),
        window_session_id: "wsess_00000000000000000000000000000001".to_string(),
        source_kind: SourceKind::Web,
        content_kind: ContentKind::Web,
        requested_source: "https://example.com/".to_string(),
        title: title.to_string(),
        rendered_url: None,
        final_url: Some("https://example.com/final".to_string()),
        url_history: vec!["https://example.com/".to_string()],
        url_history_truncated: false,
        description: description.map(str::to_string),
        workspace: None,
        is_on_all_workspaces: false,
        workspace_history: Vec::new(),
        workspace_history_truncated: false,
        opened_at: "1970-01-01T00:00:00Z".to_string(),
        closed_at: "1970-01-01T00:01:00Z".to_string(),
        close_reason: CloseReason::Explicit,
    }
}

#[test]
fn history_queries_match_case_insensitively() {
    let entry = historical("Release Notes", Some("Team Docs"));
    let query = lowercase_query("NOTES");
    assert_eq!(query, "notes");
    assert!(history_matches(&entry, &query));
    assert!(history_matches(&entry, "team"));
    assert!(history_matches(&entry, "final"));
    assert!(!history_matches(&entry, "absent"));
}

fn observation(url: &str, workspace: u32) -> SessionObservation {
    SessionObservation {
        current_url: Some(url.to_string()),
        url_history: Some(vec!["https://example.com/a".to_string(), url.to_string()]),
        url_history_truncated: Some(false),
        workspace: Some(workspace),
        workspace_history: vec![0, workspace],
        workspace_history_truncated: false,
    }
}

#[test]
fn reset_sessions_keep_their_own_timeline() {
    let mut session = ActiveSession::new("s".to_string(), &observation("https://example.com/b", 1), true);
    assert_eq!(session.url_history, vec!["https://example.com/b".to_string()]);
    assert_eq!(session.workspace_history, vec![1]);
    session.observe(&observation("https://example.com/b", 1));
    assert_eq!(session.url_history.len(), 1);
    session.observe(&observation("https://example.com/c", 2));
    assert_eq!(
        session.url_history,
        vec!["https://example.com/b".to_string(), "https://example.com/c".to_string()]
    );
    assert_eq!(session.workspace_history, vec![1, 2]);
    for index in 0..200u32 {
        session.observe(&observation("https://example.com/c", index % 7 + 10));
    }
    assert_eq!(session.workspace_history.len(), 128);
    assert!(session.workspace_history_truncated);

    let mut mirrored = ActiveSession::new("m".to_string(), &observation("https://example.com/b", 1), false);
    assert_eq!(mirrored.url_history.len(), 2);
    mirrored.observe(&observation("https://example.com/z", 4));
    assert_eq!(mirrored.url_history[1], "https://example.com/z");
    assert_eq!(mirrored.workspace_history, vec![0, 4]);
}

#[test]
fn cli_classifies_web_and_local_media_sources() {
    let cwd = CurrentDir::Path("/home/user".to_string());
    assert!(matches!(
        classify_open_source("https://example.com", &cwd).unwrap(),
        OpenSource::Web { .. }
    ));
    match classify_open_source("demo.mp4", &cwd).unwrap() {
        OpenSource::LocalMedia { path } => {
            assert!(path.starts_with('/'));
            assert_eq!(path, "/home/user/demo.mp4");
        }
        _ => panic!("expected local media source"),
    }
    assert!(classify_open_source("file:///tmp/demo.mp4", &cwd).is_err());
    assert!(classify_open_source("ftp://example.com/demo.mp4", &cwd).is_err());
    assert!(classify_open_source("   ", &cwd).is_err());
    assert!(classify_open_source("demo.mp4", &CurrentDir::NotUtf8).is_err());
}

#[test]
fn persistence_commands_map_to_typed_requests() {
    assert_eq!(
        history_query_for(&Some("demo".to_string())).unwrap(),
        Some("demo".to_string())
    );
    assert_eq!(
        config_action_for(false, &Some("history_enabled=false".to_string())).unwrap(),
        ConfigAction::SetHistoryEnabled { enabled: false }
    );
    assert_eq!(
        config_action_for(false, &Some("retention_days=null".to_string())).unwrap(),
        ConfigAction::SetRetentionDays { days: None }
    );
    assert_eq!(config_action_for(true, &None).unwrap(), ConfigAction::Show);
}

#[test]
fn persistence_cli_validation_is_fail_closed() {
    assert!(config_action_for(false, &Some("unknown=true".to_string())).is_err());
    assert!(config_action_for(false, &Some("retention_days=0".to_string())).is_err());
    assert!(history_query_for(&Some("   ".to_string())).is_err());
}

#[test]
fn workspace_commands_map_to_typed_requests() {
    assert_eq!(
        workspace_target_for("3").unwrap(),
        WorkspaceTarget::Index { index: 3 }
    );
    assert_eq!(
        workspace_target_for("Code").unwrap(),
        WorkspaceTarget::Name {
            name: "Code".to_string()
        }
    );
}

#[test]
fn interaction_cli_rejects_malformed_or_unbounded_actions() {
    assert!(validate_interaction_action_cli(&InteractionAction::Click {
        selector: " ".to_string(),
    })
    .is_err());
    assert!(validate_request(
        &[InteractionAction::Click {
            selector: "#go".to_string(),
        }],
        MAX_INTERACTION_TIMEOUT_MS + 1,
    )
    .is_err());
    assert!(validate_interaction_action_cli(&InteractionAction::Click {
        selector: "#go".to_string(),
    })
    .is_ok());
}

#[test]
fn protocol_errors_map_to_stable_exit_codes() {
    assert_eq!(ErrorCode::TargetNotFound.exit_code(), 4);
    assert_eq!(ErrorCode::InvalidWorkspace.exit_code(), 7);
    assert_eq!(ErrorCode::DisplayUnavailable.exit_code(), 6);
    assert_eq!(ErrorCode::ValidationFailed.exit_code(), 1);
}

#[test]
fn profile_names_are_bounded_identifiers() {
    assert!(validate_profile_name("work").is_ok());
    assert!(validate_profile_name("work-2_a").is_ok());
    assert!(validate_profile_name("").is_err());
    assert!(validate_profile_name("invalid name!").is_err());
}

#[test]
fn configuration_changes_apply_once() {
    let current = Configuration { history_enabled: true, retention_days: None };
    assert_eq!(plan_config_change(&current, &ConfigAction::Show).unwrap(), ConfigChange::Unchanged);
    assert_eq!(
        plan_config_change(&current, &ConfigAction::SetHistoryEnabled { enabled: true }).unwrap(),
        ConfigChange::Unchanged
    );
    assert_eq!(
        plan_config_change(&current, &ConfigAction::SetHistoryEnabled { enabled: false }).unwrap(),
        ConfigChange::DisableHistory
    );
    let change = plan_config_change(&current, &ConfigAction::SetRetentionDays { days: Some(30) }).unwrap();
    let updated = Configuration { history_enabled: true, retention_days: Some(30) };
    assert_eq!(change, ConfigChange::SetRetention { config: updated });
    assert_eq!(
        plan_config_change(&updated, &ConfigAction::SetRetentionDays { days: Some(30) }).unwrap(),
        ConfigChange::Unchanged
    );
    assert_eq!(retention_value(Some(30)), "30");
    assert_eq!(retention_value(None), "null");
    assert!(plan_config_change(&current, &ConfigAction::SetRetentionDays { days: Some(0) }).is_err());
    assert!(plan_config_change(&current, &ConfigAction::SetRetentionDays { days: Some(3651) }).is_err());
    let off = Configuration { history_enabled: false, retention_days: None };
    assert_eq!(
        plan_config_change(&off, &ConfigAction::SetHistoryEnabled { enabled: true }).unwrap(),
        ConfigChange::EnableHistory
    );
}

#[test]
fn stored_configuration_reads_back_as_itself() {
    for days in [None, Some(1), Some(30), Some(3650)] {
        for enabled in [true, false] {
            let stored = retention_value(days);
            let flag = if enabled { "true" } else { "false" };
            assert_eq!(
                parse_stored_config(flag, &stored).unwrap(),
                Configuration { history_enabled: enabled, retention_days: days }
            );
        }
    }
}

#[test]
fn history_lists_are_stored_as_json_arrays() {
    assert_eq!(workspaces_to_json(&vec![1, 2, 30]), "[1,2,30]");
    assert_eq!(workspaces_to_json(&Vec::new()), "[]");
    assert_eq!(
        urls_to_json(&vec!["https://a.example/".to_string(), "q\"x".to_string()]),
        "[\"https://a.example/\",\"q\\\"x\"]"
    );
}

#[test]
fn repeated_configuration_updates_change_nothing_more() {
    let defaults = Configuration { history_enabled: true, retention_days: Some(15) };
    let action = ConfigAction::SetRetentionDays { days: Some(30) };
    let once = apply_config_action(&defaults, &action).unwrap();
    let twice = apply_config_action(&once, &action).unwrap();
    assert_eq!(once, Configuration { history_enabled: true, retention_days: Some(30) });
    assert_eq!(twice, once);
    let refused = apply_config_action(&once, &ConfigAction::SetRetentionDays { days: Some(3651) });
    assert!(matches!(refused, Err(PersistenceError::Validation(_))));
    let off = apply_config_action(&once, &ConfigAction::SetHistoryEnabled { enabled: false }).unwrap();
    assert_eq!(off, Configuration { history_enabled: false, retention_days: Some(30) });
}

#[test]
fn schema_state_follows_what_was_read() {
    assert_eq!(schema_state_from_reads(0, Some(0)).unwrap(), DatabaseSchemaState::Fresh);
    assert_eq!(schema_state_from_reads(3, None).unwrap(), DatabaseSchemaState::Current);
    match schema_state_from_reads(0, Some(1)) {
        Err(PersistenceError::Storage(m)) => {
            assert_eq!(m, "database is unversioned and not empty; expected schema version 3")
        }
        other => panic!("unexpected {other:?}"),
    }
    match schema_state_from_reads(2, None) {
        Err(PersistenceError::Storage(m)) => {
            assert_eq!(m, "database schema version 2 is unsupported; expected version 3")
        }
        other => panic!("unexpected {other:?}"),
    }
}
