use portus_window::video_service::WebVideoRegistry;
use portus_window::window_manager::{check_profile_upgrade, WindowManagerError};
use portus_window::protocol::{
    ConsoleEntry, ConsoleLevel, ContentKind, LoadState, SourceKind, WindowStateAction,
    WorkspaceInfo, WorkspaceTarget, MAX_CONSOLE_ENTRIES, MAX_CONSOLE_MESSAGE_CHARS,
    MAX_URL_HISTORY_ENTRIES,
};
use portus_window::registry::WindowRegistry;
use portus_window::window_core::{
    file_name, sanitize_console_result, trim_url_history, truncate_chars, validate_description,
    validate_navigation_url, validate_url, ResizeSpec, ScreenshotSpec, WindowCoreError,
};
use portus_window::workspace::{build_catalog, WorkspaceCatalog};

fn registry_with_three() -> (WindowRegistry, String, String, String) {
    let mut registry = WindowRegistry::default();
    let first = registry.next_id().unwrap();
    registry.insert_opened_web(
        first.clone(),
        "https://example.com/one".to_string(),
        None,
        None,
    );
    let second = registry.next_id().unwrap();
    registry.insert_opened_web(
        second.clone(),
        "https://example.com/two".to_string(),
        None,
        None,
    );
    let third = registry.next_id().unwrap();
    registry.insert_opened_web(
        third.clone(),
        "https://example.com/three".to_string(),
        None,
        None,
    );
    (registry, first, second, third)
}

#[test]
fn allocator_generates_unique_non_recyclable_session_ids() {
    let (mut registry, ..) = registry_with_three();
    let first = registry.next_id().unwrap();
    assert!(first.starts_with("wsess_"));
    assert_eq!(first.len(), "wsess_".len() + 32);
    assert!(first["wsess_".len()..]
        .chars()
        .all(|ch| ch.is_ascii_hexdigit()));
    registry.insert_opened_web(
        first.clone(),
        "https://example.com/generated".to_string(),
        None,
        None,
    );
    registry.remove(&first);
    let second = registry.next_id().unwrap();
    assert_ne!(first, second);
    assert_eq!(second.len(), "wsess_".len() + 32);
    assert!(second["wsess_".len()..]
        .chars()
        .all(|ch| ch.is_ascii_hexdigit()));
}

#[test]
fn stale_window_session_target_never_falls_through_to_semantic_matching() {
    let (mut registry, first, _second, _third) = registry_with_three();
    let stale = "wsess_aaaaaaaaaaaaaaaaaaaaaaaaaaaaaaaa";
    registry.tag(&first, format!("reference {stale}")).unwrap();
    assert_eq!(
        registry.resolve_target(stale),
        Err(WindowCoreError::TargetNotFound(stale.to_string()))
    );
}

#[test]
fn exact_window_session_target_has_precedence_over_semantic_matches() {
    let (mut registry, first, second, _third) = registry_with_three();
    registry.tag(&second, first.clone()).unwrap();
    assert_eq!(registry.resolve_target(&first).unwrap(), first);
}

#[test]
fn semantic_targets_pick_the_most_recently_focused_match() {
    let (mut registry, first, second, third) = registry_with_three();
    assert_eq!(
        registry.resolve_target("EXAMPLE.com"),
        Err(WindowCoreError::TargetAmbiguous("EXAMPLE.com".to_string()))
    );
    assert_eq!(registry.resolve_target("/two").unwrap(), second);
    assert_eq!(
        registry.resolve_target("nowhere"),
        Err(WindowCoreError::TargetNotFound("nowhere".to_string()))
    );
    registry.record_focus(&third, true);
    assert_eq!(registry.resolve_target("example.com").unwrap(), third);
    assert_eq!(registry.resolve_target("focused").unwrap(), third);
    registry.record_focus(&first, true);
    assert_eq!(registry.resolve_target("focused").unwrap(), first);
    assert_eq!(registry.resolve_target("example.com").unwrap(), first);
    assert!(!registry.status(&third).unwrap().is_focused);
    registry.set_maximized(&second, true).unwrap();
    assert_eq!(registry.resolve_target("maximized").unwrap(), second);
}

#[test]
fn workspace_index_resolution_prefers_the_newest_focus() {
    let (mut registry, first, second, _third) = registry_with_three();
    assert_eq!(
        registry.resolve_workspace_index(2),
        Err(WindowCoreError::TargetNotFound("workspace:2".to_string()))
    );
    registry.record_workspace(&first, Some(2), false).unwrap();
    registry.record_workspace(&second, None, true).unwrap();
    assert_eq!(
        registry.resolve_workspace_index(2),
        Err(WindowCoreError::TargetAmbiguous("workspace:2".to_string()))
    );
    registry.record_focus(&second, true);
    assert_eq!(registry.resolve_workspace_index(2).unwrap(), second);
    assert!(registry.record_workspace(&first, Some(256), false).is_err());
}

#[test]
fn workspace_history_is_deduplicated_and_bounded() {
    let (mut registry, first, ..) = registry_with_three();
    registry.record_workspace(&first, Some(1), false).unwrap();
    let window = registry.record_workspace(&first, Some(1), false).unwrap();
    assert_eq!(window.workspace_history, vec![1]);
    for index in 0..200u32 {
        registry.record_workspace(&first, Some(index % 200), false).unwrap();
    }
    let window = registry.status(&first).unwrap();
    assert_eq!(window.workspace_history.len(), 128);
    assert!(window.workspace_history_truncated);
    assert_eq!(*window.workspace_history.last().unwrap(), 199);
    let all = registry.record_workspace(&first, Some(3), true).unwrap();
    assert_eq!(all.workspace, None);
    assert!(all.is_on_all_workspaces);
}

#[test]
fn page_events_update_load_state_and_history() {
    let (mut registry, first, ..) = registry_with_three();
    registry.record_page_finished(&first, "https://example.com/one".to_string());
    let window = registry.status(&first).unwrap();
    assert_eq!(window.load_state, LoadState::Loaded);
    assert_eq!(window.url_history, Some(vec!["https://example.com/one".to_string()]));

    registry.record_page_started(&first, "https://example.com/next".to_string());
    registry.record_page_failed(&first, "https://example.com/next".to_string(), "boom".to_string());
    let failed = registry.status(&first).unwrap();
    assert_eq!(failed.load_state, LoadState::Failed);
    assert_eq!(failed.load_error.as_deref(), Some("boom"));

    registry.record_page_started(&first, "https://example.com/next".to_string());
    assert_eq!(registry.status(&first).unwrap().load_state, LoadState::Failed);
    registry.record_page_finished(&first, "https://example.com/next".to_string());
    assert_eq!(registry.status(&first).unwrap().load_state, LoadState::Failed);

    registry.record_page_started(&first, "https://example.com/other".to_string());
    registry.record_page_finished(&first, "https://example.com/other".to_string());
    let window = registry.status(&first).unwrap();
    assert_eq!(window.load_state, LoadState::Loaded);
    assert_eq!(window.load_error, None);
    assert_eq!(
        window.url_history,
        Some(vec![
            "https://example.com/one".to_string(),
            "https://example.com/other".to_string()
        ])
    );
    registry.record_title(&first, "x".repeat(2000));
    assert_eq!(registry.status(&first).unwrap().title.chars().count(), 1024);
}

#[test]
fn url_history_keeps_the_newest_entries() {
    let (mut registry, first, ..) = registry_with_three();
    for index in 0..(MAX_URL_HISTORY_ENTRIES + 5) {
        registry.record_page_finished(&first, format!("https://example.com/{index}"));
    }
    let window = registry.status(&first).unwrap();
    let history = window.url_history.unwrap();
    assert_eq!(history.len(), MAX_URL_HISTORY_ENTRIES);
    assert_eq!(window.url_history_truncated, Some(true));
    assert_eq!(
        history.last().unwrap(),
        &format!("https://example.com/{}", MAX_URL_HISTORY_ENTRIES + 4)
    );
}

#[test]
fn media_windows_accept_media_state_and_ignore_page_events() {
    let mut registry = WindowRegistry::new();
    let id = registry.next_id().unwrap();
    let window = registry
        .insert_opened_media(
            id.clone(),
            "/tmp/song.mp3".to_string(),
            ContentKind::Audio,
            "song.mp3".to_string(),
            None,
            None,
        )
        .unwrap();
    assert_eq!(window.source_kind, SourceKind::LocalMedia);
    assert_eq!(window.load_state, LoadState::Loaded);
    assert!(registry.record_media_state(&id).is_ok());
    registry.record_title(&id, "changed".to_string());
    assert_eq!(registry.status(&id).unwrap().title, "song.mp3");

    let web = registry.next_id().unwrap();
    registry.insert_opened_web(web.clone(), "https://example.com".to_string(), None, None);
    assert!(matches!(
        registry.record_media_state(&web),
        Err(WindowCoreError::Validation(_))
    ));
    assert!(matches!(
        registry.record_media_state("wsess_ffffffffffffffffffffffffffffffff"),
        Err(WindowCoreError::TargetNotFound(_))
    ));
    assert!(registry.is_last_web_window(&web));
    assert!(!registry.is_last_web_window(&id));
}

#[test]
fn console_entries_keep_the_newest_within_bound() {
    let (mut registry, first, ..) = registry_with_three();
    let entries: Vec<ConsoleEntry> = (0..(MAX_CONSOLE_ENTRIES + 3))
        .map(|i| ConsoleEntry {
            level: ConsoleLevel::Error,
            message: format!("message {i}"),
            source: None,
            line: Some(i as u32),
        })
        .collect();
    registry.record_console_entries(&first, &entries[..2], false);
    let window = registry.status(&first).unwrap();
    assert_eq!(window.console_errors.len(), 2);
    assert!(!window.console_errors_truncated);
    registry.record_console_entries(&first, &entries[2..], false);
    let window = registry.status(&first).unwrap();
    assert_eq!(window.console_errors.len(), MAX_CONSOLE_ENTRIES);
    assert!(window.console_errors_truncated);
    assert_eq!(
        window.console_errors.last().unwrap().message,
        format!("message {}", MAX_CONSOLE_ENTRIES + 2)
    );
}

#[test]
fn resize_and_state_changes_apply_to_the_record() {
    let (mut registry, first, ..) = registry_with_three();
    let mut spec = ResizeSpec::new();
    spec.width = Some(800);
    spec.x = Some(-20);
    spec.state = Some(WindowStateAction::Maximize);
    let window = registry.apply_resize(&first, &spec).unwrap();
    assert_eq!((window.width, window.height, window.x), (800, 768, -20));
    assert!(window.is_maximized);
    spec.state = Some(WindowStateAction::Minimize);
    let window = registry.apply_resize(&first, &spec).unwrap();
    assert!(window.is_minimized && !window.is_maximized);
    spec.width = Some(0);
    assert!(registry.apply_resize(&first, &spec).is_err());
    assert!(registry
        .apply_resize("wsess_ffffffffffffffffffffffffffffffff", &ResizeSpec::new())
        .is_err());
    let window = registry.set_minimized(&first, false).unwrap();
    assert!(!window.is_minimized);
}

#[test]
fn list_reports_windows_in_id_order_and_remove_forgets_them() {
    let (mut registry, first, second, third) = registry_with_three();
    let mut ids = vec![first.clone(), second.clone(), third.clone()];
    ids.sort();
    let listed: Vec<String> = registry
        .list()
        .into_iter()
        .map(|window| window.window_session_id)
        .collect();
    assert_eq!(listed, ids);
    let removed = registry.remove(&second).unwrap();
    assert_eq!(removed.requested_source, "https://example.com/two");
    assert!(registry.remove(&second).is_none());
    assert_eq!(registry.list().len(), 2);
    assert!(registry.status(&second).is_err());
}

#[test]
fn descriptions_are_trimmed_and_bounded() {
    assert_eq!(validate_description(None).unwrap(), None);
    assert_eq!(validate_description(Some("   ".to_string())).unwrap(), None);
    assert_eq!(
        validate_description(Some("  my window ".to_string())).unwrap(),
        Some("my window".to_string())
    );
    assert!(validate_description(Some("x".repeat(257))).is_err());
    let (mut registry, first, ..) = registry_with_three();
    assert!(registry.tag(&first, "y".repeat(300)).is_err());
    let window = registry.tag(&first, "  docs ".to_string()).unwrap();
    assert_eq!(window.description.as_deref(), Some("docs"));
}

#[test]
fn screenshot_paths_are_absolute_png_files() {
    let spec = ScreenshotSpec::from_request(" /tmp/capture.png ", true).unwrap();
    assert_eq!(spec.out, "/tmp/capture.png");
    assert!(spec.overwrite);
    assert!(ScreenshotSpec::from_request("", false).is_err());
    assert!(ScreenshotSpec::from_request("relative.png", false).is_err());
    assert!(ScreenshotSpec::from_request("/tmp/capture.jpg", false).is_err());
    assert_eq!(file_name("/tmp/dir/capture.png"), Some("capture.png".to_string()));
    assert_eq!(file_name("/tmp/dir/.."), None);
}

#[test]
fn urls_must_be_http_or_https() {
    assert!(validate_url("https://example.com").is_ok());
    assert!(validate_url("  http://example.com/path  ").is_ok());
    assert!(validate_url("").is_err());
    assert!(validate_url("file:///etc/passwd").is_err());
    assert!(validate_url("ftp://example.com").is_err());
    assert!(validate_url("not a url").is_err());
    let parsed = validate_url("https://example.com").unwrap();
    assert!(validate_navigation_url(&parsed));
}

#[test]
fn console_results_are_bounded() {
    let entries: Vec<ConsoleEntry> = (0..(MAX_CONSOLE_ENTRIES + 1))
        .map(|_| ConsoleEntry {
            level: ConsoleLevel::Log,
            message: "m".repeat(MAX_CONSOLE_MESSAGE_CHARS + 5),
            source: Some("s".repeat(2000)),
            line: None,
        })
        .collect();
    let (bounded, truncated) = sanitize_console_result(entries);
    assert!(truncated);
    assert_eq!(bounded.len(), MAX_CONSOLE_ENTRIES);
    assert_eq!(bounded[0].message.chars().count(), MAX_CONSOLE_MESSAGE_CHARS);
    assert_eq!(bounded[0].source.as_ref().unwrap().chars().count(), 1024);
    assert_eq!(truncate_chars("héllo".to_string(), 2), "hé");
}

#[test]
fn trimming_url_history_drops_the_oldest_entries() {
    let mut history: Vec<String> = (0..(MAX_URL_HISTORY_ENTRIES + 2))
        .map(|i| format!("https://example.com/{i}"))
        .collect();
    let mut truncated = None;
    trim_url_history(&mut history, &mut truncated);
    assert_eq!(history.len(), MAX_URL_HISTORY_ENTRIES);
    assert_eq!(history[0], "https://example.com/2");
    assert_eq!(truncated, Some(true));

    let mut short = vec!["https://example.com".to_string()];
    let mut untouched = Some(false);
    trim_url_history(&mut short, &mut untouched);
    assert_eq!(short.len(), 1);
    assert_eq!(untouched, Some(false));
}

#[test]
fn catalog_resolves_valid_index_and_name() {
    let catalog = WorkspaceCatalog {
        current: 0,
        workspaces: vec![
            WorkspaceInfo {
                index: 0,
                name: "Main".to_string(),
                is_current: true,
            },
            WorkspaceInfo {
                index: 1,
                name: "Code".to_string(),
                is_current: false,
            },
        ],
    };

    assert_eq!(
        catalog
            .resolve(&WorkspaceTarget::Index { index: 1 })
            .unwrap(),
        1
    );
    assert_eq!(
        catalog
            .resolve(&WorkspaceTarget::Name {
                name: "code".to_string()
            })
            .unwrap(),
        1
    );
    assert!(catalog
        .resolve(&WorkspaceTarget::Index { index: 99 })
        .is_err());
    assert!(catalog
        .resolve(&WorkspaceTarget::Name {
            name: "Nonexistent".to_string()
        })
        .is_err());
}

#[test]
fn catalog_names_fall_back_to_numbers() {
    let catalog = build_catalog(1, Some(3), Some(vec!["Main".to_string()]));
    assert_eq!(catalog.current, 1);
    assert_eq!(catalog.workspaces.len(), 3);
    assert_eq!(catalog.workspaces[0].name, "Main");
    assert_eq!(catalog.workspaces[2].name, "Workspace 3");
    assert!(catalog.workspaces[1].is_current);
    let ambiguous = WorkspaceCatalog {
        current: 0,
        workspaces: vec![
            WorkspaceInfo { index: 0, name: "Dup".to_string(), is_current: true },
            WorkspaceInfo { index: 1, name: "dup".to_string(), is_current: false },
        ],
    };
    assert!(ambiguous
        .resolve(&WorkspaceTarget::Name { name: "DUP".to_string() })
        .is_err());
}

#[test]
fn only_ordinary_web_pages_move_to_an_authenticated_profile() {
    let mut registry = WindowRegistry::new();
    let web = registry.next_id().unwrap();
    registry.insert_opened_web(web.clone(), "https://example.com/".to_string(), None, None);
    let media = registry.next_id().unwrap();
    registry
        .insert_opened_media(media.clone(), "/tmp/a.png".to_string(), ContentKind::Image, "a.png".to_string(), None, None)
        .unwrap();
    let videos = WebVideoRegistry::new();
    assert_eq!(check_profile_upgrade(&registry, &videos, &web).unwrap().window_session_id, web);
    match check_profile_upgrade(&registry, &videos, &media) {
        Err(WindowManagerError::Operation(message)) => assert_eq!(
            message,
            "ordinary authenticated profile upgrade does not accept managed YouTube windows"
        ),
        other => panic!("unexpected {other:?}"),
    }
    match check_profile_upgrade(&registry, &videos, "wsess_ffffffffffffffffffffffffffffffff") {
        Err(WindowManagerError::Core(WindowCoreError::TargetNotFound(id))) => {
            assert_eq!(id, "wsess_ffffffffffffffffffffffffffffffff")
        }
        other => panic!("unexpected {other:?}"),
    }
}

#[test]
fn removed_window_ids_stay_retired() {
    let mut registry = WindowRegistry::new();
    let id = registry.next_id().unwrap();
    registry.insert_opened_web(id.clone(), "https://example.com/".to_string(), None, None);
    assert!(registry.remove(&id).is_some());
    for _ in 0..32 {
        let next = registry.next_id().unwrap();
        assert_ne!(next, id);
    }
}
