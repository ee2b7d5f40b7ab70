use portus_window::layout::{
    created_description, declaration_updates, description_changes, export_window, export_windows,
    find_matching_window, geometry_changes, matches_declaration, windows_to_prune,
    DeclaredWindow,
};
use portus_window::protocol::{OpenSource, WindowGeometrySpec, WindowStateAction, WorkspaceTarget};
use portus_window::registry::{ActiveWindow, WindowRegistry};

fn open_windows() -> Vec<ActiveWindow> {
    let mut registry = WindowRegistry::default();
    for (url, description) in [
        ("https://example.com/one", Some("docs")),
        ("https://example.com/two", None),
        ("https://example.com/one", None),
    ] {
        let id = registry.next_id().unwrap();
        registry.insert_opened_web(
            id,
            url.to_string(),
            description.map(str::to_string),
            None,
        );
    }
    registry.list()
}

fn web(url: &str) -> OpenSource {
    OpenSource::Web { url: url.to_string() }
}

fn empty_geometry() -> WindowGeometrySpec {
    WindowGeometrySpec {
        width: None,
        height: None,
        x: None,
        y: None,
        state: None,
        always_on_top: None,
        workspace: None,
    }
}

#[test]
fn declarations_match_by_name_or_source() {
    let windows = open_windows();
    let docs = windows.iter().position(|w| w.description.as_deref() == Some("docs")).unwrap();
    assert_eq!(
        find_matching_window(&Some("docs".to_string()), &web("https://elsewhere.test/"), &windows),
        Some(docs)
    );
    let id = windows[1].window_session_id.clone();
    assert_eq!(find_matching_window(&Some(id), &web("https://elsewhere.test/"), &windows), Some(1));
    let first_one = windows
        .iter()
        .position(|w| w.requested_source == "https://example.com/one")
        .unwrap();
    assert_eq!(find_matching_window(&None, &web("https://example.com/one"), &windows), Some(first_one));
    assert_eq!(find_matching_window(&None, &web("https://example.com/three"), &windows), None);
    let media = OpenSource::LocalMedia { path: "https://example.com/two".to_string() };
    assert!(!matches_declaration(&None, &media, &windows[1]));
}

#[test]
fn geometry_and_descriptions_decide_updates() {
    let windows = open_windows();
    let window = &windows[0];
    let mut geometry = empty_geometry();
    assert!(!geometry_changes(&geometry, window));
    geometry.width = Some(window.width);
    geometry.state = Some(WindowStateAction::Restore);
    assert!(!geometry_changes(&geometry, window));
    geometry.state = Some(WindowStateAction::Maximize);
    assert!(geometry_changes(&geometry, window));
    geometry.state = None;
    geometry.x = Some(window.x + 1);
    assert!(geometry_changes(&geometry, window));

    assert!(!description_changes(&None, window));
    assert!(description_changes(&Some("new".to_string()), window));
    assert!(!description_changes(&window.description.clone(), window));

    let declaration = DeclaredWindow {
        name: None,
        source: web(&window.requested_source),
        description: None,
        profile: None,
        geometry: Some(empty_geometry()),
    };
    assert!(!declaration_updates(&declaration, false, window));
    assert!(declaration_updates(&declaration, true, window));
}

#[test]
fn new_windows_take_the_description_or_the_name() {
    let mut declaration = DeclaredWindow {
        name: Some("board".to_string()),
        source: web("https://example.com/"),
        description: Some("status board".to_string()),
        profile: None,
        geometry: None,
    };
    assert_eq!(created_description(&declaration), Some("status board".to_string()));
    declaration.description = None;
    assert_eq!(created_description(&declaration), Some("board".to_string()));
    declaration.name = None;
    assert_eq!(created_description(&declaration), None);
}

#[test]
fn pruning_closes_only_unmatched_windows_in_order() {
    let windows = open_windows();
    let ids: Vec<String> = windows.iter().map(|w| w.window_session_id.clone()).collect();
    assert_eq!(windows_to_prune(&windows, &vec![ids[1].clone()]), vec![ids[0].clone(), ids[2].clone()]);
    assert_eq!(windows_to_prune(&windows, &ids), Vec::<String>::new());
    assert_eq!(windows_to_prune(&windows, &Vec::new()), ids);
}

#[test]
fn exported_windows_apply_back_unchanged() {
    let windows = open_windows();
    let exported = export_windows(&windows);
    assert_eq!(exported.len(), windows.len());
    for (declaration, window) in exported.iter().zip(windows.iter()) {
        assert_eq!(declaration.name.as_deref(), Some(window.window_session_id.as_str()));
        assert!(matches_declaration(&declaration.name, &declaration.source, window));
        assert!(!declaration_updates(declaration, false, window));
        let geometry = declaration.geometry.clone().unwrap();
        assert_eq!(geometry.state, Some(WindowStateAction::Restore));
        assert_eq!(geometry.width, Some(window.width));
    }
    let mut maximized = windows[1].clone();
    maximized.is_maximized = true;
    maximized.workspace = Some(2);
    let declaration = export_window(&maximized);
    let geometry = declaration.geometry.unwrap();
    assert_eq!(geometry.state, Some(WindowStateAction::Maximize));
    assert_eq!(geometry.workspace, Some(WorkspaceTarget::Index { index: 2 }));
    assert_eq!(declaration.source, web(&maximized.requested_source));
}
