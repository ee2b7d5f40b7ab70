use portus_window::observation::{apply_observation, ObservationGate, WebObservation};
use portus_window::protocol::LoadState;
use portus_window::registry::WindowRegistry;

#[test]
fn observations_wait_for_activation_and_keep_their_order() {
    let mut gate = ObservationGate::new();
    let first = WebObservation::PageStarted("https://example.com/".to_string());
    let second = WebObservation::Title("Example".to_string());
    assert_eq!(gate.record_or_buffer(first.clone()), None);
    assert_eq!(gate.record_or_buffer(second.clone()), None);
    assert_eq!(gate.activate(), vec![first, second]);
    let third = WebObservation::PageFinished("https://example.com/".to_string());
    assert_eq!(gate.record_or_buffer(third.clone()), Some(third));
    assert_eq!(gate.activate(), Vec::new());
}

#[test]
fn observations_update_the_window_they_belong_to() {
    let mut registry = WindowRegistry::default();
    let id = registry.next_id().unwrap();
    registry.insert_opened_web(id.clone(), "https://example.com/".to_string(), None, None);
    let started = apply_observation(
        &mut registry,
        &id,
        WebObservation::PageStarted("https://example.com/".to_string()),
    )
    .unwrap();
    assert_eq!(started.load_state, LoadState::Started);
    let titled = apply_observation(&mut registry, &id, WebObservation::Title("Example".to_string())).unwrap();
    assert_eq!(titled.title, "Example");
    let finished = apply_observation(
        &mut registry,
        &id,
        WebObservation::PageFinished("https://example.com/next".to_string()),
    )
    .unwrap();
    assert_eq!(finished.load_state, LoadState::Loaded);
    assert_eq!(finished.current_url.as_deref(), Some("https://example.com/next"));
    assert!(apply_observation(
        &mut registry,
        "wsess_ffffffffffffffffffffffffffffffff",
        WebObservation::Title("gone".to_string()),
    )
    .is_none());
}
