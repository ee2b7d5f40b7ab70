use portus_window::media::{
    audio_presentation_html, cap_range, check_admission, classify_media, content_range_value,
    file_extension, parse_range, presentation_html, select_content_range, split_media_path,
    validate_presentation_navigation, validate_requested_path, AdmittedMediaInfo, MediaAdmissionError, MediaAnswer, MediaMethod, MediaRegistry,
    MediaRoute, MAX_IMAGE_BYTES, MAX_MEDIA_RESPONSE_BYTES, MEDIA_SCHEME,
};
use portus_window::media_runtime::MEDIA_STATE_SCRIPT;
use portus_window::protocol::ContentKind;
use portus_window::urls::WebUrl;

#[test]
fn passive_media_classification_is_signature_and_extension_bound() {
    let admitted = classify_media("sample.png", b"\x89PNG\r\n\x1a\nrest").unwrap();
    assert_eq!(admitted.content_kind, ContentKind::Image);
    assert_eq!(admitted.mime, "image/png");

    assert!(classify_media("sample.png", b"<html><script>alert(1)</script>").is_none());
    assert!(classify_media("sample.svg", b"<svg xmlns='http://www.w3.org/2000/svg'></svg>").is_none());
}

#[test]
fn active_local_content_and_media_navigation_are_fail_closed() {
    for (name, bytes) in [
        ("sample.html", b"<html></html>".as_slice()),
        ("sample.js", b"alert(1)".as_slice()),
        ("sample.svg", b"<svg></svg>".as_slice()),
    ] {
        assert!(classify_media(name, bytes).is_none());
        assert!(check_admission(bytes.len() as u64, classify_media(name, bytes)).is_err());
    }

    let token = "0123456789abcdef";
    assert!(validate_presentation_navigation(
        &WebUrl::parse(&format!("{MEDIA_SCHEME}://localhost/{token}/view")).unwrap(),
        token
    ));
    assert!(!validate_presentation_navigation(
        &WebUrl::parse(&format!("{MEDIA_SCHEME}://localhost/other/view")).unwrap(),
        token
    ));
    assert!(!validate_presentation_navigation(
        &WebUrl::parse(&format!("{MEDIA_SCHEME}://localhost/{token}/content")).unwrap(),
        token
    ));
    assert!(!validate_presentation_navigation(
        &WebUrl::parse(&format!("{MEDIA_SCHEME}://localhost/{token}/view?x=1")).unwrap(),
        token
    ));
}

fn audio_info(token: &str) -> AdmittedMediaInfo {
    AdmittedMediaInfo {
        token: token.to_string(),
        requested_source: "/tmp/audio.mp3".to_string(),
        content_kind: ContentKind::Audio,
        mime: "audio/mpeg".to_string(),
        title: "audio.mp3".to_string(),
        bytes: 15,
    }
}

#[test]
fn admission_rejects_directories_and_revokes_with_window() {
    assert!(check_admission(0, classify_media("audio.mp3", b"")).is_err());
    let classified = classify_media("audio.mp3", b"ID3sample-audio").unwrap();
    assert_eq!(classified.content_kind, ContentKind::Audio);
    assert!(check_admission(15, Some(classified)).is_ok());

    let window = "wsess_00000000000000000000000000000001".to_string();
    let mut registry = MediaRegistry::new();
    registry.register(window.clone(), audio_info("0123456789abcdef")).unwrap();
    assert!(registry.contains_window(&window));
    assert!(registry.revoke_window(&window));
    assert!(!registry.contains_window(&window));
    assert!(!registry.revoke_window(&window));
}

#[test]
fn protocol_authorization_is_token_and_window_bound() {
    let window = "wsess_00000000000000000000000000000001".to_string();
    let mut registry = MediaRegistry::new();
    let token = "0123456789abcdef";
    registry.register(window.clone(), audio_info(token)).unwrap();
    let path = format!("/{token}/view");
    assert_eq!(registry.route(&path, &window), MediaRoute::View);
    assert_eq!(
        registry.route(&format!("/{token}/content"), &window),
        MediaRoute::Content
    );
    assert_eq!(
        registry.route(&path, "wsess_00000000000000000000000000009999"),
        MediaRoute::Forbidden
    );
    assert_eq!(registry.route(&format!("/{token}/other"), &window), MediaRoute::NotFound);

    registry.revoke_window(&window);
    assert_eq!(registry.route(&path, &window), MediaRoute::NotFound);
    assert!(registry.info(&token.to_string()).is_none());
}

#[test]
fn byte_ranges_are_bounded_and_invalid_ranges_are_typed_http() {
    let total = 3 + 1024 * 1024;
    let range = select_content_range(Some("bytes=100-199"), total, ContentKind::Audio).unwrap();
    assert!(range.partial);
    assert_eq!((range.start, range.end), (100, 199));
    assert_eq!(range.length, 100);
    assert_eq!(
        content_range_value(range.start, range.end, total),
        format!("bytes 100-199/{total}")
    );
    let invalid = format!("bytes={}-", total + 1);
    assert!(select_content_range(Some(&invalid), total, ContentKind::Audio).is_err());
    assert!(parse_range(&invalid, total).is_err());
}

#[test]
fn range_forms_follow_http_semantics() {
    assert_eq!(parse_range("bytes=10-", 100), Ok((10, 99)));
    assert_eq!(parse_range("bytes=-10", 100), Ok((90, 99)));
    assert_eq!(parse_range("bytes=10-500", 100), Ok((10, 99)));
    assert!(parse_range("bytes=50-10", 100).is_err());
    assert!(parse_range("items=0-1", 100).is_err());
    assert!(parse_range("bytes=0-1,3-4", 100).is_err());
}

#[test]
fn unranged_audio_is_served_from_the_start_within_budget() {
    let total = MAX_MEDIA_RESPONSE_BYTES * 2;
    let range = select_content_range(None, total, ContentKind::Video).unwrap();
    assert_eq!(range.start, 0);
    assert_eq!(range.end, MAX_MEDIA_RESPONSE_BYTES - 1);
    assert!(range.partial);
}

#[test]
fn oversized_images_are_not_admitted() {
    let png = classify_media("big.png", b"\x89PNG\r\n\x1a\nrest").unwrap();
    assert!(check_admission(MAX_IMAGE_BYTES + 1, Some(png)).is_err());
    assert!(check_admission(MAX_IMAGE_BYTES, Some(png)).is_ok());
}

#[test]
fn media_paths_split_into_token_and_route() {
    assert_eq!(
        split_media_path("/abc/view"),
        Some(("abc".to_string(), "view".to_string()))
    );
    assert_eq!(split_media_path("/abc"), None);
    assert_eq!(split_media_path("/abc/view/extra"), None);
    assert_eq!(file_extension("archive.tar.GZ"), Some("GZ".to_string()));
    assert_eq!(file_extension(".hidden"), None);
    assert!(validate_requested_path("   ").is_err());
    assert_eq!(validate_requested_path("  /tmp/a.mp3 ").unwrap(), "/tmp/a.mp3");
}

#[test]
fn requested_ranges_are_capped_to_the_streaming_budget() {
    let start = 123_u64;
    let requested_end = start + MAX_MEDIA_RESPONSE_BYTES * 3;
    let capped = cap_range(start, requested_end);
    assert_eq!(capped.0, start);
    assert_eq!(capped.1 - capped.0 + 1, MAX_MEDIA_RESPONSE_BYTES);
}

#[test]
fn linux_audio_presentation_has_a_dedicated_platform_boundary() {
    let html = audio_presentation_html();
    assert!(html.contains("<audio"));
    assert!(!html.contains(" controls"));
    assert!(html.contains("src=\"content\""));
}

#[test]
fn linux_audio_presentation_uses_media_state_as_the_single_timeline_source() {
    let html = audio_presentation_html();
    assert!(html.contains("timeline.max=String(duration)"));
    assert!(html.contains("timeline.value=String(Math.min(position,duration||position))"));
    assert!(html.contains("media.currentTime=Math.min(Math.max(value,0),duration)"));
    assert!(!html.contains("setInterval("));
    assert!(!html.contains("setTimeout("));
    assert!(!html.contains("requestAnimationFrame("));
}

#[test]
fn linux_audio_presentation_handles_media_lifecycle_states() {
    let html = audio_presentation_html();
    assert!(html.contains("var paused=media.paused||media.ended;icon.innerHTML=paused?"));
    assert!(html.contains("<svg id=\"portus-media-icon\" viewBox=\"0 0 24 24\""));
    assert!(!html.contains(">Play</button>"));
    assert!(!html.contains(">Pause</button>"));
    assert!(html.contains("toggle.setAttribute('aria-label',paused?'Play':'Pause')"));
    assert!(
        html.contains("duration=isFinite(media.duration)&&media.duration>=0?media.duration:0")
    );
    assert!(html.contains("position=isFinite(media.currentTime)&&media.currentTime>=0"));
    assert!(html
        .contains("['loadedmetadata','durationchange','timeupdate','play','pause','ended']"));
}

#[test]
fn linux_audio_presentation_contains_portus_owned_timeline() {
    let html = audio_presentation_html();
    for marker in [
        "id=\"portus-media-timeline\"",
        "id=\"portus-media-time\"",
        "loadedmetadata",
        "durationchange",
        "timeupdate",
        "play",
        "pause",
        "ended",
        "media.currentTime",
    ] {
        assert!(
            html.contains(marker),
            "missing Linux media UI marker: {marker}"
        );
    }
    assert!(!html.contains("file://"));
    assert!(!html.contains("__TAURI__"));
    assert!(!html.contains("invoke("));
}

#[test]
fn video_presentation_uses_portus_owned_fullscreen_control() {
    let html = presentation_html(ContentKind::Video);
    for marker in [
        "id=\"portus-video-toggle\"",
        "aria-label=\"Play\"",
        "id=\"portus-video-timeline\"",
        "id=\"portus-video-volume\"",
        "id=\"portus-video-volume-range\"",
        "id=\"portus-video-fullscreen\"",
        "aria-label=\"Fullscreen\"",
        "portus-window-action://fullscreen",
        "timeupdate",
        "currentTime",
        "volumechange",
    ] {
        assert!(
            html.contains(marker),
            "missing video fullscreen marker: {marker}"
        );
    }
    assert!(
        !html.contains(" controls"),
        "video presentation must not expose native media controls"
    );
    assert!(
        !html.contains("controlsList="),
        "video presentation must not rely on native controls configuration"
    );
    assert!(
        html.contains("controls-hidden"),
        "video presentation must provide an auto-hide control state"
    );
    assert!(
        html.contains("setTimeout(function(){wrap.classList.add('controls-hidden');},2000)"),
        "video presentation must hide controls after inactivity while playing"
    );
}

#[test]
fn presentation_surface_contains_no_filesystem_path_or_script_bridge() {
    for kind in [ContentKind::Image, ContentKind::Video, ContentKind::Audio] {
        let html = presentation_html(kind);
        assert!(html.contains("content"));
        assert!(!html.contains("file://"));
        assert!(!html.contains("__TAURI__"));
        assert!(!html.contains("invoke("));
    }
}

#[test]
fn media_scripts_do_not_expose_a_tauri_bridge() {
    assert!(MEDIA_STATE_SCRIPT.contains("portus-media-player"));
    assert!(!MEDIA_STATE_SCRIPT.contains("__TAURI__"));
    assert!(!MEDIA_STATE_SCRIPT.contains("invoke("));
}

#[test]
fn granted_media_binds_a_fresh_token_to_its_window() {
    let mut registry = MediaRegistry::new();
    let png = classify_media("sample.png", b"\x89PNG\r\n\x1a\nrest");
    let info = registry
        .grant_media("wsess_a".to_string(), "/tmp/sample.png".to_string(), "sample.png".to_string(), 10, png)
        .unwrap();
    assert_eq!(info.token.len(), 32);
    assert!(info.token.chars().all(|c| c.is_ascii_digit() || ('a'..='f').contains(&c)));
    assert_eq!(info.content_kind, ContentKind::Image);
    assert_eq!(info.mime, "image/png");
    assert_eq!(info.bytes, 10);
    assert_eq!(info.title, "sample.png");
    assert_eq!(info.requested_source, "/tmp/sample.png");
    assert!(registry.contains_token(&info.token));
    assert!(registry.contains_window(&"wsess_a".to_string()));
    assert_eq!(registry.info(&info.token), Some(&info));
    let path = format!("/{}/view", info.token);
    assert_eq!(registry.route(&path, "wsess_a"), MediaRoute::View);
    assert_eq!(registry.route(&path, "wsess_b"), MediaRoute::Forbidden);
    assert!(registry.revoke_window(&"wsess_a".to_string()));
    assert_eq!(registry.route(&path, "wsess_a"), MediaRoute::NotFound);
    assert_eq!(registry.info(&info.token), None);
}

#[test]
fn a_window_that_owns_media_is_refused_and_nothing_is_bound() {
    let mut registry = MediaRegistry::new();
    let png = classify_media("sample.png", b"\x89PNG\r\n\x1a\nrest");
    let first = registry
        .grant_media("wsess_a".to_string(), "/tmp/a.png".to_string(), "a.png".to_string(), 10, png)
        .unwrap();
    let again = registry.grant_media("wsess_a".to_string(), "/tmp/b.png".to_string(), "b.png".to_string(), 10, png);
    match again {
        Err(MediaAdmissionError::Validation(message)) => {
            assert_eq!(message, "window 'wsess_a' already owns a local-media authorization")
        }
        other => panic!("unexpected {other:?}"),
    }
    assert!(registry.contains_token(&first.token));
    let empty = registry.grant_media("wsess_b".to_string(), "/tmp/c.png".to_string(), "c.png".to_string(), 0, png);
    match empty {
        Err(MediaAdmissionError::Validation(message)) => assert_eq!(message, "local media file must not be empty"),
        other => panic!("unexpected {other:?}"),
    }
    assert!(!registry.contains_window(&"wsess_b".to_string()));
}

#[test]
fn media_requests_are_answered_for_their_window() {
    let mut registry = MediaRegistry::new();
    let audio = classify_media("sample.mp3", b"ID3sample-audio");
    let info = registry
        .grant_media("wsess_a".to_string(), "/tmp/sample.mp3".to_string(), "sample.mp3".to_string(), 15, audio)
        .unwrap();
    let view = format!("/{}/view", info.token);
    let content = format!("/{}/content", info.token);
    let page = registry.answer_request(MediaMethod::Get, &view, Some("wsess_a"), None);
    assert_eq!(page, MediaAnswer::Page(ContentKind::Audio));
    assert_eq!(page.status(), 200);
    assert_eq!(registry.answer_request(MediaMethod::Get, &view, Some("wsess_b"), None).status(), 403);
    assert_eq!(registry.answer_request(MediaMethod::Other, &view, Some("wsess_a"), None).status(), 405);
    assert_eq!(registry.answer_request(MediaMethod::Other, "/nope/view", None, None).status(), 405);
    assert_eq!(registry.answer_request(MediaMethod::Get, "/nope/view", None, None).status(), 404);
    match registry.answer_request(MediaMethod::Get, &content, None, Some("bytes=2-5")) {
        MediaAnswer::Content(range) => {
            assert_eq!((range.start, range.end, range.length, range.partial), (2, 5, 4, true));
        }
        other => panic!("unexpected {other:?}"),
    }
    let whole = registry.answer_request(MediaMethod::Head, &content, Some("wsess_a"), None);
    assert_eq!(whole.status(), 200);
    assert_eq!(registry.answer_request(MediaMethod::Get, &content, None, Some("bytes=99-")).status(), 416);
    assert!(registry.revoke_window(&"wsess_a".to_string()));
    assert_eq!(registry.answer_request(MediaMethod::Get, &view, Some("wsess_a"), None).status(), 404);
}
