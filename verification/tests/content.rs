use portus_window::interaction::{
    finish_execution, js_string, sanitize_script_result, script_for, step_result, timeout_result,
    validate_request, ScriptResult,
};
use portus_window::observability::CONSOLE_INIT_SCRIPT;
use portus_window::protocol::{
    frame_body, frame_payload, FrameError, InteractionAction, InteractionStepCode,
    MAX_FRAME_BYTES, MAX_INTERACTION_TIMEOUT_MS,
};
use portus_window::screenshot::{create_blank_png, encode_rgba_to_png, validate_png};
use portus_window::urls::{form_urlencoded, WebUrl};
use portus_window::web_profile::{
    is_auth_cookie_name, validate_profile_name, ProfileDirectory, WebProfile, WebProfileError,
};
use portus_window::web_video::{
    is_valid_video_id, parse_timestamp, presentation_html, VideoPage, YouTubeVideo,
};

#[test]
fn request_validation_is_bounded_and_allows_empty_fill_value() {
    assert!(validate_request(
        &[InteractionAction::Fill {
            selector: "#name".to_string(),
            value: String::new(),
        }],
        4_000,
    )
    .is_ok());
    assert!(validate_request(&[], 4_000).is_err());
    assert!(validate_request(
        &[InteractionAction::Click {
            selector: " ".to_string(),
        }],
        4_000,
    )
    .is_err());
    assert!(validate_request(
        &[InteractionAction::Click {
            selector: "#ok".to_string(),
        }],
        MAX_INTERACTION_TIMEOUT_MS + 1,
    )
    .is_err());
}

#[test]
fn selectors_values_text_and_keys_are_json_literals_not_raw_source() {
    let hostile = r#"\");globalThis.__PORTUS_PWNED__=true;//"#;
    for action in [
        InteractionAction::Click {
            selector: hostile.to_string(),
        },
        InteractionAction::Fill {
            selector: "#field".to_string(),
            value: hostile.to_string(),
        },
        InteractionAction::PressKey {
            key: hostile.to_string(),
            selector: Some("#field".to_string()),
        },
        InteractionAction::CheckText {
            text: hostile.to_string(),
            selector: None,
        },
    ] {
        let script = script_for(&action);
        let literal = js_string(hostile);
        assert!(script.contains(&literal));
        assert!(!script.contains("__TAURI__"));
        assert!(!script.contains("invoke("));
    }
}

#[test]
fn wait_scripts_are_synchronous_predicates_without_page_timers() {
    let selector = script_for(&InteractionAction::WaitForSelector {
        selector: "#ready".to_string(),
    });
    let text = script_for(&InteractionAction::WaitForText {
        text: "done".to_string(),
        selector: None,
    });
    for script in [selector, text] {
        assert!(!script.contains("setTimeout"));
        assert!(!script.contains("setInterval"));
        assert!(!script.contains("Promise"));
    }
}

#[test]
fn action_scripts_cover_expected_minimal_dom_surface() {
    let click = script_for(&InteractionAction::Click {
        selector: "#go".to_string(),
    });
    assert!(click.contains("element.click()"));

    let fill = script_for(&InteractionAction::Fill {
        selector: "#name".to_string(),
        value: "Ada".to_string(),
    });
    assert!(fill.contains("new Event(\"input\""));
    assert!(fill.contains("new Event(\"change\""));

    let key = script_for(&InteractionAction::PressKey {
        key: "Enter".to_string(),
        selector: Some("#name".to_string()),
    });
    assert!(key.contains("new KeyboardEvent(\"keydown\""));
    assert!(key.contains("new KeyboardEvent(\"keyup\""));
}

#[test]
fn js_strings_escape_line_separators() {
    assert_eq!(js_string("a\"b"), "\"a\\\"b\"");
    assert_eq!(js_string("x\u{2028}y"), "\"x\\u2028y\"");
}

#[test]
fn script_results_are_checked_and_bounded() {
    let ok = ScriptResult { ok: true, code: InteractionStepCode::Succeeded, message: Some("ignored".to_string()) };
    let cleaned = sanitize_script_result(ok).unwrap();
    assert!(cleaned.ok);
    assert_eq!(cleaned.message, None);
    let inconsistent = ScriptResult { ok: true, code: InteractionStepCode::Timeout, message: None };
    assert!(sanitize_script_result(inconsistent).is_err());
    let failed = ScriptResult {
        ok: false,
        code: InteractionStepCode::SelectorNotFound,
        message: Some("m".repeat(5000)),
    };
    let cleaned = sanitize_script_result(failed).unwrap();
    assert_eq!(cleaned.message.unwrap().chars().count(), 1024);
    let timeout = timeout_result("waited too long");
    assert_eq!(timeout.code, InteractionStepCode::Timeout);
    assert!(!timeout.ok);
}

#[test]
fn executions_complete_only_when_every_action_succeeds() {
    let action = InteractionAction::Click { selector: "#go".to_string() };
    let ok = ScriptResult { ok: true, code: InteractionStepCode::Succeeded, message: None };
    let step = step_result(0, &action, ok, 12);
    assert_eq!(step.selector.as_deref(), Some("#go"));
    assert_eq!(step.elapsed_ms, 12);
    let done = finish_execution(1, vec![step.clone()]);
    assert!(done.completed);
    let partial = finish_execution(2, vec![step]);
    assert!(!partial.completed);
}

#[test]
fn initialization_script_is_bounded_and_non_privileged() {
    assert!(CONSOLE_INIT_SCRIPT.contains("maxEntries = 200"));
    assert!(CONSOLE_INIT_SCRIPT.contains("maxMessage = 4096"));
    assert!(CONSOLE_INIT_SCRIPT.contains("Object.defineProperty"));
    assert!(!CONSOLE_INIT_SCRIPT.contains("__TAURI__"));
    assert!(!CONSOLE_INIT_SCRIPT.contains("invoke("));
}

fn parse(url: &str) -> Option<YouTubeVideo> {
    YouTubeVideo::parse(&WebUrl::parse(url).unwrap())
}

#[test]
fn parse_recognizes_standard_youtube_urls() {
    assert_eq!(
        parse("https://www.youtube.com/watch?v=dQw4w9WgXcQ"),
        Some(YouTubeVideo {
            video_id: "dQw4w9WgXcQ".to_string(),
            start_seconds: None,
        })
    );
    assert_eq!(
        parse("https://youtu.be/dQw4w9WgXcQ?t=42s"),
        Some(YouTubeVideo {
            video_id: "dQw4w9WgXcQ".to_string(),
            start_seconds: Some(42),
        })
    );
    assert_eq!(
        parse("https://m.youtube.com/watch?v=dQw4w9WgXcQ&t=1m30s"),
        Some(YouTubeVideo {
            video_id: "dQw4w9WgXcQ".to_string(),
            start_seconds: Some(90),
        })
    );
}

#[test]
fn parse_rejects_non_video_urls() {
    assert_eq!(parse("https://www.youtube.com/channel/UC1234567890"), None);
    assert_eq!(parse("https://www.youtube.com/feed/trending"), None);
    assert_eq!(parse("https://www.google.com"), None);
    assert_eq!(parse("https://youtu.be/invalid_id"), None);
}

#[test]
fn embed_is_privacy_enhanced_and_lazy_surface_has_no_iframe_at_rest() {
    let video = parse("https://youtu.be/M7lc1UVf-VE?t=90").unwrap();
    let origin = "http://127.0.0.1:43123";
    let embed = video.embed_url(origin);
    let page = VideoPage {
        video: video.clone(),
        embed_url: embed.clone(),
    };
    assert!(embed.starts_with("https://www.youtube-nocookie.com/embed/M7lc1UVf-VE?"));
    assert!(embed.contains("enablejsapi=1"));
    assert!(embed.contains("origin=http%3A%2F%2F127.0.0.1%3A43123"));
    assert!(!embed.contains("autoplay=1"));
    assert!(embed.contains("start=90"));
    let html = presentation_html(&page);
    assert!(html.contains("i.ytimg.com/vi/M7lc1UVf-VE/hqdefault.jpg"));
    assert!(html.contains("data-embed="));
    assert!(!html.contains("<iframe"));
}

#[test]
fn presentation_is_lazy_and_exposes_only_bounded_player_bridge() {
    let page = VideoPage {
        video: YouTubeVideo {
            video_id: "dQw4w9WgXcQ".to_string(),
            start_seconds: None,
        },
        embed_url: "https://www.youtube-nocookie.com/embed/dQw4w9WgXcQ?enablejsapi=1"
            .to_string(),
    };
    let html = presentation_html(&page);
    assert!(html.contains("__portusWebVideo"));
    assert!(html.contains("youtube-nocookie.com"));
    assert!(html.contains("youtube.com/iframe_api"));
    assert!(!html.contains("setPlaybackQuality"));
    assert!(!html.contains("<iframe id=\"portus-youtube-player\""));
}

#[test]
fn authenticated_embeds_use_the_youtube_host() {
    let video = parse("https://www.youtube.com/watch?v=M7lc1UVf-VE").unwrap();
    let embed = video.authenticated_embed_url("http://127.0.0.1:1");
    assert!(embed.starts_with("https://www.youtube.com/embed/M7lc1UVf-VE?"));
    assert_eq!(
        video.thumbnail_url(),
        "https://i.ytimg.com/vi/M7lc1UVf-VE/hqdefault.jpg"
    );
}

#[test]
fn timestamps_and_video_ids_are_strict() {
    assert_eq!(parse_timestamp("42"), Some(42));
    assert_eq!(parse_timestamp("1h2m3s"), Some(3723));
    assert_eq!(parse_timestamp(""), None);
    assert_eq!(parse_timestamp("1x"), None);
    assert!(is_valid_video_id("dQw4w9WgXcQ"));
    assert!(!is_valid_video_id("short"));
    assert!(!is_valid_video_id("dQw4w9WgXc!"));
}

#[test]
fn query_pairs_are_form_encoded_in_order() {
    let pairs = vec![
        ("a".to_string(), "x y".to_string()),
        ("origin".to_string(), "http://h:1".to_string()),
    ];
    assert_eq!(form_urlencoded(&pairs), "a=x+y&origin=http%3A%2F%2Fh%3A1");
    let url = WebUrl::parse("https://example.com/p?q=1&r=two").unwrap();
    assert_eq!(url.scheme(), "https");
    assert_eq!(url.host_str().as_deref(), Some("example.com"));
    assert_eq!(url.path(), "/p");
    assert_eq!(url.query_pairs().len(), 2);
    assert!(WebUrl::parse("no scheme").is_none());
}

#[test]
fn auth_cookie_names_are_recognized() {
    assert!(is_auth_cookie_name("SID"));
    assert!(is_auth_cookie_name("user_session"));
    assert!(is_auth_cookie_name("myAuthToken"));
    assert!(!is_auth_cookie_name("theme"));
}

#[test]
fn empty_or_relative_profile_directory_is_rejected() {
    assert!(matches!(
        WebProfile::check_data_directory(""),
        Err(WebProfileError::Validation(_))
    ));
    assert!(matches!(
        WebProfile::check_data_directory("relative-profile"),
        Err(WebProfileError::Validation(_))
    ));
    assert!(WebProfile::check_data_directory("/var/lib/portus").is_ok());
}

#[test]
fn named_profiles_live_under_the_profiles_root() {
    let profile = WebProfile::from_directories(
        "/data/web-profile".to_string(),
        "/data/profiles".to_string(),
        "/data/auth-session-profiles".to_string(),
    );
    assert_eq!(
        profile.profile_data_directory(Some("work")).unwrap(),
        ProfileDirectory::Named("/data/profiles/work".to_string())
    );
    assert_eq!(
        profile.profile_data_directory(None).unwrap(),
        ProfileDirectory::Default("/data/web-profile".to_string())
    );
    assert_eq!(
        profile.profile_data_directory(Some("default")).unwrap(),
        ProfileDirectory::Default("/data/web-profile".to_string())
    );
    assert!(profile.profile_data_directory(Some("invalid name!")).is_err());
    assert!(validate_profile_name("a".repeat(65).as_str()).is_err());
}

#[test]
fn full_png_validation_rejects_signature_only_data() {
    let mut invalid = b"\x89PNG\r\n\x1a\n".to_vec();
    invalid.extend_from_slice(b"not-a-complete-png");
    assert!(validate_png(&invalid).is_err());
    assert!(validate_png(&create_blank_png(1, 1).unwrap()).is_ok());
}

#[test]
fn png_checks_name_the_failed_step() {
    assert_eq!(
        validate_png(b"GIF89a"),
        Err("native screenshot did not produce a PNG signature".to_string())
    );
    let encoded = encode_rgba_to_png(2, 1, &[255; 8]).unwrap();
    assert!(validate_png(&encoded).is_ok());
    let short = encode_rgba_to_png(2, 2, &[0; 3]);
    assert!(short.unwrap_err().starts_with("could not write PNG pixel data: "));
}

#[test]
fn frames_are_newline_terminated_and_bounded() {
    let frame = frame_payload(b"{}".to_vec()).unwrap();
    assert_eq!(frame, b"{}\n".to_vec());
    assert_eq!(frame_body(&frame).unwrap(), b"{}".to_vec());
    assert!(matches!(
        frame_payload(vec![b' '; MAX_FRAME_BYTES]),
        Err(FrameError::TooLarge { .. })
    ));
    assert!(matches!(
        frame_body(&vec![b' '; MAX_FRAME_BYTES + 1]),
        Err(FrameError::TooLarge { .. })
    ));
}

#[test]
fn js_literals_hold_no_line_break() {
    let literal = js_string("line\nbreak\r\u{2028}\u{2029}\u{1}\t\"\\");
    assert_eq!(literal, "\"line\\nbreak\\r\\u2028\\u2029\\u0001\\t\\\"\\\\\"");
    assert!(!literal.contains('\n'));
    assert!(!literal.contains('\r'));
    assert!(!literal.contains('\u{2028}'));
    assert!(!literal.contains('\u{2029}'));
}

#[test]
fn daemon_and_client_accept_the_same_actions() {
    let long = "k".repeat(65);
    let actions = vec![
        InteractionAction::Click { selector: "#go".to_string() },
        InteractionAction::Click { selector: "   ".to_string() },
        InteractionAction::PressKey { key: long.clone(), selector: None },
        InteractionAction::PressKey { key: "Enter".to_string(), selector: Some(" ".to_string()) },
        InteractionAction::CheckText { text: String::new(), selector: None },
        InteractionAction::WaitForText { text: "done".to_string(), selector: Some("#x".to_string()) },
        InteractionAction::Fill { selector: "#name".to_string(), value: "v".repeat(4097) },
    ];
    for action in actions {
        assert_eq!(
            validate_request(&[action.clone()], 1_000).is_ok(),
            portus_window::cli::validate_interaction_action_cli(&action).is_ok()
        );
    }
}
