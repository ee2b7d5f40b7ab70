use portus_window::auth_domain::{
    validate_action, validate_domain, AuthDomainError, AuthSiteBundle, ValidatedAuthRequest,
};
use portus_window::authority::{
    dispatch_action, AuthAuthorityError, AuthGrantTarget, AuthenticatedSessionAuthority,
    PendingAuthGrant,
};
use portus_window::broker::{
    authorized_cookie_hosts, cookie_host_allowed, select_cookies, AuthBrokerError,
    AuthenticatedSessionBroker, BrokeredCookie, CookieRow,
};
use portus_window::consent::{consent_navigation_decision, AuthConsentView};
use portus_window::ini::parse_ini_sections;
use portus_window::protocol::{
    AuthSessionAction, AuthSessionDecision, AuthSessionScope, AuthSessionTarget, BrowserKind,
};
use portus_window::urls::WebUrl;

fn domain_target() -> AuthSessionTarget {
    AuthSessionTarget::Domain {
        domain: "Example.COM.".to_string(),
    }
}

fn request(scope: AuthSessionScope) -> AuthSessionAction {
    AuthSessionAction::Request {
        target: domain_target(),
        browser: BrowserKind::Chromium,
        scope,
        reason: Some("login required".to_string()),
        presentation_window_session_id: Some(
            "wsess_00000000000000000000000000000000".to_string(),
        ),
    }
}

#[test]
fn canonicalizes_dns_hosts_without_widening_generic_scope() {
    let validated = validate_domain("Example.COM.").unwrap();
    assert_eq!(validated.requested_domain(), "example.com");
    assert_eq!(validated.cookie_domains(), &["example.com".to_string()]);
    assert_eq!(validated.bundle(), AuthSiteBundle::ExactDomain);
}

#[test]
fn unicode_dns_hosts_are_canonicalized_to_ascii() {
    let validated = validate_domain("bücher.example").unwrap();
    assert_eq!(validated.requested_domain(), "xn--bcher-kva.example");
}

#[test]
fn rejects_broad_or_non_host_inputs() {
    for input in [
        "",
        " localhost ",
        "localhost",
        "127.0.0.1",
        "[::1]",
        "https://example.com",
        "example.com/path",
        "example.com:443",
        "user@example.com",
        "*.example.com",
        ".example.com",
        "example.com?..",
    ] {
        assert!(
            validate_domain(input).is_err(),
            "unexpectedly accepted {input:?}"
        );
    }
}

#[test]
fn youtube_hosts_use_minimal_known_bundle() {
    for input in [
        "youtube.com",
        "www.youtube.com",
        "m.youtube.com",
        "music.youtube.com",
        "youtu.be",
    ] {
        let validated = validate_domain(input).unwrap();
        assert_eq!(validated.bundle(), AuthSiteBundle::YouTube);
        assert_eq!(validated.cookie_domains(), &["youtube.com".to_string()]);
    }
    let unrelated = validate_domain("notyoutube.com").unwrap();
    assert_eq!(unrelated.bundle(), AuthSiteBundle::ExactDomain);
    assert_eq!(unrelated.cookie_domains(), &["notyoutube.com".to_string()]);
}

#[test]
fn request_reason_is_trimmed_and_bounded() {
    let action = AuthSessionAction::Request {
        target: AuthSessionTarget::Domain {
            domain: "example.com".to_string(),
        },
        browser: BrowserKind::Chromium,
        scope: AuthSessionScope::Once,
        reason: Some("  login required  ".to_string()),
        presentation_window_session_id: Some(
            "wsess_00000000000000000000000000000000".to_string(),
        ),
    };
    let ValidatedAuthRequest::Request { reason, .. } = validate_action(&action).unwrap() else {
        panic!("unexpected validated action");
    };
    assert_eq!(reason.as_deref(), Some("login required"));

    let blank = AuthSessionAction::Request {
        target: AuthSessionTarget::Domain {
            domain: "example.com".to_string(),
        },
        browser: BrowserKind::Chromium,
        scope: AuthSessionScope::Once,
        reason: Some("   ".to_string()),
        presentation_window_session_id: Some(
            "wsess_00000000000000000000000000000000".to_string(),
        ),
    };
    assert_eq!(validate_action(&blank), Err(AuthDomainError::BlankReason));
}

#[test]
fn exact_window_session_identity_is_validated() {
    let valid = AuthSessionAction::Status {
        target: AuthSessionTarget::Window {
            window_session_id: "wsess_0123456789abcdef0123456789abcdef".to_string(),
        },
    };
    assert!(validate_action(&valid).is_ok());

    for bad in [
        "wsess_0123",
        "wsess_0123456789ABCDEF0123456789ABCDEF",
        "win_0001",
        "example.com",
    ] {
        let action = AuthSessionAction::Status {
            target: AuthSessionTarget::Window {
                window_session_id: bad.to_string(),
            },
        };
        assert_eq!(
            validate_action(&action),
            Err(AuthDomainError::InvalidWindowSessionId)
        );
    }
}

#[test]
fn overlong_reason_is_rejected() {
    let action = AuthSessionAction::Request {
        target: AuthSessionTarget::Domain {
            domain: "example.com".to_string(),
        },
        browser: BrowserKind::Firefox,
        scope: AuthSessionScope::Session,
        reason: Some("x".repeat(257)),
        presentation_window_session_id: Some(
            "wsess_00000000000000000000000000000000".to_string(),
        ),
    };
    assert_eq!(validate_action(&action), Err(AuthDomainError::ReasonTooLong));
}

#[test]
fn request_is_pending_until_trusted_authorization() {
    let mut authority = AuthenticatedSessionAuthority::new();
    let result = dispatch_action(&mut authority, &request(AuthSessionScope::Once), None).unwrap();
    assert_eq!(result.state.canonical_domain, "example.com");
    assert_eq!(result.state.decision, AuthSessionDecision::Pending);
    assert!(!result.state.available);
    assert!(!result.state.applied);

    let key = AuthGrantTarget::Domain("example.com".to_string());
    assert!(authority.pending_grant(&key).is_some());
    let authorized = authority.authorize(&key).unwrap();
    assert_eq!(authorized.state.decision, AuthSessionDecision::Authorized);
}

#[test]
fn availability_and_application_require_authorization() {
    let mut authority = AuthenticatedSessionAuthority::new();
    dispatch_action(&mut authority, &request(AuthSessionScope::Session), None).unwrap();
    let key = AuthGrantTarget::Domain("example.com".to_string());
    assert_eq!(
        authority.mark_available(&key, true),
        Err(AuthAuthorityError::NotAuthorized)
    );
    authority.authorize(&key).unwrap();
    let available = authority.mark_available(&key, true).unwrap();
    assert!(available.state.available);
    let applied = authority.mark_applied(&key, true).unwrap();
    assert!(applied.state.applied);
}

#[test]
fn once_grant_is_revoked_after_use_but_session_grant_survives() {
    let mut once = AuthenticatedSessionAuthority::new();
    dispatch_action(&mut once, &request(AuthSessionScope::Once), None).unwrap();
    let key = AuthGrantTarget::Domain("example.com".to_string());
    once.authorize(&key).unwrap();
    once.mark_available(&key, true).unwrap();
    once.mark_applied(&key, true).unwrap();
    let cleared = once.clear_once_after_use(&key).unwrap();
    assert_eq!(cleared.state.decision, AuthSessionDecision::Revoked);
    assert!(!cleared.state.available);
    assert!(!cleared.state.applied);

    let mut session = AuthenticatedSessionAuthority::new();
    dispatch_action(&mut session, &request(AuthSessionScope::Session), None).unwrap();
    session.authorize(&key).unwrap();
    let retained = session.clear_once_after_use(&key).unwrap();
    assert_eq!(retained.state.decision, AuthSessionDecision::Authorized);
}

#[test]
fn denial_and_revoke_clear_capability_state() {
    let mut authority = AuthenticatedSessionAuthority::new();
    dispatch_action(&mut authority, &request(AuthSessionScope::Session), None).unwrap();
    let key = AuthGrantTarget::Domain("example.com".to_string());
    let denied = authority.deny(&key).unwrap();
    assert_eq!(denied.state.decision, AuthSessionDecision::Denied);

    dispatch_action(&mut authority, &request(AuthSessionScope::Session), None).unwrap();
    authority.authorize(&key).unwrap();
    authority.mark_available(&key, true).unwrap();
    let revoked = dispatch_action(
        &mut authority,
        &AuthSessionAction::Revoke {
            target: domain_target(),
        },
        None,
    )
    .unwrap();
    assert_eq!(revoked.state.decision, AuthSessionDecision::Revoked);
    assert!(!revoked.state.available);
}

#[test]
fn remembered_scope_stays_runtime_unsupported() {
    let mut authority = AuthenticatedSessionAuthority::new();
    assert_eq!(
        dispatch_action(&mut authority, &request(AuthSessionScope::Remembered), None),
        Err(AuthAuthorityError::RememberedUnsupported)
    );
}

#[test]
fn repeated_matching_authorized_request_is_idempotent() {
    let mut authority = AuthenticatedSessionAuthority::new();
    dispatch_action(&mut authority, &request(AuthSessionScope::Session), None).unwrap();
    let key = AuthGrantTarget::Domain("example.com".to_string());
    authority.authorize(&key).unwrap();
    let repeated =
        dispatch_action(&mut authority, &request(AuthSessionScope::Session), None).unwrap();
    assert_eq!(repeated.state.decision, AuthSessionDecision::Authorized);
}

#[test]
fn decisions_on_unknown_targets_are_refused() {
    let mut authority = AuthenticatedSessionAuthority::new();
    let key = AuthGrantTarget::Domain("example.com".to_string());
    assert_eq!(authority.authorize(&key), Err(AuthAuthorityError::GrantNotFound));
    assert_eq!(authority.deny(&key), Err(AuthAuthorityError::GrantNotFound));
    assert!(authority.pending_grant(&key).is_none());
}

#[test]
fn apply_is_not_a_protocol_capability() {
    let mut authority = AuthenticatedSessionAuthority::new();
    let apply = AuthSessionAction::Apply {
        target: domain_target(),
        window_session_id: "wsess_0123456789abcdef0123456789abcdef".to_string(),
    };
    assert_eq!(
        dispatch_action(&mut authority, &apply, None),
        Err(AuthAuthorityError::GrantNotFound)
    );
}

#[test]
fn exact_pending_decision_refuses_a_changed_grant() {
    let mut authority = AuthenticatedSessionAuthority::new();
    dispatch_action(&mut authority, &request(AuthSessionScope::Session), None).unwrap();
    let key = AuthGrantTarget::Domain("example.com".to_string());
    let mut stale: PendingAuthGrant = authority.pending_grant(&key).unwrap();
    stale.reason = Some("something else".to_string());
    assert!(authority.authorize_pending_exact(&key, &stale).is_err());
    let current = authority.pending_grant(&key).unwrap();
    let decided = authority.authorize_pending_exact(&key, &current).unwrap();
    assert_eq!(decided.state.decision, AuthSessionDecision::Authorized);
}

fn cookie(name: &str, domain: &str) -> BrokeredCookie {
    BrokeredCookie {
        name: name.to_string(),
        value: "value".to_string(),
        domain: domain.to_string(),
        path: "/".to_string(),
        expires_unix: Some(4102444800),
        secure: true,
        http_only: true,
        same_site: Some(2),
    }
}

fn firefox_request(domain: &str) -> AuthSessionAction {
    AuthSessionAction::Request {
        target: AuthSessionTarget::Domain {
            domain: domain.to_string(),
        },
        browser: BrowserKind::Firefox,
        scope: AuthSessionScope::Session,
        reason: None,
        presentation_window_session_id: Some(
            "wsess_00000000000000000000000000000000".to_string(),
        ),
    }
}

#[test]
fn broker_marks_available_only_after_a_load_with_cookies() {
    let mut authority = AuthenticatedSessionAuthority::new();
    dispatch_action(&mut authority, &firefox_request("example.com"), None).unwrap();
    let key = AuthGrantTarget::Domain("example.com".to_string());
    let mut broker = AuthenticatedSessionBroker::new();
    assert!(AuthenticatedSessionBroker::grant_for_acquire(&authority, &key).is_err());
    authority.authorize(&key).unwrap();
    let grant = AuthenticatedSessionBroker::grant_for_acquire(&authority, &key).unwrap();
    assert_eq!(grant.domain, "example.com");
    assert_eq!(
        broker.complete_acquire(&mut authority, &key, Vec::new()).unwrap_err(),
        AuthBrokerError::NoUsableCookies
    );
    let metadata = broker
        .complete_acquire(
            &mut authority,
            &key,
            vec![cookie("b", "example.com"), cookie("a", "example.com")],
        )
        .unwrap();
    assert_eq!(metadata.cookie_count, 2);
    assert_eq!(metadata.cookie_domains, vec!["example.com".to_string()]);
    assert_eq!(broker.metadata(&key).unwrap().cookie_count, 2);
    assert_eq!(broker.cookies_for(&authority, &key).unwrap().len(), 2);
    broker.discard(&mut authority, &key);
    assert!(broker.metadata(&key).is_none());
}

#[test]
fn chromium_grants_are_not_acquired() {
    let mut authority = AuthenticatedSessionAuthority::new();
    dispatch_action(&mut authority, &request(AuthSessionScope::Session), None).unwrap();
    let key = AuthGrantTarget::Domain("example.com".to_string());
    authority.authorize(&key).unwrap();
    assert_eq!(
        AuthenticatedSessionBroker::grant_for_acquire(&authority, &key).unwrap_err(),
        AuthBrokerError::ChromiumUnavailable
    );
}

#[test]
fn cookie_hosts_follow_the_grant_bundle() {
    let mut authority = AuthenticatedSessionAuthority::new();
    dispatch_action(&mut authority, &firefox_request("youtube.com"), None).unwrap();
    let key = AuthGrantTarget::Domain("youtube.com".to_string());
    let grant = authority.pending_grant(&key).unwrap();
    assert!(cookie_host_allowed(&grant, "youtube.com"));
    assert!(cookie_host_allowed(&grant, ".youtube.com"));
    assert!(!cookie_host_allowed(&grant, ".google.com"));
    let hosts = authorized_cookie_hosts(&grant);
    assert!(hosts.contains(&"youtube.com".to_string()));
    assert!(hosts.contains(&".youtube.com".to_string()));
}

#[test]
fn parse_ini_sections_extracts_default_relative_profile() {
    let contents = "[General]\nStartWithLastProfile=1\n\n[Profile0]\nName=default\nIsRelative=1\nPath=Profiles/abc.default\nDefault=1\n";
    let sections = parse_ini_sections(contents);
    assert_eq!(sections.len(), 2);
    assert_eq!(sections[1].0, "Profile0");
    assert_eq!(
        sections[1].1.get("Path").map(String::as_str),
        Some("Profiles/abc.default")
    );
}

#[test]
fn consent_navigation_accepts_only_explicit_local_decisions() {
    assert_eq!(
        consent_navigation_decision(&WebUrl::parse("portus-consent://approve?token=abc").unwrap()),
        Some(("abc".to_string(), true))
    );
    assert_eq!(
        consent_navigation_decision(&WebUrl::parse("portus-consent://deny?token=abc").unwrap()),
        Some(("abc".to_string(), false))
    );
    assert_eq!(
        consent_navigation_decision(&WebUrl::parse("https://example.com").unwrap()),
        None
    );
    assert_eq!(
        consent_navigation_decision(&WebUrl::parse("portus-consent://other").unwrap()),
        None
    );
}

#[test]
fn consent_navigation_requires_a_non_empty_token() {
    assert_eq!(
        consent_navigation_decision(&WebUrl::parse("portus-consent://approve?token=").unwrap()),
        None
    );
    assert_eq!(
        consent_navigation_decision(&WebUrl::parse("portus-consent://approve?x=1").unwrap()),
        None
    );
}

fn consent_json(view: &AuthConsentView) -> String {
    let mut map = serde_json::Map::new();
    map.insert("domain".to_string(), serde_json::Value::String(view.domain.clone()));
    map.insert(
        "window_session_id".to_string(),
        match &view.window_session_id {
            Some(id) => serde_json::Value::String(id.clone()),
            None => serde_json::Value::Null,
        },
    );
    map.insert("browser".to_string(), serde_json::Value::String(view.browser.clone()));
    map.insert("scope".to_string(), serde_json::Value::String(view.scope.clone()));
    map.insert(
        "reason".to_string(),
        match &view.reason {
            Some(reason) => serde_json::Value::String(reason.clone()),
            None => serde_json::Value::Null,
        },
    );
    map.insert(
        "provenance".to_string(),
        serde_json::Value::String(view.provenance.to_string()),
    );
    serde_json::to_string(&serde_json::Value::Object(map)).unwrap()
}

#[test]
fn consent_view_contains_provenance_but_no_cookie_material() {
    let grant = PendingAuthGrant {
        target: AuthGrantTarget::Window("wsess_0123456789abcdef0123456789abcdef".to_string()),
        domain: "example.com".to_string(),
        window_session_id: Some("wsess_0123456789abcdef0123456789abcdef".to_string()),
        browser: BrowserKind::Firefox,
        scope: AuthSessionScope::Session,
        reason: Some("Open the signed-in page".to_string()),
        cookie_domains: vec!["example.com".to_string()],
        bundle: AuthSiteBundle::ExactDomain,
    };
    let view = AuthConsentView::from(&grant);
    let json = consent_json(&view);
    assert_eq!(view.provenance, "local_agent_ipc");
    assert!(json.contains("example.com"));
    for forbidden in ["cookie", "token", "authorization", "secret-value"] {
        assert!(!json.contains(forbidden));
    }
    assert_eq!(view.browser, "firefox");
    assert_eq!(view.scope, "session");
}

fn row(name: &str, value: &str, host: &str, expiry: i64) -> CookieRow {
    CookieRow {
        name: name.to_string(),
        value: value.to_string(),
        host: host.to_string(),
        path: "/".to_string(),
        expiry,
        secure: 1,
        http_only: 0,
        same_site: None,
    }
}

fn authorized_grant(domain: &str) -> PendingAuthGrant {
    let mut authority = AuthenticatedSessionAuthority::new();
    dispatch_action(&mut authority, &firefox_request(domain), None).unwrap();
    let key = AuthGrantTarget::Domain(domain.to_string());
    authority.authorize(&key).unwrap();
    AuthenticatedSessionBroker::grant_for_acquire(&authority, &key).unwrap()
}

#[test]
fn cookie_rows_outside_the_grant_or_expired_are_skipped() {
    let grant = authorized_grant("example.com");
    let rows = vec![
        row("sid", "1", "example.com", 0),
        row("other", "2", "evil.com", 0),
        row("old", "3", ".example.com", 100),
        row("pref", "4", ".example.com", 5000),
        row("sub", "5", "www.example.com", 0),
    ];
    let cookies = select_cookies(&grant, &rows, 1000).unwrap();
    assert_eq!(cookies.len(), 2);
    assert_eq!(cookies[0].name, "sid");
    assert_eq!(cookies[0].expires_unix, None);
    assert!(cookies[0].secure);
    assert!(!cookies[0].http_only);
    assert_eq!(cookies[1].name, "pref");
    assert_eq!(cookies[1].domain, ".example.com");
    assert_eq!(cookies[1].expires_unix, Some(5000));
}

#[test]
fn cookie_loads_past_the_transfer_limits_are_refused() {
    let grant = authorized_grant("example.com");
    let many: Vec<CookieRow> = (0..201).map(|i| row(&format!("c{i}"), "v", "example.com", 0)).collect();
    assert_eq!(select_cookies(&grant, &many, 1000).err(), Some(AuthBrokerError::TransferLimit));
    let big = "x".repeat(4000);
    let heavy = |n: usize| -> Vec<CookieRow> {
        (0..n).map(|i| row(&format!("h{i}"), &big, "example.com", 0)).collect()
    };
    assert_eq!(select_cookies(&grant, &heavy(16), 1000).unwrap().len(), 16);
    assert_eq!(select_cookies(&grant, &heavy(17), 1000).err(), Some(AuthBrokerError::TransferLimit));
    let mut bad_path = row("a", "v", "example.com", 0);
    bad_path.path = "relative".to_string();
    assert_eq!(select_cookies(&grant, &vec![bad_path], 1000).err(), Some(AuthBrokerError::TransferLimit));
    assert_eq!(select_cookies(&grant, &Vec::new(), 1000).unwrap().len(), 0);
}

fn stored_row(name: &str, value: &str, host: &str) -> CookieRow {
    CookieRow {
        name: name.to_string(),
        value: value.to_string(),
        host: host.to_string(),
        path: "/".to_string(),
        expiry: 4102444800,
        secure: 1,
        http_only: 1,
        same_site: Some(2),
    }
}

fn authorized(domain: &str, browser: BrowserKind) -> (AuthenticatedSessionAuthority, AuthGrantTarget) {
    let mut authority = AuthenticatedSessionAuthority::new();
    let mut action = firefox_request(domain);
    if let AuthSessionAction::Request { browser: b, .. } = &mut action {
        *b = browser;
    }
    let result = dispatch_action(&mut authority, &action, None).unwrap();
    let key = AuthGrantTarget::Domain(result.state.canonical_domain);
    authority.authorize(&key).unwrap();
    (authority, key)
}

// The rows below are those the cookie store query returns: it already leaves out
// partitioned cookies (a non-empty `originAttributes`).
#[test]
fn loads_authorized_exact_domain_cookies() {
    let (mut authority, key) = authorized("example.com", BrowserKind::Firefox);
    let grant = AuthenticatedSessionBroker::grant_for_acquire(&authority, &key).unwrap();
    let rows = vec![
        stored_row("host_only", "secret-a", "example.com"),
        stored_row("other_host", "ignore", "sub.example.com"),
    ];
    let cookies = select_cookies(&grant, &rows, 1_700_000_000).unwrap();
    assert_eq!(cookies.len(), 1);
    assert_eq!(cookies[0].name, "host_only");
    assert_eq!(cookies[0].value, "secret-a");
    assert_eq!(cookies[0].domain, "example.com");
    assert_eq!(cookies[0].path, "/");
    assert!(cookies[0].expires_unix.is_some());
    assert!(cookies[0].secure);
    assert!(cookies[0].http_only);
    assert_eq!(cookies[0].same_site, Some(2));
    let mut broker = AuthenticatedSessionBroker::new();
    let metadata = broker.complete_acquire(&mut authority, &key, cookies).unwrap();
    assert_eq!(metadata.cookie_count, 1);
}

#[test]
fn loads_authorized_youtube_bundle_cookies() {
    let (mut authority, key) = authorized("youtube.com", BrowserKind::Firefox);
    let grant = AuthenticatedSessionBroker::grant_for_acquire(&authority, &key).unwrap();
    let rows = vec![
        stored_row("yt_root", "val-1", "youtube.com"),
        stored_row("yt_dot", "val-2", ".youtube.com"),
        stored_row("google", "val-3", ".google.com"),
    ];
    let cookies = select_cookies(&grant, &rows, 1_700_000_000).unwrap();
    assert_eq!(cookies.len(), 2);
    assert!(cookies.iter().all(|cookie| cookie.domain.ends_with("youtube.com")));
    assert!(cookies.iter().all(|cookie| !cookie.domain.contains("google.com")));
    let mut broker = AuthenticatedSessionBroker::new();
    let metadata = broker.complete_acquire(&mut authority, &key, cookies).unwrap();
    assert_eq!(metadata.cookie_count, 2);
}

#[test]
fn marks_authority_available_only_after_successful_broker_load() {
    let (mut authority, key) = authorized("example.com", BrowserKind::Firefox);
    let grant = AuthenticatedSessionBroker::grant_for_acquire(&authority, &key).unwrap();
    let cookies = select_cookies(&grant, &vec![stored_row("sid", "value", "example.com")], 1_700_000_000).unwrap();
    let mut broker = AuthenticatedSessionBroker::new();
    assert_eq!(broker.complete_acquire(&mut authority, &key, cookies).unwrap().cookie_count, 1);
    let status = dispatch_action(
        &mut authority,
        &AuthSessionAction::Status {
            target: AuthSessionTarget::Domain { domain: "example.com".to_string() },
        },
        None,
    )
    .unwrap();
    assert!(status.state.available);

    let (chromium_authority, chromium_key) = authorized("example.com", BrowserKind::Chromium);
    assert_eq!(
        AuthenticatedSessionBroker::grant_for_acquire(&chromium_authority, &chromium_key).unwrap_err(),
        AuthBrokerError::ChromiumUnavailable
    );
}

#[test]
fn metadata_debug_representation_never_exposes_cookie_values() {
    let (mut authority, key) = authorized("example.com", BrowserKind::Firefox);
    let grant = AuthenticatedSessionBroker::grant_for_acquire(&authority, &key).unwrap();
    let cookies = select_cookies(
        &grant,
        &vec![stored_row("sid", "highly-secret-cookie-value", "example.com")],
        1_700_000_000,
    )
    .unwrap();
    let mut broker = AuthenticatedSessionBroker::new();
    let metadata = broker.complete_acquire(&mut authority, &key, cookies).unwrap();
    let rendered = format!("{metadata:?}");
    assert!(!rendered.contains("highly-secret-cookie-value"));
    assert!(!rendered.contains("sid"));
}

#[test]
fn accepted_domains_are_canonical_and_validate_to_themselves() {
    for input in ["Sub.Example.ORG", "Example.COM.", "www.YouTube.com", "bücher.example"] {
        let first = validate_domain(input).unwrap();
        let canonical = first.requested_domain().to_string();
        assert!(canonical.contains('.'));
        assert_eq!(canonical, canonical.to_ascii_lowercase());
        assert!(!canonical.starts_with('.') && !canonical.ends_with('.'));
        let again = validate_domain(&canonical).unwrap();
        assert_eq!(again.requested_domain(), canonical);
    }
}
