//! Validation of authenticated-session requests: the canonical DNS domain a request may
//! name, the cookie domains it unlocks, and the exact window identities it may target.
use vstd::prelude::*;
use crate::protocol::{
    AuthSessionAction, AuthSessionScope, AuthSessionTarget, BrowserKind, TargetView,
};
use crate::text::{
    all_whitespace, all_ws, ascii_lower_seq, chars_of, contains_char, equals_str, is_lower_hex,
    string_from_chars, to_ascii_lowercase, trim, trim_bounds, trim_str, utf8_len,
    utf8_len_exceeds, string_from_range, all_lower_hex, starts_with_str,
};

verus! {

pub const MAX_AUTH_SESSION_DOMAIN_CHARS: usize = 253;
pub const MAX_AUTH_SESSION_REASON_CHARS: usize = 256;

#[derive(Clone, Copy, Debug, PartialEq, Eq, Structural)]
pub enum AuthSiteBundle {
    ExactDomain,
    YouTube,
}

/// The abstract value of a validated target: the domain that was asked for, the cookie
/// domains a grant for it may read, and the bundle those come from.
pub struct AuthTargetView {
    pub requested_domain: Seq<char>,
    pub cookie_domains: Seq<Seq<char>>,
    pub bundle: AuthSiteBundle,
}

#[derive(Clone, Debug, PartialEq, Eq)]
pub struct ValidatedAuthTarget {
    requested_domain: String,
    cookie_domains: Vec<String>,
    bundle: AuthSiteBundle,
}

/// The views of a sequence of strings.
pub open spec fn string_views(v: Seq<String>) -> Seq<Seq<char>> {
    v.map_values(|s: String| s@)
}

impl View for ValidatedAuthTarget {
    type V = AuthTargetView;

    closed spec fn view(&self) -> AuthTargetView {
        AuthTargetView {
            requested_domain: self.requested_domain@,
            cookie_domains: string_views(self.cookie_domains@),
            bundle: self.bundle,
        }
    }
}

impl ValidatedAuthTarget {
    /// The canonical domain that was requested.
    pub fn requested_domain(&self) -> (d: &str)
        ensures
            d@ == self@.requested_domain,
    {
        self.requested_domain.as_str()
    }

    /// The cookie domains a grant for this target may read.
    pub fn cookie_domains(&self) -> (d: &[String])
        ensures
            string_views(d@) == self@.cookie_domains,
    {
        self.cookie_domains.as_slice()
    }

    /// The site bundle the cookie domains come from.
    pub fn bundle(&self) -> (b: AuthSiteBundle)
        ensures
            b == self@.bundle,
    {
        self.bundle
    }

    /// An independent copy with the same value.
    pub fn duplicate(&self) -> (t: ValidatedAuthTarget)
        ensures
            t@ == self@,
    {
        ValidatedAuthTarget {
            requested_domain: self.requested_domain.clone(),
            cookie_domains: clone_strings(self.cookie_domains.as_slice()),
            bundle: self.bundle,
        }
    }
}

/// A copy of a vector of strings with the same views.
pub fn clone_strings(v: &[String]) -> (c: Vec<String>)
    ensures
        string_views(c@) == string_views(v@),
{
    let mut c: Vec<String> = Vec::new();
    let mut i: usize = 0;
    while i < v.len()
        invariant
            i <= v.len(),
            string_views(c@) == string_views(v@.subrange(0, i as int)),
        decreases v.len() - i,
    {
        c.push(v[i].clone());
        assert(string_views(v@.subrange(0, i + 1)) =~= string_views(v@.subrange(0, i as int)).push(v@[i as int]@));
        assert(string_views(c@) =~= string_views(v@.subrange(0, i as int)).push(v@[i as int]@));
        i += 1;
    }
    assert(v@.subrange(0, v@.len() as int) =~= v@);
    c
}

/// The view of an optional string.
pub open spec fn opt_view(o: Option<String>) -> Option<Seq<char>> {
    match o {
        Some(s) => Some(s@),
        None => None,
    }
}

/// A copy of an optional string.
pub fn clone_opt(o: &Option<String>) -> (c: Option<String>)
    ensures
        opt_view(c) == opt_view(*o),
{
    match o {
        Some(s) => Some(s.clone()),
        None => None,
    }
}

#[derive(Clone, Debug, PartialEq, Eq)]
pub enum ValidatedAuthRequest {
    Request {
        target: Option<ValidatedAuthTarget>,
        window_session_id: Option<String>,
        browser: BrowserKind,
        scope: AuthSessionScope,
        reason: Option<String>,
        presentation_window_session_id: Option<String>,
    },
    Status { target: Option<ValidatedAuthTarget>, window_session_id: Option<String> },
    Apply {
        target: Option<ValidatedAuthTarget>,
        target_window_session_id: Option<String>,
        apply_window_session_id: String,
    },
    Revoke { target: Option<ValidatedAuthTarget>, window_session_id: Option<String> },
}

/// The abstract value of a validated request.
pub enum ValidatedRequestView {
    Request {
        target: Option<AuthTargetView>,
        window_session_id: Option<Seq<char>>,
        browser: BrowserKind,
        scope: AuthSessionScope,
        reason: Option<Seq<char>>,
        presentation_window_session_id: Option<Seq<char>>,
    },
    Status { target: Option<AuthTargetView>, window_session_id: Option<Seq<char>> },
    Apply {
        target: Option<AuthTargetView>,
        target_window_session_id: Option<Seq<char>>,
        apply_window_session_id: Seq<char>,
    },
    Revoke { target: Option<AuthTargetView>, window_session_id: Option<Seq<char>> },
}

/// The view of an optional validated target.
pub open spec fn opt_target_view(t: Option<ValidatedAuthTarget>) -> Option<AuthTargetView> {
    match t {
        Some(t) => Some(t@),
        None => None,
    }
}

impl View for ValidatedAuthRequest {
    type V = ValidatedRequestView;

    open spec fn view(&self) -> ValidatedRequestView {
        match self {
            ValidatedAuthRequest::Request {
                target,
                window_session_id,
                browser,
                scope,
                reason,
                presentation_window_session_id,
            } => ValidatedRequestView::Request {
                target: opt_target_view(*target),
                window_session_id: opt_view(*window_session_id),
                browser: *browser,
                scope: *scope,
                reason: opt_view(*reason),
                presentation_window_session_id: opt_view(*presentation_window_session_id),
            },
            ValidatedAuthRequest::Status { target, window_session_id } =>
                ValidatedRequestView::Status {
                target: opt_target_view(*target),
                window_session_id: opt_view(*window_session_id),
            },
            ValidatedAuthRequest::Apply {
                target,
                target_window_session_id,
                apply_window_session_id,
            } => ValidatedRequestView::Apply {
                target: opt_target_view(*target),
                target_window_session_id: opt_view(*target_window_session_id),
                apply_window_session_id: apply_window_session_id@,
            },
            ValidatedAuthRequest::Revoke { target, window_session_id } =>
                ValidatedRequestView::Revoke {
                target: opt_target_view(*target),
                window_session_id: opt_view(*window_session_id),
            },
        }
    }
}

#[derive(Debug, Clone, Copy, PartialEq, Eq, Structural)]
pub enum AuthDomainError {
    BlankDomain,
    InvalidDomainShape,
    DomainTooLong,
    NonDnsHost,
    BlankReason,
    ReasonTooLong,
    InvalidWindowSessionId,
}

/// The text an authenticated-session validation error is reported with.
pub open spec fn domain_error_text(e: AuthDomainError) -> Seq<char> {
    match e {
        AuthDomainError::BlankDomain => "authenticated-session domain must not be blank"@,
        AuthDomainError::InvalidDomainShape => "authenticated-session domain must be a host only, without scheme, path, port, credentials, wildcard, or leading dot"@,
        AuthDomainError::DomainTooLong => "authenticated-session domain exceeds 253 characters after canonicalization"@,
        AuthDomainError::NonDnsHost => "authenticated-session domain must be a DNS hostname, not an IP address or single-label local host"@,
        AuthDomainError::BlankReason => "authenticated-session reason must not be blank when supplied"@,
        AuthDomainError::ReasonTooLong => "authenticated-session reason exceeds 256 characters"@,
        AuthDomainError::InvalidWindowSessionId => "authenticated-session window target must use the exact wsess_<32-lowercase-hex> identity format"@,
    }
}

impl AuthDomainError {
    /// The human-readable description of the error.
    pub fn message(&self) -> (m: &'static str)
        ensures
            m@ == domain_error_text(*self),
    {
        match self {
            AuthDomainError::BlankDomain => "authenticated-session domain must not be blank",
            AuthDomainError::InvalidDomainShape =>
                "authenticated-session domain must be a host only, without scheme, path, port, credentials, wildcard, or leading dot",
            AuthDomainError::DomainTooLong =>
                "authenticated-session domain exceeds 253 characters after canonicalization",
            AuthDomainError::NonDnsHost =>
                "authenticated-session domain must be a DNS hostname, not an IP address or single-label local host",
            AuthDomainError::BlankReason =>
                "authenticated-session reason must not be blank when supplied",
            AuthDomainError::ReasonTooLong =>
                "authenticated-session reason exceeds 256 characters",
            AuthDomainError::InvalidWindowSessionId =>
                "authenticated-session window target must use the exact wsess_<32-lowercase-hex> identity format",
        }
    }
}

/// What `url::Host::parse` makes of a host string, with only what validation reads.
pub enum ParsedHost {
    Domain(String),
    Address,
    Invalid,
}

/// The abstract value of a parsed host.
pub enum HostView {
    Domain(Seq<char>),
    Address,
    Invalid,
}

impl View for ParsedHost {
    type V = HostView;

    open spec fn view(&self) -> HostView {
        match self {
            ParsedHost::Domain(d) => HostView::Domain(d@),
            ParsedHost::Address => HostView::Address,
            ParsedHost::Invalid => HostView::Invalid,
        }
    }
}

/// The host that `url::Host::parse` (WHATWG host parsing: percent-decoding, IDNA
/// to-ASCII mapping, IPv4 and bracketed IPv6 recognition) gives for `input`.
pub uninterp spec fn url_host_parse(input: Seq<char>) -> HostView;

/// Calls `url::Host::parse`; a domain keeps its serialization, an IPv4 or IPv6 address
/// becomes `Address`, and a parse error becomes `Invalid`. The result is the one the
/// name `url_host_parse` gives for the input.
#[verifier::external_body]
fn parse_host(input: &str) -> (h: ParsedHost)
    ensures
        h@ == url_host_parse(input@),
{
    match url::Host::parse(input) {
        Ok(url::Host::Domain(domain)) => ParsedHost::Domain(domain),
        Ok(url::Host::Ipv4(_)) => ParsedHost::Address,
        Ok(url::Host::Ipv6(_)) => ParsedHost::Address,
        Err(_) => ParsedHost::Invalid,
    }
}

/// The five YouTube hosts that share one cookie domain.
pub open spec fn is_youtube_host(d: Seq<char>) -> bool {
    d == "youtube.com"@ || d == "www.youtube.com"@ || d == "m.youtube.com"@ || d
        == "music.youtube.com"@ || d == "youtu.be"@
}

/// The target a canonical domain stands for: a YouTube host maps to the YouTube bundle
/// with the single cookie domain `youtube.com`; any other domain to itself alone.
pub open spec fn target_for_canonical(c: Seq<char>) -> AuthTargetView {
    if is_youtube_host(c) {
        AuthTargetView {
            requested_domain: c,
            cookie_domains: seq!["youtube.com"@],
            bundle: AuthSiteBundle::YouTube,
        }
    } else {
        AuthTargetView {
            requested_domain: c,
            cookie_domains: seq![c],
            bundle: AuthSiteBundle::ExactDomain,
        }
    }
}

/// What validation makes of a parsed host.
pub open spec fn host_outcome(h: HostView) -> Result<AuthTargetView, AuthDomainError> {
    match h {
        HostView::Invalid => Err(AuthDomainError::InvalidDomainShape),
        HostView::Address => Err(AuthDomainError::NonDnsHost),
        HostView::Domain(d) => {
            let c = ascii_lower_seq(d);
            if utf8_len(c) > MAX_AUTH_SESSION_DOMAIN_CHARS {
                Err(AuthDomainError::DomainTooLong)
            } else if !c.contains('.') {
                Err(AuthDomainError::NonDnsHost)
            } else {
                Ok(target_for_canonical(c))
            }
        },
    }
}

/// An accepted domain is in canonical form: it holds a dot, fits
/// `MAX_AUTH_SESSION_DOMAIN_CHARS` bytes, and is its own ASCII lower case.
pub proof fn law_accepted_domain_is_canonical(input: Seq<char>)
    ensures
        domain_outcome(input) matches Ok(t) ==> t.requested_domain.contains('.')
            && utf8_len(t.requested_domain) <= MAX_AUTH_SESSION_DOMAIN_CHARS
            && ascii_lower_seq(t.requested_domain) == t.requested_domain,
{
    if domain_outcome(input) is Ok {
        let h = url_host_parse(without_final_dot(input));
        if let HostView::Domain(d) = h {
            let c = ascii_lower_seq(d);
            assert forall|i: int| 0 <= i < c.len() implies #[trigger] crate::text::ascii_lower(c[i]) == c[i] by {
                assert(c[i] == crate::text::ascii_lower(d[i]));
                if 'A' <= d[i] && d[i] <= 'Z' {
                    assert((d[i] as u32) + 32 >= 97);
                }
            }
            assert(ascii_lower_seq(c) =~= c);
        }
    }
}

/// `s` without one final dot.
pub open spec fn without_final_dot(s: Seq<char>) -> Seq<char> {
    if s.len() > 0 && s.last() == '.' {
        s.drop_last()
    } else {
        s
    }
}

/// The shape error of a domain string, checked before any parsing.
pub open spec fn domain_shape_error(s: Seq<char>) -> Option<AuthDomainError> {
    if s.len() == 0 || all_ws(s) {
        Some(AuthDomainError::BlankDomain)
    } else if trim(s) != s || s.contains('/') || s.contains('\\') || s.contains('@')
        || s.contains(':') || s.contains('*') || s[0] == '.' || s.contains('?')
        || s.contains('#') {
        Some(AuthDomainError::InvalidDomainShape)
    } else if without_final_dot(s).len() == 0 || without_final_dot(s).last() == '.' {
        Some(AuthDomainError::InvalidDomainShape)
    } else {
        None
    }
}

/// What `validate_domain` gives for a domain string.
pub open spec fn domain_outcome(s: Seq<char>) -> Result<AuthTargetView, AuthDomainError> {
    match domain_shape_error(s) {
        Some(e) => Err(e),
        None => host_outcome(url_host_parse(without_final_dot(s))),
    }
}

/// Whether `d` is one of the YouTube hosts.
fn is_youtube(d: &Vec<char>) -> (b: bool)
    ensures
        b == is_youtube_host(d@),
{
    equals_str(d, "youtube.com") || equals_str(d, "www.youtube.com") || equals_str(
        d,
        "m.youtube.com",
    ) || equals_str(d, "music.youtube.com") || equals_str(d, "youtu.be")
}

/// The YouTube bundle for a canonical domain, if it is a YouTube host.
pub fn youtube_bundle(domain: &str) -> (r: Option<(AuthSiteBundle, String, Vec<String>)>)
    ensures
        match r {
            Some((bundle, requested, cookies)) => is_youtube_host(domain@) && bundle
                == AuthSiteBundle::YouTube && requested@ == domain@ && string_views(cookies@)
                == seq!["youtube.com"@],
            None => !is_youtube_host(domain@),
        },
{
    let v = chars_of(domain);
    if is_youtube(&v) {
        let mut cookies: Vec<String> = Vec::new();
        cookies.push(String::from_str("youtube.com"));
        assert(string_views(cookies@) =~= seq!["youtube.com"@]);
        Some((AuthSiteBundle::YouTube, String::from_str(domain), cookies))
    } else {
        None
    }
}

/// Turns what host parsing gave into a validated target: the domain is lower-cased,
/// bounded to `MAX_AUTH_SESSION_DOMAIN_CHARS` bytes and must hold a dot; addresses and
/// unparsable hosts are refused.
pub fn validate_parsed_host(parsed: ParsedHost) -> (r: Result<ValidatedAuthTarget, AuthDomainError>)
    ensures
        match r {
            Ok(t) => host_outcome(parsed@) == Ok::<AuthTargetView, AuthDomainError>(t@),
            Err(e) => host_outcome(parsed@) == Err::<AuthTargetView, AuthDomainError>(e),
        },
{
    match parsed {
        ParsedHost::Invalid => Err(AuthDomainError::InvalidDomainShape),
        ParsedHost::Address => Err(AuthDomainError::NonDnsHost),
        ParsedHost::Domain(domain) => {
            let canonical = to_ascii_lowercase(domain.as_str());
            let cv = chars_of(canonical.as_str());
            if utf8_len_exceeds(&cv, MAX_AUTH_SESSION_DOMAIN_CHARS) {
                return Err(AuthDomainError::DomainTooLong);
            }
            if !contains_char(&cv, '.') {
                return Err(AuthDomainError::NonDnsHost);
            }
            match youtube_bundle(canonical.as_str()) {
                Some((bundle, requested_domain, cookie_domains)) => {
                    Ok(ValidatedAuthTarget { requested_domain, cookie_domains, bundle })
                },
                None => {
                    let mut cookie_domains: Vec<String> = Vec::new();
                    let requested_domain = canonical.clone();
                    cookie_domains.push(canonical);
                    assert(string_views(cookie_domains@) =~= seq![requested_domain@]);
                    Ok(
                        ValidatedAuthTarget {
                            requested_domain,
                            cookie_domains,
                            bundle: AuthSiteBundle::ExactDomain,
                        },
                    )
                },
            }
        },
    }
}

/// Validates a domain named by an authenticated-session request: it must be a bare DNS
/// host (no scheme, path, port, credentials, wildcard or leading dot), is canonicalized
/// by WHATWG host parsing and ASCII lower-casing, and maps to its cookie domains.
pub fn validate_domain(input: &str) -> (r: Result<ValidatedAuthTarget, AuthDomainError>)
    ensures
        match r {
            Ok(t) => domain_outcome(input@) == Ok::<AuthTargetView, AuthDomainError>(t@),
            Err(e) => domain_outcome(input@) == Err::<AuthTargetView, AuthDomainError>(e),
        },
{
    let v = chars_of(input);
    if v.len() == 0 || all_whitespace(&v) {
        return Err(AuthDomainError::BlankDomain);
    }
    let (a, b) = trim_bounds(&v);
    let untrimmed = a != 0 || b != v.len();
    proof {
        if !untrimmed {
            assert(v@.subrange(0, v@.len() as int) =~= v@);
        } else {
            assert(v@.subrange(a as int, b as int).len() != v@.len());
        }
    }
    if untrimmed || contains_char(&v, '/') || contains_char(&v, '\\') || contains_char(&v, '@')
        || contains_char(&v, ':') || contains_char(&v, '*') || v[0] == '.' || contains_char(
        &v,
        '?',
    ) || contains_char(&v, '#') {
        return Err(AuthDomainError::InvalidDomainShape);
    }
    let end = if v[v.len() - 1] == '.' {
        v.len() - 1
    } else {
        v.len()
    };
    assert(v@.drop_last() =~= v@.subrange(0, v@.len() - 1));
    assert(v@.subrange(0, v@.len() as int) =~= v@);
    if end == 0 || v[end - 1] == '.' {
        return Err(AuthDomainError::InvalidDomainShape);
    }
    let stripped = string_from_range(&v, 0, end);
    let parsed = parse_host(stripped.as_str());
    validate_parsed_host(parsed)
}

/// What `validate_reason` gives for an optional reason.
pub open spec fn reason_outcome(r: Option<Seq<char>>) -> Result<Option<Seq<char>>, AuthDomainError> {
    match r {
        None => Ok(None),
        Some(s) => if trim(s).len() == 0 {
            Err(AuthDomainError::BlankReason)
        } else if trim(s).len() > MAX_AUTH_SESSION_REASON_CHARS {
            Err(AuthDomainError::ReasonTooLong)
        } else {
            Ok(Some(trim(s)))
        },
    }
}

/// Validates an optional reason: it is trimmed, must not then be blank, and is bounded
/// to `MAX_AUTH_SESSION_REASON_CHARS` characters.
pub fn validate_reason(reason: Option<&str>) -> (r: Result<Option<String>, AuthDomainError>)
    ensures
        match r {
            Ok(o) => reason_outcome(
                match reason {
                    Some(s) => Some(s@),
                    None => None,
                },
            ) == Ok::<Option<Seq<char>>, AuthDomainError>(opt_view(o)),
            Err(e) => reason_outcome(
                match reason {
                    Some(s) => Some(s@),
                    None => None,
                },
            ) == Err::<Option<Seq<char>>, AuthDomainError>(e),
        },
{
    match reason {
        None => Ok(None),
        Some(reason) => {
            let trimmed = trim_str(reason);
            let n = trimmed.as_str().unicode_len();
            if n == 0 {
                return Err(AuthDomainError::BlankReason);
            }
            if n > MAX_AUTH_SESSION_REASON_CHARS {
                return Err(AuthDomainError::ReasonTooLong);
            }
            Ok(Some(trimmed))
        },
    }
}

/// The exact window identity format: `wsess_` followed by 32 lower-case hex digits.
pub open spec fn is_window_session_id(s: Seq<char>) -> bool {
    &&& "wsess_"@.is_prefix_of(s)
    &&& s.len() == "wsess_"@.len() + 32
    &&& forall|i: int| "wsess_"@.len() <= i < s.len() ==> is_lower_hex(#[trigger] s[i])
}

/// Checks the exact window identity format.
pub fn validate_window_session_id(value: &str) -> (r: Result<(), AuthDomainError>)
    ensures
        r is Ok <==> is_window_session_id(value@),
        r is Err ==> r == Err::<(), AuthDomainError>(AuthDomainError::InvalidWindowSessionId),
{
    let v = chars_of(value);
    if !starts_with_str(&v, "wsess_") {
        return Err(AuthDomainError::InvalidWindowSessionId);
    }
    let p = chars_of("wsess_");
    if v.len() - p.len() != 32 || !all_lower_hex(&v, p.len()) {
        return Err(AuthDomainError::InvalidWindowSessionId);
    }
    Ok(())
}

/// What a target validates to: a domain target gives its validated domain, a window
/// target its exact identity.
pub open spec fn target_outcome(t: TargetView) -> Result<
    (Option<AuthTargetView>, Option<Seq<char>>),
    AuthDomainError,
> {
    match t {
        TargetView::Domain(d) => match domain_outcome(d) {
            Ok(v) => Ok((Some(v), None)),
            Err(e) => Err(e),
        },
        TargetView::Window(w) => if is_window_session_id(w) {
            Ok((None, Some(w)))
        } else {
            Err(AuthDomainError::InvalidWindowSessionId)
        },
    }
}

/// Validates a target.
pub fn validate_target(target: &AuthSessionTarget) -> (r: Result<
    (Option<ValidatedAuthTarget>, Option<String>),
    AuthDomainError,
>)
    ensures
        match r {
            Ok((t, w)) => target_outcome(target@) == Ok::<
                (Option<AuthTargetView>, Option<Seq<char>>),
                AuthDomainError,
            >((opt_target_view(t), opt_view(w))),
            Err(e) => target_outcome(target@) == Err::<
                (Option<AuthTargetView>, Option<Seq<char>>),
                AuthDomainError,
            >(e),
        },
{
    match target {
        AuthSessionTarget::Domain { domain } => match validate_domain(domain.as_str()) {
            Ok(t) => Ok((Some(t), None)),
            Err(e) => Err(e),
        },
        AuthSessionTarget::Window { window_session_id } => {
            match validate_window_session_id(window_session_id.as_str()) {
                Ok(()) => Ok((None, Some(window_session_id.clone()))),
                Err(e) => Err(e),
            }
        },
    }
}


/// What `validate_action` gives for an action.
pub open spec fn action_outcome(a: AuthSessionAction) -> Result<ValidatedRequestView, AuthDomainError> {
    match a {
        AuthSessionAction::Request {
            target,
            browser,
            scope,
            reason,
            presentation_window_session_id,
        } => match target_outcome(target@) {
            Err(e) => Err(e),
            Ok((t, w)) => match reason_outcome(opt_view(reason)) {
                Err(e) => Err(e),
                Ok(r) => {
                    let p = opt_view(presentation_window_session_id);
                    if p is Some && !is_window_session_id(p->0) {
                        Err(AuthDomainError::InvalidWindowSessionId)
                    } else if w is Some && p is Some {
                        Err(AuthDomainError::InvalidWindowSessionId)
                    } else if t is Some && p is None {
                        Err(AuthDomainError::InvalidWindowSessionId)
                    } else {
                        Ok(
                            ValidatedRequestView::Request {
                                target: t,
                                window_session_id: w,
                                browser,
                                scope,
                                reason: r,
                                presentation_window_session_id: p,
                            },
                        )
                    }
                },
            },
        },
        AuthSessionAction::Status { target } => match target_outcome(target@) {
            Err(e) => Err(e),
            Ok((t, w)) => Ok(ValidatedRequestView::Status { target: t, window_session_id: w }),
        },
        AuthSessionAction::Apply { target, window_session_id } => match target_outcome(
            target@,
        ) {
            Err(e) => Err(e),
            Ok((t, w)) => if !is_window_session_id(window_session_id@) {
                Err(AuthDomainError::InvalidWindowSessionId)
            } else if w is Some && w->0 != window_session_id@ {
                Err(AuthDomainError::InvalidWindowSessionId)
            } else {
                Ok(
                    ValidatedRequestView::Apply {
                        target: t,
                        target_window_session_id: w,
                        apply_window_session_id: window_session_id@,
                    },
                )
            },
        },
        AuthSessionAction::Revoke { target } => match target_outcome(target@) {
            Err(e) => Err(e),
            Ok((t, w)) => Ok(ValidatedRequestView::Revoke { target: t, window_session_id: w }),
        },
    }
}

/// Validates an authenticated-session action: its target, its reason, and the window
/// identities it names. A domain request must name the window that presents consent,
/// and a window request must not name another one; an apply to a window target must
/// apply to that same window.
pub fn validate_action(action: &AuthSessionAction) -> (r: Result<ValidatedAuthRequest, AuthDomainError>)
    ensures
        match r {
            Ok(v) => action_outcome(*action) == Ok::<ValidatedRequestView, AuthDomainError>(v@),
            Err(e) => action_outcome(*action) == Err::<ValidatedRequestView, AuthDomainError>(e),
        },
{
    match action {
        AuthSessionAction::Request {
            target,
            browser,
            scope,
            reason,
            presentation_window_session_id,
        } => {
            let (target, window_session_id) = match validate_target(target) {
                Ok(x) => x,
                Err(e) => return Err(e),
            };
            let reason_text: Option<&str> = match reason {
                Some(r) => Some(r.as_str()),
                None => None,
            };
            let reason = match validate_reason(reason_text) {
                Ok(r) => r,
                Err(e) => return Err(e),
            };
            let presentation = match presentation_window_session_id {
                Some(id) => {
                    if validate_window_session_id(id.as_str()).is_err() {
                        return Err(AuthDomainError::InvalidWindowSessionId);
                    }
                    Some(id.clone())
                },
                None => None,
            };
            if window_session_id.is_some() && presentation.is_some() {
                return Err(AuthDomainError::InvalidWindowSessionId);
            }
            if target.is_some() && presentation.is_none() {
                return Err(AuthDomainError::InvalidWindowSessionId);
            }
            Ok(
                ValidatedAuthRequest::Request {
                    target,
                    window_session_id,
                    browser: *browser,
                    scope: *scope,
                    reason,
                    presentation_window_session_id: presentation,
                },
            )
        },
        AuthSessionAction::Status { target } => {
            let (target, window_session_id) = match validate_target(target) {
                Ok(x) => x,
                Err(e) => return Err(e),
            };
            Ok(ValidatedAuthRequest::Status { target, window_session_id })
        },
        AuthSessionAction::Apply { target, window_session_id } => {
            let (target, target_window_session_id) = match validate_target(target) {
                Ok(x) => x,
                Err(e) => return Err(e),
            };
            if validate_window_session_id(window_session_id.as_str()).is_err() {
                return Err(AuthDomainError::InvalidWindowSessionId);
            }
            match &target_window_session_id {
                Some(expected) => {
                    if !string_eq(expected, window_session_id) {
                        return Err(AuthDomainError::InvalidWindowSessionId);
                    }
                },
                None => {},
            }
            Ok(
                ValidatedAuthRequest::Apply {
                    target,
                    target_window_session_id,
                    apply_window_session_id: window_session_id.clone(),
                },
            )
        },
        AuthSessionAction::Revoke { target } => {
            let (target, window_session_id) = match validate_target(target) {
                Ok(x) => x,
                Err(e) => return Err(e),
            };
            Ok(ValidatedAuthRequest::Revoke { target, window_session_id })
        },
    }
}

/// String equality by contents.
pub fn string_eq(a: &String, b: &String) -> (r: bool)
    ensures
        r == (a@ == b@),
{
    a.eq(b)
}

} // verus!
