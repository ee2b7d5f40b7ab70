//! The authenticated-session authority: the record of every consent request, the
//! trusted decision on it, and whether the browser session it unlocks is loaded and
//! applied to a window.
use vstd::prelude::*;
use crate::auth_domain::{
    clone_opt, clone_strings, opt_view, string_eq, string_views, validate_action,
    AuthDomainError, AuthSiteBundle, AuthTargetView, ValidatedAuthRequest, ValidatedAuthTarget,
    ValidatedRequestView, action_outcome, opt_target_view,
};
use crate::protocol::{
    AuthSessionAction, AuthSessionDecision, AuthSessionResult, AuthSessionScope,
    AuthSessionState, AuthSessionTarget, AuthStateView, BrowserKind, TargetView,
};

verus! {

#[derive(Clone, Debug, PartialEq, Eq)]
pub enum AuthGrantTarget {
    Domain(String),
    Window(String),
}

impl View for AuthGrantTarget {
    type V = TargetView;

    open spec fn view(&self) -> TargetView {
        match self {
            AuthGrantTarget::Domain(d) => TargetView::Domain(d@),
            AuthGrantTarget::Window(w) => TargetView::Window(w@),
        }
    }
}

impl AuthGrantTarget {
    /// An independent copy with the same value.
    pub fn duplicate(&self) -> (t: AuthGrantTarget)
        ensures
            t@ == self@,
    {
        match self {
            AuthGrantTarget::Domain(d) => AuthGrantTarget::Domain(d.clone()),
            AuthGrantTarget::Window(w) => AuthGrantTarget::Window(w.clone()),
        }
    }

    /// The protocol target this key names.
    pub fn to_session_target(&self) -> (t: AuthSessionTarget)
        ensures
            t@ == self@,
    {
        match self {
            AuthGrantTarget::Domain(d) => AuthSessionTarget::Domain { domain: d.clone() },
            AuthGrantTarget::Window(w) => AuthSessionTarget::Window {
                window_session_id: w.clone(),
            },
        }
    }
}

/// Whether two keys name the same target.
pub fn same_target(a: &AuthGrantTarget, b: &AuthGrantTarget) -> (r: bool)
    ensures
        r == (a@ == b@),
{
    match (a, b) {
        (AuthGrantTarget::Domain(x), AuthGrantTarget::Domain(y)) => string_eq(x, y),
        (AuthGrantTarget::Window(x), AuthGrantTarget::Window(y)) => string_eq(x, y),
        _ => false,
    }
}

#[derive(Clone, Debug, PartialEq, Eq)]
pub struct PendingAuthGrant {
    pub target: AuthGrantTarget,
    pub domain: String,
    pub window_session_id: Option<String>,
    pub browser: BrowserKind,
    pub scope: AuthSessionScope,
    pub reason: Option<String>,
    pub cookie_domains: Vec<String>,
    pub bundle: AuthSiteBundle,
}

/// The abstract value of a grant: what was requested, for which target.
pub struct GrantView {
    pub target: TargetView,
    pub domain: Seq<char>,
    pub window_session_id: Option<Seq<char>>,
    pub browser: BrowserKind,
    pub scope: AuthSessionScope,
    pub reason: Option<Seq<char>>,
    pub cookie_domains: Seq<Seq<char>>,
    pub bundle: AuthSiteBundle,
}

impl View for PendingAuthGrant {
    type V = GrantView;

    open spec fn view(&self) -> GrantView {
        GrantView {
            target: self.target@,
            domain: self.domain@,
            window_session_id: opt_view(self.window_session_id),
            browser: self.browser,
            scope: self.scope,
            reason: opt_view(self.reason),
            cookie_domains: string_views(self.cookie_domains@),
            bundle: self.bundle,
        }
    }
}

impl PendingAuthGrant {
    /// An independent copy with the same value.
    pub fn duplicate(&self) -> (g: PendingAuthGrant)
        ensures
            g@ == self@,
    {
        PendingAuthGrant {
            target: self.target.duplicate(),
            domain: self.domain.clone(),
            window_session_id: clone_opt(&self.window_session_id),
            browser: self.browser,
            scope: self.scope,
            reason: clone_opt(&self.reason),
            cookie_domains: clone_strings(self.cookie_domains.as_slice()),
            bundle: self.bundle,
        }
    }
}

fn opt_string_eq(a: &Option<String>, b: &Option<String>) -> (r: bool)
    ensures
        r == (opt_view(*a) == opt_view(*b)),
{
    match (a, b) {
        (Some(x), Some(y)) => string_eq(x, y),
        (None, None) => true,
        _ => false,
    }
}

fn strings_eq(a: &Vec<String>, b: &Vec<String>) -> (r: bool)
    ensures
        r == (string_views(a@) == string_views(b@)),
{
    if a.len() != b.len() {
        assert(string_views(a@).len() != string_views(b@).len());
        return false;
    }
    let mut i: usize = 0;
    while i < a.len()
        invariant
            i <= a.len() == b.len(),
            forall|j: int| 0 <= j < i ==> a@[j]@ == b@[j]@,
        decreases a.len() - i,
    {
        if !string_eq(&a[i], &b[i]) {
            assert(string_views(a@)[i as int] != string_views(b@)[i as int]);
            return false;
        }
        i += 1;
    }
    assert(string_views(a@) =~= string_views(b@));
    true
}

/// Whether two grants hold the same request.
pub fn grants_equal(a: &PendingAuthGrant, b: &PendingAuthGrant) -> (r: bool)
    ensures
        r == (a@ == b@),
{
    same_target(&a.target, &b.target) && string_eq(&a.domain, &b.domain) && opt_string_eq(
        &a.window_session_id,
        &b.window_session_id,
    ) && a.browser == b.browser && a.scope == b.scope && opt_string_eq(&a.reason, &b.reason)
        && strings_eq(&a.cookie_domains, &b.cookie_domains) && a.bundle == b.bundle
}

/// The abstract state of one grant: its request, the trusted decision on it, whether
/// its browser session is loaded (`available`) and whether a window uses it (`applied`).
pub struct GrantState {
    pub grant: GrantView,
    pub decision: AuthSessionDecision,
    pub available: bool,
    pub applied: bool,
}

/// A capability exists only under an authorized decision, and a session is applied
/// only while it is available.
pub open spec fn capability_ok(s: GrantState) -> bool {
    &&& s.available ==> s.decision == AuthSessionDecision::Authorized
    &&& s.applied ==> s.available
}

/// The abstract value of the authority: each target's grant state.
pub type GrantMap = Map<TargetView, GrantState>;

/// Every recorded state is keyed by its own target and holds the capability invariant.
pub open spec fn grant_map_ok(m: GrantMap) -> bool {
    forall|k: TargetView| #[trigger] m.contains_key(k) ==> capability_ok(m[k]) && m[k].grant.target
        == k
}

#[derive(Clone, Copy, Debug, PartialEq, Eq, Structural)]
pub enum AuthAuthorityError {
    Validation(AuthDomainError),
    RememberedUnsupported,
    WindowDomainUnavailable,
    GrantNotFound,
    NotAuthorized,
    GrantInUse,
}

/// The text an authority refusal is reported with.
pub open spec fn authority_error_text(e: AuthAuthorityError) -> Seq<char> {
    match e {
        AuthAuthorityError::Validation(d) => crate::auth_domain::domain_error_text(d),
        AuthAuthorityError::RememberedUnsupported => "remembered authenticated sessions are reserved but unsupported until secure persistence is implemented"@,
        AuthAuthorityError::WindowDomainUnavailable => "authenticated-session window target does not resolve to an HTTP(S) web domain"@,
        AuthAuthorityError::GrantNotFound => "authenticated-session consent target was not requested"@,
        AuthAuthorityError::NotAuthorized => "authenticated-session state transition requires an authorized grant"@,
        AuthAuthorityError::GrantInUse => "authenticated-session grant is actively applied and must be cleaned up before it can be replaced"@,
    }
}

impl AuthAuthorityError {
    /// The human-readable description of the error.
    pub fn message(&self) -> (m: &'static str)
        ensures
            m@ == authority_error_text(*self),
    {
        match self {
            AuthAuthorityError::Validation(e) => e.message(),
            AuthAuthorityError::RememberedUnsupported =>
                "remembered authenticated sessions are reserved but unsupported until secure persistence is implemented",
            AuthAuthorityError::WindowDomainUnavailable =>
                "authenticated-session window target does not resolve to an HTTP(S) web domain",
            AuthAuthorityError::GrantNotFound =>
                "authenticated-session consent target was not requested",
            AuthAuthorityError::NotAuthorized =>
                "authenticated-session state transition requires an authorized grant",
            AuthAuthorityError::GrantInUse =>
                "authenticated-session grant is actively applied and must be cleaned up before it can be replaced",
        }
    }
}

/// The view of an authority answer.
pub open spec fn answer_view(r: Result<AuthSessionResult, AuthAuthorityError>) -> Result<
    AuthStateView,
    AuthAuthorityError,
> {
    match r {
        Ok(res) => Ok(res@),
        Err(e) => Err(e),
    }
}

/// What the authority reports for a grant state.
pub open spec fn report(s: GrantState) -> AuthStateView {
    AuthStateView {
        target: s.grant.target,
        canonical_domain: s.grant.domain,
        browser: s.grant.browser,
        scope: s.grant.scope,
        decision: s.decision,
        available: s.available,
        applied: s.applied,
        reason: s.grant.reason,
    }
}

/// A state with every capability withdrawn and the given decision.
pub open spec fn withdrawn(s: GrantState, d: AuthSessionDecision) -> GrantState {
    GrantState { grant: s.grant, decision: d, available: false, applied: false }
}

/// The grant a request asks for, or the error that refuses it before the record is
/// consulted.
pub open spec fn requested_grant(v: ValidatedRequestView, resolved: Option<AuthTargetView>) -> Result<
    GrantView,
    AuthAuthorityError,
> {
    match v {
        ValidatedRequestView::Request {
            target,
            window_session_id,
            browser,
            scope,
            reason,
            presentation_window_session_id,
        } => if scope == AuthSessionScope::Remembered {
            Err(AuthAuthorityError::RememberedUnsupported)
        } else {
            match (target, window_session_id) {
                (Some(t), None) => match presentation_window_session_id {
                    None => Err(AuthAuthorityError::GrantNotFound),
                    Some(p) => Ok(
                        GrantView {
                            target: TargetView::Domain(t.requested_domain),
                            domain: t.requested_domain,
                            window_session_id: Some(p),
                            browser,
                            scope,
                            reason,
                            cookie_domains: t.cookie_domains,
                            bundle: t.bundle,
                        },
                    ),
                },
                (None, Some(w)) => if presentation_window_session_id is Some {
                    Err(AuthAuthorityError::GrantNotFound)
                } else {
                    match resolved {
                        None => Err(AuthAuthorityError::WindowDomainUnavailable),
                        Some(t) => Ok(
                            GrantView {
                                target: TargetView::Window(w),
                                domain: t.requested_domain,
                                window_session_id: Some(w),
                                browser,
                                scope,
                                reason,
                                cookie_domains: t.cookie_domains,
                                bundle: t.bundle,
                            },
                        ),
                    }
                },
                _ => Err(AuthAuthorityError::GrantNotFound),
            }
        },
        _ => Err(AuthAuthorityError::GrantNotFound),
    }
}

/// A consent request: a matching grant that is already authorized is answered as it
/// stands; an applied grant is not replaced; otherwise the request is recorded as
/// pending, with no capability.
pub open spec fn request_step(m: GrantMap, v: ValidatedRequestView, resolved: Option<AuthTargetView>) -> (
    GrantMap,
    Result<AuthStateView, AuthAuthorityError>,
) {
    match requested_grant(v, resolved) {
        Err(e) => (m, Err(e)),
        Ok(g) => {
            let k = g.target;
            if m.contains_key(k) && m[k].decision == AuthSessionDecision::Authorized
                && m[k].grant.browser == g.browser && m[k].grant.scope == g.scope
                && m[k].grant.domain == g.domain {
                (m, Ok(report(m[k])))
            } else if m.contains_key(k) && m[k].applied {
                (m, Err(AuthAuthorityError::GrantInUse))
            } else {
                let s = GrantState {
                    grant: g,
                    decision: AuthSessionDecision::Pending,
                    available: false,
                    applied: false,
                };
                (m.insert(k, s), Ok(report(s)))
            }
        },
    }
}

/// The key a status or revoke request names, with the domain reported for a target
/// that has no record.
pub open spec fn status_key(
    target: Option<AuthTargetView>,
    window_session_id: Option<Seq<char>>,
    resolved: Option<AuthTargetView>,
) -> Option<(TargetView, Seq<char>)> {
    match (target, window_session_id) {
        (Some(t), None) => Some((TargetView::Domain(t.requested_domain), t.requested_domain)),
        (None, Some(w)) => Some(
            (
                TargetView::Window(w),
                match resolved {
                    Some(t) => t.requested_domain,
                    None => Seq::<char>::empty(),
                },
            ),
        ),
        _ => None,
    }
}

/// The state reported for a target that was never requested: denied, with nothing
/// available or applied.
pub open spec fn unrequested_report(k: TargetView, fallback_domain: Seq<char>) -> AuthStateView {
    AuthStateView {
        target: k,
        canonical_domain: match k {
            TargetView::Domain(d) => d,
            TargetView::Window(_) => fallback_domain,
        },
        browser: BrowserKind::Firefox,
        scope: AuthSessionScope::Session,
        decision: AuthSessionDecision::Denied,
        available: false,
        applied: false,
        reason: None,
    }
}

/// What a status request reports.
pub open spec fn status_answer(m: GrantMap, target: Option<AuthTargetView>, window_session_id: Option<Seq<char>>, resolved: Option<AuthTargetView>) -> Result<AuthStateView, AuthAuthorityError> {
    match status_key(target, window_session_id, resolved) {
        None => Err(AuthAuthorityError::GrantNotFound),
        Some((k, fallback)) => if m.contains_key(k) {
            Ok(report(m[k]))
        } else {
            Ok(unrequested_report(k, fallback))
        },
    }
}

/// A status request reads the record and changes nothing.
pub open spec fn status_step(m: GrantMap, v: ValidatedRequestView, resolved: Option<AuthTargetView>) -> Result<AuthStateView, AuthAuthorityError> {
    match v {
        ValidatedRequestView::Status { target, window_session_id } => status_answer(
            m,
            target,
            window_session_id,
            resolved,
        ),
        _ => Err(AuthAuthorityError::GrantNotFound),
    }
}

/// A revoke request withdraws every capability of the named grant and marks it revoked;
/// for a target with no record it reports what a status request would.
pub open spec fn revoke_step(m: GrantMap, v: ValidatedRequestView, resolved: Option<AuthTargetView>) -> (
    GrantMap,
    Result<AuthStateView, AuthAuthorityError>,
) {
    match v {
        ValidatedRequestView::Revoke { target, window_session_id } => match status_key(
            target,
            window_session_id,
            resolved,
        ) {
            None => (m, Err(AuthAuthorityError::GrantNotFound)),
            Some((k, fallback)) => if m.contains_key(k) {
                let s = withdrawn(m[k], AuthSessionDecision::Revoked);
                (m.insert(k, s), Ok(report(s)))
            } else {
                (m, Ok(unrequested_report(k, fallback)))
            },
        },
        _ => (m, Err(AuthAuthorityError::GrantNotFound)),
    }
}

/// The trusted decision on a pending grant. Only a pending grant can be decided, and
/// only the exact grant the decider saw when one is given; any decision other than
/// authorization withdraws every capability.
pub open spec fn decide_step(m: GrantMap, k: TargetView, expected: Option<GrantView>, d: AuthSessionDecision) -> (
    GrantMap,
    Result<AuthStateView, AuthAuthorityError>,
) {
    if !m.contains_key(k) {
        (m, Err(AuthAuthorityError::GrantNotFound))
    } else if m[k].decision != AuthSessionDecision::Pending || (expected is Some && expected->0
        != m[k].grant) {
        (m, Err(AuthAuthorityError::GrantNotFound))
    } else {
        let s = if d != AuthSessionDecision::Authorized {
            withdrawn(m[k], d)
        } else {
            GrantState { decision: d, ..m[k] }
        };
        (m.insert(k, s), Ok(report(s)))
    }
}

/// Records whether the browser session of an authorized grant is loaded; unloading it
/// also unapplies it.
pub open spec fn mark_available_step(m: GrantMap, k: TargetView, available: bool) -> (
    GrantMap,
    Result<AuthStateView, AuthAuthorityError>,
) {
    if !m.contains_key(k) {
        (m, Err(AuthAuthorityError::GrantNotFound))
    } else if m[k].decision != AuthSessionDecision::Authorized {
        (m, Err(AuthAuthorityError::NotAuthorized))
    } else {
        let s = GrantState {
            available,
            applied: if available {
                m[k].applied
            } else {
                false
            },
            ..m[k]
        };
        (m.insert(k, s), Ok(report(s)))
    }
}

/// Records whether an authorized, available session is applied to a window.
pub open spec fn mark_applied_step(m: GrantMap, k: TargetView, applied: bool) -> (
    GrantMap,
    Result<AuthStateView, AuthAuthorityError>,
) {
    if !m.contains_key(k) {
        (m, Err(AuthAuthorityError::GrantNotFound))
    } else if m[k].decision != AuthSessionDecision::Authorized {
        (m, Err(AuthAuthorityError::NotAuthorized))
    } else if applied && !m[k].available {
        (m, Err(AuthAuthorityError::NotAuthorized))
    } else {
        let s = GrantState { applied, ..m[k] };
        (m.insert(k, s), Ok(report(s)))
    }
}

/// After a session was used, a grant of scope `Once` is revoked; any other grant stays
/// as it is.
pub open spec fn clear_once_step(m: GrantMap, k: TargetView) -> (
    GrantMap,
    Result<AuthStateView, AuthAuthorityError>,
) {
    if !m.contains_key(k) {
        (m, Err(AuthAuthorityError::GrantNotFound))
    } else if m[k].grant.scope == AuthSessionScope::Once {
        let s = withdrawn(m[k], AuthSessionDecision::Revoked);
        (m.insert(k, s), Ok(report(s)))
    } else {
        (m, Ok(report(m[k])))
    }
}

/// When a window goes away, the grant keyed by that window is revoked.
pub open spec fn revoke_window_step(m: GrantMap, w: Seq<char>) -> GrantMap {
    let k = TargetView::Window(w);
    if m.contains_key(k) {
        m.insert(k, withdrawn(m[k], AuthSessionDecision::Revoked))
    } else {
        m
    }
}

/// What `dispatch_action` does with an action.
pub open spec fn dispatch_step(m: GrantMap, a: AuthSessionAction, resolved: Option<AuthTargetView>) -> (
    GrantMap,
    Result<AuthStateView, AuthAuthorityError>,
) {
    match action_outcome(a) {
        Err(e) => (m, Err(AuthAuthorityError::Validation(e))),
        Ok(v) => match v {
            ValidatedRequestView::Request { .. } => request_step(m, v, resolved),
            ValidatedRequestView::Status { .. } => (m, status_step(m, v, resolved)),
            ValidatedRequestView::Apply { .. } => (m, Err(AuthAuthorityError::GrantNotFound)),
            ValidatedRequestView::Revoke { .. } => revoke_step(m, v, resolved),
        },
    }
}

/// No target became authorized that was not authorized before.
pub open spec fn no_new_authorization(pre: GrantMap, post: GrantMap) -> bool {
    forall|k: TargetView|
        #[trigger] post.contains_key(k) && post[k].decision == AuthSessionDecision::Authorized
            ==> pre.contains_key(k) && pre[k].decision == AuthSessionDecision::Authorized
}

/// Every operation of the authority keeps the capability invariant: no session is
/// available without an authorized grant, none is applied without being available, and
/// each state stays keyed by its own target.
pub proof fn law_capability_invariant_is_kept(
    m: GrantMap,
    v: ValidatedRequestView,
    resolved: Option<AuthTargetView>,
    k: TargetView,
    expected: Option<GrantView>,
    d: AuthSessionDecision,
    flag: bool,
    w: Seq<char>,
    a: AuthSessionAction,
)
    requires
        grant_map_ok(m),
    ensures
        grant_map_ok(request_step(m, v, resolved).0),
        grant_map_ok(revoke_step(m, v, resolved).0),
        grant_map_ok(decide_step(m, k, expected, d).0),
        grant_map_ok(mark_available_step(m, k, flag).0),
        grant_map_ok(mark_applied_step(m, k, flag).0),
        grant_map_ok(clear_once_step(m, k).0),
        grant_map_ok(revoke_window_step(m, w)),
        grant_map_ok(dispatch_step(m, a, resolved).0),
{
    let m1 = request_step(m, v, resolved).0;
    assert forall|j: TargetView| #[trigger] m1.contains_key(j) implies capability_ok(m1[j])
        && m1[j].grant.target == j by {
        if !m.contains_key(j) {
        }
    }
    match action_outcome(a) {
        Ok(v2) => {
            let m2 = request_step(m, v2, resolved).0;
            assert forall|j: TargetView| #[trigger] m2.contains_key(j) implies capability_ok(m2[j])
                && m2[j].grant.target == j by {
                if !m.contains_key(j) {
                }
            }
        },
        Err(_) => {},
    }
}

/// Consent cannot be forged: no operation but a trusted authorization makes a target
/// authorized, and a trusted authorization makes only the one pending grant it names
/// authorized.
pub proof fn law_authorization_only_by_trusted_decision(
    m: GrantMap,
    v: ValidatedRequestView,
    resolved: Option<AuthTargetView>,
    k: TargetView,
    expected: Option<GrantView>,
    d: AuthSessionDecision,
    flag: bool,
    w: Seq<char>,
    a: AuthSessionAction,
)
    ensures
        no_new_authorization(m, request_step(m, v, resolved).0),
        no_new_authorization(m, revoke_step(m, v, resolved).0),
        no_new_authorization(m, mark_available_step(m, k, flag).0),
        no_new_authorization(m, mark_applied_step(m, k, flag).0),
        no_new_authorization(m, clear_once_step(m, k).0),
        no_new_authorization(m, revoke_window_step(m, w)),
        no_new_authorization(m, dispatch_step(m, a, resolved).0),
        d != AuthSessionDecision::Authorized ==> no_new_authorization(
            m,
            decide_step(m, k, expected, d).0,
        ),
        forall|j: TargetView|
            #[trigger] decide_step(m, k, expected, d).0.contains_key(j) && decide_step(
                m,
                k,
                expected,
                d,
            ).0[j].decision == AuthSessionDecision::Authorized ==> m.contains_key(j) && (
            m[j].decision == AuthSessionDecision::Authorized || (j == k && m[k].decision
                == AuthSessionDecision::Pending)),
{
}

/// A request is recorded pending and unlocks nothing: marking it available or applied
/// is refused until the trusted host authorizes it, after which it can be made
/// available, and then applied.
pub proof fn law_pending_until_trusted_authorization(
    m: GrantMap,
    v: ValidatedRequestView,
    resolved: Option<AuthTargetView>,
    flag: bool,
)
    requires
        request_step(m, v, resolved).1 is Ok,
        request_step(m, v, resolved).1->Ok_0.decision == AuthSessionDecision::Pending,
    ensures
        ({
            let m2 = request_step(m, v, resolved).0;
            let k = request_step(m, v, resolved).1->Ok_0.target;
            &&& m2.contains_key(k)
            &&& !m2[k].available && !m2[k].applied
            &&& mark_available_step(m2, k, flag) == (m2, Err::<AuthStateView, AuthAuthorityError>(
                AuthAuthorityError::NotAuthorized,
            ))
            &&& mark_applied_step(m2, k, flag) == (m2, Err::<AuthStateView, AuthAuthorityError>(
                AuthAuthorityError::NotAuthorized,
            ))
            &&& {
                let (m3, r3) = decide_step(m2, k, None, AuthSessionDecision::Authorized);
                &&& r3 is Ok
                &&& r3->Ok_0.decision == AuthSessionDecision::Authorized
                &&& !r3->Ok_0.available
                &&& {
                    let (m4, r4) = mark_available_step(m3, k, true);
                    &&& r4 is Ok && r4->Ok_0.available
                    &&& mark_applied_step(m4, k, true).1 is Ok
                    &&& mark_applied_step(m4, k, true).1->Ok_0.applied
                }
            }
        }),
{
}

/// After use, a grant of scope `Once` is revoked with every capability withdrawn; a
/// grant of any other scope is left exactly as it was.
pub proof fn law_once_grant_is_cleared_after_use(m: GrantMap, k: TargetView)
    requires
        m.contains_key(k),
    ensures
        m[k].grant.scope == AuthSessionScope::Once ==> ({
            let m2 = clear_once_step(m, k).0;
            &&& m2[k].decision == AuthSessionDecision::Revoked
            &&& !m2[k].available && !m2[k].applied
        }),
        m[k].grant.scope != AuthSessionScope::Once ==> clear_once_step(m, k) == (
            m,
            Ok::<AuthStateView, AuthAuthorityError>(report(m[k])),
        ),
{
}

/// Denial and revocation leave no capability behind.
pub proof fn law_denial_and_revoke_clear_capability(
    m: GrantMap,
    k: TargetView,
    expected: Option<GrantView>,
    v: ValidatedRequestView,
    resolved: Option<AuthTargetView>,
    w: Seq<char>,
)
    ensures
        decide_step(m, k, expected, AuthSessionDecision::Denied).1 is Ok ==> ({
            let m2 = decide_step(m, k, expected, AuthSessionDecision::Denied).0;
            m2[k].decision == AuthSessionDecision::Denied && !m2[k].available && !m2[k].applied
        }),
        forall|j: TargetView|
            #[trigger] revoke_step(m, v, resolved).0.contains_key(j) && revoke_step(
                m,
                v,
                resolved,
            ).0[j] != m[j] ==> revoke_step(m, v, resolved).0[j].decision
                == AuthSessionDecision::Revoked && !revoke_step(m, v, resolved).0[j].available
                && !revoke_step(m, v, resolved).0[j].applied,
        revoke_window_step(m, w).contains_key(TargetView::Window(w)) ==> ({
            let s = revoke_window_step(m, w)[TargetView::Window(w)];
            s.decision == AuthSessionDecision::Revoked && !s.available && !s.applied
        }),
{
}

/// Asking again for a grant that is already authorized, with the same browser, scope
/// and domain, changes nothing and reports the authorized grant.
pub proof fn law_repeated_authorized_request_is_idempotent(
    m: GrantMap,
    v: ValidatedRequestView,
    resolved: Option<AuthTargetView>,
)
    requires
        requested_grant(v, resolved) is Ok,
        ({
            let g = requested_grant(v, resolved)->Ok_0;
            m.contains_key(g.target) && m[g.target].decision == AuthSessionDecision::Authorized
                && m[g.target].grant.browser == g.browser && m[g.target].grant.scope == g.scope
                && m[g.target].grant.domain == g.domain
        }),
    ensures
        request_step(m, v, resolved) == (
            m,
            Ok::<AuthStateView, AuthAuthorityError>(
                report(m[requested_grant(v, resolved)->Ok_0.target]),
            ),
        ),
        ({
            let (m2, r2) = request_step(m, v, resolved);
            request_step(m2, v, resolved) == (m2, r2)
        }),
{
}

struct GrantRecord {
    grant: PendingAuthGrant,
    decision: AuthSessionDecision,
    available: bool,
    applied: bool,
}

spec fn rec_key(r: GrantRecord) -> TargetView {
    r.grant.target@
}

spec fn rec_state(r: GrantRecord) -> GrantState {
    GrantState {
        grant: r.grant@,
        decision: r.decision,
        available: r.available,
        applied: r.applied,
    }
}

spec fn distinct_keys(s: Seq<GrantRecord>) -> bool {
    forall|i: int, j: int|
        0 <= i < s.len() && 0 <= j < s.len() && i != j ==> rec_key(#[trigger] s[i]) != rec_key(
            #[trigger] s[j],
        )
}

spec fn key_at(s: Seq<GrantRecord>, k: TargetView, i: int) -> bool {
    0 <= i < s.len() && rec_key(s[i]) == k
}

spec fn map_of(s: Seq<GrantRecord>) -> GrantMap {
    Map::new(
        |k: TargetView| exists|i: int| key_at(s, k, i),
        |k: TargetView| rec_state(s[choose|i: int| key_at(s, k, i)]),
    )
}

proof fn lemma_map_index(s: Seq<GrantRecord>, i: int)
    requires
        distinct_keys(s),
        0 <= i < s.len(),
    ensures
        map_of(s).contains_key(rec_key(s[i])),
        map_of(s)[rec_key(s[i])] == rec_state(s[i]),
{
    let k = rec_key(s[i]);
    assert(key_at(s, k, i));
    let c = choose|c: int| key_at(s, k, c);
    assert(key_at(s, k, c));
    assert(c == i) by {
        if c != i {
            assert(rec_key(s[c]) != rec_key(s[i]));
        }
    }
}

proof fn lemma_map_absent(s: Seq<GrantRecord>, k: TargetView)
    requires
        forall|i: int| 0 <= i < s.len() ==> rec_key(#[trigger] s[i]) != k,
    ensures
        !map_of(s).contains_key(k),
{
    if exists|i: int| key_at(s, k, i) {
        let i = choose|i: int| key_at(s, k, i);
        assert(rec_key(s[i]) != k);
    }
}

proof fn lemma_map_update(s: Seq<GrantRecord>, i: int, r: GrantRecord)
    requires
        distinct_keys(s),
        0 <= i < s.len(),
        rec_key(r) == rec_key(s[i]),
    ensures
        distinct_keys(s.update(i, r)),
        map_of(s.update(i, r)) =~= map_of(s).insert(rec_key(r), rec_state(r)),
{
    let t = s.update(i, r);
    assert forall|a: int, b: int|
        0 <= a < t.len() && 0 <= b < t.len() && a != b implies rec_key(#[trigger] t[a])
        != rec_key(#[trigger] t[b]) by {
        assert(rec_key(t[a]) == rec_key(s[a]));
        assert(rec_key(t[b]) == rec_key(s[b]));
    }
    let m = map_of(s).insert(rec_key(r), rec_state(r));
    assert forall|k: TargetView| #[trigger] map_of(t).contains_key(k) == m.contains_key(k) by {
        if map_of(t).contains_key(k) {
            let j = choose|j: int| key_at(t, k, j);
            if j != i {
                assert(key_at(s, k, j));
            }
        }
        if map_of(s).contains_key(k) {
            let j = choose|j: int| key_at(s, k, j);
            if j != i {
                assert(key_at(t, k, j));
            } else {
                assert(key_at(t, k, i));
            }
        }
        if k == rec_key(r) {
            assert(key_at(t, k, i));
        }
    }
    assert forall|k: TargetView| #[trigger] map_of(t).contains_key(k) implies map_of(t)[k]
        == m[k] by {
        let j = choose|j: int| key_at(t, k, j);
        lemma_map_index(t, j);
        if j == i {
        } else {
            lemma_map_index(s, j);
            assert(t[j] == s[j]);
            assert(rec_key(s[j]) != rec_key(s[i]));
        }
    }
}

proof fn lemma_map_push(s: Seq<GrantRecord>, r: GrantRecord)
    requires
        distinct_keys(s),
        forall|i: int| 0 <= i < s.len() ==> rec_key(#[trigger] s[i]) != rec_key(r),
    ensures
        distinct_keys(s.push(r)),
        map_of(s.push(r)) =~= map_of(s).insert(rec_key(r), rec_state(r)),
{
    let t = s.push(r);
    let n = s.len() as int;
    assert forall|a: int, b: int|
        0 <= a < t.len() && 0 <= b < t.len() && a != b implies rec_key(#[trigger] t[a])
        != rec_key(#[trigger] t[b]) by {
        if a < n && b < n {
            assert(t[a] == s[a] && t[b] == s[b]);
        } else if a < n {
            assert(t[a] == s[a]);
        } else {
            assert(t[b] == s[b]);
        }
    }
    let m = map_of(s).insert(rec_key(r), rec_state(r));
    assert forall|k: TargetView| #[trigger] map_of(t).contains_key(k) == m.contains_key(k) by {
        if map_of(t).contains_key(k) {
            let j = choose|j: int| key_at(t, k, j);
            if j < n {
                assert(key_at(s, k, j));
            }
        }
        if map_of(s).contains_key(k) {
            let j = choose|j: int| key_at(s, k, j);
            assert(key_at(t, k, j));
        }
        if k == rec_key(r) {
            assert(key_at(t, k, n));
        }
    }
    assert forall|k: TargetView| #[trigger] map_of(t).contains_key(k) implies map_of(t)[k]
        == m[k] by {
        let j = choose|j: int| key_at(t, k, j);
        lemma_map_index(t, j);
        if j < n {
            lemma_map_index(s, j);
            assert(t[j] == s[j]);
        }
    }
}

/// The authority. Grants are held one per target; the trusted host decides them, the
/// session broker and the window layer report what they loaded and applied.
pub struct AuthenticatedSessionAuthority {
    grants: Vec<GrantRecord>,
}

impl View for AuthenticatedSessionAuthority {
    type V = GrantMap;

    closed spec fn view(&self) -> GrantMap {
        map_of(self.grants@)
    }
}

impl AuthenticatedSessionAuthority {
    /// The authority's internal invariant.
    pub closed spec fn wf(&self) -> bool {
        &&& distinct_keys(self.grants@)
        &&& grant_map_ok(self@)
    }

    /// The well-formed authority's state holds the capability invariant for every
    /// target: nothing is available without authorization, nothing applied without
    /// being available, and each state is keyed by its own target.
    pub proof fn lemma_capability_invariant(&self)
        requires
            self.wf(),
        ensures
            grant_map_ok(self@),
    {
    }

    /// An authority with no grants.
    pub fn new() -> (a: Self)
        ensures
            a.wf(),
            a@ == GrantMap::empty(),
    {
        let a = AuthenticatedSessionAuthority { grants: Vec::new() };
        assert(a@ =~= GrantMap::empty());
        a
    }

    fn find(&self, target: &AuthGrantTarget) -> (r: Option<usize>)
        requires
            self.wf(),
        ensures
            match r {
                Some(i) => i < self.grants@.len() && rec_key(self.grants@[i as int]) == target@
                    && self@.contains_key(target@) && self@[target@] == rec_state(
                    self.grants@[i as int],
                ),
                None => !self@.contains_key(target@),
            },
    {
        let mut i: usize = 0;
        while i < self.grants.len()
            invariant
                i <= self.grants@.len(),
                self.wf(),
                forall|j: int| 0 <= j < i ==> rec_key(#[trigger] self.grants@[j]) != target@,
            decreases self.grants@.len() - i,
        {
            if same_target(&self.grants[i].grant.target, target) {
                proof {
                    lemma_map_index(self.grants@, i as int);
                }
                return Some(i);
            }
            i += 1;
        }
        proof {
            lemma_map_absent(self.grants@, target@);
        }
        None
    }

    /// Replaces the record at `i` by one with the same key.
    fn set_record(&mut self, i: usize, decision: AuthSessionDecision, available: bool, applied: bool)
        requires
            old(self).wf(),
            i < old(self).grants@.len(),
            capability_ok(
                GrantState {
                    grant: old(self).grants@[i as int].grant@,
                    decision,
                    available,
                    applied,
                },
            ),
        ensures
            final(self).wf(),
            final(self)@ == old(self)@.insert(
                rec_key(old(self).grants@[i as int]),
                GrantState {
                    grant: old(self).grants@[i as int].grant@,
                    decision,
                    available,
                    applied,
                },
            ),
            final(self).grants@.len() == old(self).grants@.len(),
            final(self).grants@[i as int].grant == old(self).grants@[i as int].grant,
            rec_state(final(self).grants@[i as int]) == (GrantState {
                grant: old(self).grants@[i as int].grant@,
                decision,
                available,
                applied,
            }),
    {
        let ghost s = self.grants@;
        let mut grants = Vec::new();
        std::mem::swap(&mut grants, &mut self.grants);
        let mut record = grants.remove(i);
        record.decision = decision;
        record.available = available;
        record.applied = applied;
        grants.insert(i, record);
        proof {
            assert(grants@ =~= s.update(i as int, record));
            lemma_map_update(s, i as int, record);
            let m = map_of(grants@);
            assert forall|k: TargetView| #[trigger] m.contains_key(k) implies capability_ok(m[k])
                && m[k].grant.target == k by {
                if k != rec_key(record) {
                    assert(map_of(s).contains_key(k));
                }
            }
        }
        self.grants = grants;
    }

    /// Records a consent request. A request equal in browser, scope and domain to a grant
    /// that is already authorized returns that grant unchanged; a grant that is applied
    /// is not replaced; otherwise the request is recorded as pending with no capability.
    /// Remembered grants are refused.
    pub fn request(&mut self, validated: ValidatedAuthRequest, resolved_window_domain: Option<ValidatedAuthTarget>) -> (r: Result<AuthSessionResult, AuthAuthorityError>)
        requires
            old(self).wf(),
        ensures
            final(self).wf(),
            (final(self)@, answer_view(r)) == request_step(
                old(self)@,
                validated@,
                opt_target_view(resolved_window_domain),
            ),
    {
        let ghost v = validated@;
        let ghost resolved_view = opt_target_view(resolved_window_domain);
        let (target, window_session_id, browser, scope, reason, presentation) = match validated {
            ValidatedAuthRequest::Request {
                target,
                window_session_id,
                browser,
                scope,
                reason,
                presentation_window_session_id,
            } => (target, window_session_id, browser, scope, reason, presentation_window_session_id),
            _ => return Err(AuthAuthorityError::GrantNotFound),
        };
        if scope == AuthSessionScope::Remembered {
            return Err(AuthAuthorityError::RememberedUnsupported);
        }
        let (key, resolved_target, window) = match (target, window_session_id) {
            (Some(t), None) => {
                let p = match presentation {
                    Some(p) => p,
                    None => return Err(AuthAuthorityError::GrantNotFound),
                };
                let d = String::from_str(t.requested_domain());
                (AuthGrantTarget::Domain(d), t, Some(p))
            },
            (None, Some(w)) => {
                if presentation.is_some() {
                    return Err(AuthAuthorityError::GrantNotFound);
                }
                let t = match resolved_window_domain {
                    Some(t) => t,
                    None => return Err(AuthAuthorityError::WindowDomainUnavailable),
                };
                let w2 = w.clone();
                (AuthGrantTarget::Window(w), t, Some(w2))
            },
            _ => return Err(AuthAuthorityError::GrantNotFound),
        };
        let pending = PendingAuthGrant {
            target: key,
            domain: String::from_str(resolved_target.requested_domain()),
            window_session_id: window,
            browser,
            scope,
            reason,
            cookie_domains: clone_strings(resolved_target.cookie_domains()),
            bundle: resolved_target.bundle(),
        };
        assert(requested_grant(v, resolved_view) == Ok::<GrantView, AuthAuthorityError>(pending@));
        match self.find(&pending.target) {
            Some(i) => {
                let existing = &self.grants[i];
                if existing.decision == AuthSessionDecision::Authorized && existing.grant.browser
                    == browser && existing.grant.scope == scope && string_eq(
                    &existing.grant.domain,
                    &pending.domain,
                ) {
                    return Ok(result(existing));
                }
                if existing.applied {
                    return Err(AuthAuthorityError::GrantInUse);
                }
                let record = GrantRecord {
                    grant: pending,
                    decision: AuthSessionDecision::Pending,
                    available: false,
                    applied: false,
                };
                let response = result(&record);
                self.replace_record(i, record);
                Ok(response)
            },
            None => {
                let record = GrantRecord {
                    grant: pending,
                    decision: AuthSessionDecision::Pending,
                    available: false,
                    applied: false,
                };
                let response = result(&record);
                self.push_record(record);
                Ok(response)
            },
        }
    }

    fn replace_record(&mut self, i: usize, record: GrantRecord)
        requires
            old(self).wf(),
            i < old(self).grants@.len(),
            rec_key(record) == rec_key(old(self).grants@[i as int]),
            capability_ok(rec_state(record)),
        ensures
            final(self).wf(),
            final(self)@ == old(self)@.insert(rec_key(record), rec_state(record)),
    {
        let ghost s = self.grants@;
        let mut grants = Vec::new();
        std::mem::swap(&mut grants, &mut self.grants);
        grants.set(i, record);
        proof {
            lemma_map_update(s, i as int, record);
            let m = map_of(grants@);
            assert forall|k: TargetView| #[trigger] m.contains_key(k) implies capability_ok(m[k])
                && m[k].grant.target == k by {
                if k != rec_key(record) {
                    assert(map_of(s).contains_key(k));
                }
            }
        }
        self.grants = grants;
    }

    fn push_record(&mut self, record: GrantRecord)
        requires
            old(self).wf(),
            !old(self)@.contains_key(rec_key(record)),
            capability_ok(rec_state(record)),
        ensures
            final(self).wf(),
            final(self)@ == old(self)@.insert(rec_key(record), rec_state(record)),
    {
        let ghost s = self.grants@;
        proof {
            assert forall|i: int| 0 <= i < s.len() implies rec_key(#[trigger] s[i]) != rec_key(
                record,
            ) by {
                lemma_map_index(s, i);
            }
        }
        self.grants.push(record);
        proof {
            lemma_map_push(s, record);
            let m = map_of(self.grants@);
            assert forall|k: TargetView| #[trigger] m.contains_key(k) implies capability_ok(m[k])
                && m[k].grant.target == k by {
                if k != rec_key(record) {
                    assert(map_of(s).contains_key(k));
                }
            }
        }
    }
}

impl AuthenticatedSessionAuthority {
    /// Reports the state of the target a status request names, changing nothing. A
    /// target that was never requested is reported denied, with nothing available.
    pub fn status(&self, validated: ValidatedAuthRequest, resolved_window_domain: Option<ValidatedAuthTarget>) -> (r: Result<AuthSessionResult, AuthAuthorityError>)
        requires
            self.wf(),
        ensures
            answer_view(r) == status_step(
                self@,
                validated@,
                opt_target_view(resolved_window_domain),
            ),
    {
        match validated {
            ValidatedAuthRequest::Status { target, window_session_id } => self.status_of(
                target,
                window_session_id,
                resolved_window_domain,
            ),
            _ => Err(AuthAuthorityError::GrantNotFound),
        }
    }

    fn status_of(&self, target: Option<ValidatedAuthTarget>, window_session_id: Option<String>, resolved_window_domain: Option<ValidatedAuthTarget>) -> (r: Result<AuthSessionResult, AuthAuthorityError>)
        requires
            self.wf(),
        ensures
            answer_view(r) == status_answer(
                self@,
                opt_target_view(target),
                opt_view(window_session_id),
                opt_target_view(resolved_window_domain),
            ),
    {
        let (key, fallback_domain) = match (target, window_session_id) {
            (Some(t), None) => (
                AuthGrantTarget::Domain(String::from_str(t.requested_domain())),
                String::from_str(t.requested_domain()),
            ),
            (None, Some(w)) => {
                let domain = match &resolved_window_domain {
                    Some(t) => String::from_str(t.requested_domain()),
                    None => String::new(),
                };
                (AuthGrantTarget::Window(w), domain)
            },
            _ => return Err(AuthAuthorityError::GrantNotFound),
        };
        match self.find(&key) {
            Some(i) => Ok(result(&self.grants[i])),
            None => {
                let (target, canonical_domain) = match key {
                    AuthGrantTarget::Domain(d) => {
                        let c = d.clone();
                        (AuthSessionTarget::Domain { domain: d }, c)
                    },
                    AuthGrantTarget::Window(w) => (
                        AuthSessionTarget::Window { window_session_id: w },
                        fallback_domain,
                    ),
                };
                Ok(
                    AuthSessionResult {
                        state: AuthSessionState {
                            target,
                            canonical_domain,
                            browser: BrowserKind::Firefox,
                            scope: AuthSessionScope::Session,
                            decision: AuthSessionDecision::Denied,
                            available: false,
                            applied: false,
                            reason: None,
                        },
                    },
                )
            },
        }
    }

    /// Revokes the grant a revoke request names, withdrawing every capability; for a
    /// target with no record it reports what a status request would, changing nothing.
    pub fn revoke(&mut self, validated: ValidatedAuthRequest, resolved_window_domain: Option<ValidatedAuthTarget>) -> (r: Result<AuthSessionResult, AuthAuthorityError>)
        requires
            old(self).wf(),
        ensures
            final(self).wf(),
            (final(self)@, answer_view(r)) == revoke_step(
                old(self)@,
                validated@,
                opt_target_view(resolved_window_domain),
            ),
    {
        let (target, window_session_id) = match validated {
            ValidatedAuthRequest::Revoke { target, window_session_id } => (
                target,
                window_session_id,
            ),
            _ => return Err(AuthAuthorityError::GrantNotFound),
        };
        let key = match (&target, &window_session_id) {
            (Some(t), None) => AuthGrantTarget::Domain(String::from_str(t.requested_domain())),
            (None, Some(w)) => AuthGrantTarget::Window(w.clone()),
            _ => return Err(AuthAuthorityError::GrantNotFound),
        };
        let current = self.status_of(target, window_session_id, resolved_window_domain);
        match self.find(&key) {
            Some(i) => {
                self.set_record(i, AuthSessionDecision::Revoked, false, false);
                Ok(result(&self.grants[i]))
            },
            None => current,
        }
    }

    /// Authorizes a pending grant. Only the trusted host calls this; no protocol action
    /// reaches it.
    pub fn authorize(&mut self, target: &AuthGrantTarget) -> (r: Result<AuthSessionResult, AuthAuthorityError>)
        requires
            old(self).wf(),
        ensures
            final(self).wf(),
            (final(self)@, answer_view(r)) == decide_step(
                old(self)@,
                target@,
                None,
                AuthSessionDecision::Authorized,
            ),
    {
        self.set_pending_decision(target, None, AuthSessionDecision::Authorized)
    }

    /// Denies a pending grant.
    pub fn deny(&mut self, target: &AuthGrantTarget) -> (r: Result<AuthSessionResult, AuthAuthorityError>)
        requires
            old(self).wf(),
        ensures
            final(self).wf(),
            (final(self)@, answer_view(r)) == decide_step(
                old(self)@,
                target@,
                None,
                AuthSessionDecision::Denied,
            ),
    {
        self.set_pending_decision(target, None, AuthSessionDecision::Denied)
    }

    /// Authorizes a pending grant only if it is exactly the grant the user was shown.
    pub fn authorize_pending_exact(&mut self, target: &AuthGrantTarget, expected: &PendingAuthGrant) -> (r: Result<AuthSessionResult, AuthAuthorityError>)
        requires
            old(self).wf(),
        ensures
            final(self).wf(),
            (final(self)@, answer_view(r)) == decide_step(
                old(self)@,
                target@,
                Some(expected@),
                AuthSessionDecision::Authorized,
            ),
    {
        self.set_pending_decision(target, Some(expected), AuthSessionDecision::Authorized)
    }

    /// Denies a pending grant only if it is exactly the grant the user was shown.
    pub fn deny_pending_exact(&mut self, target: &AuthGrantTarget, expected: &PendingAuthGrant) -> (r: Result<AuthSessionResult, AuthAuthorityError>)
        requires
            old(self).wf(),
        ensures
            final(self).wf(),
            (final(self)@, answer_view(r)) == decide_step(
                old(self)@,
                target@,
                Some(expected@),
                AuthSessionDecision::Denied,
            ),
    {
        self.set_pending_decision(target, Some(expected), AuthSessionDecision::Denied)
    }

    /// Decides a pending grant.
    pub fn set_pending_decision(&mut self, target: &AuthGrantTarget, expected: Option<&PendingAuthGrant>, decision: AuthSessionDecision) -> (r: Result<AuthSessionResult, AuthAuthorityError>)
        requires
            old(self).wf(),
        ensures
            final(self).wf(),
            (final(self)@, answer_view(r)) == decide_step(
                old(self)@,
                target@,
                match expected {
                    Some(g) => Some(g@),
                    None => None,
                },
                decision,
            ),
    {
        let i = match self.find(target) {
            Some(i) => i,
            None => return Err(AuthAuthorityError::GrantNotFound),
        };
        if self.grants[i].decision != AuthSessionDecision::Pending {
            return Err(AuthAuthorityError::GrantNotFound);
        }
        match expected {
            Some(g) => {
                if !grants_equal(g, &self.grants[i].grant) {
                    return Err(AuthAuthorityError::GrantNotFound);
                }
            },
            None => {},
        }
        if decision != AuthSessionDecision::Authorized {
            self.set_record(i, decision, false, false);
        } else {
            let available = self.grants[i].available;
            let applied = self.grants[i].applied;
            proof {
                lemma_map_index(self.grants@, i as int);
            }
            self.set_record(i, decision, available, applied);
        }
        Ok(result(&self.grants[i]))
    }

    /// Records whether the browser session of an authorized grant is loaded; unloading
    /// it also unapplies it.
    pub fn mark_available(&mut self, target: &AuthGrantTarget, available: bool) -> (r: Result<AuthSessionResult, AuthAuthorityError>)
        requires
            old(self).wf(),
        ensures
            final(self).wf(),
            (final(self)@, answer_view(r)) == mark_available_step(old(self)@, target@, available),
    {
        let i = match self.find(target) {
            Some(i) => i,
            None => return Err(AuthAuthorityError::GrantNotFound),
        };
        if self.grants[i].decision != AuthSessionDecision::Authorized {
            return Err(AuthAuthorityError::NotAuthorized);
        }
        let applied = if available {
            self.grants[i].applied
        } else {
            false
        };
        proof {
            lemma_map_index(self.grants@, i as int);
        }
        self.set_record(i, AuthSessionDecision::Authorized, available, applied);
        Ok(result(&self.grants[i]))
    }

    /// Records whether an authorized, available session is applied to a window.
    pub fn mark_applied(&mut self, target: &AuthGrantTarget, applied: bool) -> (r: Result<AuthSessionResult, AuthAuthorityError>)
        requires
            old(self).wf(),
        ensures
            final(self).wf(),
            (final(self)@, answer_view(r)) == mark_applied_step(old(self)@, target@, applied),
    {
        let i = match self.find(target) {
            Some(i) => i,
            None => return Err(AuthAuthorityError::GrantNotFound),
        };
        if self.grants[i].decision != AuthSessionDecision::Authorized {
            return Err(AuthAuthorityError::NotAuthorized);
        }
        if applied && !self.grants[i].available {
            return Err(AuthAuthorityError::NotAuthorized);
        }
        let available = self.grants[i].available;
        proof {
            lemma_map_index(self.grants@, i as int);
        }
        self.set_record(i, AuthSessionDecision::Authorized, available, applied);
        Ok(result(&self.grants[i]))
    }

    /// After a session was used: revokes a grant of scope `Once`, leaves any other.
    pub fn clear_once_after_use(&mut self, target: &AuthGrantTarget) -> (r: Result<AuthSessionResult, AuthAuthorityError>)
        requires
            old(self).wf(),
        ensures
            final(self).wf(),
            (final(self)@, answer_view(r)) == clear_once_step(old(self)@, target@),
    {
        let i = match self.find(target) {
            Some(i) => i,
            None => return Err(AuthAuthorityError::GrantNotFound),
        };
        if self.grants[i].grant.scope == AuthSessionScope::Once {
            self.set_record(i, AuthSessionDecision::Revoked, false, false);
        }
        Ok(result(&self.grants[i]))
    }

    /// Revokes the grant keyed by a window that went away.
    pub fn revoke_window(&mut self, window_session_id: &str)
        requires
            old(self).wf(),
        ensures
            final(self).wf(),
            final(self)@ == revoke_window_step(old(self)@, window_session_id@),
    {
        let key = AuthGrantTarget::Window(String::from_str(window_session_id));
        match self.find(&key) {
            Some(i) => {
                self.set_record(i, AuthSessionDecision::Revoked, false, false);
            },
            None => {},
        }
    }

    /// The grant for `target` while it is pending.
    pub fn pending_grant(&self, target: &AuthGrantTarget) -> (g: Option<PendingAuthGrant>)
        requires
            self.wf(),
        ensures
            match g {
                Some(g) => self@.contains_key(target@) && self@[target@].decision
                    == AuthSessionDecision::Pending && g@ == self@[target@].grant,
                None => !(self@.contains_key(target@) && self@[target@].decision
                    == AuthSessionDecision::Pending),
            },
    {
        match self.find(target) {
            Some(i) => if self.grants[i].decision == AuthSessionDecision::Pending {
                Some(self.grants[i].grant.duplicate())
            } else {
                None
            },
            None => None,
        }
    }

    /// The grant for `target`, whatever its decision.
    pub fn grant(&self, target: &AuthGrantTarget) -> (g: Option<PendingAuthGrant>)
        requires
            self.wf(),
        ensures
            match g {
                Some(g) => self@.contains_key(target@) && g@ == self@[target@].grant,
                None => !self@.contains_key(target@),
            },
    {
        match self.find(target) {
            Some(i) => Some(self.grants[i].grant.duplicate()),
            None => None,
        }
    }

    /// The grant for `target` if it is authorized.
    pub fn authorized_grant(&self, target: &AuthGrantTarget) -> (g: Result<PendingAuthGrant, AuthAuthorityError>)
        requires
            self.wf(),
        ensures
            match g {
                Ok(g) => self@.contains_key(target@) && self@[target@].decision
                    == AuthSessionDecision::Authorized && g@ == self@[target@].grant,
                Err(e) => e == AuthAuthorityError::NotAuthorized && !(self@.contains_key(target@)
                    && self@[target@].decision == AuthSessionDecision::Authorized),
            },
    {
        match self.find(target) {
            Some(i) => if self.grants[i].decision == AuthSessionDecision::Authorized {
                Ok(self.grants[i].grant.duplicate())
            } else {
                Err(AuthAuthorityError::NotAuthorized)
            },
            None => Err(AuthAuthorityError::NotAuthorized),
        }
    }
}

/// Validates a protocol action and carries it out: requests, status and revoke reach
/// the authority; an apply is not a protocol capability and is refused.
pub fn dispatch_action(authority: &mut AuthenticatedSessionAuthority, action: &AuthSessionAction, resolved_window_domain: Option<ValidatedAuthTarget>) -> (r: Result<AuthSessionResult, AuthAuthorityError>)
    requires
        old(authority).wf(),
    ensures
        final(authority).wf(),
        (final(authority)@, answer_view(r)) == dispatch_step(
            old(authority)@,
            *action,
            opt_target_view(resolved_window_domain),
        ),
{
    let validated = match validate_action(action) {
        Ok(v) => v,
        Err(e) => return Err(AuthAuthorityError::Validation(e)),
    };
    match validated {
        ValidatedAuthRequest::Request { .. } => authority.request(validated, resolved_window_domain),
        ValidatedAuthRequest::Status { .. } => authority.status(validated, resolved_window_domain),
        ValidatedAuthRequest::Apply { .. } => Err(AuthAuthorityError::GrantNotFound),
        ValidatedAuthRequest::Revoke { .. } => authority.revoke(validated, resolved_window_domain),
    }
}

fn result(record: &GrantRecord) -> (r: AuthSessionResult)
    ensures
        r@ == report(rec_state(*record)),
{
    AuthSessionResult {
        state: AuthSessionState {
            target: record.grant.target.to_session_target(),
            canonical_domain: record.grant.domain.clone(),
            browser: record.grant.browser,
            scope: record.grant.scope,
            decision: record.decision,
            available: record.available,
            applied: record.applied,
            reason: clone_opt(&record.grant.reason),
        },
    }
}

} // verus!
