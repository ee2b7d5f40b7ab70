//! What the consent prompt shows of a pending authenticated-session grant, and how a
//! decision made in the prompt comes back as a navigation.
use vstd::prelude::*;
use crate::auth_domain::{clone_opt, opt_view};
use crate::authority::{decide_step, GrantState, grants_equal, same_target, AuthGrantTarget, AuthenticatedSessionAuthority, GrantView, PendingAuthGrant};
use crate::protocol::{AuthSessionDecision, AuthSessionScope, BrowserKind, TargetView};
use crate::urls::{pair_views, url_host_str, url_query_pairs, url_scheme, WebUrl};
use crate::interaction::{json_quote, json_string_literal};

verus! {

/// The element id of the consent overlay injected into the requesting window.
pub const CONSENT_OVERLAY_ID: &'static str = "__portus_auth_consent_overlay";

/// The start of the consent overlay script, up to the token.
pub const CONSENT_SCRIPT_HEAD: &'static str = r#"(() => {
const ID="__portus_auth_consent_overlay";
const token="#;

/// What stands between the token and the request data in the consent overlay script.
pub const CONSENT_SCRIPT_DATA: &'static str = r#";
const data="#;

/// The rest of the consent overlay script: it builds the modal and reports the decision
/// by navigating to `portus-consent://approve` or `portus-consent://deny` with the token.
pub const CONSENT_SCRIPT_TAIL: &'static str = r#";
const old=document.getElementById(ID); if(old) old.remove();
const style=document.createElement('style');
style.id=ID+'-style';
style.textContent=`#${ID}{position:fixed;inset:0;z-index:2147483647;display:flex;align-items:center;justify-content:center;background:rgba(0,0,0,.58);font-family:system-ui,-apple-system,sans-serif;color:#f5f7fa;box-sizing:border-box}#${ID} *{box-sizing:border-box}#${ID} .modal{position:relative;width:min(520px,calc(100vw - 40px));padding:30px;border-radius:16px;background:#0d1117;box-shadow:0 20px 60px rgba(0,0,0,.45);border:1px solid #303842}#${ID} .eyebrow{margin:0 0 12px;font-size:12px;letter-spacing:.16em;color:#aeb8c4}#${ID} h1{margin:0;max-width:430px;font-size:26px;line-height:1.2}#${ID} .actions{display:flex;justify-content:flex-end;gap:10px;margin-top:28px}#${ID} button{font:inherit;cursor:pointer;padding:10px 15px;border-radius:8px;font-weight:650}#${ID} .deny{color:#eef2f7;background:transparent;border:1px solid #47515d}#${ID} .allow{background:#eef2f7;color:#111418;border:1px solid #eef2f7}#${ID} button:focus-visible{outline:2px solid #eef2f7;outline-offset:2px}`;
const overlay=document.createElement('div'); overlay.id=ID; overlay.setAttribute('role','dialog'); overlay.setAttribute('aria-modal','true');
const modal=document.createElement('main'); modal.className='modal';
const eyebrow=document.createElement('p'); eyebrow.className='eyebrow'; eyebrow.textContent='PORTUS WINDOW';
const title=document.createElement('h1'); title.textContent='Do you want to use your existing browser session?'; title.id=ID+'-title';
const actions=document.createElement('div'); actions.className='actions';
const deny=document.createElement('button'); deny.className='deny'; deny.textContent='Deny';
const allow=document.createElement('button'); allow.className='allow'; allow.textContent='Allow';
const decide=(value)=>{ window.location.href='portus-consent://'+(value?'approve':'deny')+'?token='+encodeURIComponent(token); };
deny.onclick=()=>decide(false); allow.onclick=()=>decide(true); document.addEventListener('keydown',(event)=>{if(event.key==='Escape') decide(false);}); overlay.onclick=(event)=>{if(event.target===overlay) decide(false);};
modal.append(eyebrow,title,actions); actions.append(deny,allow); overlay.append(modal); document.head.append(style); document.body.append(overlay); allow.focus();
})();"#;

/// The script that shows the consent overlay for one prompt: the token as a JSON string
/// literal and the request data as given, already JSON.
pub fn consent_overlay_script(token: &str, payload: &str) -> (script: String)
    ensures
        script@ == CONSENT_SCRIPT_HEAD@ + json_string_literal(token@) + CONSENT_SCRIPT_DATA@ + payload@
            + CONSENT_SCRIPT_TAIL@,
{
    let quoted = json_quote(token);
    let mut script = String::from_str(CONSENT_SCRIPT_HEAD);
    script.append(quoted.as_str());
    script.append(CONSENT_SCRIPT_DATA);
    script.append(payload);
    script.append(CONSENT_SCRIPT_TAIL);
    script
}

/// The script that removes the consent overlay and its style from a window.
pub fn consent_overlay_removal_script() -> (script: String)
    ensures
        script@ == "document.getElementById("@ + json_string_literal(CONSENT_OVERLAY_ID@)
            + ")?.remove();document.getElementById("@ + json_string_literal(CONSENT_OVERLAY_ID@)
            + "+'-style')?.remove();"@,
{
    let id = json_quote(CONSENT_OVERLAY_ID);
    let mut script = String::from_str("document.getElementById(");
    script.append(id.as_str());
    script.append(")?.remove();document.getElementById(");
    script.append(id.as_str());
    script.append("+'-style')?.remove();");
    script
}

/// Where every consent request comes from.
pub const CONSENT_PROVENANCE: &'static str = "local_agent_ipc";

/// The facts the consent prompt presents. It carries no cookie material.
#[derive(Clone, Debug, PartialEq, Eq)]
pub struct AuthConsentView {
    pub domain: String,
    pub window_session_id: Option<String>,
    pub browser: String,
    pub scope: String,
    pub reason: Option<String>,
    pub provenance: &'static str,
}

/// Why a consent prompt could not be shown.
#[derive(Debug)]
pub enum AuthConsentError {
    NotPending,
    Window(String),
    Serialization(String),
}

/// The lower-case name of a browser.
pub open spec fn browser_name(b: BrowserKind) -> Seq<char> {
    match b {
        BrowserKind::Firefox => "firefox"@,
        BrowserKind::Chromium => "chromium"@,
        BrowserKind::Chrome => "chrome"@,
        BrowserKind::Brave => "brave"@,
    }
}

/// The lower-case name of a grant scope.
pub open spec fn scope_name(s: AuthSessionScope) -> Seq<char> {
    match s {
        AuthSessionScope::Once => "once"@,
        AuthSessionScope::Session => "session"@,
        AuthSessionScope::Remembered => "remembered"@,
    }
}

fn browser_text(b: BrowserKind) -> (s: String)
    ensures
        s@ == browser_name(b),
{
    match b {
        BrowserKind::Firefox => {
            proof { reveal_strlit("firefox"); }
            "firefox".to_string()
        },
        BrowserKind::Chromium => {
            proof { reveal_strlit("chromium"); }
            "chromium".to_string()
        },
        BrowserKind::Chrome => {
            proof { reveal_strlit("chrome"); }
            "chrome".to_string()
        },
        BrowserKind::Brave => {
            proof { reveal_strlit("brave"); }
            "brave".to_string()
        },
    }
}

fn scope_text(s: AuthSessionScope) -> (t: String)
    ensures
        t@ == scope_name(s),
{
    match s {
        AuthSessionScope::Once => {
            proof { reveal_strlit("once"); }
            "once".to_string()
        },
        AuthSessionScope::Session => {
            proof { reveal_strlit("session"); }
            "session".to_string()
        },
        AuthSessionScope::Remembered => {
            proof { reveal_strlit("remembered"); }
            "remembered".to_string()
        },
    }
}

impl AuthConsentView {
    /// The prompt for a pending grant: its domain, window, browser, scope and reason,
    /// with the fixed local provenance.
    pub fn from(grant: &PendingAuthGrant) -> (v: AuthConsentView)
        ensures
            v.domain@ == grant.domain@,
            opt_view(v.window_session_id) == opt_view(grant.window_session_id),
            v.browser@ == browser_name(grant.browser),
            v.scope@ == scope_name(grant.scope),
            opt_view(v.reason) == opt_view(grant.reason),
            v.provenance == CONSENT_PROVENANCE,
    {
        AuthConsentView {
            domain: grant.domain.clone(),
            window_session_id: clone_opt(&grant.window_session_id),
            browser: browser_text(grant.browser),
            scope: scope_text(grant.scope),
            reason: clone_opt(&grant.reason),
            provenance: CONSENT_PROVENANCE,
        }
    }
}

/// The value of the first query pair with the given key.
pub open spec fn first_value_for(pairs: Seq<(Seq<char>, Seq<char>)>, key: Seq<char>) -> Option<Seq<char>>
    decreases pairs.len(),
{
    if pairs.len() == 0 {
        None
    } else if pairs[0].0 == key {
        Some(pairs[0].1)
    } else {
        first_value_for(pairs.drop_first(), key)
    }
}

/// The decision a navigation carries: the consent token and whether it approves. Only
/// `portus-consent://approve` and `portus-consent://deny` with a non-empty `token` count.
pub open spec fn consent_decision(u: Seq<char>) -> Option<(Seq<char>, bool)> {
    if url_scheme(u) != "portus-consent"@ {
        None
    } else {
        let approve = url_host_str(u);
        if approve != Some("approve"@) && approve != Some("deny"@) {
            None
        } else {
            match first_value_for(url_query_pairs(u), "token"@) {
                Some(t) => if t.len() == 0 { None } else { Some((t, approve == Some("approve"@))) },
                None => None,
            }
        }
    }
}

fn find_token(pairs: &Vec<(String, String)>) -> (r: Option<String>)
    ensures
        match r {
            Some(v) => first_value_for(pair_views(pairs@), "token"@) == Some(v@),
            None => first_value_for(pair_views(pairs@), "token"@) is None,
        },
{
    let mut i: usize = 0;
    assert(pair_views(pairs@).skip(0) =~= pair_views(pairs@));
    while i < pairs.len()
        invariant
            i <= pairs@.len(),
            first_value_for(pair_views(pairs@), "token"@) == first_value_for(pair_views(pairs@).skip(i as int), "token"@),
        decreases pairs@.len() - i,
    {
        assert(pair_views(pairs@).skip(i as int)[0] == (pairs@[i as int].0@, pairs@[i as int].1@));
        assert(pair_views(pairs@).skip(i as int).drop_first() =~= pair_views(pairs@).skip(i + 1));
        if crate::text::str_eq(pairs[i].0.as_str(), "token") {
            return Some(pairs[i].1.clone());
        }
        i += 1;
    }
    None
}

/// Reads a consent decision out of a navigation the overlay made.
pub fn consent_navigation_decision(url: &WebUrl) -> (r: Option<(String, bool)>)
    ensures
        match r {
            Some((t, a)) => consent_decision(url@) == Some((t@, a)),
            None => consent_decision(url@) is None,
        },
{
    let scheme = url.scheme();
    if !crate::text::str_eq(scheme.as_str(), "portus-consent") {
        return None;
    }
    let approve = match url.host_str() {
        Some(h) => if crate::text::str_eq(h.as_str(), "approve") {
            true
        } else if crate::text::str_eq(h.as_str(), "deny") {
            false
        } else {
            return None;
        },
        None => return None,
    };
    let pairs = url.query_pairs();
    match find_token(&pairs) {
        Some(token) => if token.as_str().unicode_len() == 0 {
            None
        } else {
            Some((token, approve))
        },
        None => None,
    }
}

/// A consent prompt on screen: its token, the target it decides, and the grant shown.
pub struct ConsentRecord {
    pub token: String,
    pub target: AuthGrantTarget,
    pub grant: PendingAuthGrant,
}

spec fn records_ok(s: Seq<ConsentRecord>) -> bool {
    forall|i: int, j: int| 0 <= i < s.len() && 0 <= j < s.len() && i != j ==> (#[trigger] s[i]).token@
        != (#[trigger] s[j]).token@ && s[i].target@ != s[j].target@
}

spec fn token_at(s: Seq<ConsentRecord>, t: Seq<char>, i: int) -> bool {
    0 <= i < s.len() && s[i].token@ == t
}

spec fn records_map(s: Seq<ConsentRecord>) -> Map<Seq<char>, (TargetView, GrantView)> {
    Map::new(
        |t: Seq<char>| exists|i: int| token_at(s, t, i),
        |t: Seq<char>| {
            let r = s[choose|i: int| token_at(s, t, i)];
            (r.target@, r.grant@)
        },
    )
}

proof fn lemma_record_index(s: Seq<ConsentRecord>, i: int)
    requires
        records_ok(s),
        0 <= i < s.len(),
    ensures
        records_map(s).contains_key(s[i].token@),
        records_map(s)[s[i].token@] == (s[i].target@, s[i].grant@),
{
    let t = s[i].token@;
    assert(token_at(s, t, i));
    let c = choose|c: int| token_at(s, t, c);
    assert(token_at(s, t, c));
    if c != i {
        assert(s[c].token@ != s[i].token@);
    }
}

proof fn lemma_records_remove(s: Seq<ConsentRecord>, i: int)
    requires
        records_ok(s),
        0 <= i < s.len(),
    ensures
        records_ok(s.remove(i)),
        records_map(s.remove(i)) =~= records_map(s).remove(s[i].token@),
        forall|j: int| 0 <= j < s.remove(i).len() ==> (#[trigger] s.remove(i)[j]).target@ != s[i].target@,
{
    let t = s.remove(i);
    assert forall|a: int, b: int| 0 <= a < t.len() && 0 <= b < t.len() && a != b implies (#[trigger] t[a]).token@
        != (#[trigger] t[b]).token@ && t[a].target@ != t[b].target@ by {
        let a2 = if a < i { a } else { a + 1 };
        let b2 = if b < i { b } else { b + 1 };
        assert(t[a] == s[a2] && t[b] == s[b2]);
    }
    assert forall|j: int| 0 <= j < t.len() implies (#[trigger] t[j]).target@ != s[i].target@ by {
        let j2 = if j < i { j } else { j + 1 };
        assert(t[j] == s[j2]);
    }
    let m = records_map(s).remove(s[i].token@);
    assert forall|k: Seq<char>| #[trigger] records_map(t).contains_key(k) == m.contains_key(k) by {
        if records_map(t).contains_key(k) {
            let j = choose|j: int| token_at(t, k, j);
            let j2 = if j < i { j } else { j + 1 };
            assert(t[j] == s[j2]);
            assert(token_at(s, k, j2));
        }
        if m.contains_key(k) {
            let j = choose|j: int| token_at(s, k, j);
            if j < i {
                assert(token_at(t, k, j));
            } else {
                assert(j != i);
                assert(token_at(t, k, j - 1));
            }
        }
    }
    assert forall|k: Seq<char>| #[trigger] records_map(t).contains_key(k) implies records_map(t)[k] == m[k] by {
        let j = choose|j: int| token_at(t, k, j);
        lemma_record_index(t, j);
        let j2 = if j < i { j } else { j + 1 };
        assert(t[j] == s[j2]);
        lemma_record_index(s, j2);
    }
}

/// The consent prompts on screen, keyed by token; each target has at most one.
pub struct ConsentBook {
    records: Vec<ConsentRecord>,
}

impl View for ConsentBook {
    type V = Map<Seq<char>, (TargetView, GrantView)>;

    closed spec fn view(&self) -> Map<Seq<char>, (TargetView, GrantView)> {
        records_map(self.records@)
    }
}

/// The token of the prompt on screen for a target, if there is one.
pub open spec fn has_prompt_for(m: Map<Seq<char>, (TargetView, GrantView)>, k: TargetView) -> bool {
    exists|t: Seq<char>| #[trigger] m.contains_key(t) && m[t].0 == k
}

/// The book without the prompt for a target.
pub open spec fn without_target(m: Map<Seq<char>, (TargetView, GrantView)>, k: TargetView) -> Map<Seq<char>, (TargetView, GrantView)> {
    m.restrict(m.dom().filter(|t: Seq<char>| m[t].0 != k))
}

/// The book without the prompts shown in a window.
pub open spec fn without_window(m: Map<Seq<char>, (TargetView, GrantView)>, w: Seq<char>) -> Map<Seq<char>, (TargetView, GrantView)> {
    m.restrict(m.dom().filter(|t: Seq<char>| m[t].1.window_session_id != Some(w)))
}

impl ConsentBook {
    /// The book's invariant: tokens and targets are distinct.
    pub closed spec fn wf(&self) -> bool {
        records_ok(self.records@)
    }

    /// A book with no prompts.
    pub fn new() -> (b: Self)
        ensures
            b.wf(),
            b@ == Map::<Seq<char>, (TargetView, GrantView)>::empty(),
    {
        let b = ConsentBook { records: Vec::new() };
        assert(b@ =~= Map::<Seq<char>, (TargetView, GrantView)>::empty());
        b
    }

    fn find_token(&self, token: &str) -> (r: Option<usize>)
        requires
            self.wf(),
        ensures
            match r {
                Some(i) => i < self.records@.len() && self.records@[i as int].token@ == token@
                    && self@.contains_key(token@) && self@[token@] == (self.records@[i as int].target@, self.records@[i as int].grant@),
                None => !self@.contains_key(token@),
            },
    {
        let mut i: usize = 0;
        while i < self.records.len()
            invariant
                i <= self.records@.len(),
                self.wf(),
                forall|j: int| 0 <= j < i ==> (#[trigger] self.records@[j]).token@ != token@,
            decreases self.records@.len() - i,
        {
            if crate::text::str_eq(self.records[i].token.as_str(), token) {
                proof { lemma_record_index(self.records@, i as int); }
                return Some(i);
            }
            i += 1;
        }
        proof {
            if self@.contains_key(token@) {
                let j = choose|j: int| token_at(self.records@, token@, j);
                assert(self.records@[j].token@ == token@);
            }
        }
        None
    }

    fn find_target(&self, target: &AuthGrantTarget) -> (r: Option<usize>)
        requires
            self.wf(),
        ensures
            match r {
                Some(i) => i < self.records@.len() && self.records@[i as int].target@ == target@
                    && has_prompt_for(self@, target@),
                None => !has_prompt_for(self@, target@),
            },
    {
        let mut i: usize = 0;
        while i < self.records.len()
            invariant
                i <= self.records@.len(),
                self.wf(),
                forall|j: int| 0 <= j < i ==> (#[trigger] self.records@[j]).target@ != target@,
            decreases self.records@.len() - i,
        {
            if same_target(&self.records[i].target, target) {
                proof {
                    lemma_record_index(self.records@, i as int);
                    let t = self.records@[i as int].token@;
                    assert(self@.contains_key(t) && self@[t].0 == target@);
                }
                return Some(i);
            }
            i += 1;
        }
        proof {
            if has_prompt_for(self@, target@) {
                let t = choose|t: Seq<char>| #[trigger] self@.contains_key(t) && self@[t].0 == target@;
                let j = choose|j: int| token_at(self.records@, t, j);
                lemma_record_index(self.records@, j);
            }
        }
        None
    }

    /// Takes a prompt off the book.
    pub fn remove_record(&mut self, token: &str) -> (r: Option<ConsentRecord>)
        requires
            old(self).wf(),
        ensures
            final(self).wf(),
            final(self)@ == old(self)@.remove(token@),
            match r {
                Some(rec) => old(self)@.contains_key(token@) && rec.token@ == token@
                    && old(self)@[token@] == (rec.target@, rec.grant@),
                None => !old(self)@.contains_key(token@),
            },
    {
        match self.find_token(token) {
            Some(i) => {
                proof { lemma_records_remove(self.records@, i as int); }
                Some(self.records.remove(i))
            },
            None => {
                assert(self@.remove(token@) =~= self@);
                None
            },
        }
    }

    fn remove_target(&mut self, target: &AuthGrantTarget)
        requires
            old(self).wf(),
        ensures
            final(self).wf(),
            final(self)@ == without_target(old(self)@, target@),
            !has_prompt_for(final(self)@, target@),
    {
        let ghost pre = self@;
        match self.find_target(target) {
            Some(i) => {
                let ghost s = self.records@;
                proof {
                    lemma_records_remove(s, i as int);
                    lemma_record_index(s, i as int);
                }
                let _ = self.records.remove(i);
                proof {
                    let t = self.records@;
                    let tok = s[i as int].token@;
                    assert forall|k: Seq<char>| #[trigger] pre.contains_key(k) && pre[k].0 == target@ implies k == tok by {
                        let j = choose|j: int| token_at(s, k, j);
                        lemma_record_index(s, j);
                        if j != i {
                            assert(s[j].target@ != s[i as int].target@);
                        }
                    }
                    assert(self@ =~= without_target(pre, target@));
                    if has_prompt_for(self@, target@) {
                        let k = choose|k: Seq<char>| #[trigger] self@.contains_key(k) && self@[k].0 == target@;
                        let j = choose|j: int| token_at(t, k, j);
                        lemma_record_index(t, j);
                    }
                }
            },
            None => {
                assert(self@ =~= without_target(pre, target@));
            },
        }
    }

    /// Readies a prompt for a pending grant. A prompt already showing exactly this grant
    /// stays (`None`); any other prompt for the target is taken off. A grant with no
    /// presentation window cannot be shown; otherwise the grant and its window come back.
    pub fn prepare_presentation(&mut self, authority: &AuthenticatedSessionAuthority, target: &AuthGrantTarget)
        -> (r: Result<Option<(PendingAuthGrant, String)>, AuthConsentError>)
        requires
            old(self).wf(),
            authority.wf(),
        ensures
            final(self).wf(),
            !(authority@.contains_key(target@) && authority@[target@].decision == AuthSessionDecision::Pending)
                ==> (r matches Err(AuthConsentError::NotPending) && final(self)@ == old(self)@),
            authority@.contains_key(target@) && authority@[target@].decision == AuthSessionDecision::Pending ==> ({
                let g = authority@[target@].grant;
                let shown = exists|t: Seq<char>| #[trigger] old(self)@.contains_key(t) && old(self)@[t] == (target@, g);
                &&& shown ==> (r matches Ok(None) && final(self)@ == old(self)@)
                &&& !shown ==> final(self)@ == without_target(old(self)@, target@) && match r {
                    Ok(Some((grant, w))) => grant@ == g && g.window_session_id == Some(w@),
                    Err(AuthConsentError::Window(m)) => g.window_session_id is None && m@ == "consent request has no presentation window"@,
                    _ => false,
                }
            }),
    {
        let grant = match authority.pending_grant(target) {
            Some(g) => g,
            None => return Err(AuthConsentError::NotPending),
        };
        let ghost pre = self@;
        let ghost g = grant@;
        match self.find_target(target) {
            Some(i) => {
                if grants_equal(&self.records[i].grant, &grant) {
                    proof {
                        lemma_record_index(self.records@, i as int);
                        let t = self.records@[i as int].token@;
                        assert(pre.contains_key(t) && pre[t] == (target@, g));
                    }
                    return Ok(None);
                }
                proof {
                    lemma_record_index(self.records@, i as int);
                    assert forall|t: Seq<char>| #[trigger] pre.contains_key(t) implies pre[t] != (target@, g) by {
                        let j = choose|j: int| token_at(self.records@, t, j);
                        lemma_record_index(self.records@, j);
                        if j != i {
                            assert(self.records@[j].target@ != self.records@[i as int].target@);
                        }
                    }
                }
                self.remove_target(target);
            },
            None => {
                assert(self@ =~= without_target(pre, target@));
            },
        }
        match &grant.window_session_id {
            Some(w) => {
                let w = w.clone();
                Ok(Some((grant, w)))
            },
            None => {
                proof { reveal_strlit("consent request has no presentation window"); }
                Err(AuthConsentError::Window(String::from_str("consent request has no presentation window")))
            },
        }
    }

    /// Puts a prompt for a target on the book under a fresh random token, which comes
    /// back. The target must have no prompt on the book.
    pub fn record(&mut self, target: AuthGrantTarget, grant: PendingAuthGrant) -> (token: String)
        requires
            old(self).wf(),
            !has_prompt_for(old(self)@, target@),
        ensures
            final(self).wf(),
            token@.len() == 32,
            final(self)@ == old(self)@.remove(token@).insert(token@, (target@, grant@)),
    {
        let token = crate::video_service::random_token();
        let _ = self.remove_record(token.as_str());
        let ghost s = self.records@;
        let ghost pre = self@;
        let ghost k = target@;
        let rec = ConsentRecord { token: token.clone(), target, grant };
        proof {
            assert forall|j: int| 0 <= j < s.len() implies (#[trigger] s[j]).target@ != k by {
                lemma_record_index(s, j);
            }
            assert forall|j: int| 0 <= j < s.len() implies (#[trigger] s[j]).token@ != token@ by {
                lemma_record_index(s, j);
            }
        }
        self.records.push(rec);
        proof {
            let t = self.records@;
            let n = s.len() as int;
            assert forall|a: int, b: int| 0 <= a < t.len() && 0 <= b < t.len() && a != b implies (#[trigger] t[a]).token@
                != (#[trigger] t[b]).token@ && t[a].target@ != t[b].target@ by {
                if a < n {
                    assert(t[a] == s[a]);
                }
                if b < n {
                    assert(t[b] == s[b]);
                }
            }
            let m = pre.insert(token@, (t[n].target@, t[n].grant@));
            assert forall|x: Seq<char>| #[trigger] self@.contains_key(x) == m.contains_key(x) by {
                if self@.contains_key(x) {
                    let j = choose|j: int| token_at(t, x, j);
                    if j < n {
                        assert(token_at(s, x, j));
                    }
                }
                if pre.contains_key(x) {
                    let j = choose|j: int| token_at(s, x, j);
                    assert(token_at(t, x, j));
                }
                if x == token@ {
                    assert(token_at(t, x, n));
                }
            }
            assert forall|x: Seq<char>| #[trigger] self@.contains_key(x) implies self@[x] == m[x] by {
                let j = choose|j: int| token_at(t, x, j);
                lemma_record_index(t, j);
                if j < n {
                    lemma_record_index(s, j);
                    assert(t[j] == s[j]);
                }
            }
            assert(self@ =~= m);
        }
        token
    }

    /// Applies a decision made in a window's prompt. Only the window the grant is shown
    /// in may decide it: for another window, or an unknown token, nothing changes and the
    /// answer is `false`. Otherwise the prompt is taken off and the authority authorizes
    /// or denies exactly the grant that was shown.
    pub fn decide_for_window(&mut self, authority: &mut AuthenticatedSessionAuthority, token: &str, window_session_id: &str, approve: bool) -> (b: bool)
        requires
            old(self).wf(),
            old(authority).wf(),
        ensures
            final(self).wf(),
            final(authority).wf(),
            b == (old(self)@.contains_key(token@) && old(self)@[token@].1.window_session_id == Some(window_session_id@)),
            !b ==> final(self)@ == old(self)@ && final(authority)@ == old(authority)@,
            b ==> final(self)@ == old(self)@.remove(token@) && final(authority)@ == decide_step(
                old(authority)@,
                old(self)@[token@].0,
                Some(old(self)@[token@].1),
                if approve { AuthSessionDecision::Authorized } else { AuthSessionDecision::Denied },
            ).0,
    {
        let i = match self.find_token(token) {
            Some(i) => i,
            None => return false,
        };
        let matches = match &self.records[i].grant.window_session_id {
            Some(w) => crate::text::str_eq(w.as_str(), window_session_id),
            None => false,
        };
        if !matches {
            return false;
        }
        let rec = match self.remove_record(token) {
            Some(r) => r,
            None => return true,
        };
        if approve {
            let _ = authority.authorize_pending_exact(&rec.target, &rec.grant);
        } else {
            let _ = authority.deny_pending_exact(&rec.target, &rec.grant);
        }
        true
    }

    /// Withdraws every prompt shown in a window that is going away: each is taken off the
    /// book and its exact grant denied; nothing else changes.
    pub fn cancel_window(&mut self, authority: &mut AuthenticatedSessionAuthority, window_session_id: &str)
        requires
            old(self).wf(),
            old(authority).wf(),
        ensures
            final(self).wf(),
            final(authority).wf(),
            final(self)@ == without_window(old(self)@, window_session_id@),
            forall|t: Seq<char>| #[trigger] old(self)@.contains_key(t) && old(self)@[t].1.window_session_id == Some(window_session_id@)
                ==> final(authority)@.contains_key(old(self)@[t].0) == old(authority)@.contains_key(old(self)@[t].0)
                && final(authority)@[old(self)@[t].0] == decide_step(old(authority)@, old(self)@[t].0, Some(old(self)@[t].1),
                    AuthSessionDecision::Denied).0[old(self)@[t].0],
            forall|k: TargetView| !cancelled_target(old(self)@, window_session_id@, k)
                ==> (#[trigger] final(authority)@.contains_key(k)) == old(authority)@.contains_key(k)
                && final(authority)@[k] == old(authority)@[k],
    {
        let ghost pre = self@;
        let ghost a0 = authority@;
        let ghost w = window_session_id@;
        proof {
            let s = self.records@;
            assert forall|t1: Seq<char>, t2: Seq<char>| #[trigger] pre.contains_key(t1) && #[trigger] pre.contains_key(t2) && t1 != t2
                implies pre[t1].0 != pre[t2].0 by {
                let j1 = choose|j: int| token_at(s, t1, j);
                let j2 = choose|j: int| token_at(s, t2, j);
                lemma_record_index(s, j1);
                lemma_record_index(s, j2);
            }
        }
        let ghost mut done: Set<TargetView> = Set::empty();
        let mut i: usize = 0;
        while i < self.records.len()
            invariant
                self.wf(),
                authority.wf(),
                i <= self.records@.len(),
                w == window_session_id@,
                forall|t1: Seq<char>, t2: Seq<char>| #[trigger] pre.contains_key(t1) && #[trigger] pre.contains_key(t2) && t1 != t2
                    ==> pre[t1].0 != pre[t2].0,
                forall|j: int| 0 <= j < i ==> (#[trigger] self.records@[j]).grant@.window_session_id != Some(w),
                forall|t: Seq<char>| #[trigger] self@.contains_key(t) ==> pre.contains_key(t) && self@[t] == pre[t],
                forall|t: Seq<char>| #[trigger] pre.contains_key(t) && pre[t].1.window_session_id != Some(w) ==> self@.contains_key(t),
                forall|t: Seq<char>| #[trigger] pre.contains_key(t) && !self@.contains_key(t) ==> pre[t].1.window_session_id == Some(w)
                    && done.contains(pre[t].0)
                    && authority@.contains_key(pre[t].0) == a0.contains_key(pre[t].0)
                    && authority@[pre[t].0] == decide_step(a0, pre[t].0, Some(pre[t].1), AuthSessionDecision::Denied).0[pre[t].0],
                forall|k: TargetView| #[trigger] done.contains(k) ==> exists|t: Seq<char>| #[trigger] pre.contains_key(t)
                    && !self@.contains_key(t) && pre[t].0 == k,
                forall|k: TargetView| !done.contains(k)
                    ==> (#[trigger] authority@.contains_key(k)) == a0.contains_key(k) && authority@[k] == a0[k],
            decreases self.records@.len() - i,
        {
            let hit = match &self.records[i].grant.window_session_id {
                Some(x) => crate::text::str_eq(x.as_str(), window_session_id),
                None => false,
            };
            if hit {
                let ghost s = self.records@;
                let ghost cur = self@;
                let ghost a1 = authority@;
                let ghost done1 = done;
                proof {
                    lemma_records_remove(s, i as int);
                    lemma_record_index(s, i as int);
                }
                let rec = self.records.remove(i);
                let ghost tok = rec.token@;
                let ghost k = rec.target@;
                let ghost g = rec.grant@;
                proof {
                    assert(pre.contains_key(tok) && pre[tok] == (k, g));
                    assert(!done1.contains(k)) by {
                        if done1.contains(k) {
                            let t = choose|t: Seq<char>| #[trigger] pre.contains_key(t) && !cur.contains_key(t) && pre[t].0 == k;
                            assert(t != tok);
                        }
                    }
                    assert(authority@.contains_key(k) == a0.contains_key(k));
                    assert forall|k3: TargetView| !done1.contains(k3) implies #[trigger] a1.contains_key(k3) == a0.contains_key(k3)
                        && a1[k3] == a0[k3] by {
                        assert(authority@.contains_key(k3) == a0.contains_key(k3) && authority@[k3] == a0[k3]);
                    }
                    assert(a1.contains_key(k) == a0.contains_key(k) && a1[k] == a0[k]);
                }
                let _ = authority.deny_pending_exact(&rec.target, &rec.grant);
                proof {
                    done = done1.insert(k);
                    assert(self@ == cur.remove(tok));
                    lemma_deny_frame(a0, a1, authority@, k, g, done1);
                    assert forall|t: Seq<char>| #[trigger] pre.contains_key(t) && !self@.contains_key(t) implies pre[t].1.window_session_id == Some(w)
                        && done.contains(pre[t].0)
                        && authority@.contains_key(pre[t].0) == a0.contains_key(pre[t].0)
                        && authority@[pre[t].0] == decide_step(a0, pre[t].0, Some(pre[t].1), AuthSessionDecision::Denied).0[pre[t].0] by {
                        if t != tok {
                            assert(!cur.contains_key(t));
                            assert(pre[t].0 != k);
                        }
                    }
                    assert forall|k2: TargetView| #[trigger] done.contains(k2) implies exists|t: Seq<char>| #[trigger] pre.contains_key(t)
                        && !self@.contains_key(t) && pre[t].0 == k2 by {
                        if k2 == k {
                            assert(pre.contains_key(tok) && !self@.contains_key(tok) && pre[tok].0 == k2);
                        } else {
                            assert(done1.contains(k2));
                            let t = choose|t: Seq<char>| #[trigger] pre.contains_key(t) && !cur.contains_key(t) && pre[t].0 == k2;
                            assert(!self@.contains_key(t));
                        }
                    }
                    lemma_deny_frame(a0, a1, authority@, k, g, done1);
                    assert forall|j: int| 0 <= j < i implies (#[trigger] self.records@[j]).grant@.window_session_id != Some(w) by {
                        assert(self.records@[j] == s[j]);
                    }
                }
            } else {
                proof {
                    let s = self.records@;
                    lemma_record_index(s, i as int);
                }
                i += 1;
            }
        }
        proof {
            let s = self.records@;
            assert forall|t: Seq<char>| #[trigger] self@.contains_key(t) implies self@[t].1.window_session_id != Some(w) by {
                let j = choose|j: int| token_at(s, t, j);
                lemma_record_index(s, j);
            }
            assert(self@ =~= without_window(pre, w));
            assert forall|k: TargetView| !cancelled_target(pre, w, k) implies !done.contains(k) by {
                if done.contains(k) {
                    let t = choose|t: Seq<char>| #[trigger] pre.contains_key(t) && !self@.contains_key(t) && pre[t].0 == k;
                    assert(pre[t].1.window_session_id == Some(w));
                    assert(pre.contains_key(t) && pre[t].0 == k && pre[t].1.window_session_id == Some(w));
                }
            }
            assert forall|t: Seq<char>| #[trigger] pre.contains_key(t) && pre[t].1.window_session_id == Some(w)
                implies !self@.contains_key(t) by {
                if self@.contains_key(t) {
                    assert(self@[t] == pre[t]);
                }
            }
        }
    }
}

proof fn lemma_deny_frame(
    a0: Map<TargetView, GrantState>,
    a1: Map<TargetView, GrantState>,
    a2: Map<TargetView, GrantState>,
    k: TargetView,
    g: GrantView,
    done1: Set<TargetView>,
)
    requires
        forall|k3: TargetView| !done1.contains(k3) ==> #[trigger] a1.contains_key(k3) == a0.contains_key(k3) && a1[k3] == a0[k3],
        !done1.contains(k),
        a2 == decide_step(a1, k, Some(g), AuthSessionDecision::Denied).0,
    ensures
        forall|k3: TargetView| !done1.insert(k).contains(k3) ==> (#[trigger] a2.contains_key(k3)) == a0.contains_key(k3) && a2[k3] == a0[k3],
        a2.contains_key(k) == a0.contains_key(k) && a2[k] == decide_step(a0, k, Some(g), AuthSessionDecision::Denied).0[k],
        forall|k3: TargetView| k3 != k ==> (#[trigger] a2.contains_key(k3)) == a1.contains_key(k3) && a2[k3] == a1[k3],
{
    assert(a1.contains_key(k) == a0.contains_key(k) && a1[k] == a0[k]);
    assert forall|k3: TargetView| !done1.insert(k).contains(k3) implies (#[trigger] a2.contains_key(k3)) == a0.contains_key(k3) && a2[k3] == a0[k3] by {
        assert(a1.contains_key(k3) == a0.contains_key(k3));
    }
}

/// Whether a prompt for a target was shown in a window.
pub open spec fn cancelled_target(m: Map<Seq<char>, (TargetView, GrantView)>, w: Seq<char>, k: TargetView) -> bool {
    exists|t: Seq<char>| #[trigger] m.contains_key(t) && m[t].0 == k && m[t].1.window_session_id == Some(w)
}


} // verus!
