//! The authenticated-session broker: which browser cookies an authorized grant may hand
//! to a window, and the per-grant record of what was loaded.
use vstd::prelude::*;
use crate::auth_domain::{string_views, AuthSiteBundle};
use crate::authority::{
    AuthAuthorityError, AuthGrantTarget, AuthenticatedSessionAuthority, GrantMap, GrantView,
    PendingAuthGrant, answer_view, mark_available_step,
};
use crate::ini::{IniFields, sections_view, sections_wf};
use crate::keyed::TargetStore;
use crate::protocol::{AuthSessionDecision, BrowserKind, TargetView};
use crate::text::{
    chars_of, ends_with_str, string_from_chars, utf8_len, utf8_len_exceeds, utf8_len_within,
};

verus! {

pub const MAX_PROFILES_INI_BYTES: u64 = 65536;
pub const MAX_COOKIE_NAME_BYTES: usize = 256;
pub const MAX_COOKIE_VALUE_BYTES: usize = 4096;
pub const MAX_COOKIE_PATH_BYTES: usize = 1024;
pub const MAX_BROKER_COOKIES: usize = 200;
pub const MAX_BROKER_SECRET_BYTES: usize = 65536;

#[derive(Debug, Clone, Copy, PartialEq, Eq, Structural)]
pub enum AuthBrokerError {
    Authority(AuthAuthorityError),
    FirefoxProfile,
    FirefoxCookieStore,
    ChromiumUnavailable,
    NoUsableCookies,
    TransferLimit,
}

#[derive(Clone, Debug, PartialEq, Eq)]
pub struct BrokerSessionMetadata {
    pub cookie_count: usize,
    pub cookie_domains: Vec<String>,
}

/// One browser cookie as the broker hands it on.
pub struct BrokeredCookie {
    pub name: String,
    pub value: String,
    pub domain: String,
    pub path: String,
    pub expires_unix: Option<i64>,
    pub secure: bool,
    pub http_only: bool,
    pub same_site: Option<i64>,
}

/// `.` followed by `d`.
pub open spec fn dotted(d: Seq<char>) -> Seq<char> {
    seq!['.'] + d
}

/// A cookie host is covered by one cookie domain of a grant: the domain itself or its
/// dotted form; a YouTube grant also covers every subdomain.
pub open spec fn host_matches(bundle: AuthSiteBundle, d: Seq<char>, host: Seq<char>) -> bool {
    host == d || host == dotted(d) || (bundle == AuthSiteBundle::YouTube && dotted(d).is_suffix_of(
        host,
    ))
}

/// A cookie host is covered by the grant.
pub open spec fn host_allowed(g: GrantView, host: Seq<char>) -> bool {
    exists|i: int| 0 <= i < g.cookie_domains.len() && host_matches(g.bundle, #[trigger] g.cookie_domains[i], host)
}

fn dotted_string(d: &String) -> (r: String)
    ensures
        r@ == dotted(d@),
{
    let mut r = String::from_str(".");
    r.append(d.as_str());
    proof {
        reveal_strlit(".");
        assert("."@ =~= seq!['.']);
    }
    r
}

/// Whether a cookie host is covered by the grant's cookie domains.
pub fn cookie_host_allowed(grant: &PendingAuthGrant, host: &str) -> (b: bool)
    ensures
        b == host_allowed(grant@, host@),
{
    let hv = chars_of(host);
    let mut i: usize = 0;
    while i < grant.cookie_domains.len()
        invariant
            i <= grant.cookie_domains@.len(),
            hv@ == host@,
            forall|j: int| 0 <= j < i ==> !host_matches(grant.bundle, (#[trigger] grant.cookie_domains@[j])@, host@),
        decreases grant.cookie_domains@.len() - i,
    {
        let d = &grant.cookie_domains[i];
        let dd = dotted_string(d);
        let m = crate::text::equals_str(&hv, d.as_str()) || crate::text::equals_str(&hv, dd.as_str()) || (grant.bundle
            == AuthSiteBundle::YouTube && ends_with_str(&hv, dd.as_str()));
        if m {
            assert(string_views(grant.cookie_domains@)[i as int] == d@);
            assert(host_matches(grant@.bundle, grant@.cookie_domains[i as int], host@));
            return true;
        }
        i += 1;
    }
    assert forall|j: int| 0 <= j < grant@.cookie_domains.len() implies !host_matches(
        grant@.bundle,
        #[trigger] grant@.cookie_domains[j],
        host@,
    ) by {
        assert(string_views(grant.cookie_domains@)[j] == grant.cookie_domains@[j]@);
    }
    false
}

/// A cookie may be handed to a window under the grant: its host is covered, its name,
/// value and path are within their byte bounds, its path is absolute, and it has not
/// expired at `now`.
pub open spec fn handoff_ok(c: BrokeredCookie, g: GrantView, now: i64) -> bool {
    &&& host_allowed(g, c.domain@)
    &&& utf8_len(c.name@) <= MAX_COOKIE_NAME_BYTES
    &&& utf8_len(c.value@) <= MAX_COOKIE_VALUE_BYTES
    &&& utf8_len(c.path@) <= MAX_COOKIE_PATH_BYTES
    &&& c.path@.len() > 0 && c.path@[0] == '/'
    &&& !(c.expires_unix is Some && c.expires_unix->0 <= now)
}

impl BrokeredCookie {
    /// Checks that this cookie may be handed to a window under the grant.
    pub fn validate_for_handoff(&self, grant: &PendingAuthGrant, now: i64) -> (r: Result<(), AuthBrokerError>)
        ensures
            r is Ok <==> handoff_ok(*self, grant@, now),
            r is Err ==> r == Err::<(), AuthBrokerError>(AuthBrokerError::TransferLimit),
    {
        let path = chars_of(self.path.as_str());
        let expired = match self.expires_unix {
            Some(expiry) => expiry <= now,
            None => false,
        };
        if !cookie_host_allowed(grant, self.domain.as_str()) || utf8_len_exceeds(
            &chars_of(self.name.as_str()),
            MAX_COOKIE_NAME_BYTES,
        ) || utf8_len_exceeds(&chars_of(self.value.as_str()), MAX_COOKIE_VALUE_BYTES)
            || utf8_len_exceeds(&path, MAX_COOKIE_PATH_BYTES) || path.len() == 0 || path[0] != '/'
            || expired {
            return Err(AuthBrokerError::TransferLimit);
        }
        Ok(())
    }
}

/// One row of the browser's cookie table, as read.
pub struct CookieRow {
    pub name: String,
    pub value: String,
    pub host: String,
    pub path: String,
    pub expiry: i64,
    pub secure: i64,
    pub http_only: i64,
    pub same_site: Option<i64>,
}

/// The cookie a row stands for: an expiry of zero or less means a session cookie.
pub open spec fn row_cookie(r: CookieRow) -> BrokeredCookie {
    BrokeredCookie {
        name: r.name,
        value: r.value,
        domain: r.host,
        path: r.path,
        expires_unix: if r.expiry > 0 { Some(r.expiry) } else { None },
        secure: r.secure != 0,
        http_only: r.http_only != 0,
        same_site: r.same_site,
    }
}

/// A cookie carries exactly what its row holds.
pub open spec fn cookie_of_row(c: BrokeredCookie, r: CookieRow) -> bool {
    &&& c.name@ == r.name@
    &&& c.value@ == r.value@
    &&& c.domain@ == r.host@
    &&& c.path@ == r.path@
    &&& c.expires_unix == (if r.expiry > 0 { Some(r.expiry) } else { None::<i64> })
    &&& c.secure == (r.secure != 0)
    &&& c.http_only == (r.http_only != 0)
    &&& c.same_site == r.same_site
}

/// A row is considered at all: its host is covered by the grant and it has not expired.
pub open spec fn row_considered(g: GrantView, r: CookieRow, now: i64) -> bool {
    host_allowed(g, r.host@) && !(r.expiry > 0 && r.expiry <= now)
}

/// The rows kept from `rows`, in order, with the name and value bytes they carry; `None`
/// when the transfer limits are passed or a considered row cannot be handed on.
pub open spec fn selected_rows(g: GrantView, rows: Seq<CookieRow>, now: i64) -> Option<(Seq<CookieRow>, nat)>
    decreases rows.len(),
{
    if rows.len() == 0 {
        Some((Seq::empty(), 0))
    } else {
        match selected_rows(g, rows.drop_last(), now) {
            None => None,
            Some((kept, total)) => {
                let r = rows.last();
                if !row_considered(g, r, now) {
                    Some((kept, total))
                } else {
                    let t2 = total + utf8_len(r.name@) + utf8_len(r.value@);
                    if t2 > MAX_BROKER_SECRET_BYTES || kept.len() >= MAX_BROKER_COOKIES {
                        None
                    } else if !handoff_ok(row_cookie(r), g, now) {
                        None
                    } else {
                        Some((kept.push(r), t2))
                    }
                }
            },
        }
    }
}

/// A load refused on a prefix of the rows is refused on all of them.
proof fn lemma_refusal_persists(g: GrantView, rows: Seq<CookieRow>, k: int, now: i64)
    requires
        0 <= k <= rows.len(),
        selected_rows(g, rows.subrange(0, k), now) is None,
    ensures
        selected_rows(g, rows, now) is None,
    decreases rows.len() - k,
{
    if k < rows.len() {
        assert(rows.subrange(0, k + 1).drop_last() =~= rows.subrange(0, k));
        lemma_refusal_persists(g, rows, k + 1, now);
    } else {
        assert(rows.subrange(0, k) =~= rows);
    }
}

fn cookie_from_row(r: &CookieRow) -> (c: BrokeredCookie)
    ensures
        cookie_of_row(c, *r),
{
    BrokeredCookie {
        name: r.name.clone(),
        value: r.value.clone(),
        domain: r.host.clone(),
        path: r.path.clone(),
        expires_unix: if r.expiry > 0 { Some(r.expiry) } else { None },
        secure: r.secure != 0,
        http_only: r.http_only != 0,
        same_site: r.same_site,
    }
}

/// The cookies a grant may take from the rows read from the browser's store: rows whose
/// host the grant does not cover, or that have expired at `now`, are skipped; more than
/// `MAX_BROKER_COOKIES` cookies or `MAX_BROKER_SECRET_BYTES` of names and values, or a
/// kept cookie that cannot be handed on, refuse the whole load.
pub fn select_cookies(grant: &PendingAuthGrant, rows: &Vec<CookieRow>, now: i64) -> (r: Result<Vec<BrokeredCookie>, AuthBrokerError>)
    ensures
        match r {
            Ok(cookies) => selected_rows(grant@, rows@, now) matches Some((kept, _))
                && cookies@.len() == kept.len()
                && forall|i: int| 0 <= i < kept.len() ==> cookie_of_row(#[trigger] cookies@[i], kept[i]),
            Err(e) => selected_rows(grant@, rows@, now) is None && e == AuthBrokerError::TransferLimit,
        },
{
    let mut cookies: Vec<BrokeredCookie> = Vec::new();
    let mut total: usize = 0;
    let mut i: usize = 0;
    let ghost mut kept: Seq<CookieRow> = Seq::empty();
    assert(rows@.subrange(0, 0) =~= Seq::<CookieRow>::empty());
    while i < rows.len()
        invariant
            i <= rows@.len(),
            total <= MAX_BROKER_SECRET_BYTES,
            selected_rows(grant@, rows@.subrange(0, i as int), now) == Some((kept, total as nat)),
            cookies@.len() == kept.len(),
            forall|j: int| 0 <= j < kept.len() ==> cookie_of_row(#[trigger] cookies@[j], kept[j]),
        decreases rows@.len() - i,
    {
        let row = &rows[i];
        assert(rows@.subrange(0, i + 1).drop_last() =~= rows@.subrange(0, i as int));
        assert(rows@.subrange(0, i + 1).last() == rows@[i as int]);
        let considered = cookie_host_allowed(grant, row.host.as_str()) && !(row.expiry > 0 && row.expiry <= now);
        if considered {
            let name_bytes = utf8_len_within(&chars_of(row.name.as_str()), MAX_BROKER_SECRET_BYTES);
            let value_bytes = utf8_len_within(&chars_of(row.value.as_str()), MAX_BROKER_SECRET_BYTES);
            let (n, v) = match (name_bytes, value_bytes) {
                (Some(n), Some(v)) => (n, v),
                _ => {
                    proof { lemma_refusal_persists(grant@, rows@, i + 1, now); }
                    return Err(AuthBrokerError::TransferLimit);
                },
            };
            if total + n + v > MAX_BROKER_SECRET_BYTES || cookies.len() >= MAX_BROKER_COOKIES {
                proof { lemma_refusal_persists(grant@, rows@, i + 1, now); }
                return Err(AuthBrokerError::TransferLimit);
            }
            let cookie = cookie_from_row(row);
            match cookie.validate_for_handoff(grant, now) {
                Ok(()) => {},
                Err(e) => {
                    proof { lemma_refusal_persists(grant@, rows@, i + 1, now); }
                    return Err(e);
                },
            }
            cookies.push(cookie);
            total = total + n + v;
            proof {
                kept = kept.push(*row);
            }
        }
        i += 1;
    }
    assert(rows@.subrange(0, rows@.len() as int) =~= rows@);
    Ok(cookies)
}

/// Code-point lexicographic order on texts, the order of `String`'s `Ord` (UTF-8 byte
/// order and code-point order agree).
pub open spec fn text_lt(a: Seq<char>, b: Seq<char>) -> bool
    decreases a.len(),
{
    if a.len() == 0 {
        b.len() > 0
    } else if b.len() == 0 {
        false
    } else if a[0] != b[0] {
        (a[0] as int) < (b[0] as int)
    } else {
        text_lt(a.drop_first(), b.drop_first())
    }
}

/// The order is transitive.
pub proof fn lemma_text_lt_transitive(a: Seq<char>, b: Seq<char>, c: Seq<char>)
    requires
        text_lt(a, b),
        text_lt(b, c),
    ensures
        text_lt(a, c),
    decreases a.len(),
{
    if a.len() > 0 && b.len() > 0 && c.len() > 0 && a[0] == b[0] && b[0] == c[0] {
        lemma_text_lt_transitive(a.drop_first(), b.drop_first(), c.drop_first());
    }
}

/// No text precedes itself.
pub proof fn lemma_text_lt_irreflexive(a: Seq<char>)
    ensures
        !text_lt(a, a),
    decreases a.len(),
{
    if a.len() > 0 {
        lemma_text_lt_irreflexive(a.drop_first());
    }
}

/// Any two texts are ordered one way, or are equal, and never both ways.
pub proof fn lemma_text_lt_total(a: Seq<char>, b: Seq<char>)
    ensures
        text_lt(a, b) || text_lt(b, a) || a == b,
        !(text_lt(a, b) && text_lt(b, a)),
    decreases a.len(),
{
    if a.len() == 0 && b.len() == 0 {
        assert(a =~= b);
    } else if a.len() == 0 || b.len() == 0 {
    } else if a[0] != b[0] {
        assert((a[0] as int) != (b[0] as int));
    } else {
        lemma_text_lt_total(a.drop_first(), b.drop_first());
        if a.drop_first() == b.drop_first() {
            assert forall|i: int| 0 <= i < a.len() implies a[i] == b[i] by {
                if i > 0 {
                    assert(a[i] == a.drop_first()[i - 1]);
                    assert(b[i] == b.drop_first()[i - 1]);
                }
            }
            assert(a =~= b);
        }
    }
}

pub(crate) fn text_less(a: &Vec<char>, b: &Vec<char>) -> (r: bool)
    ensures
        r == text_lt(a@, b@),
{
    let mut i: usize = 0;
    assert(a@.skip(0) =~= a@);
    assert(b@.skip(0) =~= b@);
    while i < a.len() && i < b.len() && a[i] == b[i]
        invariant
            i <= a@.len() && i <= b@.len(),
            text_lt(a@, b@) == text_lt(a@.skip(i as int), b@.skip(i as int)),
        decreases a@.len() - i,
    {
        assert(a@.skip(i as int).drop_first() =~= a@.skip(i + 1));
        assert(b@.skip(i as int).drop_first() =~= b@.skip(i + 1));
        i += 1;
    }
    if i == a.len() {
        i < b.len()
    } else if i == b.len() {
        false
    } else {
        a[i] < b[i]
    }
}

/// Strictly increasing in text order, hence without duplicates.
pub open spec fn strictly_sorted(s: Seq<Seq<char>>) -> bool {
    forall|i: int, j: int| 0 <= i < j < s.len() ==> text_lt(#[trigger] s[i], #[trigger] s[j])
}

/// Inserts `x` into a strictly sorted list of texts unless it is already there.
fn insert_sorted(v: &mut Vec<String>, x: String)
    requires
        strictly_sorted(string_views(old(v)@)),
    ensures
        strictly_sorted(string_views(final(v)@)),
        string_views(final(v)@).to_set() == string_views(old(v)@).to_set().insert(x@),
{
    let ghost s = string_views(v@);
    let xv = chars_of(x.as_str());
    let mut p: usize = 0;
    while p < v.len() && text_less(&chars_of(v[p].as_str()), &xv)
        invariant
            p <= v@.len(),
            xv@ == x@,
            s == string_views(v@),
            forall|j: int| 0 <= j < p ==> text_lt(#[trigger] s[j], x@),
        decreases v@.len() - p,
    {
        p += 1;
    }
    if p < v.len() && crate::text::equals_str(&chars_of(v[p].as_str()), x.as_str()) {
        assert(s[p as int] == x@);
        assert(s.to_set().contains(x@));
        assert(s.to_set().insert(x@) =~= s.to_set());
        return;
    }
    proof {
        if p < s.len() {
            lemma_text_lt_total(s[p as int], x@);
        }
        lemma_text_lt_irreflexive(x@);
    }
    v.insert(p, x);
    proof {
        let t = string_views(v@);
        assert(t =~= s.insert(p as int, x@));
        assert forall|i: int, j: int| 0 <= i < j < t.len() implies text_lt(#[trigger] t[i], #[trigger] t[j]) by {
            if j < p {
            } else if j == p {
                assert(t[i] == s[i]);
            } else if i < p {
                assert(t[j] == s[j - 1]);
                assert(t[i] == s[i]);
                if j - 1 > p {
                    lemma_text_lt_transitive(x@, s[p as int], s[j - 1]);
                }
                lemma_text_lt_transitive(s[i], x@, s[j - 1]);
            } else if i == p {
                assert(t[j] == s[j - 1]);
                if j - 1 > p {
                    lemma_text_lt_transitive(x@, s[p as int], s[j - 1]);
                }
            } else {
                assert(t[i] == s[i - 1] && t[j] == s[j - 1]);
            }
        }
        assert(t.to_set() =~= s.to_set().insert(x@)) by {
            assert forall|e: Seq<char>| t.to_set().contains(e) == s.to_set().insert(x@).contains(e) by {
                if t.to_set().contains(e) {
                    let i = choose|i: int| 0 <= i < t.len() && t[i] == e;
                    if i < p {
                        assert(s[i] == e);
                    } else if i > p {
                        assert(s[i - 1] == e);
                    }
                }
                if s.to_set().contains(e) {
                    let i = choose|i: int| 0 <= i < s.len() && s[i] == e;
                    if i < p {
                        assert(t[i] == e);
                    } else {
                        assert(t[i + 1] == e);
                    }
                }
                if e == x@ {
                    assert(t[p as int] == e);
                }
            }
        }
    }
}

/// The `i`-th cookie domain of a grant yields host `h`: the domain, or for the YouTube
/// bundle also its dotted form.
pub open spec fn host_from(g: GrantView, i: int, h: Seq<char>) -> bool {
    h == g.cookie_domains[i] || (g.bundle == AuthSiteBundle::YouTube && h == dotted(
        g.cookie_domains[i],
    ))
}

/// One of the first `n` cookie domains yields host `h`.
pub open spec fn host_in_prefix(g: GrantView, n: int, h: Seq<char>) -> bool {
    exists|i: int| 0 <= i < n && #[trigger] host_from(g, i, h)
}

/// The cookie hosts a grant's cookie store query may name.
pub open spec fn authorized_host_set(g: GrantView) -> Set<Seq<char>> {
    Set::new(|h: Seq<char>| host_in_prefix(g, g.cookie_domains.len() as int, h))
}

/// The cookie hosts a grant's query names, sorted and without duplicates.
pub fn authorized_cookie_hosts(grant: &PendingAuthGrant) -> (hosts: Vec<String>)
    ensures
        strictly_sorted(string_views(hosts@)),
        string_views(hosts@).to_set() == authorized_host_set(grant@),
{
    let mut hosts: Vec<String> = Vec::new();
    let mut i: usize = 0;
    let ghost g = grant@;
    assert(string_views(hosts@) =~= Seq::<Seq<char>>::empty());
    while i < grant.cookie_domains.len()
        invariant
            i <= grant.cookie_domains@.len(),
            g == grant@,
            strictly_sorted(string_views(hosts@)),
            forall|h: Seq<char>| #[trigger] string_views(hosts@).to_set().contains(h) == host_in_prefix(g, i as int, h),
        decreases grant.cookie_domains@.len() - i,
    {
        let ghost before = string_views(hosts@).to_set();
        let d = &grant.cookie_domains[i];
        assert(g.cookie_domains[i as int] == d@);
        insert_sorted(&mut hosts, d.clone());
        if grant.bundle == AuthSiteBundle::YouTube {
            insert_sorted(&mut hosts, dotted_string(d));
        }
        proof {
            let after = string_views(hosts@).to_set();
            assert forall|h: Seq<char>| #[trigger] after.contains(h) == host_in_prefix(g, i + 1, h) by {
                if host_in_prefix(g, i + 1, h) {
                    let j = choose|j: int| 0 <= j < i + 1 && #[trigger] host_from(g, j, h);
                    if j < i {
                        assert(host_in_prefix(g, i as int, h));
                        assert(before.contains(h));
                    }
                }
                if before.contains(h) {
                    let j = choose|j: int| 0 <= j < i && #[trigger] host_from(g, j, h);
                    assert(host_from(g, j, h));
                }
                if h == d@ {
                    assert(host_from(g, i as int, h));
                }
                if g.bundle == AuthSiteBundle::YouTube && h == dotted(d@) {
                    assert(host_from(g, i as int, h));
                }
            }
        }
        i += 1;
    }
    assert(string_views(hosts@).to_set() =~= authorized_host_set(grant@));
    hosts
}

/// The sorted, duplicate-free cookie domains of a set of cookies.
pub fn cookie_domain_set(cookies: &Vec<BrokeredCookie>) -> (domains: Vec<String>)
    ensures
        strictly_sorted(string_views(domains@)),
        string_views(domains@).to_set() == Set::new(
            |d: Seq<char>| exists|i: int| 0 <= i < cookies@.len() && d == (#[trigger] cookies@[i]).domain@,
        ),
{
    let mut domains: Vec<String> = Vec::new();
    let mut i: usize = 0;
    assert(string_views(domains@) =~= Seq::<Seq<char>>::empty());
    while i < cookies.len()
        invariant
            i <= cookies@.len(),
            strictly_sorted(string_views(domains@)),
            forall|d: Seq<char>| #[trigger] string_views(domains@).to_set().contains(d) == exists|j: int|
                0 <= j < i && d == (#[trigger] cookies@[j]).domain@,
        decreases cookies@.len() - i,
    {
        let ghost before = string_views(domains@).to_set();
        insert_sorted(&mut domains, cookies[i].domain.clone());
        proof {
            let after = string_views(domains@).to_set();
            assert forall|d: Seq<char>| #[trigger] after.contains(d) == exists|j: int|
                0 <= j < i + 1 && d == (#[trigger] cookies@[j]).domain@ by {
                if exists|j: int| 0 <= j < i + 1 && d == (#[trigger] cookies@[j]).domain@ {
                    let j = choose|j: int| 0 <= j < i + 1 && d == (#[trigger] cookies@[j]).domain@;
                    if j < i {
                        assert(before.contains(d));
                    }
                }
                if before.contains(d) {
                    let j = choose|j: int| 0 <= j < i && d == (#[trigger] cookies@[j]).domain@;
                    assert(0 <= j < i + 1 && d == cookies@[j].domain@);
                }
                if d == cookies@[i as int].domain@ {
                    assert(0 <= i < i + 1 && d == cookies@[i as int].domain@);
                }
            }
        }
        i += 1;
    }
    assert(string_views(domains@).to_set() =~= Set::new(
        |d: Seq<char>| exists|i: int| 0 <= i < cookies@.len() && d == (#[trigger] cookies@[i]).domain@,
    ));
    domains
}

/// A loaded browser session: its metadata and its cookies.
pub struct BrokeredSession {
    pub metadata: BrokerSessionMetadata,
    pub cookies: Vec<BrokeredCookie>,
}

/// The broker: the sessions it loaded, one per grant target. Reading the browser's
/// cookie store is the caller's part; the broker decides what may be read and records
/// what was loaded.
pub struct AuthenticatedSessionBroker {
    sessions: TargetStore<BrokeredSession>,
}

/// What `grant_for_acquire` gives: the authorized grant if its browser's store can be
/// read, else why not.
pub open spec fn acquire_grant_outcome(m: GrantMap, k: TargetView) -> Result<GrantView, AuthBrokerError> {
    if !(m.contains_key(k) && m[k].decision == AuthSessionDecision::Authorized) {
        Err(AuthBrokerError::Authority(AuthAuthorityError::NotAuthorized))
    } else if m[k].grant.browser != BrowserKind::Firefox {
        Err(AuthBrokerError::ChromiumUnavailable)
    } else {
        Ok(m[k].grant)
    }
}

impl AuthenticatedSessionBroker {
    /// The internal invariant.
    pub closed spec fn wf(&self) -> bool {
        self.sessions.wf()
    }

    /// The loaded sessions, by target.
    pub closed spec fn loaded(&self) -> Map<TargetView, BrokeredSession> {
        self.sessions@
    }

    /// A broker with no sessions.
    pub fn new() -> (b: Self)
        ensures
            b.wf(),
            b.loaded() == Map::<TargetView, BrokeredSession>::empty(),
    {
        AuthenticatedSessionBroker { sessions: TargetStore::new() }
    }

    /// The grant whose cookies an acquisition may read: it must be authorized, and only
    /// Firefox cookie stores can be read.
    pub fn grant_for_acquire(authority: &AuthenticatedSessionAuthority, target: &AuthGrantTarget) -> (r: Result<PendingAuthGrant, AuthBrokerError>)
        requires
            authority.wf(),
        ensures
            match r {
                Ok(g) => acquire_grant_outcome(authority@, target@) == Ok::<GrantView, AuthBrokerError>(g@),
                Err(e) => acquire_grant_outcome(authority@, target@) == Err::<GrantView, AuthBrokerError>(e),
            },
    {
        let grant = match authority.authorized_grant(target) {
            Ok(g) => g,
            Err(e) => return Err(AuthBrokerError::Authority(e)),
        };
        match grant.browser {
            BrowserKind::Firefox => Ok(grant),
            _ => Err(AuthBrokerError::ChromiumUnavailable),
        }
    }

    /// Records the cookies loaded for a grant and marks its session available. With no
    /// cookies nothing changes and `NoUsableCookies` is returned; the authority is marked
    /// available only after a load that gave cookies.
    pub fn complete_acquire(&mut self, authority: &mut AuthenticatedSessionAuthority, target: &AuthGrantTarget, cookies: Vec<BrokeredCookie>) -> (r: Result<BrokerSessionMetadata, AuthBrokerError>)
        requires
            old(self).wf(),
            old(authority).wf(),
        ensures
            final(self).wf(),
            final(authority).wf(),
            cookies@.len() == 0 ==> r == Err::<BrokerSessionMetadata, AuthBrokerError>(
                AuthBrokerError::NoUsableCookies,
            ) && final(self).loaded() == old(self).loaded() && final(authority)@ == old(authority)@,
            cookies@.len() > 0 ==> ({
                let (m2, a2) = mark_available_step(old(authority)@, target@, true);
                &&& final(authority)@ == m2
                &&& final(self).loaded().dom() == old(self).loaded().dom().insert(target@)
                &&& final(self).loaded()[target@].cookies@ == cookies@
                &&& final(self).loaded()[target@].metadata.cookie_count == cookies@.len()
                &&& strictly_sorted(string_views(final(self).loaded()[target@].metadata.cookie_domains@))
                &&& string_views(final(self).loaded()[target@].metadata.cookie_domains@).to_set()
                    == Set::new(|d: Seq<char>| exists|i: int| 0 <= i < cookies@.len() && d == (#[trigger] cookies@[i]).domain@)
                &&& forall|k: TargetView| k != target@ && #[trigger] old(self).loaded().contains_key(k) ==> final(self).loaded()[k] == old(self).loaded()[k]
                &&& match r {
                    Ok(meta) => a2 is Ok && meta.cookie_count == cookies@.len() && string_views(meta.cookie_domains@)
                        == string_views(final(self).loaded()[target@].metadata.cookie_domains@),
                    Err(e) => a2 is Err && e == AuthBrokerError::Authority(a2->Err_0),
                }
            }),
    {
        if cookies.len() == 0 {
            return Err(AuthBrokerError::NoUsableCookies);
        }
        let domains = cookie_domain_set(&cookies);
        let reported = crate::auth_domain::clone_strings(domains.as_slice());
        let count = cookies.len();
        let metadata = BrokerSessionMetadata { cookie_count: count, cookie_domains: domains };
        let ghost cv = cookies@;
        self.sessions.insert(target.duplicate(), BrokeredSession { metadata, cookies });
        match authority.mark_available(target, true) {
            Ok(_) => Ok(BrokerSessionMetadata { cookie_count: count, cookie_domains: reported }),
            Err(e) => Err(AuthBrokerError::Authority(e)),
        }
    }

    /// The metadata of the session loaded for `target`, if one is held intact.
    pub fn metadata(&self, target: &AuthGrantTarget) -> (m: Option<BrokerSessionMetadata>)
        requires
            self.wf(),
        ensures
            match m {
                Some(m) => self.loaded().contains_key(target@) && self.loaded()[target@].cookies@.len()
                    == self.loaded()[target@].metadata.cookie_count && m.cookie_count
                    == self.loaded()[target@].metadata.cookie_count && string_views(m.cookie_domains@)
                    == string_views(self.loaded()[target@].metadata.cookie_domains@),
                None => !(self.loaded().contains_key(target@) && self.loaded()[target@].cookies@.len()
                    == self.loaded()[target@].metadata.cookie_count),
            },
    {
        match self.sessions.get(target) {
            Some(session) => if session.cookies.len() == session.metadata.cookie_count {
                Some(
                    BrokerSessionMetadata {
                        cookie_count: session.metadata.cookie_count,
                        cookie_domains: crate::auth_domain::clone_strings(
                            session.metadata.cookie_domains.as_slice(),
                        ),
                    },
                )
            } else {
                None
            },
            None => None,
        }
    }

    /// Drops the session loaded for `target` and marks it unavailable.
    pub fn discard(&mut self, authority: &mut AuthenticatedSessionAuthority, target: &AuthGrantTarget)
        requires
            old(self).wf(),
            old(authority).wf(),
        ensures
            final(self).wf(),
            final(authority).wf(),
            final(self).loaded() == old(self).loaded().remove(target@),
            final(authority)@ == mark_available_step(old(authority)@, target@, false).0,
    {
        let _ = self.sessions.remove(target);
        let _ = authority.mark_available(target, false);
    }

    /// The cookies loaded for an authorized target.
    pub fn cookies_for<'a>(&'a self, authority: &AuthenticatedSessionAuthority, target: &AuthGrantTarget) -> (r: Result<&'a [BrokeredCookie], AuthBrokerError>)
        requires
            self.wf(),
            authority.wf(),
        ensures
            match r {
                Ok(c) => authority@.contains_key(target@) && authority@[target@].decision
                    == AuthSessionDecision::Authorized && self.loaded().contains_key(target@)
                    && c@ == self.loaded()[target@].cookies@,
                Err(e) => if !(authority@.contains_key(target@) && authority@[target@].decision
                    == AuthSessionDecision::Authorized) {
                    e == AuthBrokerError::Authority(AuthAuthorityError::NotAuthorized)
                } else {
                    e == AuthBrokerError::NoUsableCookies && !self.loaded().contains_key(target@)
                },
            },
    {
        match authority.authorized_grant(target) {
            Ok(_) => {},
            Err(e) => return Err(AuthBrokerError::Authority(e)),
        }
        match self.sessions.get(target) {
            Some(session) => Ok(session.cookies.as_slice()),
            None => Err(AuthBrokerError::NoUsableCookies),
        }
    }
}

/// `s` with every backslash turned into a forward slash.
pub open spec fn forward_slashes(s: Seq<char>) -> Seq<char> {
    s.map_values(|c: char| if c == '\\' { '/' } else { c })
}

/// The relative path a section names if it is a default, relative profile.
pub open spec fn default_profile_path(sec: (Seq<char>, Map<Seq<char>, Seq<char>>)) -> Option<Seq<char>> {
    let f = sec.1;
    if "Profile"@.is_prefix_of(sec.0) && f.contains_key("Default"@) && f["Default"@] == "1"@
        && f.contains_key("IsRelative"@) && f["IsRelative"@] == "1"@ && f.contains_key("Path"@) {
        Some(forward_slashes(f["Path"@]))
    } else {
        None
    }
}

/// The relative paths of the default, relative profiles among `secs`, in order.
pub open spec fn default_profile_paths(secs: Seq<(Seq<char>, Map<Seq<char>, Seq<char>>)>) -> Seq<Seq<char>>
    decreases secs.len(),
{
    if secs.len() == 0 {
        Seq::empty()
    } else {
        let rest = default_profile_paths(secs.drop_last());
        match default_profile_path(secs.last()) {
            Some(p) => rest.push(p),
            None => rest,
        }
    }
}

fn field_is(fields: &IniFields, key: &str, expected: &str) -> (b: bool)
    requires
        fields.wf(),
    ensures
        b == (fields@.contains_key(key@) && fields@[key@] == expected@),
{
    match fields.get(key) {
        Some(v) => crate::text::str_eq(v.as_str(), expected),
        None => false,
    }
}

fn with_forward_slashes(s: &String) -> (r: String)
    ensures
        r@ == forward_slashes(s@),
{
    let v = chars_of(s.as_str());
    let mut out: Vec<char> = Vec::new();
    let mut i: usize = 0;
    while i < v.len()
        invariant
            i <= v@.len(),
            v@ == s@,
            out@ == forward_slashes(v@.subrange(0, i as int)),
        decreases v@.len() - i,
    {
        out.push(if v[i] == '\\' { '/' } else { v[i] });
        assert(forward_slashes(v@.subrange(0, i + 1)) =~= forward_slashes(v@.subrange(0, i as int)).push(
            if v@[i as int] == '\\' { '/' } else { v@[i as int] },
        ));
        i += 1;
    }
    assert(v@.subrange(0, v@.len() as int) =~= v@);
    string_from_chars(&out)
}

/// The relative paths, with forward slashes, of the sections of a `profiles.ini` that
/// declare a default (`Default=1`), relative (`IsRelative=1`) profile with a `Path`.
/// The caller keeps those that are directories and needs exactly one.
pub fn default_profile_candidates(sections: &Vec<(String, IniFields)>) -> (paths: Vec<String>)
    requires
        sections_wf(sections@),
    ensures
        string_views(paths@) == default_profile_paths(sections_view(sections@)),
{
    let mut paths: Vec<String> = Vec::new();
    let mut i: usize = 0;
    assert(sections_view(sections@.subrange(0, 0)) =~= Seq::<(Seq<char>, Map<Seq<char>, Seq<char>>)>::empty());
    assert(string_views(paths@) =~= Seq::<Seq<char>>::empty());
    while i < sections.len()
        invariant
            i <= sections@.len(),
            sections_wf(sections@),
            string_views(paths@) == default_profile_paths(sections_view(sections@.subrange(0, i as int))),
        decreases sections@.len() - i,
    {
        let (name, fields) = &sections[i];
        assert(fields.wf());
        let ghost before = string_views(paths@);
        assert(sections_view(sections@.subrange(0, i + 1)).drop_last() =~= sections_view(sections@.subrange(0, i as int)));
        assert(sections_view(sections@.subrange(0, i + 1)).last() == (name@, fields@));
        let nv = chars_of(name.as_str());
        if crate::text::starts_with_str(&nv, "Profile") && field_is(fields, "Default", "1") && field_is(
            fields,
            "IsRelative",
            "1",
        ) {
            match fields.get("Path") {
                Some(p) => {
                    paths.push(with_forward_slashes(p));
                    assert(string_views(paths@) =~= before.push(forward_slashes(p@)));
                },
                None => {},
            }
        }
        i += 1;
    }
    assert(sections@.subrange(0, sections@.len() as int) =~= sections@);
    paths
}

} // verus!
