//! The loopback web-video service's bookkeeping: which window presents which video under
//! which token, the URLs a window loads, and how a request line is routed.
use vstd::prelude::*;
use crate::media::drop_leading;
use crate::text::{chars_of, decimal, equals_str, is_lower_hex, is_whitespace, is_ws, str_eq, string_from_range, trim_start, u64_to_decimal};
use crate::urls::{url_host_str, url_parse_error, url_parse_failure, url_parses, url_path, url_port, url_scheme, WebUrl};
use crate::web_video::{embed_url_text, VideoPage, WebVideoError, YouTubeVideo};
use crate::web_video::first_segment;

verus! {

/// A presentation a window holds: its token and the page served under it.
pub struct VideoEntry {
    pub window_session_id: String,
    pub token: String,
    pub page: VideoPage,
}

/// The abstract value of a served page: video id, start time, embed URL.
pub type PageView = (Seq<char>, Option<u64>, Seq<char>);

/// The abstract value of a page.
pub open spec fn page_view(p: VideoPage) -> PageView {
    (p.video.video_id@, p.video.start_seconds, p.embed_url@)
}

/// What a registration hands back: the token, the loopback URL of the page, and the embed
/// URL it loads.
pub struct WebVideoRegistration {
    pub token: String,
    pub view_url: WebUrl,
    pub embed_url: String,
}

spec fn entries_ok(s: Seq<VideoEntry>) -> bool {
    forall|i: int, j: int| 0 <= i < s.len() && 0 <= j < s.len() && i != j ==> (#[trigger] s[i]).window_session_id@
        != (#[trigger] s[j]).window_session_id@ && s[i].token@ != s[j].token@
}

spec fn win_at(s: Seq<VideoEntry>, w: Seq<char>, i: int) -> bool {
    0 <= i < s.len() && s[i].window_session_id@ == w
}

spec fn entries_map(s: Seq<VideoEntry>) -> Map<Seq<char>, (Seq<char>, PageView)> {
    Map::new(
        |w: Seq<char>| exists|i: int| win_at(s, w, i),
        |w: Seq<char>| {
            let e = s[choose|i: int| win_at(s, w, i)];
            (e.token@, page_view(e.page))
        },
    )
}

proof fn lemma_entry_index(s: Seq<VideoEntry>, i: int)
    requires
        entries_ok(s),
        0 <= i < s.len(),
    ensures
        entries_map(s).contains_key(s[i].window_session_id@),
        entries_map(s)[s[i].window_session_id@] == (s[i].token@, page_view(s[i].page)),
{
    let w = s[i].window_session_id@;
    assert(win_at(s, w, i));
    let c = choose|c: int| win_at(s, w, c);
    assert(win_at(s, w, c));
    if c != i {
        assert(s[c].window_session_id@ != s[i].window_session_id@);
    }
}

/// The presentations: each window holds at most one, and every token is distinct.
pub struct WebVideoRegistry {
    entries: Vec<VideoEntry>,
}

impl View for WebVideoRegistry {
    type V = Map<Seq<char>, (Seq<char>, PageView)>;

    closed spec fn view(&self) -> Map<Seq<char>, (Seq<char>, PageView)> {
        entries_map(self.entries@)
    }
}

/// The page served under a token, if a window holds it.
pub open spec fn page_of_token(m: Map<Seq<char>, (Seq<char>, PageView)>, token: Seq<char>) -> Option<PageView> {
    if exists|w: Seq<char>| #[trigger] m.contains_key(w) && m[w].0 == token {
        let w = choose|w: Seq<char>| #[trigger] m.contains_key(w) && m[w].0 == token;
        Some(m[w].1)
    } else {
        None
    }
}

/// The loopback origin of the service on a port.
pub open spec fn loopback_origin(port: u16) -> Seq<char> {
    "http://127.0.0.1:"@ + decimal(port as nat)
}

/// The loopback URL of a token's page.
pub open spec fn view_url_text(port: u16, token: Seq<char>) -> Seq<char> {
    loopback_origin(port) + "/"@ + token + "/view"@
}

/// The message for a window that holds no presentation.
pub open spec fn not_presenting(w: Seq<char>) -> Seq<char> {
    "window '"@ + w + "' is not a web-video presentation"@
}

/// Whether some window presents a video.
pub open spec fn presents_any(m: Map<Seq<char>, (Seq<char>, PageView)>) -> bool {
    exists|w: Seq<char>| #[trigger] m.contains_key(w)
}

/// The refusals a registration of a window that presents nothing yet can meet: no
/// unused token among `MAX_TOKEN_ATTEMPTS` random draws, which can only happen while
/// other windows hold tokens, or a view URL, for a drawn token of 32 lower-case hex
/// digits, that the URL parser refuses.
pub open spec fn registration_service_failure(occupied: bool, port: u16, m: Seq<char>) -> bool {
    ||| occupied && m == "could not allocate a web-video token"@
    ||| exists|t: Seq<char>| t.len() == 32 && (forall|i: int| 0 <= i < 32 ==> is_lower_hex(#[trigger] t[i]))
        && !url_parses(#[trigger] view_url_text(port, t))
        && m == "invalid loopback view URL: "@ + url_parse_error(view_url_text(port, t))
}

/// What a registration's refusal says: a window that already presents a video is
/// refused with a validation error; any other refusal is a service failure.
pub open spec fn registration_refusal(before: Map<Seq<char>, (Seq<char>, PageView)>, w: Seq<char>, port: u16, e: WebVideoError) -> bool {
    if before.contains_key(w) {
        e matches WebVideoError::Validation(m) && m@ == "window '"@ + w + "' already has an active web-video presentation"@
    } else {
        e matches WebVideoError::Service(m) && registration_service_failure(presents_any(before), port, m@)
    }
}

/// A fresh token: the 32 lower-case hex digits of a random version-4 UUID
/// (`uuid::Uuid::new_v4`, in its `simple` form). The contract states the shape of every
/// outcome; which token comes out is left open.
#[verifier::external_body]
pub(crate) fn random_token() -> (t: String)
    ensures
        t@.len() == 32,
        forall|i: int| 0 <= i < 32 ==> is_lower_hex(#[trigger] t@[i]),
{
    uuid::Uuid::new_v4().simple().to_string()
}

/// How many random tokens a registration draws before it gives up.
pub const MAX_TOKEN_ATTEMPTS: usize = usize::MAX;

fn origin_text(port: u16) -> (s: String)
    ensures
        s@ == loopback_origin(port),
{
    proof { reveal_strlit("http://127.0.0.1:"); }
    let mut s = String::from_str("http://127.0.0.1:");
    s.append(u64_to_decimal(port as u64).as_str());
    s
}

fn quoted_window_message(w: &str, tail: &str) -> (s: String)
    ensures
        s@ == "window '"@ + w@ + tail@,
{
    proof { reveal_strlit("window '"); }
    let mut s = String::from_str("window '");
    s.append(w);
    s.append(tail);
    s
}

impl WebVideoRegistry {
    /// The registry's internal invariant.
    pub closed spec fn wf(&self) -> bool {
        entries_ok(self.entries@)
    }

    /// An empty registry.
    pub fn new() -> (r: Self)
        ensures
            r.wf(),
            r@ == Map::<Seq<char>, (Seq<char>, PageView)>::empty(),
    {
        let r = WebVideoRegistry { entries: Vec::new() };
        assert(r@ =~= Map::<Seq<char>, (Seq<char>, PageView)>::empty());
        r
    }

    fn find_window(&self, w: &str) -> (r: Option<usize>)
        requires
            self.wf(),
        ensures
            match r {
                Some(i) => i < self.entries@.len() && self.entries@[i as int].window_session_id@ == w@
                    && self@.contains_key(w@) && self@[w@] == (self.entries@[i as int].token@, page_view(self.entries@[i as int].page)),
                None => !self@.contains_key(w@),
            },
    {
        let mut i: usize = 0;
        while i < self.entries.len()
            invariant
                i <= self.entries@.len(),
                self.wf(),
                forall|j: int| 0 <= j < i ==> (#[trigger] self.entries@[j]).window_session_id@ != w@,
            decreases self.entries@.len() - i,
        {
            if str_eq(self.entries[i].window_session_id.as_str(), w) {
                proof { lemma_entry_index(self.entries@, i as int); }
                return Some(i);
            }
            i += 1;
        }
        proof {
            if self@.contains_key(w@) {
                let j = choose|j: int| win_at(self.entries@, w@, j);
                assert(self.entries@[j].window_session_id@ == w@);
            }
        }
        None
    }

    fn find_token(&self, token: &str) -> (r: Option<usize>)
        requires
            self.wf(),
        ensures
            match r {
                Some(i) => i < self.entries@.len() && self.entries@[i as int].token@ == token@
                    && page_of_token(self@, token@) == Some(page_view(self.entries@[i as int].page)),
                None => page_of_token(self@, token@) is None,
            },
    {
        let mut i: usize = 0;
        while i < self.entries.len()
            invariant
                i <= self.entries@.len(),
                self.wf(),
                forall|j: int| 0 <= j < i ==> (#[trigger] self.entries@[j]).token@ != token@,
            decreases self.entries@.len() - i,
        {
            if str_eq(self.entries[i].token.as_str(), token) {
                proof {
                    let s = self.entries@;
                    lemma_entry_index(s, i as int);
                    let m = self@;
                    let wi = s[i as int].window_session_id@;
                    assert(m.contains_key(wi) && m[wi].0 == token@);
                    let w = choose|w: Seq<char>| #[trigger] m.contains_key(w) && m[w].0 == token@;
                    let j = choose|j: int| win_at(s, w, j);
                    lemma_entry_index(s, j);
                    if j != i {
                        assert(s[j].token@ != s[i as int].token@);
                    }
                }
                return Some(i);
            }
            i += 1;
        }
        proof {
            let s = self.entries@;
            let m = self@;
            if exists|w: Seq<char>| #[trigger] m.contains_key(w) && m[w].0 == token@ {
                let w = choose|w: Seq<char>| #[trigger] m.contains_key(w) && m[w].0 == token@;
                let j = choose|j: int| win_at(s, w, j);
                lemma_entry_index(s, j);
                assert(s[j].token@ != token@);
            }
        }
        None
    }

    /// Whether a window holds a presentation.
    pub fn contains_window(&self, window_session_id: &str) -> (b: bool)
        requires
            self.wf(),
        ensures
            b == self@.contains_key(window_session_id@),
    {
        self.find_window(window_session_id).is_some()
    }

    /// The page served under a token.
    pub fn page_for_token(&self, token: &str) -> (r: Option<VideoPage>)
        requires
            self.wf(),
        ensures
            match r {
                Some(p) => page_of_token(self@, token@) == Some(page_view(p)),
                None => page_of_token(self@, token@) is None,
            },
    {
        match self.find_token(token) {
            Some(i) => Some(VideoPage {
                video: YouTubeVideo {
                    video_id: self.entries[i].page.video.video_id.clone(),
                    start_seconds: self.entries[i].page.video.start_seconds,
                },
                embed_url: self.entries[i].page.embed_url.clone(),
            }),
            None => None,
        }
    }

    /// Registers a window's video under a fresh token, with the embed URL on
    /// `www.youtube.com` when `authenticated`, else the privacy-enhanced one. A window
    /// that already presents a video is refused.
    pub fn register_with_mode(&mut self, window_session_id: &str, video: YouTubeVideo, authenticated: bool, port: u16)
        -> (r: Result<WebVideoRegistration, WebVideoError>)
        requires
            old(self).wf(),
        ensures
            final(self).wf(),
            old(self)@.contains_key(window_session_id@) ==> final(self)@ == old(self)@
                && r == Err::<WebVideoRegistration, WebVideoError>(WebVideoError::Validation(r->Err_0->Validation_0))
                && r->Err_0->Validation_0@ == "window '"@ + window_session_id@ + "' already has an active web-video presentation"@,
            match r {
                Ok(reg) => !old(self)@.contains_key(window_session_id@)
                    && reg.token@.len() == 32
                    && page_of_token(old(self)@, reg.token@) is None
                    && reg.view_url@ == view_url_text(port, reg.token@)
                    && reg.embed_url@ == embed_url_text(
                        if authenticated { "www.youtube.com"@ } else { "www.youtube-nocookie.com"@ },
                        video.video_id@, loopback_origin(port), video.start_seconds)
                    && final(self)@ == old(self)@.insert(window_session_id@,
                        (reg.token@, (video.video_id@, video.start_seconds, reg.embed_url@))),
                Err(e) => final(self)@ == old(self)@
                    && registration_refusal(old(self)@, window_session_id@, port, e),
            },
    {
        if self.contains_window(window_session_id) {
            proof { reveal_strlit("' already has an active web-video presentation"); }
            return Err(WebVideoError::Validation(quoted_window_message(window_session_id, "' already has an active web-video presentation")));
        }
        let mut attempts: usize = 0;
        let mut token = random_token();
        let ghost before = self@;
        while self.find_token(token.as_str()).is_some()
            invariant
                self.wf(),
                self@ == before,
                token@.len() == 32,
                forall|i: int| 0 <= i < 32 ==> is_lower_hex(#[trigger] token@[i]),
                !self@.contains_key(window_session_id@),
            decreases MAX_TOKEN_ATTEMPTS - attempts,
        {
            if attempts >= MAX_TOKEN_ATTEMPTS - 1 {
                proof {
                    reveal_strlit("could not allocate a web-video token");
                    assert(presents_any(self@));
                }
                return Err(WebVideoError::Service(String::from_str("could not allocate a web-video token")));
            }
            attempts += 1;
            token = random_token();
        }
        let origin = origin_text(port);
        let mut view_text = origin.clone();
        view_text.append("/");
        view_text.append(token.as_str());
        view_text.append("/view");
        proof {
            reveal_strlit("/");
            reveal_strlit("/view");
        }
        let view_url = match WebUrl::parse(view_text.as_str()) {
            Some(u) => u,
            None => {
                let mut m = String::from_str("invalid loopback view URL: ");
                match url_parse_failure(view_text.as_str()) {
                    Some(e) => m.append(e.as_str()),
                    None => {},
                }
                proof {
                    reveal_strlit("invalid loopback view URL: ");
                    assert(view_text@ == view_url_text(port, token@));
                    assert(registration_service_failure(presents_any(self@), port, m@));
                }
                return Err(WebVideoError::Service(m));
            },
        };
        let embed_url = if authenticated {
            video.authenticated_embed_url(origin.as_str())
        } else {
            video.embed_url(origin.as_str())
        };
        let ghost pre = self@;
        let ghost s = self.entries@;
        let ghost w = window_session_id@;
        let entry = VideoEntry {
            window_session_id: String::from_str(window_session_id),
            token: token.clone(),
            page: VideoPage { video, embed_url: embed_url.clone() },
        };
        self.entries.push(entry);
        proof {
            let t = self.entries@;
            let n = s.len() as int;
            assert forall|a: int, b: int| 0 <= a < t.len() && 0 <= b < t.len() && a != b implies (#[trigger] t[a]).window_session_id@
                != (#[trigger] t[b]).window_session_id@ && t[a].token@ != t[b].token@ by {
                if a < n && b < n {
                    assert(t[a] == s[a] && t[b] == s[b]);
                } else if a < n {
                    assert(t[a] == s[a]);
                    lemma_entry_index(s, a);
                    if s[a].token@ == token@ {
                        assert(pre.contains_key(s[a].window_session_id@) && pre[s[a].window_session_id@].0 == token@);
                    }
                } else {
                    assert(t[b] == s[b]);
                    lemma_entry_index(s, b);
                    if s[b].token@ == token@ {
                        assert(pre.contains_key(s[b].window_session_id@) && pre[s[b].window_session_id@].0 == token@);
                    }
                }
            }
            let m = pre.insert(w, (token@, page_view(t[n].page)));
            assert forall|k: Seq<char>| #[trigger] self@.contains_key(k) == m.contains_key(k) by {
                if self@.contains_key(k) {
                    let j = choose|j: int| win_at(t, k, j);
                    if j < n {
                        assert(win_at(s, k, j));
                    }
                }
                if pre.contains_key(k) {
                    let j = choose|j: int| win_at(s, k, j);
                    assert(win_at(t, k, j));
                }
                if k == w {
                    assert(win_at(t, k, n));
                }
            }
            assert forall|k: Seq<char>| #[trigger] self@.contains_key(k) implies self@[k] == m[k] by {
                let j = choose|j: int| win_at(t, k, j);
                lemma_entry_index(t, j);
                if j < n {
                    lemma_entry_index(s, j);
                    assert(t[j] == s[j]);
                }
            }
            assert(self@ =~= m);
        }
        Ok(WebVideoRegistration { token, view_url, embed_url })
    }

    /// Registers a window's video with the privacy-enhanced embed URL.
    pub fn register(&mut self, window_session_id: &str, video: YouTubeVideo, port: u16) -> (r: Result<WebVideoRegistration, WebVideoError>)
        requires
            old(self).wf(),
        ensures
            final(self).wf(),
            match r {
                Ok(reg) => !old(self)@.contains_key(window_session_id@)
                    && reg.token@.len() == 32
                    && page_of_token(old(self)@, reg.token@) is None
                    && reg.view_url@ == view_url_text(port, reg.token@)
                    && reg.embed_url@ == embed_url_text("www.youtube-nocookie.com"@, video.video_id@, loopback_origin(port), video.start_seconds)
                    && final(self)@ == old(self)@.insert(window_session_id@,
                        (reg.token@, (video.video_id@, video.start_seconds, reg.embed_url@))),
                Err(e) => final(self)@ == old(self)@
                    && registration_refusal(old(self)@, window_session_id@, port, e),
            },
    {
        self.register_with_mode(window_session_id, video, false, port)
    }

    /// Registers a window's video with the embed URL on `www.youtube.com`.
    pub fn register_authenticated(&mut self, window_session_id: &str, video: YouTubeVideo, port: u16) -> (r: Result<WebVideoRegistration, WebVideoError>)
        requires
            old(self).wf(),
        ensures
            final(self).wf(),
            match r {
                Ok(reg) => !old(self)@.contains_key(window_session_id@)
                    && reg.token@.len() == 32
                    && page_of_token(old(self)@, reg.token@) is None
                    && reg.view_url@ == view_url_text(port, reg.token@)
                    && reg.embed_url@ == embed_url_text("www.youtube.com"@, video.video_id@, loopback_origin(port), video.start_seconds)
                    && final(self)@ == old(self)@.insert(window_session_id@,
                        (reg.token@, (video.video_id@, video.start_seconds, reg.embed_url@))),
                Err(e) => final(self)@ == old(self)@
                    && registration_refusal(old(self)@, window_session_id@, port, e),
            },
    {
        self.register_with_mode(window_session_id, video, true, port)
    }

    /// Drops a window's presentation; `true` if it had one.
    pub fn revoke_window(&mut self, window_session_id: &str) -> (b: bool)
        requires
            old(self).wf(),
        ensures
            final(self).wf(),
            b == old(self)@.contains_key(window_session_id@),
            final(self)@ == old(self)@.remove(window_session_id@),
    {
        match self.find_window(window_session_id) {
            Some(i) => {
                let ghost s = self.entries@;
                let ghost pre = self@;
                let _ = self.entries.remove(i);
                proof {
                    let t = self.entries@;
                    assert forall|a: int, b: int| 0 <= a < t.len() && 0 <= b < t.len() && a != b implies (#[trigger] t[a]).window_session_id@
                        != (#[trigger] t[b]).window_session_id@ && t[a].token@ != t[b].token@ by {
                        let a2 = if a < i { a } else { a + 1 };
                        let b2 = if b < i { b } else { b + 1 };
                        assert(t[a] == s[a2] && t[b] == s[b2]);
                    }
                    let m = pre.remove(window_session_id@);
                    assert forall|k: Seq<char>| #[trigger] self@.contains_key(k) == m.contains_key(k) by {
                        if self@.contains_key(k) {
                            let j = choose|j: int| win_at(t, k, j);
                            let j2 = if j < i { j } else { j + 1 };
                            assert(t[j] == s[j2]);
                            assert(win_at(s, k, j2));
                            assert(s[j2].window_session_id@ != s[i as int].window_session_id@);
                        }
                        if m.contains_key(k) {
                            let j = choose|j: int| win_at(s, k, j);
                            if j < i {
                                assert(win_at(t, k, j));
                            } else {
                                assert(j != i);
                                assert(win_at(t, k, j - 1));
                            }
                        }
                    }
                    assert forall|k: Seq<char>| #[trigger] self@.contains_key(k) implies self@[k] == m[k] by {
                        let j = choose|j: int| win_at(t, k, j);
                        lemma_entry_index(t, j);
                        let j2 = if j < i { j } else { j + 1 };
                        assert(t[j] == s[j2]);
                        lemma_entry_index(s, j2);
                    }
                    assert(self@ =~= m);
                }
                true
            },
            None => {
                assert(self@.remove(window_session_id@) =~= self@);
                false
            },
        }
    }

    /// Whether a window's page embeds the player from `www.youtube.com`, where a
    /// signed-in session applies.
    pub fn is_authenticated_embed(&self, window_session_id: &str) -> (r: Result<bool, WebVideoError>)
        requires
            self.wf(),
        ensures
            match r {
                Ok(b) => self@.contains_key(window_session_id@) && b == (
                    crate::text::has_infix(self@[window_session_id@].1.2, "youtube.com/embed"@)
                    && !crate::text::has_infix(self@[window_session_id@].1.2, "youtube-nocookie.com"@)),
                Err(e) => !self@.contains_key(window_session_id@)
                    && e == WebVideoError::Validation(e->Validation_0) && e->Validation_0@ == not_presenting(window_session_id@),
            },
    {
        match self.find_window(window_session_id) {
            Some(i) => {
                let v = chars_of(self.entries[i].page.embed_url.as_str());
                Ok(crate::text::contains_str(&v, "youtube.com/embed") && !crate::text::contains_str(&v, "youtube-nocookie.com"))
            },
            None => {
                proof { reveal_strlit("' is not a web-video presentation"); }
                Err(WebVideoError::Validation(quoted_window_message(window_session_id, "' is not a web-video presentation")))
            },
        }
    }

    /// The loopback URL a window's page is served at.
    pub fn view_url_for_window(&self, window_session_id: &str, port: u16) -> (r: Result<WebUrl, WebVideoError>)
        requires
            self.wf(),
        ensures
            match r {
                Ok(u) => self@.contains_key(window_session_id@) && u@ == view_url_text(port, self@[window_session_id@].0),
                Err(WebVideoError::Validation(m)) => !self@.contains_key(window_session_id@) && m@ == not_presenting(window_session_id@),
                Err(WebVideoError::Service(m)) => self@.contains_key(window_session_id@)
                    && !crate::urls::url_parses(view_url_text(port, self@[window_session_id@].0))
                    && m@ == "invalid loopback view URL: "@ + url_parse_error(view_url_text(port, self@[window_session_id@].0)),
                Err(WebVideoError::Control(_)) => false,
            },
    {
        match self.find_window(window_session_id) {
            Some(i) => {
                let mut text = origin_text(port);
                text.append("/");
                text.append(self.entries[i].token.as_str());
                text.append("/view");
                proof {
                    reveal_strlit("/");
                    reveal_strlit("/view");
                }
                match WebUrl::parse(text.as_str()) {
                    Some(u) => Ok(u),
                    None => {
                        proof { reveal_strlit("invalid loopback view URL: "); }
                        let mut m = String::from_str("invalid loopback view URL: ");
                        match url_parse_failure(text.as_str()) {
                            Some(e) => m.append(e.as_str()),
                            None => {},
                        }
                        Err(WebVideoError::Service(m))
                    },
                }
            },
            None => {
                proof { reveal_strlit("' is not a web-video presentation"); }
                Err(WebVideoError::Validation(quoted_window_message(window_session_id, "' is not a web-video presentation")))
            },
        }
    }

    fn set_embed(&mut self, window_session_id: &str, authenticated: bool, port: u16) -> (r: Result<(), WebVideoError>)
        requires
            old(self).wf(),
        ensures
            final(self).wf(),
            match r {
                Ok(()) => old(self)@.contains_key(window_session_id@) && final(self)@ == old(self)@.insert(window_session_id@, (
                    old(self)@[window_session_id@].0,
                    (old(self)@[window_session_id@].1.0, old(self)@[window_session_id@].1.1, embed_url_text(
                        if authenticated { "www.youtube.com"@ } else { "www.youtube-nocookie.com"@ },
                        old(self)@[window_session_id@].1.0, loopback_origin(port), old(self)@[window_session_id@].1.1)),
                )),
                Err(e) => !old(self)@.contains_key(window_session_id@) && final(self)@ == old(self)@
                    && e == WebVideoError::Validation(e->Validation_0) && e->Validation_0@ == not_presenting(window_session_id@),
            },
    {
        let i = match self.find_window(window_session_id) {
            Some(i) => i,
            None => {
                proof { reveal_strlit("' is not a web-video presentation"); }
                return Err(WebVideoError::Validation(quoted_window_message(window_session_id, "' is not a web-video presentation")));
            },
        };
        let origin = origin_text(port);
        let embed = if authenticated {
            self.entries[i].page.video.authenticated_embed_url(origin.as_str())
        } else {
            self.entries[i].page.video.embed_url(origin.as_str())
        };
        let entry = VideoEntry {
            window_session_id: self.entries[i].window_session_id.clone(),
            token: self.entries[i].token.clone(),
            page: VideoPage {
                video: YouTubeVideo {
                    video_id: self.entries[i].page.video.video_id.clone(),
                    start_seconds: self.entries[i].page.video.start_seconds,
                },
                embed_url: embed,
            },
        };
        let ghost s = self.entries@;
        let ghost pre = self@;
        self.entries.set(i, entry);
        proof {
            let t = self.entries@;
            assert forall|a: int, b: int| 0 <= a < t.len() && 0 <= b < t.len() && a != b implies (#[trigger] t[a]).window_session_id@
                != (#[trigger] t[b]).window_session_id@ && t[a].token@ != t[b].token@ by {
                assert(t[a].window_session_id@ == s[a].window_session_id@ && t[a].token@ == s[a].token@);
                assert(t[b].window_session_id@ == s[b].window_session_id@ && t[b].token@ == s[b].token@);
            }
            let w = window_session_id@;
            let m = pre.insert(w, (t[i as int].token@, page_view(t[i as int].page)));
            assert forall|k: Seq<char>| #[trigger] self@.contains_key(k) == m.contains_key(k) by {
                if self@.contains_key(k) {
                    let j = choose|j: int| win_at(t, k, j);
                    assert(win_at(s, k, j));
                }
                if pre.contains_key(k) {
                    let j = choose|j: int| win_at(s, k, j);
                    assert(win_at(t, k, j));
                }
            }
            assert forall|k: Seq<char>| #[trigger] self@.contains_key(k) implies self@[k] == m[k] by {
                let j = choose|j: int| win_at(t, k, j);
                lemma_entry_index(t, j);
                if j != i {
                    lemma_entry_index(s, j);
                    assert(t[j] == s[j]);
                }
            }
            assert(self@ =~= m);
        }
        Ok(())
    }

    /// Switches a window's page to the embed URL on `www.youtube.com`.
    pub fn enable_authenticated_embed(&mut self, window_session_id: &str, port: u16) -> (r: Result<(), WebVideoError>)
        requires
            old(self).wf(),
        ensures
            final(self).wf(),
            match r {
                Ok(()) => old(self)@.contains_key(window_session_id@) && final(self)@ == old(self)@.insert(window_session_id@, (
                    old(self)@[window_session_id@].0,
                    (old(self)@[window_session_id@].1.0, old(self)@[window_session_id@].1.1, embed_url_text(
                        "www.youtube.com"@, old(self)@[window_session_id@].1.0, loopback_origin(port), old(self)@[window_session_id@].1.1)),
                )),
                Err(e) => !old(self)@.contains_key(window_session_id@) && final(self)@ == old(self)@,
            },
    {
        self.set_embed(window_session_id, true, port)
    }

    /// Switches a window's page back to the privacy-enhanced embed URL.
    pub fn disable_authenticated_embed(&mut self, window_session_id: &str, port: u16) -> (r: Result<(), WebVideoError>)
        requires
            old(self).wf(),
        ensures
            final(self).wf(),
            match r {
                Ok(()) => old(self)@.contains_key(window_session_id@) && final(self)@ == old(self)@.insert(window_session_id@, (
                    old(self)@[window_session_id@].0,
                    (old(self)@[window_session_id@].1.0, old(self)@[window_session_id@].1.1, embed_url_text(
                        "www.youtube-nocookie.com"@, old(self)@[window_session_id@].1.0, loopback_origin(port), old(self)@[window_session_id@].1.1)),
                )),
                Err(e) => !old(self)@.contains_key(window_session_id@) && final(self)@ == old(self)@,
            },
    {
        self.set_embed(window_session_id, false, port)
    }
}

/// Whether a web-video window may navigate to a URL: only to its own page on the
/// loopback service.
pub open spec fn video_navigation_ok(u: Seq<char>, expected: Seq<char>) -> bool {
    url_scheme(u) == "http"@ && url_host_str(u) == Some("127.0.0.1"@) && url_port(u) == url_port(expected)
        && url_path(u) == url_path(expected)
}

/// Checks a navigation of a web-video window against its page URL.
pub fn validate_web_video_navigation(url: &WebUrl, expected_view: &WebUrl) -> (b: bool)
    ensures
        b == video_navigation_ok(url@, expected_view@),
{
    let scheme = url.scheme();
    if !str_eq(scheme.as_str(), "http") {
        return false;
    }
    match url.host_str() {
        Some(h) => if !str_eq(h.as_str(), "127.0.0.1") {
            return false;
        },
        None => return false,
    }
    if url.port() != expected_view.port() {
        return false;
    }
    let p = url.path();
    let q = expected_view.path();
    str_eq(p.as_str(), q.as_str())
}

/// How the loopback service answers a request line.
#[derive(Clone, Debug, PartialEq, Eq)]
pub enum VideoRequest {
    BadRequest,
    MethodNotAllowed,
    NotFound { head_only: bool },
    View { token: String, head_only: bool },
}

/// The number of characters before the first white space.
pub open spec fn word_len(s: Seq<char>) -> nat
    decreases s.len(),
{
    if s.len() == 0 || is_ws(s[0]) {
        0
    } else {
        1 + word_len(s.drop_first())
    }
}

/// The first white-space-separated word of `s` (empty if there is none).
pub open spec fn first_word(s: Seq<char>) -> Seq<char> {
    let t = trim_start(s);
    t.subrange(0, word_len(t) as int)
}

/// What follows the first word of `s`.
pub open spec fn after_first_word(s: Seq<char>) -> Seq<char> {
    let t = trim_start(s);
    t.subrange(word_len(t) as int, t.len() as int)
}

/// The route of a request line: method and path are its first two words; only `GET` and
/// `HEAD` are served; the path, leading slashes dropped, is a token then `view`.
pub open spec fn video_route(line: Seq<char>) -> (u8, Seq<char>, bool) {
    let method = first_word(line);
    let path = first_word(after_first_word(line));
    let head = method == "HEAD"@;
    if method.len() == 0 || path.len() == 0 {
        (0, Seq::empty(), false)
    } else if method != "GET"@ && method != "HEAD"@ {
        (1, Seq::empty(), false)
    } else {
        match path_token(path) {
            Some(token) => (3, token, head),
            None => (2, Seq::empty(), head),
        }
    }
}

/// The abstract value of a route.
pub open spec fn request_view(r: VideoRequest) -> (u8, Seq<char>, bool) {
    match r {
        VideoRequest::BadRequest => (0, Seq::empty(), false),
        VideoRequest::MethodNotAllowed => (1, Seq::empty(), false),
        VideoRequest::NotFound { head_only } => (2, Seq::empty(), head_only),
        VideoRequest::View { token, head_only } => (3, token@, head_only),
    }
}

fn skip_spaces(v: &Vec<char>, from: usize) -> (e: usize)
    requires
        from <= v@.len(),
    ensures
        from <= e <= v@.len(),
        v@.subrange(e as int, v@.len() as int) == trim_start(v@.subrange(from as int, v@.len() as int)),
{
    let mut e = from;
    while e < v.len() && is_whitespace(v[e])
        invariant
            from <= e <= v@.len(),
            trim_start(v@.subrange(from as int, v@.len() as int)) == trim_start(v@.subrange(e as int, v@.len() as int)),
        decreases v@.len() - e,
    {
        assert(v@.subrange(e as int, v@.len() as int).drop_first() =~= v@.subrange(e + 1, v@.len() as int));
        e += 1;
    }
    e
}

fn word_end(v: &Vec<char>, from: usize) -> (e: usize)
    requires
        from <= v@.len(),
    ensures
        from <= e <= v@.len(),
        e - from == word_len(v@.subrange(from as int, v@.len() as int)),
{
    let mut e = from;
    while e < v.len() && !is_whitespace(v[e])
        invariant
            from <= e <= v@.len(),
            word_len(v@.subrange(from as int, v@.len() as int)) == (e - from) + word_len(v@.subrange(e as int, v@.len() as int)),
        decreases v@.len() - e,
    {
        assert(v@.subrange(e as int, v@.len() as int).drop_first() =~= v@.subrange(e + 1, v@.len() as int));
        e += 1;
    }
    e
}

fn slash_end(v: &Vec<char>, from: usize) -> (e: usize)
    requires
        from <= v@.len(),
    ensures
        from <= e <= v@.len(),
        v@.subrange(from as int, e as int) == first_segment(v@.subrange(from as int, v@.len() as int)),
{
    let ghost s = v@.subrange(from as int, v@.len() as int);
    let mut e = from;
    while e < v.len() && v[e] != '/'
        invariant
            from <= e <= v@.len(),
            s == v@.subrange(from as int, v@.len() as int),
            forall|j: int| from <= j < e ==> v@[j] != '/',
        decreases v@.len() - e,
    {
        e += 1;
    }
    proof {
        if e < v@.len() {
            assert(s[e - from] == '/');
            assert(s.contains('/'));
            let c = choose|i: int| 0 <= i < s.len() && s[i] == '/' && forall|j: int| 0 <= j < i ==> s[j] != '/';
            assert(c == e - from) by {
                if c < e - from {
                    assert(v@[from + c] != '/');
                }
                if c > e - from {
                }
            }
        } else {
            assert(!s.contains('/')) by {
                if s.contains('/') {
                    let k = choose|k: int| 0 <= k < s.len() && s[k] == '/';
                    assert(v@[from + k] != '/');
                }
            }
        }
        assert(v@.subrange(from as int, e as int) =~= first_segment(s));
    }
    e
}

fn leading_slashes_end(v: &Vec<char>) -> (s: usize)
    ensures
        s <= v@.len(),
        v@.subrange(s as int, v@.len() as int) == drop_leading(v@, '/'),
{
    let mut s: usize = 0;
    assert(v@.subrange(0, v@.len() as int) =~= v@);
    while s < v.len() && v[s] == '/'
        invariant
            s <= v@.len(),
            drop_leading(v@, '/') == drop_leading(v@.subrange(s as int, v@.len() as int), '/'),
        decreases v@.len() - s,
    {
        assert(v@.subrange(s as int, v@.len() as int).drop_first() =~= v@.subrange(s + 1, v@.len() as int));
        s += 1;
    }
    s
}

/// The token a request path names when it asks for a page: leading slashes dropped, a
/// token segment, then a `view` segment.
pub open spec fn path_token(path: Seq<char>) -> Option<Seq<char>> {
    let p = drop_leading(path, '/');
    let token = first_segment(p);
    let action = if token.len() < p.len() { first_segment(p.subrange(token.len() + 1int, p.len() as int)) } else { Seq::empty() };
    if action == "view"@ { Some(token) } else { None }
}

fn view_token(path: &str) -> (r: Option<String>)
    ensures
        match r {
            Some(t) => path_token(path@) == Some(t@),
            None => path_token(path@) is None,
        },
{
    let pv = chars_of(path);
    let s = leading_slashes_end(&pv);
    let te = slash_end(&pv, s);
    proof { reveal_strlit("view"); }
    if te < pv.len() {
        let ae = slash_end(&pv, te + 1);
        let action = string_from_range(&pv, te + 1, ae);
        proof {
            let p = pv@.subrange(s as int, pv@.len() as int);
            assert(p == drop_leading(path@, '/'));
            assert(first_segment(p) == pv@.subrange(s as int, te as int));
            assert(first_segment(p).len() == te - s);
            assert(p.subrange(te - s + 1, p.len() as int) =~= pv@.subrange(te + 1, pv@.len() as int));
            assert(action@ == first_segment(p.subrange(first_segment(p).len() + 1int, p.len() as int)));
        }
        if str_eq(action.as_str(), "view") {
            let t = string_from_range(&pv, s, te);
            proof {
                let p = drop_leading(path@, '/');
                let token = first_segment(p);
                assert(token == t@);
                assert(token.len() < p.len());
                assert(path_token(path@) == Some(token));
            }
            Some(t)
        } else {
            None
        }
    } else {
        proof {
            let p = pv@.subrange(s as int, pv@.len() as int);
            assert(p == drop_leading(path@, '/'));
            assert(first_segment(p) == pv@.subrange(s as int, te as int));
            assert(first_segment(p).len() == p.len());
            assert("view"@.len() == 4);
        }
        None
    }
}

fn first_two_words(v: &Vec<char>) -> (r: (usize, usize, usize, usize))
    ensures
        r.0 <= r.1 <= r.2 <= r.3 <= v@.len(),
        first_word(v@) == v@.subrange(r.0 as int, r.1 as int),
        first_word(after_first_word(v@)) == v@.subrange(r.2 as int, r.3 as int),
{
    let n = v.len();
    let a = skip_spaces(v, 0);
    let b = word_end(v, a);
    let c = skip_spaces(v, b);
    let d = word_end(v, c);
    proof {
        assert(v@.subrange(0, n as int) =~= v@);
        let t = trim_start(v@);
        assert(t =~= v@.subrange(a as int, n as int));
        assert(first_word(v@) =~= v@.subrange(a as int, b as int));
        assert(after_first_word(v@) =~= v@.subrange(b as int, n as int));
        let t2 = trim_start(v@.subrange(b as int, n as int));
        assert(t2 =~= v@.subrange(c as int, n as int));
        assert(first_word(after_first_word(v@)) =~= v@.subrange(c as int, d as int));
    }
    (a, b, c, d)
}

/// Routes a request line of the loopback service.
pub fn route_video_request(line: &str) -> (r: VideoRequest)
    ensures
        request_view(r) == video_route(line@),
{
    let v = chars_of(line);
    let (a, b, c, d) = first_two_words(&v);
    if a == b || c == d {
        return VideoRequest::BadRequest;
    }
    let method = string_from_range(&v, a, b);
    let head_only = str_eq(method.as_str(), "HEAD");
    proof {
        reveal_strlit("HEAD");
        reveal_strlit("GET");
    }
    if !str_eq(method.as_str(), "GET") && !head_only {
        return VideoRequest::MethodNotAllowed;
    }
    let path = string_from_range(&v, c, d);
    match view_token(path.as_str()) {
        Some(token) => VideoRequest::View { token, head_only },
        None => VideoRequest::NotFound { head_only },
    }
}

} // verus!
