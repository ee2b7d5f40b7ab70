//! YouTube presentations: which URLs name a video, the privacy-enhanced embed URL for
//! one, and the page that loads the player only when asked.
use vstd::prelude::*;
use crate::ini::first_index_of;
use crate::text::{
    ascii_lower_seq, chars_of, decimal, equals_str, is_ascii_alnum, parse_u64, starts_with_str,
    string_from_range, to_ascii_lowercase, trim, trim_bounds, u64_text_value, u64_to_decimal,
    is_digit, digit_val,
};
use crate::urls::{form_urlencoded, form_urlencoded_pairs, pair_views, url_host_str, url_path, url_query_pairs, WebUrl};

verus! {

#[derive(Clone, Debug, PartialEq, Eq)]
pub struct YouTubeVideo {
    pub video_id: String,
    pub start_seconds: Option<u64>,
}

/// A character allowed in a video id.
pub open spec fn is_video_id_char(c: char) -> bool {
    is_ascii_alnum(c) || c == '-' || c == '_'
}

/// A video id: exactly eleven characters from `[A-Za-z0-9_-]`.
pub open spec fn valid_video_id(s: Seq<char>) -> bool {
    s.len() == 11 && forall|i: int| 0 <= i < s.len() ==> is_video_id_char(#[trigger] s[i])
}

/// Whether `id` is a well-formed video id (eleven bytes, each `[A-Za-z0-9_-]`).
pub fn is_valid_video_id(id: &str) -> (b: bool)
    ensures
        b == valid_video_id(id@),
{
    let v = chars_of(id);
    if v.len() != 11 {
        return false;
    }
    let mut i: usize = 0;
    while i < v.len()
        invariant
            i <= v@.len(),
            v@ == id@,
            forall|j: int| 0 <= j < i ==> is_video_id_char(#[trigger] v@[j]),
        decreases v@.len() - i,
    {
        let c = v[i];
        if !(('0' <= c && c <= '9') || ('a' <= c && c <= 'z') || ('A' <= c && c <= 'Z') || c == '-'
            || c == '_') {
            return false;
        }
        i += 1;
    }
    true
}

/// The running state of an `1h2m3s` timestamp.
pub struct TimestampScan {
    pub total: u64,
    pub current: u64,
    pub matched: bool,
}

/// One character of an `h`/`m`/`s` timestamp: a digit extends the current number; a
/// unit after a number adds it, scaled, to the total; anything else, or an overflow,
/// refuses the timestamp.
pub open spec fn ts_step(st: Option<TimestampScan>, c: char) -> Option<TimestampScan> {
    match st {
        None => None,
        Some(s) => if is_digit(c) {
            if s.current * 10 + digit_val(c) > u64::MAX {
                None
            } else {
                Some(TimestampScan { current: (s.current * 10 + digit_val(c)) as u64, matched: true, ..s })
            }
        } else if (c == 'h' || c == 'm' || c == 's') && s.matched {
            let unit: int = if c == 'h' { 3600 } else if c == 'm' { 60 } else { 1 };
            if s.current * unit > u64::MAX || s.total + s.current * unit > u64::MAX {
                None
            } else {
                Some(TimestampScan { total: (s.total + s.current * unit) as u64, current: 0, matched: false })
            }
        } else {
            None
        },
    }
}

/// The timestamp state after the characters of `s`.
pub open spec fn ts_scan(s: Seq<char>) -> Option<TimestampScan>
    decreases s.len(),
{
    if s.len() == 0 {
        Some(TimestampScan { total: 0, current: 0, matched: false })
    } else {
        ts_step(ts_scan(s.drop_last()), s.last())
    }
}

/// The seconds a timestamp value names: after trimming, a plain number, a number with
/// an `s` suffix, or an `h`/`m`/`s` form; nothing if blank, malformed or too large.
pub open spec fn timestamp_value(v: Seq<char>) -> Option<u64> {
    let t = trim(v);
    if t.len() == 0 {
        None
    } else if u64_text_value(t) is Some {
        u64_text_value(t)
    } else if u64_text_value(if t.last() == 's' { t.drop_last() } else { t }) is Some {
        u64_text_value(if t.last() == 's' { t.drop_last() } else { t })
    } else {
        match ts_scan(t) {
            None => None,
            Some(st) => if st.matched {
                if st.total + st.current > u64::MAX {
                    None
                } else {
                    Some((st.total + st.current) as u64)
                }
            } else {
                Some(st.total)
            },
        }
    }
}

/// Parses a start-time value, as in `t=1m30s`.
pub fn parse_timestamp(value: &str) -> (r: Option<u64>)
    ensures
        r == timestamp_value(value@),
{
    let raw = chars_of(value);
    let (a, b) = trim_bounds(&raw);
    let t = crate::text::string_from_range(&raw, a, b);
    let v = chars_of(t.as_str());
    if v.len() == 0 {
        return None;
    }
    match parse_u64(&v, 0, v.len()) {
        Some(n) => {
            assert(v@.subrange(0, v@.len() as int) =~= v@);
            return Some(n);
        },
        None => {},
    }
    assert(v@.subrange(0, v@.len() as int) =~= v@);
    let end = if v[v.len() - 1] == 's' { v.len() - 1 } else { v.len() };
    assert(v@.drop_last() =~= v@.subrange(0, v@.len() - 1));
    match parse_u64(&v, 0, end) {
        Some(n) => return Some(n),
        None => {},
    }
    assert(v@.subrange(0, end as int) == (if v@.last() == 's' { v@.drop_last() } else { v@ }));
    let mut total: u64 = 0;
    let mut current: u64 = 0;
    let mut matched = false;
    let mut i: usize = 0;
    assert(v@.subrange(0, 0) =~= Seq::<char>::empty());
    while i < v.len()
        invariant
            i <= v@.len(),
            v@ == trim(value@),
            v@.len() > 0,
            u64_text_value(v@) is None,
            u64_text_value(if v@.last() == 's' { v@.drop_last() } else { v@ }) is None,
            ts_scan(v@.subrange(0, i as int)) == Some(TimestampScan { total, current, matched }),
        decreases v@.len() - i,
    {
        let c = v[i];
        assert(v@.subrange(0, i + 1).drop_last() =~= v@.subrange(0, i as int));
        if '0' <= c && c <= '9' {
            let d = (c as u32 - '0' as u32) as u64;
            assert(d == digit_val(c));
            if current > (u64::MAX - d) / 10 {
                assert(current * 10 + d > u64::MAX) by (nonlinear_arith)
                    requires current > (u64::MAX - d) / 10, d <= 9;
                proof { lemma_ts_none_stays(v@, i as int + 1); }
                return None;
            }
            current = current * 10 + d;
            matched = true;
        } else if (c == 'h' || c == 'm' || c == 's') && matched {
            let unit: u64 = if c == 'h' { 3600 } else if c == 'm' { 60 } else { 1 };
            if current > u64::MAX / unit || total > u64::MAX - current * unit {
                proof {
                    if current > u64::MAX / unit {
                        assert(current * unit > u64::MAX) by (nonlinear_arith)
                            requires current > u64::MAX / unit, unit > 0;
                    }
                    lemma_ts_none_stays(v@, i as int + 1);
                }
                return None;
            }
            total = total + current * unit;
            current = 0;
            matched = false;
        } else {
            proof { lemma_ts_none_stays(v@, i as int + 1); }
            return None;
        }
        i += 1;
    }
    assert(v@.subrange(0, v@.len() as int) =~= v@);
    if matched {
        if total > u64::MAX - current {
            return None;
        }
        total = total + current;
    }
    Some(total)
}

/// Once a timestamp is refused, no further characters revive it.
proof fn lemma_ts_none_stays(s: Seq<char>, i: int)
    requires
        0 <= i <= s.len(),
        ts_scan(s.subrange(0, i)) is None,
    ensures
        ts_scan(s) is None,
    decreases s.len() - i,
{
    if i < s.len() {
        assert(s.subrange(0, i + 1).drop_last() =~= s.subrange(0, i));
        lemma_ts_none_stays(s, i + 1);
    } else {
        assert(s.subrange(0, i) =~= s);
    }
}

/// The first `/`-separated segment of `s`.
pub open spec fn first_segment(s: Seq<char>) -> Seq<char> {
    match first_index_of(s, '/') {
        Some(i) => s.subrange(0, i),
        None => s,
    }
}

/// The end of the first `/`-separated segment of `v[from..]`.
fn segment_end(v: &Vec<char>, from: usize) -> (e: usize)
    requires
        from <= v.len(),
    ensures
        from <= e <= v.len(),
        v@.subrange(from as int, e as int) == first_segment(v@.subrange(from as int, v@.len() as int)),
{
    let ghost s = v@.subrange(from as int, v@.len() as int);
    let mut e = from;
    while e < v.len() && v[e] != '/'
        invariant
            from <= e <= v.len(),
            forall|j: int| from <= j < e ==> v@[j] != '/',
        decreases v.len() - e,
    {
        e += 1;
    }
    proof {
        if e < v.len() {
            let k = e - from;
            assert(s[k] == '/');
            assert(s.contains('/'));
            let c = choose|c: int| 0 <= c < s.len() && s[c] == '/' && forall|j: int| 0 <= j < c ==> s[j] != '/';
            assert(c == k) by {
                if c < k {
                    assert(s[c] == v@[from + c]);
                }
                if k < c {
                    assert(s[k] != '/');
                }
            }
            assert(v@.subrange(from as int, e as int) =~= s.subrange(0, k));
        } else {
            assert(!s.contains('/')) by {
                if s.contains('/') {
                    let j = choose|j: int| 0 <= j < s.len() && s[j] == '/';
                    assert(v@[from + j] == '/');
                }
            }
            assert(v@.subrange(from as int, e as int) =~= s);
        }
    }
    e
}

/// The first non-empty `v` value among the query pairs.
pub open spec fn first_v_value(pairs: Seq<(Seq<char>, Seq<char>)>) -> Option<Seq<char>>
    decreases pairs.len(),
{
    if pairs.len() == 0 {
        None
    } else if pairs[0].0 == "v"@ && pairs[0].1.len() > 0 {
        Some(pairs[0].1)
    } else {
        first_v_value(pairs.drop_first())
    }
}

/// The first `t` or `start` value among the query pairs that is a valid timestamp.
pub open spec fn first_start(pairs: Seq<(Seq<char>, Seq<char>)>) -> Option<u64>
    decreases pairs.len(),
{
    if pairs.len() == 0 {
        None
    } else if (pairs[0].0 == "t"@ || pairs[0].0 == "start"@) && timestamp_value(pairs[0].1) is Some {
        timestamp_value(pairs[0].1)
    } else {
        first_start(pairs.drop_first())
    }
}

/// The non-empty first segment after a path prefix.
pub open spec fn id_after(path: Seq<char>, prefix: Seq<char>) -> Option<Seq<char>> {
    let seg = first_segment(path.subrange(prefix.len() as int, path.len() as int));
    if seg.len() > 0 {
        Some(seg)
    } else {
        None
    }
}

/// The YouTube hosts with `/watch`, `/embed/`, `/shorts/` and `/live/` pages.
pub open spec fn is_watch_host(h: Seq<char>) -> bool {
    h == "youtube.com"@ || h == "www.youtube.com"@ || h == "m.youtube.com"@ || h
        == "music.youtube.com"@
}

/// The candidate video id a URL names: the outer `None` when a `youtu.be` path does
/// not start with `/` (no video at all), else the id found, if any.
pub open spec fn candidate_video_id(host: Seq<char>, path: Seq<char>, pairs: Seq<(Seq<char>, Seq<char>)>) -> Option<Option<Seq<char>>> {
    if host == "youtu.be"@ {
        if path.len() > 0 && path[0] == '/' {
            Some(id_after(path, "/"@))
        } else {
            None
        }
    } else if is_watch_host(host) {
        if path == "/watch"@ {
            Some(first_v_value(pairs))
        } else if "/embed/"@.is_prefix_of(path) {
            Some(id_after(path, "/embed/"@))
        } else if "/shorts/"@.is_prefix_of(path) {
            Some(id_after(path, "/shorts/"@))
        } else if "/live/"@.is_prefix_of(path) {
            Some(id_after(path, "/live/"@))
        } else {
            Some(None)
        }
    } else {
        Some(None)
    }
}

/// The video a parsed URL names, with its start time.
pub open spec fn youtube_video_of(text: Seq<char>) -> Option<(Seq<char>, Option<u64>)> {
    match url_host_str(text) {
        None => None,
        Some(h) => {
            let pairs = url_query_pairs(text);
            match candidate_video_id(ascii_lower_seq(h), url_path(text), pairs) {
                Some(Some(id)) => if valid_video_id(id) {
                    Some((id, first_start(pairs)))
                } else {
                    None
                },
                _ => None,
            }
        },
    }
}

fn find_v_value(pairs: &Vec<(String, String)>) -> (r: Option<String>)
    ensures
        match r {
            Some(v) => first_v_value(pair_views(pairs@)) == Some(v@),
            None => first_v_value(pair_views(pairs@)) is None,
        },
{
    let mut i: usize = 0;
    assert(pair_views(pairs@).skip(0) =~= pair_views(pairs@));
    while i < pairs.len()
        invariant
            i <= pairs@.len(),
            first_v_value(pair_views(pairs@)) == first_v_value(pair_views(pairs@).skip(i as int)),
        decreases pairs@.len() - i,
    {
        assert(pair_views(pairs@).skip(i as int)[0] == (pairs@[i as int].0@, pairs@[i as int].1@));
        assert(pair_views(pairs@).skip(i as int).drop_first() =~= pair_views(pairs@).skip(i + 1));
        if crate::text::str_eq(pairs[i].0.as_str(), "v") && pairs[i].1.as_str().unicode_len() > 0 {
            return Some(pairs[i].1.clone());
        }
        i += 1;
    }
    None
}

fn find_start(pairs: &Vec<(String, String)>) -> (r: Option<u64>)
    ensures
        r == first_start(pair_views(pairs@)),
{
    let mut i: usize = 0;
    assert(pair_views(pairs@).skip(0) =~= pair_views(pairs@));
    while i < pairs.len()
        invariant
            i <= pairs@.len(),
            first_start(pair_views(pairs@)) == first_start(pair_views(pairs@).skip(i as int)),
        decreases pairs@.len() - i,
    {
        assert(pair_views(pairs@).skip(i as int)[0] == (pairs@[i as int].0@, pairs@[i as int].1@));
        assert(pair_views(pairs@).skip(i as int).drop_first() =~= pair_views(pairs@).skip(i + 1));
        if crate::text::str_eq(pairs[i].0.as_str(), "t") || crate::text::str_eq(
            pairs[i].0.as_str(),
            "start",
        ) {
            match parse_timestamp(pairs[i].1.as_str()) {
                Some(n) => return Some(n),
                None => {},
            }
        }
        i += 1;
    }
    None
}

fn id_after_prefix(path: &Vec<char>, prefix: &str) -> (r: Option<String>)
    requires
        prefix@.is_prefix_of(path@),
    ensures
        match r {
            Some(s) => id_after(path@, prefix@) == Some(s@),
            None => id_after(path@, prefix@) is None,
        },
{
    let p = chars_of(prefix);
    let e = segment_end(path, p.len());
    if e == p.len() {
        return None;
    }
    Some(string_from_range(path, p.len(), e))
}

impl YouTubeVideo {
    /// The video a URL names: `youtu.be/<id>`, or `/watch?v=<id>`, `/embed/<id>`,
    /// `/shorts/<id>`, `/live/<id>` on the YouTube hosts; the id must be well formed, and
    /// the first valid `t` or `start` value gives the start time.
    pub fn parse(url: &WebUrl) -> (r: Option<YouTubeVideo>)
        ensures
            match r {
                Some(v) => youtube_video_of(url@) == Some((v.video_id@, v.start_seconds)),
                None => youtube_video_of(url@) is None,
            },
    {
        let host_raw = match url.host_str() {
            Some(h) => h,
            None => return None,
        };
        let host_string = to_ascii_lowercase(host_raw.as_str());
        let host = chars_of(host_string.as_str());
        let path_string = url.path();
        let path = chars_of(path_string.as_str());
        let pairs = url.query_pairs();
        let video_id: Option<String> = if equals_str(&host, "youtu.be") {
            if path.len() > 0 && path[0] == '/' {
                proof {
                    reveal_strlit("/");
                    assert("/"@.is_prefix_of(path@));
                }
                id_after_prefix(&path, "/")
            } else {
                return None;
            }
        } else if equals_str(&host, "youtube.com") || equals_str(&host, "www.youtube.com")
            || equals_str(&host, "m.youtube.com") || equals_str(&host, "music.youtube.com") {
            if equals_str(&path, "/watch") {
                find_v_value(&pairs)
            } else if starts_with_str(&path, "/embed/") {
                id_after_prefix(&path, "/embed/")
            } else if starts_with_str(&path, "/shorts/") {
                id_after_prefix(&path, "/shorts/")
            } else if starts_with_str(&path, "/live/") {
                id_after_prefix(&path, "/live/")
            } else {
                None
            }
        } else {
            None
        };
        let video_id = match video_id {
            Some(v) => v,
            None => return None,
        };
        if !is_valid_video_id(video_id.as_str()) {
            return None;
        }
        let start_seconds = find_start(&pairs);
        Some(YouTubeVideo { video_id, start_seconds })
    }

    /// The video's thumbnail image URL.
    pub fn thumbnail_url(&self) -> (u: String)
        ensures
            u@ == "https://i.ytimg.com/vi/"@ + self.video_id@ + "/hqdefault.jpg"@,
    {
        let mut u = String::from_str("https://i.ytimg.com/vi/");
        u.append(self.video_id.as_str());
        u.append("/hqdefault.jpg");
        u
    }

    /// The privacy-enhanced embed URL (`www.youtube-nocookie.com`) for a page served from
    /// `origin`.
    pub fn embed_url(&self, origin: &str) -> (u: String)
        ensures
            u@ == embed_url_text("www.youtube-nocookie.com"@, self.video_id@, origin@, self.start_seconds),
    {
        self.embed_url_for_host(origin, "www.youtube-nocookie.com")
    }

    /// The embed URL on `www.youtube.com`, used when a signed-in session is applied.
    pub fn authenticated_embed_url(&self, origin: &str) -> (u: String)
        ensures
            u@ == embed_url_text("www.youtube.com"@, self.video_id@, origin@, self.start_seconds),
    {
        self.embed_url_for_host(origin, "www.youtube.com")
    }

    fn embed_url_for_host(&self, origin: &str, host: &str) -> (u: String)
        ensures
            u@ == embed_url_text(host@, self.video_id@, origin@, self.start_seconds),
    {
        let mut pairs: Vec<(String, String)> = Vec::new();
        pairs.push((String::from_str("enablejsapi"), String::from_str("1")));
        pairs.push((String::from_str("playsinline"), String::from_str("1")));
        pairs.push((String::from_str("origin"), String::from_str(origin)));
        match self.start_seconds {
            Some(start) => {
                pairs.push((String::from_str("start"), u64_to_decimal(start)));
            },
            None => {},
        }
        assert(pair_views(pairs@) =~= embed_pairs(origin@, self.start_seconds));
        let query = form_urlencoded(&pairs);
        let mut u = String::from_str("https://");
        u.append(host);
        u.append("/embed/");
        u.append(self.video_id.as_str());
        u.append("?");
        u.append(query.as_str());
        u
    }
}

/// The query pairs of an embed URL: the JS API and inline playback on, the page origin,
/// and the start time if there is one.
pub open spec fn embed_pairs(origin: Seq<char>, start: Option<u64>) -> Seq<(Seq<char>, Seq<char>)> {
    seq![("enablejsapi"@, "1"@), ("playsinline"@, "1"@), ("origin"@, origin)] + match start {
        Some(s) => seq![("start"@, decimal(s as nat))],
        None => Seq::empty(),
    }
}

/// The embed URL for a video on a host: `https://<host>/embed/<id>?` and the
/// form-urlencoded embed pairs.
pub open spec fn embed_url_text(host: Seq<char>, id: Seq<char>, origin: Seq<char>, start: Option<u64>) -> Seq<char> {
    "https://"@ + host + "/embed/"@ + id + "?"@ + form_urlencoded_pairs(embed_pairs(origin, start))
}

/// A registered presentation: the video and the embed URL its page loads.
#[derive(Clone, Debug, PartialEq, Eq)]
pub struct VideoPage {
    pub video: YouTubeVideo,
    pub embed_url: String,
}

pub const VIDEO_PAGE_HEAD: &'static str = r#"<!doctype html><html><head><meta charset="utf-8"><meta name="viewport" content="width=device-width,initial-scale=1"><title>YouTube Video</title><style>html,body{margin:0;width:100%;height:100%;background:#000;color:#fff;font-family:sans-serif}body{display:flex;align-items:center;justify-content:center}#launch{position:relative;width:100%;height:100%;min-width:200px;min-height:200px;border:0;padding:0;background:#000;cursor:pointer}#launch img{width:100%;height:100%;object-fit:contain}#play{position:absolute;left:50%;top:50%;transform:translate(-50%,-50%);display:flex;align-items:center;justify-content:center;width:88px;height:62px;border-radius:16px;background:rgba(0,0,0,.78);font-size:34px;line-height:1}iframe{width:100%;height:100%;min-width:200px;min-height:200px;border:0}</style></head><body><button id="launch" type="button" data-embed=""#;

pub const VIDEO_PAGE_MIDDLE: &'static str = r#"" aria-label="Play YouTube video"><img src=""#;

pub const VIDEO_PAGE_TAIL: &'static str = r#"" alt="YouTube video thumbnail"><span id="play" aria-hidden="true">▶</span></button><script>(()=>{const button=document.getElementById('launch');const state={player:null,activated:false,ready:false,autoplayBlocked:false,error:null,queued:[]};const playback=(value)=>{switch(value){case -1:return'unstarted';case 0:return'ended';case 1:return'playing';case 2:return'paused';case 3:return'buffering';case 5:return'cued';default:return'unknown';}};const finite=(value)=>Number.isFinite(value)&&value>=0?value:null;const snapshot=()=>{if(!state.activated)return{activated:false,ready:false,playback_state:'inactive',duration_seconds:null,position_seconds:null,volume:null,muted:null,autoplay_blocked:state.autoplayBlocked,error:state.error};if(!state.ready||!state.player)return{activated:true,ready:false,playback_state:'loading',duration_seconds:null,position_seconds:null,volume:null,muted:null,autoplay_blocked:state.autoplayBlocked,error:state.error};let volume=state.player.getVolume();volume=Number.isFinite(volume)?Math.min(1,Math.max(0,volume/100)):null;return{activated:true,ready:true,playback_state:playback(state.player.getPlayerState()),duration_seconds:finite(state.player.getDuration()),position_seconds:finite(state.player.getCurrentTime()),volume,muted:!!state.player.isMuted(),autoplay_blocked:state.autoplayBlocked,error:state.error};};const apply=(command,value)=>{if(!state.ready||!state.player){state.queued.push([command,value]);return;}state.error=null;switch(command){case'play':state.autoplayBlocked=false;state.player.playVideo();break;case'pause':state.player.pauseVideo();break;case'seek':state.player.seekTo(value,true);break;case'mute':state.player.mute();break;case'unmute':state.player.unMute();break;case'set_volume':state.player.setVolume(Math.round(value*100));break;}};const activate=()=>{if(state.activated)return;state.activated=true;const frame=document.createElement('iframe');frame.id='portus-youtube-player';frame.src=button.dataset.embed;frame.title='YouTube video player';frame.allow='autoplay; encrypted-media; picture-in-picture';frame.allowFullscreen=true;frame.referrerPolicy='strict-origin-when-cross-origin';document.body.replaceChildren(frame);window.onYouTubeIframeAPIReady=()=>{try{state.player=new YT.Player(frame,{events:{onReady:()=>{state.ready=true;const queued=state.queued.splice(0);for(const [command,value] of queued)apply(command,value);},onError:(event)=>{state.error='youtube player error '+String(event.data);},onAutoplayBlocked:()=>{state.autoplayBlocked=true;}}});}catch(error){state.error=error&&error.message?String(error.message):String(error);}};const script=document.createElement('script');script.src='https://www.youtube.com/iframe_api';script.onerror=()=>{state.error='youtube iframe api failed to load';};document.head.appendChild(script);};window.__portusWebVideo={command:(command,value)=>{try{if(command==='state')return snapshot();if(command==='pause'&&!state.activated)return snapshot();if(!state.activated)activate();if(state.ready)apply(command,value);else state.queued.push([command,value]);return snapshot();}catch(error){state.error=error&&error.message?String(error.message):String(error);return snapshot();}}};button.addEventListener('click',()=>{if(!state.activated)activate();if(state.ready)apply('play',null);else state.queued.push(['play',null]);},{once:true});})();</script></body></html>"#;

/// The presentation page: a thumbnail button that carries the embed URL and creates the
/// player frame only when activated, with the bounded `__portusWebVideo` bridge.
pub fn presentation_html(page: &VideoPage) -> (html: String)
    ensures
        html@ == VIDEO_PAGE_HEAD@ + page.embed_url@ + VIDEO_PAGE_MIDDLE@ + "https://i.ytimg.com/vi/"@
            + page.video.video_id@ + "/hqdefault.jpg"@ + VIDEO_PAGE_TAIL@,
{
    let thumbnail = page.video.thumbnail_url();
    let mut html = String::from_str(VIDEO_PAGE_HEAD);
    html.append(page.embed_url.as_str());
    html.append(VIDEO_PAGE_MIDDLE);
    html.append(thumbnail.as_str());
    html.append(VIDEO_PAGE_TAIL);
    html
}

/// Why a web-video operation failed.
#[derive(Debug, Clone, PartialEq, Eq)]
pub enum WebVideoError {
    Validation(String),
    Service(String),
    Control(String),
}

} // verus!
