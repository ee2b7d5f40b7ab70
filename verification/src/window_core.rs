//! Window bookkeeping shared by the daemon: request validation for screenshots,
//! geometry, descriptions and URLs, and the bounds applied to what a window reports.
use vstd::prelude::*;
use crate::auth_domain::string_views;
use crate::protocol::{
    ConsoleEntry, WindowStateAction, WorkspaceTarget, MAX_CONSOLE_ENTRIES,
    MAX_CONSOLE_MESSAGE_CHARS, MAX_CONSOLE_SOURCE_CHARS, MAX_DESCRIPTION_CHARS, MAX_URL_CHARS,
    MAX_URL_HISTORY_BYTES, MAX_URL_HISTORY_ENTRIES,
};
use crate::media::extension_of;
use crate::text::{
    chars_of, equals_str, string_from_chars, string_from_range, take_chars, trim, trim_str,
    utf8_len, utf8_len_within,
};
use crate::urls::{url_parse_error, url_parses, url_scheme, WebUrl};

verus! {

pub const DEFAULT_WIDTH: u32 = 1024;
pub const DEFAULT_HEIGHT: u32 = 768;
pub const MAX_WINDOW_DIMENSION: u32 = 16384;

#[derive(Debug, Clone, PartialEq, Eq)]
pub enum WindowCoreError {
    Validation(String),
    TargetNotFound(String),
    TargetAmbiguous(String),
    CapacityExhausted,
    State(String),
    Operation(String),
}

/// The kind of a window error, without its message.
pub enum WindowErrorKind {
    Validation,
    TargetNotFound,
    TargetAmbiguous,
    CapacityExhausted,
    State,
    Operation,
}

/// The kind and message of a window error.
pub open spec fn error_view(e: WindowCoreError) -> (WindowErrorKind, Seq<char>) {
    match e {
        WindowCoreError::Validation(m) => (WindowErrorKind::Validation, m@),
        WindowCoreError::TargetNotFound(m) => (WindowErrorKind::TargetNotFound, m@),
        WindowCoreError::TargetAmbiguous(m) => (WindowErrorKind::TargetAmbiguous, m@),
        WindowCoreError::CapacityExhausted => (WindowErrorKind::CapacityExhausted, Seq::empty()),
        WindowCoreError::State(m) => (WindowErrorKind::State, m@),
        WindowCoreError::Operation(m) => (WindowErrorKind::Operation, m@),
    }
}

/// A validation error with a fixed message.
pub open spec fn validation(m: Seq<char>) -> (WindowErrorKind, Seq<char>) {
    (WindowErrorKind::Validation, m)
}

fn validation_error(m: &str) -> (e: WindowCoreError)
    ensures
        error_view(e) == validation(m@),
{
    WindowCoreError::Validation(String::from_str(m))
}

/// `s` without trailing slashes.
pub open spec fn drop_trailing_slashes(s: Seq<char>) -> Seq<char>
    decreases s.len(),
{
    if s.len() > 0 && s.last() == '/' {
        drop_trailing_slashes(s.drop_last())
    } else {
        s
    }
}

/// The last `/`-separated component of a path that is neither empty nor `.`, as
/// `Path::components` yields from the back.
pub open spec fn last_component(p: Seq<char>) -> Option<Seq<char>>
    decreases p.len(),
{
    let q = drop_trailing_slashes(p);
    if q.len() == 0 {
        None
    } else {
        let seg = match crate::media::last_index_of(q, '/') {
            Some(i) => q.subrange(i + 1, q.len() as int),
            None => q,
        };
        if seg == "."@ {
            proof {
                lemma_drop_trailing_len(p);
            }
            last_component(q.subrange(0, q.len() - 1))
        } else {
            Some(seg)
        }
    }
}

/// The file name of a path, as `Path::file_name` gives it: the last component unless
/// that is `..`.
pub open spec fn file_name_of(p: Seq<char>) -> Option<Seq<char>> {
    match last_component(p) {
        Some(seg) => if seg == ".."@ {
            None
        } else {
            Some(seg)
        },
        None => None,
    }
}

/// Dropping trailing slashes leaves a prefix.
pub proof fn lemma_drop_trailing_len(s: Seq<char>)
    ensures
        drop_trailing_slashes(s).len() <= s.len(),
        drop_trailing_slashes(s) == s.subrange(0, drop_trailing_slashes(s).len() as int),
    decreases s.len(),
{
    if s.len() > 0 && s.last() == '/' {
        lemma_drop_trailing_len(s.drop_last());
        assert(s.drop_last().subrange(0, drop_trailing_slashes(s).len() as int) =~= s.subrange(0, drop_trailing_slashes(s).len() as int));
    } else {
        assert(s.subrange(0, s.len() as int) =~= s);
    }
}

fn strip_trailing_slashes(v: &Vec<char>, end: usize) -> (q: usize)
    requires
        end <= v@.len(),
    ensures
        q <= end,
        drop_trailing_slashes(v@.subrange(0, end as int)) == v@.subrange(0, q as int),
{
    let mut q = end;
    while q > 0 && v[q - 1] == '/'
        invariant
            q <= end <= v@.len(),
            drop_trailing_slashes(v@.subrange(0, end as int)) == drop_trailing_slashes(v@.subrange(0, q as int)),
        decreases q,
    {
        assert(v@.subrange(0, q as int).drop_last() =~= v@.subrange(0, q - 1));
        q -= 1;
    }
    q
}

fn last_segment_start(v: &Vec<char>, q: usize) -> (s: usize)
    requires
        0 < q <= v@.len(),
    ensures
        s <= q,
        v@.subrange(s as int, q as int) == match crate::media::last_index_of(v@.subrange(0, q as int), '/') {
            Some(i) => v@.subrange(0, q as int).subrange(i + 1, q as int),
            None => v@.subrange(0, q as int),
        },
{
    let ghost qs = v@.subrange(0, q as int);
    let mut s = q;
    while s > 0 && v[s - 1] != '/'
        invariant
            s <= q <= v@.len(),
            forall|j: int| s <= j < q ==> v@[j] != '/',
        decreases s,
    {
        s -= 1;
    }
    proof {
        if s > 0 {
            let k = s - 1;
            assert(qs[k] == '/');
            assert(qs.contains('/'));
            let c = choose|c: int| 0 <= c < qs.len() && qs[c] == '/' && forall|j: int| c < j < qs.len() ==> qs[j] != '/';
            assert(c == k) by {
                if c < k {
                    assert(qs[k] == '/');
                }
                if k < c {
                    assert(qs[c] == v@[c]);
                }
            }
            assert(v@.subrange(s as int, q as int) =~= qs.subrange(k + 1, qs.len() as int));
        } else {
            assert(!qs.contains('/')) by {
                if qs.contains('/') {
                    let j = choose|j: int| 0 <= j < qs.len() && qs[j] == '/';
                    assert(qs[j] == v@[j]);
                }
            }
            assert(v@.subrange(0, q as int) =~= qs);
        }
    }
    s
}

/// The file name of a path.
pub fn file_name(path: &str) -> (r: Option<String>)
    ensures
        match r {
            Some(n) => file_name_of(path@) == Some(n@),
            None => file_name_of(path@) is None,
        },
{
    let v = chars_of(path);
    let mut end = v.len();
    assert(v@.subrange(0, end as int) =~= v@);
    loop
        invariant
            end <= v@.len(),
            v@ == path@,
            last_component(v@) == last_component(v@.subrange(0, end as int)),
        decreases end,
    {
        let q = strip_trailing_slashes(&v, end);
        if q == 0 {
            return None;
        }
        let s = last_segment_start(&v, q);
        let seg = string_from_range(&v, s, q);
        let sv = chars_of(seg.as_str());
        if equals_str(&sv, ".") {
            assert(v@.subrange(0, q as int).subrange(0, q - 1) =~= v@.subrange(0, q - 1));
            end = q - 1;
        } else if equals_str(&sv, "..") {
            return None;
        } else {
            return Some(seg);
        }
    }
}

/// A screenshot request's output file.
#[derive(Clone, Debug, PartialEq, Eq)]
pub struct ScreenshotSpec {
    pub out: String,
    pub overwrite: bool,
}

/// What a screenshot output path validates to: trimmed, it must be non-empty, absolute,
/// and name a `.png` file.
pub open spec fn screenshot_outcome(out: Seq<char>) -> Result<Seq<char>, (WindowErrorKind, Seq<char>)> {
    let t = trim(out);
    if t.len() == 0 {
        Err(validation("screenshot output path must not be empty"@))
    } else if t[0] != '/' {
        Err(validation("screenshot output path must be absolute"@))
    } else if !(file_name_of(t) is Some && extension_of(file_name_of(t)->0) == Some("png"@)) {
        Err(validation("screenshot output path must have .png extension"@))
    } else {
        Ok(t)
    }
}

impl ScreenshotSpec {
    /// Validates a screenshot output path.
    pub fn from_request(out: &str, overwrite: bool) -> (r: Result<ScreenshotSpec, WindowCoreError>)
        ensures
            match r {
                Ok(spec) => screenshot_outcome(out@) == Ok::<Seq<char>, (WindowErrorKind, Seq<char>)>(spec.out@) && spec.overwrite == overwrite,
                Err(e) => screenshot_outcome(out@) == Err::<Seq<char>, (WindowErrorKind, Seq<char>)>(error_view(e)),
            },
    {
        let trimmed = trim_str(out);
        let v = chars_of(trimmed.as_str());
        if v.len() == 0 {
            return Err(validation_error("screenshot output path must not be empty"));
        }
        if v[0] != '/' {
            return Err(validation_error("screenshot output path must be absolute"));
        }
        let ok = match file_name(trimmed.as_str()) {
            Some(name) => match crate::media::file_extension(name.as_str()) {
                Some(ext) => crate::text::str_eq(ext.as_str(), "png"),
                None => false,
            },
            None => false,
        };
        if !ok {
            return Err(validation_error("screenshot output path must have .png extension"));
        }
        Ok(ScreenshotSpec { out: trimmed, overwrite })
    }
}

/// A geometry change for a window.
#[derive(Clone, Debug, PartialEq, Eq)]
pub struct ResizeSpec {
    pub width: Option<u32>,
    pub height: Option<u32>,
    pub x: Option<i32>,
    pub y: Option<i32>,
    pub state: Option<WindowStateAction>,
    pub always_on_top: Option<bool>,
    pub workspace: Option<WorkspaceTarget>,
}

/// A dimension, when given, lies in `1..=16384`.
pub open spec fn dimension_ok(d: Option<u32>) -> bool {
    match d {
        Some(v) => 1 <= v <= MAX_WINDOW_DIMENSION,
        None => true,
    }
}

impl ResizeSpec {
    /// A change with nothing to change.
    pub fn new() -> (s: ResizeSpec)
        ensures
            s.width is None && s.height is None && s.x is None && s.y is None && s.state is None
                && s.always_on_top is None && s.workspace is None,
    {
        ResizeSpec { width: None, height: None, x: None, y: None, state: None, always_on_top: None, workspace: None }
    }

    /// Checks the width, then the height.
    pub fn validate(&self) -> (r: Result<(), WindowCoreError>)
        ensures
            match r {
                Ok(()) => dimension_ok(self.width) && dimension_ok(self.height),
                Err(e) => if !dimension_ok(self.width) {
                    error_view(e) == validation("width must be between 1 and 16384"@)
                } else {
                    !dimension_ok(self.height) && error_view(e) == validation("height must be between 1 and 16384"@)
                },
            },
    {
        match self.width {
            Some(w) => if w == 0 || w > MAX_WINDOW_DIMENSION {
                return Err(validation_error("width must be between 1 and 16384"));
            },
            None => {},
        }
        match self.height {
            Some(h) => if h == 0 || h > MAX_WINDOW_DIMENSION {
                return Err(validation_error("height must be between 1 and 16384"));
            },
            None => {},
        }
        Ok(())
    }
}

/// `s` cut to at most `n` characters.
pub open spec fn clip(s: Seq<char>, n: nat) -> Seq<char> {
    if s.len() <= n {
        s
    } else {
        s.subrange(0, n as int)
    }
}

/// A string cut to at most `max_chars` characters.
pub fn truncate_chars(value: String, max_chars: usize) -> (t: String)
    ensures
        t@ == clip(value@, max_chars as nat),
{
    if value.as_str().unicode_len() <= max_chars {
        value
    } else {
        take_chars(value.as_str(), max_chars)
    }
}

/// A console entry with its message and source cut to their bounds.
pub open spec fn bounded_entry(before: ConsoleEntry, after: ConsoleEntry) -> bool {
    &&& after.level == before.level
    &&& after.line == before.line
    &&& after.message@ == clip(before.message@, MAX_CONSOLE_MESSAGE_CHARS as nat)
    &&& match (before.source, after.source) {
        (Some(b), Some(a)) => a@ == clip(b@, MAX_CONSOLE_SOURCE_CHARS as nat),
        (None, None) => true,
        _ => false,
    }
}

/// Bounds a batch of console entries: at most `MAX_CONSOLE_ENTRIES` are kept, the first
/// ones, each with message and source cut to their bounds; the flag tells whether any
/// entry was dropped.
pub fn sanitize_console_result(entries: Vec<ConsoleEntry>) -> (r: (Vec<ConsoleEntry>, bool))
    ensures
        r.1 == (entries@.len() > MAX_CONSOLE_ENTRIES),
        r.0@.len() == if entries@.len() > MAX_CONSOLE_ENTRIES { MAX_CONSOLE_ENTRIES as nat } else { entries@.len() },
        forall|i: int| 0 <= i < r.0@.len() ==> bounded_entry(entries@[i], #[trigger] r.0@[i]),
{
    let truncated = entries.len() > MAX_CONSOLE_ENTRIES;
    let n = if truncated { MAX_CONSOLE_ENTRIES } else { entries.len() };
    let mut out: Vec<ConsoleEntry> = Vec::new();
    let mut i: usize = 0;
    while i < n
        invariant
            n <= entries@.len(),
            i <= n,
            out@.len() == i,
            forall|j: int| 0 <= j < i ==> bounded_entry(entries@[j], #[trigger] out@[j]),
        decreases n - i,
    {
        let e = &entries[i];
        let source = match &e.source {
            Some(s) => Some(truncate_chars(s.clone(), MAX_CONSOLE_SOURCE_CHARS)),
            None => None,
        };
        out.push(ConsoleEntry {
            level: e.level,
            message: truncate_chars(e.message.clone(), MAX_CONSOLE_MESSAGE_CHARS),
            source,
            line: e.line,
        });
        i += 1;
    }
    (out, truncated)
}

/// What a description validates to: absent or blank is none; otherwise trimmed, at most
/// `MAX_DESCRIPTION_CHARS` characters.
pub open spec fn description_outcome(d: Option<Seq<char>>) -> Result<Option<Seq<char>>, (WindowErrorKind, Seq<char>)> {
    match d {
        None => Ok(None),
        Some(s) => if trim(s).len() == 0 {
            Ok(None)
        } else if trim(s).len() > MAX_DESCRIPTION_CHARS {
            Err(validation("description must be at most 256 characters"@))
        } else {
            Ok(Some(trim(s)))
        },
    }
}

/// Validates an optional window description.
pub fn validate_description(description: Option<String>) -> (r: Result<Option<String>, WindowCoreError>)
    ensures
        match r {
            Ok(d) => description_outcome(crate::auth_domain::opt_view(description)) == Ok::<Option<Seq<char>>, (WindowErrorKind, Seq<char>)>(crate::auth_domain::opt_view(d)),
            Err(e) => description_outcome(crate::auth_domain::opt_view(description)) == Err::<Option<Seq<char>>, (WindowErrorKind, Seq<char>)>(error_view(e)),
        },
{
    let description = match description {
        Some(d) => d,
        None => return Ok(None),
    };
    let trimmed = trim_str(description.as_str());
    let n = trimmed.as_str().unicode_len();
    if n == 0 {
        return Ok(None);
    }
    if n > MAX_DESCRIPTION_CHARS {
        return Err(validation_error("description must be at most 256 characters"));
    }
    Ok(Some(trimmed))
}

/// What a URL to open validates to: trimmed, non-empty, at most `MAX_URL_CHARS` bytes,
/// parsable, and `http` or `https`.
pub open spec fn url_outcome(u: Seq<char>) -> Result<Seq<char>, (WindowErrorKind, Seq<char>)> {
    let t = trim(u);
    if t.len() == 0 {
        Err(validation("URL must not be empty"@))
    } else if utf8_len(t) > MAX_URL_CHARS {
        Err(validation("URL must be at most 4096 characters"@))
    } else if !url_parses(t) {
        Err(validation("invalid URL: "@ + url_parse_error(t)))
    } else if url_scheme(t) == "http"@ || url_scheme(t) == "https"@ {
        Ok(t)
    } else if url_scheme(t) == "file"@ {
        Err(validation("file:// URLs are not permitted; pass the local media path directly"@))
    } else {
        Err(validation("only http and https URLs are permitted"@))
    }
}

/// Validates a URL a web window is asked to open.
pub fn validate_url(url: &str) -> (r: Result<WebUrl, WindowCoreError>)
    ensures
        match r {
            Ok(u) => url_outcome(url@) == Ok::<Seq<char>, (WindowErrorKind, Seq<char>)>(u@),
            Err(e) => url_outcome(url@) == Err::<Seq<char>, (WindowErrorKind, Seq<char>)>(error_view(e)),
        },
{
    let trimmed = trim_str(url);
    let v = chars_of(trimmed.as_str());
    if v.len() == 0 {
        return Err(validation_error("URL must not be empty"));
    }
    if utf8_len_within(&v, MAX_URL_CHARS).is_none() {
        return Err(validation_error("URL must be at most 4096 characters"));
    }
    let parsed = match WebUrl::parse(trimmed.as_str()) {
        Some(u) => u,
        None => {
            let mut message = String::from_str("invalid URL: ");
            match crate::urls::url_parse_failure(trimmed.as_str()) {
                Some(m) => message.append(m.as_str()),
                None => {},
            }
            return Err(WindowCoreError::Validation(message));
        },
    };
    let scheme = parsed.scheme();
    if crate::text::str_eq(scheme.as_str(), "http") || crate::text::str_eq(scheme.as_str(), "https") {
        Ok(parsed)
    } else if crate::text::str_eq(scheme.as_str(), "file") {
        Err(validation_error("file:// URLs are not permitted; pass the local media path directly"))
    } else {
        Err(validation_error("only http and https URLs are permitted"))
    }
}

/// Whether a web window may navigate to `url`: only `http` and `https`.
pub fn validate_navigation_url(url: &WebUrl) -> (b: bool)
    ensures
        b == (url_scheme(url@) == "http"@ || url_scheme(url@) == "https"@),
{
    let scheme = url.scheme();
    crate::text::str_eq(scheme.as_str(), "http") || crate::text::str_eq(scheme.as_str(), "https")
}

/// The UTF-8 bytes of a list of texts, in total.
pub open spec fn total_utf8(s: Seq<Seq<char>>) -> nat
    decreases s.len(),
{
    if s.len() == 0 {
        0
    } else {
        total_utf8(s.drop_last()) + utf8_len(s.last())
    }
}

/// A URL history within its bounds: at most `MAX_URL_HISTORY_ENTRIES` entries and
/// `MAX_URL_HISTORY_BYTES` bytes.
pub open spec fn history_fits(h: Seq<Seq<char>>) -> bool {
    h.len() <= MAX_URL_HISTORY_ENTRIES && total_utf8(h) <= MAX_URL_HISTORY_BYTES
}

proof fn lemma_total_utf8_prefix(s: Seq<Seq<char>>, i: int, j: int)
    requires
        0 <= i <= j <= s.len(),
    ensures
        total_utf8(s.subrange(0, i)) <= total_utf8(s.subrange(0, j)),
    decreases j - i,
{
    if i < j {
        lemma_total_utf8_prefix(s, i, j - 1);
        assert(s.subrange(0, j).drop_last() =~= s.subrange(0, j - 1));
    }
}

fn history_bytes_exceed(h: &Vec<String>, limit: usize) -> (b: bool)
    ensures
        b == (total_utf8(string_views(h@)) > limit),
{
    let ghost s = string_views(h@);
    let mut total: usize = 0;
    let mut i: usize = 0;
    while i < h.len()
        invariant
            i <= h@.len(),
            s == string_views(h@),
            total == total_utf8(s.subrange(0, i as int)),
            total <= limit,
        decreases h@.len() - i,
    {
        let v = chars_of(h[i].as_str());
        assert(s.subrange(0, i + 1).drop_last() =~= s.subrange(0, i as int));
        assert(s.subrange(0, i + 1).last() == v@);
        match utf8_len_within(&v, limit - total) {
            Some(n) => {
                total = total + n;
            },
            None => {
                proof {
                    lemma_total_utf8_prefix(s, i + 1, s.len() as int);
                    assert(s.subrange(0, s.len() as int) =~= s);
                }
                return true;
            },
        }
        i += 1;
    }
    assert(s.subrange(0, s.len() as int) =~= s);
    false
}

/// Drops the oldest URLs until the history fits its bounds, marking it truncated if any
/// were dropped: the result is the longest suffix of the history that fits.
pub fn trim_url_history(history: &mut Vec<String>, truncated: &mut Option<bool>)
    ensures
        exists|k: int| 0 <= k <= old(history)@.len() && final(history)@ == old(history)@.skip(k)
            && history_fits(string_views(final(history)@)) && (forall|j: int| 0 <= j < k ==> !history_fits(string_views(#[trigger] old(history)@.skip(j))))
            && *final(truncated) == (if k > 0 { Some(true) } else { *old(truncated) }),
{
    let ghost initial = history@;
    let ghost mut k: int = 0;
    assert(initial.skip(0) =~= initial);
    while history.len() > 0 && (history.len() > MAX_URL_HISTORY_ENTRIES || history_bytes_exceed(history, MAX_URL_HISTORY_BYTES))
        invariant
            0 <= k <= initial.len(),
            history@ == initial.skip(k),
            forall|j: int| 0 <= j < k ==> !history_fits(string_views(#[trigger] initial.skip(j))),
            *truncated == (if k > 0 { Some(true) } else { *old(truncated) }),
        decreases history@.len(),
    {
        proof {
            assert(!history_fits(string_views(initial.skip(k))));
        }
        history.remove(0);
        proof {
            assert(history@ =~= initial.skip(k + 1));
            k = k + 1;
        }
        *truncated = Some(true);
    }
    if history.len() == 0 {
        assert(string_views(history@) =~= Seq::<Seq<char>>::empty());
    }
    assert(history_fits(string_views(history@)));
}

} // verus!
