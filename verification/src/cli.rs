//! Command-line argument rules: how the client turns what the user typed into protocol
//! values, refusing malformed input before anything is sent to the daemon.
use vstd::prelude::*;
use crate::protocol::MAX_INTERACTION_ACTIONS;
use crate::auth_domain::opt_view;
use crate::protocol::{
    AuthSessionAction, AuthSessionScope, AuthSessionTarget, BrowserKind, ConfigAction,
    InteractionAction, OpenSource, WindowGeometrySpec, WindowStateAction, WorkspaceTarget,
    MAX_DESCRIPTION_CHARS, MAX_HISTORY_QUERY_CHARS, MAX_INTERACTION_TIMEOUT_MS, MAX_OPEN_BATCH_WINDOWS,
    MIN_INTERACTION_TIMEOUT_MS,
    MAX_INTERACTION_KEY_CHARS, MAX_INTERACTION_SELECTOR_CHARS, MAX_INTERACTION_TEXT_CHARS,
    MAX_INTERACTION_VALUE_CHARS, MAX_PROFILE_NAME_CHARS, MAX_RETENTION_DAYS, MAX_SOURCE_BYTES,
};
use crate::text::{
    all_whitespace, all_ws, ascii_lower, ascii_lower_seq, chars_of, equals_str, has_infix, occurs_at,
    parse_u64, string_from_range, to_ascii_lowercase, trim, trim_str, u64_text_value, utf8_len,
    utf8_len_within, starts_with_str, matches_at, decimal, u64_to_decimal,
};
use crate::web_profile::is_profile_char;
use crate::interaction::{action_error, first_action_error, request_error};

verus! {

/// The authenticated-session subcommands as typed.
#[derive(Clone, Debug, PartialEq, Eq)]
pub enum AuthSessionCommands {
    Request {
        domain: Option<String>,
        window: Option<String>,
        browser: String,
        scope: String,
        reason: Option<String>,
        presentation_window: Option<String>,
    },
    Status { domain: Option<String>, window: Option<String> },
    Apply { domain: Option<String>, window: Option<String>, window_session_id: String },
    Revoke { domain: Option<String>, window: Option<String> },
}

/// The target named by exactly one of `--domain` and `--window`.
pub open spec fn target_choice(domain: Option<Seq<char>>, window: Option<Seq<char>>) -> Result<crate::protocol::TargetView, Seq<char>> {
    match (domain, window) {
        (Some(d), None) => Ok(crate::protocol::TargetView::Domain(d)),
        (None, Some(w)) => Ok(crate::protocol::TargetView::Window(w)),
        _ => Err("authenticated-session command requires exactly one of --domain or --window"@),
    }
}

fn target_for(domain: &Option<String>, window: &Option<String>) -> (r: Result<AuthSessionTarget, String>)
    ensures
        match r {
            Ok(t) => target_choice(opt_view(*domain), opt_view(*window)) == Ok::<crate::protocol::TargetView, Seq<char>>(t@),
            Err(m) => target_choice(opt_view(*domain), opt_view(*window)) == Err::<crate::protocol::TargetView, Seq<char>>(m@),
        },
{
    match (domain, window) {
        (Some(d), None) => Ok(AuthSessionTarget::Domain { domain: d.clone() }),
        (None, Some(w)) => Ok(AuthSessionTarget::Window { window_session_id: w.clone() }),
        _ => Err(String::from_str("authenticated-session command requires exactly one of --domain or --window")),
    }
}

/// The browser a name selects.
pub open spec fn browser_choice(v: Seq<char>) -> Option<BrowserKind> {
    if v == "firefox"@ {
        Some(BrowserKind::Firefox)
    } else if v == "chromium"@ {
        Some(BrowserKind::Chromium)
    } else if v == "chrome"@ {
        Some(BrowserKind::Chrome)
    } else if v == "brave"@ {
        Some(BrowserKind::Brave)
    } else {
        None
    }
}

fn browser_for(value: &String) -> (r: Result<BrowserKind, String>)
    ensures
        match r {
            Ok(b) => browser_choice(value@) == Some(b),
            Err(m) => browser_choice(value@) is None && m@ == "browser must be firefox, chromium, chrome, or brave"@,
        },
{
    let v = chars_of(value.as_str());
    if equals_str(&v, "firefox") {
        Ok(BrowserKind::Firefox)
    } else if equals_str(&v, "chromium") {
        Ok(BrowserKind::Chromium)
    } else if equals_str(&v, "chrome") {
        Ok(BrowserKind::Chrome)
    } else if equals_str(&v, "brave") {
        Ok(BrowserKind::Brave)
    } else {
        Err(String::from_str("browser must be firefox, chromium, chrome, or brave"))
    }
}

/// The scope a name selects.
pub open spec fn scope_choice(v: Seq<char>) -> Option<AuthSessionScope> {
    if v == "once"@ {
        Some(AuthSessionScope::Once)
    } else if v == "session"@ {
        Some(AuthSessionScope::Session)
    } else if v == "remembered"@ {
        Some(AuthSessionScope::Remembered)
    } else {
        None
    }
}

fn scope_for(value: &String) -> (r: Result<AuthSessionScope, String>)
    ensures
        match r {
            Ok(s) => scope_choice(value@) == Some(s),
            Err(m) => scope_choice(value@) is None && m@ == "scope must be once, session, or remembered"@,
        },
{
    let v = chars_of(value.as_str());
    if equals_str(&v, "once") {
        Ok(AuthSessionScope::Once)
    } else if equals_str(&v, "session") {
        Ok(AuthSessionScope::Session)
    } else if equals_str(&v, "remembered") {
        Ok(AuthSessionScope::Remembered)
    } else {
        Err(String::from_str("scope must be once, session, or remembered"))
    }
}

/// Turns an authenticated-session subcommand into its protocol action: exactly one of
/// `--domain` and `--window`, a known browser, a known scope.
pub fn auth_session_action_for(action: &AuthSessionCommands) -> (r: Result<AuthSessionAction, String>)
    ensures
        match *action {
            AuthSessionCommands::Request { domain, window, browser, scope, reason, presentation_window } => match r {
                Ok(AuthSessionAction::Request { target, browser: b, scope: s, reason: rs, presentation_window_session_id: p }) =>
                    target_choice(opt_view(domain), opt_view(window)) == Ok::<crate::protocol::TargetView, Seq<char>>(target@)
                    && browser_choice(browser@) == Some(b) && scope_choice(scope@) == Some(s)
                    && opt_view(rs) == opt_view(reason) && opt_view(p) == opt_view(presentation_window),
                Ok(_) => false,
                Err(m) => if target_choice(opt_view(domain), opt_view(window)) is Err {
                    target_choice(opt_view(domain), opt_view(window)) == Err::<crate::protocol::TargetView, Seq<char>>(m@)
                } else if browser_choice(browser@) is None {
                    m@ == "browser must be firefox, chromium, chrome, or brave"@
                } else {
                    scope_choice(scope@) is None && m@ == "scope must be once, session, or remembered"@
                },
            },
            AuthSessionCommands::Status { domain, window } => match r {
                Ok(AuthSessionAction::Status { target }) => target_choice(opt_view(domain), opt_view(window)) == Ok::<crate::protocol::TargetView, Seq<char>>(target@),
                Ok(_) => false,
                Err(m) => target_choice(opt_view(domain), opt_view(window)) == Err::<crate::protocol::TargetView, Seq<char>>(m@),
            },
            AuthSessionCommands::Apply { domain, window, window_session_id } => match r {
                Ok(AuthSessionAction::Apply { target, window_session_id: w }) => target_choice(opt_view(domain), opt_view(window)) == Ok::<crate::protocol::TargetView, Seq<char>>(target@)
                    && w@ == window_session_id@,
                Ok(_) => false,
                Err(m) => target_choice(opt_view(domain), opt_view(window)) == Err::<crate::protocol::TargetView, Seq<char>>(m@),
            },
            AuthSessionCommands::Revoke { domain, window } => match r {
                Ok(AuthSessionAction::Revoke { target }) => target_choice(opt_view(domain), opt_view(window)) == Ok::<crate::protocol::TargetView, Seq<char>>(target@),
                Ok(_) => false,
                Err(m) => target_choice(opt_view(domain), opt_view(window)) == Err::<crate::protocol::TargetView, Seq<char>>(m@),
            },
        },
{
    match action {
        AuthSessionCommands::Request { domain, window, browser, scope, reason, presentation_window } => {
            let target = match target_for(domain, window) {
                Ok(t) => t,
                Err(m) => return Err(m),
            };
            let browser = match browser_for(browser) {
                Ok(b) => b,
                Err(m) => return Err(m),
            };
            let scope = match scope_for(scope) {
                Ok(s) => s,
                Err(m) => return Err(m),
            };
            Ok(AuthSessionAction::Request {
                target,
                browser,
                scope,
                reason: crate::auth_domain::clone_opt(reason),
                presentation_window_session_id: crate::auth_domain::clone_opt(presentation_window),
            })
        },
        AuthSessionCommands::Status { domain, window } => match target_for(domain, window) {
            Ok(target) => Ok(AuthSessionAction::Status { target }),
            Err(m) => Err(m),
        },
        AuthSessionCommands::Apply { domain, window, window_session_id } => match target_for(domain, window) {
            Ok(target) => Ok(AuthSessionAction::Apply { target, window_session_id: window_session_id.clone() }),
            Err(m) => Err(m),
        },
        AuthSessionCommands::Revoke { domain, window } => match target_for(domain, window) {
            Ok(target) => Ok(AuthSessionAction::Revoke { target }),
            Err(m) => Err(m),
        },
    }
}

/// What the client knows of its working directory.
#[derive(Clone, Debug, PartialEq, Eq)]
pub enum CurrentDir {
    /// The directory, as UTF-8.
    Path(String),
    /// The directory is not valid UTF-8.
    NotUtf8,
    /// The directory could not be read; the message says why.
    Unavailable(String),
}

/// `rel` joined onto `dir` as `Path::join` does for a relative path.
pub open spec fn joined(dir: Seq<char>, rel: Seq<char>) -> Seq<char> {
    if dir.len() > 0 && dir.last() == '/' {
        dir + rel
    } else {
        dir + "/"@ + rel
    }
}

/// The text before the first `://`, if there is one.
pub open spec fn scheme_part(s: Seq<char>) -> Option<Seq<char>> {
    if has_infix(s, "://"@) {
        Some(s.subrange(0, choose|i: int| occurs_at(s, "://"@, i) && forall|j: int| 0 <= j < i ==> !occurs_at(s, "://"@, j)))
    } else {
        None
    }
}

/// What an open source classifies as: a trimmed, bounded `http`/`https` URL, or a local
/// path made absolute against the working directory; `file://` and other schemes are
/// refused.
pub open spec fn open_source_outcome(source: Seq<char>, cwd: CurrentDir) -> Result<(bool, Seq<char>), Seq<char>> {
    let s = trim(source);
    if s.len() == 0 {
        Err("open source must not be empty"@)
    } else if utf8_len(s) > MAX_SOURCE_BYTES {
        Err("open source must be at most 4096 UTF-8 bytes"@)
    } else {
        match scheme_part(s) {
            Some(scheme) => if ascii_lower_seq(scheme) == "http"@ || ascii_lower_seq(scheme) == "https"@ {
                Ok((true, s))
            } else if ascii_lower_seq(scheme) == "file"@ {
                Err("file:// URLs are not supported; pass the local media path directly"@)
            } else {
                Err("unsupported source scheme '"@ + scheme + "'; use http/https or a local media path"@)
            },
            None => {
                let path: Result<Seq<char>, Seq<char>> = if s[0] == '/' {
                    Ok(s)
                } else {
                    match cwd {
                        CurrentDir::Path(d) => Ok(joined(d@, s)),
                        CurrentDir::NotUtf8 => Err("local media path must be valid UTF-8"@),
                        CurrentDir::Unavailable(m) => Err("could not resolve current directory: "@ + m@),
                    }
                };
                match path {
                    Err(m) => Err(m),
                    Ok(p) => if utf8_len(p) > MAX_SOURCE_BYTES {
                        Err("resolved local media path must be at most 4096 UTF-8 bytes"@)
                    } else {
                        Ok((false, p))
                    },
                }
            },
        }
    }
}

proof fn lemma_scheme_before_separator(scheme: Seq<char>, rest: Seq<char>)
    requires
        forall|i: int| 0 <= i < scheme.len() ==> scheme[i] != ':',
    ensures
        scheme_part(scheme + "://"@ + rest) == Some(scheme),
{
    reveal_strlit("://");
    let s = scheme + "://"@ + rest;
    let n = scheme.len() as int;
    assert(s.subrange(n, n + 3) =~= "://"@);
    assert(occurs_at(s, "://"@, n));
    assert forall|j: int| 0 <= j < n implies !occurs_at(s, "://"@, j) by {
        if occurs_at(s, "://"@, j) {
            assert(s.subrange(j, j + 3)[0] == s[j]);
            assert(s[j] == scheme[j]);
        }
    }
    assert(has_infix(s, "://"@));
    let k = choose|i: int| occurs_at(s, "://"@, i) && forall|j: int| 0 <= j < i ==> !occurs_at(s, "://"@, j);
    assert(occurs_at(s, "://"@, k) && forall|j: int| 0 <= j < k ==> !occurs_at(s, "://"@, j));
    assert(k == n);
    assert(s.subrange(0, n) =~= scheme);
}

proof fn lemma_lowered_letters_have_no_colon(scheme: Seq<char>, word: Seq<char>)
    requires
        ascii_lower_seq(scheme) == word,
        forall|i: int| 0 <= i < word.len() ==> word[i] != ':',
    ensures
        forall|i: int| 0 <= i < scheme.len() ==> scheme[i] != ':',
{
    assert forall|i: int| 0 <= i < scheme.len() implies scheme[i] != ':' by {
        assert(word[i] == ascii_lower(scheme[i]));
    }
}

/// A source whose scheme, the text before its first `://`, is `http` or `https` in any
/// ASCII case opens as that web URL, trimmed; a `file` scheme is refused, and any other
/// scheme free of `:` is refused as unsupported, naming it.
pub proof fn law_sources_open_by_their_scheme(source: Seq<char>, cwd: CurrentDir, scheme: Seq<char>, rest: Seq<char>)
    requires
        trim(source) == scheme + "://"@ + rest,
        utf8_len(trim(source)) <= MAX_SOURCE_BYTES,
    ensures
        ascii_lower_seq(scheme) == "http"@ || ascii_lower_seq(scheme) == "https"@
            ==> open_source_outcome(source, cwd) == Ok::<(bool, Seq<char>), Seq<char>>((true, trim(source))),
        ascii_lower_seq(scheme) == "file"@
            ==> open_source_outcome(source, cwd) == Err::<(bool, Seq<char>), Seq<char>>("file:// URLs are not supported; pass the local media path directly"@),
        (forall|i: int| 0 <= i < scheme.len() ==> scheme[i] != ':') && ascii_lower_seq(scheme) != "http"@
            && ascii_lower_seq(scheme) != "https"@ && ascii_lower_seq(scheme) != "file"@
            ==> open_source_outcome(source, cwd) == Err::<(bool, Seq<char>), Seq<char>>(
                "unsupported source scheme '"@ + scheme + "'; use http/https or a local media path"@),
{
    reveal_strlit("http");
    reveal_strlit("https");
    reveal_strlit("file");
    reveal_strlit("://");
    let s = trim(source);
    assert(s.len() >= 3);
    if ascii_lower_seq(scheme) == "http"@ {
        lemma_lowered_letters_have_no_colon(scheme, "http"@);
    }
    if ascii_lower_seq(scheme) == "https"@ {
        lemma_lowered_letters_have_no_colon(scheme, "https"@);
    }
    if ascii_lower_seq(scheme) == "file"@ {
        lemma_lowered_letters_have_no_colon(scheme, "file"@);
        assert("file"@[0] == 'f' && "http"@[0] == 'h' && "https"@[0] == 'h');
        assert("file"@ != "http"@ && "file"@ != "https"@);
    }
    if forall|i: int| 0 <= i < scheme.len() ==> scheme[i] != ':' {
        lemma_scheme_before_separator(scheme, rest);
    }
}

/// The view of an open source: whether it is web, and its URL or path.
pub open spec fn open_source_view(o: OpenSource) -> (bool, Seq<char>) {
    match o {
        OpenSource::Web { url } => (true, url@),
        OpenSource::LocalMedia { path } => (false, path@),
    }
}

fn find_infix(v: &Vec<char>, t: &str) -> (r: Option<usize>)
    ensures
        match r {
            Some(i) => occurs_at(v@, t@, i as int) && forall|j: int| 0 <= j < i ==> !occurs_at(v@, t@, j),
            None => !has_infix(v@, t@),
        },
{
    let tv = chars_of(t);
    let mut i: usize = 0;
    while i < v.len()
        invariant
            i <= v@.len(),
            tv@ == t@,
            forall|j: int| 0 <= j < i ==> !occurs_at(v@, t@, j),
        decreases v@.len() - i,
    {
        if matches_at(v, &tv, i) {
            return Some(i);
        }
        i += 1;
    }
    proof {
        if has_infix(v@, t@) {
            let j = choose|j: int| occurs_at(v@, t@, j);
            if j == v@.len() {
                assert(occurs_at(v@, t@, j));
            }
        }
    }
    if matches_at(v, &tv, v.len()) {
        return Some(v.len());
    }
    proof {
        assert forall|j: int| !occurs_at(v@, t@, j) by {
            if 0 <= j < v@.len() {
            }
        }
    }
    None
}

/// Classifies what `open` was given: a web URL or a local media path.
pub fn classify_open_source(source: &str, cwd: &CurrentDir) -> (r: Result<OpenSource, String>)
    ensures
        match r {
            Ok(o) => open_source_outcome(source@, *cwd) == Ok::<(bool, Seq<char>), Seq<char>>(open_source_view(o)),
            Err(m) => open_source_outcome(source@, *cwd) == Err::<(bool, Seq<char>), Seq<char>>(m@),
        },
{
    let s = trim_str(source);
    let v = chars_of(s.as_str());
    if v.len() == 0 {
        return Err(String::from_str("open source must not be empty"));
    }
    if utf8_len_within(&v, MAX_SOURCE_BYTES).is_none() {
        return Err(String::from_str("open source must be at most 4096 UTF-8 bytes"));
    }
    match find_infix(&v, "://") {
        Some(i) => {
            proof {
                let c = choose|c: int| occurs_at(v@, "://"@, c) && forall|j: int| 0 <= j < c ==> !occurs_at(v@, "://"@, j);
                assert(c == i) by {
                    if c < i {
                    }
                    if (i as int) < c {
                    }
                }
            }
            let scheme = string_from_range(&v, 0, i);
            let lowered = to_ascii_lowercase(scheme.as_str());
            let lv = chars_of(lowered.as_str());
            if equals_str(&lv, "http") || equals_str(&lv, "https") {
                Ok(OpenSource::Web { url: s })
            } else if equals_str(&lv, "file") {
                Err(String::from_str("file:// URLs are not supported; pass the local media path directly"))
            } else {
                let mut m = String::from_str("unsupported source scheme '");
                m.append(scheme.as_str());
                m.append("'; use http/https or a local media path");
                Err(m)
            }
        },
        None => {
            let path = if v[0] == '/' {
                s
            } else {
                match cwd {
                    CurrentDir::Path(d) => {
                        let dv = chars_of(d.as_str());
                        let mut p = d.clone();
                        if !(dv.len() > 0 && dv[dv.len() - 1] == '/') {
                            p.append("/");
                        }
                        p.append(s.as_str());
                        p
                    },
                    CurrentDir::NotUtf8 => return Err(String::from_str("local media path must be valid UTF-8")),
                    CurrentDir::Unavailable(m) => {
                        let mut e = String::from_str("could not resolve current directory: ");
                        e.append(m.as_str());
                        return Err(e);
                    },
                }
            };
            let pv = chars_of(path.as_str());
            if utf8_len_within(&pv, MAX_SOURCE_BYTES).is_none() {
                return Err(String::from_str("resolved local media path must be at most 4096 UTF-8 bytes"));
            }
            Ok(OpenSource::LocalMedia { path })
        },
    }
}

/// The first failing check of a profile name typed on the command line: trimmed, it is
/// non-empty, at most `MAX_PROFILE_NAME_CHARS` characters, and ASCII letters, digits,
/// dashes and underscores.
pub open spec fn cli_profile_error(name: Seq<char>) -> Option<Seq<char>> {
    let t = trim(name);
    if t.len() == 0 {
        Some("profile name must not be empty"@)
    } else if t.len() > MAX_PROFILE_NAME_CHARS {
        Some("profile name must be at most 64 characters"@)
    } else if !(forall|i: int| 0 <= i < t.len() ==> is_profile_char(#[trigger] t[i])) {
        Some("profile name may only contain alphanumeric characters, dashes, and underscores"@)
    } else {
        None
    }
}

/// Validates a profile name typed on the command line.
pub fn validate_profile_name(name: &str) -> (r: Result<(), String>)
    ensures
        match r {
            Ok(()) => cli_profile_error(name@) is None,
            Err(m) => cli_profile_error(name@) == Some(m@),
        },
{
    let t = trim_str(name);
    let v = chars_of(t.as_str());
    if v.len() == 0 {
        return Err(String::from_str("profile name must not be empty"));
    }
    if v.len() > MAX_PROFILE_NAME_CHARS {
        return Err(String::from_str("profile name must be at most 64 characters"));
    }
    let mut i: usize = 0;
    while i < v.len()
        invariant
            i <= v@.len(),
            v@ == trim(name@),
            0 < v@.len() <= MAX_PROFILE_NAME_CHARS,
            forall|j: int| 0 <= j < i ==> is_profile_char(#[trigger] v@[j]),
        decreases v@.len() - i,
    {
        let c = v[i];
        if !(('0' <= c && c <= '9') || ('a' <= c && c <= 'z') || ('A' <= c && c <= 'Z') || c == '-' || c == '_') {
            assert(!is_profile_char(v@[i as int]));
            return Err(String::from_str("profile name may only contain alphanumeric characters, dashes, and underscores"));
        }
        i += 1;
    }
    Ok(())
}

/// Validates an optional profile name, giving it trimmed.
pub fn validate_optional_profile(profile: Option<&str>) -> (r: Result<Option<String>, String>)
    ensures
        match profile {
            None => r == Ok::<Option<String>, String>(None),
            Some(n) => match r {
                Ok(Some(t)) => cli_profile_error(n@) is None && t@ == trim(n@),
                Ok(None) => false,
                Err(m) => cli_profile_error(n@) == Some(m@),
            },
        },
{
    match profile {
        None => Ok(None),
        Some(name) => match validate_profile_name(name) {
            Ok(()) => Ok(Some(trim_str(name))),
            Err(m) => Err(m),
        },
    }
}

/// What `u32`'s `FromStr` gives.
pub open spec fn u32_text_value(s: Seq<char>) -> Option<u32> {
    match u64_text_value(s) {
        Some(v) => if v <= u32::MAX { Some(v as u32) } else { None },
        None => None,
    }
}

/// What a workspace argument names: an index if it parses as a `u32`, else a name;
/// both trimmed, and blank refused.
pub open spec fn workspace_arg(v: Seq<char>) -> Result<Result<u32, Seq<char>>, Seq<char>> {
    let t = trim(v);
    if t.len() == 0 {
        Err("workspace target must not be empty"@)
    } else if u32_text_value(t) is Some {
        Ok(Ok(u32_text_value(t)->0))
    } else {
        Ok(Err(t))
    }
}

/// Turns a workspace argument into a workspace target.
pub fn workspace_target_for(value: &str) -> (r: Result<WorkspaceTarget, String>)
    ensures
        match r {
            Ok(WorkspaceTarget::Index { index }) => workspace_arg(value@) == Ok::<Result<u32, Seq<char>>, Seq<char>>(Ok(index)),
            Ok(WorkspaceTarget::Name { name }) => workspace_arg(value@) == Ok::<Result<u32, Seq<char>>, Seq<char>>(Err(name@)),
            Err(m) => workspace_arg(value@) == Err::<Result<u32, Seq<char>>, Seq<char>>(m@),
        },
{
    let t = trim_str(value);
    let v = chars_of(t.as_str());
    if v.len() == 0 {
        return Err(String::from_str("workspace target must not be empty"));
    }
    assert(v@.subrange(0, v@.len() as int) =~= v@);
    match parse_u64(&v, 0, v.len()) {
        Some(n) => if n <= 4294967295u64 {
            return Ok(WorkspaceTarget::Index { index: n as u32 });
        },
        None => {},
    }
    Ok(WorkspaceTarget::Name { name: t })
}

/// The first `=` of `s`, splitting it into key and value.
pub open spec fn split_setting(s: Seq<char>) -> Option<(Seq<char>, Seq<char>)> {
    match crate::ini::first_index_of(s, '=') {
        Some(i) => Some((s.subrange(0, i), s.subrange(i + 1, s.len() as int))),
        None => None,
    }
}

/// What `config --show` / `config --set KEY=VALUE` asks for.
pub open spec fn config_outcome(show: bool, set: Option<Seq<char>>) -> Result<ConfigAction, Seq<char>> {
    match (show, set) {
        (true, None) => Ok(ConfigAction::Show),
        (false, Some(setting)) => match split_setting(setting) {
            None => Err("config --set requires KEY=VALUE"@),
            Some((k0, v0)) => {
                let key = trim(k0);
                let value = trim(v0);
                if key.len() == 0 || value.len() == 0 {
                    Err("config --set requires non-empty KEY=VALUE"@)
                } else if key == "history_enabled"@ {
                    if value == "true"@ {
                        Ok(ConfigAction::SetHistoryEnabled { enabled: true })
                    } else if value == "false"@ {
                        Ok(ConfigAction::SetHistoryEnabled { enabled: false })
                    } else {
                        Err("history_enabled must be true or false"@)
                    }
                } else if key == "retention_days"@ {
                    if ascii_lower_seq(value) == "null"@ {
                        Ok(ConfigAction::SetRetentionDays { days: None })
                    } else if u32_text_value(value) is None {
                        Err("retention_days must be null or an integer between 1 and 3650"@)
                    } else if !(1 <= u32_text_value(value)->0 <= MAX_RETENTION_DAYS) {
                        Err("retention_days must be null or between 1 and 3650"@)
                    } else {
                        Ok(ConfigAction::SetRetentionDays { days: Some(u32_text_value(value)->0) })
                    }
                } else {
                    Err("unknown config key '"@ + key + "'; supported keys are history_enabled and retention_days"@)
                }
            },
        },
        _ => Err("config requires exactly one of --show or --set KEY=VALUE"@),
    }
}

/// Turns the `config` arguments into a configuration action.
pub fn config_action_for(show: bool, set: &Option<String>) -> (r: Result<ConfigAction, String>)
    ensures
        match r {
            Ok(a) => config_outcome(show, opt_view(*set)) == Ok::<ConfigAction, Seq<char>>(a),
            Err(m) => config_outcome(show, opt_view(*set)) == Err::<ConfigAction, Seq<char>>(m@),
        },
{
    let setting = match (show, set) {
        (true, None) => return Ok(ConfigAction::Show),
        (false, Some(setting)) => setting,
        _ => return Err(String::from_str("config requires exactly one of --show or --set KEY=VALUE")),
    };
    let v = chars_of(setting.as_str());
    let mut i: usize = 0;
    while i < v.len() && v[i] != '='
        invariant
            i <= v@.len(),
            forall|j: int| 0 <= j < i ==> v@[j] != '=',
        decreases v@.len() - i,
    {
        i += 1;
    }
    if i == v.len() {
        assert(!v@.contains('=')) by {
            if v@.contains('=') {
                let j = choose|j: int| 0 <= j < v@.len() && v@[j] == '=';
                assert(v@[j] != '=');
            }
        }
        return Err(String::from_str("config --set requires KEY=VALUE"));
    }
    proof {
        assert(v@[i as int] == '=');
        assert(v@.contains('='));
        let c = choose|c: int| 0 <= c < v@.len() && v@[c] == '=' && forall|j: int| 0 <= j < c ==> v@[j] != '=';
        assert(c == i) by {
            if c < i {
                assert(v@[c] != '=');
            }
            if (i as int) < c {
                assert(v@[i as int] != '=');
            }
        }
    }
    let key = trim_str(string_from_range(&v, 0, i).as_str());
    let value = trim_str(string_from_range(&v, i + 1, v.len()).as_str());
    let kv = chars_of(key.as_str());
    let vv = chars_of(value.as_str());
    if kv.len() == 0 || vv.len() == 0 {
        return Err(String::from_str("config --set requires non-empty KEY=VALUE"));
    }
    if equals_str(&kv, "history_enabled") {
        if equals_str(&vv, "true") {
            Ok(ConfigAction::SetHistoryEnabled { enabled: true })
        } else if equals_str(&vv, "false") {
            Ok(ConfigAction::SetHistoryEnabled { enabled: false })
        } else {
            Err(String::from_str("history_enabled must be true or false"))
        }
    } else if equals_str(&kv, "retention_days") {
        let lowered = to_ascii_lowercase(value.as_str());
        if crate::text::str_eq(lowered.as_str(), "null") {
            return Ok(ConfigAction::SetRetentionDays { days: None });
        }
        assert(vv@.subrange(0, vv@.len() as int) =~= vv@);
        let days = match parse_u64(&vv, 0, vv.len()) {
            Some(n) => if n <= 4294967295u64 {
                n as u32
            } else {
                return Err(String::from_str("retention_days must be null or an integer between 1 and 3650"));
            },
            None => return Err(String::from_str("retention_days must be null or an integer between 1 and 3650")),
        };
        if !(1 <= days && days <= MAX_RETENTION_DAYS) {
            return Err(String::from_str("retention_days must be null or between 1 and 3650"));
        }
        Ok(ConfigAction::SetRetentionDays { days: Some(days) })
    } else {
        let mut m = String::from_str("unknown config key '");
        m.append(key.as_str());
        m.append("'; supported keys are history_enabled and retention_days");
        Err(m)
    }
}

/// What a history query validates to: absent is none; otherwise trimmed, non-blank, at
/// most `MAX_HISTORY_QUERY_CHARS` characters.
pub open spec fn history_query_outcome(q: Option<Seq<char>>) -> Result<Option<Seq<char>>, Seq<char>> {
    match q {
        None => Ok(None),
        Some(s) => if trim(s).len() == 0 {
            Err("history query must not be blank"@)
        } else if trim(s).len() > MAX_HISTORY_QUERY_CHARS {
            Err("history query must be at most 512 characters"@)
        } else {
            Ok(Some(trim(s)))
        },
    }
}

/// Validates a history query typed on the command line.
pub fn history_query_for(query: &Option<String>) -> (r: Result<Option<String>, String>)
    ensures
        match r {
            Ok(q) => history_query_outcome(opt_view(*query)) == Ok::<Option<Seq<char>>, Seq<char>>(opt_view(q)),
            Err(m) => history_query_outcome(opt_view(*query)) == Err::<Option<Seq<char>>, Seq<char>>(m@),
        },
{
    let q = match query {
        Some(q) => q,
        None => return Ok(None),
    };
    let t = trim_str(q.as_str());
    let n = t.as_str().unicode_len();
    if n == 0 {
        return Err(String::from_str("history query must not be blank"));
    }
    if n > MAX_HISTORY_QUERY_CHARS {
        return Err(String::from_str("history query must be at most 512 characters"));
    }
    Ok(Some(t))
}

/// The client's own check of a selector.
pub open spec fn cli_selector_error(s: Seq<char>) -> Option<Seq<char>> {
    if all_ws(s) {
        Some("interaction selector must not be blank"@)
    } else if s.len() > MAX_INTERACTION_SELECTOR_CHARS {
        Some("interaction selector must be at most 512 characters"@)
    } else {
        None
    }
}

/// The client's check of an optional selector.
pub open spec fn cli_opt_selector_error(s: Option<Seq<char>>) -> Option<Seq<char>> {
    match s {
        Some(s) => cli_selector_error(s),
        None => None,
    }
}

/// The client's check of one interaction action, before anything is sent.
pub open spec fn cli_action_error(a: InteractionAction) -> Option<Seq<char>> {
    match a {
        InteractionAction::Click { selector } => cli_selector_error(selector@),
        InteractionAction::WaitForSelector { selector } => cli_selector_error(selector@),
        InteractionAction::CheckSelector { selector } => cli_selector_error(selector@),
        InteractionAction::Fill { selector, value } => if cli_selector_error(selector@) is Some {
            cli_selector_error(selector@)
        } else if value@.len() > MAX_INTERACTION_VALUE_CHARS {
            Some("interaction fill value must be at most 4096 characters"@)
        } else {
            None
        },
        InteractionAction::PressKey { key, selector } => if all_ws(key@) || key@.len() > MAX_INTERACTION_KEY_CHARS {
            Some("interaction key must be nonblank and at most 64 characters"@)
        } else {
            cli_opt_selector_error(opt_view(selector))
        },
        InteractionAction::WaitForText { text, selector } => cli_text_error(text@, opt_view(selector)),
        InteractionAction::CheckText { text, selector } => cli_text_error(text@, opt_view(selector)),
    }
}

/// The client's check of a text condition.
pub open spec fn cli_text_error(text: Seq<char>, selector: Option<Seq<char>>) -> Option<Seq<char>> {
    if text.len() == 0 || text.len() > MAX_INTERACTION_TEXT_CHARS {
        Some("interaction text must be non-empty and at most 1024 characters"@)
    } else {
        cli_opt_selector_error(selector)
    }
}

fn cli_selector(selector: &str) -> (r: Result<(), String>)
    ensures
        match r {
            Ok(()) => cli_selector_error(selector@) is None,
            Err(m) => cli_selector_error(selector@) == Some(m@),
        },
{
    let v = chars_of(selector);
    if all_whitespace(&v) {
        return Err(String::from_str("interaction selector must not be blank"));
    }
    if v.len() > MAX_INTERACTION_SELECTOR_CHARS {
        return Err(String::from_str("interaction selector must be at most 512 characters"));
    }
    Ok(())
}

fn cli_opt_selector(selector: &Option<String>) -> (r: Result<(), String>)
    ensures
        match r {
            Ok(()) => cli_opt_selector_error(opt_view(*selector)) is None,
            Err(m) => cli_opt_selector_error(opt_view(*selector)) == Some(m@),
        },
{
    match selector {
        Some(s) => cli_selector(s.as_str()),
        None => Ok(()),
    }
}

fn cli_text(text: &String, selector: &Option<String>) -> (r: Result<(), String>)
    ensures
        match r {
            Ok(()) => cli_text_error(text@, opt_view(*selector)) is None,
            Err(m) => cli_text_error(text@, opt_view(*selector)) == Some(m@),
        },
{
    let n = text.as_str().unicode_len();
    if n == 0 || n > MAX_INTERACTION_TEXT_CHARS {
        return Err(String::from_str("interaction text must be non-empty and at most 1024 characters"));
    }
    cli_opt_selector(selector)
}

/// The client's check of one interaction action.
pub fn validate_interaction_action_cli(action: &InteractionAction) -> (r: Result<(), String>)
    ensures
        match r {
            Ok(()) => cli_action_error(*action) is None,
            Err(m) => cli_action_error(*action) == Some(m@),
        },
{
    match action {
        InteractionAction::Click { selector } => cli_selector(selector.as_str()),
        InteractionAction::WaitForSelector { selector } => cli_selector(selector.as_str()),
        InteractionAction::CheckSelector { selector } => cli_selector(selector.as_str()),
        InteractionAction::Fill { selector, value } => {
            match cli_selector(selector.as_str()) {
                Ok(()) => {},
                Err(m) => return Err(m),
            }
            if value.as_str().unicode_len() > MAX_INTERACTION_VALUE_CHARS {
                return Err(String::from_str("interaction fill value must be at most 4096 characters"));
            }
            Ok(())
        },
        InteractionAction::PressKey { key, selector } => {
            let kv = chars_of(key.as_str());
            if all_whitespace(&kv) || kv.len() > MAX_INTERACTION_KEY_CHARS {
                return Err(String::from_str("interaction key must be nonblank and at most 64 characters"));
            }
            cli_opt_selector(selector)
        },
        InteractionAction::WaitForText { text, selector } => cli_text(text, selector),
        InteractionAction::CheckText { text, selector } => cli_text(text, selector),
    }
}

/// The window state the command-line flags ask for: maximize, then minimize, then
/// restore, then fullscreen, the first one set.
pub open spec fn state_choice(maximize: bool, minimize: bool, restore: bool, fullscreen: bool) -> Option<WindowStateAction> {
    if maximize {
        Some(WindowStateAction::Maximize)
    } else if minimize {
        Some(WindowStateAction::Minimize)
    } else if restore {
        Some(WindowStateAction::Restore)
    } else if fullscreen {
        Some(WindowStateAction::Fullscreen)
    } else {
        None
    }
}

/// The window state the command-line flags ask for.
pub fn window_state_for(maximize: bool, minimize: bool, restore: bool, fullscreen: bool) -> (s: Option<WindowStateAction>)
    ensures
        s == state_choice(maximize, minimize, restore, fullscreen),
{
    if maximize {
        Some(WindowStateAction::Maximize)
    } else if minimize {
        Some(WindowStateAction::Minimize)
    } else if restore {
        Some(WindowStateAction::Restore)
    } else if fullscreen {
        Some(WindowStateAction::Fullscreen)
    } else {
        None
    }
}

/// Whether any geometry, state, on-top or workspace change was asked for.
pub open spec fn geometry_asked(
    width: Option<u32>,
    height: Option<u32>,
    x: Option<i32>,
    y: Option<i32>,
    state: Option<WindowStateAction>,
    always_on_top: Option<bool>,
    workspace: Option<Seq<char>>,
) -> bool {
    width is Some || height is Some || x is Some || y is Some || state is Some || always_on_top is Some || workspace is Some
}

fn optional_workspace(workspace: Option<&str>) -> (r: Result<Option<WorkspaceTarget>, String>)
    ensures
        match workspace {
            None => r == Ok::<Option<WorkspaceTarget>, String>(None),
            Some(w) => match r {
                Ok(Some(WorkspaceTarget::Index { index })) => workspace_arg(w@) == Ok::<Result<u32, Seq<char>>, Seq<char>>(Ok(index)),
                Ok(Some(WorkspaceTarget::Name { name })) => workspace_arg(w@) == Ok::<Result<u32, Seq<char>>, Seq<char>>(Err(name@)),
                Ok(None) => false,
                Err(m) => workspace_arg(w@) == Err::<Result<u32, Seq<char>>, Seq<char>>(m@),
            },
        },
{
    match workspace {
        None => Ok(None),
        Some(w) => match workspace_target_for(w) {
            Ok(t) => Ok(Some(t)),
            Err(m) => Err(m),
        },
    }
}

/// The geometry an `open` command asks for: none when nothing was given, else every given
/// value, with the workspace argument turned into a workspace target.
pub fn geometry_for(
    width: Option<u32>,
    height: Option<u32>,
    x: Option<i32>,
    y: Option<i32>,
    state: Option<WindowStateAction>,
    always_on_top: Option<bool>,
    workspace: Option<&str>,
) -> (r: Result<Option<WindowGeometrySpec>, String>)
    ensures
        !geometry_asked(width, height, x, y, state, always_on_top, match workspace { Some(w) => Some(w@), None => None }) ==> r == Ok::<Option<WindowGeometrySpec>, String>(None),
        geometry_asked(width, height, x, y, state, always_on_top, match workspace { Some(w) => Some(w@), None => None }) ==> match r {
            Ok(Some(g)) => g.width == width && g.height == height && g.x == x && g.y == y && g.state == state
                && g.always_on_top == always_on_top && match workspace {
                    None => g.workspace is None,
                    Some(w) => match g.workspace {
                        Some(WorkspaceTarget::Index { index }) => workspace_arg(w@) == Ok::<Result<u32, Seq<char>>, Seq<char>>(Ok(index)),
                        Some(WorkspaceTarget::Name { name }) => workspace_arg(w@) == Ok::<Result<u32, Seq<char>>, Seq<char>>(Err(name@)),
                        None => false,
                    },
                },
            Ok(None) => false,
            Err(m) => workspace matches Some(w) && workspace_arg(w@) == Err::<Result<u32, Seq<char>>, Seq<char>>(m@),
        },
{
    if width.is_none() && height.is_none() && x.is_none() && y.is_none() && state.is_none() && always_on_top.is_none()
        && workspace.is_none() {
        return Ok(None);
    }
    let target = match optional_workspace(workspace) {
        Ok(t) => t,
        Err(m) => return Err(m),
    };
    Ok(Some(WindowGeometrySpec { width, height, x, y, state, always_on_top, workspace: target }))
}

/// The workspace a `resize` command moves to, once it is known to ask for something: a
/// resize that changes nothing is refused.
pub fn resize_workspace_for(
    width: Option<u32>,
    height: Option<u32>,
    x: Option<i32>,
    y: Option<i32>,
    state: Option<WindowStateAction>,
    always_on_top: Option<bool>,
    workspace: Option<&str>,
) -> (r: Result<Option<WorkspaceTarget>, String>)
    ensures
        !geometry_asked(width, height, x, y, state, always_on_top, match workspace { Some(w) => Some(w@), None => None })
            ==> (r matches Err(m) && m@ == "resize requires at least one operation"@),
        geometry_asked(width, height, x, y, state, always_on_top, match workspace { Some(w) => Some(w@), None => None }) ==> match workspace {
            None => r == Ok::<Option<WorkspaceTarget>, String>(None),
            Some(w) => match r {
                Ok(Some(WorkspaceTarget::Index { index })) => workspace_arg(w@) == Ok::<Result<u32, Seq<char>>, Seq<char>>(Ok(index)),
                Ok(Some(WorkspaceTarget::Name { name })) => workspace_arg(w@) == Ok::<Result<u32, Seq<char>>, Seq<char>>(Err(name@)),
                Ok(None) => false,
                Err(m) => workspace_arg(w@) == Err::<Result<u32, Seq<char>>, Seq<char>>(m@),
            },
        },
{
    if width.is_none() && height.is_none() && x.is_none() && y.is_none() && state.is_none() && always_on_top.is_none()
        && workspace.is_none() {
        return Err(String::from_str("resize requires at least one operation"));
    }
    optional_workspace(workspace)
}

/// What a `tag` command tags: with `--all`, every window with the text given in place of
/// a target; otherwise one target and its description. Descriptions are bounded.
pub open spec fn tag_outcome(target: Option<Seq<char>>, description: Option<Seq<char>>, all: bool) -> Result<(Option<Seq<char>>, Seq<char>), Seq<char>> {
    let picked: Result<(Option<Seq<char>>, Seq<char>), Seq<char>> = if all {
        if description is Some {
            Err("tag with --all accepts only description"@)
        } else {
            match target {
                Some(d) => Ok((None, d)),
                None => Err("tag requires a description"@),
            }
        }
    } else {
        match target {
            None => Err("tag requires target or --all"@),
            Some(t) => match description {
                Some(d) => Ok((Some(t), d)),
                None => Err("tag requires a description"@),
            },
        }
    };
    match picked {
        Ok((t, d)) => if d.len() > MAX_DESCRIPTION_CHARS {
            Err("tag description must be at most 256 characters"@)
        } else {
            Ok((t, d))
        },
        Err(m) => Err(m),
    }
}

/// Works out what a `tag` command tags and with which description.
pub fn tag_request_for(target: &Option<String>, description: &Option<String>, all: bool) -> (r: Result<(Option<String>, String), String>)
    ensures
        match r {
            Ok((t, d)) => tag_outcome(opt_view(*target), opt_view(*description), all) == Ok::<(Option<Seq<char>>, Seq<char>), Seq<char>>((opt_view(t), d@)),
            Err(m) => tag_outcome(opt_view(*target), opt_view(*description), all) == Err::<(Option<Seq<char>>, Seq<char>), Seq<char>>(m@),
        },
{
    let (target_id, desc) = if all {
        if description.is_some() {
            return Err(String::from_str("tag with --all accepts only description"));
        }
        match target {
            Some(d) => (None, d.clone()),
            None => return Err(String::from_str("tag requires a description")),
        }
    } else {
        let t = match target {
            Some(t) => t.clone(),
            None => return Err(String::from_str("tag requires target or --all")),
        };
        match description {
            Some(d) => (Some(t), d.clone()),
            None => return Err(String::from_str("tag requires a description")),
        }
    };
    if desc.as_str().unicode_len() > MAX_DESCRIPTION_CHARS {
        return Err(String::from_str("tag description must be at most 256 characters"));
    }
    Ok((target_id, desc))
}

/// The query of a `history` command: a query and `--clear` exclude each other, and a
/// query is validated as `history_query_for` does.
pub fn history_request_for(query: &Option<String>, clear: bool) -> (r: Result<Option<String>, String>)
    ensures
        clear && query is Some ==> (r matches Err(m) && m@ == "history accepts --query or --clear, not both"@),
        !(clear && query is Some) ==> match r {
            Ok(q) => history_query_outcome(opt_view(*query)) == Ok::<Option<Seq<char>>, Seq<char>>(opt_view(q)),
            Err(m) => history_query_outcome(opt_view(*query)) == Err::<Option<Seq<char>>, Seq<char>>(m@),
        },
{
    if clear && query.is_some() {
        return Err(String::from_str("history accepts --query or --clear, not both"));
    }
    history_query_for(query)
}

/// Checks an interaction timeout against the protocol bounds.
pub fn check_interaction_timeout(timeout_ms: u64) -> (r: Result<(), String>)
    ensures
        r is Ok <==> MIN_INTERACTION_TIMEOUT_MS <= timeout_ms <= MAX_INTERACTION_TIMEOUT_MS,
        r matches Err(m) ==> m@ == "interaction timeout must be between 100 and 60000 ms"@,
{
    if timeout_ms < MIN_INTERACTION_TIMEOUT_MS || timeout_ms > MAX_INTERACTION_TIMEOUT_MS {
        return Err(String::from_str("interaction timeout must be between 100 and 60000 ms"));
    }
    Ok(())
}

/// Checks how many `--action` values an `interact` command carries: at least one and at
/// most `MAX_INTERACTION_ACTIONS`.
pub fn check_interaction_action_count(count: usize) -> (r: Result<(), String>)
    ensures
        r is Ok <==> 1 <= count <= MAX_INTERACTION_ACTIONS,
        count == 0 ==> (r matches Err(m) && m@ == "interact requires at least one --action JSON object"@),
        count > MAX_INTERACTION_ACTIONS ==> (r matches Err(m)
            && m@ == "interact accepts at most 32 ordered --action values"@),
{
    if count == 0 {
        return Err(String::from_str("interact requires at least one --action JSON object"));
    }
    if count > MAX_INTERACTION_ACTIONS {
        return Err(String::from_str("interact accepts at most 32 ordered --action values"));
    }
    Ok(())
}

/// The message that refuses a global timeout no longer than the interaction timeout.
pub open spec fn global_timeout_message(global_ms: u64, interaction_ms: u64) -> Seq<char> {
    "global --timeout-ms ("@ + decimal(global_ms as nat) + ") must be greater than --interaction-timeout-ms ("@
        + decimal(interaction_ms as nat) + ")"@
}

/// An interaction must finish before the client stops waiting for the daemon: the global
/// timeout has to exceed the interaction timeout.
pub fn check_global_timeout(global_ms: u64, interaction_ms: u64) -> (r: Result<(), String>)
    ensures
        r is Ok <==> global_ms > interaction_ms,
        r matches Err(m) ==> m@ == global_timeout_message(global_ms, interaction_ms),
{
    if global_ms > interaction_ms {
        return Ok(());
    }
    proof {
        reveal_strlit("global --timeout-ms (");
        reveal_strlit(") must be greater than --interaction-timeout-ms (");
        reveal_strlit(")");
    }
    let mut m = String::from_str("global --timeout-ms (");
    let g = u64_to_decimal(global_ms);
    m.append(g.as_str());
    m.append(") must be greater than --interaction-timeout-ms (");
    let i = u64_to_decimal(interaction_ms);
    m.append(i.as_str());
    m.append(")");
    Err(m)
}

/// The commands that act on one named window or, with `--all`, on every window.
#[derive(Clone, Copy, Debug, PartialEq, Eq, Structural)]
pub enum SelectingCommand {
    Console,
    Screenshot,
    Media,
    Resize,
    Close,
}

/// The message that refuses a selecting command given both or neither of a target and `--all`.
pub open spec fn selection_message(command: SelectingCommand) -> Seq<char> {
    match command {
        SelectingCommand::Console => "console requires either target or --all"@,
        SelectingCommand::Screenshot => "screenshot requires either target or --all"@,
        SelectingCommand::Media => "media requires either target or --all"@,
        SelectingCommand::Resize => "resize requires either target or --all"@,
        SelectingCommand::Close => "close requires exactly one target or --all"@,
    }
}

/// A selecting command takes exactly one of a target and `--all`.
pub fn check_selection(command: SelectingCommand, has_target: bool, all: bool) -> (r: Result<(), String>)
    ensures
        r is Ok <==> has_target != all,
        r matches Err(m) ==> m@ == selection_message(command),
{
    if has_target != all {
        return Ok(());
    }
    let m = match command {
        SelectingCommand::Console => "console requires either target or --all",
        SelectingCommand::Screenshot => "screenshot requires either target or --all",
        SelectingCommand::Media => "media requires either target or --all",
        SelectingCommand::Resize => "resize requires either target or --all",
        SelectingCommand::Close => "close requires exactly one target or --all",
    };
    proof {
        reveal_strlit("console requires either target or --all");
        reveal_strlit("screenshot requires either target or --all");
        reveal_strlit("media requires either target or --all");
        reveal_strlit("resize requires either target or --all");
        reveal_strlit("close requires exactly one target or --all");
    }
    Err(String::from_str(m))
}

/// Checks an `open-batch` manifest by its windows, each flagged when it carries a media
/// action: it must hold at least one and at most `MAX_OPEN_BATCH_WINDOWS` windows, none
/// with media.
pub fn check_open_batch(media_flags: &[bool]) -> (r: Result<(), String>)
    ensures
        media_flags@.len() == 0 ==> (r matches Err(m) && m@ == "open-batch requires at least one window"@),
        media_flags@.len() > MAX_OPEN_BATCH_WINDOWS ==> (r matches Err(m) && m@ == "open-batch supports at most 32 windows"@),
        1 <= media_flags@.len() <= MAX_OPEN_BATCH_WINDOWS ==> match r {
            Ok(()) => forall|i: int| 0 <= i < media_flags@.len() ==> !media_flags@[i],
            Err(m) => (exists|i: int| 0 <= i < media_flags@.len() && media_flags@[i])
                && m@ == "open-batch manifest windows must not contain media actions; use open or apply for media control"@,
        },
{
    if media_flags.len() == 0 {
        return Err(String::from_str("open-batch requires at least one window"));
    }
    if media_flags.len() > MAX_OPEN_BATCH_WINDOWS {
        return Err(String::from_str("open-batch supports at most 32 windows"));
    }
    let mut i: usize = 0;
    while i < media_flags.len()
        invariant
            i <= media_flags@.len(),
            1 <= media_flags@.len() <= MAX_OPEN_BATCH_WINDOWS,
            forall|j: int| 0 <= j < i ==> !media_flags@[j],
        decreases media_flags@.len() - i,
    {
        if media_flags[i] {
            return Err(String::from_str(
                "open-batch manifest windows must not contain media actions; use open or apply for media control",
            ));
        }
        i += 1;
    }
    Ok(())
}

/// A path made absolute against the working directory, as `Path::join` does; `purpose`
/// names the path in the error messages.
pub open spec fn absolute_path_outcome(path: Seq<char>, purpose: Seq<char>, cwd: CurrentDir) -> Result<Seq<char>, Seq<char>> {
    if path.len() == 0 {
        Err(purpose + " path must not be empty"@)
    } else if path[0] == '/' {
        Ok(path)
    } else {
        match cwd {
            CurrentDir::Path(d) => Ok(joined(d@, path)),
            CurrentDir::NotUtf8 => Err(purpose + " path must be valid UTF-8"@),
            CurrentDir::Unavailable(m) => Err("could not resolve current directory: "@ + m@),
        }
    }
}

/// Makes a path absolute against the working directory.
pub fn absolute_utf8_path(path: &str, purpose: &str, cwd: &CurrentDir) -> (r: Result<String, String>)
    ensures
        match r {
            Ok(p) => absolute_path_outcome(path@, purpose@, *cwd) == Ok::<Seq<char>, Seq<char>>(p@),
            Err(m) => absolute_path_outcome(path@, purpose@, *cwd) == Err::<Seq<char>, Seq<char>>(m@),
        },
{
    let v = chars_of(path);
    if v.len() == 0 {
        let mut m = String::from_str(purpose);
        m.append(" path must not be empty");
        return Err(m);
    }
    if v[0] == '/' {
        return Ok(String::from_str(path));
    }
    match cwd {
        CurrentDir::Path(d) => {
            let dv = chars_of(d.as_str());
            let mut p = d.clone();
            if !(dv.len() > 0 && dv[dv.len() - 1] == '/') {
                p.append("/");
            }
            p.append(path);
            Ok(p)
        },
        CurrentDir::NotUtf8 => {
            let mut m = String::from_str(purpose);
            m.append(" path must be valid UTF-8");
            Err(m)
        },
        CurrentDir::Unavailable(e) => {
            let mut m = String::from_str("could not resolve current directory: ");
            m.append(e.as_str());
            Err(m)
        },
    }
}

/// The daemon and the client accept the same interaction actions; only their messages
/// differ.
pub proof fn lemma_action_acceptance_agrees(a: InteractionAction)
    ensures
        action_error(a) is None <==> cli_action_error(a) is None,
{
}

proof fn lemma_first_action_error_none(actions: Seq<InteractionAction>)
    ensures
        first_action_error(actions) is None <==> forall|i: int| 0 <= i < actions.len() ==> #[trigger] action_error(actions[i]) is None,
    decreases actions.len(),
{
    if actions.len() > 0 {
        lemma_first_action_error_none(actions.drop_first());
        if first_action_error(actions) is None {
            assert forall|i: int| 0 <= i < actions.len() implies #[trigger] action_error(actions[i]) is None by {
                if i > 0 {
                    assert(actions[i] == actions.drop_first()[i - 1]);
                }
            }
        } else if action_error(actions[0]) is None {
            let j = choose|j: int| 0 <= j < actions.drop_first().len() && !(#[trigger] action_error(actions.drop_first()[j]) is None);
            assert(actions.drop_first()[j] == actions[j + 1]);
        }
    }
}

/// The daemon accepts exactly the interaction batches the client accepts: at least one
/// and at most `MAX_INTERACTION_ACTIONS` actions, a timeout within bounds, and every
/// action accepted by the client's check.
pub proof fn law_daemon_accepts_what_the_client_accepts(actions: Seq<InteractionAction>, timeout_ms: u64)
    ensures
        request_error(actions, timeout_ms) is None <==> {
            &&& 1 <= actions.len() <= MAX_INTERACTION_ACTIONS
            &&& MIN_INTERACTION_TIMEOUT_MS <= timeout_ms <= MAX_INTERACTION_TIMEOUT_MS
            &&& forall|i: int| 0 <= i < actions.len() ==> #[trigger] cli_action_error(actions[i]) is None
        },
{
    lemma_first_action_error_none(actions);
    let all_cli = forall|i: int| 0 <= i < actions.len() ==> #[trigger] cli_action_error(actions[i]) is None;
    let all_daemon = forall|i: int| 0 <= i < actions.len() ==> #[trigger] action_error(actions[i]) is None;
    if all_cli {
        assert forall|i: int| 0 <= i < actions.len() implies #[trigger] action_error(actions[i]) is None by {
            lemma_action_acceptance_agrees(actions[i]);
            assert(cli_action_error(actions[i]) is None);
        }
    }
    if all_daemon {
        assert forall|i: int| 0 <= i < actions.len() implies #[trigger] cli_action_error(actions[i]) is None by {
            lemma_action_acceptance_agrees(actions[i]);
            assert(action_error(actions[i]) is None);
        }
    }
    assert(all_cli <==> all_daemon);
}

} // verus!
