//! How the daemon answers a command: the error code and message each refusal of the
//! window manager is reported with, and which grant an authenticated-session command
//! that names a window or an apply target stands for.
use vstd::prelude::*;
use crate::auth_domain::{
    domain_error_text, domain_outcome, opt_view, validate_action, validate_domain, AuthTargetView,
    ValidatedAuthRequest, ValidatedAuthTarget, ValidatedRequestView, action_outcome,
};
use crate::authority::AuthGrantTarget;
use crate::database::PersistenceError;
use crate::media::MediaAdmissionError;
use crate::protocol::{
    AuthSessionAction, AuthSessionTarget, ErrorCode, InteractionPostError, InteractionPostErrorCode,
    ResponseError, TargetView, MAX_LOAD_ERROR_CHARS,
};
use crate::registry::ActiveWindow;
use crate::urls::{url_host_str, url_parses, WebUrl};
use crate::web_profile::WebProfileError;
use crate::web_video::WebVideoError;
use crate::window_core::{clip, truncate_chars, WindowCoreError};
use crate::window_manager::WindowManagerError;
use crate::workspace::WorkspaceError;

verus! {

/// The text a web-video refusal is reported with.
pub open spec fn web_video_error_text(e: WebVideoError) -> Seq<char> {
    match e {
        WebVideoError::Validation(m) => "web-video validation failed: "@ + m@,
        WebVideoError::Service(m) => "web-video service failed: "@ + m@,
        WebVideoError::Control(m) => "web-video control failed: "@ + m@,
    }
}

/// The text a web-profile refusal is reported with.
pub open spec fn web_profile_error_text(e: WebProfileError) -> Seq<char> {
    match e {
        WebProfileError::Validation(m) => "web profile validation failed: "@ + m@,
        WebProfileError::Storage(m) => "web profile storage operation failed: "@ + m@,
    }
}

/// The code and message each window-manager refusal is answered with.
pub open spec fn manager_error_answer(e: WindowManagerError) -> (ErrorCode, Seq<char>) {
    match e {
        WindowManagerError::Core(c) => match c {
            WindowCoreError::Validation(m) => (ErrorCode::ValidationFailed, m@),
            WindowCoreError::TargetNotFound(t) => (ErrorCode::TargetNotFound, "target '"@ + t@ + "' was not found"@),
            WindowCoreError::TargetAmbiguous(t) => (
                ErrorCode::TargetAmbiguous,
                "target '"@ + t@ + "' matches multiple active windows"@,
            ),
            WindowCoreError::CapacityExhausted => (ErrorCode::WindowOperationFailed, "window capacity exhausted"@),
            WindowCoreError::State(m) => (ErrorCode::WindowOperationFailed, m@),
            WindowCoreError::Operation(m) => (ErrorCode::WindowOperationFailed, m@),
        },
        WindowManagerError::Workspace(w) => match w {
            WorkspaceError::InvalidWorkspace(t) => (
                ErrorCode::InvalidWorkspace,
                "workspace target '"@ + t@ + "' is invalid"@,
            ),
            WorkspaceError::DisplayUnavailable(m) => (ErrorCode::DisplayUnavailable, "X11 display is unavailable: "@ + m@),
            WorkspaceError::Operation(m) => (ErrorCode::WindowOperationFailed, m@),
        },
        WindowManagerError::Persistence(p) => match p {
            PersistenceError::Validation(m) => (ErrorCode::ValidationFailed, m@),
            PersistenceError::Storage(m) => (ErrorCode::PersistenceFailed, m@),
            PersistenceError::WorkerUnavailable => (
                ErrorCode::PersistenceFailed,
                "persistence service worker is unavailable"@,
            ),
        },
        WindowManagerError::MediaAdmission(m) => match m {
            MediaAdmissionError::Validation(x) => (ErrorCode::ValidationFailed, x@),
            MediaAdmissionError::Io(x) => (ErrorCode::MediaFailed, x@),
        },
        WindowManagerError::Media(m) => (ErrorCode::MediaFailed, m@),
        WindowManagerError::WebVideo(v) => (ErrorCode::WebVideoFailed, web_video_error_text(v)),
        WindowManagerError::WebProfile(p) => (ErrorCode::Internal, web_profile_error_text(p)),
        WindowManagerError::Screenshot(m) => (ErrorCode::ScreenshotFailed, m@),
        WindowManagerError::Operation(m) => (ErrorCode::WindowOperationFailed, m@),
    }
}

fn joined(a: &str, b: &str, c: &str) -> (s: String)
    ensures
        s@ == a@ + b@ + c@,
{
    let mut s = String::from_str(a);
    s.append(b);
    s.append(c);
    s
}

fn prefixed(a: &str, b: &str) -> (s: String)
    ensures
        s@ == a@ + b@,
{
    let mut s = String::from_str(a);
    s.append(b);
    s
}

/// The error a window-manager refusal is answered with.
pub fn manager_error(error: WindowManagerError) -> (r: ResponseError)
    ensures
        (r.code, r.message@) == manager_error_answer(error),
{
    let (code, message) = match error {
        WindowManagerError::Core(c) => match c {
            WindowCoreError::Validation(m) => (ErrorCode::ValidationFailed, m),
            WindowCoreError::TargetNotFound(t) => (
                ErrorCode::TargetNotFound,
                joined("target '", t.as_str(), "' was not found"),
            ),
            WindowCoreError::TargetAmbiguous(t) => (
                ErrorCode::TargetAmbiguous,
                joined("target '", t.as_str(), "' matches multiple active windows"),
            ),
            WindowCoreError::CapacityExhausted => (
                ErrorCode::WindowOperationFailed,
                String::from_str("window capacity exhausted"),
            ),
            WindowCoreError::State(m) => (ErrorCode::WindowOperationFailed, m),
            WindowCoreError::Operation(m) => (ErrorCode::WindowOperationFailed, m),
        },
        WindowManagerError::Workspace(w) => match w {
            WorkspaceError::InvalidWorkspace(t) => (
                ErrorCode::InvalidWorkspace,
                joined("workspace target '", t.as_str(), "' is invalid"),
            ),
            WorkspaceError::DisplayUnavailable(m) => (
                ErrorCode::DisplayUnavailable,
                prefixed("X11 display is unavailable: ", m.as_str()),
            ),
            WorkspaceError::Operation(m) => (ErrorCode::WindowOperationFailed, m),
        },
        WindowManagerError::Persistence(p) => match p {
            PersistenceError::Validation(m) => (ErrorCode::ValidationFailed, m),
            PersistenceError::Storage(m) => (ErrorCode::PersistenceFailed, m),
            PersistenceError::WorkerUnavailable => (
                ErrorCode::PersistenceFailed,
                String::from_str("persistence service worker is unavailable"),
            ),
        },
        WindowManagerError::MediaAdmission(m) => match m {
            MediaAdmissionError::Validation(x) => (ErrorCode::ValidationFailed, x),
            MediaAdmissionError::Io(x) => (ErrorCode::MediaFailed, x),
        },
        WindowManagerError::Media(m) => (ErrorCode::MediaFailed, m),
        WindowManagerError::WebVideo(v) => (
            ErrorCode::WebVideoFailed,
            match v {
                WebVideoError::Validation(m) => prefixed("web-video validation failed: ", m.as_str()),
                WebVideoError::Service(m) => prefixed("web-video service failed: ", m.as_str()),
                WebVideoError::Control(m) => prefixed("web-video control failed: ", m.as_str()),
            },
        ),
        WindowManagerError::WebProfile(p) => (
            ErrorCode::Internal,
            match p {
                WebProfileError::Validation(m) => prefixed("web profile validation failed: ", m.as_str()),
                WebProfileError::Storage(m) => prefixed("web profile storage operation failed: ", m.as_str()),
            },
        ),
        WindowManagerError::Screenshot(m) => (ErrorCode::ScreenshotFailed, m),
        WindowManagerError::Operation(m) => (ErrorCode::WindowOperationFailed, m),
    };
    ResponseError { code, message }
}

/// How a window-manager refusal reads as text.
pub open spec fn manager_error_text(e: WindowManagerError) -> Seq<char> {
    match e {
        WindowManagerError::Core(c) => match c {
            WindowCoreError::Validation(m) => "validation error: "@ + m@,
            WindowCoreError::TargetNotFound(t) => "target not found: "@ + t@,
            WindowCoreError::TargetAmbiguous(t) => "target ambiguous: "@ + t@,
            WindowCoreError::CapacityExhausted => "window capacity exhausted"@,
            WindowCoreError::State(m) => "window state error: "@ + m@,
            WindowCoreError::Operation(m) => "window operation failed: "@ + m@,
        },
        WindowManagerError::Workspace(w) => match w {
            WorkspaceError::InvalidWorkspace(t) => "workspace target '"@ + t@ + "' is invalid"@,
            WorkspaceError::DisplayUnavailable(m) => "display is unavailable: "@ + m@,
            WorkspaceError::Operation(m) => "workspace operation failed: "@ + m@,
        },
        WindowManagerError::Persistence(p) => match p {
            PersistenceError::Validation(m) => "persistence validation failed: "@ + m@,
            PersistenceError::Storage(m) => "persistence storage failed: "@ + m@,
            PersistenceError::WorkerUnavailable => "persistence worker is unavailable"@,
        },
        WindowManagerError::MediaAdmission(m) => match m {
            MediaAdmissionError::Validation(x) => "local media validation failed: "@ + x@,
            MediaAdmissionError::Io(x) => "local media I/O failed: "@ + x@,
        },
        WindowManagerError::WebVideo(v) => web_video_error_text(v),
        WindowManagerError::WebProfile(p) => web_profile_error_text(p),
        WindowManagerError::Media(m) => "media control failed: "@ + m@,
        WindowManagerError::Screenshot(m) => "screenshot failed: "@ + m@,
        WindowManagerError::Operation(m) => "window operation failed: "@ + m@,
    }
}

/// Renders a window-manager refusal as text.
pub fn manager_error_message(error: WindowManagerError) -> (m: String)
    ensures
        m@ == manager_error_text(error),
{
    match error {
        WindowManagerError::Core(c) => match c {
            WindowCoreError::Validation(m) => prefixed("validation error: ", m.as_str()),
            WindowCoreError::TargetNotFound(t) => prefixed("target not found: ", t.as_str()),
            WindowCoreError::TargetAmbiguous(t) => prefixed("target ambiguous: ", t.as_str()),
            WindowCoreError::CapacityExhausted => String::from_str("window capacity exhausted"),
            WindowCoreError::State(m) => prefixed("window state error: ", m.as_str()),
            WindowCoreError::Operation(m) => prefixed("window operation failed: ", m.as_str()),
        },
        WindowManagerError::Workspace(w) => match w {
            WorkspaceError::InvalidWorkspace(t) => joined("workspace target '", t.as_str(), "' is invalid"),
            WorkspaceError::DisplayUnavailable(m) => prefixed("display is unavailable: ", m.as_str()),
            WorkspaceError::Operation(m) => prefixed("workspace operation failed: ", m.as_str()),
        },
        WindowManagerError::Persistence(p) => match p {
            PersistenceError::Validation(m) => prefixed("persistence validation failed: ", m.as_str()),
            PersistenceError::Storage(m) => prefixed("persistence storage failed: ", m.as_str()),
            PersistenceError::WorkerUnavailable => String::from_str("persistence worker is unavailable"),
        },
        WindowManagerError::MediaAdmission(m) => match m {
            MediaAdmissionError::Validation(x) => prefixed("local media validation failed: ", x.as_str()),
            MediaAdmissionError::Io(x) => prefixed("local media I/O failed: ", x.as_str()),
        },
        WindowManagerError::WebVideo(v) => match v {
            WebVideoError::Validation(m) => prefixed("web-video validation failed: ", m.as_str()),
            WebVideoError::Service(m) => prefixed("web-video service failed: ", m.as_str()),
            WebVideoError::Control(m) => prefixed("web-video control failed: ", m.as_str()),
        },
        WindowManagerError::WebProfile(p) => match p {
            WebProfileError::Validation(m) => prefixed("web profile validation failed: ", m.as_str()),
            WebProfileError::Storage(m) => prefixed("web profile storage operation failed: ", m.as_str()),
        },
        WindowManagerError::Media(m) => prefixed("media control failed: ", m.as_str()),
        WindowManagerError::Screenshot(m) => prefixed("screenshot failed: ", m.as_str()),
        WindowManagerError::Operation(m) => prefixed("window operation failed: ", m.as_str()),
    }
}

/// An interaction's follow-up failure message, cut to `MAX_LOAD_ERROR_CHARS` characters.
pub fn bounded_interaction_message(error: String) -> (m: String)
    ensures
        m@ == clip(error@, MAX_LOAD_ERROR_CHARS as nat),
{
    truncate_chars(error, MAX_LOAD_ERROR_CHARS)
}

/// How a failure of the status, console or screenshot step that follows an interaction
/// is reported: its kind and the refusal's text, cut to `MAX_LOAD_ERROR_CHARS` characters.
pub fn interaction_post_error(code: InteractionPostErrorCode, error: WindowManagerError) -> (e: InteractionPostError)
    ensures
        e.code == code,
        e.message@ == clip(manager_error_text(error), MAX_LOAD_ERROR_CHARS as nat),
{
    let message = manager_error_message(error);
    InteractionPostError { code, message: truncate_chars(message, MAX_LOAD_ERROR_CHARS) }
}

/// The URL an authenticated-session command that names a window is judged by: the
/// window's current URL, else the URL it was opened with.
pub open spec fn window_auth_url(w: ActiveWindow) -> Seq<char> {
    match w.current_url {
        Some(u) => u@,
        None => w.requested_source@,
    }
}

/// The web domain a window stands for in an authenticated-session command: the validated
/// host of its URL, or the refusal that is answered instead.
pub open spec fn window_domain_outcome(w: ActiveWindow) -> Result<AuthTargetView, (ErrorCode, Seq<char>)> {
    let url = window_auth_url(w);
    if !url_parses(url) || url_host_str(url) is None {
        Err((ErrorCode::ValidationFailed, "authenticated-session window target has no usable web domain"@))
    } else {
        match domain_outcome(url_host_str(url)->0) {
            Ok(t) => Ok(t),
            Err(e) => Err((ErrorCode::ValidationFailed, domain_error_text(e))),
        }
    }
}

/// Resolves the web domain of a window named by an authenticated-session command.
pub fn window_auth_domain(w: &ActiveWindow) -> (r: Result<ValidatedAuthTarget, ResponseError>)
    ensures
        match r {
            Ok(t) => window_domain_outcome(*w) == Ok::<AuthTargetView, (ErrorCode, Seq<char>)>(t@),
            Err(e) => window_domain_outcome(*w) == Err::<AuthTargetView, (ErrorCode, Seq<char>)>((e.code, e.message@)),
        },
{
    let url = match &w.current_url {
        Some(u) => u.as_str(),
        None => w.requested_source.as_str(),
    };
    let host = match WebUrl::parse(url) {
        Some(parsed) => parsed.host_str(),
        None => None,
    };
    let host = match host {
        Some(h) => h,
        None => {
            return Err(ResponseError {
                code: ErrorCode::ValidationFailed,
                message: String::from_str("authenticated-session window target has no usable web domain"),
            });
        },
    };
    match validate_domain(host.as_str()) {
        Ok(t) => Ok(t),
        Err(e) => Err(ResponseError { code: ErrorCode::ValidationFailed, message: String::from_str(e.message()) }),
    }
}

/// Whether an authenticated-session command is judged by the web domain of the window
/// it names: a request or a status query for a window target.
pub open spec fn needs_window_domain(action: AuthSessionAction) -> bool {
    ||| action matches AuthSessionAction::Request { target: AuthSessionTarget::Window { .. }, .. }
    ||| action matches AuthSessionAction::Status { target: AuthSessionTarget::Window { .. } }
    ||| action matches AuthSessionAction::Revoke { target: AuthSessionTarget::Window { .. } }
}

/// The window whose web domain an authenticated-session command is judged by, if any.
pub fn window_for_domain(action: &AuthSessionAction) -> (r: Option<&String>)
    ensures
        r is Some <==> needs_window_domain(*action),
        match r {
            Some(w) => match *action {
                AuthSessionAction::Request { target, .. } => target == (AuthSessionTarget::Window { window_session_id: *w }),
                AuthSessionAction::Status { target } => target == (AuthSessionTarget::Window { window_session_id: *w }),
                AuthSessionAction::Revoke { target } => target == (AuthSessionTarget::Window { window_session_id: *w }),
                _ => false,
            },
            None => true,
        },
{
    match action {
        AuthSessionAction::Request { target: AuthSessionTarget::Window { window_session_id }, .. } => Some(window_session_id),
        AuthSessionAction::Status { target: AuthSessionTarget::Window { window_session_id } } => Some(window_session_id),
        AuthSessionAction::Revoke { target: AuthSessionTarget::Window { window_session_id } } => Some(window_session_id),
        _ => None,
    }
}

/// The grant an apply command uses: the validated domain, or the exact window, that the
/// command's target names; a refused command is answered with its validation message.
pub open spec fn apply_target_outcome(action: AuthSessionAction) -> Option<Result<TargetView, (ErrorCode, Seq<char>)>> {
    if !(action is Apply) {
        None
    } else {
        Some(match action_outcome(action) {
            Err(e) => Err((ErrorCode::ValidationFailed, domain_error_text(e))),
            Ok(ValidatedRequestView::Apply { target, target_window_session_id, .. }) => match (target, target_window_session_id) {
                (Some(t), None) => Ok(TargetView::Domain(t.requested_domain)),
                (None, Some(w)) => Ok(TargetView::Window(w)),
                _ => Err((ErrorCode::ValidationFailed, "invalid authenticated-session apply target"@)),
            },
            Ok(_) => Err((ErrorCode::ValidationFailed, "invalid authenticated-session apply action"@)),
        })
    }
}

/// Resolves the grant an apply command uses; `None` for other commands.
pub fn apply_grant_target(action: &AuthSessionAction) -> (r: Option<Result<AuthGrantTarget, ResponseError>>)
    ensures
        match r {
            None => apply_target_outcome(*action) is None,
            Some(Ok(t)) => apply_target_outcome(*action) == Some(Ok::<TargetView, (ErrorCode, Seq<char>)>(t@)),
            Some(Err(e)) => apply_target_outcome(*action) == Some(Err::<TargetView, (ErrorCode, Seq<char>)>((e.code, e.message@))),
        },
{
    if !matches!(action, AuthSessionAction::Apply { .. }) {
        return None;
    }
    let answer = match validate_action(action) {
        Err(e) => Err(ResponseError { code: ErrorCode::ValidationFailed, message: String::from_str(e.message()) }),
        Ok(ValidatedAuthRequest::Apply { target, target_window_session_id, .. }) => match (target, target_window_session_id) {
            (Some(t), None) => Ok(AuthGrantTarget::Domain(String::from_str(t.requested_domain()))),
            (None, Some(w)) => Ok(AuthGrantTarget::Window(w)),
            _ => Err(ResponseError {
                code: ErrorCode::ValidationFailed,
                message: String::from_str("invalid authenticated-session apply target"),
            }),
        },
        Ok(_) => Err(ResponseError {
            code: ErrorCode::ValidationFailed,
            message: String::from_str("invalid authenticated-session apply action"),
        }),
    };
    Some(answer)
}

/// The grant an authority answer is about, as the consent prompt and the cookie store
/// key it.
pub fn grant_target_of(target: &AuthSessionTarget) -> (g: AuthGrantTarget)
    ensures
        g@ == target@,
{
    match target {
        AuthSessionTarget::Window { window_session_id } => AuthGrantTarget::Window(window_session_id.clone()),
        AuthSessionTarget::Domain { domain } => AuthGrantTarget::Domain(domain.clone()),
    }
}

/// The daemon's commands that act on one target or on every window.
#[derive(Clone, Copy, Debug, PartialEq, Eq, Structural)]
pub enum DaemonSelecting {
    Console,
    Screenshot,
    Media,
    Tag,
    Resize,
    Close,
}

/// The windows a daemon command acts on.
#[derive(Clone, Debug, PartialEq, Eq)]
pub enum WindowSelection {
    All,
    Target(String),
}

/// The message that refuses a command given neither a target nor `--all`.
pub open spec fn missing_selection_message(command: DaemonSelecting) -> Seq<char> {
    match command {
        DaemonSelecting::Console => "console requires either target or --all"@,
        DaemonSelecting::Screenshot => "screenshot requires either target or --all"@,
        DaemonSelecting::Media => "media requires either target or --all"@,
        DaemonSelecting::Tag => "tag requires either target or --all"@,
        DaemonSelecting::Resize => "resize requires either target or --all"@,
        DaemonSelecting::Close => "close requires either target or --all"@,
    }
}

/// What the daemon acts on: `--all` selects every window, and wins over a target except
/// for `close`, which refuses both together; otherwise the target; with neither the
/// request is refused.
pub open spec fn selection_outcome(command: DaemonSelecting, target: Option<Seq<char>>, all: bool) -> Result<Option<Seq<char>>, Seq<char>> {
    if all {
        if command == DaemonSelecting::Close && target is Some {
            Err("close accepts either target or --all, not both"@)
        } else {
            Ok(None)
        }
    } else {
        match target {
            Some(t) => Ok(Some(t)),
            None => Err(missing_selection_message(command)),
        }
    }
}

/// Decides which windows a daemon command acts on; a refusal is a validation failure.
pub fn select_windows(command: DaemonSelecting, target: Option<String>, all: bool) -> (r: Result<WindowSelection, ResponseError>)
    ensures
        match r {
            Ok(WindowSelection::All) => selection_outcome(command, opt_view(target), all) == Ok::<Option<Seq<char>>, Seq<char>>(None),
            Ok(WindowSelection::Target(t)) => selection_outcome(command, opt_view(target), all) == Ok::<Option<Seq<char>>, Seq<char>>(Some(t@)),
            Err(e) => e.code == ErrorCode::ValidationFailed
                && selection_outcome(command, opt_view(target), all) == Err::<Option<Seq<char>>, Seq<char>>(e.message@),
        },
{
    if all {
        if command == DaemonSelecting::Close && target.is_some() {
            return Err(ResponseError {
                code: ErrorCode::ValidationFailed,
                message: String::from_str("close accepts either target or --all, not both"),
            });
        }
        return Ok(WindowSelection::All);
    }
    match target {
        Some(t) => Ok(WindowSelection::Target(t)),
        None => {
            let m = match command {
                DaemonSelecting::Console => "console requires either target or --all",
                DaemonSelecting::Screenshot => "screenshot requires either target or --all",
                DaemonSelecting::Media => "media requires either target or --all",
                DaemonSelecting::Tag => "tag requires either target or --all",
                DaemonSelecting::Resize => "resize requires either target or --all",
                DaemonSelecting::Close => "close requires either target or --all",
            };
            Err(ResponseError { code: ErrorCode::ValidationFailed, message: String::from_str(m) })
        },
    }
}

} // verus!
