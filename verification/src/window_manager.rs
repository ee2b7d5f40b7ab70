//! The errors of window management and of applying an authenticated session to a window.
use vstd::prelude::*;
use crate::authority::AuthAuthorityError;
use crate::broker::AuthBrokerError;
use crate::database::PersistenceError;
use crate::media::MediaAdmissionError;
use crate::web_profile::WebProfileError;
use crate::web_video::WebVideoError;
use crate::window_core::WindowCoreError;
use crate::workspace::WorkspaceError;
use crate::registry::{ActiveWindow, WindowRegistry, WindowView};
use crate::protocol::{ContentKind, SourceKind};
use crate::video_service::WebVideoRegistry;
use crate::window_core::{error_view, WindowErrorKind};

verus! {

/// Why a window-manager operation failed: a refusal of one of the parts it combines, or
/// a failure of the platform operation itself.
#[derive(Debug)]
pub enum WindowManagerError {
    Core(WindowCoreError),
    Workspace(WorkspaceError),
    Persistence(PersistenceError),
    MediaAdmission(MediaAdmissionError),
    WebVideo(WebVideoError),
    WebProfile(WebProfileError),
    Media(String),
    Screenshot(String),
    Operation(String),
}

/// What was applied to a window from an authenticated session: no cookie values.
#[derive(Clone, Debug, PartialEq, Eq)]
pub struct AppliedSessionMetadata {
    pub domain: String,
    pub window_session_id: String,
    pub cookie_count: usize,
}

/// Why applying or revoking an authenticated session in a web view failed.
#[derive(Debug)]
pub enum AuthWebKitError {
    Authority(AuthAuthorityError),
    Broker(AuthBrokerError),
    WindowManager(WindowManagerError),
    CookieOperation(String),
    CleanupPending,
}

/// A window may move to an authenticated profile of its own only when it is an ordinary
/// web page: web source, web content, and no managed video presented in it.
pub open spec fn profile_upgrade_allowed(w: WindowView, presents_video: bool) -> bool {
    w.source_kind == SourceKind::Web && w.content_kind == ContentKind::Web && !presents_video
}

/// Checks that a window may move to an authenticated profile of its own, and gives back
/// its report: an unknown window is not found; a media window or one that presents a
/// managed video is refused.
pub fn check_profile_upgrade(registry: &WindowRegistry, videos: &WebVideoRegistry, window_session_id: &str) -> (r: Result<ActiveWindow, WindowManagerError>)
    requires
        registry.wf(),
        videos.wf(),
    ensures
        match r {
            Ok(w) => registry@.contains_key(window_session_id@) && w@ == registry@[window_session_id@].0
                && profile_upgrade_allowed(w@, videos@.contains_key(window_session_id@)),
            Err(WindowManagerError::Core(e)) => !registry@.contains_key(window_session_id@)
                && error_view(e) == (WindowErrorKind::TargetNotFound, window_session_id@),
            Err(WindowManagerError::Operation(m)) => registry@.contains_key(window_session_id@)
                && !profile_upgrade_allowed(registry@[window_session_id@].0, videos@.contains_key(window_session_id@))
                && m@ == "ordinary authenticated profile upgrade does not accept managed YouTube windows"@,
            Err(_) => false,
        },
{
    let snapshot = match registry.status(window_session_id) {
        Ok(w) => w,
        Err(e) => return Err(WindowManagerError::Core(e)),
    };
    if snapshot.source_kind != SourceKind::Web
        || snapshot.content_kind != ContentKind::Web
        || videos.contains_window(window_session_id)
    {
        return Err(WindowManagerError::Operation(String::from_str(
            "ordinary authenticated profile upgrade does not accept managed YouTube windows",
        )));
    }
    Ok(snapshot)
}

} // verus!
