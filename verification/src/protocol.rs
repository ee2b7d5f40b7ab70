//! Values exchanged between the command-line client and the window daemon, with the
//! limits every validator shares and the framing of a payload on the wire.
use vstd::prelude::*;

verus! {

pub const PROTOCOL_VERSION: u16 = 7;
pub const MAX_FRAME_BYTES: usize = 65536;
pub const MAX_DESCRIPTION_CHARS: usize = 256;
pub const MAX_TITLE_CHARS: usize = 1024;
pub const MAX_URL_CHARS: usize = 4096;
pub const MAX_SOURCE_BYTES: usize = 4096;
pub const MAX_HISTORY_QUERY_CHARS: usize = 512;
pub const MAX_RETENTION_DAYS: u32 = 3650;
pub const MAX_PROFILE_NAME_CHARS: usize = 64;
pub const MAX_OPEN_BATCH_WINDOWS: usize = 32;
pub const DEFAULT_INTERACTION_TIMEOUT_MS: u64 = 4000;
pub const MIN_INTERACTION_TIMEOUT_MS: u64 = 100;
pub const MAX_INTERACTION_TIMEOUT_MS: u64 = 60000;
pub const MAX_INTERACTION_ACTIONS: usize = 32;
pub const MAX_INTERACTION_SELECTOR_CHARS: usize = 512;
pub const MAX_INTERACTION_VALUE_CHARS: usize = 4096;
pub const MAX_INTERACTION_TEXT_CHARS: usize = 1024;
pub const MAX_INTERACTION_KEY_CHARS: usize = 64;
pub const MAX_INTERACTION_POST_ERRORS: usize = 8;
pub const MAX_CONSOLE_ENTRIES: usize = 50;
pub const MAX_CONSOLE_MESSAGE_CHARS: usize = 4096;
pub const MAX_CONSOLE_SOURCE_CHARS: usize = 1024;
pub const MAX_LOAD_ERROR_CHARS: usize = 1024;
pub const MAX_URL_HISTORY_ENTRIES: usize = 128;
pub const MAX_URL_HISTORY_BYTES: usize = 32768;
pub const MAX_WORKSPACE_HISTORY_ENTRIES: usize = 128;
pub const MAX_STATUS_CONSOLE_BYTES: usize = 16384;
pub const MAX_HISTORY_RESULT_BYTES: usize = 49152;
pub const MAX_INTERACTION_RESULT_BYTES: usize = 49152;

#[derive(Clone, Copy, Debug, PartialEq, Eq, Structural)]
pub enum SourceKind {
    Web,
    LocalMedia,
}

#[derive(Clone, Copy, Debug, PartialEq, Eq, Structural)]
pub enum ContentKind {
    Web,
    Image,
    Video,
    Audio,
}

#[derive(Clone, Copy, Debug, PartialEq, Eq, Structural)]
pub enum LoadState {
    Started,
    Loaded,
    Failed,
}

#[derive(Clone, Copy, Debug, PartialEq, Eq, Structural)]
pub enum CloseReason {
    Explicit,
    Destroyed,
    AbruptTermination,
}

#[derive(Clone, Debug, PartialEq, Eq)]
pub struct ConsoleEntry {
    pub level: ConsoleLevel,
    pub message: String,
    pub source: Option<String>,
    pub line: Option<u32>,
}

#[derive(Clone, Copy, Debug, PartialEq, Eq, Structural)]
pub enum ConsoleLevel {
    Debug,
    Log,
    Info,
    Warn,
    Error,
}

#[derive(Clone, Copy, Debug, PartialEq, Eq, Structural)]
pub enum WindowStateAction {
    Maximize,
    Minimize,
    Restore,
    Fullscreen,
}

#[derive(Clone, Debug, PartialEq, Eq)]
pub enum WorkspaceTarget {
    Index { index: u32 },
    Name { name: String },
}

#[derive(Clone, Debug, PartialEq, Eq)]
pub struct WorkspaceInfo {
    pub index: u32,
    pub name: String,
    pub is_current: bool,
}

#[derive(Clone, Copy, Debug, PartialEq, Eq, Structural)]
pub enum ConfigAction {
    Show,
    SetHistoryEnabled { enabled: bool },
    SetRetentionDays { days: Option<u32> },
}

#[derive(Clone, Copy, Debug, PartialEq, Eq, Structural)]
pub struct Configuration {
    pub history_enabled: bool,
    pub retention_days: Option<u32>,
}

#[derive(Clone, Copy, Debug, PartialEq, Eq, Structural)]
pub enum BrowserKind {
    Firefox,
    Chromium,
    Chrome,
    Brave,
}

#[derive(Clone, Copy, Debug, PartialEq, Eq, Structural)]
pub enum AuthSessionScope {
    Once,
    Session,
    Remembered,
}

#[derive(Clone, Copy, Debug, PartialEq, Eq, Structural)]
pub enum AuthSessionDecision {
    Pending,
    Authorized,
    Denied,
    Revoked,
}

/// The abstract value of a target that names either a web domain or one window.
pub enum TargetView {
    Domain(Seq<char>),
    Window(Seq<char>),
}

#[derive(Clone, Debug, PartialEq, Eq)]
pub enum AuthSessionTarget {
    Domain { domain: String },
    Window { window_session_id: String },
}

impl View for AuthSessionTarget {
    type V = TargetView;

    open spec fn view(&self) -> TargetView {
        match self {
            AuthSessionTarget::Domain { domain } => TargetView::Domain(domain@),
            AuthSessionTarget::Window { window_session_id } => TargetView::Window(
                window_session_id@,
            ),
        }
    }
}

#[derive(Clone, Debug, PartialEq, Eq)]
pub enum AuthSessionAction {
    Request {
        target: AuthSessionTarget,
        browser: BrowserKind,
        scope: AuthSessionScope,
        reason: Option<String>,
        presentation_window_session_id: Option<String>,
    },
    Status { target: AuthSessionTarget },
    Apply { target: AuthSessionTarget, window_session_id: String },
    Revoke { target: AuthSessionTarget },
}

/// The scope an authenticated-session request gets when it names none.
pub fn default_auth_scope() -> (s: AuthSessionScope)
    ensures
        s == AuthSessionScope::Session,
{
    AuthSessionScope::Session
}

#[derive(Clone, Debug, PartialEq, Eq)]
pub struct AuthSessionState {
    pub target: AuthSessionTarget,
    pub canonical_domain: String,
    pub browser: BrowserKind,
    pub scope: AuthSessionScope,
    pub decision: AuthSessionDecision,
    pub available: bool,
    pub applied: bool,
    pub reason: Option<String>,
}

#[derive(Clone, Debug, PartialEq, Eq)]
pub struct AuthSessionResult {
    pub state: AuthSessionState,
}

/// The abstract value of a reported authenticated-session state.
pub struct AuthStateView {
    pub target: TargetView,
    pub canonical_domain: Seq<char>,
    pub browser: BrowserKind,
    pub scope: AuthSessionScope,
    pub decision: AuthSessionDecision,
    pub available: bool,
    pub applied: bool,
    pub reason: Option<Seq<char>>,
}

impl View for AuthSessionState {
    type V = AuthStateView;

    open spec fn view(&self) -> AuthStateView {
        AuthStateView {
            target: self.target@,
            canonical_domain: self.canonical_domain@,
            browser: self.browser,
            scope: self.scope,
            decision: self.decision,
            available: self.available,
            applied: self.applied,
            reason: match self.reason {
                Some(r) => Some(r@),
                None => None,
            },
        }
    }
}

impl View for AuthSessionResult {
    type V = AuthStateView;

    open spec fn view(&self) -> AuthStateView {
        self.state@
    }
}

#[derive(Clone, Debug, PartialEq, Eq)]
pub enum OpenSource {
    Web { url: String },
    LocalMedia { path: String },
}

#[derive(Clone, Debug, PartialEq, Eq)]
pub struct OpenResult {
    pub window_session_id: String,
}

#[derive(Clone, Debug, PartialEq, Eq)]
pub struct WindowGeometrySpec {
    pub width: Option<u32>,
    pub height: Option<u32>,
    pub x: Option<i32>,
    pub y: Option<i32>,
    pub state: Option<WindowStateAction>,
    pub always_on_top: Option<bool>,
    pub workspace: Option<WorkspaceTarget>,
}

#[derive(Clone, Debug, PartialEq, Eq)]
pub struct ApplyResult {
    pub created: Vec<String>,
    pub updated: Vec<String>,
    pub closed: Vec<String>,
    pub unchanged: Vec<String>,
}

#[derive(Clone, Copy, Debug, PartialEq, Eq, Structural)]
pub enum InteractionActionKind {
    Click,
    Fill,
    PressKey,
    WaitForSelector,
    WaitForText,
    CheckSelector,
    CheckText,
}

#[derive(Clone, Debug, PartialEq, Eq)]
#[allow(inconsistent_fields)]
pub enum InteractionAction {
    Click { selector: String },
    Fill { selector: String, value: String },
    PressKey { key: String, selector: Option<String> },
    WaitForSelector { selector: String },
    WaitForText { text: String, selector: Option<String> },
    CheckSelector { selector: String },
    CheckText { text: String, selector: Option<String> },
}

#[derive(Clone, Copy, Debug, PartialEq, Eq, Structural)]
pub enum InteractionStepCode {
    Succeeded,
    SelectorNotFound,
    SelectorAmbiguous,
    SelectorNotInteractable,
    TextNotFound,
    Timeout,
    ScriptError,
    Cancelled,
}

#[derive(Clone, Debug, PartialEq, Eq)]
pub struct InteractionStepResult {
    pub index: usize,
    pub kind: InteractionActionKind,
    pub selector: Option<String>,
    pub ok: bool,
    pub code: InteractionStepCode,
    pub message: Option<String>,
    pub elapsed_ms: u64,
}

#[derive(Clone, Debug, PartialEq, Eq)]
pub struct InteractionScreenshot {
    pub out: String,
    pub overwrite: bool,
}

#[derive(Clone, Copy, Debug, PartialEq, Eq, Structural)]
pub enum InteractionPostErrorCode {
    StatusFailed,
    ConsoleFailed,
    ScreenshotFailed,
}

#[derive(Clone, Debug, PartialEq, Eq)]
pub struct InteractionPostError {
    pub code: InteractionPostErrorCode,
    pub message: String,
}

#[derive(Clone, Debug, PartialEq, Eq)]
pub struct HistoricalWindow {
    pub historical_id: String,
    pub window_session_id: String,
    pub source_kind: SourceKind,
    pub content_kind: ContentKind,
    pub requested_source: String,
    pub title: String,
    pub rendered_url: Option<String>,
    pub final_url: Option<String>,
    pub url_history: Vec<String>,
    pub url_history_truncated: bool,
    pub description: Option<String>,
    pub workspace: Option<u32>,
    pub is_on_all_workspaces: bool,
    pub workspace_history: Vec<u32>,
    pub workspace_history_truncated: bool,
    pub opened_at: String,
    pub closed_at: String,
    pub close_reason: CloseReason,
}

#[derive(Clone, Debug, PartialEq, Eq)]
pub struct HistoryResult {
    pub entries: Vec<HistoricalWindow>,
    pub truncated: bool,
}

#[derive(Clone, Copy, Debug, PartialEq, Eq, Structural)]
pub struct ClearHistoryResult {
    pub deleted: u64,
}

#[derive(Clone, Debug, PartialEq, Eq)]
pub struct ConsoleResult {
    pub window_session_id: String,
    pub entries: Vec<ConsoleEntry>,
    pub truncated: bool,
}

#[derive(Clone, Debug, PartialEq, Eq)]
pub struct ScreenshotResult {
    pub window_session_id: String,
    pub path: String,
    pub bytes: u64,
}

#[derive(Clone, Debug, PartialEq, Eq)]
pub struct ResponseError {
    pub code: ErrorCode,
    pub message: String,
}

#[derive(Clone, Copy, Debug, PartialEq, Eq, Structural)]
pub enum ErrorCode {
    ValidationFailed,
    VersionMismatch,
    DaemonUnavailable,
    InvalidResponse,
    Timeout,
    FrameTooLarge,
    DisplayUnavailable,
    InvalidWorkspace,
    PersistenceFailed,
    MediaFailed,
    WebVideoFailed,
    AuthSessionFailed,
    ScreenshotFailed,
    TargetAmbiguous,
    TargetNotFound,
    WindowOperationFailed,
    Internal,
}

/// The process exit status that reports each error code.
pub open spec fn exit_code_of(code: ErrorCode) -> i32 {
    match code {
        ErrorCode::ValidationFailed => 1,
        ErrorCode::VersionMismatch => 2,
        ErrorCode::DaemonUnavailable | ErrorCode::InvalidResponse => 3,
        ErrorCode::TargetAmbiguous | ErrorCode::TargetNotFound => 4,
        ErrorCode::Timeout => 5,
        ErrorCode::DisplayUnavailable | ErrorCode::MediaFailed | ErrorCode::WebVideoFailed
        | ErrorCode::AuthSessionFailed | ErrorCode::PersistenceFailed
        | ErrorCode::ScreenshotFailed | ErrorCode::WindowOperationFailed => 6,
        ErrorCode::FrameTooLarge | ErrorCode::InvalidWorkspace | ErrorCode::Internal => 7,
    }
}

impl ErrorCode {
    /// The stable, non-zero exit status for this error.
    pub fn exit_code(&self) -> (c: i32)
        ensures
            c == exit_code_of(*self),
            1 <= c <= 7,
    {
        match self {
            ErrorCode::ValidationFailed => 1,
            ErrorCode::VersionMismatch => 2,
            ErrorCode::DaemonUnavailable | ErrorCode::InvalidResponse => 3,
            ErrorCode::TargetAmbiguous | ErrorCode::TargetNotFound => 4,
            ErrorCode::Timeout => 5,
            ErrorCode::DisplayUnavailable | ErrorCode::MediaFailed | ErrorCode::WebVideoFailed
            | ErrorCode::AuthSessionFailed | ErrorCode::PersistenceFailed
            | ErrorCode::ScreenshotFailed | ErrorCode::WindowOperationFailed => 6,
            ErrorCode::FrameTooLarge | ErrorCode::InvalidWorkspace | ErrorCode::Internal => 7,
        }
    }
}

/// The message that refuses a daemon answer in another protocol version.
pub open spec fn version_mismatch_message(version: u16) -> Seq<char> {
    "daemon response uses protocol version "@ + crate::text::decimal(version as nat)
        + "; expected "@ + crate::text::decimal(PROTOCOL_VERSION as nat)
}

/// Accepts a daemon answer only in this protocol version.
pub fn check_response_version(version: u16) -> (r: Result<(), ResponseError>)
    ensures
        r is Ok <==> version == PROTOCOL_VERSION,
        r matches Err(e) ==> e.code == ErrorCode::VersionMismatch
            && e.message@ == version_mismatch_message(version),
{
    if version == PROTOCOL_VERSION {
        return Ok(());
    }
    proof {
        reveal_strlit("daemon response uses protocol version ");
        reveal_strlit("; expected ");
    }
    let mut message = String::from_str("daemon response uses protocol version ");
    let shown = crate::text::u64_to_decimal(version as u64);
    message.append(shown.as_str());
    message.append("; expected ");
    let expected = crate::text::u64_to_decimal(PROTOCOL_VERSION as u64);
    message.append(expected.as_str());
    Err(ResponseError { code: ErrorCode::VersionMismatch, message })
}

/// Whether a failed step of an interaction ran out of time.
pub open spec fn has_timed_out_step(steps: Seq<InteractionStepResult>) -> bool {
    exists|i: int| 0 <= i < steps.len() && !(#[trigger] steps[i]).ok
        && steps[i].code == InteractionStepCode::Timeout
}

/// The exit status of an answered interaction: a completed run keeps the status of
/// its answer; one that stopped early exits 5 when a failed step timed out, else 6.
pub open spec fn interaction_exit_status(completed: bool, steps: Seq<InteractionStepResult>, answered: i32) -> i32 {
    if completed {
        answered
    } else if has_timed_out_step(steps) {
        5
    } else {
        6
    }
}

/// Computes `interaction_exit_status` for the steps a daemon reported.
pub fn interaction_exit_code(completed: bool, steps: &[InteractionStepResult], answered: i32) -> (c: i32)
    ensures
        c == interaction_exit_status(completed, steps@, answered),
{
    if completed {
        return answered;
    }
    let mut i: usize = 0;
    while i < steps.len()
        invariant
            !completed,
            i <= steps@.len(),
            forall|j: int| 0 <= j < i ==> !(!(#[trigger] steps@[j]).ok && steps@[j].code == InteractionStepCode::Timeout),
        decreases steps.len() - i,
    {
        if !steps[i].ok && steps[i].code == InteractionStepCode::Timeout {
            assert(has_timed_out_step(steps@));
            return 5;
        }
        i += 1;
    }
    6
}

/// The interaction timeout a request gets when it names none.
pub fn default_interaction_timeout_ms() -> (t: u64)
    ensures
        t == DEFAULT_INTERACTION_TIMEOUT_MS,
{
    DEFAULT_INTERACTION_TIMEOUT_MS
}

#[derive(Debug)]
pub enum FrameError {
    TooLarge { actual: usize, maximum: usize },
    InvalidJson(String),
}

/// A serialized payload followed by the newline that ends a frame.
pub open spec fn framed(payload: Seq<u8>) -> Seq<u8> {
    payload.push(10u8)
}

/// Turns a serialized payload into a frame: appends the terminating newline and
/// refuses a frame longer than `MAX_FRAME_BYTES`.
pub fn frame_payload(payload: Vec<u8>) -> (r: Result<Vec<u8>, FrameError>)
    ensures
        match r {
            Ok(frame) => frame@ == framed(payload@) && frame@.len() <= MAX_FRAME_BYTES,
            Err(FrameError::TooLarge { actual, maximum }) => actual == payload@.len() + 1
                && maximum == MAX_FRAME_BYTES && payload@.len() + 1 > MAX_FRAME_BYTES,
            Err(FrameError::InvalidJson(_)) => false,
        },
{
    let mut encoded = payload;
    encoded.push(10u8);
    if encoded.len() > MAX_FRAME_BYTES {
        return Err(FrameError::TooLarge { actual: encoded.len(), maximum: MAX_FRAME_BYTES });
    }
    Ok(encoded)
}

/// The payload a received frame carries: a frame longer than `MAX_FRAME_BYTES` is
/// refused, and one trailing newline, if present, is dropped.
pub fn frame_body(bytes: &[u8]) -> (r: Result<Vec<u8>, FrameError>)
    ensures
        match r {
            Ok(body) => bytes@.len() <= MAX_FRAME_BYTES && if bytes@.len() > 0
                && bytes@.last() == 10u8 {
                body@ == bytes@.drop_last()
            } else {
                body@ == bytes@
            },
            Err(FrameError::TooLarge { actual, maximum }) => actual == bytes@.len() && maximum
                == MAX_FRAME_BYTES && bytes@.len() > MAX_FRAME_BYTES,
            Err(FrameError::InvalidJson(_)) => false,
        },
{
    if bytes.len() > MAX_FRAME_BYTES {
        return Err(FrameError::TooLarge { actual: bytes.len(), maximum: MAX_FRAME_BYTES });
    }
    let end = if bytes.len() > 0 && bytes[bytes.len() - 1] == 10u8 {
        bytes.len() - 1
    } else {
        bytes.len()
    };
    let mut body: Vec<u8> = Vec::new();
    let mut i: usize = 0;
    while i < end
        invariant
            end <= bytes@.len(),
            i <= end,
            body@ == bytes@.subrange(0, i as int),
        decreases end - i,
    {
        body.push(bytes[i]);
        assert(bytes@.subrange(0, i + 1) =~= bytes@.subrange(0, i as int).push(bytes@[i as int]));
        i += 1;
    }
    assert(bytes@.drop_last() =~= bytes@.subrange(0, bytes@.len() - 1));
    assert(bytes@.subrange(0, bytes@.len() as int) =~= bytes@);
    Ok(body)
}

/// Where a frame being read byte by byte stands.
#[derive(Clone, Copy, Debug, PartialEq, Eq, Structural)]
pub enum FrameProgress {
    /// The last byte read was the terminating newline.
    Complete,
    /// More than `MAX_FRAME_BYTES` bytes arrived without a newline.
    TooLong,
    /// The frame goes on.
    More,
}

/// Decides, after each byte read, whether a frame is complete, too long, or goes on.
pub fn frame_progress(frame: &[u8]) -> (p: FrameProgress)
    ensures
        p == (if frame@.len() > 0 && frame@.last() == 10u8 {
            FrameProgress::Complete
        } else if frame@.len() > MAX_FRAME_BYTES {
            FrameProgress::TooLong
        } else {
            FrameProgress::More
        }),
{
    if frame.len() > 0 && frame[frame.len() - 1] == 10u8 {
        FrameProgress::Complete
    } else if frame.len() > MAX_FRAME_BYTES {
        FrameProgress::TooLong
    } else {
        FrameProgress::More
    }
}

/// A payload that fits survives framing and unframing unchanged.
pub proof fn lemma_frame_round_trip(payload: Seq<u8>)
    ensures
        framed(payload).drop_last() == payload,
        framed(payload).len() == payload.len() + 1,
        framed(payload).last() == 10u8,
{
    assert(framed(payload).drop_last() =~= payload);
}

} // verus!
