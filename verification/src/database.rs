//! Window history persistence: the rules for the history database's schema and stored
//! configuration, the timelines kept for open windows, and how stored rows are read back.
use vstd::prelude::*;
use crate::auth_domain::{opt_view, string_views};
use crate::protocol::{
    CloseReason, ConfigAction, Configuration, ContentKind, HistoricalWindow, SourceKind,
    MAX_HISTORY_QUERY_CHARS, MAX_RETENTION_DAYS, MAX_WORKSPACE_HISTORY_ENTRIES,
};
use crate::text::{chars_of, decimal, equals_str, has_infix, is_digit, lemma_decimal_reads_back, lemma_u64_text_value_of_decimal, parse_u64, trim, trim_str, u64_text_value, u64_to_decimal, contains_str};
use crate::window_core::{history_fits, total_utf8};
use crate::interaction::json_string_literal;

verus! {

pub const DATABASE_FILE_NAME: &'static str = "history.sqlite3";
pub const DATABASE_SCHEMA_VERSION: i64 = 3;
pub const DEFAULT_RETENTION_DAYS: u32 = 15;
pub const MAX_HISTORY_SCAN_ROWS: usize = 10000;
pub const SECONDS_PER_DAY: i64 = 86400;

#[derive(Debug, Clone, PartialEq, Eq)]
pub enum PersistenceError {
    Validation(String),
    Storage(String),
    WorkerUnavailable,
}

/// The kind and message of a persistence error.
pub open spec fn persistence_view(e: PersistenceError) -> (u8, Seq<char>) {
    match e {
        PersistenceError::Validation(m) => (0, m@),
        PersistenceError::Storage(m) => (1, m@),
        PersistenceError::WorkerUnavailable => (2, Seq::empty()),
    }
}

/// A validation error with the message.
pub open spec fn invalid(m: Seq<char>) -> (u8, Seq<char>) {
    (0, m)
}

/// A storage error with the message.
pub open spec fn storage(m: Seq<char>) -> (u8, Seq<char>) {
    (1, m)
}

/// What a history query validates to: absent is none; otherwise trimmed, non-blank, at
/// most `MAX_HISTORY_QUERY_CHARS` characters.
pub open spec fn history_query_outcome(q: Option<Seq<char>>) -> Result<Option<Seq<char>>, (u8, Seq<char>)> {
    match q {
        None => Ok(None),
        Some(s) => if trim(s).len() == 0 {
            Err(invalid("history query must not be blank"@))
        } else if trim(s).len() > MAX_HISTORY_QUERY_CHARS {
            Err(invalid("history query must be at most 512 characters"@))
        } else {
            Ok(Some(trim(s)))
        },
    }
}

/// Validates a history query.
pub fn validate_history_query(query: Option<String>) -> (r: Result<Option<String>, PersistenceError>)
    ensures
        match r {
            Ok(q) => history_query_outcome(opt_view(query)) == Ok::<Option<Seq<char>>, (u8, Seq<char>)>(opt_view(q)),
            Err(e) => history_query_outcome(opt_view(query)) == Err::<Option<Seq<char>>, (u8, Seq<char>)>(persistence_view(e)),
        },
{
    let q = match query {
        Some(q) => q,
        None => return Ok(None),
    };
    let t = trim_str(q.as_str());
    let n = t.as_str().unicode_len();
    if n == 0 {
        return Err(PersistenceError::Validation(String::from_str("history query must not be blank")));
    }
    if n > MAX_HISTORY_QUERY_CHARS {
        return Err(PersistenceError::Validation(String::from_str("history query must be at most 512 characters")));
    }
    Ok(Some(t))
}

/// A configuration action is acceptable unless it sets a retention outside
/// `1..=MAX_RETENTION_DAYS`.
pub open spec fn config_action_ok(a: ConfigAction) -> bool {
    match a {
        ConfigAction::SetRetentionDays { days: Some(d) } => 1 <= d <= MAX_RETENTION_DAYS,
        _ => true,
    }
}

/// Validates a configuration action.
pub fn validate_config_action(action: &ConfigAction) -> (r: Result<(), PersistenceError>)
    ensures
        r is Ok <==> config_action_ok(*action),
        r is Err ==> persistence_view(r->Err_0) == invalid("retention_days must be null or between 1 and 3650"@),
{
    match action {
        ConfigAction::SetRetentionDays { days: Some(days) } => {
            if !(1 <= *days && *days <= MAX_RETENTION_DAYS) {
                return Err(PersistenceError::Validation(String::from_str("retention_days must be null or between 1 and 3650")));
            }
            Ok(())
        },
        _ => Ok(()),
    }
}

/// The state of a database about to be used.
#[derive(Clone, Copy, Debug, PartialEq, Eq, Structural)]
pub enum DatabaseSchemaState {
    /// Unversioned and empty: the schema is to be created.
    Fresh,
    /// Already at the current schema version.
    Current,
}

/// What a database's `user_version`, and for version 0 whether it holds any table,
/// view or trigger of its own, say of it: empty and unversioned is fresh, the current
/// version is current, and anything else is refused without being touched.
pub open spec fn schema_outcome(version: i64, has_user_objects: bool) -> Result<DatabaseSchemaState, (u8, Seq<char>)> {
    if version == 0 && !has_user_objects {
        Ok(DatabaseSchemaState::Fresh)
    } else if version == 0 {
        Err(storage("database is unversioned and not empty; expected schema version 3"@))
    } else if version == DATABASE_SCHEMA_VERSION {
        Ok(DatabaseSchemaState::Current)
    } else {
        Err(storage("database schema version "@ + (if version < 0 { "-"@ + decimal((-(version as int)) as nat) } else { decimal(version as nat) }) + " is unsupported; expected version 3"@))
    }
}

fn i64_to_decimal(v: i64) -> (s: String)
    ensures
        s@ == if v < 0 { "-"@ + decimal((-(v as int)) as nat) } else { decimal(v as nat) },
{
    if v < 0 {
        let magnitude: u64 = if v == i64::MIN { 9223372036854775808u64 } else { (-v) as u64 };
        let mut s = String::from_str("-");
        s.append(u64_to_decimal(magnitude).as_str());
        s
    } else {
        u64_to_decimal(v as u64)
    }
}

/// Decides the schema state from the stored version and, for version 0, whether the
/// database holds objects of its own.
pub fn schema_state_for(version: i64, has_user_objects: bool) -> (r: Result<DatabaseSchemaState, PersistenceError>)
    ensures
        match r {
            Ok(s) => schema_outcome(version, has_user_objects) == Ok::<DatabaseSchemaState, (u8, Seq<char>)>(s),
            Err(e) => schema_outcome(version, has_user_objects) == Err::<DatabaseSchemaState, (u8, Seq<char>)>(persistence_view(e)),
        },
{
    if version == 0 && !has_user_objects {
        Ok(DatabaseSchemaState::Fresh)
    } else if version == 0 {
        Err(PersistenceError::Storage(String::from_str("database is unversioned and not empty; expected schema version 3")))
    } else if version == DATABASE_SCHEMA_VERSION {
        Ok(DatabaseSchemaState::Current)
    } else {
        let mut m = String::from_str("database schema version ");
        m.append(i64_to_decimal(version).as_str());
        m.append(" is unsupported; expected version 3");
        Err(PersistenceError::Storage(m))
    }
}

/// An open SQLite connection.
#[verifier::external_type_specification]
#[verifier::external_body]
pub struct ExConnection(rusqlite::Connection);

/// Reads the value of a pragma with `rusqlite::Connection::pragma_query_value` on the
/// main schema, taking the first column as an integer; a failure is rendered with
/// `to_string`. What the database holds is not known here, so nothing is stated of the
/// value.
#[verifier::external_body]
fn read_pragma_integer(conn: &rusqlite::Connection, pragma: &str) -> (r: Result<i64, String>) {
    conn.pragma_query_value(None, pragma, |row| row.get(0)).map_err(|error| error.to_string())
}

/// Runs a query with `rusqlite::Connection::query_row`, with no parameters, and takes the
/// first column of its first row as an integer; a failure is rendered with `to_string`.
/// What the database holds is not known here, so nothing is stated of the value.
#[verifier::external_body]
fn query_integer(conn: &rusqlite::Connection, sql: &str) -> (r: Result<i64, String>) {
    conn.query_row(sql, [], |row| row.get::<_, i64>(0)).map_err(|error| error.to_string())
}

/// The pragma that holds the schema version.
pub open spec fn version_pragma() -> Seq<char> {
    "user_version"@
}

/// The query that tells whether the database holds objects of its own: it yields 1 when
/// `sqlite_schema` lists a table, view or trigger whose name does not start with
/// `sqlite_`, and 0 otherwise.
pub open spec fn user_objects_query() -> Seq<char> {
    "SELECT EXISTS(SELECT 1 FROM sqlite_schema WHERE type IN ('table', 'view', 'trigger') AND name NOT LIKE 'sqlite_%')"@
}

fn version_pragma_text() -> (s: &'static str)
    ensures
        s@ == version_pragma(),
{
    "user_version"
}

fn user_objects_query_text() -> (s: &'static str)
    ensures
        s@ == user_objects_query(),
{
    "SELECT EXISTS(SELECT 1 FROM sqlite_schema WHERE type IN ('table', 'view', 'trigger') AND name NOT LIKE 'sqlite_%')"
}

/// Decides the schema state from what was read: the version, and for version 0 the
/// answer of `user_objects_query`, where a nonzero answer means the database holds
/// objects of its own.
pub fn schema_state_from_reads(version: i64, objects_answer: Option<i64>) -> (r: Result<DatabaseSchemaState, PersistenceError>)
    requires
        objects_answer is Some <==> version == 0,
    ensures
        match r {
            Ok(s) => schema_outcome(version, objects_answer matches Some(a) && a != 0)
                == Ok::<DatabaseSchemaState, (u8, Seq<char>)>(s),
            Err(e) => schema_outcome(version, objects_answer matches Some(a) && a != 0)
                == Err::<DatabaseSchemaState, (u8, Seq<char>)>(persistence_view(e)),
        },
{
    let has_objects = match objects_answer {
        Some(a) => a != 0,
        None => false,
    };
    schema_state_for(version, has_objects)
}

/// Inspects a database before use: reads its version (the pragma `version_pragma`) and,
/// only for version 0, runs `user_objects_query`, then decides as
/// `schema_state_from_reads` does. Reading changes nothing. What the database holds is
/// not known here: a state that comes back is one `schema_outcome` gives for some
/// version and object answer that could have been read, and every refusal, of a failed
/// read or of the values read, is a storage error.
pub fn inspect_database_schema(conn: &rusqlite::Connection) -> (r: Result<DatabaseSchemaState, PersistenceError>)
    ensures
        match r {
            Ok(s) => exists|v: i64, h: bool| (h ==> v == 0)
                && schema_outcome(v, h) == Ok::<DatabaseSchemaState, (u8, Seq<char>)>(s),
            Err(e) => e is Storage,
        },
{
    let version = match read_pragma_integer(conn, version_pragma_text()) {
        Ok(v) => v,
        Err(m) => return Err(PersistenceError::Storage(m)),
    };
    let answer = if version == 0 {
        match query_integer(conn, user_objects_query_text()) {
            Ok(a) => Some(a),
            Err(m) => return Err(PersistenceError::Storage(m)),
        }
    } else {
        None
    };
    let r = schema_state_from_reads(version, answer);
    proof {
        let h = answer matches Some(a) && a != 0;
        if r is Ok {
            assert(h ==> version == 0);
            assert(schema_outcome(version, h) == Ok::<DatabaseSchemaState, (u8, Seq<char>)>(r->Ok_0));
        }
    }
    r
}

/// What the stored configuration values mean: `history_enabled` is `true` or `false`;
/// `retention_days` is `null` or a number of days in `1..=MAX_RETENTION_DAYS`.
pub open spec fn stored_config_outcome(history_enabled: Seq<char>, retention_days: Seq<char>) -> Result<Configuration, (u8, Seq<char>)> {
    if !(history_enabled == "true"@ || history_enabled == "false"@) {
        Err(storage("stored history_enabled value is invalid"@))
    } else if retention_days == "null"@ {
        Ok(Configuration { history_enabled: history_enabled == "true"@, retention_days: None })
    } else {
        match u64_text_value(retention_days) {
            Some(d) => if d > u32::MAX {
                Err(storage("stored retention_days value is invalid"@))
            } else if !(1 <= d <= MAX_RETENTION_DAYS) {
                Err(storage("stored retention_days value is outside the supported range"@))
            } else {
                Ok(Configuration { history_enabled: history_enabled == "true"@, retention_days: Some(d as u32) })
            },
            None => Err(storage("stored retention_days value is invalid"@)),
        }
    }
}

/// The stored text of the history flag.
pub open spec fn stored_history_text(enabled: bool) -> Seq<char> {
    if enabled { "true"@ } else { "false"@ }
}

/// The stored text of a retention setting, as `retention_value` writes it.
pub open spec fn stored_retention_text(days: Option<u32>) -> Seq<char> {
    match days {
        Some(d) => decimal(d as nat),
        None => "null"@,
    }
}

/// A configuration the store accepts: no retention, or one in `1..=MAX_RETENTION_DAYS`.
pub open spec fn storable(config: Configuration) -> bool {
    match config.retention_days {
        Some(d) => 1 <= d <= MAX_RETENTION_DAYS,
        None => true,
    }
}

/// A stored configuration reads back as itself.
pub proof fn law_stored_configuration_reads_back(config: Configuration)
    requires
        storable(config),
    ensures
        stored_config_outcome(stored_history_text(config.history_enabled), stored_retention_text(config.retention_days))
            == Ok::<Configuration, (u8, Seq<char>)>(config),
{
    reveal_strlit("true");
    reveal_strlit("false");
    reveal_strlit("null");
    assert("false"@.len() != "true"@.len());
    assert((stored_history_text(config.history_enabled) == "true"@) == config.history_enabled);
    match config.retention_days {
        Some(d) => {
            lemma_decimal_reads_back(d as nat);
            lemma_u64_text_value_of_decimal(d as u64);
            assert(decimal(d as nat) != "null"@) by {
                assert(is_digit(decimal(d as nat)[0]));
                assert("null"@[0] == 'n');
            }
            let v = u64_text_value(decimal(d as nat));
            assert(v == Some(d as u64));
            assert(((d as u64) as u32) == d);
        },
        None => {},
    }
}

/// Reads the stored configuration values.
pub fn parse_stored_config(history_enabled: &str, retention_days: &str) -> (r: Result<Configuration, PersistenceError>)
    ensures
        match r {
            Ok(c) => stored_config_outcome(history_enabled@, retention_days@) == Ok::<Configuration, (u8, Seq<char>)>(c),
            Err(e) => stored_config_outcome(history_enabled@, retention_days@) == Err::<Configuration, (u8, Seq<char>)>(persistence_view(e)),
        },
{
    let h = chars_of(history_enabled);
    let enabled = if equals_str(&h, "true") {
        true
    } else if equals_str(&h, "false") {
        false
    } else {
        return Err(PersistenceError::Storage(String::from_str("stored history_enabled value is invalid")));
    };
    let r = chars_of(retention_days);
    if equals_str(&r, "null") {
        return Ok(Configuration { history_enabled: enabled, retention_days: None });
    }
    assert(r@.subrange(0, r@.len() as int) =~= r@);
    let days = match parse_u64(&r, 0, r.len()) {
        Some(d) => d,
        None => return Err(PersistenceError::Storage(String::from_str("stored retention_days value is invalid"))),
    };
    if days > 4294967295u64 {
        return Err(PersistenceError::Storage(String::from_str("stored retention_days value is invalid")));
    }
    if !(1 <= days && days <= MAX_RETENTION_DAYS as u64) {
        return Err(PersistenceError::Storage(String::from_str("stored retention_days value is outside the supported range")));
    }
    Ok(Configuration { history_enabled: enabled, retention_days: Some(days as u32) })
}

/// The stored text of a retention setting: the number of days, or `null`.
pub fn retention_value(days: Option<u32>) -> (s: String)
    ensures
        s@ == match days {
            Some(d) => decimal(d as nat),
            None => "null"@,
        },
{
    match days {
        Some(d) => u64_to_decimal(d as u64),
        None => String::from_str("null"),
    }
}

/// What a configuration action changes: nothing, history recording switched on (every
/// open window starts being tracked) or off (open tracking is dropped), or the retention
/// period, giving `config`; `retention_value` gives the text it is stored as.
#[derive(Clone, Copy, Debug, PartialEq, Eq, Structural)]
pub enum ConfigChange {
    Unchanged,
    EnableHistory,
    DisableHistory,
    SetRetention { config: Configuration },
}

/// The change an action makes to the current configuration; only a change of value
/// changes anything.
pub open spec fn config_change_of(current: Configuration, action: ConfigAction) -> ConfigChange {
    match action {
        ConfigAction::Show => ConfigChange::Unchanged,
        ConfigAction::SetHistoryEnabled { enabled } => if enabled == current.history_enabled {
            ConfigChange::Unchanged
        } else if enabled {
            ConfigChange::EnableHistory
        } else {
            ConfigChange::DisableHistory
        },
        ConfigAction::SetRetentionDays { days } => if days == current.retention_days {
            ConfigChange::Unchanged
        } else {
            ConfigChange::SetRetention {
                config: Configuration { history_enabled: current.history_enabled, retention_days: days },
            }
        },
    }
}

/// The configuration once a change is made.
pub open spec fn config_after(current: Configuration, change: ConfigChange) -> Configuration {
    match change {
        ConfigChange::Unchanged => current,
        ConfigChange::EnableHistory => Configuration { history_enabled: true, retention_days: current.retention_days },
        ConfigChange::DisableHistory => Configuration { history_enabled: false, retention_days: current.retention_days },
        ConfigChange::SetRetention { config } => config,
    }
}

/// Works out what a configuration action changes; an invalid action is refused as
/// `validate_config_action` refuses it.
pub fn plan_config_change(current: &Configuration, action: &ConfigAction) -> (r: Result<ConfigChange, PersistenceError>)
    ensures
        match r {
            Ok(change) => config_action_ok(*action) && change == config_change_of(*current, *action),
            Err(e) => !config_action_ok(*action)
                && persistence_view(e) == invalid("retention_days must be null or between 1 and 3650"@),
        },
{
    match validate_config_action(action) {
        Ok(()) => {},
        Err(e) => return Err(e),
    }
    match action {
        ConfigAction::Show => Ok(ConfigChange::Unchanged),
        ConfigAction::SetHistoryEnabled { enabled } => {
            if *enabled == current.history_enabled {
                Ok(ConfigChange::Unchanged)
            } else if *enabled {
                Ok(ConfigChange::EnableHistory)
            } else {
                Ok(ConfigChange::DisableHistory)
            }
        },
        ConfigAction::SetRetentionDays { days } => {
            if *days == current.retention_days {
                Ok(ConfigChange::Unchanged)
            } else {
                Ok(ConfigChange::SetRetention {
                    config: Configuration { history_enabled: current.history_enabled, retention_days: *days },
                })
            }
        },
    }
}

/// What a configuration action leaves as the configuration: an invalid action is
/// refused; a valid one gives the configuration once its change is made.
pub open spec fn config_update_outcome(current: Configuration, action: ConfigAction) -> Result<Configuration, (u8, Seq<char>)> {
    if config_action_ok(action) {
        Ok(config_after(current, config_change_of(current, action)))
    } else {
        Err(invalid("retention_days must be null or between 1 and 3650"@))
    }
}

/// The configuration an action leaves, or its refusal; a refusal changes nothing.
pub fn apply_config_action(current: &Configuration, action: &ConfigAction) -> (r: Result<Configuration, PersistenceError>)
    ensures
        match r {
            Ok(c) => config_update_outcome(*current, *action) == Ok::<Configuration, (u8, Seq<char>)>(c),
            Err(e) => config_update_outcome(*current, *action) == Err::<Configuration, (u8, Seq<char>)>(persistence_view(e)),
        },
{
    let change = match plan_config_change(current, action) {
        Ok(c) => c,
        Err(e) => return Err(e),
    };
    Ok(match change {
        ConfigChange::Unchanged => *current,
        ConfigChange::EnableHistory => Configuration { history_enabled: true, retention_days: current.retention_days },
        ConfigChange::DisableHistory => Configuration { history_enabled: false, retention_days: current.retention_days },
        ConfigChange::SetRetention { config } => config,
    })
}

/// Configuration updates are idempotent: once an action's change is made, the same
/// action changes nothing more, so repeating an accepted update gives the same
/// configuration again; a refused update is refused again.
pub proof fn law_config_updates_are_idempotent(current: Configuration, action: ConfigAction)
    ensures
        config_change_of(config_after(current, config_change_of(current, action)), action) == ConfigChange::Unchanged,
        config_update_outcome(current, action) matches Ok(once) ==> config_update_outcome(once, action) == Ok::<Configuration, (u8, Seq<char>)>(once),
        config_update_outcome(current, action) is Err ==> forall|other: Configuration| #[trigger] config_update_outcome(other, action) is Err,
{
}

/// The closing time before which closed sessions are pruned: `retention_days` days
/// before `now`, saturating; none when retention is unlimited.
pub open spec fn retention_cutoff_of(config: Configuration, now: i64) -> Option<i64> {
    match config.retention_days {
        None => None,
        Some(days) => {
            let c = now - days * SECONDS_PER_DAY;
            Some(if c < i64::MIN { i64::MIN } else { c as i64 })
        },
    }
}

/// The pruning cutoff for a configuration at `now`.
pub fn retention_cutoff(config: &Configuration, now: i64) -> (c: Option<i64>)
    ensures
        c == retention_cutoff_of(*config, now),
{
    match config.retention_days {
        None => None,
        Some(days) => {
            let span = (days as i64) * SECONDS_PER_DAY;
            Some(if now < i64::MIN + span { i64::MIN } else { now - span })
        },
    }
}

/// A session-row flag as stored.
pub fn bool_int(value: bool) -> (i: i64)
    ensures
        i == (if value { 1int } else { 0int }),
{
    if value { 1 } else { 0 }
}

/// The stored name of a source kind.
pub open spec fn source_kind_name(k: SourceKind) -> Seq<char> {
    match k {
        SourceKind::Web => "web"@,
        SourceKind::LocalMedia => "local_media"@,
    }
}

/// The stored name of a source kind.
pub fn source_kind_str(kind: SourceKind) -> (s: &'static str)
    ensures
        s@ == source_kind_name(kind),
{
    match kind {
        SourceKind::Web => "web",
        SourceKind::LocalMedia => "local_media",
    }
}

/// Reads a stored source kind.
pub fn parse_source_kind(value: &str) -> (r: Result<SourceKind, PersistenceError>)
    ensures
        match r {
            Ok(k) => source_kind_name(k) == value@,
            Err(e) => (forall|k: SourceKind| source_kind_name(k) != value@) && persistence_view(e) == storage("stored source_kind '"@ + value@ + "' is invalid"@),
        },
{
    let v = chars_of(value);
    if equals_str(&v, "web") {
        Ok(SourceKind::Web)
    } else if equals_str(&v, "local_media") {
        Ok(SourceKind::LocalMedia)
    } else {
        let mut m = String::from_str("stored source_kind '");
        m.append(value);
        m.append("' is invalid");
        Err(PersistenceError::Storage(m))
    }
}

/// The stored name of a content kind.
pub open spec fn content_kind_name(k: ContentKind) -> Seq<char> {
    match k {
        ContentKind::Web => "web"@,
        ContentKind::Image => "image"@,
        ContentKind::Video => "video"@,
        ContentKind::Audio => "audio"@,
    }
}

/// The stored name of a content kind.
pub fn content_kind_str(kind: ContentKind) -> (s: &'static str)
    ensures
        s@ == content_kind_name(kind),
{
    match kind {
        ContentKind::Web => "web",
        ContentKind::Image => "image",
        ContentKind::Video => "video",
        ContentKind::Audio => "audio",
    }
}

/// Reads a stored content kind.
pub fn parse_content_kind(value: &str) -> (r: Result<ContentKind, PersistenceError>)
    ensures
        match r {
            Ok(k) => content_kind_name(k) == value@,
            Err(e) => (forall|k: ContentKind| content_kind_name(k) != value@) && persistence_view(e) == storage("stored content_kind '"@ + value@ + "' is invalid"@),
        },
{
    let v = chars_of(value);
    if equals_str(&v, "web") {
        Ok(ContentKind::Web)
    } else if equals_str(&v, "image") {
        Ok(ContentKind::Image)
    } else if equals_str(&v, "video") {
        Ok(ContentKind::Video)
    } else if equals_str(&v, "audio") {
        Ok(ContentKind::Audio)
    } else {
        let mut m = String::from_str("stored content_kind '");
        m.append(value);
        m.append("' is invalid");
        Err(PersistenceError::Storage(m))
    }
}

/// The stored name of a close reason.
pub open spec fn close_reason_name(r: CloseReason) -> Seq<char> {
    match r {
        CloseReason::Explicit => "explicit"@,
        CloseReason::Destroyed => "destroyed"@,
        CloseReason::AbruptTermination => "abrupt_termination"@,
    }
}

/// The stored name of a close reason.
pub fn close_reason_str(reason: CloseReason) -> (s: &'static str)
    ensures
        s@ == close_reason_name(reason),
{
    match reason {
        CloseReason::Explicit => "explicit",
        CloseReason::Destroyed => "destroyed",
        CloseReason::AbruptTermination => "abrupt_termination",
    }
}

/// Reads a stored close reason.
pub fn parse_close_reason(value: &str) -> (r: Result<CloseReason, PersistenceError>)
    ensures
        match r {
            Ok(k) => close_reason_name(k) == value@,
            Err(e) => (forall|k: CloseReason| close_reason_name(k) != value@) && persistence_view(e) == storage("stored close_reason '"@ + value@ + "' is invalid"@),
        },
{
    let v = chars_of(value);
    if equals_str(&v, "explicit") {
        Ok(CloseReason::Explicit)
    } else if equals_str(&v, "destroyed") {
        Ok(CloseReason::Destroyed)
    } else if equals_str(&v, "abrupt_termination") {
        Ok(CloseReason::AbruptTermination)
    } else {
        let mut m = String::from_str("stored close_reason '");
        m.append(value);
        m.append("' is invalid");
        Err(PersistenceError::Storage(m))
    }
}

/// The lower-case form `str::to_lowercase` gives of a text (full Unicode case mapping).
pub uninterp spec fn unicode_lowercase(s: Seq<char>) -> Seq<char>;

/// Calls `str::to_lowercase`.
#[verifier::external_body]
pub(crate) fn lowercase(s: &str) -> (t: String)
    ensures
        t@ == unicode_lowercase(s@),
{
    s.to_lowercase()
}

/// A historical window matches a lower-cased query when its window id, title, requested
/// source, description or final URL, lower-cased, contains it.
pub open spec fn history_entry_matches(e: HistoricalWindow, query: Seq<char>) -> bool {
    has_infix(unicode_lowercase(e.window_session_id@), query) || has_infix(unicode_lowercase(e.title@), query)
        || has_infix(unicode_lowercase(e.requested_source@), query) || (e.description is Some && has_infix(unicode_lowercase(e.description->0@), query))
        || (e.final_url is Some && has_infix(unicode_lowercase(e.final_url->0@), query))
}

pub(crate) fn lower_contains(value: &String, query: &str) -> (b: bool)
    ensures
        b == has_infix(unicode_lowercase(value@), query@),
{
    let lowered = lowercase(value.as_str());
    contains_str(&chars_of(lowered.as_str()), query)
}

/// Whether a historical window matches a lower-cased query.
pub fn history_matches(entry: &HistoricalWindow, query: &str) -> (b: bool)
    ensures
        b == history_entry_matches(*entry, query@),
{
    lower_contains(&entry.window_session_id, query) || lower_contains(&entry.title, query)
        || lower_contains(&entry.requested_source, query) || match &entry.description {
        Some(d) => lower_contains(d, query),
        None => false,
    } || match &entry.final_url {
        Some(u) => lower_contains(u, query),
        None => false,
    }
}

/// The lower-cased form of a query, as it is compared.
pub fn lowercase_query(query: &str) -> (t: String)
    ensures
        t@ == unicode_lowercase(query@),
{
    lowercase(query)
}

/// The RFC 3339 text the `time` crate writes for a Unix timestamp, or the message of the
/// error it reports for an out-of-range timestamp.
pub uninterp spec fn rfc3339_of_unix(ts: i64) -> Result<Seq<char>, Seq<char>>;

/// Calls `time::OffsetDateTime::from_unix_timestamp` and formats the result with
/// `Rfc3339`; either error is rendered with `to_string`.
#[verifier::external_body]
fn rfc3339(ts: i64) -> (r: Result<String, String>)
    ensures
        match r {
            Ok(s) => rfc3339_of_unix(ts) == Ok::<Seq<char>, Seq<char>>(s@),
            Err(m) => rfc3339_of_unix(ts) == Err::<Seq<char>, Seq<char>>(m@),
        },
{
    time::OffsetDateTime::from_unix_timestamp(ts).map_err(|error| error.to_string())?.format(&time::format_description::well_known::Rfc3339).map_err(|error| error.to_string())
}

/// A stored timestamp as RFC 3339 text.
pub fn format_timestamp(timestamp: i64) -> (r: Result<String, PersistenceError>)
    ensures
        match r {
            Ok(s) => rfc3339_of_unix(timestamp) == Ok::<Seq<char>, Seq<char>>(s@),
            Err(e) => rfc3339_of_unix(timestamp) is Err && persistence_view(e) == storage(rfc3339_of_unix(timestamp)->Err_0),
        },
{
    match rfc3339(timestamp) {
        Ok(s) => Ok(s),
        Err(m) => Err(PersistenceError::Storage(m)),
    }
}

/// The JSON string literals of a list of strings, separated by commas.
pub open spec fn joined_string_literals(v: Seq<Seq<char>>) -> Seq<char>
    decreases v.len(),
{
    if v.len() == 0 {
        Seq::empty()
    } else if v.len() == 1 {
        json_string_literal(v[0])
    } else {
        joined_string_literals(v.drop_last()) + seq![','] + json_string_literal(v.last())
    }
}

/// The JSON text `serde_json::to_string` writes for a list of strings: their string
/// literals, separated by commas, between square brackets.
pub open spec fn json_of_strings(v: Seq<Seq<char>>) -> Seq<char> {
    seq!['['] + joined_string_literals(v) + seq![']']
}

/// The decimals of a list of numbers, separated by commas.
pub open spec fn joined_decimals(v: Seq<u32>) -> Seq<char>
    decreases v.len(),
{
    if v.len() == 0 {
        Seq::empty()
    } else if v.len() == 1 {
        decimal(v[0] as nat)
    } else {
        joined_decimals(v.drop_last()) + seq![','] + decimal(v.last() as nat)
    }
}

/// The JSON text `serde_json::to_string` writes for a list of numbers: their decimals,
/// separated by commas, between square brackets.
pub open spec fn json_of_numbers(v: Seq<u32>) -> Seq<char> {
    seq!['['] + joined_decimals(v) + seq![']']
}

/// The list of strings `serde_json::from_str` reads from a text, or its error message.
pub uninterp spec fn strings_from_json(text: Seq<char>) -> Result<Seq<Seq<char>>, Seq<char>>;

/// The list of numbers `serde_json::from_str` reads from a text, or its error message.
pub uninterp spec fn numbers_from_json(text: Seq<char>) -> Result<Seq<u32>, Seq<char>>;

/// Writes a list of strings as JSON with `serde_json::to_string`, which cannot fail for
/// strings.
#[verifier::external_body]
fn strings_to_json_text(v: &Vec<String>) -> (s: String)
    ensures
        s@ == json_of_strings(string_views(v@)),
{
    serde_json::to_string(v).unwrap_or_default()
}

/// Writes a list of numbers as JSON with `serde_json::to_string`, which cannot fail for
/// numbers.
#[verifier::external_body]
fn numbers_to_json_text(v: &Vec<u32>) -> (s: String)
    ensures
        s@ == json_of_numbers(v@),
{
    serde_json::to_string(v).unwrap_or_default()
}

/// Reads a list of strings with `serde_json::from_str`; an error is rendered with
/// `to_string`.
#[verifier::external_body]
fn strings_from_json_text(text: &str) -> (r: Result<Vec<String>, String>)
    ensures
        match r {
            Ok(v) => strings_from_json(text@) == Ok::<Seq<Seq<char>>, Seq<char>>(string_views(v@)),
            Err(m) => strings_from_json(text@) == Err::<Seq<Seq<char>>, Seq<char>>(m@),
        },
{
    serde_json::from_str::<Vec<String>>(text).map_err(|error| error.to_string())
}

/// Reads a list of numbers with `serde_json::from_str`; an error is rendered with
/// `to_string`.
#[verifier::external_body]
fn numbers_from_json_text(text: &str) -> (r: Result<Vec<u32>, String>)
    ensures
        match r {
            Ok(v) => numbers_from_json(text@) == Ok::<Seq<u32>, Seq<char>>(v@),
            Err(m) => numbers_from_json(text@) == Err::<Seq<u32>, Seq<char>>(m@),
        },
{
    serde_json::from_str::<Vec<u32>>(text).map_err(|error| error.to_string())
}

/// A URL history as stored.
pub fn urls_to_json(v: &Vec<String>) -> (s: String)
    ensures
        s@ == json_of_strings(string_views(v@)),
{
    strings_to_json_text(v)
}

/// A workspace history as stored.
pub fn workspaces_to_json(v: &Vec<u32>) -> (s: String)
    ensures
        s@ == json_of_numbers(v@),
{
    numbers_to_json_text(v)
}

/// A stored session row, as read.
pub struct RawHistoricalWindow {
    pub historical_id: String,
    pub window_session_id: String,
    pub source_kind: String,
    pub content_kind: String,
    pub requested_source: String,
    pub title: String,
    pub rendered_url: Option<String>,
    pub final_url: Option<String>,
    pub url_history_json: String,
    pub url_history_truncated: bool,
    pub description: Option<String>,
    pub workspace: Option<u32>,
    pub is_on_all_workspaces: bool,
    pub workspace_history_json: String,
    pub workspace_history_truncated: bool,
    pub opened_at: i64,
    pub closed_at: i64,
    pub close_reason: String,
}

/// A stored row read back as a historical window: each stored name and JSON list must
/// read back, and both timestamps must format.
pub fn raw_to_historical(raw: RawHistoricalWindow) -> (r: Result<HistoricalWindow, PersistenceError>)
    ensures
        match r {
            Ok(h) => h.historical_id@ == raw.historical_id@ && h.window_session_id@ == raw.window_session_id@
                && source_kind_name(h.source_kind) == raw.source_kind@ && content_kind_name(h.content_kind) == raw.content_kind@
                && h.requested_source@ == raw.requested_source@ && h.title@ == raw.title@
                && opt_view(h.rendered_url) == opt_view(raw.rendered_url) && opt_view(h.final_url) == opt_view(raw.final_url)
                && strings_from_json(raw.url_history_json@) == Ok::<Seq<Seq<char>>, Seq<char>>(string_views(h.url_history@))
                && h.url_history_truncated == raw.url_history_truncated && opt_view(h.description) == opt_view(raw.description)
                && h.workspace == raw.workspace && h.is_on_all_workspaces == raw.is_on_all_workspaces
                && numbers_from_json(raw.workspace_history_json@) == Ok::<Seq<u32>, Seq<char>>(h.workspace_history@)
                && h.workspace_history_truncated == raw.workspace_history_truncated
                && rfc3339_of_unix(raw.opened_at) == Ok::<Seq<char>, Seq<char>>(h.opened_at@)
                && rfc3339_of_unix(raw.closed_at) == Ok::<Seq<char>, Seq<char>>(h.closed_at@)
                && close_reason_name(h.close_reason) == raw.close_reason@,
            Err(e) => persistence_view(e).0 == 1,
        },
{
    let source_kind = match parse_source_kind(raw.source_kind.as_str()) {
        Ok(k) => k,
        Err(e) => return Err(e),
    };
    let content_kind = match parse_content_kind(raw.content_kind.as_str()) {
        Ok(k) => k,
        Err(e) => return Err(e),
    };
    let url_history = match strings_from_json_text(raw.url_history_json.as_str()) {
        Ok(v) => v,
        Err(m) => return Err(PersistenceError::Storage(m)),
    };
    let workspace_history = match numbers_from_json_text(raw.workspace_history_json.as_str()) {
        Ok(v) => v,
        Err(m) => return Err(PersistenceError::Storage(m)),
    };
    let opened_at = match format_timestamp(raw.opened_at) {
        Ok(s) => s,
        Err(e) => return Err(e),
    };
    let closed_at = match format_timestamp(raw.closed_at) {
        Ok(s) => s,
        Err(e) => return Err(e),
    };
    let close_reason = match parse_close_reason(raw.close_reason.as_str()) {
        Ok(k) => k,
        Err(e) => return Err(e),
    };
    Ok(HistoricalWindow {
        historical_id: raw.historical_id,
        window_session_id: raw.window_session_id,
        source_kind,
        content_kind,
        requested_source: raw.requested_source,
        title: raw.title,
        rendered_url: raw.rendered_url,
        final_url: raw.final_url,
        url_history,
        url_history_truncated: raw.url_history_truncated,
        description: raw.description,
        workspace: raw.workspace,
        is_on_all_workspaces: raw.is_on_all_workspaces,
        workspace_history,
        workspace_history_truncated: raw.workspace_history_truncated,
        opened_at,
        closed_at,
        close_reason,
    })
}

/// What the history keeper reads of a window.
pub struct SessionObservation {
    pub current_url: Option<String>,
    pub url_history: Option<Vec<String>>,
    pub url_history_truncated: Option<bool>,
    pub workspace: Option<u32>,
    pub workspace_history: Vec<u32>,
    pub workspace_history_truncated: bool,
}

/// The persisted timeline of an open window. A session started with a reset timeline
/// keeps its own history from then on; otherwise it mirrors the window's.
pub struct ActiveSession {
    pub session_id: String,
    pub reset_timeline: bool,
    pub url_history: Vec<String>,
    pub url_history_truncated: bool,
    pub workspace_history: Vec<u32>,
    pub workspace_history_truncated: bool,
}

/// The URL history a window reports, empty if it keeps none.
pub open spec fn reported_urls(w: SessionObservation) -> Seq<Seq<char>> {
    match w.url_history {
        Some(h) => string_views(h@),
        None => Seq::empty(),
    }
}

fn clone_urls(w: &SessionObservation) -> (v: Vec<String>)
    ensures
        string_views(v@) == reported_urls(*w),
{
    match &w.url_history {
        Some(h) => crate::auth_domain::clone_strings(h.as_slice()),
        None => {
            let v: Vec<String> = Vec::new();
            assert(string_views(v@) =~= Seq::<Seq<char>>::empty());
            v
        },
    }
}

fn clone_u32s(v: &Vec<u32>) -> (c: Vec<u32>)
    ensures
        c@ == v@,
{
    let mut c: Vec<u32> = Vec::new();
    let mut i: usize = 0;
    while i < v.len()
        invariant
            i <= v@.len(),
            c@ == v@.subrange(0, i as int),
        decreases v@.len() - i,
    {
        c.push(v[i]);
        assert(v@.subrange(0, i + 1) =~= v@.subrange(0, i as int).push(v@[i as int]));
        i += 1;
    }
    assert(v@.subrange(0, v@.len() as int) =~= v@);
    c
}

impl ActiveSession {
    /// Starts a session. With a reset timeline the history starts from the current URL
    /// and workspace alone; otherwise it is the window's own.
    pub fn new(session_id: String, window: &SessionObservation, reset_timeline: bool) -> (s: ActiveSession)
        ensures
            s.session_id@ == session_id@,
            s.reset_timeline == reset_timeline,
            reset_timeline ==> string_views(s.url_history@) == (match window.current_url {
                Some(u) => seq![u@],
                None => Seq::empty(),
            }) && !s.url_history_truncated && s.workspace_history@ == (match window.workspace {
                Some(w) => seq![w],
                None => Seq::empty(),
            }) && !s.workspace_history_truncated,
            !reset_timeline ==> string_views(s.url_history@) == reported_urls(*window)
                && s.url_history_truncated == (window.url_history_truncated == Some(true))
                && s.workspace_history@ == window.workspace_history@
                && s.workspace_history_truncated == window.workspace_history_truncated,
    {
        if reset_timeline {
            let mut urls: Vec<String> = Vec::new();
            match &window.current_url {
                Some(u) => urls.push(u.clone()),
                None => {},
            }
            let mut workspaces: Vec<u32> = Vec::new();
            match window.workspace {
                Some(w) => workspaces.push(w),
                None => {},
            }
            assert(string_views(urls@) =~= (match window.current_url {
                Some(u) => seq![u@],
                None => Seq::<Seq<char>>::empty(),
            }));
            assert(workspaces@ =~= (match window.workspace {
                Some(w) => seq![w],
                None => Seq::<u32>::empty(),
            }));
            ActiveSession {
                session_id,
                reset_timeline,
                url_history: urls,
                url_history_truncated: false,
                workspace_history: workspaces,
                workspace_history_truncated: false,
            }
        } else {
            ActiveSession {
                session_id,
                reset_timeline,
                url_history: clone_urls(window),
                url_history_truncated: match window.url_history_truncated {
                    Some(t) => t,
                    None => false,
                },
                workspace_history: clone_u32s(&window.workspace_history),
                workspace_history_truncated: window.workspace_history_truncated,
            }
        }
    }

    /// Takes in a new observation of the window. A mirrored session copies the window's
    /// histories. A reset session appends the current URL and workspace when they differ
    /// from the last recorded ones, dropping the oldest entries beyond the history bounds
    /// and marking the history truncated when it does.
    pub fn observe(&mut self, window: &SessionObservation)
        ensures
            final(self).session_id == old(self).session_id,
            final(self).reset_timeline == old(self).reset_timeline,
            !old(self).reset_timeline ==> string_views(final(self).url_history@) == reported_urls(*window)
                && final(self).url_history_truncated == (window.url_history_truncated == Some(true))
                && final(self).workspace_history@ == window.workspace_history@
                && final(self).workspace_history_truncated == window.workspace_history_truncated,
            old(self).reset_timeline ==> ({
                let h1 = appended_urls(string_views(old(self).url_history@), current_url_view(*window));
                &&& h1 == string_views(old(self).url_history@) ==> string_views(final(self).url_history@) == h1
                    && final(self).url_history_truncated == old(self).url_history_truncated
                &&& h1 != string_views(old(self).url_history@) ==> exists|k: int| 0 <= k <= h1.len()
                    && string_views(final(self).url_history@) == h1.skip(k) && history_fits(h1.skip(k))
                    && (forall|j: int| 0 <= j < k ==> !history_fits(#[trigger] h1.skip(j)))
                    && final(self).url_history_truncated == (old(self).url_history_truncated || k > 0)
            }),
            old(self).reset_timeline ==> ({
                let w = old(self).workspace_history@;
                &&& final(self).workspace_history@ == recorded_workspaces(w, window.workspace)
                &&& final(self).workspace_history_truncated
                    == (old(self).workspace_history_truncated || workspaces_cut(w, window.workspace))
            }),
    {
        if !self.reset_timeline {
            self.url_history = clone_urls(window);
            self.url_history_truncated = match window.url_history_truncated {
                Some(t) => t,
                None => false,
            };
            self.workspace_history = clone_u32s(&window.workspace_history);
            self.workspace_history_truncated = window.workspace_history_truncated;
            return;
        }
        record_url(&mut self.url_history, &mut self.url_history_truncated, &window.current_url);
        record_workspace(&mut self.workspace_history, &mut self.workspace_history_truncated, window.workspace);
    }
}

/// The current URL a window reports, by its characters.
pub open spec fn current_url_view(w: SessionObservation) -> Option<Seq<char>> {
    crate::auth_domain::opt_view(w.current_url)
}

/// A history with the current entry appended, unless there is none or it repeats the last one.
pub open spec fn appended_urls(h: Seq<Seq<char>>, current: Option<Seq<char>>) -> Seq<Seq<char>> {
    match current {
        Some(c) => if h.len() == 0 || h.last() != c { h.push(c) } else { h },
        None => h,
    }
}

/// A workspace history with the current workspace appended, unless there is none or it
/// repeats the last one.
pub open spec fn appended_workspaces(w: Seq<u32>, current: Option<u32>) -> Seq<u32> {
    match current {
        Some(c) => if w.len() == 0 || w.last() != c { w.push(c) } else { w },
        None => w,
    }
}

/// The newest entries of a workspace history, as many as the bound admits.
pub open spec fn bounded_workspaces(w: Seq<u32>) -> Seq<u32> {
    if w.len() > MAX_WORKSPACE_HISTORY_ENTRIES {
        w.skip(w.len() - MAX_WORKSPACE_HISTORY_ENTRIES)
    } else {
        w
    }
}

/// A workspace history after an observation: unchanged when nothing new was seen,
/// otherwise extended and cut back to the bound.
pub open spec fn recorded_workspaces(w: Seq<u32>, current: Option<u32>) -> Seq<u32> {
    let w1 = appended_workspaces(w, current);
    if w1.len() == w.len() { w } else { bounded_workspaces(w1) }
}

/// Whether an observation cut the oldest entries off a workspace history.
pub open spec fn workspaces_cut(w: Seq<u32>, current: Option<u32>) -> bool {
    let w1 = appended_workspaces(w, current);
    w1.len() != w.len() && w1.len() > MAX_WORKSPACE_HISTORY_ENTRIES
}

fn record_url(history: &mut Vec<String>, truncated: &mut bool, current: &Option<String>)
    ensures
        ({
            let h = string_views(old(history)@);
            let h1 = appended_urls(h, crate::auth_domain::opt_view(*current));
            &&& h1 == h ==> string_views(final(history)@) == h1 && *final(truncated) == *old(truncated)
            &&& h1 != h ==> exists|k: int| 0 <= k <= h1.len()
                && string_views(final(history)@) == h1.skip(k) && history_fits(h1.skip(k))
                && (forall|j: int| 0 <= j < k ==> !history_fits(#[trigger] h1.skip(j)))
                && *final(truncated) == (*old(truncated) || k > 0)
        }),
{
    let ghost h0 = string_views(history@);
    match current {
        Some(url) => {
            let n = history.len();
            let differs = n == 0 || !crate::auth_domain::string_eq(&history[n - 1], url);
            proof {
                if n > 0 {
                    assert(h0.last() == history@[n - 1]@);
                }
            }
            if differs {
                history.push(url.clone());
                let ghost h1 = h0.push(url@);
                assert(string_views(history@) =~= h1);
                assert(h1.len() == h0.len() + 1);
                let ghost before = history@;
                let mut flag: Option<bool> = None;
                crate::window_core::trim_url_history(history, &mut flag);
                match flag {
                    Some(t) => if t {
                        *truncated = true;
                    },
                    None => {},
                }
                proof {
                    let k = choose|k: int| 0 <= k <= before.len() && history@ == before.skip(k)
                        && history_fits(string_views(history@))
                        && (forall|j: int| 0 <= j < k ==> !history_fits(string_views(#[trigger] before.skip(j))))
                        && flag == (if k > 0 { Some(true) } else { None::<bool> });
                    assert forall|j: int| 0 <= j <= before.len() implies #[trigger] string_views(before.skip(j)) == h1.skip(j) by {
                        assert(string_views(before.skip(j)) =~= string_views(before).skip(j));
                    }
                    assert(string_views(history@) == h1.skip(k));
                    assert forall|j: int| 0 <= j < k implies !history_fits(#[trigger] h1.skip(j)) by {
                        assert(string_views(before.skip(j)) == h1.skip(j));
                    }
                    assert(*truncated == (*old(truncated) || k > 0));
                    assert(0 <= k <= h1.len() && string_views(history@) == h1.skip(k) && history_fits(h1.skip(k))
                        && (forall|j: int| 0 <= j < k ==> !history_fits(#[trigger] h1.skip(j)))
                        && *truncated == (*old(truncated) || k > 0));
                }
            }
        },
        None => {},
    }
}

fn record_workspace(history: &mut Vec<u32>, truncated: &mut bool, current: Option<u32>)
    ensures
        final(history)@ == recorded_workspaces(old(history)@, current),
        *final(truncated) == (*old(truncated) || workspaces_cut(old(history)@, current)),
{
    let ghost w0 = history@;
    match current {
        Some(ws) => {
            let n = history.len();
            if n == 0 || history[n - 1] != ws {
                history.push(ws);
                let ghost w1 = history@;
                assert(w1 == w0.push(ws));
                if history.len() > MAX_WORKSPACE_HISTORY_ENTRIES {
                    let overflow = history.len() - MAX_WORKSPACE_HISTORY_ENTRIES;
                    let mut kept: Vec<u32> = Vec::new();
                    let mut i = overflow;
                    while i < history.len()
                        invariant
                            overflow <= i <= w1.len(),
                            history@ == w1,
                            kept@ == w1.subrange(overflow as int, i as int),
                        decreases w1.len() - i,
                    {
                        kept.push(history[i]);
                        assert(w1.subrange(overflow as int, i + 1) =~= w1.subrange(overflow as int, i as int).push(w1[i as int]));
                        i += 1;
                    }
                    assert(kept@ =~= w1.skip(overflow as int));
                    *history = kept;
                    *truncated = true;
                }
            } else {
                assert(w0.len() > 0 && w0.last() == ws);
            }
        },
        None => {},
    }
}

} // verus!
