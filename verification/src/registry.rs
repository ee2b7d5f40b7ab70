//! The registry of open windows: what each window reports, how a target names a window,
//! and how window events update the record.
use vstd::prelude::*;
use crate::auth_domain::{clone_opt, clone_strings, is_window_session_id, opt_view, string_views};
use crate::database::{lower_contains, lowercase, unicode_lowercase};
use crate::text::{chars_of, decimal, has_infix, is_lower_hex, starts_with_str, str_eq, u64_to_decimal};
use crate::broker::{lemma_text_lt_irreflexive, lemma_text_lt_total, lemma_text_lt_transitive, text_lt};
use crate::protocol::{
    ConsoleEntry, ConsoleLevel, ContentKind, LoadState, SourceKind, WindowStateAction, MAX_CONSOLE_ENTRIES, MAX_LOAD_ERROR_CHARS,
    MAX_TITLE_CHARS, MAX_URL_CHARS,
};
use crate::window_core::{
    dimension_ok, history_fits, validation, ResizeSpec, clip, truncate_chars, description_outcome, error_view, validate_description, WindowCoreError, WindowErrorKind, DEFAULT_HEIGHT,
    DEFAULT_WIDTH,
};

verus! {

/// The abstract value of a console entry.
pub struct ConsoleEntryView {
    pub level: ConsoleLevel,
    pub message: Seq<char>,
    pub source: Option<Seq<char>>,
    pub line: Option<u32>,
}

/// The abstract value of a console entry.
pub open spec fn entry_view(e: ConsoleEntry) -> ConsoleEntryView {
    ConsoleEntryView { level: e.level, message: e.message@, source: opt_view(e.source), line: e.line }
}

/// The abstract values of console entries.
pub open spec fn entry_views(s: Seq<ConsoleEntry>) -> Seq<ConsoleEntryView> {
    s.map_values(|e: ConsoleEntry| entry_view(e))
}

/// The abstract value of a URL history.
pub open spec fn history_view(h: Option<Vec<String>>) -> Option<Seq<Seq<char>>> {
    match h {
        Some(v) => Some(string_views(v@)),
        None => None,
    }
}

/// What a window reports of itself. The state of a presented media element, a reading
/// in floating point, is kept beside it by the daemon.
#[derive(Clone, Debug, PartialEq, Eq)]
pub struct ActiveWindow {
    pub window_session_id: String,
    pub source_kind: SourceKind,
    pub content_kind: ContentKind,
    pub requested_source: String,
    pub current_url: Option<String>,
    pub rendered_url: Option<String>,
    pub url_history: Option<Vec<String>>,
    pub url_history_truncated: Option<bool>,
    pub title: String,
    pub description: Option<String>,
    pub profile: Option<String>,
    pub authenticated: Option<bool>,
    pub load_state: LoadState,
    pub load_error: Option<String>,
    pub console_errors: Vec<ConsoleEntry>,
    pub console_errors_truncated: bool,
    pub width: u32,
    pub height: u32,
    pub x: i32,
    pub y: i32,
    pub is_maximized: bool,
    pub is_minimized: bool,
    pub is_focused: bool,
    pub is_always_on_top: bool,
    pub workspace: Option<u32>,
    pub is_on_all_workspaces: bool,
    pub workspace_history: Vec<u32>,
    pub workspace_history_truncated: bool,
}

/// The abstract value of a window's report.
pub struct WindowView {
    pub window_session_id: Seq<char>,
    pub source_kind: SourceKind,
    pub content_kind: ContentKind,
    pub requested_source: Seq<char>,
    pub current_url: Option<Seq<char>>,
    pub rendered_url: Option<Seq<char>>,
    pub url_history: Option<Seq<Seq<char>>>,
    pub url_history_truncated: Option<bool>,
    pub title: Seq<char>,
    pub description: Option<Seq<char>>,
    pub profile: Option<Seq<char>>,
    pub authenticated: Option<bool>,
    pub load_state: LoadState,
    pub load_error: Option<Seq<char>>,
    pub console_errors: Seq<ConsoleEntryView>,
    pub console_errors_truncated: bool,
    pub width: u32,
    pub height: u32,
    pub x: i32,
    pub y: i32,
    pub is_maximized: bool,
    pub is_minimized: bool,
    pub is_focused: bool,
    pub is_always_on_top: bool,
    pub workspace: Option<u32>,
    pub is_on_all_workspaces: bool,
    pub workspace_history: Seq<u32>,
    pub workspace_history_truncated: bool,
}

impl View for ActiveWindow {
    type V = WindowView;

    open spec fn view(&self) -> WindowView {
        WindowView {
            window_session_id: self.window_session_id@,
            source_kind: self.source_kind,
            content_kind: self.content_kind,
            requested_source: self.requested_source@,
            current_url: opt_view(self.current_url),
            rendered_url: opt_view(self.rendered_url),
            url_history: history_view(self.url_history),
            url_history_truncated: self.url_history_truncated,
            title: self.title@,
            description: opt_view(self.description),
            profile: opt_view(self.profile),
            authenticated: self.authenticated,
            load_state: self.load_state,
            load_error: opt_view(self.load_error),
            console_errors: entry_views(self.console_errors@),
            console_errors_truncated: self.console_errors_truncated,
            width: self.width,
            height: self.height,
            x: self.x,
            y: self.y,
            is_maximized: self.is_maximized,
            is_minimized: self.is_minimized,
            is_focused: self.is_focused,
            is_always_on_top: self.is_always_on_top,
            workspace: self.workspace,
            is_on_all_workspaces: self.is_on_all_workspaces,
            workspace_history: self.workspace_history@,
            workspace_history_truncated: self.workspace_history_truncated,
        }
    }
}

/// A copy of a console entry.
pub fn duplicate_entry(e: &ConsoleEntry) -> (c: ConsoleEntry)
    ensures
        entry_view(c) == entry_view(*e),
{
    ConsoleEntry { level: e.level, message: e.message.clone(), source: clone_opt(&e.source), line: e.line }
}

/// Copies of console entries, in order.
pub fn duplicate_entries(v: &[ConsoleEntry]) -> (c: Vec<ConsoleEntry>)
    ensures
        entry_views(c@) == entry_views(v@),
{
    let mut c: Vec<ConsoleEntry> = Vec::new();
    let mut i: usize = 0;
    while i < v.len()
        invariant
            i <= v@.len(),
            c@.len() == i,
            forall|j: int| 0 <= j < i ==> entry_view(#[trigger] c@[j]) == entry_view(v@[j]),
        decreases v@.len() - i,
    {
        let e = duplicate_entry(&v[i]);
        c.push(e);
        i += 1;
    }
    assert(entry_views(c@) =~= entry_views(v@));
    c
}

/// A copy of a sequence of workspace indices.
pub fn duplicate_u32s(v: &Vec<u32>) -> (c: Vec<u32>)
    ensures
        c@ == v@,
{
    let mut c: Vec<u32> = Vec::new();
    let mut i: usize = 0;
    while i < v.len()
        invariant
            i <= v@.len(),
            c@ == v@.subrange(0, i as int),
        decreases v@.len() - i,
    {
        c.push(v[i]);
        assert(v@.subrange(0, i + 1) =~= v@.subrange(0, i as int).push(v@[i as int]));
        i += 1;
    }
    assert(v@.subrange(0, v@.len() as int) =~= v@);
    c
}

fn duplicate_history(h: &Option<Vec<String>>) -> (c: Option<Vec<String>>)
    ensures
        history_view(c) == history_view(*h),
{
    match h {
        Some(v) => Some(clone_strings(v.as_slice())),
        None => None,
    }
}

impl ActiveWindow {
    /// A copy of the report.
    pub fn duplicate(&self) -> (c: ActiveWindow)
        ensures
            c@ == self@,
    {
        ActiveWindow {
            window_session_id: self.window_session_id.clone(),
            source_kind: self.source_kind,
            content_kind: self.content_kind,
            requested_source: self.requested_source.clone(),
            current_url: clone_opt(&self.current_url),
            rendered_url: clone_opt(&self.rendered_url),
            url_history: duplicate_history(&self.url_history),
            url_history_truncated: self.url_history_truncated,
            title: self.title.clone(),
            description: clone_opt(&self.description),
            profile: clone_opt(&self.profile),
            authenticated: self.authenticated,
            load_state: self.load_state,
            load_error: clone_opt(&self.load_error),
            console_errors: duplicate_entries(self.console_errors.as_slice()),
            console_errors_truncated: self.console_errors_truncated,
            width: self.width,
            height: self.height,
            x: self.x,
            y: self.y,
            is_maximized: self.is_maximized,
            is_minimized: self.is_minimized,
            is_focused: self.is_focused,
            is_always_on_top: self.is_always_on_top,
            workspace: self.workspace,
            is_on_all_workspaces: self.is_on_all_workspaces,
            workspace_history: duplicate_u32s(&self.workspace_history),
            workspace_history_truncated: self.workspace_history_truncated,
        }
    }
}

/// A window with the order in which it last gained focus (0 before it ever did).
#[derive(Clone, Debug)]
pub struct WindowRecord {
    pub window: ActiveWindow,
    pub focus_order: u64,
}

/// The abstract value of a registry: each window's report and focus order, by id.
pub type RegistryMap = Map<Seq<char>, (WindowView, u64)>;

spec fn rec_key(r: WindowRecord) -> Seq<char> {
    r.window.window_session_id@
}

spec fn rec_state(r: WindowRecord) -> (WindowView, u64) {
    (r.window@, r.focus_order)
}

spec fn keys_of(s: Seq<WindowRecord>) -> Seq<Seq<char>> {
    s.map_values(|r: WindowRecord| rec_key(r))
}

spec fn sorted_keys(s: Seq<WindowRecord>) -> bool {
    forall|i: int, j: int| 0 <= i < j < s.len() ==> text_lt(rec_key(#[trigger] s[i]), rec_key(#[trigger] s[j]))
}

spec fn key_at(s: Seq<WindowRecord>, k: Seq<char>, i: int) -> bool {
    0 <= i < s.len() && rec_key(s[i]) == k
}

spec fn map_of(s: Seq<WindowRecord>) -> RegistryMap {
    Map::new(
        |k: Seq<char>| exists|i: int| key_at(s, k, i),
        |k: Seq<char>| rec_state(s[choose|i: int| key_at(s, k, i)]),
    )
}

proof fn lemma_distinct(s: Seq<WindowRecord>, i: int, j: int)
    requires
        sorted_keys(s),
        0 <= i < s.len(),
        0 <= j < s.len(),
        i != j,
    ensures
        rec_key(s[i]) != rec_key(s[j]),
{
    if i < j {
        assert(text_lt(rec_key(s[i]), rec_key(s[j])));
        lemma_text_lt_irreflexive(rec_key(s[i]));
    } else {
        assert(text_lt(rec_key(s[j]), rec_key(s[i])));
        lemma_text_lt_irreflexive(rec_key(s[j]));
    }
}

proof fn lemma_map_index(s: Seq<WindowRecord>, i: int)
    requires
        sorted_keys(s),
        0 <= i < s.len(),
    ensures
        map_of(s).contains_key(rec_key(s[i])),
        map_of(s)[rec_key(s[i])] == rec_state(s[i]),
{
    let k = rec_key(s[i]);
    assert(key_at(s, k, i));
    let c = choose|c: int| key_at(s, k, c);
    assert(key_at(s, k, c));
    if c != i {
        lemma_distinct(s, c, i);
    }
}

proof fn lemma_map_absent(s: Seq<WindowRecord>, k: Seq<char>)
    requires
        forall|i: int| 0 <= i < s.len() ==> rec_key(#[trigger] s[i]) != k,
    ensures
        !map_of(s).contains_key(k),
{
    if exists|i: int| key_at(s, k, i) {
        let i = choose|i: int| key_at(s, k, i);
        assert(rec_key(s[i]) != k);
    }
}

proof fn lemma_map_update(s: Seq<WindowRecord>, i: int, r: WindowRecord)
    requires
        sorted_keys(s),
        0 <= i < s.len(),
        rec_key(r) == rec_key(s[i]),
    ensures
        sorted_keys(s.update(i, r)),
        keys_of(s.update(i, r)) == keys_of(s),
        map_of(s.update(i, r)) =~= map_of(s).insert(rec_key(r), rec_state(r)),
{
    let t = s.update(i, r);
    assert forall|a: int, b: int| 0 <= a < b < t.len() implies text_lt(rec_key(#[trigger] t[a]), rec_key(#[trigger] t[b])) by {
        assert(rec_key(t[a]) == rec_key(s[a]));
        assert(rec_key(t[b]) == rec_key(s[b]));
    }
    assert(keys_of(t) =~= keys_of(s));
    let m = map_of(s).insert(rec_key(r), rec_state(r));
    assert forall|k: Seq<char>| #[trigger] map_of(t).contains_key(k) == m.contains_key(k) by {
        if map_of(t).contains_key(k) {
            let j = choose|j: int| key_at(t, k, j);
            if j != i {
                assert(key_at(s, k, j));
            }
        }
        if map_of(s).contains_key(k) {
            let j = choose|j: int| key_at(s, k, j);
            if j != i {
                assert(key_at(t, k, j));
            } else {
                assert(key_at(t, k, i));
            }
        }
        if k == rec_key(r) {
            assert(key_at(t, k, i));
        }
    }
    assert forall|k: Seq<char>| #[trigger] map_of(t).contains_key(k) implies map_of(t)[k] == m[k] by {
        let j = choose|j: int| key_at(t, k, j);
        lemma_map_index(t, j);
        if j != i {
            lemma_map_index(s, j);
            assert(t[j] == s[j]);
            lemma_distinct(s, i, j);
        }
    }
}

proof fn lemma_map_insert(s: Seq<WindowRecord>, p: int, r: WindowRecord)
    requires
        sorted_keys(s),
        0 <= p <= s.len(),
        forall|j: int| 0 <= j < p ==> text_lt(rec_key(#[trigger] s[j]), rec_key(r)),
        forall|j: int| p <= j < s.len() ==> text_lt(rec_key(r), rec_key(#[trigger] s[j])),
    ensures
        sorted_keys(s.insert(p, r)),
        map_of(s.insert(p, r)) =~= map_of(s).insert(rec_key(r), rec_state(r)),
{
    let t = s.insert(p, r);
    assert forall|a: int, b: int| 0 <= a < b < t.len() implies text_lt(rec_key(#[trigger] t[a]), rec_key(#[trigger] t[b])) by {
        if b < p {
            assert(t[a] == s[a] && t[b] == s[b]);
        } else if b == p {
            assert(t[a] == s[a]);
        } else if a < p {
            assert(t[a] == s[a] && t[b] == s[b - 1]);
            lemma_text_lt_transitive(rec_key(s[a]), rec_key(r), rec_key(s[b - 1]));
        } else if a == p {
            assert(t[b] == s[b - 1]);
        } else {
            assert(t[a] == s[a - 1] && t[b] == s[b - 1]);
        }
    }
    let m = map_of(s).insert(rec_key(r), rec_state(r));
    assert forall|k: Seq<char>| #[trigger] map_of(t).contains_key(k) == m.contains_key(k) by {
        if map_of(t).contains_key(k) {
            let j = choose|j: int| key_at(t, k, j);
            if j < p {
                assert(key_at(s, k, j));
            } else if j > p {
                assert(key_at(s, k, j - 1));
            }
        }
        if map_of(s).contains_key(k) {
            let j = choose|j: int| key_at(s, k, j);
            if j < p {
                assert(key_at(t, k, j));
            } else {
                assert(key_at(t, k, j + 1));
            }
        }
        if k == rec_key(r) {
            assert(key_at(t, k, p));
        }
    }
    assert forall|k: Seq<char>| #[trigger] map_of(t).contains_key(k) implies map_of(t)[k] == m[k] by {
        let j = choose|j: int| key_at(t, k, j);
        lemma_map_index(t, j);
        if j < p {
            lemma_map_index(s, j);
            assert(t[j] == s[j]);
            lemma_text_lt_irreflexive(rec_key(r));
        } else if j > p {
            lemma_map_index(s, j - 1);
            assert(t[j] == s[j - 1]);
            lemma_text_lt_irreflexive(rec_key(r));
        }
    }
}

proof fn lemma_map_remove(s: Seq<WindowRecord>, i: int)
    requires
        sorted_keys(s),
        0 <= i < s.len(),
    ensures
        sorted_keys(s.remove(i)),
        map_of(s.remove(i)) =~= map_of(s).remove(rec_key(s[i])),
{
    let t = s.remove(i);
    assert forall|a: int, b: int| 0 <= a < b < t.len() implies text_lt(rec_key(#[trigger] t[a]), rec_key(#[trigger] t[b])) by {
        if b < i {
            assert(t[a] == s[a] && t[b] == s[b]);
        } else if a < i {
            assert(t[a] == s[a] && t[b] == s[b + 1]);
        } else {
            assert(t[a] == s[a + 1] && t[b] == s[b + 1]);
        }
    }
    let k0 = rec_key(s[i]);
    let m = map_of(s).remove(k0);
    assert forall|k: Seq<char>| #[trigger] map_of(t).contains_key(k) == m.contains_key(k) by {
        if map_of(t).contains_key(k) {
            let j = choose|j: int| key_at(t, k, j);
            if j < i {
                assert(key_at(s, k, j));
                lemma_distinct(s, j, i);
            } else {
                assert(key_at(s, k, j + 1));
                lemma_distinct(s, j + 1, i);
            }
        }
        if m.contains_key(k) {
            let j = choose|j: int| key_at(s, k, j);
            if j < i {
                assert(key_at(t, k, j));
            } else if j > i {
                assert(key_at(t, k, j - 1));
            }
        }
    }
    assert forall|k: Seq<char>| #[trigger] map_of(t).contains_key(k) implies map_of(t)[k] == m[k] by {
        let j = choose|j: int| key_at(t, k, j);
        lemma_map_index(t, j);
        if j < i {
            lemma_map_index(s, j);
            assert(t[j] == s[j]);
        } else {
            lemma_map_index(s, j + 1);
            assert(t[j] == s[j + 1]);
        }
    }
}

/// The registry of open windows, keyed by window session id.
#[derive(Debug)]
pub struct WindowRegistry {
    records: Vec<WindowRecord>,
    focus_counter: u64,
    retired: Vec<String>,
}

impl View for WindowRegistry {
    type V = RegistryMap;

    closed spec fn view(&self) -> RegistryMap {
        map_of(self.records@)
    }
}

impl WindowRegistry {
    /// The registry's internal invariant: records are held in strictly increasing id order.
    pub closed spec fn wf(&self) -> bool {
        sorted_keys(self.records@)
    }

    /// The window ids in increasing order, the order in which `list` reports them.
    pub closed spec fn order(&self) -> Seq<Seq<char>> {
        keys_of(self.records@)
    }

    /// The number of focus changes recorded so far.
    pub closed spec fn focus_count(&self) -> u64 {
        self.focus_counter
    }

    /// The ids of the windows removed so far, in the order of their removal.
    pub closed spec fn retired_ids(&self) -> Seq<Seq<char>> {
        self.retired@.map_values(|s: String| s@)
    }

    /// Whether `next_id` may hand out this id: no window has it now, and none had it
    /// before being removed.
    pub open spec fn may_issue(&self, id: Seq<char>) -> bool {
        !self@.contains_key(id) && !self.retired_ids().contains(id)
    }

    /// An empty registry.
    pub fn new() -> (r: WindowRegistry)
        ensures
            r.wf(),
            r@ == RegistryMap::empty(),
            r.focus_count() == 0,
            r.retired_ids() == Seq::<Seq<char>>::empty(),
    {
        let r = WindowRegistry { records: Vec::new(), focus_counter: 0, retired: Vec::new() };
        assert(r@ =~= RegistryMap::empty());
        assert(r.retired_ids() =~= Seq::<Seq<char>>::empty());
        r
    }

    /// Whether the id belonged to a window that has been removed.
    fn is_retired(&self, id: &str) -> (b: bool)
        ensures
            b == self.retired_ids().contains(id@),
    {
        let mut i: usize = 0;
        while i < self.retired.len()
            invariant
                i <= self.retired@.len(),
                forall|j: int| 0 <= j < i ==> #[trigger] self.retired@[j]@ != id@,
            decreases self.retired@.len() - i,
        {
            if crate::text::str_eq(self.retired[i].as_str(), id) {
                assert(self.retired_ids()[i as int] == id@);
                return true;
            }
            i += 1;
        }
        proof {
            if self.retired_ids().contains(id@) {
                let j = choose|j: int| 0 <= j < self.retired_ids().len() && self.retired_ids()[j] == id@;
                assert(self.retired@[j]@ == id@);
            }
        }
        false
    }

    /// The index of the window with the given id, if one is registered.
    fn position(&self, id: &str) -> (r: Option<usize>)
        requires
            self.wf(),
        ensures
            match r {
                Some(i) => i < self.records@.len() && rec_key(self.records@[i as int]) == id@
                    && self@.contains_key(id@) && self@[id@] == rec_state(self.records@[i as int]),
                None => !self@.contains_key(id@),
            },
    {
        let mut i: usize = 0;
        while i < self.records.len()
            invariant
                i <= self.records@.len(),
                self.wf(),
                forall|j: int| 0 <= j < i ==> rec_key(#[trigger] self.records@[j]) != id@,
            decreases self.records@.len() - i,
        {
            if crate::text::str_eq(self.records[i].window.window_session_id.as_str(), id) {
                proof {
                    lemma_map_index(self.records@, i as int);
                }
                return Some(i);
            }
            i += 1;
        }
        proof {
            lemma_map_absent(self.records@, id@);
        }
        None
    }

    /// Whether a window with the given id is registered.
    pub fn contains(&self, id: &str) -> (b: bool)
        requires
            self.wf(),
        ensures
            b == self@.contains_key(id@),
    {
        self.position(id).is_some()
    }

    /// Stores a window under its id with focus order 0, replacing any window of that id,
    /// and gives back a copy of it.
    fn insert(&mut self, window: ActiveWindow) -> (w: ActiveWindow)
        requires
            old(self).wf(),
        ensures
            final(self).wf(),
            w@ == window@,
            final(self)@ == old(self)@.insert(window@.window_session_id, (window@, 0u64)),
            final(self).focus_count() == old(self).focus_count(),
            final(self).retired_ids() == old(self).retired_ids(),
    {
        let copy = window.duplicate();
        let key = crate::text::chars_of(window.window_session_id.as_str());
        let record = WindowRecord { window, focus_order: 0 };
        let ghost s = self.records@;
        let mut p: usize = 0;
        while p < self.records.len()
            && crate::broker::text_less(&crate::text::chars_of(self.records[p].window.window_session_id.as_str()), &key)
            invariant
                p <= self.records@.len(),
                key@ == rec_key(record),
                s == self.records@,
                sorted_keys(s),
                forall|j: int| 0 <= j < p ==> text_lt(rec_key(#[trigger] s[j]), rec_key(record)),
            decreases self.records@.len() - p,
        {
            p += 1;
        }
        if p < self.records.len() && crate::text::equals_str(
            &crate::text::chars_of(self.records[p].window.window_session_id.as_str()),
            record.window.window_session_id.as_str(),
        ) {
            proof {
                lemma_map_update(s, p as int, record);
            }
            self.records.set(p, record);
        } else {
            proof {
                assert forall|j: int| p <= j < s.len() implies text_lt(rec_key(record), rec_key(#[trigger] s[j])) by {
                    lemma_text_lt_total(s[p as int].window.window_session_id@, rec_key(record));
                    if j > p {
                        lemma_text_lt_transitive(rec_key(record), rec_key(s[p as int]), rec_key(s[j]));
                    }
                }
                lemma_map_insert(s, p as int, record);
            }
            self.records.insert(p, record);
        }
        copy
    }

    /// The report of the window with the given id.
    pub fn status(&self, window_session_id: &str) -> (r: Result<ActiveWindow, WindowCoreError>)
        requires
            self.wf(),
        ensures
            match r {
                Ok(w) => self@.contains_key(window_session_id@) && w@ == self@[window_session_id@].0,
                Err(e) => !self@.contains_key(window_session_id@)
                    && error_view(e) == (WindowErrorKind::TargetNotFound, window_session_id@),
            },
    {
        match self.position(window_session_id) {
            Some(i) => Ok(self.records[i].window.duplicate()),
            None => Err(WindowCoreError::TargetNotFound(window_session_id.to_string())),
        }
    }

    /// The reports of all windows, in increasing id order.
    pub fn list(&self) -> (v: Vec<ActiveWindow>)
        requires
            self.wf(),
        ensures
            v@.len() == self.order().len(),
            forall|i: int| 0 <= i < v@.len() ==> #[trigger] v@[i]@ == self@[self.order()[i]].0,
            forall|i: int| 0 <= i < self.order().len() ==> self@.contains_key(#[trigger] self.order()[i]),
            forall|i: int, j: int| 0 <= i < j < self.order().len() ==> text_lt(#[trigger] self.order()[i], #[trigger] self.order()[j]),
            forall|k: Seq<char>| self@.contains_key(k) ==> #[trigger] self.order().contains(k),
    {
        let mut v: Vec<ActiveWindow> = Vec::new();
        let mut i: usize = 0;
        while i < self.records.len()
            invariant
                i <= self.records@.len(),
                self.wf(),
                v@.len() == i,
                forall|j: int| 0 <= j < i ==> #[trigger] v@[j]@ == self.records@[j].window@,
            decreases self.records@.len() - i,
        {
            v.push(self.records[i].window.duplicate());
            i += 1;
        }
        proof {
            let s = self.records@;
            assert forall|j: int| 0 <= j < v@.len() implies #[trigger] v@[j]@ == self@[self.order()[j]].0 by {
                lemma_map_index(s, j);
                assert(self.order()[j] == rec_key(s[j]));
            }
            assert forall|j: int| 0 <= j < self.order().len() implies self@.contains_key(#[trigger] self.order()[j]) by {
                lemma_map_index(s, j);
                assert(self.order()[j] == rec_key(s[j]));
            }
            assert forall|k: Seq<char>| self@.contains_key(k) implies #[trigger] self.order().contains(k) by {
                let j = choose|j: int| key_at(s, k, j);
                assert(self.order()[j] == k);
            }
        }
        v
    }

    /// Removes the window with the given id and gives back its report.
    pub fn remove(&mut self, window_session_id: &str) -> (r: Option<ActiveWindow>)
        requires
            old(self).wf(),
        ensures
            final(self).wf(),
            final(self)@ == old(self)@.remove(window_session_id@),
            final(self).focus_count() == old(self).focus_count(),
            final(self).retired_ids() == if old(self)@.contains_key(window_session_id@) {
                old(self).retired_ids().push(window_session_id@)
            } else {
                old(self).retired_ids()
            },
            match r {
                Some(w) => old(self)@.contains_key(window_session_id@) && w@ == old(self)@[window_session_id@].0,
                None => !old(self)@.contains_key(window_session_id@),
            },
    {
        match self.position(window_session_id) {
            Some(i) => {
                proof {
                    lemma_map_remove(self.records@, i as int);
                }
                let ghost before = self.retired_ids();
                let record = self.records.remove(i);
                self.retired.push(window_session_id.to_string());
                assert(self.retired_ids() =~= before.push(window_session_id@));
                Some(record.window)
            },
            None => {
                assert(self@.remove(window_session_id@) =~= self@);
                None
            },
        }
    }
}

/// A registry with one window's report replaced, its focus order kept.
pub open spec fn updated(m: RegistryMap, id: Seq<char>, w: WindowView) -> RegistryMap {
    m.insert(id, (w, m[id].1))
}

/// A newly opened window's report: placed at the origin with the default size, not
/// focused, on no workspace, with no console output.
pub open spec fn fresh_view(
    id: Seq<char>,
    source_kind: SourceKind,
    content_kind: ContentKind,
    requested_source: Seq<char>,
    title: Seq<char>,
    description: Option<Seq<char>>,
    profile: Option<Seq<char>>,
    load_state: LoadState,
) -> WindowView {
    WindowView {
        window_session_id: id,
        source_kind,
        content_kind,
        requested_source,
        current_url: None,
        rendered_url: None,
        url_history: None,
        url_history_truncated: None,
        title,
        description,
        profile,
        authenticated: None,
        load_state,
        load_error: None,
        console_errors: Seq::empty(),
        console_errors_truncated: false,
        width: DEFAULT_WIDTH,
        height: DEFAULT_HEIGHT,
        x: 0,
        y: 0,
        is_maximized: false,
        is_minimized: false,
        is_focused: false,
        is_always_on_top: false,
        workspace: None,
        is_on_all_workspaces: false,
        workspace_history: Seq::empty(),
        workspace_history_truncated: false,
    }
}

/// A newly opened web page: it starts loading its URL, which opens its history.
pub open spec fn opened_web_view(id: Seq<char>, url: Seq<char>, description: Option<Seq<char>>, profile: Option<Seq<char>>) -> WindowView {
    WindowView {
        current_url: Some(url),
        url_history: Some(seq![url]),
        url_history_truncated: Some(false),
        ..fresh_view(id, SourceKind::Web, ContentKind::Web, url, "Portus Window"@, description, profile, LoadState::Started)
    }
}

/// A newly opened web video: it shows the rendered player page for the requested URL,
/// and keeps no URL history.
pub open spec fn opened_web_video_view(
    id: Seq<char>,
    url: Seq<char>,
    rendered: Seq<char>,
    description: Option<Seq<char>>,
    profile: Option<Seq<char>>,
) -> WindowView {
    WindowView {
        current_url: Some(url),
        rendered_url: Some(rendered),
        ..fresh_view(id, SourceKind::Web, ContentKind::Video, url, "YouTube Video"@, description, profile, LoadState::Started)
    }
}

/// A newly opened local media file, loaded at once.
pub open spec fn opened_media_view(
    id: Seq<char>,
    source: Seq<char>,
    content_kind: ContentKind,
    title: Seq<char>,
    description: Option<Seq<char>>,
    profile: Option<Seq<char>>,
) -> WindowView {
    fresh_view(id, SourceKind::LocalMedia, content_kind, source, title, description, profile, LoadState::Loaded)
}

fn fresh_window(
    id: String,
    source_kind: SourceKind,
    content_kind: ContentKind,
    requested_source: String,
    title: String,
    description: Option<String>,
    profile: Option<String>,
    load_state: LoadState,
) -> (w: ActiveWindow)
    ensures
        w@ == fresh_view(id@, source_kind, content_kind, requested_source@, title@, opt_view(description), opt_view(profile), load_state),
{
    let w = ActiveWindow {
        window_session_id: id,
        source_kind,
        content_kind,
        requested_source,
        current_url: None,
        rendered_url: None,
        url_history: None,
        url_history_truncated: None,
        title,
        description,
        profile,
        authenticated: None,
        load_state,
        load_error: None,
        console_errors: Vec::new(),
        console_errors_truncated: false,
        width: DEFAULT_WIDTH,
        height: DEFAULT_HEIGHT,
        x: 0,
        y: 0,
        is_maximized: false,
        is_minimized: false,
        is_focused: false,
        is_always_on_top: false,
        workspace: None,
        is_on_all_workspaces: false,
        workspace_history: Vec::new(),
        workspace_history_truncated: false,
    };
    assert(w@.console_errors =~= Seq::<ConsoleEntryView>::empty());
    assert(w@.workspace_history =~= Seq::<u32>::empty());
    w
}

impl WindowRegistry {
    fn replace_window(&mut self, i: usize, window: ActiveWindow)
        requires
            old(self).wf(),
            i < old(self).records@.len(),
            window@.window_session_id == rec_key(old(self).records@[i as int]),
        ensures
            final(self).wf(),
            final(self)@ == updated(old(self)@, window@.window_session_id, window@),
            final(self).focus_count() == old(self).focus_count(),
            final(self).retired_ids() == old(self).retired_ids(),
    {
        let ghost s = self.records@;
        let order = self.records[i].focus_order;
        let record = WindowRecord { window, focus_order: order };
        proof {
            lemma_map_index(s, i as int);
            lemma_map_update(s, i as int, record);
        }
        self.records.set(i, record);
    }

    /// Registers a newly opened web page and gives back its report.
    pub fn insert_opened_web(
        &mut self,
        window_session_id: String,
        requested_url: String,
        description: Option<String>,
        profile: Option<String>,
    ) -> (w: ActiveWindow)
        requires
            old(self).wf(),
        ensures
            final(self).wf(),
            w@ == opened_web_view(window_session_id@, requested_url@, opt_view(description), opt_view(profile)),
            final(self)@ == old(self)@.insert(window_session_id@, (w@, 0u64)),
            final(self).focus_count() == old(self).focus_count(),
            final(self).retired_ids() == old(self).retired_ids(),
    {
        proof { reveal_strlit("Portus Window"); }
        let mut w = fresh_window(
            window_session_id,
            SourceKind::Web,
            ContentKind::Web,
            requested_url.clone(),
            "Portus Window".to_string(),
            description,
            profile,
            LoadState::Started,
        );
        let mut history: Vec<String> = Vec::new();
        history.push(requested_url.clone());
        w.current_url = Some(requested_url);
        w.url_history = Some(history);
        w.url_history_truncated = Some(false);
        assert(string_views(history@) =~= seq![requested_url@]);
        self.insert(w)
    }

    /// Registers a newly opened web video and gives back its report.
    pub fn insert_opened_web_video(
        &mut self,
        window_session_id: String,
        requested_url: String,
        rendered_url: String,
        description: Option<String>,
        profile: Option<String>,
    ) -> (w: ActiveWindow)
        requires
            old(self).wf(),
        ensures
            final(self).wf(),
            w@ == opened_web_video_view(window_session_id@, requested_url@, rendered_url@, opt_view(description), opt_view(profile)),
            final(self)@ == old(self)@.insert(window_session_id@, (w@, 0u64)),
            final(self).focus_count() == old(self).focus_count(),
            final(self).retired_ids() == old(self).retired_ids(),
    {
        proof { reveal_strlit("YouTube Video"); }
        let mut w = fresh_window(
            window_session_id,
            SourceKind::Web,
            ContentKind::Video,
            requested_url.clone(),
            "YouTube Video".to_string(),
            description,
            profile,
            LoadState::Started,
        );
        w.current_url = Some(requested_url);
        w.rendered_url = Some(rendered_url);
        self.insert(w)
    }

    /// Registers a newly opened local media file and gives back its report.
    pub fn insert_opened_media(
        &mut self,
        window_session_id: String,
        requested_source: String,
        content_kind: ContentKind,
        title: String,
        description: Option<String>,
        profile: Option<String>,
    ) -> (r: Result<ActiveWindow, WindowCoreError>)
        requires
            old(self).wf(),
        ensures
            final(self).wf(),
            r is Ok,
            r matches Ok(w) ==> w@ == opened_media_view(window_session_id@, requested_source@, content_kind, title@, opt_view(description), opt_view(profile))
                && final(self)@ == old(self)@.insert(window_session_id@, (w@, 0u64)),
            final(self).focus_count() == old(self).focus_count(),
            final(self).retired_ids() == old(self).retired_ids(),
    {
        let w = fresh_window(
            window_session_id,
            SourceKind::LocalMedia,
            content_kind,
            requested_source,
            title,
            description,
            profile,
            LoadState::Loaded,
        );
        Ok(self.insert(w))
    }

    /// Replaces a window's description as given.
    pub fn set_description(&mut self, window_session_id: &str, description: Option<String>) -> (r: Result<ActiveWindow, WindowCoreError>)
        requires
            old(self).wf(),
        ensures
            final(self).wf(),
            final(self).focus_count() == old(self).focus_count(),
            final(self).retired_ids() == old(self).retired_ids(),
            match r {
                Ok(w) => old(self)@.contains_key(window_session_id@)
                    && w@ == WindowView { description: opt_view(description), ..old(self)@[window_session_id@].0 }
                    && final(self)@ == updated(old(self)@, window_session_id@, w@),
                Err(e) => !old(self)@.contains_key(window_session_id@) && final(self)@ == old(self)@
                    && error_view(e) == (WindowErrorKind::TargetNotFound, window_session_id@),
            },
    {
        match self.position(window_session_id) {
            Some(i) => {
                let mut w = self.records[i].window.duplicate();
                w.description = description;
                let out = w.duplicate();
                self.replace_window(i, w);
                Ok(out)
            },
            None => Err(WindowCoreError::TargetNotFound(window_session_id.to_string())),
        }
    }

    /// Validates a description and sets it on a window: blank clears it.
    pub fn tag(&mut self, window_session_id: &str, description: String) -> (r: Result<ActiveWindow, WindowCoreError>)
        requires
            old(self).wf(),
        ensures
            final(self).wf(),
            final(self).focus_count() == old(self).focus_count(),
            final(self).retired_ids() == old(self).retired_ids(),
            match r {
                Ok(w) => old(self)@.contains_key(window_session_id@)
                    && (description_outcome(Some(description@)) matches Ok(d)
                    && w@ == WindowView { description: d, ..old(self)@[window_session_id@].0 })
                    && final(self)@ == updated(old(self)@, window_session_id@, w@),
                Err(e) => final(self)@ == old(self)@ && match description_outcome(Some(description@)) {
                    Err(v) => error_view(e) == v,
                    Ok(_) => !old(self)@.contains_key(window_session_id@)
                        && error_view(e) == (WindowErrorKind::TargetNotFound, window_session_id@),
                },
            },
    {
        let ghost d = description@;
        let validated = match validate_description(Some(description)) {
            Ok(v) => v,
            Err(e) => return Err(e),
        };
        assert(description_outcome(Some(d)) == Ok::<Option<Seq<char>>, (WindowErrorKind, Seq<char>)>(opt_view(validated)));
        self.set_description(window_session_id, validated)
    }

    /// Records whether a window is maximized.
    pub fn set_maximized(&mut self, window_session_id: &str, value: bool) -> (r: Result<ActiveWindow, WindowCoreError>)
        requires
            old(self).wf(),
        ensures
            final(self).wf(),
            final(self).focus_count() == old(self).focus_count(),
            final(self).retired_ids() == old(self).retired_ids(),
            match r {
                Ok(w) => old(self)@.contains_key(window_session_id@)
                    && w@ == WindowView { is_maximized: value, ..old(self)@[window_session_id@].0 }
                    && final(self)@ == updated(old(self)@, window_session_id@, w@),
                Err(e) => !old(self)@.contains_key(window_session_id@) && final(self)@ == old(self)@
                    && error_view(e) == (WindowErrorKind::TargetNotFound, window_session_id@),
            },
    {
        match self.position(window_session_id) {
            Some(i) => {
                let mut w = self.records[i].window.duplicate();
                w.is_maximized = value;
                let out = w.duplicate();
                self.replace_window(i, w);
                Ok(out)
            },
            None => Err(WindowCoreError::TargetNotFound(window_session_id.to_string())),
        }
    }

    /// Records whether a window is minimized.
    pub fn set_minimized(&mut self, window_session_id: &str, value: bool) -> (r: Result<ActiveWindow, WindowCoreError>)
        requires
            old(self).wf(),
        ensures
            final(self).wf(),
            final(self).focus_count() == old(self).focus_count(),
            final(self).retired_ids() == old(self).retired_ids(),
            match r {
                Ok(w) => old(self)@.contains_key(window_session_id@)
                    && w@ == WindowView { is_minimized: value, ..old(self)@[window_session_id@].0 }
                    && final(self)@ == updated(old(self)@, window_session_id@, w@),
                Err(e) => !old(self)@.contains_key(window_session_id@) && final(self)@ == old(self)@
                    && error_view(e) == (WindowErrorKind::TargetNotFound, window_session_id@),
            },
    {
        match self.position(window_session_id) {
            Some(i) => {
                let mut w = self.records[i].window.duplicate();
                w.is_minimized = value;
                let out = w.duplicate();
                self.replace_window(i, w);
                Ok(out)
            },
            None => Err(WindowCoreError::TargetNotFound(window_session_id.to_string())),
        }
    }
}

/// Whether a window shows a web page (not a video player or local media).
pub open spec fn is_web_page(w: WindowView) -> bool {
    w.source_kind == SourceKind::Web && w.content_kind == ContentKind::Web
}

/// The registry after an event that changes one window's report where `applies` holds
/// of it; nothing changes for an unknown window.
pub open spec fn event_result(m: RegistryMap, id: Seq<char>, applies: bool, w: WindowView) -> RegistryMap {
    if m.contains_key(id) && applies { updated(m, id, w) } else { m }
}

/// A report with the URL the page now shows.
pub open spec fn with_observed_url(w: WindowView, url: Seq<char>) -> WindowView {
    WindowView { current_url: Some(clip(url, MAX_URL_CHARS as nat)), ..w }
}

/// A report of a page that started loading a URL.
pub open spec fn with_page_started(w: WindowView, url: Seq<char>) -> WindowView {
    WindowView { load_state: LoadState::Started, load_error: None, current_url: Some(clip(url, MAX_URL_CHARS as nat)), ..w }
}

/// Whether a page-started event repeats the URL whose load failed: it does not clear the failure.
pub open spec fn repeats_failed_url(w: WindowView, url: Seq<char>) -> bool {
    w.load_state == LoadState::Failed && w.current_url == Some(url)
}

/// A report of a page that failed to load a URL.
pub open spec fn with_page_failed(w: WindowView, url: Seq<char>, error: Seq<char>) -> WindowView {
    WindowView {
        load_state: LoadState::Failed,
        load_error: Some(clip(error, MAX_LOAD_ERROR_CHARS as nat)),
        current_url: Some(clip(url, MAX_URL_CHARS as nat)),
        ..w
    }
}

/// A report with a page title.
pub open spec fn with_title(w: WindowView, title: Seq<char>) -> WindowView {
    WindowView { title: clip(title, MAX_TITLE_CHARS as nat), ..w }
}

/// The console entries a window keeps after more arrive: the newest, as many as the bound
/// admits; the flag is set when older ones were dropped here, else it is the source's.
pub open spec fn with_console_entries(w: WindowView, entries: Seq<ConsoleEntryView>, source_truncated: bool) -> WindowView {
    let all = w.console_errors + entries;
    if all.len() > MAX_CONSOLE_ENTRIES {
        WindowView { console_errors: all.skip(all.len() - MAX_CONSOLE_ENTRIES), console_errors_truncated: true, ..w }
    } else {
        WindowView { console_errors: all, console_errors_truncated: source_truncated, ..w }
    }
}

impl WindowRegistry {
    /// Records the URL a web page now shows.
    pub fn record_observed_url(&mut self, window_session_id: &str, url: String)
        requires
            old(self).wf(),
        ensures
            final(self).wf(),
            final(self).focus_count() == old(self).focus_count(),
            final(self).retired_ids() == old(self).retired_ids(),
            final(self)@ == event_result(old(self)@, window_session_id@,
                is_web_page(old(self)@[window_session_id@].0),
                with_observed_url(old(self)@[window_session_id@].0, url@)),
    {
        match self.position(window_session_id) {
            Some(i) => {
                if self.records[i].window.source_kind == SourceKind::Web && self.records[i].window.content_kind == ContentKind::Web {
                    let mut w = self.records[i].window.duplicate();
                    w.current_url = Some(truncate_chars(url, MAX_URL_CHARS));
                    self.replace_window(i, w);
                }
            },
            None => {},
        }
    }

    /// Records that a web page started loading a URL; a repeat of a failed URL keeps the
    /// failure.
    pub fn record_page_started(&mut self, window_session_id: &str, url: String)
        requires
            old(self).wf(),
        ensures
            final(self).wf(),
            final(self).focus_count() == old(self).focus_count(),
            final(self).retired_ids() == old(self).retired_ids(),
            final(self)@ == event_result(old(self)@, window_session_id@,
                is_web_page(old(self)@[window_session_id@].0)
                    && !repeats_failed_url(old(self)@[window_session_id@].0, url@),
                with_page_started(old(self)@[window_session_id@].0, url@)),
    {
        match self.position(window_session_id) {
            Some(i) => {
                let same_failed_url = self.records[i].window.load_state == LoadState::Failed && match &self.records[i].window.current_url {
                    Some(u) => crate::auth_domain::string_eq(u, &url),
                    None => false,
                };
                if self.records[i].window.source_kind == SourceKind::Web && self.records[i].window.content_kind == ContentKind::Web
                    && !same_failed_url {
                    let mut w = self.records[i].window.duplicate();
                    w.load_state = LoadState::Started;
                    w.load_error = None;
                    w.current_url = Some(truncate_chars(url, MAX_URL_CHARS));
                    self.replace_window(i, w);
                }
            },
            None => {},
        }
    }

    /// Records that a page failed to load a URL.
    pub fn record_page_failed(&mut self, window_session_id: &str, url: String, error: String)
        requires
            old(self).wf(),
        ensures
            final(self).wf(),
            final(self).focus_count() == old(self).focus_count(),
            final(self).retired_ids() == old(self).retired_ids(),
            final(self)@ == event_result(old(self)@, window_session_id@,
                old(self)@[window_session_id@].0.source_kind == SourceKind::Web,
                with_page_failed(old(self)@[window_session_id@].0, url@, error@)),
    {
        match self.position(window_session_id) {
            Some(i) => {
                if self.records[i].window.source_kind == SourceKind::Web {
                    let mut w = self.records[i].window.duplicate();
                    w.load_state = LoadState::Failed;
                    w.load_error = Some(truncate_chars(error, MAX_LOAD_ERROR_CHARS));
                    w.current_url = Some(truncate_chars(url, MAX_URL_CHARS));
                    self.replace_window(i, w);
                }
            },
            None => {},
        }
    }

    /// Records a web window's title.
    pub fn record_title(&mut self, window_session_id: &str, title: String)
        requires
            old(self).wf(),
        ensures
            final(self).wf(),
            final(self).focus_count() == old(self).focus_count(),
            final(self).retired_ids() == old(self).retired_ids(),
            final(self)@ == event_result(old(self)@, window_session_id@,
                old(self)@[window_session_id@].0.source_kind == SourceKind::Web,
                with_title(old(self)@[window_session_id@].0, title@)),
    {
        match self.position(window_session_id) {
            Some(i) => {
                if self.records[i].window.source_kind == SourceKind::Web {
                    let mut w = self.records[i].window.duplicate();
                    w.title = truncate_chars(title, MAX_TITLE_CHARS);
                    self.replace_window(i, w);
                }
            },
            None => {},
        }
    }

    /// Records whether a web window is signed in, where that is known.
    pub fn record_authenticated(&mut self, window_session_id: &str, authenticated: Option<bool>)
        requires
            old(self).wf(),
        ensures
            final(self).wf(),
            final(self).focus_count() == old(self).focus_count(),
            final(self).retired_ids() == old(self).retired_ids(),
            final(self)@ == event_result(old(self)@, window_session_id@,
                old(self)@[window_session_id@].0.source_kind == SourceKind::Web,
                WindowView { authenticated, ..old(self)@[window_session_id@].0 }),
    {
        match self.position(window_session_id) {
            Some(i) => {
                if self.records[i].window.source_kind == SourceKind::Web {
                    let mut w = self.records[i].window.duplicate();
                    w.authenticated = authenticated;
                    self.replace_window(i, w);
                }
            },
            None => {},
        }
    }

    /// Adds console entries a web window reported, keeping the newest within the bound.
    pub fn record_console_entries(&mut self, window_session_id: &str, entries: &[ConsoleEntry], source_truncated: bool)
        requires
            old(self).wf(),
        ensures
            final(self).wf(),
            final(self).focus_count() == old(self).focus_count(),
            final(self).retired_ids() == old(self).retired_ids(),
            final(self)@ == event_result(old(self)@, window_session_id@,
                old(self)@[window_session_id@].0.source_kind == SourceKind::Web,
                with_console_entries(old(self)@[window_session_id@].0, entry_views(entries@), source_truncated)),
    {
        match self.position(window_session_id) {
            Some(i) => {
                if self.records[i].window.source_kind == SourceKind::Web {
                    let mut w = self.records[i].window.duplicate();
                    let ghost old_entries = entry_views(w.console_errors@);
                    let mut all = duplicate_entries(w.console_errors.as_slice());
                    let ghost n0 = old_entries.len();
                    let mut j: usize = 0;
                    while j < entries.len()
                        invariant
                            j <= entries@.len(),
                            all@.len() == n0 + j,
                            old_entries.len() == n0,
                            forall|a: int| 0 <= a < n0 ==> entry_view(#[trigger] all@[a]) == old_entries[a],
                            forall|a: int| 0 <= a < j ==> entry_view(#[trigger] all@[n0 + a]) == entry_view(entries@[a]),
                        decreases entries@.len() - j,
                    {
                        proof {
                            assert forall|a: int| 0 <= a < n0 implies entry_view(#[trigger] all@[a]) == old_entries[a] by {}
                        }
                        let e = duplicate_entry(&entries[j]);
                        all.push(e);
                        assert(all@[n0 + j] == e);
                        j += 1;
                    }
                    proof {
                        assert forall|a: int| 0 <= a < all@.len() implies #[trigger] entry_views(all@)[a] == (old_entries + entry_views(entries@))[a] by {
                            if a < n0 {
                            } else {
                                assert(entry_view(all@[n0 + (a - n0)]) == entry_view(entries@[a - n0]));
                            }
                        }
                        assert(entry_views(all@) =~= old_entries + entry_views(entries@));
                    }
                    let ghost whole = entry_views(all@);
                    if all.len() > MAX_CONSOLE_ENTRIES {
                        let overflow = all.len() - MAX_CONSOLE_ENTRIES;
                        let mut kept: Vec<ConsoleEntry> = Vec::new();
                        let mut k: usize = overflow;
                        while k < all.len()
                            invariant
                                overflow <= k <= all@.len(),
                                entry_views(all@) == whole,
                                kept@.len() == k - overflow,
                                forall|a: int| 0 <= a < k - overflow ==> entry_view(#[trigger] kept@[a]) == whole[overflow + a],
                            decreases all@.len() - k,
                        {
                            let e = duplicate_entry(&all[k]);
                            kept.push(e);
                            assert(whole[k as int] == entry_view(all@[k as int]));
                            k += 1;
                        }
                        assert(entry_views(kept@) =~= whole.skip(overflow as int));
                        w.console_errors = kept;
                        w.console_errors_truncated = true;
                    } else {
                        w.console_errors = all;
                        w.console_errors_truncated = source_truncated;
                    }
                    self.replace_window(i, w);
                }
            },
            None => {},
        }
    }
}

/// The URL history of a report, empty where it keeps none.
pub open spec fn history_or_empty(w: WindowView) -> Seq<Seq<char>> {
    match w.url_history {
        Some(h) => h,
        None => Seq::empty(),
    }
}

/// How a report changes when its page finished loading a URL: it is loaded, shows the
/// URL, and the URL joins the history unless it repeats the last entry; a history that
/// then exceeds its bounds loses its oldest entries, as few as need to go, and is marked
/// truncated.
pub open spec fn page_finished(w: WindowView, nw: WindowView, url: Seq<char>) -> bool {
    let u = clip(url, MAX_URL_CHARS as nat);
    let h = history_or_empty(w);
    let h1 = h.push(u);
    &&& nw == WindowView {
        load_state: LoadState::Loaded,
        load_error: None,
        current_url: Some(u),
        url_history: nw.url_history,
        url_history_truncated: nw.url_history_truncated,
        ..w
    }
    &&& if h.len() > 0 && h.last() == u {
        nw.url_history == Some(h) && nw.url_history_truncated == w.url_history_truncated
    } else {
        exists|k: int| 0 <= k <= h1.len() && nw.url_history == Some(h1.skip(k)) && history_fits(h1.skip(k))
            && (forall|j: int| 0 <= j < k ==> !history_fits(#[trigger] h1.skip(j)))
            && nw.url_history_truncated == (if k > 0 { Some(true) } else { w.url_history_truncated })
    }
}

/// Whether a finished load is recorded: only on a web page whose load has not failed.
pub open spec fn records_finish(w: WindowView) -> bool {
    is_web_page(w) && w.load_state != LoadState::Failed && w.load_error is None
}

/// Every window with its focus flag cleared, except the newly focused one, which gets
/// the given focus order.
pub open spec fn focused_map(m: RegistryMap, id: Seq<char>, order: u64) -> RegistryMap {
    Map::new(
        |k: Seq<char>| m.contains_key(k),
        |k: Seq<char>| if k == id {
            (WindowView { is_focused: true, ..m[k].0 }, order)
        } else {
            (WindowView { is_focused: false, ..m[k].0 }, m[k].1)
        },
    )
}

/// The largest workspace history kept.
pub const MAX_WINDOW_WORKSPACE_HISTORY: usize = 128;

/// A report after the window's workspace was observed: on all workspaces, or on the given
/// one, which joins the history unless it repeats the last entry; a full history drops
/// its oldest entry first and is marked truncated.
pub open spec fn with_workspace(w: WindowView, index: Option<u32>, all: bool) -> WindowView {
    let ws = if all { None } else { index };
    let base = WindowView { workspace: ws, is_on_all_workspaces: all, ..w };
    let h = w.workspace_history;
    match ws {
        Some(i) => if h.len() == 0 || h.last() != i {
            if h.len() >= MAX_WINDOW_WORKSPACE_HISTORY {
                WindowView { workspace_history: h.drop_first().push(i), workspace_history_truncated: true, ..base }
            } else {
                WindowView { workspace_history: h.push(i), ..base }
            }
        } else {
            base
        },
        None => base,
    }
}

/// A report after a resize: each given dimension, position and on-top flag replaces the
/// old one; a window state sets the maximized and minimized flags.
pub open spec fn resized(w: WindowView, spec: ResizeSpec) -> WindowView {
    let w1 = WindowView {
        width: match spec.width { Some(v) => v, None => w.width },
        height: match spec.height { Some(v) => v, None => w.height },
        x: match spec.x { Some(v) => v, None => w.x },
        y: match spec.y { Some(v) => v, None => w.y },
        is_always_on_top: match spec.always_on_top { Some(v) => v, None => w.is_always_on_top },
        ..w
    };
    match spec.state {
        Some(WindowStateAction::Maximize) => WindowView { is_maximized: true, is_minimized: false, ..w1 },
        Some(WindowStateAction::Minimize) => WindowView { is_maximized: false, is_minimized: true, ..w1 },
        Some(_) => WindowView { is_maximized: false, is_minimized: false, ..w1 },
        None => w1,
    }
}

/// Whether a window presents local audio or video.
pub open spec fn is_media_player(w: WindowView) -> bool {
    w.source_kind == SourceKind::LocalMedia && (w.content_kind == ContentKind::Audio || w.content_kind == ContentKind::Video)
}

fn workspace_window(w: ActiveWindow, index: Option<u32>, all: bool) -> (r: ActiveWindow)
    ensures
        r@ == with_workspace(w@, index, all),
{
    let ghost w0 = w@;
    let mut w = w;
    w.workspace = if all { None } else { index };
    w.is_on_all_workspaces = all;
    match w.workspace {
        Some(i) => {
            let n = w.workspace_history.len();
            if n == 0 || w.workspace_history[n - 1] != i {
                if n >= MAX_WINDOW_WORKSPACE_HISTORY {
                    w.workspace_history.remove(0);
                    w.workspace_history_truncated = true;
                    assert(w.workspace_history@ =~= w0.workspace_history.drop_first());
                }
                w.workspace_history.push(i);
            }
        },
        None => {},
    }
    w
}

fn resized_window(w: ActiveWindow, spec: &ResizeSpec) -> (r: ActiveWindow)
    ensures
        r@ == resized(w@, *spec),
{
    let mut w = w;
    w.width = match spec.width { Some(v) => v, None => w.width };
    w.height = match spec.height { Some(v) => v, None => w.height };
    w.x = match spec.x { Some(v) => v, None => w.x };
    w.y = match spec.y { Some(v) => v, None => w.y };
    w.is_always_on_top = match spec.always_on_top { Some(v) => v, None => w.is_always_on_top };
    let (maximized, minimized) = match spec.state {
        Some(WindowStateAction::Maximize) => (true, false),
        Some(WindowStateAction::Minimize) => (false, true),
        Some(_) => (false, false),
        None => (w.is_maximized, w.is_minimized),
    };
    w.is_maximized = maximized;
    w.is_minimized = minimized;
    w
}

fn refocus(records: &mut Vec<WindowRecord>, id_text: &str, order: u64)
    requires
        sorted_keys(old(records)@),
    ensures
        sorted_keys(final(records)@),
        map_of(final(records)@) == focused_map(map_of(old(records)@), id_text@, order),
{
    let ghost s = records@;
    let ghost id = id_text@;
    let mut i: usize = 0;
    while i < records.len()
        invariant
            i <= records@.len(),
            records@.len() == s.len(),
            sorted_keys(s),
            id == id_text@,
            forall|j: int| 0 <= j < records@.len() ==> rec_key(#[trigger] records@[j]) == rec_key(s[j]),
            forall|j: int| i <= j < records@.len() ==> #[trigger] records@[j] == s[j],
            forall|j: int| 0 <= j < i ==> #[trigger] rec_state(records@[j]) == (if rec_key(s[j]) == id {
                (WindowView { is_focused: true, ..rec_state(s[j]).0 }, order)
            } else {
                (WindowView { is_focused: false, ..rec_state(s[j]).0 }, rec_state(s[j]).1)
            }),
        decreases records@.len() - i,
    {
        assert(records@[i as int] == s[i as int]);
        let is_target = crate::text::str_eq(records[i].window.window_session_id.as_str(), id_text);
        let mut w = records[i].window.duplicate();
        w.is_focused = is_target;
        let focus_order = if is_target { order } else { records[i].focus_order };
        assert(w@ == WindowView { is_focused: is_target, ..rec_state(s[i as int]).0 });
        let ghost before = records@;
        records.set(i, WindowRecord { window: w, focus_order });
        assert(forall|j: int| 0 <= j < records@.len() && j != i ==> records@[j] == before[j]);
        assert(rec_state(records@[i as int]) == (if rec_key(s[i as int]) == id {
            (WindowView { is_focused: true, ..rec_state(s[i as int]).0 }, order)
        } else {
            (WindowView { is_focused: false, ..rec_state(s[i as int]).0 }, rec_state(s[i as int]).1)
        }));
        i += 1;
    }
    proof {
        let t = records@;
        assert(sorted_keys(t)) by {
            assert forall|a: int, b: int| 0 <= a < b < t.len() implies text_lt(rec_key(#[trigger] t[a]), rec_key(#[trigger] t[b])) by {
                assert(rec_key(t[a]) == rec_key(s[a]));
                assert(rec_key(t[b]) == rec_key(s[b]));
            }
        }
        let m = focused_map(map_of(s), id, order);
        assert forall|k: Seq<char>| #[trigger] map_of(t).contains_key(k) == m.contains_key(k) by {
            if map_of(t).contains_key(k) {
                let j = choose|j: int| key_at(t, k, j);
                assert(key_at(s, k, j));
            }
            if map_of(s).contains_key(k) {
                let j = choose|j: int| key_at(s, k, j);
                assert(key_at(t, k, j));
            }
        }
        assert forall|k: Seq<char>| #[trigger] map_of(t).contains_key(k) implies map_of(t)[k] == m[k] by {
            let j = choose|j: int| key_at(t, k, j);
            lemma_map_index(t, j);
            lemma_map_index(s, j);
        }
        assert(map_of(t) =~= m);
    }
}

impl WindowRegistry {
    /// Records that a web page finished loading a URL.
    pub fn record_page_finished(&mut self, window_session_id: &str, url: String)
        requires
            old(self).wf(),
        ensures
            final(self).wf(),
            final(self).focus_count() == old(self).focus_count(),
            final(self).retired_ids() == old(self).retired_ids(),
            !(old(self)@.contains_key(window_session_id@) && records_finish(old(self)@[window_session_id@].0))
                ==> final(self)@ == old(self)@,
            old(self)@.contains_key(window_session_id@) && records_finish(old(self)@[window_session_id@].0)
                ==> final(self)@.contains_key(window_session_id@)
                && final(self)@ == updated(old(self)@, window_session_id@, final(self)@[window_session_id@].0)
                && page_finished(old(self)@[window_session_id@].0, final(self)@[window_session_id@].0, url@),
    {
        match self.position(window_session_id) {
            Some(i) => {
                let wr = &self.records[i].window;
                if wr.source_kind == SourceKind::Web && wr.content_kind == ContentKind::Web && wr.load_state != LoadState::Failed
                    && wr.load_error.is_none() {
                    let mut w = self.records[i].window.duplicate();
                    let ghost w0 = w@;
                    let u = truncate_chars(url, MAX_URL_CHARS);
                    w.load_state = LoadState::Loaded;
                    w.load_error = None;
                    w.current_url = Some(u.clone());
                    let mut history: Vec<String> = match &w.url_history {
                        Some(h) => clone_strings(h.as_slice()),
                        None => Vec::new(),
                    };
                    let ghost h = string_views(history@);
                    assert(h =~= history_or_empty(w0));
                    let n = history.len();
                    let repeats = n > 0 && crate::auth_domain::string_eq(&history[n - 1], &u);
                    proof {
                        if n > 0 {
                            assert(h.last() == history@[n - 1]@);
                        }
                    }
                    if !repeats {
                        history.push(u);
                        let ghost h1 = h.push(clip(url@, MAX_URL_CHARS as nat));
                        assert(string_views(history@) =~= h1);
                        let ghost before = history@;
                        let mut flag = w.url_history_truncated;
                        crate::window_core::trim_url_history(&mut history, &mut flag);
                        proof {
                            let k = choose|k: int| 0 <= k <= before.len() && history@ == before.skip(k)
                                && history_fits(string_views(history@))
                                && (forall|j: int| 0 <= j < k ==> !history_fits(string_views(#[trigger] before.skip(j))))
                                && flag == (if k > 0 { Some(true) } else { w0.url_history_truncated });
                            assert forall|j: int| 0 <= j <= before.len() implies #[trigger] string_views(before.skip(j)) == h1.skip(j) by {
                                assert(string_views(before.skip(j)) =~= string_views(before).skip(j));
                            }
                            assert forall|j: int| 0 <= j < k implies !history_fits(#[trigger] h1.skip(j)) by {
                                assert(string_views(before.skip(j)) == h1.skip(j));
                            }
                            assert(string_views(history@) == h1.skip(k));
                        }
                        w.url_history_truncated = flag;
                    }
                    w.url_history = Some(history);
                    self.replace_window(i, w);
                }
            },
            None => {},
        }
    }

    /// Records a change of focus. Gaining focus takes it from every other window and
    /// stamps the window with the next focus order (which stops at `u64::MAX`); losing it
    /// clears the window's flag. Unknown windows are ignored.
    pub fn record_focus(&mut self, window_session_id: &str, focused: bool)
        requires
            old(self).wf(),
        ensures
            final(self).wf(),
            final(self).retired_ids() == old(self).retired_ids(),
            !old(self)@.contains_key(window_session_id@) ==> final(self)@ == old(self)@
                && final(self).focus_count() == old(self).focus_count(),
            old(self)@.contains_key(window_session_id@) && focused ==> final(self).focus_count() == (
                if old(self).focus_count() < u64::MAX { old(self).focus_count() + 1 } else { old(self).focus_count() as int })
                && final(self)@ == focused_map(old(self)@, window_session_id@, final(self).focus_count()),
            old(self)@.contains_key(window_session_id@) && !focused ==> final(self).focus_count() == old(self).focus_count()
                && final(self)@ == updated(old(self)@, window_session_id@,
                    WindowView { is_focused: false, ..old(self)@[window_session_id@].0 }),
    {
        let p = match self.position(window_session_id) {
            Some(p) => p,
            None => return,
        };
        if !focused {
            let mut w = self.records[p].window.duplicate();
            w.is_focused = false;
            self.replace_window(p, w);
            return;
        }
        if self.focus_counter < u64::MAX {
            self.focus_counter = self.focus_counter + 1;
        }
        let order = self.focus_counter;
        refocus(&mut self.records, window_session_id, order);
    }

    /// Records the workspace a window is on, or that it is on all of them.
    pub fn record_workspace(&mut self, window_session_id: &str, index: Option<u32>, all: bool) -> (r: Result<ActiveWindow, WindowCoreError>)
        requires
            old(self).wf(),
        ensures
            final(self).wf(),
            final(self).focus_count() == old(self).focus_count(),
            final(self).retired_ids() == old(self).retired_ids(),
            match r {
                Ok(w) => !(index matches Some(i) && i > 255) && old(self)@.contains_key(window_session_id@)
                    && w@ == with_workspace(old(self)@[window_session_id@].0, index, all)
                    && final(self)@ == updated(old(self)@, window_session_id@, w@),
                Err(e) => final(self)@ == old(self)@ && if index matches Some(i) && i > 255 {
                    error_view(e) == (WindowErrorKind::Validation, "workspace index must be between 0 and 255"@)
                } else {
                    !old(self)@.contains_key(window_session_id@)
                        && error_view(e) == (WindowErrorKind::TargetNotFound, window_session_id@)
                },
            },
    {
        match index {
            Some(i) => if i > 255 {
                proof { reveal_strlit("workspace index must be between 0 and 255"); }
                return Err(WindowCoreError::Validation("workspace index must be between 0 and 255".to_string()));
            },
            None => {},
        }
        let p = match self.position(window_session_id) {
            Some(p) => p,
            None => return Err(WindowCoreError::TargetNotFound(window_session_id.to_string())),
        };
        let w = workspace_window(self.records[p].window.duplicate(), index, all);
        let out = w.duplicate();
        self.replace_window(p, w);
        Ok(out)
    }

    /// Checks that a media state may be recorded for a window: it must present local
    /// audio or video. Gives back the window's report; the state itself is kept by the
    /// daemon.
    pub fn record_media_state(&self, window_session_id: &str) -> (r: Result<ActiveWindow, WindowCoreError>)
        requires
            self.wf(),
        ensures
            match r {
                Ok(w) => self@.contains_key(window_session_id@) && is_media_player(self@[window_session_id@].0)
                    && w@ == self@[window_session_id@].0,
                Err(e) => if !self@.contains_key(window_session_id@) {
                    error_view(e) == (WindowErrorKind::TargetNotFound, window_session_id@)
                } else {
                    !is_media_player(self@[window_session_id@].0) && error_view(e) == (WindowErrorKind::Validation,
                        "media state can only be recorded for audio/video windows"@)
                },
            },
    {
        let p = match self.position(window_session_id) {
            Some(p) => p,
            None => return Err(WindowCoreError::TargetNotFound(window_session_id.to_string())),
        };
        let w = &self.records[p].window;
        if w.source_kind != SourceKind::LocalMedia || !(w.content_kind == ContentKind::Audio || w.content_kind == ContentKind::Video) {
            proof { reveal_strlit("media state can only be recorded for audio/video windows"); }
            return Err(WindowCoreError::Validation("media state can only be recorded for audio/video windows".to_string()));
        }
        Ok(w.duplicate())
    }

    /// Applies a validated resize to a window.
    pub fn apply_resize(&mut self, window_session_id: &str, spec: &ResizeSpec) -> (r: Result<ActiveWindow, WindowCoreError>)
        requires
            old(self).wf(),
        ensures
            final(self).wf(),
            final(self).focus_count() == old(self).focus_count(),
            final(self).retired_ids() == old(self).retired_ids(),
            match r {
                Ok(w) => dimension_ok(spec.width) && dimension_ok(spec.height) && old(self)@.contains_key(window_session_id@)
                    && w@ == resized(old(self)@[window_session_id@].0, *spec)
                    && final(self)@ == updated(old(self)@, window_session_id@, w@),
                Err(e) => final(self)@ == old(self)@ && if !dimension_ok(spec.width) {
                    error_view(e) == validation("width must be between 1 and 16384"@)
                } else if !dimension_ok(spec.height) {
                    error_view(e) == validation("height must be between 1 and 16384"@)
                } else {
                    !old(self)@.contains_key(window_session_id@)
                        && error_view(e) == (WindowErrorKind::TargetNotFound, window_session_id@)
                },
            },
    {
        match spec.validate() {
            Ok(()) => {},
            Err(e) => return Err(e),
        }
        let p = match self.position(window_session_id) {
            Some(p) => p,
            None => return Err(WindowCoreError::TargetNotFound(window_session_id.to_string())),
        };
        let w = resized_window(self.records[p].window.duplicate(), spec);
        let out = w.duplicate();
        self.replace_window(p, w);
        Ok(out)
    }

    /// Whether the window is the only web window left open.
    pub fn is_last_web_window(&self, window_session_id: &str) -> (b: bool)
        requires
            self.wf(),
        ensures
            b == (self@.contains_key(window_session_id@) && self@[window_session_id@].0.source_kind == SourceKind::Web
                && forall|k: Seq<char>| #[trigger] self@.contains_key(k) && k != window_session_id@
                    ==> self@[k].0.source_kind != SourceKind::Web),
    {
        let p = match self.position(window_session_id) {
            Some(p) => p,
            None => return false,
        };
        if self.records[p].window.source_kind != SourceKind::Web {
            return false;
        }
        let mut i: usize = 0;
        while i < self.records.len()
            invariant
                i <= self.records@.len(),
                p < self.records@.len(),
                self.wf(),
                rec_key(self.records@[p as int]) == window_session_id@,
                forall|j: int| 0 <= j < i && j != p ==> (#[trigger] self.records@[j]).window.source_kind != SourceKind::Web,
            decreases self.records@.len() - i,
        {
            if i != p && self.records[i].window.source_kind == SourceKind::Web {
                proof {
                    lemma_map_index(self.records@, i as int);
                    lemma_distinct(self.records@, i as int, p as int);
                }
                return false;
            }
            i += 1;
        }
        proof {
            assert forall|k: Seq<char>| #[trigger] self@.contains_key(k) && k != window_session_id@
                implies self@[k].0.source_kind != SourceKind::Web by {
                let j = choose|j: int| key_at(self.records@, k, j);
                lemma_map_index(self.records@, j);
            }
        }
        true
    }
}

/// Whether a window matches a lower-cased target: `focused` and `maximized` name the
/// window's state; any other text must occur in the lower-cased description, title,
/// requested source or current URL.
pub open spec fn target_matches(w: WindowView, lower: Seq<char>) -> bool {
    if lower == "focused"@ {
        w.is_focused
    } else if lower == "maximized"@ {
        w.is_maximized
    } else {
        (w.description is Some && has_infix(unicode_lowercase(w.description->0), lower))
            || has_infix(unicode_lowercase(w.title), lower)
            || has_infix(unicode_lowercase(w.requested_source), lower)
            || (w.current_url is Some && has_infix(unicode_lowercase(w.current_url->0), lower))
    }
}

/// Whether a window is on a workspace, or on all of them.
pub open spec fn on_workspace(w: WindowView, index: u32) -> bool {
    w.workspace == Some(index) || w.is_on_all_workspaces
}

/// No registered window is picked.
pub open spec fn none_picked(m: RegistryMap, picked: spec_fn(Seq<char>) -> bool) -> bool {
    forall|k: Seq<char>| #[trigger] m.contains_key(k) ==> !picked(k)
}

/// `k` is the one picked window that gained focus most recently.
pub open spec fn newest_picked(m: RegistryMap, picked: spec_fn(Seq<char>) -> bool, k: Seq<char>) -> bool {
    &&& m.contains_key(k) && picked(k)
    &&& forall|j: Seq<char>| #[trigger] m.contains_key(j) && picked(j) && j != k ==> m[j].1 < m[k].1
}

/// Two picked windows share the most recent focus order.
pub open spec fn newest_tied(m: RegistryMap, picked: spec_fn(Seq<char>) -> bool) -> bool {
    exists|a: Seq<char>, b: Seq<char>| #![trigger m[a], m[b]]
        a != b && m.contains_key(a) && m.contains_key(b) && picked(a) && picked(b) && m[a].1 == m[b].1
        && forall|j: Seq<char>| #[trigger] m.contains_key(j) && picked(j) ==> m[j].1 <= m[a].1
}

/// A text target, lower-cased, finds every window in whose lower-cased title,
/// description, requested source or current URL it occurs: such a window is among those
/// it picks, so the target is not "not found"; and a window that is the only one picked
/// is the one it resolves to. The keywords `focused` and `maximized` pick exactly the
/// focused and the maximized windows.
pub proof fn law_text_targets_search_window_fields(m: RegistryMap, target: Seq<char>, k: Seq<char>)
    requires
        m.contains_key(k),
    ensures
        ({
            let lower = unicode_lowercase(target);
            let w = m[k].0;
            let picked = |j: Seq<char>| target_matches(m[j].0, unicode_lowercase(target));
            &&& lower != "focused"@ && lower != "maximized"@ && (
                has_infix(unicode_lowercase(w.title), lower)
                || has_infix(unicode_lowercase(w.requested_source), lower)
                || (w.description matches Some(d) && has_infix(unicode_lowercase(d), lower))
                || (w.current_url matches Some(u) && has_infix(unicode_lowercase(u), lower)))
                ==> picked(k) && !none_picked(m, picked)
            &&& lower == "focused"@ ==> (picked(k) <==> w.is_focused)
            &&& lower == "maximized"@ ==> (picked(k) <==> w.is_maximized)
            &&& picked(k) && (forall|j: Seq<char>| m.contains_key(j) && j != k ==> !picked(j))
                ==> newest_picked(m, picked, k)
        }),
{
    reveal_strlit("focused");
    reveal_strlit("maximized");
    assert("focused"@ != "maximized"@) by {
        assert("focused"@.len() == 7 && "maximized"@.len() == 9);
    }
}

/// The outcome of choosing among the records whose flag is set.
pub enum Pick {
    Nothing,
    Index(usize),
    Tie,
}

spec fn orders_of(s: Seq<WindowRecord>) -> Seq<u64> {
    s.map_values(|r: WindowRecord| r.focus_order)
}

spec fn seq_pick_ok(o: Seq<u64>, flags: Seq<bool>, p: Pick) -> bool {
    match p {
        Pick::Nothing => forall|j: int| 0 <= j < o.len() ==> !#[trigger] flags[j],
        Pick::Index(i) => i < o.len() && flags[i as int] && forall|j: int|
            0 <= j < o.len() && j != i && #[trigger] flags[j] ==> o[j] < o[i as int],
        Pick::Tie => exists|a: int, b: int| #![trigger flags[a], flags[b]]
            0 <= a < o.len() && 0 <= b < o.len() && a != b && flags[a] && flags[b]
            && o[a] == o[b]
            && forall|j: int| 0 <= j < o.len() && #[trigger] flags[j] ==> o[j] <= o[a],
    }
}

impl WindowRegistry {
    /// Chooses among the records whose flag is set the one that gained focus last.
    fn pick_newest(&self, flags: &Vec<bool>) -> (p: Pick)
        requires
            flags@.len() == self.records@.len(),
        ensures
            seq_pick_ok(orders_of(self.records@), flags@, p),
    {
        let ghost o = orders_of(self.records@);
        let mut best: usize = 0;
        let mut found = false;
        let mut tie = false;
        let ghost mut other: int = 0;
        let mut i: usize = 0;
        while i < self.records.len()
            invariant
                i <= o.len(),
                o == orders_of(self.records@),
                o.len() == self.records@.len(),
                flags@.len() == o.len(),
                !found ==> !tie && forall|j: int| 0 <= j < i ==> !#[trigger] flags@[j],
                found ==> best < i && flags@[best as int]
                    && (forall|j: int| 0 <= j < i && #[trigger] flags@[j] ==> o[j] <= o[best as int]),
                found && tie ==> 0 <= other < i && other != best && flags@[other] && o[other] == o[best as int],
                found && !tie ==> forall|j: int| 0 <= j < i && j != best && #[trigger] flags@[j] ==> o[j] < o[best as int],
            decreases o.len() - i,
        {
            let fo = self.records[i].focus_order;
            assert(fo == o[i as int]);
            if flags[i] {
                if !found {
                    best = i;
                    found = true;
                    tie = false;
                } else {
                    let bo = self.records[best].focus_order;
                    assert(bo == o[best as int]);
                    if fo > bo {
                        best = i;
                        tie = false;
                    } else if fo == bo {
                        proof { other = i as int; }
                        tie = true;
                    }
                }
            }
            i += 1;
        }
        if !found {
            Pick::Nothing
        } else if tie {
            assert(flags@[best as int] && flags@[other]);
            Pick::Tie
        } else {
            Pick::Index(best)
        }
    }

    proof fn lemma_pick_transfers(&self, flags: Seq<bool>, picked: spec_fn(Seq<char>) -> bool, p: Pick)
        requires
            self.wf(),
            flags.len() == self.records@.len(),
            forall|j: int| 0 <= j < flags.len() ==> #[trigger] flags[j] == picked(rec_key(self.records@[j])),
            seq_pick_ok(orders_of(self.records@), flags, p),
        ensures
            p is Nothing ==> none_picked(self@, picked),
            p matches Pick::Index(i) ==> i < self.records@.len() && newest_picked(self@, picked, rec_key(self.records@[i as int])),
            p is Tie ==> newest_tied(self@, picked),
    {
        let s = self.records@;
        let o = orders_of(s);
        let m = self@;
        match p {
            Pick::Nothing => {
                assert forall|k: Seq<char>| #[trigger] m.contains_key(k) implies !picked(k) by {
                    let j = choose|j: int| key_at(s, k, j);
                    assert(!flags[j]);
                }
            },
            Pick::Index(i) => {
                lemma_map_index(s, i as int);
                assert forall|k: Seq<char>| #[trigger] m.contains_key(k) && picked(k) && k != rec_key(s[i as int])
                    implies m[k].1 < m[rec_key(s[i as int])].1 by {
                    let j = choose|j: int| key_at(s, k, j);
                    lemma_map_index(s, j);
                    assert(flags[j]);
                    assert(o[j] == s[j].focus_order && o[i as int] == s[i as int].focus_order);
                }
            },
            Pick::Tie => {
                let (a, b) = choose|a: int, b: int| #![trigger flags[a], flags[b]]
                    0 <= a < o.len() && 0 <= b < o.len() && a != b && flags[a] && flags[b]
                    && o[a] == o[b]
                    && forall|j: int| 0 <= j < o.len() && #[trigger] flags[j] ==> o[j] <= o[a];
                lemma_map_index(s, a);
                lemma_map_index(s, b);
                lemma_distinct(s, a, b);
                let ka = rec_key(s[a]);
                let kb = rec_key(s[b]);
                assert(o[a] == s[a].focus_order && o[b] == s[b].focus_order);
                assert forall|j: Seq<char>| #[trigger] m.contains_key(j) && picked(j) implies m[j].1 <= m[ka].1 by {
                    let x = choose|x: int| key_at(s, j, x);
                    lemma_map_index(s, x);
                    assert(flags[x]);
                    assert(o[x] == s[x].focus_order);
                }
                assert(m[ka] == rec_state(s[a]) && m[kb] == rec_state(s[b]));
                assert(ka != kb && m.contains_key(ka) && m.contains_key(kb) && picked(ka) && picked(kb) && m[ka].1 == m[kb].1);
            },
        }
    }

    /// Resolves a target to a window id. An exact id wins; an unknown id is not found,
    /// never matched by text. Otherwise the target, lower-cased, picks windows by
    /// `target_matches`, and the one that gained focus last is chosen: none is not found,
    /// two sharing the latest focus are ambiguous.
    pub fn resolve_target(&self, target: &str) -> (r: Result<String, WindowCoreError>)
        requires
            self.wf(),
        ensures
            self@.contains_key(target@) ==> (r matches Ok(k) && k@ == target@),
            !self@.contains_key(target@) && "wsess_"@.is_prefix_of(target@) ==> (r matches Err(e)
                && error_view(e) == (WindowErrorKind::TargetNotFound, target@)),
            !self@.contains_key(target@) && !"wsess_"@.is_prefix_of(target@) ==> ({
                let picked = |k: Seq<char>| target_matches(self@[k].0, unicode_lowercase(target@));
                match r {
                    Ok(k) => newest_picked(self@, picked, k@),
                    Err(e) => (none_picked(self@, picked) && error_view(e) == (WindowErrorKind::TargetNotFound, target@))
                        || (newest_tied(self@, picked) && error_view(e) == (WindowErrorKind::TargetAmbiguous, target@)),
                }
            }),
    {
        if self.contains(target) {
            return Ok(target.to_string());
        }
        let tv = chars_of(target);
        if starts_with_str(&tv, "wsess_") {
            proof { reveal_strlit("wsess_"); }
            return Err(WindowCoreError::TargetNotFound(target.to_string()));
        }
        proof { reveal_strlit("wsess_"); }
        let lower = lowercase(target);
        let ghost lv = unicode_lowercase(target@);
        let is_focused = str_eq(lower.as_str(), "focused");
        let is_maximized = str_eq(lower.as_str(), "maximized");
        proof {
            reveal_strlit("focused");
            reveal_strlit("maximized");
        }
        let mut flags: Vec<bool> = Vec::new();
        let mut i: usize = 0;
        while i < self.records.len()
            invariant
                i <= self.records@.len(),
                flags@.len() == i,
                lower@ == lv,
                is_focused == (lv == "focused"@),
                is_maximized == (lv == "maximized"@),
                forall|j: int| 0 <= j < i ==> #[trigger] flags@[j] == target_matches(self.records@[j].window@, lv),
            decreases self.records@.len() - i,
        {
            let w = &self.records[i].window;
            let hit = if is_focused {
                w.is_focused
            } else if is_maximized {
                w.is_maximized
            } else {
                (match &w.description {
                    Some(d) => lower_contains(d, lower.as_str()),
                    None => false,
                }) || lower_contains(&w.title, lower.as_str()) || lower_contains(&w.requested_source, lower.as_str())
                    || match &w.current_url {
                    Some(u) => lower_contains(u, lower.as_str()),
                    None => false,
                }
            };
            flags.push(hit);
            i += 1;
        }
        let pick = self.pick_newest(&flags);
        let ghost picked = |k: Seq<char>| target_matches(self@[k].0, lv);
        proof {
            assert forall|j: int| 0 <= j < flags@.len() implies #[trigger] flags@[j] == picked(rec_key(self.records@[j])) by {
                lemma_map_index(self.records@, j);
            }
            self.lemma_pick_transfers(flags@, picked, pick);
        }
        match pick {
            Pick::Nothing => Err(WindowCoreError::TargetNotFound(target.to_string())),
            Pick::Index(b) => Ok(self.records[b].window.window_session_id.clone()),
            Pick::Tie => Err(WindowCoreError::TargetAmbiguous(target.to_string())),
        }
    }

    /// Resolves a workspace index to the window on it (or on all workspaces) that gained
    /// focus last: none is not found, two sharing the latest focus are ambiguous.
    pub fn resolve_workspace_index(&self, index: u32) -> (r: Result<String, WindowCoreError>)
        requires
            self.wf(),
        ensures
            ({
                let picked = |k: Seq<char>| on_workspace(self@[k].0, index);
                match r {
                    Ok(k) => newest_picked(self@, picked, k@),
                    Err(e) => (none_picked(self@, picked) && error_view(e) == (WindowErrorKind::TargetNotFound, "workspace:"@ + decimal(index as nat)))
                        || (newest_tied(self@, picked) && error_view(e) == (WindowErrorKind::TargetAmbiguous, "workspace:"@ + decimal(index as nat))),
                }
            }),
    {
        let mut flags: Vec<bool> = Vec::new();
        let mut i: usize = 0;
        while i < self.records.len()
            invariant
                i <= self.records@.len(),
                flags@.len() == i,
                forall|j: int| 0 <= j < i ==> #[trigger] flags@[j] == on_workspace(self.records@[j].window@, index),
            decreases self.records@.len() - i,
        {
            let w = &self.records[i].window;
            flags.push(w.workspace == Some(index) || w.is_on_all_workspaces);
            i += 1;
        }
        let pick = self.pick_newest(&flags);
        let ghost picked = |k: Seq<char>| on_workspace(self@[k].0, index);
        proof {
            assert forall|j: int| 0 <= j < flags@.len() implies #[trigger] flags@[j] == picked(rec_key(self.records@[j])) by {
                lemma_map_index(self.records@, j);
            }
            self.lemma_pick_transfers(flags@, picked, pick);
            reveal_strlit("workspace:");
        }
        match pick {
            Pick::Nothing => {
                let mut m = "workspace:".to_string();
                m.append(u64_to_decimal(index as u64).as_str());
                Err(WindowCoreError::TargetNotFound(m))
            },
            Pick::Index(b) => Ok(self.records[b].window.window_session_id.clone()),
            Pick::Tie => {
                let mut m = "workspace:".to_string();
                m.append(u64_to_decimal(index as u64).as_str());
                Err(WindowCoreError::TargetAmbiguous(m))
            },
        }
    }
}

/// A fresh window session id: `wsess_` followed by a random token of 32 lower-case
/// hex digits.
fn random_session_id() -> (s: String)
    ensures
        is_window_session_id(s@),
{
    let token = crate::video_service::random_token();
    proof { reveal_strlit("wsess_"); }
    let mut s = String::from_str("wsess_");
    s.append(token.as_str());
    proof {
        assert(s@.subrange(0, 6) =~= "wsess_"@);
        assert forall|i: int| "wsess_"@.len() <= i < s@.len() implies is_lower_hex(#[trigger] s@[i]) by {
            assert(s@[i] == token@[i - 6]);
        }
    }
    s
}

/// How many random ids `next_id` draws before it gives up.
pub const MAX_ID_ATTEMPTS: usize = usize::MAX;

impl WindowRegistry {
    /// Allocates a window session id that no window has now or had before it was removed.
    /// A draw that collides is retried; after `MAX_ID_ATTEMPTS` collisions the registry
    /// reports exhaustion.
    pub fn next_id(&self) -> (r: Result<String, WindowCoreError>)
        requires
            self.wf(),
        ensures
            match r {
                Ok(id) => is_window_session_id(id@) && self.may_issue(id@),
                Err(e) => error_view(e) == (WindowErrorKind::CapacityExhausted, Seq::<char>::empty())
                    && ((exists|k: Seq<char>| #[trigger] self@.contains_key(k)) || self.retired_ids().len() > 0),
            },
            self@ == RegistryMap::empty() && self.retired_ids().len() == 0 ==> r is Ok,
    {
        let mut attempts: usize = 0;
        while attempts < MAX_ID_ATTEMPTS
            invariant
                self.wf(),
                attempts > 0 ==> (exists|k: Seq<char>| #[trigger] self@.contains_key(k)) || self.retired_ids().len() > 0,
            decreases MAX_ID_ATTEMPTS - attempts,
        {
            let candidate = random_session_id();
            let active = self.contains(candidate.as_str());
            let retired = self.is_retired(candidate.as_str());
            if !active && !retired {
                return Ok(candidate);
            }
            proof {
                if retired {
                    let j = choose|j: int| 0 <= j < self.retired_ids().len() && self.retired_ids()[j] == candidate@;
                }
            }
            attempts += 1;
        }
        Err(WindowCoreError::CapacityExhausted)
    }
}

/// A window id is never handed out again once its window has been removed: after
/// `remove` of a registered id, `may_issue` no longer holds of it, whatever the
/// registry does afterwards that keeps the retired ids.
pub proof fn law_removed_ids_are_not_reissued(before: WindowRegistry, after: WindowRegistry, later: WindowRegistry, id: Seq<char>)
    requires
        before@.contains_key(id),
        after.retired_ids() == before.retired_ids().push(id),
        later.retired_ids().len() >= after.retired_ids().len(),
        later.retired_ids().subrange(0, after.retired_ids().len() as int) == after.retired_ids(),
    ensures
        !after.may_issue(id),
        !later.may_issue(id),
{
    let n = before.retired_ids().len() as int;
    assert(after.retired_ids()[n] == id);
    assert(later.retired_ids()[n] == later.retired_ids().subrange(0, after.retired_ids().len() as int)[n]);
}

impl Default for WindowRegistry {
    fn default() -> (r: WindowRegistry)
        ensures
            r.wf(),
            r@ == RegistryMap::empty(),
            r.focus_count() == 0,
            r.retired_ids() == Seq::<Seq<char>>::empty(),
    {
        WindowRegistry::new()
    }
}

} // verus!
