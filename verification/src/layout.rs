//! Declarative layouts: how a declared window is matched to an open one, whether
//! applying the declaration changes that window, which windows a pruning apply closes,
//! and how an open window is written back as a declaration.
use vstd::prelude::*;
use crate::auth_domain::{clone_opt, opt_view, string_views};
use crate::protocol::{OpenSource, SourceKind, WindowGeometrySpec, WindowStateAction, WorkspaceTarget};
use crate::registry::ActiveWindow;
use crate::text::str_eq;

verus! {

/// A window as a layout declares it; the media action a declaration may also carry is
/// kept by the caller.
#[derive(Clone, Debug, PartialEq, Eq)]
pub struct DeclaredWindow {
    pub name: Option<String>,
    pub source: OpenSource,
    pub description: Option<String>,
    pub profile: Option<String>,
    pub geometry: Option<WindowGeometrySpec>,
}

/// A declaration names an open window: by its name, which may be the window's
/// description or its session id, or by its source: a web window whose requested or
/// current URL is the declared URL, or a local-media window showing the declared path.
pub open spec fn declaration_matches(name: Option<Seq<char>>, source: OpenSource, w: ActiveWindow) -> bool {
    ||| (name matches Some(n) && (opt_view(w.description) == Some(n) || w.window_session_id@ == n))
    ||| match source {
        OpenSource::Web { url } => w.source_kind == SourceKind::Web && (w.requested_source@ == url@
            || opt_view(w.current_url) == Some(url@)),
        OpenSource::LocalMedia { path } => w.source_kind == SourceKind::LocalMedia && w.requested_source@ == path@,
    }
}

fn opt_str_is(o: &Option<String>, s: &String) -> (b: bool)
    ensures
        b == (opt_view(*o) == Some(s@)),
{
    match o {
        Some(v) => str_eq(v.as_str(), s.as_str()),
        None => false,
    }
}

/// Whether a declaration names this open window.
pub fn matches_declaration(name: &Option<String>, source: &OpenSource, w: &ActiveWindow) -> (b: bool)
    ensures
        b == declaration_matches(opt_view(*name), *source, *w),
{
    if let Some(n) = name {
        if opt_str_is(&w.description, n) || str_eq(w.window_session_id.as_str(), n.as_str()) {
            return true;
        }
    }
    match source {
        OpenSource::Web { url } => w.source_kind == SourceKind::Web && (str_eq(w.requested_source.as_str(), url.as_str())
            || opt_str_is(&w.current_url, url)),
        OpenSource::LocalMedia { path } => w.source_kind == SourceKind::LocalMedia && str_eq(
            w.requested_source.as_str(),
            path.as_str(),
        ),
    }
}

/// The open window a declaration applies to: the first one, in listing order, that it
/// names; `None` when it names none, and a new window is to be opened.
pub fn find_matching_window(name: &Option<String>, source: &OpenSource, windows: &Vec<ActiveWindow>) -> (r: Option<usize>)
    ensures
        match r {
            Some(i) => i < windows@.len() && declaration_matches(opt_view(*name), *source, windows@[i as int])
                && forall|j: int| 0 <= j < i ==> !declaration_matches(opt_view(*name), *source, #[trigger] windows@[j]),
            None => forall|j: int| 0 <= j < windows@.len() ==> !declaration_matches(opt_view(*name), *source, #[trigger] windows@[j]),
        },
{
    let mut i: usize = 0;
    while i < windows.len()
        invariant
            i <= windows@.len(),
            forall|j: int| 0 <= j < i ==> !declaration_matches(opt_view(*name), *source, #[trigger] windows@[j]),
        decreases windows@.len() - i,
    {
        if matches_declaration(name, source, &windows[i]) {
            return Some(i);
        }
        i += 1;
    }
    None
}

/// Applying a declared geometry changes the window: a given size, position or
/// always-on-top setting differs, or the asked state is not the window's (restoring and
/// fullscreen change a maximized or minimized window). The workspace is moved to without
/// counting as a change.
pub open spec fn geometry_change(g: WindowGeometrySpec, w: ActiveWindow) -> bool {
    ||| (g.width matches Some(v) && v != w.width)
    ||| (g.height matches Some(v) && v != w.height)
    ||| (g.x matches Some(v) && v != w.x)
    ||| (g.y matches Some(v) && v != w.y)
    ||| (g.always_on_top matches Some(v) && v != w.is_always_on_top)
    ||| match g.state {
        Some(WindowStateAction::Maximize) => !w.is_maximized,
        Some(WindowStateAction::Minimize) => !w.is_minimized,
        Some(WindowStateAction::Restore) | Some(WindowStateAction::Fullscreen) => w.is_maximized || w.is_minimized,
        None => false,
    }
}

/// Whether applying a declared geometry changes the window.
pub fn geometry_changes(g: &WindowGeometrySpec, w: &ActiveWindow) -> (b: bool)
    ensures
        b == geometry_change(*g, *w),
{
    let width = match g.width {
        Some(v) => v != w.width,
        None => false,
    };
    let height = match g.height {
        Some(v) => v != w.height,
        None => false,
    };
    let x = match g.x {
        Some(v) => v != w.x,
        None => false,
    };
    let y = match g.y {
        Some(v) => v != w.y,
        None => false,
    };
    let on_top = match g.always_on_top {
        Some(v) => v != w.is_always_on_top,
        None => false,
    };
    let state = match g.state {
        Some(WindowStateAction::Maximize) => !w.is_maximized,
        Some(WindowStateAction::Minimize) => !w.is_minimized,
        Some(WindowStateAction::Restore) | Some(WindowStateAction::Fullscreen) => w.is_maximized || w.is_minimized,
        None => false,
    };
    width || height || x || y || on_top || state
}

/// Applying a declared description changes the window when it differs from the window's.
pub open spec fn description_change(d: Option<Seq<char>>, w: ActiveWindow) -> bool {
    d matches Some(text) && opt_view(w.description) != Some(text)
}

/// Whether applying a declared description changes the window.
pub fn description_changes(d: &Option<String>, w: &ActiveWindow) -> (b: bool)
    ensures
        b == description_change(opt_view(*d), *w),
{
    match d {
        Some(text) => !opt_str_is(&w.description, text),
        None => false,
    }
}

/// Applying a declaration to the window it names updates it when its description or
/// geometry changes the window or it carries a media action; otherwise the window is
/// reported unchanged.
pub open spec fn declaration_update(d: DeclaredWindow, has_media: bool, w: ActiveWindow) -> bool {
    ||| description_change(opt_view(d.description), w)
    ||| (d.geometry matches Some(g) && geometry_change(g, w))
    ||| has_media
}

/// Whether applying a declaration updates the window it names.
pub fn declaration_updates(d: &DeclaredWindow, has_media: bool, w: &ActiveWindow) -> (b: bool)
    ensures
        b == declaration_update(*d, has_media, *w),
{
    let geometry = match &d.geometry {
        Some(g) => geometry_changes(g, w),
        None => false,
    };
    description_changes(&d.description, w) || geometry || has_media
}

/// The description a newly opened window gets: the declared description, else the
/// declared name.
pub fn created_description(d: &DeclaredWindow) -> (r: Option<String>)
    ensures
        opt_view(r) == (if d.description is Some { opt_view(d.description) } else { opt_view(d.name) }),
{
    if d.description.is_some() {
        clone_opt(&d.description)
    } else {
        clone_opt(&d.name)
    }
}

/// The session ids, in listing order, of the open windows that no declaration matched.
pub open spec fn unmatched_ids(windows: Seq<ActiveWindow>, matched: Seq<Seq<char>>) -> Seq<Seq<char>>
    decreases windows.len(),
{
    if windows.len() == 0 {
        Seq::empty()
    } else {
        let rest = unmatched_ids(windows.drop_last(), matched);
        if matched.contains(windows.last().window_session_id@) {
            rest
        } else {
            rest.push(windows.last().window_session_id@)
        }
    }
}

fn contains_text(v: &Vec<String>, s: &String) -> (b: bool)
    ensures
        b == string_views(v@).contains(s@),
{
    let mut i: usize = 0;
    while i < v.len()
        invariant
            i <= v@.len(),
            forall|j: int| 0 <= j < i ==> (#[trigger] v@[j])@ != s@,
        decreases v@.len() - i,
    {
        if str_eq(v[i].as_str(), s.as_str()) {
            assert(string_views(v@)[i as int] == s@);
            return true;
        }
        i += 1;
    }
    assert forall|j: int| 0 <= j < string_views(v@).len() implies string_views(v@)[j] != s@ by {
        assert(string_views(v@)[j] == v@[j]@);
    }
    false
}

/// The windows a pruning apply closes: every open window, in listing order, whose
/// session id is not among those the declarations matched or opened.
pub fn windows_to_prune(windows: &Vec<ActiveWindow>, matched: &Vec<String>) -> (ids: Vec<String>)
    ensures
        string_views(ids@) == unmatched_ids(windows@, string_views(matched@)),
{
    let mut ids: Vec<String> = Vec::new();
    let mut i: usize = 0;
    assert(windows@.subrange(0, 0) =~= Seq::<ActiveWindow>::empty());
    assert(string_views(ids@) =~= Seq::<Seq<char>>::empty());
    while i < windows.len()
        invariant
            i <= windows@.len(),
            string_views(ids@) == unmatched_ids(windows@.subrange(0, i as int), string_views(matched@)),
        decreases windows@.len() - i,
    {
        let w = &windows[i];
        assert(windows@.subrange(0, i + 1).drop_last() =~= windows@.subrange(0, i as int));
        assert(windows@.subrange(0, i + 1).last() == windows@[i as int]);
        if !contains_text(matched, &w.window_session_id) {
            let ghost before = string_views(ids@);
            ids.push(w.window_session_id.clone());
            assert(string_views(ids@) =~= before.push(w.window_session_id@));
        }
        i += 1;
    }
    assert(windows@.subrange(0, windows@.len() as int) =~= windows@);
    ids
}

/// The state an open window is written back with: maximized, minimized, or restored.
pub open spec fn exported_state(w: ActiveWindow) -> WindowStateAction {
    if w.is_maximized {
        WindowStateAction::Maximize
    } else if w.is_minimized {
        WindowStateAction::Minimize
    } else {
        WindowStateAction::Restore
    }
}

/// `d` is the declaration an open window is written back as: named by its session id,
/// its current URL (or, before any, the requested one) or its media path as source, its
/// description and profile, and its full geometry with its workspace index.
pub open spec fn exported_as(d: DeclaredWindow, w: ActiveWindow) -> bool {
    &&& opt_view(d.name) == Some(w.window_session_id@)
    &&& match w.source_kind {
        SourceKind::Web => d.source matches OpenSource::Web { url } && url@ == (match w.current_url {
            Some(u) => u@,
            None => w.requested_source@,
        }),
        SourceKind::LocalMedia => d.source matches OpenSource::LocalMedia { path } && path@ == w.requested_source@,
    }
    &&& opt_view(d.description) == opt_view(w.description)
    &&& opt_view(d.profile) == opt_view(w.profile)
    &&& d.geometry matches Some(g) && g.width == Some(w.width) && g.height == Some(w.height) && g.x == Some(w.x)
        && g.y == Some(w.y) && g.state == Some(exported_state(w)) && g.always_on_top == Some(w.is_always_on_top)
        && g.workspace == (match w.workspace {
            Some(i) => Some(WorkspaceTarget::Index { index: i }),
            None => None,
        })
}

/// Writes an open window back as a declaration.
pub fn export_window(w: &ActiveWindow) -> (d: DeclaredWindow)
    ensures
        exported_as(d, *w),
{
    let source = match w.source_kind {
        SourceKind::Web => OpenSource::Web {
            url: match &w.current_url {
                Some(u) => u.clone(),
                None => w.requested_source.clone(),
            },
        },
        SourceKind::LocalMedia => OpenSource::LocalMedia { path: w.requested_source.clone() },
    };
    let state = if w.is_maximized {
        WindowStateAction::Maximize
    } else if w.is_minimized {
        WindowStateAction::Minimize
    } else {
        WindowStateAction::Restore
    };
    let workspace = match w.workspace {
        Some(i) => Some(WorkspaceTarget::Index { index: i }),
        None => None,
    };
    DeclaredWindow {
        name: Some(w.window_session_id.clone()),
        source,
        description: clone_opt(&w.description),
        profile: clone_opt(&w.profile),
        geometry: Some(WindowGeometrySpec {
            width: Some(w.width),
            height: Some(w.height),
            x: Some(w.x),
            y: Some(w.y),
            state: Some(state),
            always_on_top: Some(w.is_always_on_top),
            workspace,
        }),
    }
}

/// Writes every open window back as a declaration, in listing order.
pub fn export_windows(windows: &Vec<ActiveWindow>) -> (ds: Vec<DeclaredWindow>)
    ensures
        ds@.len() == windows@.len(),
        forall|i: int| 0 <= i < windows@.len() ==> exported_as(#[trigger] ds@[i], windows@[i]),
{
    let mut ds: Vec<DeclaredWindow> = Vec::new();
    let mut i: usize = 0;
    while i < windows.len()
        invariant
            i <= windows@.len(),
            ds@.len() == i,
            forall|j: int| 0 <= j < i ==> exported_as(#[trigger] ds@[j], windows@[j]),
        decreases windows@.len() - i,
    {
        ds.push(export_window(&windows[i]));
        i += 1;
    }
    ds
}

/// Export and apply agree: the declaration an open window is written back as names that
/// window, and applying it without a media action leaves the window unchanged.
pub proof fn law_exported_window_applies_unchanged(d: DeclaredWindow, w: ActiveWindow)
    requires
        exported_as(d, w),
    ensures
        declaration_matches(opt_view(d.name), d.source, w),
        !declaration_update(d, false, w),
{
}

/// A pruning apply closes exactly the open windows whose ids were not matched or opened:
/// every id it closes belongs to an open, unmatched window, and every open, unmatched
/// window is closed.
pub proof fn law_prune_closes_exactly_the_unmatched(windows: Seq<ActiveWindow>, matched: Seq<Seq<char>>)
    ensures
        forall|id: Seq<char>| #[trigger] unmatched_ids(windows, matched).contains(id) <==> (!matched.contains(id)
            && exists|i: int| 0 <= i < windows.len() && (#[trigger] windows[i]).window_session_id@ == id),
    decreases windows.len(),
{
    if windows.len() > 0 {
        let rest = windows.drop_last();
        let last = windows.last();
        law_prune_closes_exactly_the_unmatched(rest, matched);
        assert forall|id: Seq<char>| #[trigger] unmatched_ids(windows, matched).contains(id) implies (!matched.contains(id)
            && exists|i: int| 0 <= i < windows.len() && (#[trigger] windows[i]).window_session_id@ == id) by {
            if unmatched_ids(rest, matched).contains(id) {
                let i = choose|i: int| 0 <= i < rest.len() && (#[trigger] rest[i]).window_session_id@ == id;
                assert(windows[i] == rest[i]);
            } else {
                assert(!matched.contains(last.window_session_id@));
                assert(unmatched_ids(windows, matched) == unmatched_ids(rest, matched).push(last.window_session_id@));
                assert(id == last.window_session_id@);
                assert(windows[windows.len() - 1] == last);
            }
        }
        assert forall|id: Seq<char>| !matched.contains(id) && (exists|i: int| 0 <= i < windows.len()
            && (#[trigger] windows[i]).window_session_id@ == id) implies #[trigger] unmatched_ids(windows, matched).contains(id) by {
            let i = choose|i: int| 0 <= i < windows.len() && (#[trigger] windows[i]).window_session_id@ == id;
            if i < windows.len() - 1 {
                assert(rest[i] == windows[i]);
                assert(unmatched_ids(rest, matched).contains(id));
                if matched.contains(last.window_session_id@) {
                    assert(unmatched_ids(windows, matched) == unmatched_ids(rest, matched));
                } else {
                    let j = unmatched_ids(rest, matched).index_of(id);
                    assert(unmatched_ids(windows, matched)[j] == id);
                }
            } else {
                assert(id == last.window_session_id@);
                assert(unmatched_ids(windows, matched) == unmatched_ids(rest, matched).push(id));
                assert(unmatched_ids(windows, matched)[unmatched_ids(windows, matched).len() - 1] == id);
            }
        }
    }
}

} // verus!
