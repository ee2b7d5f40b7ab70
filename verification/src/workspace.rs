//! Virtual desktops: the catalog a display reports and how a requested workspace is
//! resolved against it.
use vstd::prelude::*;
use crate::protocol::{WorkspaceInfo, WorkspaceTarget};
use crate::text::{ascii_lower_seq, chars_of, decimal, to_ascii_lowercase, trim, trim_str, u64_to_decimal};

verus! {

pub const MAX_WORKSPACES: u32 = 64;
pub const MAX_WORKSPACE_NAME_CHARS: usize = 128;
pub const CONFIRMATION_TIMEOUT_MS: u64 = 500;

#[derive(Debug, Clone, PartialEq, Eq)]
pub enum WorkspaceError {
    InvalidWorkspace(String),
    DisplayUnavailable(String),
    Operation(String),
}

#[derive(Clone, Debug, PartialEq, Eq)]
pub struct WorkspacePlacement {
    pub index: Option<u32>,
    pub all: bool,
}

#[derive(Clone, Debug, PartialEq, Eq)]
pub struct WorkspaceCatalog {
    pub current: u32,
    pub workspaces: Vec<WorkspaceInfo>,
}

/// Names equal up to ASCII case, as `eq_ignore_ascii_case` compares them.
pub open spec fn same_name(a: Seq<char>, b: Seq<char>) -> bool {
    ascii_lower_seq(a) == ascii_lower_seq(b)
}

/// The indices of the workspaces whose name equals `name` up to ASCII case, in order.
pub open spec fn name_matches(ws: Seq<WorkspaceInfo>, name: Seq<char>) -> Seq<u32>
    decreases ws.len(),
{
    if ws.len() == 0 {
        Seq::empty()
    } else {
        let rest = name_matches(ws.drop_last(), name);
        if same_name(ws.last().name@, name) {
            rest.push(ws.last().index)
        } else {
            rest
        }
    }
}

/// The workspace a target names in the catalog, or the message of the
/// `InvalidWorkspace` error that refuses it.
pub open spec fn resolve_outcome(ws: Seq<WorkspaceInfo>, target: WorkspaceTarget) -> Result<u32, Seq<char>> {
    match target {
        WorkspaceTarget::Index { index } => if index >= MAX_WORKSPACES {
            Err("workspace index "@ + decimal(index as nat) + " exceeds maximum 64"@)
        } else if exists|i: int| 0 <= i < ws.len() && (#[trigger] ws[i]).index == index {
            Ok(index)
        } else {
            Err("workspace index "@ + decimal(index as nat) + " not found in catalog"@)
        },
        WorkspaceTarget::Name { name } => {
            let t = trim(name@);
            if t.len() == 0 || t.len() > MAX_WORKSPACE_NAME_CHARS {
                Err("workspace name must be non-empty and bounded"@)
            } else if name_matches(ws, t).len() == 0 {
                Err("workspace name '"@ + t + "' not found"@)
            } else if name_matches(ws, t).len() == 1 {
                Ok(name_matches(ws, t)[0])
            } else {
                Err("workspace name '"@ + t + "' matches multiple workspaces"@)
            }
        },
    }
}

fn invalid(m: String) -> (e: WorkspaceError)
    ensures
        e == WorkspaceError::InvalidWorkspace(m),
{
    WorkspaceError::InvalidWorkspace(m)
}

impl WorkspaceCatalog {
    /// Resolves a workspace target: an index must be below `MAX_WORKSPACES` and listed; a
    /// name, trimmed and bounded, must match exactly one workspace up to ASCII case.
    pub fn resolve(&self, target: &WorkspaceTarget) -> (r: Result<u32, WorkspaceError>)
        ensures
            match r {
                Ok(i) => resolve_outcome(self.workspaces@, *target) == Ok::<u32, Seq<char>>(i),
                Err(WorkspaceError::InvalidWorkspace(m)) => resolve_outcome(self.workspaces@, *target) == Err::<u32, Seq<char>>(m@),
                Err(_) => false,
            },
    {
        match target {
            WorkspaceTarget::Index { index } => {
                let index = *index;
                if index >= MAX_WORKSPACES {
                    let mut m = String::from_str("workspace index ");
                    m.append(u64_to_decimal(index as u64).as_str());
                    m.append(" exceeds maximum 64");
                    return Err(invalid(m));
                }
                let mut i: usize = 0;
                while i < self.workspaces.len()
                    invariant
                        i <= self.workspaces@.len(),
                        index < MAX_WORKSPACES,
                        *target == (WorkspaceTarget::Index { index }),
                        forall|j: int| 0 <= j < i ==> (#[trigger] self.workspaces@[j]).index != index,
                    decreases self.workspaces@.len() - i,
                {
                    if self.workspaces[i].index == index {
                        assert(self.workspaces@[i as int].index == index);
                        return Ok(index);
                    }
                    i += 1;
                }
                let mut m = String::from_str("workspace index ");
                m.append(u64_to_decimal(index as u64).as_str());
                m.append(" not found in catalog");
                Err(invalid(m))
            },
            WorkspaceTarget::Name { name } => {
                let t = trim_str(name.as_str());
                let n = t.as_str().unicode_len();
                if n == 0 || n > MAX_WORKSPACE_NAME_CHARS {
                    return Err(invalid(String::from_str("workspace name must be non-empty and bounded")));
                }
                let lowered = to_ascii_lowercase(t.as_str());
                let mut count: usize = 0;
                let mut found: u32 = 0;
                let mut i: usize = 0;
                let ghost ws = self.workspaces@;
                assert(ws.subrange(0, 0) =~= Seq::<WorkspaceInfo>::empty());
                while i < self.workspaces.len()
                    invariant
                        i <= ws.len(),
                        ws == self.workspaces@,
                        lowered@ == ascii_lower_seq(t@),
                        count <= i,
                        count == name_matches(ws.subrange(0, i as int), t@).len(),
                        count > 0 ==> found == name_matches(ws.subrange(0, i as int), t@)[0],
                    decreases ws.len() - i,
                {
                    assert(ws.subrange(0, i + 1).drop_last() =~= ws.subrange(0, i as int));
                    let candidate = to_ascii_lowercase(self.workspaces[i].name.as_str());
                    if crate::text::str_eq(candidate.as_str(), lowered.as_str()) {
                        if count == 0 {
                            found = self.workspaces[i].index;
                        }
                        count = count + 1;
                    }
                    i += 1;
                }
                assert(ws.subrange(0, ws.len() as int) =~= ws);
                if count == 0 {
                    let mut m = String::from_str("workspace name '");
                    m.append(t.as_str());
                    m.append("' not found");
                    Err(invalid(m))
                } else if count == 1 {
                    Ok(found)
                } else {
                    let mut m = String::from_str("workspace name '");
                    m.append(t.as_str());
                    m.append("' matches multiple workspaces");
                    Err(invalid(m))
                }
            },
        }
    }
}

/// The default name of the workspace at `index`: `Workspace <index + 1>`.
pub open spec fn default_workspace_name(index: u32) -> Seq<char> {
    "Workspace "@ + decimal((index + 1) as nat)
}

/// The catalog a display reports: `total` workspaces (one if unknown), each named by
/// the display if it gave a name at that position, else by its number, and the current
/// one marked.
pub fn build_catalog(current: u32, total: Option<u32>, names: Option<Vec<String>>) -> (c: WorkspaceCatalog)
    ensures
        c.current == current,
        c.workspaces@.len() == match total { Some(t) => t as nat, None => 1 },
        forall|i: int| 0 <= i < c.workspaces@.len() ==> {
            let w = #[trigger] c.workspaces@[i];
            &&& w.index == i
            &&& w.is_current == (i == current)
            &&& w.name@ == match names {
                Some(n) => if i < n@.len() { n@[i]@ } else { default_workspace_name(i as u32) },
                None => default_workspace_name(i as u32),
            }
        },
{
    let total = match total {
        Some(t) => t,
        None => 1,
    };
    let names: Vec<String> = match names {
        Some(n) => n,
        None => Vec::new(),
    };
    let ghost given = names@;
    let mut workspaces: Vec<WorkspaceInfo> = Vec::new();
    let mut index: u32 = 0;
    while index < total
        invariant
            index <= total,
            names@ == given,
            workspaces@.len() == index,
            forall|i: int| 0 <= i < index ==> {
                let w = #[trigger] workspaces@[i];
                &&& w.index == i
                &&& w.is_current == (i == current)
                &&& w.name@ == if i < given.len() { given[i]@ } else { default_workspace_name(i as u32) }
            },
        decreases total - index,
    {
        let name = if (index as usize) < names.len() {
            names[index as usize].clone()
        } else {
            let mut n = String::from_str("Workspace ");
            n.append(u64_to_decimal(index as u64 + 1).as_str());
            n
        };
        workspaces.push(WorkspaceInfo { index, name, is_current: index == current });
        index += 1;
    }
    WorkspaceCatalog { current, workspaces }
}

} // verus!
