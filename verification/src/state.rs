//! The agent state bootstrap: bounded previews of long strings, worktree
//! metadata and the workspace snapshot of an agent.
use vstd::prelude::*;
use crate::dto::{
    SlimWorkspaceDto, SlimWorktreeDto, StateWorkspaceSnapshotDto, WorkspaceAccessMode,
    WorkspaceProjectionKind,
};
use crate::errors::opt_view;
use crate::text::{chars_eq, chars_of, push_str, string_from_range};

verus! {

pub const STATE_BOOTSTRAP_TASK_LIMIT: usize = 40;

pub const STATE_BOOTSTRAP_WORK_ITEM_LIMIT: usize = 50;

pub const STATE_BOOTSTRAP_TEXT_PREVIEW_LIMIT: usize = 512;

pub const STATE_BOOTSTRAP_LAST_TURN_TEXT_LIMIT: usize = 2048;

pub const STATE_BOOTSTRAP_FAILURE_ARTIFACT_ENTRY_LIMIT: usize = 16;

/// How a message was admitted to the runtime.
#[derive(Debug, Clone, Copy, PartialEq, Eq, Structural)]
pub enum AdmissionContext {
    PublicUnauthenticated,
    ControlAuthenticated,
    LocalProcess,
    OperatorTransportAuthenticated,
}

/// Public enqueues are unauthenticated.
pub fn public_admission_context() -> (r: AdmissionContext)
    ensures
        r == AdmissionContext::PublicUnauthenticated,
{
    AdmissionContext::PublicUnauthenticated
}

/// Control requests are token-authenticated when the server requires a
/// control token, and local-process requests otherwise.
pub fn control_admission_context(require_control_token: bool) -> (r: AdmissionContext)
    ensures
        require_control_token ==> r == AdmissionContext::ControlAuthenticated,
        !require_control_token ==> r == AdmissionContext::LocalProcess,
{
    if require_control_token {
        AdmissionContext::ControlAuthenticated
    } else {
        AdmissionContext::LocalProcess
    }
}

/// The preview of `text` within a budget of `limit` characters: text that
/// fits is kept, longer text keeps `limit - 3` characters and ends in
/// `...` (or is cut at `limit` when the budget is at most 3).
pub open spec fn bootstrap_preview(text: Seq<char>, limit: nat) -> Seq<char> {
    if limit == 0 {
        Seq::empty()
    } else if text.len() <= limit {
        text
    } else if limit <= 3 {
        text.take(limit as int)
    } else {
        text.take(limit - 3) + "..."@
    }
}

/// Truncates `text` to at most `limit` characters, marking truncation with
/// `...` inside the budget.
pub fn truncate_state_bootstrap_string(text: &str, limit: usize) -> (r: String)
    ensures
        r@ == bootstrap_preview(text@, limit as nat),
        r@.len() <= limit,
{
    if limit == 0 {
        return String::new();
    }
    let v = chars_of(text);
    if v.len() <= limit {
        let s = string_from_range(&v, 0, v.len());
        assert(v@.subrange(0, v@.len() as int) =~= v@);
        return s;
    }
    if limit <= 3 {
        let s = string_from_range(&v, 0, limit);
        assert(v@.subrange(0, limit as int) =~= v@.take(limit as int));
        return s;
    }
    let mut s = string_from_range(&v, 0, limit - 3);
    assert(v@.subrange(0, limit - 3) =~= v@.take(limit - 3));
    push_str(&mut s, "...");
    proof {
        reveal_strlit("...");
    }
    s
}

/// Where an agent's workspace is projected.
#[derive(Debug, Clone, PartialEq, Eq)]
pub enum WorkspaceProjectionMetadata {
    ManagedWorktree {
        original_cwd: String,
        original_branch: String,
        worktree_path: String,
        worktree_branch: String,
    },
    ExistingGitWorktree { worktree_root: String },
}

/// The worktree an agent switched into, with where it came from.
#[derive(Debug, Clone, PartialEq, Eq)]
pub struct WorktreeSession {
    pub original_cwd: String,
    pub original_branch: String,
    pub worktree_path: String,
    pub worktree_branch: String,
}

/// Optional `Seq<char>` from a string.
pub open spec fn some_view(s: String) -> Option<Seq<char>> {
    Some(s@)
}

/// Branch and path of the worktree: from the projection metadata when
/// present, otherwise from the session.
pub open spec fn worktree_branch_path(
    metadata: Option<WorkspaceProjectionMetadata>,
    session: Option<WorktreeSession>,
) -> (Option<Seq<char>>, Option<Seq<char>>) {
    match metadata {
        Some(WorkspaceProjectionMetadata::ManagedWorktree { worktree_branch, worktree_path, .. }) => (
            some_view(worktree_branch),
            some_view(worktree_path),
        ),
        Some(WorkspaceProjectionMetadata::ExistingGitWorktree { worktree_root }) => (
            None,
            some_view(worktree_root),
        ),
        None => match session {
            Some(s) => (some_view(s.worktree_branch), some_view(s.worktree_path)),
            None => (None, None),
        },
    }
}

/// Merges projection metadata and the worktree session into one worktree
/// view: branch and path from the metadata (else the session), originals
/// from the session; `None` when nothing is known.
pub fn build_worktree_info(
    metadata: Option<&WorkspaceProjectionMetadata>,
    session: Option<&WorktreeSession>,
) -> (r: Option<SlimWorktreeDto>)
    ensures
        ({
            let m = match metadata {
                Some(m) => Some(*m),
                None => None,
            };
            let s = match session {
                Some(s) => Some(*s),
                None => None,
            };
            let (branch, path) = worktree_branch_path(m, s);
            let original_branch = match s {
                Some(s) => some_view(s.original_branch),
                None => None,
            };
            let original_cwd = match s {
                Some(s) => some_view(s.original_cwd),
                None => None,
            };
            if branch is None && path is None && original_branch is None && original_cwd is None {
                r is None
            } else {
                r matches Some(w) && opt_view(w.branch) == branch && opt_view(w.path) == path
                    && opt_view(w.original_branch) == original_branch && opt_view(w.original_cwd)
                    == original_cwd
            }
        }),
{
    let (branch, path): (Option<String>, Option<String>) = match metadata {
        Some(WorkspaceProjectionMetadata::ManagedWorktree { worktree_branch, worktree_path, .. }) => (
            Some(worktree_branch.clone()),
            Some(worktree_path.clone()),
        ),
        Some(WorkspaceProjectionMetadata::ExistingGitWorktree { worktree_root }) => (
            None,
            Some(worktree_root.clone()),
        ),
        None => match session {
            Some(s) => (Some(s.worktree_branch.clone()), Some(s.worktree_path.clone())),
            None => (None, None),
        },
    };
    let original_branch: Option<String> = match session {
        Some(s) => Some(s.original_branch.clone()),
        None => None,
    };
    let original_cwd: Option<String> = match session {
        Some(s) => Some(s.original_cwd.clone()),
        None => None,
    };
    if branch.is_some() || path.is_some() || original_branch.is_some() || original_cwd.is_some() {
        Some(SlimWorktreeDto { branch, path, original_branch, original_cwd })
    } else {
        None
    }
}

/// The workspace the agent currently works in, at full runtime detail.
#[derive(Debug, Clone)]
pub struct ActiveWorkspaceEntry {
    pub workspace_id: String,
    pub workspace_anchor: String,
    pub execution_root_id: String,
    pub execution_root: String,
    pub projection_kind: WorkspaceProjectionKind,
    pub access_mode: WorkspaceAccessMode,
    pub cwd: String,
    pub projection_metadata: Option<WorkspaceProjectionMetadata>,
}

/// A workspace known to the host registry.
#[derive(Debug, Clone)]
pub struct WorkspaceEntry {
    pub workspace_id: String,
    pub workspace_alias: Option<String>,
    pub workspace_anchor: String,
    pub repo_name: Option<String>,
}

/// The first registry entry with id `id`.
pub open spec fn registry_find(entries: Seq<WorkspaceEntry>, id: Seq<char>) -> Option<WorkspaceEntry>
    decreases entries.len(),
{
    if entries.len() == 0 {
        None
    } else if entries[0].workspace_id@ == id {
        Some(entries[0])
    } else {
        registry_find(entries.drop_first(), id)
    }
}

/// The ids listed in the snapshot, in order: the active workspace first,
/// then each attached workspace the first time it is seen.
pub open spec fn snapshot_ids(active: Option<Seq<char>>, attached: Seq<Seq<char>>) -> Seq<Seq<char>>
    decreases attached.len(),
{
    if attached.len() == 0 {
        match active {
            Some(a) => seq![a],
            None => Seq::empty(),
        }
    } else {
        let prev = snapshot_ids(active, attached.drop_last());
        if prev.contains(attached.last()) {
            prev
        } else {
            prev.push(attached.last())
        }
    }
}

/// The row for an attached (not active) workspace: identity from the
/// registry when the id is registered, the bare id otherwise.
pub open spec fn attached_row(row: SlimWorkspaceDto, id: Seq<char>, entries: Seq<WorkspaceEntry>) -> bool {
    &&& row.workspace_id@ == id
    &&& !row.is_active
    &&& row.execution_root_id is None
    &&& row.execution_root is None
    &&& row.cwd is None
    &&& row.projection_kind is None
    &&& row.access_mode is None
    &&& row.worktree is None
    &&& match registry_find(entries, id) {
        Some(e) => {
            &&& opt_view(row.workspace_alias) == opt_view(e.workspace_alias)
            &&& opt_view(row.workspace_anchor) == Some(e.workspace_anchor@)
            &&& opt_view(row.repo_name) == opt_view(e.repo_name)
        },
        None => row.workspace_alias is None && row.workspace_anchor is None && row.repo_name is None,
    }
}

/// The row for the active workspace: runtime detail from the active entry,
/// alias and repository name from the registry.
pub open spec fn active_row(
    row: SlimWorkspaceDto,
    active: ActiveWorkspaceEntry,
    session: Option<WorktreeSession>,
    entries: Seq<WorkspaceEntry>,
) -> bool {
    &&& row.workspace_id@ == active.workspace_id@
    &&& row.is_active
    &&& opt_view(row.workspace_anchor) == Some(active.workspace_anchor@)
    &&& opt_view(row.execution_root_id) == Some(active.execution_root_id@)
    &&& opt_view(row.execution_root) == Some(active.execution_root@)
    &&& opt_view(row.cwd) == Some(active.cwd@)
    &&& row.projection_kind == Some(active.projection_kind)
    &&& row.access_mode == Some(active.access_mode)
    &&& match registry_find(entries, active.workspace_id@) {
        Some(e) => opt_view(row.workspace_alias) == opt_view(e.workspace_alias) && opt_view(
            row.repo_name,
        ) == opt_view(e.repo_name),
        None => row.workspace_alias is None && row.repo_name is None,
    }
    &&& ({
        let (branch, path) = worktree_branch_path(active.projection_metadata, session);
        let ob = match session {
            Some(s) => some_view(s.original_branch),
            None => None,
        };
        let oc = match session {
            Some(s) => some_view(s.original_cwd),
            None => None,
        };
        if branch is None && path is None && ob is None && oc is None {
            row.worktree is None
        } else {
            row.worktree matches Some(w) && opt_view(w.branch) == branch && opt_view(w.path) == path
                && opt_view(w.original_branch) == ob && opt_view(w.original_cwd) == oc
        }
    })
}

pub open spec fn string_views(v: Seq<String>) -> Seq<Seq<char>> {
    v.map_values(|s: String| s@)
}

pub open spec fn row_ids(rows: Seq<SlimWorkspaceDto>) -> Seq<Seq<char>> {
    rows.map_values(|r: SlimWorkspaceDto| r.workspace_id@)
}

pub proof fn lemma_snapshot_ids_unique(active: Option<Seq<char>>, attached: Seq<Seq<char>>)
    ensures
        snapshot_ids(active, attached).no_duplicates(),
        active matches Some(a) ==> snapshot_ids(active, attached).len() > 0 && snapshot_ids(
            active,
            attached,
        )[0] == a,
    decreases attached.len(),
{
    if attached.len() > 0 {
        lemma_snapshot_ids_unique(active, attached.drop_last());
    }
}

pub proof fn lemma_registry_find_id(entries: Seq<WorkspaceEntry>, id: Seq<char>)
    ensures
        registry_find(entries, id) matches Some(e) ==> e.workspace_id@ == id,
    decreases entries.len(),
{
    if entries.len() > 0 && entries[0].workspace_id@ != id {
        lemma_registry_find_id(entries.drop_first(), id);
    }
}

/// The first registry entry with `id`, by index.
fn find_registry_entry(entries: &Vec<WorkspaceEntry>, id: &Vec<char>) -> (r: Option<usize>)
    ensures
        match r {
            Some(i) => i < entries@.len() && registry_find(entries@, id@) == Some(entries@[i as int]),
            None => registry_find(entries@, id@) is None,
        },
{
    let mut i: usize = 0;
    assert(entries@.skip(0) =~= entries@);
    while i < entries.len()
        invariant
            i <= entries@.len(),
            registry_find(entries@, id@) == registry_find(entries@.skip(i as int), id@),
        decreases entries.len() - i,
    {
        let e = chars_of(entries[i].workspace_id.as_str());
        assert(entries@.skip(i as int).drop_first() =~= entries@.skip(i + 1));
        if chars_eq(&e, id) {
            return Some(i);
        }
        i = i + 1;
    }
    None
}

/// Whether some row already carries workspace id `id`.
fn rows_contain(rows: &Vec<SlimWorkspaceDto>, id: &Vec<char>) -> (r: bool)
    ensures
        r == row_ids(rows@).contains(id@),
{
    let mut i: usize = 0;
    while i < rows.len()
        invariant
            i <= rows@.len(),
            forall|j: int| 0 <= j < i ==> row_ids(rows@)[j] != id@,
        decreases rows.len() - i,
    {
        let e = chars_of(rows[i].workspace_id.as_str());
        assert(row_ids(rows@)[i as int] == rows@[i as int].workspace_id@);
        if chars_eq(&e, id) {
            return true;
        }
        i = i + 1;
    }
    false
}

fn opt_clone(o: &Option<String>) -> (r: Option<String>)
    ensures
        opt_view(r) == opt_view(*o),
{
    match o {
        Some(s) => Some(s.clone()),
        None => None,
    }
}

/// The workspace snapshot of an agent: its active workspace first (with
/// runtime detail, enriched from the registry), then each other attached
/// workspace once, with identity from the registry when registered.
/// Every workspace id appears at most once.
pub fn state_workspace_snapshot(
    active: Option<&ActiveWorkspaceEntry>,
    worktree_session: Option<&WorktreeSession>,
    attached_workspaces: &Vec<String>,
    registry: &Vec<WorkspaceEntry>,
) -> (r: StateWorkspaceSnapshotDto)
    ensures
        ({
            let active_id = match active {
                Some(a) => Some(a.workspace_id@),
                None => None,
            };
            let ids = snapshot_ids(active_id, string_views(attached_workspaces@));
            let rows = r.workspaces@;
            &&& row_ids(rows) == ids
            &&& ids.no_duplicates()
            &&& forall|i: int|
                0 <= i < rows.len() ==> if active is Some && i == 0 {
                    active_row(
                        rows[i],
                        *active.unwrap(),
                        match worktree_session {
                            Some(s) => Some(*s),
                            None => None,
                        },
                        registry@,
                    )
                } else {
                    attached_row(rows[i], ids[i], registry@)
                }
        }),
{
    let ghost active_id = match active {
        Some(a) => Some(a.workspace_id@),
        None => None,
    };
    let ghost session_v = match worktree_session {
        Some(s) => Some(*s),
        None => None,
    };
    let ghost av = string_views(attached_workspaces@);
    let mut rows: Vec<SlimWorkspaceDto> = Vec::new();
    if let Some(entry) = active {
        let id = chars_of(entry.workspace_id.as_str());
        let found = find_registry_entry(registry, &id);
        let (alias, repo) = match found {
            Some(k) => (opt_clone(&registry[k].workspace_alias), opt_clone(&registry[k].repo_name)),
            None => (None, None),
        };
        let metadata = match &entry.projection_metadata {
            Some(m) => Some(m),
            None => None,
        };
        let worktree = build_worktree_info(metadata, worktree_session);
        rows.push(
            SlimWorkspaceDto {
                workspace_id: entry.workspace_id.clone(),
                workspace_alias: alias,
                workspace_anchor: Some(entry.workspace_anchor.clone()),
                repo_name: repo,
                is_active: true,
                execution_root_id: Some(entry.execution_root_id.clone()),
                execution_root: Some(entry.execution_root.clone()),
                cwd: Some(entry.cwd.clone()),
                projection_kind: Some(entry.projection_kind),
                access_mode: Some(entry.access_mode),
                worktree,
            },
        );
        assert(row_ids(rows@) =~= seq![entry.workspace_id@]);
    } else {
        assert(row_ids(rows@) =~= Seq::<Seq<char>>::empty());
    }
    let mut i: usize = 0;
    assert(av.take(0) =~= Seq::<Seq<char>>::empty());
    while i < attached_workspaces.len()
        invariant
            i <= attached_workspaces@.len(),
            av == string_views(attached_workspaces@),
            row_ids(rows@) == snapshot_ids(active_id, av.take(i as int)),
            active_id == match active {
                Some(a) => Some(a.workspace_id@),
                None => None,
            },
            session_v == match worktree_session {
                Some(s) => Some(*s),
                None => None,
            },
            active is Some ==> rows@.len() > 0 && active_row(
                rows@[0],
                *active.unwrap(),
                session_v,
                registry@,
            ),
            forall|k: int|
                0 <= k < rows@.len() && !(active is Some && k == 0) ==> attached_row(
                    #[trigger] rows@[k],
                    row_ids(rows@)[k],
                    registry@,
                ),
        decreases attached_workspaces.len() - i,
    {
        let id = chars_of(attached_workspaces[i].as_str());
        assert(av.take(i + 1).drop_last() =~= av.take(i as int));
        assert(av.take(i + 1).last() == attached_workspaces@[i as int]@);
        if !rows_contain(&rows, &id) {
            let found = find_registry_entry(registry, &id);
            let row = match found {
                Some(k) => SlimWorkspaceDto {
                    workspace_id: registry[k].workspace_id.clone(),
                    workspace_alias: opt_clone(&registry[k].workspace_alias),
                    workspace_anchor: Some(registry[k].workspace_anchor.clone()),
                    repo_name: opt_clone(&registry[k].repo_name),
                    is_active: false,
                    execution_root_id: None,
                    execution_root: None,
                    cwd: None,
                    projection_kind: None,
                    access_mode: None,
                    worktree: None,
                },
                None => SlimWorkspaceDto {
                    workspace_id: attached_workspaces[i].clone(),
                    workspace_alias: None,
                    workspace_anchor: None,
                    repo_name: None,
                    is_active: false,
                    execution_root_id: None,
                    execution_root: None,
                    cwd: None,
                    projection_kind: None,
                    access_mode: None,
                    worktree: None,
                },
            };
            let ghost prev = rows@;
            proof {
                lemma_registry_find_id(registry@, id@);
            }
            assert(row.workspace_id@ == id@);
            rows.push(row);
            assert(row_ids(rows@) =~= row_ids(prev).push(id@));
            assert(rows@[rows@.len() - 1] == row);
            assert forall|k: int|
                0 <= k < rows@.len() && !(active is Some && k == 0) implies attached_row(
                #[trigger] rows@[k],
                row_ids(rows@)[k],
                registry@,
            ) by {
                if k < prev.len() {
                    assert(rows@[k] == prev[k]);
                    assert(row_ids(rows@)[k] == row_ids(prev)[k]);
                }
            }
        }
        i = i + 1;
    }
    proof {
        assert(av.take(av.len() as int) =~= av);
        lemma_snapshot_ids_unique(active_id, av);
    }
    StateWorkspaceSnapshotDto { workspaces: rows }
}

} // verus!
