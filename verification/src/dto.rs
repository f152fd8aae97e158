//! Wire DTOs of the agent state bootstrap: the workspace snapshot and the
//! slim views of agents, models and children.
use vstd::prelude::*;

verus! {

/// How a workspace is projected into the agent's execution root.
#[derive(Debug, Clone, Copy, PartialEq, Eq, Structural)]
pub enum WorkspaceProjectionKind {
    CanonicalRoot,
}

/// How the agent may write to the workspace.
#[derive(Debug, Clone, Copy, PartialEq, Eq, Structural)]
pub enum WorkspaceAccessMode {
    ExclusiveWrite,
}

#[derive(Debug, Clone, PartialEq, Eq)]
pub struct SlimWorktreeDto {
    pub branch: Option<String>,
    pub path: Option<String>,
    pub original_branch: Option<String>,
    pub original_cwd: Option<String>,
}

#[derive(Debug, Clone, PartialEq, Eq)]
pub struct SlimWorkspaceDto {
    pub workspace_id: String,
    pub workspace_alias: Option<String>,
    pub workspace_anchor: Option<String>,
    pub repo_name: Option<String>,
    pub is_active: bool,
    pub execution_root_id: Option<String>,
    pub execution_root: Option<String>,
    pub cwd: Option<String>,
    pub projection_kind: Option<WorkspaceProjectionKind>,
    pub access_mode: Option<WorkspaceAccessMode>,
    pub worktree: Option<SlimWorktreeDto>,
}

#[derive(Debug, Clone, PartialEq, Eq)]
pub struct StateWorkspaceSnapshotDto {
    pub workspaces: Vec<SlimWorkspaceDto>,
}

impl StateWorkspaceSnapshotDto {
    /// An empty snapshot.
    pub fn new() -> (r: Self)
        ensures
            r.workspaces@.len() == 0,
    {
        StateWorkspaceSnapshotDto { workspaces: Vec::new() }
    }

    /// The first workspace marked active, if any.
    pub fn active_workspace(&self) -> (r: Option<&SlimWorkspaceDto>)
        ensures
            r is None ==> forall|i: int|
                0 <= i < self.workspaces@.len() ==> !(#[trigger] self.workspaces@[i]).is_active,
            r matches Some(w) ==> exists|i: int|
                0 <= i < self.workspaces@.len() && self.workspaces@[i] == *w && w.is_active && (
                forall|j: int| 0 <= j < i ==> !(#[trigger] self.workspaces@[j]).is_active),
    {
        let mut i: usize = 0;
        while i < self.workspaces.len()
            invariant
                i <= self.workspaces@.len(),
                forall|j: int| 0 <= j < i ==> !(#[trigger] self.workspaces@[j]).is_active,
            decreases self.workspaces.len() - i,
        {
            if self.workspaces[i].is_active {
                return Some(&self.workspaces[i]);
            }
            i = i + 1;
        }
        None
    }
}

#[derive(Debug, Clone, PartialEq, Eq)]
pub struct SlimActiveWorkspaceDto {
    pub workspace_id: String,
    pub workspace_anchor: String,
    pub execution_root_id: String,
    pub execution_root: String,
    pub projection_kind: WorkspaceProjectionKind,
    pub access_mode: WorkspaceAccessMode,
    pub cwd: String,
}

} // verus!
