use holon_http::dto::{WorkspaceAccessMode, WorkspaceProjectionKind};
use holon_http::state::{
    build_worktree_info, control_admission_context, public_admission_context,
    state_workspace_snapshot, truncate_state_bootstrap_string, ActiveWorkspaceEntry,
    AdmissionContext, WorkspaceEntry, WorkspaceProjectionMetadata, WorktreeSession,
};

fn check_truncation() {
    assert_eq!(truncate_state_bootstrap_string("abcdef", 0), "");
    assert_eq!(truncate_state_bootstrap_string("abcdef", 2), "ab");
    assert_eq!(truncate_state_bootstrap_string("abcdef", 6), "abcdef");
    assert_eq!(truncate_state_bootstrap_string("abcdefg", 6), "abc...");
    assert_eq!(truncate_state_bootstrap_string("你好世界", 3), "你好世");
    assert_eq!(truncate_state_bootstrap_string("你好世界a", 4), "你...");
}

#[test]
fn http_state_bootstrap_string_truncation_preserves_total_budget() {
    check_truncation();
}

#[test]
fn state_state_bootstrap_string_truncation_preserves_total_budget() {
    check_truncation();
}

#[test]
fn truncation_never_exceeds_the_budget() {
    for limit in 0..12 {
        let out = truncate_state_bootstrap_string("0123456789", limit);
        assert!(out.chars().count() <= limit);
    }
    assert_eq!(truncate_state_bootstrap_string("abcd", 3), "abc");
    assert_eq!(truncate_state_bootstrap_string("abcde", 4), "a...");
}

fn session(cwd: &str, branch: &str, path: &str, wt_branch: &str) -> WorktreeSession {
    WorktreeSession {
        original_cwd: cwd.into(),
        original_branch: branch.into(),
        worktree_path: path.into(),
        worktree_branch: wt_branch.into(),
    }
}

#[test]
fn build_worktree_info_managed_worktree_metadata() {
    let metadata = WorkspaceProjectionMetadata::ManagedWorktree {
        original_cwd: "/tmp/project".into(),
        original_branch: "main".into(),
        worktree_path: "/tmp/project/.worktrees/feature".into(),
        worktree_branch: "feature".into(),
    };
    let session = Some(session(
        "/tmp/project",
        "main",
        "/tmp/project/.worktrees/feature",
        "feature",
    ));

    let info = build_worktree_info(Some(&metadata), session.as_ref());
    let info = info.expect("should produce WorktreeInfo");
    assert_eq!(info.branch.as_deref(), Some("feature"));
    assert!(info
        .path
        .as_deref()
        .unwrap()
        .contains("/tmp/project/.worktrees/feature"));
    assert_eq!(info.original_branch.as_deref(), Some("main"));
    assert!(info.original_cwd.as_deref().unwrap().contains("/tmp/project"));
}

#[test]
fn build_worktree_info_existing_git_worktree_metadata() {
    let metadata = WorkspaceProjectionMetadata::ExistingGitWorktree {
        worktree_root: "/tmp/existing-wt".into(),
    };

    let info = build_worktree_info(Some(&metadata), None);
    let info = info.expect("should produce WorktreeInfo");
    assert!(
        info.branch.is_none(),
        "existing git worktree should not have branch from metadata"
    );
    assert_eq!(info.path.as_deref(), Some("/tmp/existing-wt"));
}

#[test]
fn build_worktree_info_fallback_to_session_only() {
    let session = session("/tmp/project", "main", "/tmp/project/.worktrees/dev", "dev");

    let info = build_worktree_info(None, Some(&session));
    let info = info.expect("should produce WorktreeInfo from session");
    assert_eq!(info.branch.as_deref(), Some("dev"));
    assert!(info
        .path
        .as_deref()
        .unwrap()
        .contains("/tmp/project/.worktrees/dev"));
    assert_eq!(info.original_branch.as_deref(), Some("main"));
}

#[test]
fn build_worktree_info_returns_none_when_all_none() {
    let info = build_worktree_info(None, None);
    assert!(
        info.is_none(),
        "should return None when both metadata and session are absent"
    );
}

#[test]
fn build_worktree_info_session_enriches_metadata_originals() {
    let metadata = WorkspaceProjectionMetadata::ManagedWorktree {
        original_cwd: "/tmp/project".into(),
        original_branch: "main".into(),
        worktree_path: "/tmp/wt".into(),
        worktree_branch: "feat".into(),
    };
    let session = session("/tmp/project", "main", "/tmp/wt", "feat");

    let info = build_worktree_info(Some(&metadata), Some(&session));
    let info = info.expect("should produce WorktreeInfo");
    assert_eq!(info.original_branch.as_deref(), Some("main"));
    assert!(info.original_cwd.is_some());
}

fn registry() -> Vec<WorkspaceEntry> {
    vec![
        WorkspaceEntry {
            workspace_id: "ws_a".into(),
            workspace_alias: Some("alpha".into()),
            workspace_anchor: "/srv/a".into(),
            repo_name: Some("a-repo".into()),
        },
        WorkspaceEntry {
            workspace_id: "ws_b".into(),
            workspace_alias: None,
            workspace_anchor: "/srv/b".into(),
            repo_name: None,
        },
    ]
}

#[test]
fn snapshot_lists_active_first_and_each_workspace_once() {
    let active = ActiveWorkspaceEntry {
        workspace_id: "ws_b".into(),
        workspace_anchor: "/srv/b".into(),
        execution_root_id: "canonical_root:ws_b".into(),
        execution_root: "/srv/b".into(),
        projection_kind: WorkspaceProjectionKind::CanonicalRoot,
        access_mode: WorkspaceAccessMode::ExclusiveWrite,
        cwd: "/srv/b/src".into(),
        projection_metadata: None,
    };
    let attached = vec![
        "ws_a".to_string(),
        "ws_b".to_string(),
        "ws_x".to_string(),
        "ws_a".to_string(),
    ];
    let snapshot = state_workspace_snapshot(Some(&active), None, &attached, &registry());
    let ids: Vec<&str> = snapshot
        .workspaces
        .iter()
        .map(|w| w.workspace_id.as_str())
        .collect();
    assert_eq!(ids, vec!["ws_b", "ws_a", "ws_x"]);

    let first = &snapshot.workspaces[0];
    assert!(first.is_active);
    assert_eq!(first.cwd.as_deref(), Some("/srv/b/src"));
    assert_eq!(first.execution_root_id.as_deref(), Some("canonical_root:ws_b"));
    assert_eq!(first.workspace_alias, None);
    assert!(first.worktree.is_none());

    let alpha = &snapshot.workspaces[1];
    assert!(!alpha.is_active);
    assert_eq!(alpha.workspace_alias.as_deref(), Some("alpha"));
    assert_eq!(alpha.workspace_anchor.as_deref(), Some("/srv/a"));
    assert_eq!(alpha.repo_name.as_deref(), Some("a-repo"));
    assert!(alpha.cwd.is_none());

    let unknown = &snapshot.workspaces[2];
    assert!(unknown.workspace_alias.is_none());
    assert!(unknown.workspace_anchor.is_none());

    let active_row = snapshot.active_workspace().expect("active row");
    assert_eq!(active_row.workspace_id, "ws_b");
}

#[test]
fn snapshot_without_active_workspace_has_no_active_row() {
    let attached = vec!["ws_a".to_string()];
    let snapshot = state_workspace_snapshot(None, None, &attached, &registry());
    assert_eq!(snapshot.workspaces.len(), 1);
    assert!(snapshot.active_workspace().is_none());
}

#[test]
fn admission_contexts() {
    assert_eq!(public_admission_context(), AdmissionContext::PublicUnauthenticated);
    assert_eq!(control_admission_context(true), AdmissionContext::ControlAuthenticated);
    assert_eq!(control_admission_context(false), AdmissionContext::LocalProcess);
}
