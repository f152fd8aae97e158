use holon_http::state::WorkspaceEntry;
use holon_http::workspace_listing::{
    check_path_within_root,
    directory_listing_order, file_response_mode, resolve_execution_root, workspace_root_source,
    DirectoryEntryKey, ExecutionRootRecord, FileResponseMode, RootResolution, RootSource,
};

fn registry() -> Vec<WorkspaceEntry> {
    vec![
        WorkspaceEntry {
            workspace_id: "ws-1".to_string(),
            workspace_alias: None,
            workspace_anchor: "/srv/one".to_string(),
            repo_name: None,
        },
        WorkspaceEntry {
            workspace_id: "ws-2".to_string(),
            workspace_alias: Some("two".to_string()),
            workspace_anchor: "/srv/two".to_string(),
            repo_name: Some("two".to_string()),
        },
    ]
}

#[test]
fn root_source_defaults_to_the_anchor() {
    let r = workspace_root_source(&registry(), "ws-2", None).unwrap();
    assert_eq!(r, RootSource::Anchor("/srv/two".to_string()));
}

#[test]
fn canonical_root_ids_read_from_the_anchor() {
    let r = workspace_root_source(&registry(), "ws-1", Some("canonical_root:ws-1")).unwrap();
    assert_eq!(r, RootSource::Anchor("/srv/one".to_string()));
}

#[test]
fn other_root_ids_name_an_execution_root() {
    let r = workspace_root_source(&registry(), "ws-1", Some("exec-7")).unwrap();
    assert_eq!(r, RootSource::ExecutionRoot("exec-7".to_string()));
}

#[test]
fn unknown_workspace_is_not_found() {
    let e = workspace_root_source(&registry(), "ws-9", None).unwrap_err();
    assert_eq!(e.status, 404);
    assert_eq!(e.envelope.error, "workspace 'ws-9' not found");
}

#[test]
fn execution_root_resolution_covers_each_outcome() {
    let live = ExecutionRootRecord {
        workspace_id: "ws-1".to_string(),
        filesystem_path: "/tmp/wt-1".to_string(),
        removed: false,
    };
    match resolve_execution_root("ws-1", "exec-1", Some(&live)) {
        RootResolution::Root(p) => assert_eq!(p, "/tmp/wt-1"),
        other => panic!("unexpected {other:?}"),
    }
    match resolve_execution_root("ws-2", "exec-1", Some(&live)) {
        RootResolution::Failed(e) => {
            assert_eq!(e.status, 403);
            assert_eq!(e.envelope.error, "execution_root_id does not belong to workspace 'ws-2'");
        }
        other => panic!("unexpected {other:?}"),
    }
    let removed = ExecutionRootRecord { removed: true, ..live };
    match resolve_execution_root("ws-1", "exec-1", Some(&removed)) {
        RootResolution::Gone { execution_root_id } => assert_eq!(execution_root_id, "exec-1"),
        other => panic!("unexpected {other:?}"),
    }
    match resolve_execution_root("ws-1", "exec-2", None) {
        RootResolution::Failed(e) => {
            assert_eq!(e.status, 404);
            assert_eq!(e.envelope.error, "execution_root_id not found in registry: 'exec-2'");
        }
        other => panic!("unexpected {other:?}"),
    }
}

#[test]
fn file_response_mode_follows_flags_and_accept() {
    assert_eq!(
        file_response_mode("text/plain", true, false, None),
        FileResponseMode::Metadata
    );
    assert_eq!(
        file_response_mode("text/plain", false, false, Some("application/json")),
        FileResponseMode::TextPreview
    );
    assert_eq!(
        file_response_mode("text/plain", false, true, Some("application/json")),
        FileResponseMode::Raw
    );
    assert_eq!(
        file_response_mode("text/plain", false, false, Some("text/html")),
        FileResponseMode::Raw
    );
    assert_eq!(
        file_response_mode("image/png", false, false, Some("application/json")),
        FileResponseMode::Raw
    );
    assert_eq!(file_response_mode("text/plain", false, false, None), FileResponseMode::Raw);
}

#[test]
fn listing_puts_directories_first_then_names() {
    let entries = vec![
        DirectoryEntryKey { name: "zeta.txt".to_string(), is_dir: false },
        DirectoryEntryKey { name: "src".to_string(), is_dir: true },
        DirectoryEntryKey { name: "alpha.md".to_string(), is_dir: false },
        DirectoryEntryKey { name: "docs".to_string(), is_dir: true },
    ];
    assert_eq!(directory_listing_order(&entries), vec![3, 1, 2, 0]);
}

#[test]
fn listing_of_nothing_is_empty() {
    assert!(directory_listing_order(&Vec::new()).is_empty());
}

#[test]
fn requested_paths_stay_inside_the_workspace_root() {
    assert!(check_path_within_root("/ws/src/main.rs", "/ws", None, None).is_ok());
    let e = check_path_within_root("/ws2/x", "/ws", None, None).unwrap_err();
    assert_eq!(e.status, 403);
    assert_eq!(e.envelope.error, "path escapes workspace root");
    assert!(check_path_within_root("/ws/link", "/ws", Some("/real/ws/target"), Some("/real/ws")).is_ok());
    let e = check_path_within_root("/ws/link", "/ws", Some("/etc/passwd"), Some("/real/ws")).unwrap_err();
    assert_eq!(e.envelope.error, "path escapes workspace root (symlink)");
    assert!(check_path_within_root("/ws/link", "/ws", None, Some("/real/ws")).is_ok());
}
