use justanothergitgui::git::{CommitEntry, CommitFileChange, FileChangeKind, FileEntry};
use justanothergitgui::inspector::{open_commit, InspectorState};
use justanothergitgui::state::{
    CommitState, RepoState, SelectedFile, SelectedWorktree, StatusLevel, StatusMessage, WorktreeState,
};
use justanothergitgui::text_map::TextMap;
use justanothergitgui::views::{apply_refresh, refresh_tab, RefreshReads};

fn modified(path: &str) -> FileEntry {
    FileEntry {
        path: path.to_string(),
        display_status: "modified".to_string(),
        kind: FileChangeKind::Modified,
    }
}

fn commit(oid: &str) -> CommitEntry {
    CommitEntry {
        oid: oid.into(),
        short_oid: oid[..7].into(),
        message: "Fix the thing".into(),
        author: "Dev".into(),
        time: "2h ago".into(),
        is_merge: false,
        branch_labels: vec![],
    }
}

fn reads(unstaged: Vec<FileEntry>, staged: Vec<FileEntry>, history: Vec<CommitEntry>) -> RefreshReads {
    RefreshReads {
        has_origin_remote: true,
        has_github_origin: false,
        has_github_https_origin: false,
        outgoing_commit_count: Ok(2),
        file_statuses: Ok((unstaged, staged)),
        current_branch: Ok("main".into()),
        branches: Ok(vec!["main".into()]),
        remote_branches: Ok(vec![]),
        commit_history: Ok(history),
        linked_worktrees: Ok(vec![]),
        worktree_metadata: Ok(TextMap::new()),
        manifest: None,
    }
}

fn repo_at(path: &str) -> RepoState {
    RepoState { path: Some(path.to_string()), ..RepoState::default() }
}

#[test]
fn a_refresh_infers_scopes_from_the_staged_files() {
    let mut repo_state = repo_at("/tmp/justanothergitgui");
    let mut worktree_state = WorktreeState::default();
    let mut commit_state = CommitState::default();
    let mut status = StatusMessage::default();
    let staged = vec![
        modified("src/ui/commit_panel.rs"),
        modified("src/ui/diff_panel.rs"),
        modified("src/settings.rs"),
    ];
    let unstaged = vec![modified("docs/guide.md")];

    let failures = apply_refresh(
        &mut repo_state,
        &mut worktree_state,
        &mut commit_state,
        &mut status,
        reads(unstaged, staged, vec![]),
    );

    assert!(failures.is_none());
    assert_eq!(commit_state.inferred_commit_scopes, vec!["ui", "justanothergitgui"]);
    assert_eq!(worktree_state.staged.len(), 3);
    assert_eq!(repo_state.branch, "main");
    assert_eq!(repo_state.outgoing_commit_count, 2);
}

#[test]
fn a_refresh_with_nothing_staged_infers_from_the_unstaged_files() {
    let mut repo_state = repo_at("/tmp/justanothergitgui");
    let mut worktree_state = WorktreeState::default();
    let mut commit_state = CommitState::default();
    let mut status = StatusMessage::default();

    apply_refresh(
        &mut repo_state,
        &mut worktree_state,
        &mut commit_state,
        &mut status,
        reads(vec![modified("src/ui/commit_panel.rs")], vec![], vec![]),
    );

    assert_eq!(commit_state.inferred_commit_scopes, vec!["ui"]);
}

#[test]
fn a_failed_status_read_clears_the_scopes_and_is_reported() {
    let mut repo_state = repo_at("/tmp/justanothergitgui");
    let mut worktree_state = WorktreeState::default();
    let mut commit_state = CommitState { inferred_commit_scopes: vec!["ui".into()], ..CommitState::default() };
    let mut status = StatusMessage::default();
    let mut failing = reads(vec![], vec![], vec![]);
    failing.file_statuses = Err("index locked".into());

    let failures = apply_refresh(&mut repo_state, &mut worktree_state, &mut commit_state, &mut status, failing);

    assert_eq!(failures.as_deref(), Some("file statuses: index locked"));
    assert!(commit_state.inferred_commit_scopes.is_empty());
    assert_eq!(status.level(), StatusLevel::Error);
}

#[test]
fn a_whole_refresh_closes_what_is_gone_and_keeps_the_rest() {
    let old_oid = "a".repeat(40);
    let new_oid = "b".repeat(40);
    let mut repo_state = RepoState { commit_history: vec![commit(&old_oid)], ..repo_at("/tmp/justanothergitgui") };
    let mut inspector = InspectorState::default();
    let files = vec![CommitFileChange { path: "a.txt".into(), display_status: "modified".into() }];
    open_commit(&repo_state, &mut inspector, &old_oid, Ok(files));
    assert!(inspector.selected_commit.is_some());
    inspector.selected_file = Some(SelectedFile { path: "gone.txt".into(), staged: false });
    inspector.set_selected_worktree(Some(SelectedWorktree {
        storage_key: "wt:feature".into(),
        worktree_name: "feature".into(),
        path: "/tmp/does-not-exist/feature".into(),
        base: None,
        summary: None,
        load_error: None,
    }));
    let mut worktree_state = WorktreeState::default();
    let mut commit_state = CommitState::default();
    let mut status = StatusMessage::default();

    let (failures, reload, still_picked) = refresh_tab(
        &mut repo_state,
        &mut worktree_state,
        &mut commit_state,
        &mut inspector,
        &mut status,
        reads(vec![modified("kept.txt")], vec![], vec![commit(&new_oid)]),
    );

    assert!(failures.is_none());
    assert!(reload.is_none());
    assert!(inspector.selected_file.is_none(), "a file gone from both lists is closed");
    assert!(inspector.selected_commit.is_none(), "a commit gone from the history is closed");
    // An empty worktree listing keeps the picked worktree.
    assert!(still_picked);
    assert!(inspector.selected_worktree.is_some());
}

#[test]
fn a_whole_refresh_hands_back_a_file_that_is_still_listed() {
    let mut repo_state = repo_at("/tmp/justanothergitgui");
    let mut inspector = InspectorState {
        selected_file: Some(SelectedFile { path: "kept.txt".into(), staged: false }),
        ..InspectorState::default()
    };
    let mut worktree_state = WorktreeState::default();
    let mut commit_state = CommitState::default();
    let mut status = StatusMessage::default();

    let (_, reload, still_picked) = refresh_tab(
        &mut repo_state,
        &mut worktree_state,
        &mut commit_state,
        &mut inspector,
        &mut status,
        reads(vec![], vec![modified("kept.txt")], vec![]),
    );

    let reload = reload.expect("the open file is read again");
    assert_eq!(reload.path, "kept.txt");
    assert!(reload.staged, "it moved to the staged list and is shown from there");
    assert!(!still_picked);
}

#[test]
fn a_refresh_keeps_the_commit_draft_and_a_failed_read_keeps_the_file_lists() {
    let mut repo_state = repo_at("/tmp/justanothergitgui");
    let mut worktree_state = WorktreeState { unstaged: vec![modified("a.txt")], staged: vec![] };
    let mut commit_state = CommitState {
        commit_summary: "feat: draft".into(),
        commit_body: "details".into(),
        focus_commit_summary_requested: true,
        ..CommitState::default()
    };
    let mut status = StatusMessage::default();
    let mut failing = reads(vec![], vec![], vec![]);
    failing.file_statuses = Err("index locked".into());

    apply_refresh(&mut repo_state, &mut worktree_state, &mut commit_state, &mut status, failing);

    assert_eq!(commit_state.commit_summary, "feat: draft");
    assert_eq!(commit_state.commit_body, "details");
    assert!(commit_state.focus_commit_summary_requested);
    assert_eq!(worktree_state.unstaged.len(), 1);
    assert_eq!(worktree_state.unstaged[0].path, "a.txt");
}
