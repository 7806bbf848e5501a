use justanothergitgui::conflicts::{ConflictChoice, ConflictData, ConflictPart, FileStyle};
use justanothergitgui::git::{CommitEntry, CommitFileChange, FileChangeKind, FileEntry};
use justanothergitgui::inspector::{
    fill_worktree_summary, first_commit_path, open_commit, open_review, reset_inspector_state,
    select_worktree, show_commit_file_diff, show_conflict, show_file_diff, sync_selected_commit,
    sync_selected_file, sync_selected_review, sync_selected_worktree, ChangeSet, InspectorState,
    ReviewRead, SelectedReview, WorktreeRead,
};
use justanothergitgui::review::{ReviewBase, ReviewBaseSource, ReviewSummary};
use justanothergitgui::state::{RepoState, SelectedFile, SelectedWorktree, WorktreeState};
use justanothergitgui::worktrees::{LinkedWorktree, LinkedWorktreeStatus};

fn entry(path: &str, is_conflicted: bool) -> FileEntry {
    let kind = if is_conflicted {
        FileChangeKind::Conflicted
    } else {
        FileChangeKind::Modified
    };
    FileEntry {
        path: path.to_string(),
        display_status: if is_conflicted {
            "conflicted".to_string()
        } else {
            "modified".to_string()
        },
        kind,
    }
}

/// A conflict the user has already made a decision on.
fn decided_conflict(path: &str) -> ConflictData {
    ConflictData::new(
        path.to_string(),
        vec![ConflictPart::Conflict {
            ours: "mine".into(),
            theirs: "yours".into(),
            resolution: ConflictChoice::Ours,
        }],
        FileStyle::default(),
    )
}

fn state_for(path: &str, is_conflicted: bool) -> (WorktreeState, InspectorState) {
    let worktree = WorktreeState {
        unstaged: vec![entry(path, is_conflicted)],
        ..Default::default()
    };

    let mut inspector = InspectorState {
        selected_file: Some(SelectedFile {
            path: path.to_string(),
            staged: false,
        }),
        ..Default::default()
    };
    inspector.set_conflict(Some(decided_conflict(path)));

    (worktree, inspector)
}

/// What the window does with a file a refresh hands back: reads it again,
/// here with a read that fails, as it would with no repository behind it.
fn reload(worktree: &WorktreeState, inspector: &mut InspectorState) {
    if let Some(file) = sync_selected_file(worktree, inspector) {
        if justanothergitgui::inspector::file_is_conflicted(worktree, &file.path) {
            show_conflict(inspector, file.path, Err("no repository".into()));
        } else {
            show_file_diff(inspector, file.path, file.staged, Err("no repository".into()));
        }
    }
}

#[test]
fn refresh_keeps_the_conflict_currently_being_resolved() {
    let (worktree, mut inspector) = state_for("merge.txt", true);

    reload(&worktree, &mut inspector);

    // A reload would have reset the section to Unresolved, silently throwing
    // away the user's choice. Refreshes fire after every stage/unstage.
    assert_eq!(
        inspector
            .conflict_data
            .as_ref()
            .map(|data| data.unresolved_count()),
        Some(0),
        "the in-progress resolution must survive a refresh"
    );
}

#[test]
fn refresh_drops_the_conflict_once_the_file_is_no_longer_conflicted() {
    // Same path, but the merge has been resolved and staged elsewhere.
    let (worktree, mut inspector) = state_for("merge.txt", false);

    reload(&worktree, &mut inspector);

    assert!(
        inspector.conflict_data.is_none(),
        "a file that stopped being conflicted must leave the merge editor"
    );
}

#[test]
fn refresh_drops_the_conflict_when_the_file_disappears() {
    let (_worktree, mut inspector) = state_for("merge.txt", true);
    // Nothing left in the working tree, e.g. the merge was aborted.
    let worktree = WorktreeState::default();

    reload(&worktree, &mut inspector);

    assert!(inspector.conflict_data.is_none());
    assert!(inspector.selected_file.is_none());
}

#[test]
fn a_reloaded_file_stays_on_the_side_it_was_picked_on() {
    let worktree = WorktreeState {
        unstaged: vec![entry("both.txt", false)],
        staged: vec![entry("both.txt", false), entry("staged.txt", false)],
    };
    let mut inspector = InspectorState {
        selected_file: Some(SelectedFile { path: "both.txt".into(), staged: true }),
        ..Default::default()
    };
    let reload = sync_selected_file(&worktree, &mut inspector).expect("reload");
    assert!(reload.staged);

    inspector.selected_file = Some(SelectedFile { path: "staged.txt".into(), staged: false });
    let reload = sync_selected_file(&worktree, &mut inspector).expect("reload");
    assert!(reload.staged, "a file that moved to the staged list is shown from there");

    show_file_diff(&mut inspector, reload.path, reload.staged, Ok("+added\n".into()));
    assert_eq!(inspector.diff_content, "+added\n");
    assert_eq!(inspector.parsed_diff.added_lines, 1);
}

fn reviewed(name: &str) -> SelectedReview {
    SelectedReview {
        worktree_name: name.into(),
        storage_key: format!("wt:{name}"),
        worktree_path: format!("/tmp/{name}"),
        branch: Some("feature/x".into()),
        base: ReviewBase {
            oid: "a".repeat(40),
            short_oid: "aaaaaaa".into(),
            source: ReviewBaseSource::ForkPoint,
        },
        uncommitted: 0,
        changes: ChangeSet::default(),
    }
}

fn listed(name: &str) -> LinkedWorktree {
    LinkedWorktree {
        name: name.into(),
        path: format!("/tmp/{name}"),
        branch: None,
        head_short_oid: String::new(),
        is_main: false,
        is_current: false,
        is_locked: false,
        lock_reason: None,
        status: LinkedWorktreeStatus::Clean,
    }
}

/// A refresh fires after every stage, unstage and worker result, so an open
/// review has to survive one.
#[test]
fn an_open_review_survives_an_ordinary_refresh() {
    let mut inspector = InspectorState::default();
    inspector.set_review(Some(reviewed("feature-auth")));
    let repo_state = RepoState {
        linked_worktrees: vec![listed("myapp"), listed("feature-auth")],
        ..RepoState::default()
    };

    sync_selected_review(&repo_state, &mut inspector);

    assert!(inspector.selected_review.is_some());
}

/// A refresh leaves the list empty when the listing itself failed. A
/// transient git error must not throw away what the user is reading.
#[test]
fn a_failed_listing_does_not_discard_an_open_review() {
    let mut inspector = InspectorState::default();
    inspector.set_review(Some(reviewed("feature-auth")));
    let repo_state = RepoState::default();

    sync_selected_review(&repo_state, &mut inspector);

    assert!(
        inspector.selected_review.is_some(),
        "an empty list means the refresh failed, not that the worktree is gone"
    );
}

#[test]
fn a_review_is_dropped_once_its_worktree_really_goes() {
    let mut inspector = InspectorState::default();
    inspector.set_review(Some(reviewed("feature-auth")));
    let repo_state = RepoState {
        linked_worktrees: vec![listed("myapp")],
        ..RepoState::default()
    };

    sync_selected_review(&repo_state, &mut inspector);

    assert!(inspector.selected_review.is_none());
}

fn picked(name: &str) -> SelectedWorktree {
    SelectedWorktree {
        storage_key: format!("wt:{name}"),
        worktree_name: name.into(),
        // Nowhere in particular: the reconciliation tests never open it.
        path: format!("/tmp/does-not-exist/{name}"),
        base: None,
        summary: None,
        load_error: None,
    }
}

#[test]
fn an_open_worktree_selection_survives_an_ordinary_refresh() {
    let mut inspector = InspectorState::default();
    inspector.set_selected_worktree(Some(picked("feature-auth")));
    let repo_state = RepoState {
        linked_worktrees: vec![listed("myapp"), listed("feature-auth")],
        ..RepoState::default()
    };

    sync_selected_worktree(&repo_state, &mut inspector);

    assert!(inspector.selected_worktree.is_some());
}

#[test]
fn a_failed_listing_does_not_discard_the_selected_worktree() {
    let mut inspector = InspectorState::default();
    inspector.set_selected_worktree(Some(picked("feature-auth")));
    let repo_state = RepoState::default();

    sync_selected_worktree(&repo_state, &mut inspector);

    assert!(
        inspector.selected_worktree.is_some(),
        "an empty list means the refresh failed, not that the worktree is gone"
    );
}

#[test]
fn a_selection_is_dropped_once_its_worktree_really_goes() {
    let mut inspector = InspectorState::default();
    inspector.set_selected_worktree(Some(picked("feature-auth")));
    let repo_state = RepoState {
        linked_worktrees: vec![listed("myapp")],
        ..RepoState::default()
    };

    sync_selected_worktree(&repo_state, &mut inspector);

    assert!(inspector.selected_worktree.is_none());
}

/// The two selections share one predicate on purpose.
#[test]
fn the_review_and_the_worktree_selection_obey_the_same_rule() {
    let present = RepoState {
        linked_worktrees: vec![listed("myapp"), listed("feature-auth")],
        ..RepoState::default()
    };
    let gone = RepoState {
        linked_worktrees: vec![listed("myapp")],
        ..RepoState::default()
    };
    let listing_failed = RepoState::default();

    for (repo_state, expected) in [(&present, true), (&gone, false), (&listing_failed, true)] {
        let mut review_side = InspectorState::default();
        review_side.set_review(Some(reviewed("feature-auth")));
        sync_selected_review(repo_state, &mut review_side);

        let mut worktree_side = InspectorState::default();
        worktree_side.set_selected_worktree(Some(picked("feature-auth")));
        sync_selected_worktree(repo_state, &mut worktree_side);

        assert_eq!(review_side.selected_review.is_some(), expected);
        assert_eq!(
            worktree_side.selected_worktree.is_some(),
            expected,
            "the two selections disagreed about the same listing"
        );
    }
}

/// Matching on the name alone would let the main worktree stand in for a
/// linked one that had just been removed.
#[test]
fn a_linked_worktree_named_like_the_main_one_is_not_mistaken_for_it() {
    let mut inspector = InspectorState::default();
    inspector.set_selected_worktree(Some(picked("myapp")));

    let mut main = listed("myapp");
    main.is_main = true;
    let repo_state = RepoState {
        // The linked `myapp` is gone; only the main worktree of the same name
        // is left.
        linked_worktrees: vec![main],
        ..RepoState::default()
    };

    sync_selected_worktree(&repo_state, &mut inspector);

    assert!(
        inspector.selected_worktree.is_none(),
        "the main worktree must not stand in for a removed linked one"
    );
}

#[test]
fn resetting_the_inspector_forgets_the_selected_worktree() {
    let mut inspector = InspectorState::default();
    inspector.set_selected_worktree(Some(picked("feature-auth")));

    reset_inspector_state(&mut inspector);

    assert!(inspector.selected_worktree.is_none());
}

/// A checkout that is no longer on disk is exactly the row the Agents view
/// has to explain, so it stays selected and records why instead.
#[test]
fn a_worktree_that_cannot_be_opened_stays_selected_and_records_why() {
    let mut inspector = InspectorState::default();
    inspector.set_selected_worktree(Some(picked("feature-auth")));
    let repo_state = RepoState {
        linked_worktrees: vec![listed("feature-auth")],
        ..RepoState::default()
    };

    let still_picked = sync_selected_worktree(&repo_state, &mut inspector);
    assert!(still_picked);
    let selected = inspector
        .selected_worktree
        .as_mut()
        .expect("the selection must survive a checkout it cannot read");
    let detail = fill_worktree_summary(selected, WorktreeRead::NotOpened("no such directory".into()));

    let selected = inspector.selected_worktree.as_ref().expect("still selected");
    assert!(selected.base.is_none());
    assert!(selected.summary.is_none());
    assert!(
        selected.load_error.is_some(),
        "the panel has to be able to say what went wrong"
    );
    assert_eq!(
        detail,
        Some("worktree 'feature-auth' could not be opened: no such directory".into())
    );
}

/// The click path and the refresh path record a read the same way.
#[test]
fn selecting_a_worktree_records_its_base_and_totals() {
    let mut inspector = InspectorState::default();
    let base = ReviewBase {
        oid: "b".repeat(40),
        short_oid: "bbbbbbb".into(),
        source: ReviewBaseSource::Recorded,
    };
    let summary = ReviewSummary { files_changed: 1, insertions: 2, deletions: 0 };

    let detail = select_worktree(
        &mut inspector,
        &listed("wt"),
        WorktreeRead::Read { base: base.clone(), summary: summary.clone() },
    );

    assert!(detail.is_none(), "unexpected failure: {detail:?}");
    let selected = inspector.selected_worktree.as_ref().expect("selected");
    assert_eq!(selected.storage_key, "wt:wt");
    assert!(selected.base.is_some());
    let totals = selected.summary.clone().expect("totals");
    assert_eq!(totals.files_changed, 1);
    assert_eq!(totals.insertions, 2);
    assert_eq!(totals.deletions, 0);
}

fn history_entry(oid: &str) -> CommitEntry {
    CommitEntry {
        oid: oid.into(),
        short_oid: oid[..7].into(),
        message: "Fix the thing".into(),
        author: "Dev".into(),
        time: "2h ago".into(),
        is_merge: false,
        branch_labels: vec![],
    }
}

#[test]
fn a_commit_opens_with_its_files_and_first_patch() {
    let oid = "c".repeat(40);
    let repo_state = RepoState { commit_history: vec![history_entry(&oid)], ..RepoState::default() };
    let mut inspector = InspectorState::default();
    let files = vec![CommitFileChange { path: "a.txt".into(), display_status: "modified".into() }];

    let detail = open_commit(&repo_state, &mut inspector, &oid, Ok(files));
    assert!(detail.is_none());
    let first = first_commit_path(&inspector).expect("a first file");
    assert_eq!(first, "a.txt");
    show_commit_file_diff(&mut inspector, first, Ok("@@ -1 +1 @@\n-old\n+new\n".into()));

    let commit = inspector.selected_commit.as_ref().expect("open");
    assert_eq!(commit.summary, "Fix the thing");
    assert_eq!(commit.changes.selected_path.as_deref(), Some("a.txt"));
    assert_eq!(commit.changes.added_lines, 1);
    assert_eq!(commit.changes.removed_lines, 1);

    // A refresh that no longer lists it closes it.
    sync_selected_commit(&RepoState::default(), &mut inspector);
    assert!(inspector.selected_commit.is_none());
}

#[test]
fn a_commit_gone_from_the_history_is_not_opened() {
    let mut inspector = InspectorState::default();
    let detail = open_commit(&RepoState::default(), &mut inspector, "abc", Ok(vec![]));

    assert_eq!(detail, Some("commit abc is no longer in the loaded history".into()));
    assert!(inspector.selected_commit.is_none());
}

#[test]
fn a_failed_file_list_is_kept_apart_from_an_empty_one() {
    let oid = "d".repeat(40);
    let repo_state = RepoState { commit_history: vec![history_entry(&oid)], ..RepoState::default() };
    let mut inspector = InspectorState::default();

    let detail = open_commit(&repo_state, &mut inspector, &oid, Err("bad object".into()));

    assert_eq!(detail, Some("bad object".into()));
    let commit = inspector.selected_commit.as_ref().expect("still opened");
    assert!(commit.changes.files.is_empty());
    assert_eq!(commit.changes.load_error.as_deref(), Some("bad object"));
}

#[test]
fn a_review_that_cannot_be_read_is_not_opened() {
    let mut inspector = InspectorState::default();
    inspector.set_review(Some(reviewed("old")));

    let detail = open_review(&mut inspector, &listed("wt"), ReviewRead::NotOpened("gone".into()));
    assert_eq!(detail, Some("worktree 'wt' could not be opened: gone".into()));
    assert!(inspector.selected_review.is_none());

    let mut dirty = listed("wt");
    dirty.status = LinkedWorktreeStatus::Dirty { modified: 1, staged: 2, untracked: 3 };
    let base = ReviewBase { oid: "e".repeat(40), short_oid: "eeeeeee".into(), source: ReviewBaseSource::ForkPoint };
    let detail = open_review(&mut inspector, &dirty, ReviewRead::Read { base, files: Ok(vec![]) });
    assert!(detail.is_none());
    let review = inspector.selected_review.as_ref().expect("open");
    assert_eq!(review.uncommitted, 6);
    assert_eq!(review.storage_key, "wt:wt");
}
