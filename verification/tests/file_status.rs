use justanothergitgui::git::FileChangeKind;
use justanothergitgui::git_status::{
    commit_changes, create_branch_preview, discard_preview, split_file_lists, worktree_status,
    CommitDelta, DeltaKind, FileStatus, StatusEntry,
};
use justanothergitgui::worktrees::LinkedWorktreeStatus;

fn clean() -> FileStatus {
    FileStatus {
        index_new: false,
        index_modified: false,
        index_deleted: false,
        index_renamed: false,
        index_typechange: false,
        wt_new: false,
        wt_modified: false,
        wt_deleted: false,
        wt_typechange: false,
        wt_renamed: false,
        wt_unreadable: false,
        ignored: false,
        conflicted: false,
    }
}

fn entry(path: &str, status: FileStatus) -> StatusEntry {
    StatusEntry { path: Some(path.to_string()), status }
}

#[test]
fn get_file_statuses_reports_untracked_file_as_unstaged() {
    let status = FileStatus { wt_new: true, ..clean() };
    let (unstaged, staged) = split_file_lists(&[entry("new.txt", status)]);

    assert!(staged.is_empty());
    assert_eq!(unstaged.len(), 1);
    assert_eq!(unstaged[0].path, "new.txt");
    assert_eq!(unstaged[0].display_status, "untracked");
}

#[test]
fn get_file_statuses_reports_staged_new_file() {
    let status = FileStatus { index_new: true, ..clean() };
    let (unstaged, staged) = split_file_lists(&[entry("new.txt", status)]);

    assert!(unstaged.is_empty());
    assert_eq!(staged.len(), 1);
    assert_eq!(staged[0].path, "new.txt");
    assert_eq!(staged[0].display_status, "new");
}

#[test]
fn get_file_statuses_reports_unstaged_modification() {
    let status = FileStatus { wt_modified: true, ..clean() };
    let (unstaged, staged) = split_file_lists(&[entry("tracked.txt", status)]);

    assert!(staged.is_empty());
    assert_eq!(unstaged.len(), 1);
    assert_eq!(unstaged[0].display_status, "modified");
}

#[test]
fn get_file_statuses_lists_partially_staged_file_in_both_sets() {
    let status = FileStatus { index_modified: true, wt_modified: true, ..clean() };
    let (unstaged, staged) = split_file_lists(&[entry("tracked.txt", status)]);

    assert_eq!(staged.len(), 1);
    assert_eq!(staged[0].display_status, "modified");
    assert_eq!(unstaged.len(), 1);
    assert_eq!(unstaged[0].display_status, "modified");
}

#[test]
fn get_file_statuses_reports_worktree_deletion() {
    let status = FileStatus { wt_deleted: true, ..clean() };
    let (unstaged, staged) = split_file_lists(&[entry("tracked.txt", status)]);

    assert!(staged.is_empty());
    assert_eq!(unstaged.len(), 1);
    assert_eq!(unstaged[0].display_status, "deleted");
}

#[test]
fn get_file_statuses_reports_staged_deletion() {
    let status = FileStatus { index_deleted: true, ..clean() };
    let (unstaged, staged) = split_file_lists(&[entry("tracked.txt", status)]);

    assert!(unstaged.is_empty());
    assert_eq!(staged.len(), 1);
    assert_eq!(staged[0].display_status, "deleted");
}

#[test]
fn get_file_statuses_skips_non_utf8_paths() {
    let status = FileStatus { wt_new: true, ..clean() };
    let (unstaged, staged) = split_file_lists(&[StatusEntry { path: None, status }]);

    assert!(staged.is_empty());
    assert!(unstaged.iter().all(|file| !file.path.is_empty()));
    assert!(unstaged.is_empty());
}

#[test]
fn conflicted_files_go_to_the_unstaged_list_only() {
    let status = FileStatus { conflicted: true, index_modified: true, wt_modified: true, ..clean() };
    let (unstaged, staged) = split_file_lists(&[entry("merge.txt", status)]);

    assert!(staged.is_empty());
    assert_eq!(unstaged.len(), 1);
    assert_eq!(unstaged[0].display_status, "conflicted");
    assert_eq!(unstaged[0].kind, FileChangeKind::Conflicted);
    assert!(unstaged[0].is_conflicted());
}

#[test]
fn kinds_drive_the_labels_in_each_list() {
    let renamed = FileStatus { index_renamed: true, ..clean() };
    let typechange = FileStatus { index_typechange: true, wt_typechange: true, ..clean() };
    let added = FileStatus { index_new: true, wt_new: true, ..clean() };
    let (unstaged, staged) = split_file_lists(&[
        entry("moved.txt", renamed),
        entry("link", typechange),
        entry("both.txt", added),
    ]);

    // A type change alone is in neither list.
    assert_eq!(staged.len(), 2);
    assert_eq!(staged[0].kind, FileChangeKind::Renamed);
    assert_eq!(staged[0].display_status, "renamed");
    assert_eq!(staged[1].path, "both.txt");
    assert_eq!(staged[1].kind, FileChangeKind::Added);
    assert_eq!(staged[1].display_status, "new");
    assert_eq!(unstaged.len(), 1);
    assert_eq!(unstaged[0].kind, FileChangeKind::Added);
    assert_eq!(unstaged[0].display_status, "untracked");
}

#[test]
fn a_discard_preview_counts_dirty_and_untracked_paths_apart() {
    let statuses = [
        FileStatus { wt_new: true, ..clean() },
        FileStatus { wt_new: true, index_new: true, ..clean() },
        FileStatus { wt_modified: true, ..clean() },
        FileStatus { index_typechange: true, ..clean() },
        FileStatus { ignored: true, ..clean() },
    ];
    let preview = discard_preview(&statuses, 3);

    assert_eq!(preview.untracked_files, 1);
    assert_eq!(preview.dirty_files, 3);
    assert_eq!(preview.local_only_commits, 3);
}

#[test]
fn a_branch_preview_counts_what_the_new_branch_carries() {
    let statuses = [
        FileStatus { wt_new: true, ..clean() },
        FileStatus { wt_new: true, index_new: true, ..clean() },
        FileStatus { wt_modified: true, index_modified: true, ..clean() },
        FileStatus { conflicted: true, ..clean() },
    ];
    let preview = create_branch_preview("feature/x", &statuses);

    assert_eq!(preview.branch_name, "feature/x");
    assert_eq!(preview.untracked_files, 2);
    assert_eq!(preview.staged_files, 2);
    assert_eq!(preview.dirty_files, 2);
}

#[test]
fn dirty_worktrees_report_their_counts() {
    let statuses = [
        FileStatus { wt_modified: true, ..clean() },
        FileStatus { index_new: true, ..clean() },
        FileStatus { wt_new: true, ..clean() },
        FileStatus { wt_new: true, ..clean() },
    ];
    assert_eq!(
        worktree_status(&statuses),
        LinkedWorktreeStatus::Dirty { modified: 1, staged: 1, untracked: 2 }
    );
    assert_eq!(worktree_status(&[]), LinkedWorktreeStatus::Clean);
    assert_eq!(
        worktree_status(&[FileStatus { ignored: true, ..clean() }]),
        LinkedWorktreeStatus::Clean
    );
}

fn delta(new_path: Option<&str>, old_path: Option<&str>, status: DeltaKind) -> CommitDelta {
    CommitDelta {
        new_path: new_path.map(str::to_string),
        old_path: old_path.map(str::to_string),
        status,
    }
}

#[test]
fn lists_every_file_of_a_root_commit_as_new() {
    let changes = commit_changes(&[
        delta(Some("a.txt"), None, DeltaKind::Added),
        delta(Some("nested/b.txt"), None, DeltaKind::Added),
    ]);

    assert_eq!(changes.len(), 2);
    assert_eq!(changes[0].path, "a.txt");
    assert_eq!(changes[0].display_status, "new");
    assert_eq!(changes[1].path, "nested/b.txt");
    assert_eq!(changes[1].display_status, "new");
}

#[test]
fn lists_only_what_the_commit_changed() {
    let changes = commit_changes(&[delta(Some("changed.txt"), Some("changed.txt"), DeltaKind::Modified)]);

    assert_eq!(changes.len(), 1);
    assert_eq!(changes[0].path, "changed.txt");
    assert_eq!(changes[0].display_status, "modified");
}

#[test]
fn reports_deleted_paths() {
    // A deleted file has no new side; the old path names it.
    let changes = commit_changes(&[delta(None, Some("gone.txt"), DeltaKind::Deleted)]);

    assert_eq!(changes.len(), 1);
    assert_eq!(changes[0].path, "gone.txt");
    assert_eq!(changes[0].display_status, "deleted");
}

#[test]
fn commit_labels_share_the_working_tree_vocabulary() {
    let changes = commit_changes(&[
        delta(Some("a"), None, DeltaKind::Copied),
        delta(Some("b"), None, DeltaKind::Renamed),
        delta(Some("c"), None, DeltaKind::Typechange),
        delta(Some("d"), None, DeltaKind::Unreadable),
        delta(None, None, DeltaKind::Added),
    ]);

    let labels: Vec<&str> = changes.iter().map(|c| c.display_status.as_str()).collect();
    assert_eq!(labels, vec!["new", "renamed", "modified", "changed"]);
}
