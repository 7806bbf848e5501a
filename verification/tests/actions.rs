use justanothergitgui::actions::{
    branch_created, clear_repo_selection, commit_done, commit_shortcut, confirm_create_branch,
    dispatch, finish_stale_deletion, open_create_branch_confirm, refreshed_status,
    resolution_saved, stage_shortcut, Dispatch, RepoWrite, WorkerRequest,
};
use justanothergitgui::commit_rules::CommitMessageRuleSet;
use justanothergitgui::git::{CreateBranchPreview, FileChangeKind, FileEntry, StaleBranch};
use justanothergitgui::github::PullRequestPrompt;
use justanothergitgui::inspector::InspectorState;
use justanothergitgui::toolbar::RepoToolbarModel;
use justanothergitgui::state::{
    BranchDialogState, BusyAction, CleanupBranchesDialogState, CommitState, RepoState,
    SelectedFile, StatusLevel, WorktreeState,
};

fn open_repo(branch: &str) -> RepoState {
    let mut repo = RepoState::default();
    repo.path = Some("/tmp/repo".to_string());
    repo.branch = branch.to_string();
    repo
}

fn started(d: Dispatch) -> (BusyAction, String) {
    match d {
        Dispatch::Start(busy) => (busy.action, busy.label),
        other => panic!("expected the work to start, got {:?}", other),
    }
}

fn refused(d: Dispatch) -> String {
    match d {
        Dispatch::Refuse(text) => text,
        other => panic!("expected a refusal, got {:?}", other),
    }
}

#[test]
fn push_and_pull_start_with_their_labels() {
    let repo = open_repo("main");
    assert_eq!(
        started(dispatch(&WorkerRequest::Push, &repo, false, false)),
        (BusyAction::Push, "Pushing...".to_string())
    );
    assert_eq!(
        started(dispatch(&WorkerRequest::Pull, &repo, false, true)),
        (BusyAction::Pull, "Pulling...".to_string())
    );
    assert_eq!(
        started(dispatch(&WorkerRequest::DiscardAndReset, &repo, false, false)),
        (BusyAction::DiscardAndReset, "Resetting to remote...".to_string())
    );
}

#[test]
fn a_busy_worker_refuses_new_work() {
    let repo = open_repo("main");
    for request in [
        WorkerRequest::Push,
        WorkerRequest::Pull,
        WorkerRequest::DiscardAndReset,
        WorkerRequest::CreateTag("v1.0.0.0".to_string()),
    ] {
        assert_eq!(refused(dispatch(&request, &repo, true, true)), "Busy — please wait...");
    }
}

#[test]
fn without_a_repository_nothing_happens() {
    let repo = RepoState::default();
    assert!(matches!(dispatch(&WorkerRequest::Push, &repo, false, false), Dispatch::Ignore));
    assert!(matches!(dispatch(&WorkerRequest::Pull, &repo, true, false), Dispatch::Ignore));
}

#[test]
fn tags_come_only_from_main_or_master() {
    let repo = open_repo("feature/search");
    assert_eq!(
        refused(dispatch(&WorkerRequest::CreateTag("v1.2.0.0".to_string()), &repo, false, true)),
        "Tags can only be created from the main or master branch."
    );
    let repo = open_repo("master");
    assert_eq!(
        started(dispatch(&WorkerRequest::CreateTag("v1.2.0.0".to_string()), &repo, false, false)),
        (BusyAction::CreateTag, "Creating tag v1.2.0.0...".to_string())
    );
}

#[test]
fn a_github_https_remote_needs_a_sign_in_before_tagging() {
    let mut repo = open_repo("main");
    repo.has_github_https_origin = true;
    assert_eq!(
        refused(dispatch(&WorkerRequest::CreateTag("v2".to_string()), &repo, false, false)),
        "Sign in to GitHub before creating tags for this repository."
    );
    assert_eq!(
        started(dispatch(&WorkerRequest::CreateTag("v2".to_string()), &repo, false, true)).0,
        BusyAction::CreateTag
    );
}

#[test]
fn the_pull_request_button_follows_the_prompt() {
    let mut repo = RepoState::default();
    assert_eq!(
        refused(dispatch(&WorkerRequest::LaunchPullRequest, &repo, false, false)),
        "No pull request action available"
    );
    repo.pull_request_prompt = Some(PullRequestPrompt::Open {
        branch: "feature".to_string(),
        number: 42,
        url: "https://github.com/o/r/pull/42".to_string(),
    });
    assert_eq!(
        started(dispatch(&WorkerRequest::LaunchPullRequest, &repo, false, false)),
        (BusyAction::OpenPullRequest, "Opening pull request #42...".to_string())
    );
    assert_eq!(
        refused(dispatch(&WorkerRequest::LaunchPullRequest, &repo, true, false)),
        "Busy — please wait..."
    );
    repo.pull_request_prompt = Some(PullRequestPrompt::Create {
        branch: "feature".to_string(),
        url: "https://github.com/o/r/pull/new/feature".to_string(),
    });
    assert_eq!(
        started(dispatch(&WorkerRequest::LaunchPullRequest, &repo, false, false)),
        (
            BusyAction::CreatePullRequest,
            "Opening pull request creation for feature...".to_string()
        )
    );
}

#[test]
fn writes_report_what_they_did() {
    let cases = [
        (RepoWrite::StageFile("src/a.rs".to_string()), "Staged: src/a.rs", "Stage", false),
        (RepoWrite::UnstageFile("b.txt".to_string()), "Unstaged: b.txt", "Unstage", false),
        (RepoWrite::StageAll, "Staged all changes", "Stage all", false),
        (RepoWrite::UnstageAll, "Unstaged all changes", "Unstage all", false),
        (RepoWrite::SwitchBranch("dev".to_string()), "Switched to dev", "Switch branch", true),
        (
            RepoWrite::CreateBranch("topic".to_string()),
            "Created and switched to topic",
            "Create branch",
            true,
        ),
    ];
    for (write, text, context, clears) in cases {
        let message = write.done_message();
        assert_eq!(message.text(), text);
        assert_eq!(message.level(), StatusLevel::Success);
        assert_eq!(write.context(), context);
        assert_eq!(write.clears_selection(), clears);
    }
}

#[test]
fn the_stage_shortcut_moves_the_open_file_across() {
    let staged = Some(SelectedFile { path: "a.rs".to_string(), staged: true });
    assert!(matches!(stage_shortcut(&staged), Ok(RepoWrite::UnstageFile(p)) if p == "a.rs"));
    let unstaged = Some(SelectedFile { path: "b.rs".to_string(), staged: false });
    assert!(matches!(stage_shortcut(&unstaged), Ok(RepoWrite::StageFile(p)) if p == "b.rs"));
    match stage_shortcut(&None) {
        Err(message) => assert_eq!(message.text(), "Select a file to stage or unstage first"),
        Ok(_) => panic!("nothing is open"),
    }
}

fn entry(path: &str) -> FileEntry {
    FileEntry {
        path: path.to_string(),
        display_status: "Modified".to_string(),
        kind: FileChangeKind::Modified,
    }
}

#[test]
fn the_commit_shortcut_checks_files_summary_and_rules_in_that_order() {
    let mut worktree = WorktreeState::default();
    let mut commit = CommitState::default();
    let refusal = commit_shortcut(CommitMessageRuleSet::Off, &worktree, &commit).unwrap();
    assert_eq!((refusal.0.text(), refusal.1), ("Stage files first", false));

    worktree.staged.push(entry("a.rs"));
    commit.commit_summary = "   ".to_string();
    let refusal = commit_shortcut(CommitMessageRuleSet::Off, &worktree, &commit).unwrap();
    assert_eq!((refusal.0.text(), refusal.1), ("Enter a commit summary", true));

    commit.commit_summary = "add search".to_string();
    assert!(commit_shortcut(CommitMessageRuleSet::Off, &worktree, &commit).is_none());
    let refusal =
        commit_shortcut(CommitMessageRuleSet::ConventionalCommits, &worktree, &commit).unwrap();
    assert!(refusal.0.text().starts_with("Commit message must start with a Conventional Commits prefix"));
    assert!(refusal.1);

    commit.commit_summary = "feat: add search".to_string();
    assert!(commit_shortcut(CommitMessageRuleSet::ConventionalCommits, &worktree, &commit).is_none());
}

#[test]
fn a_commit_empties_the_form_and_names_the_short_id() {
    let mut commit = CommitState::default();
    commit.commit_summary = "feat: x".to_string();
    commit.commit_body = "details".to_string();
    let mut inspector = InspectorState::default();
    inspector.selected_file = Some(SelectedFile { path: "a.rs".to_string(), staged: true });
    inspector.diff_content = "diff --git a/a.rs b/a.rs".to_string();
    let message = commit_done(&mut commit, &mut inspector, "0123456789abcdef0123456789abcdef01234567");
    assert_eq!(message.text(), "Committed: 01234567");
    assert!(commit.commit_summary.is_empty() && commit.commit_body.is_empty());
    assert!(inspector.selected_file.is_none());
    assert!(inspector.diff_content.is_empty());
}

#[test]
fn clearing_the_selection_keeps_the_view_settings() {
    let mut inspector = InspectorState::default();
    inspector.diff_wrap = true;
    inspector.file_filter = "src".to_string();
    inspector.selected_file = Some(SelectedFile { path: "a.rs".to_string(), staged: false });
    clear_repo_selection(&mut inspector);
    assert!(inspector.selected_file.is_none() && inspector.conflict_data.is_none());
    assert!(inspector.diff_wrap);
    assert_eq!(inspector.file_filter, "src");
}

fn preview(dirty: usize, untracked: usize, staged: usize) -> CreateBranchPreview {
    CreateBranchPreview {
        branch_name: "topic".to_string(),
        dirty_files: dirty,
        untracked_files: untracked,
        staged_files: staged,
    }
}

#[test]
fn a_clean_checkout_creates_the_branch_at_once() {
    let mut branch = BranchDialogState::default();
    branch.show_create_branch_dialog = true;
    let next = open_create_branch_confirm(&mut branch, "topic".to_string(), preview(0, 0, 0));
    assert_eq!(next.as_deref(), Some("topic"));
    assert!(branch.show_create_branch_dialog);
    assert!(!branch.show_create_branch_confirm);
}

#[test]
fn changes_in_the_checkout_ask_for_confirmation_first() {
    let mut branch = BranchDialogState::default();
    branch.show_create_branch_dialog = true;
    let next = open_create_branch_confirm(&mut branch, "topic".to_string(), preview(1, 0, 2));
    assert!(next.is_none());
    assert!(!branch.show_create_branch_dialog);
    assert!(branch.show_create_branch_confirm);
    assert_eq!(branch.pending_new_branch_name.as_deref(), Some("topic"));
    assert_eq!(branch.create_branch_preview.as_ref().map(|p| p.staged_files), Some(2));

    let confirmed = confirm_create_branch(&mut branch);
    assert_eq!(confirmed.as_deref(), Some("topic"));
    assert!(!branch.show_create_branch_confirm);
    assert!(branch.create_branch_preview.is_none());
    assert!(branch.pending_new_branch_name.is_none());
}

#[test]
fn a_created_branch_empties_and_closes_the_form() {
    let mut branch = BranchDialogState::default();
    branch.new_branch_name = "topic".to_string();
    branch.show_create_branch_dialog = true;
    branch.pending_new_branch_name = Some("topic".to_string());
    branch_created(&mut branch);
    assert!(branch.new_branch_name.is_empty());
    assert!(!branch.show_create_branch_dialog && !branch.show_create_branch_confirm);
    assert!(branch.pending_new_branch_name.is_none());
}

fn stale(name: &str) -> StaleBranch {
    StaleBranch { name: name.to_string(), merged_into_head: true, selected: true }
}

#[test]
fn deleting_every_stale_branch_closes_the_dialog() {
    let mut cleanup = CleanupBranchesDialogState::default();
    cleanup.stale_branches = vec![stale("old-a"), stale("old-b"), stale("keep")];
    cleanup.show_cleanup_branches_dialog = true;
    let names = vec!["old-a".to_string(), "old-b".to_string()];
    let results = vec![Ok(()), Ok(())];
    let outcome = finish_stale_deletion(&mut cleanup, &names, &results).unwrap();
    assert_eq!(outcome.text(), "Deleted 2 branch(es)");
    assert!(!cleanup.show_cleanup_branches_dialog);
    let left: Vec<&str> = cleanup.stale_branches.iter().map(|b| b.name.as_str()).collect();
    assert_eq!(left, vec!["keep"]);
}

#[test]
fn failed_deletions_are_joined_and_the_dialog_stays() {
    let mut cleanup = CleanupBranchesDialogState::default();
    cleanup.stale_branches = vec![stale("a"), stale("b"), stale("c")];
    cleanup.show_cleanup_branches_dialog = true;
    let names = vec!["a".to_string(), "b".to_string(), "c".to_string()];
    let results = vec![
        Err("not fully merged".to_string()),
        Ok(()),
        Err("checked out".to_string()),
    ];
    let outcome = finish_stale_deletion(&mut cleanup, &names, &results);
    assert_eq!(outcome.unwrap_err(), "a: not fully merged; c: checked out");
    assert!(cleanup.show_cleanup_branches_dialog);
    let left: Vec<&str> = cleanup.stale_branches.iter().map(|b| b.name.as_str()).collect();
    assert_eq!(left, vec!["a", "c"]);
}

#[test]
fn the_refresh_status_line() {
    assert_eq!(refreshed_status(None).text(), "Refreshed repository status");
    let failed = refreshed_status(Some("index locked"));
    assert_eq!(failed.level(), StatusLevel::Error);
    assert!(failed.text().starts_with("Refresh failed: "));
}

#[test]
fn a_saved_resolution_reopens_the_file_as_staged() {
    let mut inspector = InspectorState::default();
    inspector.diff_wrap = true;
    let message = resolution_saved(&mut inspector, "src/lib.rs");
    assert_eq!(message.text(), "Resolved and staged: src/lib.rs");
    let selected = inspector.selected_file.as_ref().unwrap();
    assert_eq!(selected.path, "src/lib.rs");
    assert!(selected.staged);
    assert!(inspector.conflict_data.is_none());
    assert!(inspector.diff_wrap);
}

#[test]
fn what_the_toolbar_enables_starts_when_pressed() {
    let cases = [
        ("main", false, false),
        ("main", true, false),
        ("main", true, true),
        ("feature", false, true),
    ];
    for (branch, https, signed_in) in cases {
        let mut repo = open_repo(branch);
        repo.has_origin_remote = true;
        repo.has_github_https_origin = https;
        let model = RepoToolbarModel::from_state(&repo, None, None, false, signed_in, false, false);
        let tag = dispatch(&WorkerRequest::CreateTag("v1.0.0.0".to_string()), &repo, false, signed_in);
        assert_eq!(model.menu().create_tag_enabled, matches!(tag, Dispatch::Start(_)));
        if model.controls().push_pull_enabled {
            assert!(matches!(dispatch(&WorkerRequest::Push, &repo, false, signed_in), Dispatch::Start(_)));
            assert!(matches!(dispatch(&WorkerRequest::Pull, &repo, false, signed_in), Dispatch::Start(_)));
        }
        if model.menu().discard_enabled {
            assert!(matches!(
                dispatch(&WorkerRequest::DiscardAndReset, &repo, false, signed_in),
                Dispatch::Start(_)
            ));
        }
    }
}
