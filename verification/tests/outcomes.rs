use justanothergitgui::github::{GithubAuthPrompt, PullRequestPrompt, PushSuccess};
use justanothergitgui::outcomes::{
    clone_finished, discard_finished, publish_finished, pull_finished, pull_request_finished,
    push_finished, sign_in_failed, sign_in_prompt_texts, sign_in_succeeded, tag_finished,
    undo_finished, worktree_created, worktree_removed,
};
use justanothergitgui::state::{
    DiscardDialogState, RepoState, StatusLevel, TagDialogState, WorktreeDialogState,
};
use justanothergitgui::git::DiscardPreview;
use justanothergitgui::worktree_metadata::{ReviewState, TestState};
use justanothergitgui::worktrees::{CreatedWorktree, LinkedWorktree, LinkedWorktreeStatus};

#[test]
fn a_push_that_found_a_pull_request_says_so_and_keeps_the_prompt() {
    let mut repo = RepoState::default();
    let report = push_finished(
        &mut repo,
        Ok(PushSuccess {
            message: "Pushed main".to_string(),
            pull_request_prompt: Some(PullRequestPrompt::Open {
                branch: "main".to_string(),
                number: 7,
                url: "https://github.com/o/r/pull/7".to_string(),
            }),
        }),
    );
    assert_eq!(report.status.text(), "Push: Pushed main Pull request #7 is ready.");
    assert_eq!(report.status.level(), StatusLevel::Success);
    assert!(report.refresh && report.logged.is_none());
    assert!(matches!(repo.pull_request_prompt, Some(PullRequestPrompt::Open { number: 7, .. })));
}

#[test]
fn a_push_with_a_branch_to_propose_invites_a_pull_request() {
    let mut repo = RepoState::default();
    let report = push_finished(
        &mut repo,
        Ok(PushSuccess {
            message: "ok".to_string(),
            pull_request_prompt: Some(PullRequestPrompt::Create {
                branch: "topic".to_string(),
                url: "https://github.com/o/r/pull/new/topic".to_string(),
            }),
        }),
    );
    assert_eq!(report.status.text(), "Push: ok You can create a pull request now.");
    let plain = push_finished(
        &mut repo,
        Ok(PushSuccess { message: "ok".to_string(), pull_request_prompt: None }),
    );
    assert_eq!(plain.status.text(), "Push: ok");
    assert!(repo.pull_request_prompt.is_none());
}

#[test]
fn a_failed_push_is_logged_and_keeps_the_tab_as_it_was() {
    let mut repo = RepoState::default();
    repo.pull_request_prompt = Some(PullRequestPrompt::Create {
        branch: "topic".to_string(),
        url: "u".to_string(),
    });
    let report = push_finished(&mut repo, Err("rejected".to_string()));
    assert_eq!(report.status.level(), StatusLevel::Error);
    assert!(report.status.text().starts_with("Push failed: "));
    assert_eq!(report.logged, Some(("Push".to_string(), "rejected".to_string())));
    assert!(!report.refresh);
    assert!(repo.pull_request_prompt.is_some());
}

#[test]
fn pulls_and_undos_report_under_their_names() {
    let pulled = pull_finished(Ok("Fast-forwarded".to_string()));
    assert_eq!(pulled.status.text(), "Pull: Fast-forwarded");
    assert!(pulled.refresh);
    let refused = pull_finished(Err("no remote".to_string()));
    assert!(!refused.refresh);
    assert_eq!(refused.logged.unwrap().0, "Pull");

    let undone = undo_finished(Ok("Undid abc".to_string()));
    assert_eq!(undone.status.text(), "Undo last commit: Undid abc");
    let failed = undo_finished(Err("pushed".to_string()));
    assert!(failed.refresh);
    assert!(failed.status.text().starts_with("Undo last commit failed: "));
}

#[test]
fn a_created_tag_closes_its_dialog() {
    let mut tag = TagDialogState::default();
    tag.new_tag_name = "v1.0.0.0".to_string();
    tag.show_create_tag_dialog = true;
    tag.focus_new_tag_name_requested = true;
    let report = tag_finished(&mut tag, Ok("Created tag v1.0.0.0".to_string()));
    assert_eq!(report.status.text(), "Created tag v1.0.0.0");
    assert!(tag.new_tag_name.is_empty() && !tag.show_create_tag_dialog);
    assert!(!tag.focus_new_tag_name_requested);

    let mut tag = TagDialogState::default();
    tag.new_tag_name = "v2".to_string();
    tag.show_create_tag_dialog = true;
    let report = tag_finished(&mut tag, Err("exists".to_string()));
    assert!(report.refresh);
    assert_eq!(tag.new_tag_name, "v2");
    assert!(tag.show_create_tag_dialog);
}

#[test]
fn pull_request_failures_name_what_was_opened() {
    assert_eq!(
        pull_request_finished(true, Err("x".to_string())).logged.unwrap().0,
        "Open PR"
    );
    assert_eq!(
        pull_request_finished(false, Err("x".to_string())).logged.unwrap().0,
        "Create PR"
    );
    let opened = pull_request_finished(true, Ok("Opened pull request".to_string()));
    assert_eq!(opened.status.text(), "Opened pull request");
    assert!(!opened.refresh);
}

#[test]
fn a_finished_reset_closes_the_discard_dialog() {
    let mut discard = DiscardDialogState::default();
    discard.show_discard_dialog = true;
    discard.discard_clean_untracked = true;
    discard.discard_preview = Some(DiscardPreview::default());
    let report = discard_finished(&mut discard, Ok("Reset to origin/main".to_string()));
    assert_eq!(report.status.text(), "Discard: Reset to origin/main");
    assert!(!discard.show_discard_dialog && discard.discard_preview.is_none());
    assert!(!discard.discard_clean_untracked);

    let mut discard = DiscardDialogState::default();
    discard.show_discard_dialog = true;
    let report = discard_finished(&mut discard, Err("offline".to_string()));
    assert_eq!(report.logged.unwrap().0, "Discard & reset");
    assert!(discard.show_discard_dialog);
}

fn created(name: &str) -> CreatedWorktree {
    CreatedWorktree {
        name: name.to_string(),
        branch: format!("feature/{name}"),
        path: format!("/tmp/{name}"),
        base_commit: "0123456789abcdef0123456789abcdef01234567".to_string(),
    }
}

#[test]
fn a_created_worktree_records_where_and_when_it_started() {
    let mut dialog = WorktreeDialogState::default();
    dialog.name = "auth".to_string();
    dialog.show_new_worktree_dialog = true;
    let (report, record) = worktree_created(
        &mut dialog,
        Ok(("Created worktree 'auth'".to_string(), created("auth"))),
        1_700_000_000,
    );
    assert_eq!(report.status.text(), "Created worktree 'auth'");
    let (key, metadata) = record.expect("a record to write");
    assert_eq!(key, "wt:auth");
    assert_eq!(metadata.base_commit, "0123456789abcdef0123456789abcdef01234567");
    assert_eq!(metadata.started, 1_700_000_000);
    assert!(metadata.task.is_empty() && metadata.agent.is_empty() && metadata.notes.is_empty());
    assert_eq!(metadata.review, ReviewState::Unreviewed);
    assert_eq!(metadata.test, TestState::Unknown);
    assert!(dialog.name.is_empty() && !dialog.show_new_worktree_dialog);
}

#[test]
fn a_refused_worktree_keeps_everything_typed_in() {
    let mut dialog = WorktreeDialogState::default();
    dialog.name = "auth".to_string();
    dialog.branch = "feature/auth".to_string();
    dialog.show_new_worktree_dialog = true;
    let (report, record) =
        worktree_created(&mut dialog, Err("Branch in use".to_string()), 5);
    assert!(record.is_none());
    assert_eq!(report.logged.unwrap().0, "New worktree");
    assert_eq!(dialog.name, "auth");
    assert_eq!(dialog.branch, "feature/auth");
    assert!(dialog.show_new_worktree_dialog);
}

fn linked(name: &str) -> LinkedWorktree {
    LinkedWorktree {
        name: name.to_string(),
        path: format!("/tmp/{name}"),
        branch: None,
        head_short_oid: "0123456".to_string(),
        is_main: false,
        is_current: false,
        is_locked: false,
        lock_reason: None,
        status: LinkedWorktreeStatus::Clean,
    }
}

#[test]
fn a_removed_worktree_forgets_its_metadata_and_closes_the_confirmation() {
    let mut dialog = WorktreeDialogState::default();
    dialog.pending_remove = Some(linked("old"));
    let (report, forget) = worktree_removed(&mut dialog, Ok("Removed worktree 'old'".to_string()));
    assert_eq!(report.status.text(), "Removed worktree 'old'");
    assert_eq!(forget.as_deref(), Some("wt:old"));
    assert!(dialog.pending_remove.is_none());

    let mut dialog = WorktreeDialogState::default();
    dialog.pending_remove = Some(linked("busy"));
    let (report, forget) = worktree_removed(&mut dialog, Err("dirty".to_string()));
    assert!(forget.is_none());
    assert_eq!(report.logged.unwrap().0, "Remove worktree");
    assert!(dialog.pending_remove.is_none());
}

#[test]
fn the_sign_in_prompt_names_the_code_and_the_page() {
    let prompt = GithubAuthPrompt {
        user_code: "ABCD-1234".to_string(),
        verification_uri: "https://github.com/login/device".to_string(),
        browser_url: "https://github.com/login/device?user_code=ABCD-1234".to_string(),
    };
    let (status, hint) = sign_in_prompt_texts(&prompt);
    assert_eq!(status, "Enter GitHub code ABCD-1234 to finish signing in.");
    assert_eq!(hint, "If GitHub did not open automatically, visit https://github.com/login/device.");
}

#[test]
fn sign_in_results() {
    let ok = sign_in_succeeded("octocat", &Ok(()));
    assert_eq!(ok.text(), "GitHub sign-in complete for @octocat");
    assert_eq!(ok.level(), StatusLevel::Success);
    let unsaved = sign_in_succeeded("octocat", &Err("keychain locked".to_string()));
    assert_eq!(unsaved.level(), StatusLevel::Error);
    assert!(unsaved.text().starts_with("GitHub sign-in complete for @octocat, but "));

    let kept = sign_in_failed("timed out", Some("octocat"));
    assert!(kept.text().starts_with("Signed in to GitHub as @octocat (latest sign-in failed: "));
    assert!(kept.text().ends_with(")"));
    let none = sign_in_failed("timed out", None);
    assert!(none.text().starts_with("GitHub sign-in failed: "));
}

#[test]
fn clone_and_publish_results() {
    let cloned = clone_finished(&Ok("/home/me/src/hello".to_string()));
    assert_eq!(cloned.text(), "Cloned repository to /home/me/src/hello");
    assert!(clone_finished(&Err("denied".to_string())).text().starts_with("Clone failed: "));
    assert_eq!(publish_finished(&Ok("Published".to_string())).text(), "Published");
    assert!(publish_finished(&Err("taken".to_string()))
        .text()
        .starts_with("Publish to GitHub failed: "));
}

#[test]
fn the_browser_opens_the_page_with_the_code_filled_in_when_there_is_one() {
    let prompt = GithubAuthPrompt::for_device_code(
        "ABCD-1234".into(),
        "https://github.com/login/device".into(),
        Some("https://github.com/login/device?user_code=ABCD-1234".into()),
    );
    assert_eq!(prompt.user_code, "ABCD-1234");
    assert_eq!(prompt.verification_uri, "https://github.com/login/device");
    assert_eq!(prompt.browser_url, "https://github.com/login/device?user_code=ABCD-1234");

    let plain = GithubAuthPrompt::for_device_code(
        "WXYZ-9876".into(),
        "https://github.com/login/device".into(),
        None,
    );
    assert_eq!(plain.browser_url, "https://github.com/login/device");
}
