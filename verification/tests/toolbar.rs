use justanothergitgui::github::PullRequestPrompt;
use justanothergitgui::state::{BusyAction, BusyState, RepoState};
use justanothergitgui::toolbar::RepoToolbarModel;

fn repo(branch: &str, origin: bool, https: bool, outgoing: usize) -> RepoState {
    let mut repo = RepoState::default();
    repo.path = Some("/tmp/repo".to_string());
    repo.branch = branch.to_string();
    repo.has_origin_remote = origin;
    repo.has_github_origin = https;
    repo.has_github_https_origin = https;
    repo.outgoing_commit_count = outgoing;
    repo
}

fn model(repo: &RepoState, busy: Option<BusyState>, signed_in: bool) -> RepoToolbarModel {
    RepoToolbarModel::from_state(repo, busy, None, false, signed_in, false, true)
}

#[test]
fn an_idle_main_branch_offers_everything() {
    let repo = repo("main", true, false, 2);
    let m = model(&repo, None, false);
    assert!(m.can_discard && m.can_create_tag && m.can_undo_last_commit);
    assert_eq!(m.push_label, "Push(2)");
    assert_eq!(m.push_tooltip, "Push 2 local commit(s) to remote");
    assert_eq!(m.discard_tooltip, "Discard local changes and reset 'main' to origin/main");
    assert_eq!(
        m.create_tag_tooltip,
        "Create a tag from the current HEAD commit and push it to origin"
    );
    assert_eq!(
        m.undo_last_commit_tooltip,
        "Remove the most recent local-only commit and keep its changes staged"
    );
    let menu = m.menu();
    assert!(menu.create_tag_enabled && menu.undo_enabled && menu.discard_enabled);
    assert!(menu.cleanup_enabled && menu.view_logs_shown);
    assert!(!menu.publish_enabled, "a repository with an origin is already published");
    let controls = m.controls();
    assert!(controls.sync_shown && controls.push_pull_enabled && controls.new_branch_enabled);
    assert!(controls.branch_picker_shown && controls.branch_picker_enabled);
}

#[test]
fn nothing_to_push_reads_plainly() {
    let m = model(&repo("main", true, false, 0), None, false);
    assert_eq!(m.push_label, "Push");
    assert_eq!(m.push_tooltip, "Push to remote");
    assert!(!m.can_undo_last_commit);
    assert_eq!(m.undo_last_commit_tooltip, "No local-only commits to undo");
}

#[test]
fn a_busy_worker_disables_what_would_use_it() {
    let repo = repo("main", true, false, 1);
    let m = model(&repo, Some(BusyState::new(BusyAction::Push, "Pushing...")), false);
    let menu = m.menu();
    assert!(!menu.create_tag_enabled && !menu.undo_enabled && !menu.discard_enabled);
    assert!(!menu.cleanup_enabled);
    let controls = m.controls();
    assert!(!controls.push_pull_enabled && !controls.new_branch_enabled);
    assert!(!controls.branch_picker_enabled);
    assert_eq!(m.busy_label(true).as_deref(), Some("Pushing..."));
    assert_eq!(m.busy_label(false), None);
}

#[test]
fn a_github_https_origin_needs_the_apps_sign_in() {
    let repo = repo("main", true, true, 0);
    let signed_out = model(&repo, None, false);
    assert!(!signed_out.can_discard && !signed_out.can_create_tag);
    assert!(signed_out.needs_github_sign_in);
    assert_eq!(signed_out.discard_tooltip, "Sign in to GitHub to reset to origin");
    assert_eq!(
        signed_out.create_tag_tooltip,
        "Sign in to GitHub to create and push tags for this repository"
    );
    assert!(signed_out.menu().sign_in_shown);

    let signed_in = model(&repo, None, true);
    assert!(signed_in.can_discard && signed_in.can_create_tag && !signed_in.needs_github_sign_in);
}

#[test]
fn tags_wait_for_main_or_master_and_resets_for_an_origin() {
    let m = model(&repo("feature/x", false, false, 0), None, false);
    assert!(!m.can_create_tag);
    assert_eq!(m.create_tag_tooltip, "Switch to main or master to create a tag");
    assert!(!m.can_discard);
    assert_eq!(m.discard_tooltip, "Add or fetch an origin remote before resetting to origin");
    assert!(!m.controls().sync_shown);
    assert!(m.menu().publish_enabled);

    let local = model(&repo("master", false, false, 0), None, false);
    assert_eq!(local.create_tag_tooltip, "Create a local tag from the current HEAD commit");

    let detached = model(&repo("", true, false, 0), None, false);
    assert_eq!(detached.discard_tooltip, "Check out a branch to reset it to origin");
    assert!(!detached.controls().branch_picker_shown);
}

#[test]
fn without_a_repository_nothing_starts() {
    let m = model(&RepoState::default(), None, false);
    assert!(!m.has_repo);
    assert_eq!(m.undo_last_commit_tooltip, "Open a repository before undoing commits");
    assert!(!m.menu().sign_in_enabled && !m.menu().cleanup_enabled);
    assert!(!m.controls().push_pull_enabled);
}

#[test]
fn the_pull_request_button_reads_the_prompt() {
    let mut r = repo("topic", true, true, 0);
    assert!(model(&r, None, true).pull_request_button().is_none());
    r.pull_request_prompt = Some(PullRequestPrompt::Open {
        branch: "topic".to_string(),
        number: 12,
        url: "https://github.com/o/r/pull/12".to_string(),
    });
    let (label, hover, enabled) = model(&r, None, true).pull_request_button().unwrap();
    assert_eq!(label, "Open PR #12");
    assert_eq!(hover, "Open existing pull request\nhttps://github.com/o/r/pull/12");
    assert!(enabled);
    r.pull_request_prompt = Some(PullRequestPrompt::Create {
        branch: "topic".to_string(),
        url: "https://github.com/o/r/pull/new/topic".to_string(),
    });
    let busy = Some(BusyState::new(BusyAction::CreatePullRequest, "Opening..."));
    let m = model(&r, busy, true);
    let (label, hover, enabled) = m.pull_request_button().unwrap();
    assert_eq!(label, "Create PR...");
    assert_eq!(hover, "Open GitHub pull request creation for topic");
    assert!(!enabled);
    assert_eq!(m.busy_label(false).as_deref(), Some("Opening..."));
}

#[test]
fn the_apps_own_worker_gates_publishing_and_sign_in() {
    let r = repo("main", false, false, 0);
    let m = RepoToolbarModel::from_state(&r, None, None, true, false, false, false);
    assert!(m.welcome_worker_busy);
    assert!(!m.menu().publish_enabled && !m.menu().sign_in_enabled);
    assert!(!m.menu().view_logs_shown);
}
