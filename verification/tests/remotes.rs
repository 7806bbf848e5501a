use justanothergitgui::github::{auth_check_for_status, create_pull_request, open_pull_request, GithubAuthCheck};
use justanothergitgui::remotes::{
    conflicted_pull_message, labelled_error, merge_commit_message, origin_ref_name, pull_action,
    push_refspec, push_rejection, push_success_message, removal_failure, reset_message,
    tag_push_refspec, tag_push_rejection, undo_report, PullAction,
};

#[test]
fn refspecs_push_to_the_same_name() {
    assert_eq!(push_refspec("feature/x"), "refs/heads/feature/x:refs/heads/feature/x");
    assert_eq!(tag_push_refspec("v1.0.0.1"), "refs/tags/v1.0.0.1:refs/tags/v1.0.0.1");
    assert_eq!(origin_ref_name("main"), "refs/remotes/origin/main");
}

#[test]
fn a_rejected_push_is_a_failure() {
    assert_eq!(
        push_rejection(&Some("non-fast-forward".into())),
        Err("Push rejected by remote: non-fast-forward".into())
    );
    assert_eq!(push_rejection(&None), Ok(()));
    assert_eq!(
        tag_push_rejection(&Some("protected".into())),
        Err("Tag push rejected by remote: protected".into())
    );
    assert_eq!(labelled_error("Push error", "timeout"), "Push error: timeout");
}

#[test]
fn an_upstream_that_could_not_be_set_is_only_a_warning() {
    assert_eq!(push_success_message(&Ok(())), "Push successful");
    assert_eq!(
        push_success_message(&Err("locked config".into())),
        "Push successful (warning: upstream configuration error: locked config)"
    );
}

#[test]
fn a_pull_follows_the_merge_analysis() {
    assert_eq!(pull_action(true, true, true), Ok(PullAction::AlreadyUpToDate));
    assert_eq!(pull_action(false, true, true), Ok(PullAction::FastForward));
    assert_eq!(pull_action(false, false, true), Ok(PullAction::Merge));
    assert_eq!(pull_action(false, false, false), Err("Pull requires manual reconciliation.".into()));
    assert_eq!(
        merge_commit_message("main", &Some("https://example.com/r.git".into())),
        "Merge branch 'main' of https://example.com/r.git"
    );
    assert_eq!(merge_commit_message("main", &None), "Merge branch 'main' of origin");
    assert_eq!(
        conflicted_pull_message("main"),
        "Pull completed with conflicts on main. Resolve them and commit the merge."
    );
}

#[test]
fn clean_untracked_files_reports_failed_removals() {
    let failures = vec![removal_failure("blocked/", "Permission denied")];

    assert_eq!(failures[0].path, "blocked");
    assert!(!failures[0].error.is_empty());
    assert_eq!(
        reset_message("main", 1, &failures),
        "Reset to origin/main, removed 1 untracked entry(ies), failed to remove 1 untracked entry(ies): blocked (Permission denied)"
    );
}

#[test]
fn a_reset_reports_only_what_happened() {
    assert_eq!(reset_message("dev", 0, &[]), "Reset to origin/dev");
    let failures = vec![removal_failure("a", "e1"), removal_failure("b/", "e2")];
    assert_eq!(
        reset_message("dev", 0, &failures),
        "Reset to origin/dev, failed to remove 2 untracked entry(ies): a (e1), b (e2)"
    );
    assert_eq!(reset_message("dev", 12, &[]), "Reset to origin/dev, removed 12 untracked entry(ies)");
}

#[test]
fn undo_names_the_commit_and_the_branch() {
    assert_eq!(
        undo_report("abc1234", "main"),
        "Removed commit abc1234 from main and kept its changes staged"
    );
}

#[test]
fn opening_a_page_reports_how_the_browser_fared() {
    assert_eq!(open_pull_request(Ok(())), Ok("Opened pull request in browser".into()));
    assert_eq!(
        open_pull_request(Err("no browser".into())),
        Err("Could not open pull request: no browser".into())
    );
    assert_eq!(
        create_pull_request(Ok(())),
        Ok("Opened pull request creation in browser".into())
    );
    assert_eq!(
        create_pull_request(Err("no browser".into())),
        Err("Could not open pull request creation page: no browser".into())
    );
}

#[test]
fn a_token_check_reads_the_status_code() {
    assert_eq!(auth_check_for_status(200, "200 OK"), Ok(GithubAuthCheck::Valid));
    assert_eq!(auth_check_for_status(204, "204 No Content"), Ok(GithubAuthCheck::Valid));
    assert_eq!(auth_check_for_status(401, "401 Unauthorized"), Ok(GithubAuthCheck::Revoked));
    assert_eq!(
        auth_check_for_status(503, "503 Service Unavailable"),
        Err("GitHub token check failed with status 503 Service Unavailable".into())
    );
}
