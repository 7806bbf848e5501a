use justanothergitgui::commit_rules::CommitMessageRuleSet;
use justanothergitgui::github::{GithubAuthCheck, GithubAuthSession, GithubRepoVisibility};
use justanothergitgui::state::{BusyAction, StatusLevel, StatusMessage};
use justanothergitgui::welcome::{
    begin_sign_in, check_clone, clone_request, github_status_text, publish_dispatch,
    repository_loaded_text, saved_sign_in_verdict, startup_status, tab_for_path, CloneDestination, RepoListing,
};

#[test]
fn a_clone_goes_into_a_folder_named_after_the_repository() {
    let (url, dest, message) =
        clone_request(false, "  https://github.com/octocat/hello-world.git ", "/home/me/src")
            .expect("a clone to start");
    assert_eq!(url, "https://github.com/octocat/hello-world.git");
    assert_eq!(dest, "/home/me/src/hello-world");
    assert_eq!(message, "Cloning into /home/me/src/hello-world...");

    let (_, dest, _) = clone_request(false, "git@github.com:octocat/tools", "/tmp/").unwrap();
    assert_eq!(dest, "/tmp/tools");
}

#[test]
fn a_clone_needs_both_fields_a_name_and_an_idle_worker() {
    assert_eq!(
        clone_request(false, "   ", "/tmp").unwrap_err(),
        "URL and destination folder are required."
    );
    assert_eq!(
        clone_request(false, "https://github.com/o/r", " ").unwrap_err(),
        "URL and destination folder are required."
    );
    assert_eq!(
        clone_request(false, "https://example.com/..", "/tmp").unwrap_err(),
        "Could not derive a repository name from this URL."
    );
    assert_eq!(
        clone_request(true, "https://github.com/o/r", "/tmp").unwrap_err(),
        "Busy — please wait..."
    );
}

#[test]
fn the_destination_is_checked_before_anything_is_fetched() {
    assert_eq!(
        check_clone("  ", "/tmp/r", &CloneDestination::Empty, false).unwrap_err(),
        "Clone URL is required."
    );
    assert_eq!(
        check_clone("https://github.com/o/r", "/tmp/r", &CloneDestination::NotEmpty, false)
            .unwrap_err(),
        "Destination already exists and is not empty: /tmp/r"
    );
    let absent = CloneDestination::Absent { missing_parent: Some("/nowhere".to_string()) };
    assert_eq!(
        check_clone("https://github.com/o/r", "/nowhere/r", &absent, false).unwrap_err(),
        "Parent folder does not exist: /nowhere"
    );
}

#[test]
fn only_github_https_clones_use_the_apps_sign_in() {
    let fresh = CloneDestination::Absent { missing_parent: None };
    assert_eq!(
        check_clone(" https://github.com/o/r.git ", "/tmp/r", &fresh, true).unwrap(),
        ("https://github.com/o/r.git".to_string(), true)
    );
    assert_eq!(
        check_clone("https://github.com/o/r.git", "/tmp/r", &fresh, false).unwrap(),
        ("https://github.com/o/r.git".to_string(), false)
    );
    assert_eq!(
        check_clone("git@github.com:o/r.git", "/tmp/r", &CloneDestination::Empty, true).unwrap(),
        ("git@github.com:o/r.git".to_string(), false)
    );
}

#[test]
fn the_listing_follows_next_links_for_at_most_five_pages() {
    let mut listing = RepoListing::new();
    let mut asked = Vec::new();
    while let Some(url) = listing.next_request() {
        asked.push(url.clone());
        let link = format!(
            "<https://api.github.com/user/repos?page={}>; rel=\"next\"",
            asked.len() + 1
        );
        listing.page_answered(200, "200 OK", Some(&link)).unwrap();
    }
    assert_eq!(asked.len(), 5);
    assert!(asked[0].starts_with("https://api.github.com/user/repos?per_page=100&sort=updated"));
    assert_eq!(asked[1], "https://api.github.com/user/repos?page=2");
}

#[test]
fn the_listing_ends_without_a_next_link_or_on_a_failure() {
    let mut listing = RepoListing::new();
    assert!(listing.next_request().is_some());
    listing.page_answered(200, "200 OK", None).unwrap();
    assert!(listing.next_request().is_none());

    let mut listing = RepoListing::new();
    listing.next_request();
    assert_eq!(
        listing.page_answered(401, "401 Unauthorized", None).unwrap_err(),
        "GitHub token is no longer valid. Sign in again to refresh your session."
    );
    let mut listing = RepoListing::new();
    listing.next_request();
    assert_eq!(
        listing.page_answered(502, "502 Bad Gateway", None).unwrap_err(),
        "GitHub repo list failed with status 502 Bad Gateway"
    );
}

#[test]
fn an_open_repository_is_found_again() {
    let open = vec![None, Some("/src/a".to_string()), Some("/src/b".to_string())];
    assert_eq!(tab_for_path(&open, "/src/b"), Some(2));
    assert_eq!(tab_for_path(&open, "/src/c"), None);
    assert_eq!(repository_loaded_text("/src/hello"), "Repository loaded: hello");
}

#[test]
fn the_sign_in_line_and_its_start() {
    assert_eq!(github_status_text(Some("octocat")), "Signed in to GitHub as @octocat");
    assert_eq!(
        github_status_text(None),
        "Not signed in to GitHub. Sign in to create repositories and PRs."
    );
    assert_eq!(begin_sign_in(true, "Signing in...").unwrap_err(), "Busy — please wait...");
    let busy = begin_sign_in(false, "Signing in...").unwrap();
    assert_eq!(busy.action, BusyAction::GithubSignIn);
    assert_eq!(busy.label, "Signing in...");
}

#[test]
fn publishing_needs_a_sign_in_and_an_acceptable_first_commit() {
    let session = GithubAuthSession { access_token: "t".to_string(), login: "octocat".to_string() };
    assert_eq!(
        publish_dispatch(
            None,
            CommitMessageRuleSet::Off,
            "/src/app",
            "app",
            "init",
            GithubRepoVisibility::Private
        )
        .unwrap_err(),
        "Sign in to GitHub before creating a repository."
    );
    let refusal = publish_dispatch(
        Some(&session),
        CommitMessageRuleSet::ConventionalCommits,
        "/src/app",
        "app",
        "initial import",
        GithubRepoVisibility::Private,
    )
    .unwrap_err();
    assert!(refusal.starts_with("Commit message must start with a Conventional Commits prefix"));
    let (request, busy, status) = publish_dispatch(
        Some(&session),
        CommitMessageRuleSet::ConventionalCommits,
        "  /src/app ",
        " app ",
        "  chore: initial commit  ",
        GithubRepoVisibility::Public,
    )
    .unwrap();
    assert_eq!(request.folder_path, "/src/app");
    assert_eq!(request.repo_name, "app");
    assert_eq!(request.commit_message, "chore: initial commit");
    assert_eq!(request.visibility, GithubRepoVisibility::Public);
    assert_eq!(request.auth.login, "octocat");
    assert_eq!(busy.action, BusyAction::PublishRepository);
    assert_eq!(busy.label, "Publishing repository...");
    assert_eq!(status, "Publishing folder to GitHub...");
}

#[test]
fn a_saved_sign_in_is_kept_unless_github_revoked_it() {
    let valid = saved_sign_in_verdict(&Ok(GithubAuthCheck::Valid));
    assert!(valid.keep && !valid.clear && valid.logged.is_none() && valid.notice.is_none());
    let revoked = saved_sign_in_verdict(&Ok(GithubAuthCheck::Revoked));
    assert!(!revoked.keep && revoked.clear);
    assert_eq!(
        revoked.notice.unwrap().text(),
        "GitHub sign-in expired. Use 'Sign in to GitHub...' to reconnect."
    );
    assert_eq!(
        revoked.logged.as_deref(),
        Some("Saved GitHub token was revoked or expired; please sign in again.")
    );
    let offline = saved_sign_in_verdict(&Err("timed out".to_string()));
    assert!(offline.keep && !offline.clear);
    assert_eq!(offline.logged.as_deref(), Some("timed out"));
}

#[test]
fn the_first_startup_trouble_wins_the_status_line() {
    let expired = StatusMessage::info("GitHub sign-in expired. Use 'Sign in to GitHub...' to reconnect.");
    let settings_first = startup_status(Some("bad toml"), Some(expired), Some("keyring locked")).expect("status");
    assert_eq!(settings_first.text(), "Settings failed: bad toml. See Logs.");
    assert_eq!(settings_first.level(), StatusLevel::Error);

    let expired = StatusMessage::info("GitHub sign-in expired. Use 'Sign in to GitHub...' to reconnect.");
    let notice = startup_status(None, Some(expired), None).expect("status");
    assert_eq!(notice.text(), "GitHub sign-in expired. Use 'Sign in to GitHub...' to reconnect.");
    assert_eq!(notice.level(), StatusLevel::Info);

    let load = startup_status(None, None, Some("keyring locked")).expect("status");
    assert_eq!(load.text(), "GitHub sign-in failed: keyring locked. See Logs.");

    assert!(startup_status(None, None, None).is_none());
}
