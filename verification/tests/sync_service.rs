use justanothergitgui::github::{is_github_https_url, GithubAuthSession, PullRequestPrompt};
use justanothergitgui::ports::{
    GitCallRecord,
    GitBranchReadPort, GitHubRemoteInfoPort, GitRemoteAuth, GitRemoteSyncPort, GitUndoCommitPort,
};
use justanothergitgui::sync::{
    discard_and_reset_to_remote, pull, push, try_push_with_auth, undo_last_commit,
};

fn auth_mode(auth: &GitRemoteAuth<'_>) -> &'static str {
    match auth {
        GitRemoteAuth::GitHub(_) => "github",
        GitRemoteAuth::System => "system",
    }
}

#[derive(Default)]
struct FakeGitPort {
    branch_name: Option<String>,
    outgoing_commit_count: usize,
    push_message: String,
    undo_message: String,
    pull_message: String,
    reset_message: String,
    push_calls: std::cell::RefCell<Vec<(String, String, &'static str)>>,
    undo_calls: std::cell::RefCell<Vec<String>>,
    pull_calls: std::cell::RefCell<Vec<(String, String, &'static str)>>,
    reset_calls: std::cell::RefCell<Vec<(String, &'static str, bool)>>,
}

impl GitBranchReadPort for FakeGitPort {
    fn current_branch_name(&self, _repo_path: &str) -> Result<Option<String>, String> {
        Ok(self.branch_name.clone())
    }
}

impl GitRemoteSyncPort for FakeGitPort {
    fn push(
        &mut self,
        repo_path: &str,
        branch_name: &str,
        auth: GitRemoteAuth<'_>,
    ) -> Result<String, String> {
        let mode = match auth {
            GitRemoteAuth::GitHub(_) => "github",
            GitRemoteAuth::System => "system",
        };
        self.push_calls.borrow_mut().push((
            repo_path.to_string(),
            branch_name.to_string(),
            mode,
        ));
        Ok(self.push_message.clone())
    }

    fn pull(
        &mut self,
        repo_path: &str,
        branch_name: &str,
        auth: GitRemoteAuth<'_>,
    ) -> Result<String, String> {
        self.pull_calls.borrow_mut().push((
            repo_path.to_string(),
            branch_name.to_string(),
            auth_mode(&auth),
        ));
        Ok(self.pull_message.clone())
    }

    fn reset_to_remote(
        &mut self,
        repo_path: &str,
        auth: GitRemoteAuth<'_>,
        clean_untracked: bool,
    ) -> Result<String, String> {
        self.reset_calls.borrow_mut().push((
            repo_path.to_string(),
            auth_mode(&auth),
            clean_untracked,
        ));
        Ok(self.reset_message.clone())
    }
}

impl GitUndoCommitPort for FakeGitPort {
    fn outgoing_commit_count(&self, _repo_path: &str) -> Result<usize, String> {
        Ok(self.outgoing_commit_count)
    }

    fn undo_last_commit(&mut self, repo_path: &str) -> Result<String, String> {
        self.undo_calls.borrow_mut().push(repo_path.to_string());
        Ok(self.undo_message.clone())
    }
}

struct FakeGitHubPort {
    https_origin: bool,
    prompt: Option<PullRequestPrompt>,
}

impl GitHubRemoteInfoPort for FakeGitHubPort {
    fn is_github_https_origin(&self, _repo_path: &str) -> bool {
        self.https_origin
    }

    fn detect_pull_request_prompt(
        &self,
        _repo_path: &str,
        _branch: &str,
        _auth: Option<&GithubAuthSession>,
    ) -> Result<Option<PullRequestPrompt>, String> {
        Ok(self.prompt.clone())
    }
}

#[test]
fn push_uses_injected_ports_without_real_repo() {
    let mut git = FakeGitPort {
        branch_name: Some("feature/demo".into()),
        outgoing_commit_count: 0,
        push_message: "Push complete".into(),
        undo_message: String::new(),
        push_calls: std::cell::RefCell::new(Vec::new()),
        undo_calls: std::cell::RefCell::new(Vec::new()),
        ..Default::default()
    };
    let github = FakeGitHubPort {
        https_origin: false,
        prompt: Some(PullRequestPrompt::Create {
            branch: "feature/demo".into(),
            url: "https://example.com/pr".into(),
        }),
    };

    let result = push("/virtual/repo", None, &mut git, &github).expect("push");

    assert_eq!(result.message, "Push complete");
    assert!(matches!(
        result.pull_request_prompt,
        Some(PullRequestPrompt::Create { branch, .. }) if branch == "feature/demo"
    ));
    assert_eq!(
        git.push_calls.borrow().as_slice(),
        &[(
            "/virtual/repo".to_string(),
            "feature/demo".into(),
            "system"
        )]
    );
}

#[test]
fn github_https_push_requires_app_auth_without_repo_access() {
    let mut git = FakeGitPort {
        branch_name: Some("main".into()),
        outgoing_commit_count: 0,
        push_message: String::new(),
        undo_message: String::new(),
        push_calls: std::cell::RefCell::new(Vec::new()),
        undo_calls: std::cell::RefCell::new(Vec::new()),
        ..Default::default()
    };
    let github = FakeGitHubPort {
        https_origin: true,
        prompt: None,
    };

    let error = try_push_with_auth(
        "/virtual/repo",
        Some("main"),
        None,
        &mut git,
        &github,
    )
    .expect_err("https GitHub remotes should require app auth");

    assert!(error.contains("GitHub push requires the app's GitHub sign-in"));
    assert!(git.push_calls.borrow().is_empty());
}

#[test]
fn undo_last_commit_requires_checked_out_branch() {
    let mut git = FakeGitPort {
        branch_name: None,
        outgoing_commit_count: 1,
        push_message: String::new(),
        undo_message: "Undid commit".into(),
        push_calls: std::cell::RefCell::new(Vec::new()),
        undo_calls: std::cell::RefCell::new(Vec::new()),
        ..Default::default()
    };

    let error =
        undo_last_commit("/virtual/repo", &mut git).expect_err("branch is required");

    assert_eq!(error, "Undo last commit requires a checked-out branch.");
    assert!(git.undo_calls.borrow().is_empty());
}

#[test]
fn undo_last_commit_requires_local_only_commit() {
    let mut git = FakeGitPort {
        branch_name: Some("main".into()),
        outgoing_commit_count: 0,
        push_message: String::new(),
        undo_message: "Undid commit".into(),
        push_calls: std::cell::RefCell::new(Vec::new()),
        undo_calls: std::cell::RefCell::new(Vec::new()),
        ..Default::default()
    };

    let error = undo_last_commit("/virtual/repo", &mut git)
        .expect_err("local-only commit should be required");

    assert_eq!(
        error,
        "Undo last commit requires at least one local-only commit on main."
    );
    assert!(git.undo_calls.borrow().is_empty());
}

#[test]
fn undo_last_commit_uses_injected_port_when_commit_is_local_only() {
    let mut git = FakeGitPort {
        branch_name: Some("main".into()),
        outgoing_commit_count: 1,
        push_message: String::new(),
        undo_message: "Removed commit abc12345 from main and kept its changes staged".into(),
        push_calls: std::cell::RefCell::new(Vec::new()),
        undo_calls: std::cell::RefCell::new(Vec::new()),
        ..Default::default()
    };

    let result = undo_last_commit("/virtual/repo", &mut git).expect("undo");

    assert_eq!(
        result,
        "Removed commit abc12345 from main and kept its changes staged"
    );
    assert_eq!(
        git.undo_calls.borrow().as_slice(),
        &["/virtual/repo".to_string()]
    );
}

fn app_auth() -> GithubAuthSession {
    GithubAuthSession {
        access_token: "token".into(),
        login: "octocat".into(),
    }
}

#[test]
fn pull_uses_system_auth_for_non_github_origin() {
    let mut git = FakeGitPort {
        branch_name: Some("main".into()),
        pull_message: "Pull complete".into(),
        ..Default::default()
    };
    let github = FakeGitHubPort {
        https_origin: false,
        prompt: None,
    };

    let message = pull("/virtual/repo", None, &mut git, &github).expect("pull");

    assert_eq!(message, "Pull complete");
    assert_eq!(
        git.pull_calls.borrow().as_slice(),
        &[("/virtual/repo".to_string(), "main".into(), "system")]
    );
}

#[test]
fn pull_uses_github_auth_for_https_origin() {
    let mut git = FakeGitPort {
        branch_name: Some("main".into()),
        pull_message: "Pull complete".into(),
        ..Default::default()
    };
    let github = FakeGitHubPort {
        https_origin: true,
        prompt: None,
    };
    let auth = app_auth();

    let message = pull("/virtual/repo", Some(&auth), &mut git, &github).expect("pull");

    assert_eq!(message, "Pull complete");
    assert_eq!(
        git.pull_calls.borrow().as_slice(),
        &[("/virtual/repo".to_string(), "main".into(), "github")]
    );
}

#[test]
fn pull_https_origin_requires_app_auth() {
    let mut git = FakeGitPort {
        branch_name: Some("main".into()),
        ..Default::default()
    };
    let github = FakeGitHubPort {
        https_origin: true,
        prompt: None,
    };

    let error = pull("/virtual/repo", None, &mut git, &github)
        .expect_err("https origin should require app auth");

    assert!(error.contains("GitHub pull requires the app's GitHub sign-in"));
    assert!(git.pull_calls.borrow().is_empty());
}

#[test]
fn discard_and_reset_threads_clean_untracked_and_system_auth() {
    let mut git = FakeGitPort {
        reset_message: "Reset complete".into(),
        ..Default::default()
    };
    let github = FakeGitHubPort {
        https_origin: false,
        prompt: None,
    };

    let message = discard_and_reset_to_remote(
        "/virtual/repo",
        None,
        true,
        &mut git,
        &github,
    )
    .expect("reset");

    assert_eq!(message, "Reset complete");
    assert_eq!(
        git.reset_calls.borrow().as_slice(),
        &[("/virtual/repo".to_string(), "system", true)]
    );
}

#[test]
fn discard_and_reset_uses_github_auth_for_https_origin() {
    let mut git = FakeGitPort {
        reset_message: "Reset complete".into(),
        ..Default::default()
    };
    let github = FakeGitHubPort {
        https_origin: true,
        prompt: None,
    };
    let auth = app_auth();

    discard_and_reset_to_remote(
        "/virtual/repo",
        Some(&auth),
        false,
        &mut git,
        &github,
    )
    .expect("reset");

    assert_eq!(
        git.reset_calls.borrow().as_slice(),
        &[("/virtual/repo".to_string(), "github", false)]
    );
}

#[test]
fn discard_and_reset_https_origin_requires_app_auth() {
    let mut git = FakeGitPort::default();
    let github = FakeGitHubPort {
        https_origin: true,
        prompt: None,
    };

    let error =
        discard_and_reset_to_remote("/virtual/repo", None, false, &mut git, &github)
            .expect_err("https origin should require app auth");

    assert!(error.contains("Reset requires the app's GitHub sign-in"));
    assert!(git.reset_calls.borrow().is_empty());
}

/// A GitHub port that knows only the origin's URL and classifies it the way
/// the application does.
struct OriginUrlPort {
    origin: String,
}

impl GitHubRemoteInfoPort for OriginUrlPort {
    fn is_github_https_origin(&self, _repo_path: &str) -> bool {
        is_github_https_url(&self.origin)
    }

    fn detect_pull_request_prompt(
        &self,
        _repo_path: &str,
        _branch: &str,
        _auth: Option<&GithubAuthSession>,
    ) -> Result<Option<PullRequestPrompt>, String> {
        Ok(None)
    }
}

#[test]
fn github_https_pushes_require_app_auth() {
    let mut git = FakeGitPort::default();
    let github = OriginUrlPort {
        origin: "https://github.com/octocat/hello-world.git".to_string(),
    };
    let error = try_push_with_auth("/tmp/repo", Some("main"), None, &mut git, &github)
        .expect_err("https GitHub remotes should require app auth");
    assert!(error.contains("GitHub push requires the app's GitHub sign-in"));
    assert!(git.push_calls.borrow().is_empty());
}

#[test]
fn github_ssh_pushes_fall_back_to_system_auth() {
    let mut git = FakeGitPort::default();
    let github = OriginUrlPort {
        origin: "git@github.com:octocat/hello-world.git".to_string(),
    };
    assert_eq!(
        try_push_with_auth("/tmp/repo", Some("main"), None, &mut git, &github)
            .expect("ssh GitHub remotes should stay on system auth"),
        None
    );
}

#[test]
fn a_push_without_a_branch_sends_nothing() {
    let mut git = FakeGitPort { branch_name: None, ..Default::default() };
    let plain = FakeGitHubPort { https_origin: false, prompt: None };
    let error = push("/virtual/repo", None, &mut git, &plain).expect_err("no branch");
    assert_eq!(error, "Push requires a checked-out branch.");

    let github = FakeGitHubPort { https_origin: true, prompt: None };
    let auth = app_auth();
    let error = push("/virtual/repo", Some(&auth), &mut git, &github).expect_err("no branch");
    assert_eq!(error, "GitHub push requires a checked-out branch.");
    assert!(git.push_calls.borrow().is_empty());
}

#[test]
fn a_signed_in_github_push_is_sent_once_with_the_apps_sign_in() {
    let mut git = FakeGitPort { branch_name: Some("main".into()), ..Default::default() };
    let github = FakeGitHubPort { https_origin: true, prompt: None };
    let auth = app_auth();

    let result = push("/virtual/repo", Some(&auth), &mut git, &github).expect("push");

    assert_eq!(result.message, "Push successful");
    assert_eq!(
        git.push_calls.borrow().as_slice(),
        &[("/virtual/repo".to_string(), "main".to_string(), "github")]
    );
}

#[test]
fn a_pull_without_a_branch_fetches_nothing() {
    let mut git = FakeGitPort { branch_name: None, ..Default::default() };
    let plain = FakeGitHubPort { https_origin: false, prompt: None };
    assert_eq!(
        pull("/virtual/repo", None, &mut git, &plain).expect_err("no branch"),
        "Pull requires a checked-out branch."
    );
    let github = FakeGitHubPort { https_origin: true, prompt: None };
    assert_eq!(
        pull("/virtual/repo", None, &mut git, &github).expect_err("no branch"),
        "GitHub pull requires a checked-out branch."
    );
    assert!(git.pull_calls.borrow().is_empty());
}

#[test]
fn an_undo_with_nothing_local_names_the_branch_and_undoes_nothing() {
    let mut git = FakeGitPort {
        branch_name: Some("feature/x".into()),
        outgoing_commit_count: 0,
        ..Default::default()
    };
    assert_eq!(
        undo_last_commit("/virtual/repo", &mut git).expect_err("nothing local"),
        "Undo last commit requires at least one local-only commit on feature/x."
    );
    assert!(git.undo_calls.borrow().is_empty());
}

impl GitCallRecord for FakeGitPort {}
