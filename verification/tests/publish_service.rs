use justanothergitgui::github::{
    CreateGithubRepoRequest, GithubAuthSession, GithubRepoVisibility, PullRequestPrompt,
};
use justanothergitgui::ports::{
    GitCallRecord, GitHubCallRecord,
    GitBranchReadPort, GitHubRemoteInfoPort, GitHubRepoCreationPort, GitRemoteAuth,
    GitRemoteInfoPort, GitRemoteSyncPort, GitRepoBootstrapPort, GitWorktreeCommitPort,
};
use justanothergitgui::publish::{create_github_repo, FolderCheck};
use std::cell::RefCell;

#[derive(Default)]
struct FakeGit {
    has_origin: bool,
    has_changes: bool,
    has_head: bool,
    branch_name: Option<String>,
    calls: RefCell<Vec<String>>,
}

impl FakeGit {
    fn record(&self, entry: String) {
        self.calls.borrow_mut().push(entry);
    }
}

impl GitRepoBootstrapPort for FakeGit {
    fn open_or_init_repo(&mut self, _repo_path: &str) -> Result<(), String> {
        self.record("open_or_init".into());
        Ok(())
    }

    fn add_remote(&mut self, _repo_path: &str, name: &str, url: &str) -> Result<(), String> {
        self.record(format!("add_remote:{}:{}", name, url));
        Ok(())
    }
}

impl GitRemoteInfoPort for FakeGit {
    fn has_origin_remote(&self, _repo_path: &str) -> Result<bool, String> {
        Ok(self.has_origin)
    }
}

impl GitWorktreeCommitPort for FakeGit {
    fn repo_has_changes(&self, _repo_path: &str) -> Result<bool, String> {
        Ok(self.has_changes)
    }

    fn head_exists(&self, _repo_path: &str) -> Result<bool, String> {
        Ok(self.has_head)
    }

    fn stage_all(&mut self, _repo_path: &str) -> Result<(), String> {
        self.record("stage_all".into());
        Ok(())
    }

    fn create_commit(&mut self, _repo_path: &str, message: &str) -> Result<(), String> {
        self.record(format!("create_commit:{}", message));
        Ok(())
    }
}

impl GitBranchReadPort for FakeGit {
    fn current_branch_name(&self, _repo_path: &str) -> Result<Option<String>, String> {
        Ok(self.branch_name.clone())
    }
}

impl GitRemoteSyncPort for FakeGit {
    fn push(
        &mut self,
        _repo_path: &str,
        branch_name: &str,
        auth: GitRemoteAuth<'_>,
    ) -> Result<String, String> {
        let mode = match auth {
            GitRemoteAuth::GitHub(_) => "github",
            GitRemoteAuth::System => "system",
        };
        self.record(format!("push:{}:{}", branch_name, mode));
        Ok("Push complete".into())
    }

    fn pull(
        &mut self,
        _repo_path: &str,
        _branch_name: &str,
        _auth: GitRemoteAuth<'_>,
    ) -> Result<String, String> {
        unreachable!()
    }

    fn reset_to_remote(
        &mut self,
        _repo_path: &str,
        _auth: GitRemoteAuth<'_>,
        _clean_untracked: bool,
    ) -> Result<String, String> {
        unreachable!()
    }
}

struct FakeGitHub {
    clone_url: String,
}

impl GitHubRepoCreationPort for FakeGitHub {
    fn create_repository(
        &mut self,
        _auth: &GithubAuthSession,
        repo_name: &str,
        _visibility: GithubRepoVisibility,
    ) -> Result<String, String> {
        let _ = repo_name;
        Ok(self.clone_url.clone())
    }
}

impl GitHubRemoteInfoPort for FakeGitHub {
    fn is_github_https_origin(&self, _repo_path: &str) -> bool {
        false
    }

    fn detect_pull_request_prompt(
        &self,
        _repo_path: &str,
        _branch: &str,
        _auth: Option<&GithubAuthSession>,
    ) -> Result<Option<PullRequestPrompt>, String> {
        Ok(None)
    }
}

fn request(dir: &str, repo_name: &str, commit_message: &str) -> CreateGithubRepoRequest {
    CreateGithubRepoRequest {
        folder_path: dir.to_string(),
        repo_name: repo_name.into(),
        commit_message: commit_message.into(),
        visibility: GithubRepoVisibility::Private,
        auth: GithubAuthSession {
            access_token: "token".into(),
            login: "octocat".into(),
        },
    }
}

#[test]
fn rejects_empty_repo_name() {
    let dir = "/virtual/repo";
    let mut git = FakeGit::default();
    let mut github = FakeGitHub {
        clone_url: String::new(),
    };

    let error = create_github_repo(&request(dir, "   ", "Initial commit"), FolderCheck::Folder(dir.to_string()), &mut git, &mut github)
        .expect_err("empty repo name");

    assert_eq!(error, "Repository name cannot be empty");
    assert!(git.calls.borrow().is_empty());
}

#[test]
fn rejects_empty_commit_message() {
    let dir = "/virtual/repo";
    let mut git = FakeGit::default();
    let mut github = FakeGitHub {
        clone_url: String::new(),
    };

    let error = create_github_repo(&request(dir, "my-repo", "   "), FolderCheck::Folder(dir.to_string()), &mut git, &mut github)
        .expect_err("empty commit message");

    assert_eq!(error, "Initial commit message cannot be empty");
    assert!(git.calls.borrow().is_empty());
}

#[test]
fn rejects_when_origin_already_exists() {
    let dir = "/virtual/repo";
    let mut git = FakeGit {
        has_origin: true,
        ..Default::default()
    };
    let mut github = FakeGitHub {
        clone_url: String::new(),
    };

    let error = create_github_repo(&request(dir, "my-repo", "Initial commit"), FolderCheck::Folder(dir.to_string()), &mut git, &mut github)
        .expect_err("origin exists");

    assert_eq!(error, "Remote 'origin' already exists for this repository");
    // It opened/inited the repo but stopped before committing.
    assert_eq!(git.calls.borrow().as_slice(), &["open_or_init".to_string()]);
}

#[test]
fn happy_path_commits_creates_remote_and_pushes_in_order() {
    let dir = "/virtual/repo";
    let mut git = FakeGit {
        has_origin: false,
        has_changes: true,
        has_head: false,
        branch_name: Some("main".into()),
        ..Default::default()
    };
    let mut github = FakeGitHub {
        clone_url: "https://example.com/my-repo.git".into(),
    };

    let success = create_github_repo(&request(dir, "my-repo", "Initial commit"), FolderCheck::Folder(dir.to_string()), &mut git, &mut github)
        .expect("publish");

    assert_eq!(
        success.message,
        "Created GitHub repository my-repo. Push complete"
    );
    assert_eq!(
        git.calls.borrow().as_slice(),
        &[
            "open_or_init".to_string(),
            "stage_all".to_string(),
            "create_commit:Initial commit".to_string(),
            "add_remote:origin:https://example.com/my-repo.git".to_string(),
            "push:main:system".to_string(),
        ]
    );
}

#[test]
fn skips_commit_when_repo_already_has_head_and_no_changes() {
    let dir = "/virtual/repo";
    let mut git = FakeGit {
        has_origin: false,
        has_changes: false,
        has_head: true,
        branch_name: Some("main".into()),
        ..Default::default()
    };
    let mut github = FakeGitHub {
        clone_url: "https://example.com/my-repo.git".into(),
    };

    create_github_repo(&request(dir, "my-repo", "Initial commit"), FolderCheck::Folder(dir.to_string()), &mut git, &mut github)
        .expect("publish");

    let calls = git.calls.borrow();
    assert!(!calls.iter().any(|c| c == "stage_all"));
    assert!(!calls.iter().any(|c| c.starts_with("create_commit")));
    assert!(calls.iter().any(|c| c == "push:main:system"));
}

impl GitCallRecord for FakeGit {}

impl GitHubCallRecord for FakeGitHub {}
