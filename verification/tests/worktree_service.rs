use justanothergitgui::ports::{GitCallRecord, GitLinkedWorktreePort};
use justanothergitgui::worktree_service::{create, remove, removal_blocker};
use justanothergitgui::worktrees::{LinkedWorktree, LinkedWorktreeStatus, NewWorktreeRequest};
use std::cell::RefCell;

fn path() -> &'static str {
    "/virtual/repo"
}

fn worktree(name: &str, is_main: bool, status: LinkedWorktreeStatus) -> LinkedWorktree {
    LinkedWorktree {
        name: name.into(),
        path: format!("/virtual/{name}"),
        branch: Some(format!("feature/{name}")),
        head_short_oid: "abc1234".into(),
        is_main,
        is_current: false,
        is_locked: false,
        lock_reason: None,
        status,
    }
}

#[derive(Default)]
struct FakeWorktreeGit {
    worktrees: Vec<LinkedWorktree>,
    add_calls: RefCell<Vec<NewWorktreeRequest>>,
    remove_calls: RefCell<Vec<(String, bool)>>,
    add_error: Option<String>,
}

impl GitLinkedWorktreePort for FakeWorktreeGit {
    fn list_worktrees(&self, _repo_path: &str) -> Result<Vec<LinkedWorktree>, String> {
        Ok(self.worktrees.clone())
    }

    fn add_worktree(
        &mut self,
        _repo_path: &str,
        request: &NewWorktreeRequest,
    ) -> Result<String, String> {
        self.add_calls.borrow_mut().push(request.clone());
        match &self.add_error {
            Some(error) => Err(error.clone()),
            None => Ok(request.path.clone()),
        }
    }

    fn remove_worktree(
        &mut self,
        _repo_path: &str,
        name: &str,
        force: bool,
    ) -> Result<(), String> {
        self.remove_calls
            .borrow_mut()
            .push((name.to_string(), force));
        Ok(())
    }
}

fn request(name: &str, branch: &str) -> NewWorktreeRequest {
    NewWorktreeRequest {
        name: name.into(),
        branch: branch.into(),
        base_branch: Some("main".into()),
        path: format!("/virtual/worktrees/{name}"),
    }
}

#[test]
fn creating_reports_the_name_branch_and_path() {
    let mut git = FakeWorktreeGit::default();

    let message = create(path(), &request("feature-auth", "feature/auth"), &mut git)
        .expect("create worktree");

    assert_eq!(
        message,
        "Created worktree 'feature-auth' on 'feature/auth' at /virtual/worktrees/feature-auth"
    );
    assert_eq!(git.add_calls.borrow().len(), 1);
}

#[test]
fn a_duplicate_name_is_refused_before_reaching_git() {
    let mut git = FakeWorktreeGit {
        worktrees: vec![worktree("taken", false, LinkedWorktreeStatus::Clean)],
        ..FakeWorktreeGit::default()
    };

    let error = create(path(), &request("taken", "feature/new"), &mut git).expect_err("duplicate");

    assert_eq!(error, "A worktree named 'taken' already exists.");
    assert!(git.add_calls.borrow().is_empty());
}

#[test]
fn a_branch_checked_out_elsewhere_is_refused_before_reaching_git() {
    let mut git = FakeWorktreeGit {
        worktrees: vec![worktree("busy", false, LinkedWorktreeStatus::Clean)],
        ..FakeWorktreeGit::default()
    };

    let error =
        create(path(), &request("another", "feature/busy"), &mut git).expect_err("branch in use");

    assert_eq!(
        error,
        "Branch 'feature/busy' is already checked out in another worktree ('busy')."
    );
    assert!(git.add_calls.borrow().is_empty());
}

#[test]
fn incomplete_requests_are_refused_before_reaching_git() {
    let mut git = FakeWorktreeGit::default();

    assert_eq!(
        create(path(), &request("", "feature/x"), &mut git).expect_err("no name"),
        "Enter a name for the worktree."
    );
    assert_eq!(
        create(path(), &request("x", ""), &mut git).expect_err("no branch"),
        "Enter a branch for the worktree."
    );
    let mut no_path = request("x", "feature/x");
    no_path.path = String::new();
    assert_eq!(
        create(path(), &no_path, &mut git).expect_err("no path"),
        "Choose a destination folder for the worktree."
    );
    assert!(git.add_calls.borrow().is_empty());
}

#[test]
fn removing_a_clean_worktree_never_forces() {
    let mut git = FakeWorktreeGit {
        worktrees: vec![worktree("clean", false, LinkedWorktreeStatus::Clean)],
        ..FakeWorktreeGit::default()
    };

    let message = remove(path(), "clean", &mut git).expect("remove");

    assert_eq!(message, "Removed worktree 'clean'");
    assert_eq!(
        git.remove_calls.borrow().as_slice(),
        [("clean".to_string(), false)]
    );
}

#[test]
fn the_main_worktree_can_never_be_removed() {
    let mut git = FakeWorktreeGit {
        worktrees: vec![worktree("myapp", true, LinkedWorktreeStatus::Clean)],
        ..FakeWorktreeGit::default()
    };

    let error = remove(path(), "myapp", &mut git).expect_err("main worktree");

    assert_eq!(
        error,
        "'myapp' is the repository's main worktree and cannot be removed."
    );
    assert!(git.remove_calls.borrow().is_empty());
}

#[test]
fn uncommitted_work_blocks_removal_and_is_never_forced_away() {
    let mut git = FakeWorktreeGit {
        worktrees: vec![worktree(
            "dirty",
            false,
            LinkedWorktreeStatus::Dirty {
                modified: 4,
                staged: 0,
                untracked: 0,
            },
        )],
        ..FakeWorktreeGit::default()
    };

    let error = remove(path(), "dirty", &mut git).expect_err("dirty worktree");

    assert_eq!(
        error,
        "Worktree 'dirty' has uncommitted changes. Open it and commit or discard them first."
    );
    assert!(git.remove_calls.borrow().is_empty());
}

#[test]
fn a_locked_worktree_reports_its_reason() {
    let mut locked = worktree("locked", false, LinkedWorktreeStatus::Clean);
    locked.is_locked = true;
    locked.lock_reason = Some("release build".into());
    let mut git = FakeWorktreeGit {
        worktrees: vec![locked],
        ..FakeWorktreeGit::default()
    };

    let error = remove(path(), "locked", &mut git).expect_err("locked worktree");

    assert_eq!(
        error,
        "Worktree 'locked' is locked: release build. Unlock it before removing."
    );
    assert!(git.remove_calls.borrow().is_empty());
}

#[test]
fn an_unknown_worktree_is_named_in_the_error() {
    let mut git = FakeWorktreeGit::default();

    let error = remove(path(), "nope", &mut git).expect_err("unknown worktree");

    assert_eq!(error, "Worktree 'nope' was not found in this repository.");
}

#[test]
fn a_worktree_missing_from_disk_stays_removable() {
    let mut git = FakeWorktreeGit {
        worktrees: vec![worktree("gone", false, LinkedWorktreeStatus::Missing)],
        ..FakeWorktreeGit::default()
    };

    assert!(removal_blocker(&git.worktrees[0]).is_none());
    remove(path(), "gone", &mut git).expect("remove missing worktree");
}

impl GitCallRecord for FakeWorktreeGit {}
