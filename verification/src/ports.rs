//! What the workflow services need from git and from GitHub. The app
//! implements these over the real repository and network; tests implement
//! them with fakes.

use vstd::prelude::*;

use crate::github::{GithubAuthSession, GithubRepoVisibility, PullRequestPrompt};
use crate::worktrees::{LinkedWorktree, NewWorktreeRequest};

verus! {

/// How a remote operation authenticates: with the app's GitHub sign-in, or
/// with whatever the system's git setup provides.
pub enum GitRemoteAuth<'a> {
    GitHub(&'a GithubAuthSession),
    System,
}

/// The session an operation authenticates with; `None` for the system's
/// git setup.
pub open spec fn auth_session(auth: GitRemoteAuth<'_>) -> Option<GithubAuthSession> {
    match auth {
        GitRemoteAuth::GitHub(s) => Some(*s),
        GitRemoteAuth::System => None,
    }
}

// Each port method's result is tied to its arguments by a relation of the
// port's type: `answer(arguments, r)` says that `r` is an answer the port may
// give to exactly these arguments. The relations hold of every answer unless
// an implementation narrows them, so they assume nothing of an
// implementation; what they give is that a service's result is the port's
// answer to the very arguments the service handed it.
//
// The methods that change something take `&mut self` and add themselves to
// the port's call record, so the services can say which of them they make,
// with which arguments, how often and in what order. The record is ghost:
// nothing is kept at run time, and an implementation outside verified code
// has nothing to do for it.

/// What was added to a call record between two moments: `after` without
/// its first `before.len()` entries.
pub open spec fn calls_added<T>(before: Seq<T>, after: Seq<T>) -> Seq<T> {
    after.skip(before.len() as int)
}

/// A git call that changes something, with its arguments.
pub enum GitCall {
    Push { repo: Seq<char>, branch: Seq<char>, auth: Option<GithubAuthSession> },
    Pull { repo: Seq<char>, branch: Seq<char>, auth: Option<GithubAuthSession> },
    ResetToRemote { repo: Seq<char>, auth: Option<GithubAuthSession>, clean_untracked: bool },
    CreateTag { repo: Seq<char>, tag: Seq<char> },
    PushTag { repo: Seq<char>, tag: Seq<char>, auth: Option<GithubAuthSession> },
    RollbackTag { repo: Seq<char>, tag: Seq<char> },
    OpenOrInitRepo { repo: Seq<char> },
    AddRemote { repo: Seq<char>, name: Seq<char>, url: Seq<char> },
    StageAll { repo: Seq<char> },
    CreateCommit { repo: Seq<char>, message: Seq<char> },
    UndoLastCommit { repo: Seq<char> },
    AddWorktree { repo: Seq<char>, request: NewWorktreeRequest },
    RemoveWorktree { repo: Seq<char>, name: Seq<char>, force: bool },
}

/// A GitHub call that changes something, with its arguments.
pub enum GitHubCall {
    CreateRepository { auth: GithubAuthSession, name: Seq<char>, visibility: GithubRepoVisibility },
}

/// The git calls a port has received that change something, oldest first.
pub trait GitCallRecord {
    closed spec fn git_calls(&self) -> Seq<GitCall> {
        Seq::empty()
    }
}

/// The GitHub calls a port has received that change something, oldest first.
pub trait GitHubCallRecord {
    closed spec fn github_calls(&self) -> Seq<GitHubCall> {
        Seq::empty()
    }
}

pub trait GitBranchReadPort {
    closed spec fn branch_answer(repo_path: Seq<char>, r: Result<Option<String>, String>) -> bool {
        true
    }

    fn current_branch_name(&self, repo_path: &str) -> (r: Result<Option<String>, String>)
        ensures
            Self::branch_answer(repo_path@, r),
    ;
}

pub trait GitRemoteSyncPort: GitCallRecord {
    closed spec fn push_answer(repo_path: Seq<char>,
        branch_name: Seq<char>,
        auth: Option<GithubAuthSession>,
        r: Result<String, String>,
    ) -> bool {
        true
    }

    closed spec fn pull_answer(repo_path: Seq<char>,
        branch_name: Seq<char>,
        auth: Option<GithubAuthSession>,
        r: Result<String, String>,
    ) -> bool {
        true
    }

    closed spec fn reset_answer(repo_path: Seq<char>,
        auth: Option<GithubAuthSession>,
        clean_untracked: bool,
        r: Result<String, String>,
    ) -> bool {
        true
    }

    fn push(&mut self, repo_path: &str, branch_name: &str, auth: GitRemoteAuth<'_>) -> (r: Result<String, String>)
        ensures
            Self::push_answer(repo_path@, branch_name@, auth_session(auth), r),
            final(self).git_calls() == old(self).git_calls().push(GitCall::Push { repo: repo_path@, branch: branch_name@, auth: auth_session(auth) }),
    ;

    fn pull(&mut self, repo_path: &str, branch_name: &str, auth: GitRemoteAuth<'_>) -> (r: Result<String, String>)
        ensures
            Self::pull_answer(repo_path@, branch_name@, auth_session(auth), r),
            final(self).git_calls() == old(self).git_calls().push(GitCall::Pull { repo: repo_path@, branch: branch_name@, auth: auth_session(auth) }),
    ;

    fn reset_to_remote(&mut self, repo_path: &str, auth: GitRemoteAuth<'_>, clean_untracked: bool) -> (r: Result<String, String>)
        ensures
            Self::reset_answer(repo_path@, auth_session(auth), clean_untracked, r),
            final(self).git_calls() == old(self).git_calls().push(GitCall::ResetToRemote { repo: repo_path@, auth: auth_session(auth), clean_untracked }),
    ;
}

pub trait GitRemoteInfoPort {
    closed spec fn origin_answer(repo_path: Seq<char>, r: Result<bool, String>) -> bool {
        true
    }

    fn has_origin_remote(&self, repo_path: &str) -> (r: Result<bool, String>)
        ensures
            Self::origin_answer(repo_path@, r),
    ;
}

pub trait GitTagPort: GitCallRecord {
    closed spec fn tag_branch_answer(branch_name: Seq<char>, r: bool) -> bool {
        true
    }

    closed spec fn tag_create_answer(repo_path: Seq<char>, tag_name: Seq<char>, r: Result<(), String>) -> bool {
        true
    }

    closed spec fn tag_rollback_answer(repo_path: Seq<char>, tag_name: Seq<char>, r: Result<(), String>) -> bool {
        true
    }

    fn can_create_tag_on_branch(&self, branch_name: &str) -> (r: bool)
        ensures
            Self::tag_branch_answer(branch_name@, r),
    ;

    fn create_tag(&mut self, repo_path: &str, tag_name: &str) -> (r: Result<(), String>)
        ensures
            Self::tag_create_answer(repo_path@, tag_name@, r),
            final(self).git_calls() == old(self).git_calls().push(GitCall::CreateTag { repo: repo_path@, tag: tag_name@ }),
    ;

    closed spec fn tag_push_answer(repo_path: Seq<char>,
        tag_name: Seq<char>,
        auth: Option<GithubAuthSession>,
        r: Result<(), String>,
    ) -> bool {
        true
    }

    fn push_tag(&mut self, repo_path: &str, tag_name: &str, auth: GitRemoteAuth<'_>) -> (r: Result<(), String>)
        ensures
            Self::tag_push_answer(repo_path@, tag_name@, auth_session(auth), r),
            final(self).git_calls() == old(self).git_calls().push(GitCall::PushTag { repo: repo_path@, tag: tag_name@, auth: auth_session(auth) }),
    ;

    fn rollback_tag(&mut self, repo_path: &str, tag_name: &str) -> (r: Result<(), String>)
        ensures
            Self::tag_rollback_answer(repo_path@, tag_name@, r),
            final(self).git_calls() == old(self).git_calls().push(GitCall::RollbackTag { repo: repo_path@, tag: tag_name@ }),
    ;
}

pub trait GitRepoBootstrapPort: GitCallRecord {
    closed spec fn opening_answer(repo_path: Seq<char>, r: Result<(), String>) -> bool {
        true
    }

    closed spec fn remote_add_answer(repo_path: Seq<char>, name: Seq<char>, url: Seq<char>, r: Result<(), String>) -> bool {
        true
    }

    fn open_or_init_repo(&mut self, repo_path: &str) -> (r: Result<(), String>)
        ensures
            Self::opening_answer(repo_path@, r),
            final(self).git_calls() == old(self).git_calls().push(GitCall::OpenOrInitRepo { repo: repo_path@ }),
    ;

    fn add_remote(&mut self, repo_path: &str, name: &str, url: &str) -> (r: Result<(), String>)
        ensures
            Self::remote_add_answer(repo_path@, name@, url@, r),
            final(self).git_calls() == old(self).git_calls().push(GitCall::AddRemote { repo: repo_path@, name: name@, url: url@ }),
    ;
}

pub trait GitWorktreeCommitPort: GitCallRecord {
    closed spec fn changes_answer(repo_path: Seq<char>, r: Result<bool, String>) -> bool {
        true
    }

    closed spec fn head_answer(repo_path: Seq<char>, r: Result<bool, String>) -> bool {
        true
    }

    closed spec fn staging_answer(repo_path: Seq<char>, r: Result<(), String>) -> bool {
        true
    }

    closed spec fn commit_answer(repo_path: Seq<char>, message: Seq<char>, r: Result<(), String>) -> bool {
        true
    }

    fn repo_has_changes(&self, repo_path: &str) -> (r: Result<bool, String>)
        ensures
            Self::changes_answer(repo_path@, r),
    ;

    fn head_exists(&self, repo_path: &str) -> (r: Result<bool, String>)
        ensures
            Self::head_answer(repo_path@, r),
    ;

    fn stage_all(&mut self, repo_path: &str) -> (r: Result<(), String>)
        ensures
            Self::staging_answer(repo_path@, r),
            final(self).git_calls() == old(self).git_calls().push(GitCall::StageAll { repo: repo_path@ }),
    ;

    fn create_commit(&mut self, repo_path: &str, message: &str) -> (r: Result<(), String>)
        ensures
            Self::commit_answer(repo_path@, message@, r),
            final(self).git_calls() == old(self).git_calls().push(GitCall::CreateCommit { repo: repo_path@, message: message@ }),
    ;
}

pub trait GitUndoCommitPort: GitCallRecord {
    closed spec fn outgoing_answer(repo_path: Seq<char>, r: Result<usize, String>) -> bool {
        true
    }

    closed spec fn undo_answer(repo_path: Seq<char>, r: Result<String, String>) -> bool {
        true
    }

    fn outgoing_commit_count(&self, repo_path: &str) -> (r: Result<usize, String>)
        ensures
            Self::outgoing_answer(repo_path@, r),
    ;

    fn undo_last_commit(&mut self, repo_path: &str) -> (r: Result<String, String>)
        ensures
            Self::undo_answer(repo_path@, r),
            final(self).git_calls() == old(self).git_calls().push(GitCall::UndoLastCommit { repo: repo_path@ }),
    ;
}

/// Git's linked worktrees: the set of checkouts sharing one object store.
pub trait GitLinkedWorktreePort: GitCallRecord {
    closed spec fn listing_answer(repo_path: Seq<char>, r: Result<Vec<LinkedWorktree>, String>) -> bool {
        true
    }

    closed spec fn removal_answer(repo_path: Seq<char>, name: Seq<char>, force: bool, r: Result<(), String>) -> bool {
        true
    }

    fn list_worktrees(&self, repo_path: &str) -> (r: Result<Vec<LinkedWorktree>, String>)
        ensures
            Self::listing_answer(repo_path@, r),
    ;

    closed spec fn adding_answer(repo_path: Seq<char>, request: NewWorktreeRequest, r: Result<String, String>) -> bool {
        true
    }

    /// Creates the worktree and reports where it was made.
    fn add_worktree(&mut self, repo_path: &str, request: &NewWorktreeRequest) -> (r: Result<String, String>)
        ensures
            Self::adding_answer(repo_path@, *request, r),
            final(self).git_calls() == old(self).git_calls().push(GitCall::AddWorktree { repo: repo_path@, request: *request }),
    ;

    /// Removes a linked worktree; `force` decides whether uncommitted changes
    /// may be destroyed with it. The services never ask for that: a worktree
    /// holding uncommitted work has to be dealt with in the worktree itself.
    fn remove_worktree(&mut self, repo_path: &str, name: &str, force: bool) -> (r: Result<(), String>)
        ensures
            Self::removal_answer(repo_path@, name@, force, r),
            final(self).git_calls() == old(self).git_calls().push(GitCall::RemoveWorktree { repo: repo_path@, name: name@, force }),
    ;
}

/// Every git capability the services use.
pub trait GitPort: GitBranchReadPort + GitRemoteSyncPort + GitRemoteInfoPort + GitTagPort + GitRepoBootstrapPort + GitWorktreeCommitPort + GitUndoCommitPort {

}

pub trait GitHubRemoteInfoPort {
    closed spec fn https_origin_answer(repo_path: Seq<char>, r: bool) -> bool {
        true
    }

    closed spec fn pull_request_answer(repo_path: Seq<char>,
        branch: Seq<char>,
        auth: Option<GithubAuthSession>,
        r: Result<Option<PullRequestPrompt>, String>,
    ) -> bool {
        true
    }

    fn is_github_https_origin(&self, repo_path: &str) -> (r: bool)
        ensures
            Self::https_origin_answer(repo_path@, r),
    ;

    fn detect_pull_request_prompt(
        &self,
        repo_path: &str,
        branch: &str,
        auth: Option<&GithubAuthSession>,
    ) -> (r: Result<Option<PullRequestPrompt>, String>)
        ensures
            Self::pull_request_answer(
                repo_path@,
                branch@,
                match auth {
                    Some(a) => Some(*a),
                    None => None,
                },
                r,
            ),
    ;
}

pub trait GitHubRepoCreationPort: GitHubCallRecord {
    closed spec fn creation_answer(auth: GithubAuthSession,
        repo_name: Seq<char>,
        visibility: GithubRepoVisibility,
        r: Result<String, String>,
    ) -> bool {
        true
    }

    fn create_repository(
        &mut self,
        auth: &GithubAuthSession,
        repo_name: &str,
        visibility: GithubRepoVisibility,
    ) -> (r: Result<String, String>)
        ensures
            Self::creation_answer(*auth, repo_name@, visibility, r),
            final(self).github_calls() == old(self).github_calls().push(
                GitHubCall::CreateRepository { auth: *auth, name: repo_name@, visibility },
            ),
    ;
}

/// Every GitHub capability the services use.
pub trait GitHubPort: GitHubRemoteInfoPort + GitHubRepoCreationPort {

}

} // verus!
