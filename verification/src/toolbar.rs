//! What the repository toolbar offers: which actions are enabled, the
//! reason shown for each, and how the push button reads.

use vstd::prelude::*;

use crate::github::PullRequestPrompt;
use crate::state::{BusyAction, BusyState, RepoState};
use crate::tags::{can_create_tag_on_branch, taggable_branch};
use crate::text::{chars_of, dec, lit, owned, push_all, string_of, usize_chars};

verus! {

/// The toolbar's decisions for one frame.
#[derive(Clone, Debug)]
pub struct RepoToolbarModel {
    /// What the app-level worker is doing, if anything.
    pub welcome_busy: Option<BusyState>,
    /// What the tab's worker is doing, if anything.
    pub repo_busy: Option<BusyState>,
    pub has_logs: bool,
    pub publish_dialog_open: bool,
    /// The app-level worker is taken, by a job it announced or one it did not.
    pub welcome_worker_busy: bool,
    pub repo_worker_busy: bool,
    pub has_repo: bool,
    pub has_origin_remote: bool,
    /// The origin is on GitHub and the app is not signed in.
    pub needs_github_sign_in: bool,
    /// A branch is checked out, which widens the controls.
    pub has_branch: bool,
    pub can_discard: bool,
    pub discard_tooltip: String,
    pub can_undo_last_commit: bool,
    pub undo_last_commit_tooltip: String,
    pub can_create_tag: bool,
    pub create_tag_tooltip: String,
    pub push_label: String,
    pub push_tooltip: String,
    pub pull_request_prompt: Option<PullRequestPrompt>,
}

/// Why resetting to origin is or is not offered.
pub open spec fn discard_reason(has_origin: bool, branch: Seq<char>, auth_ok: bool) -> Seq<char> {
    if !has_origin {
        "Add or fetch an origin remote before resetting to origin"@
    } else if branch.len() == 0 {
        "Check out a branch to reset it to origin"@
    } else if !auth_ok {
        "Sign in to GitHub to reset to origin"@
    } else {
        "Discard local changes and reset '"@ + branch + "' to origin/"@ + branch
    }
}

/// Why tagging is or is not offered.
pub open spec fn tag_reason(can_tag: bool, has_origin: bool, https_without_sign_in: bool) -> Seq<char> {
    if can_tag {
        if has_origin {
            "Create a tag from the current HEAD commit and push it to origin"@
        } else {
            "Create a local tag from the current HEAD commit"@
        }
    } else if https_without_sign_in {
        "Sign in to GitHub to create and push tags for this repository"@
    } else {
        "Switch to main or master to create a tag"@
    }
}

/// Why undoing the last commit is or is not offered.
pub open spec fn undo_reason(has_repo: bool, outgoing: nat) -> Seq<char> {
    if !has_repo {
        "Open a repository before undoing commits"@
    } else if outgoing == 0 {
        "No local-only commits to undo"@
    } else {
        "Remove the most recent local-only commit and keep its changes staged"@
    }
}

/// The push button's label: the number of unpushed commits, when there are any.
pub open spec fn push_label_text(outgoing: nat) -> Seq<char> {
    if outgoing > 0 {
        "Push("@ + dec(outgoing) + ")"@
    } else {
        "Push"@
    }
}

pub open spec fn push_tooltip_text(outgoing: nat) -> Seq<char> {
    if outgoing > 0 {
        "Push "@ + dec(outgoing) + " local commit(s) to remote"@
    } else {
        "Push to remote"@
    }
}

/// The toolbar a tab shows, given what it knows of its repository and
/// whether the app is signed in to GitHub.
pub open spec fn toolbar_ok(m: RepoToolbarModel, r: RepoState, signed_in: bool) -> bool {
    let has_repo = r.path is Some;
    let has_branch = r.branch@.len() > 0;
    let auth_ok = !r.has_github_https_origin || signed_in;
    let can_tag = has_repo && taggable_branch(r.branch@) && auth_ok;
    &&& m.has_repo == has_repo
    &&& m.has_origin_remote == r.has_origin_remote
    &&& m.needs_github_sign_in == (r.has_github_origin && !signed_in)
    &&& m.has_branch == has_branch
    &&& m.can_discard == (r.has_origin_remote && has_branch && auth_ok)
    &&& m.discard_tooltip@ == discard_reason(r.has_origin_remote, r.branch@, auth_ok)
    &&& m.can_undo_last_commit == (has_repo && r.outgoing_commit_count > 0)
    &&& m.undo_last_commit_tooltip@ == undo_reason(has_repo, r.outgoing_commit_count as nat)
    &&& m.can_create_tag == can_tag
    &&& m.create_tag_tooltip@ == tag_reason(
        can_tag,
        r.has_origin_remote,
        r.has_github_https_origin && !signed_in,
    )
    &&& m.push_label@ == push_label_text(r.outgoing_commit_count as nat)
    &&& m.push_tooltip@ == push_tooltip_text(r.outgoing_commit_count as nat)
}


impl RepoToolbarModel {
    pub fn from_state(
        repo: &RepoState,
        repo_busy: Option<BusyState>,
        welcome_busy: Option<BusyState>,
        welcome_worker_busy: bool,
        github_auth_available: bool,
        publish_dialog_open: bool,
        has_logs: bool,
    ) -> (r: RepoToolbarModel)
        ensures
            toolbar_ok(r, *repo, github_auth_available),
            r.repo_busy == repo_busy,
            r.repo_worker_busy == repo_busy is Some,
            r.welcome_worker_busy == (welcome_busy is Some || welcome_worker_busy),
            r.welcome_busy == welcome_busy,
            r.has_logs == has_logs,
            r.publish_dialog_open == publish_dialog_open,
            r.pull_request_prompt == repo.pull_request_prompt,
    {
        let repo_worker_busy = repo_busy.is_some();
        let any_welcome_busy = welcome_busy.is_some() || welcome_worker_busy;
        let pull_request_prompt = match &repo.pull_request_prompt {
            Some(p) => Some(p.duplicate()),
            None => None,
        };
        let has_repo = repo.path.is_some();
        let has_origin_remote = repo.has_origin_remote;
        let https = repo.has_github_https_origin;
        let branch = chars_of(repo.branch.as_str());
        let has_branch = branch.len() > 0;
        let auth_ok = !https || github_auth_available;
        let can_discard = has_origin_remote && has_branch && auth_ok;
        let discard_tooltip = if !has_origin_remote {
            owned("Add or fetch an origin remote before resetting to origin")
        } else if !has_branch {
            owned("Check out a branch to reset it to origin")
        } else if !auth_ok {
            owned("Sign in to GitHub to reset to origin")
        } else {
            let mut out = lit("Discard local changes and reset '");
            push_all(&mut out, branch.as_slice());
            push_all(&mut out, lit("' to origin/").as_slice());
            push_all(&mut out, branch.as_slice());
            string_of(out.as_slice())
        };
        let can_create_tag = has_repo && can_create_tag_on_branch(repo.branch.as_str()) && auth_ok;
        let create_tag_tooltip = if can_create_tag {
            if has_origin_remote {
                owned("Create a tag from the current HEAD commit and push it to origin")
            } else {
                owned("Create a local tag from the current HEAD commit")
            }
        } else if https && !github_auth_available {
            owned("Sign in to GitHub to create and push tags for this repository")
        } else {
            owned("Switch to main or master to create a tag")
        };
        let outgoing = repo.outgoing_commit_count;
        let can_undo_last_commit = has_repo && outgoing > 0;
        let undo_last_commit_tooltip = if !has_repo {
            owned("Open a repository before undoing commits")
        } else if outgoing == 0 {
            owned("No local-only commits to undo")
        } else {
            owned("Remove the most recent local-only commit and keep its changes staged")
        };
        let (push_label, push_tooltip) = if outgoing > 0 {
            let mut label = lit("Push(");
            push_all(&mut label, usize_chars(outgoing).as_slice());
            push_all(&mut label, lit(")").as_slice());
            let mut tip = lit("Push ");
            push_all(&mut tip, usize_chars(outgoing).as_slice());
            push_all(&mut tip, lit(" local commit(s) to remote").as_slice());
            (string_of(label.as_slice()), string_of(tip.as_slice()))
        } else {
            (owned("Push"), owned("Push to remote"))
        };
        RepoToolbarModel {
            welcome_busy,
            repo_busy,
            has_logs,
            publish_dialog_open,
            welcome_worker_busy: any_welcome_busy,
            repo_worker_busy,
            has_repo,
            has_origin_remote,
            needs_github_sign_in: repo.has_github_origin && !github_auth_available,
            has_branch,
            can_discard,
            discard_tooltip,
            can_undo_last_commit,
            undo_last_commit_tooltip,
            can_create_tag,
            create_tag_tooltip,
            push_label,
            push_tooltip,
            pull_request_prompt,
        }
    }
}

/// Which entries of a tab's "More" menu are shown and which can be chosen.
#[derive(Clone, Copy, Debug, PartialEq, Eq, Structural)]
pub struct RepoMenuModel {
    pub publish_enabled: bool,
    pub sign_in_shown: bool,
    pub sign_in_enabled: bool,
    pub create_tag_enabled: bool,
    pub cleanup_enabled: bool,
    pub undo_enabled: bool,
    pub discard_enabled: bool,
    pub view_logs_shown: bool,
}

/// What the tab's buttons beside the menu allow.
#[derive(Clone, Copy, Debug, PartialEq, Eq, Structural)]
pub struct RepoControlsModel {
    /// Push and Pull are shown only with an `origin`.
    pub sync_shown: bool,
    pub push_pull_enabled: bool,
    pub new_branch_enabled: bool,
    /// The branch picker is shown only with a branch checked out.
    pub branch_picker_shown: bool,
    pub branch_picker_enabled: bool,
}

/// The pull-request button: its label, its tooltip and whether it can be
/// pressed.
pub open spec fn pull_request_button_text(p: PullRequestPrompt) -> (Seq<char>, Seq<char>) {
    match p {
        PullRequestPrompt::Open { number, url, .. } => (
            "Open PR #"@ + dec(number as nat),
            "Open existing pull request\n"@ + url@,
        ),
        PullRequestPrompt::Create { branch, .. } => (
            "Create PR..."@,
            "Open GitHub pull request creation for "@ + branch@,
        ),
    }
}

/// The busy label shown beside a group of buttons, when the tab's worker is
/// doing one of that group's jobs.
pub open spec fn busy_label_for(busy: Option<BusyState>, push_or_pull: bool) -> Option<Seq<char>> {
    match busy {
        Some(b) => if push_or_pull {
            if b.action == BusyAction::Push || b.action == BusyAction::Pull {
                Some(b.label@)
            } else {
                None
            }
        } else {
            if b.action == BusyAction::OpenPullRequest || b.action == BusyAction::CreatePullRequest {
                Some(b.label@)
            } else {
                None
            }
        },
        None => None,
    }
}

impl RepoToolbarModel {
    /// The "More" menu: every entry that starts work waits for the worker it
    /// would use.
    pub fn menu(&self) -> (r: RepoMenuModel)
        ensures
            r.publish_enabled == (self.has_repo && !self.has_origin_remote && !self.welcome_worker_busy),
            r.sign_in_shown == self.needs_github_sign_in,
            r.sign_in_enabled == (self.has_repo && !self.welcome_worker_busy),
            r.create_tag_enabled == (self.can_create_tag && !self.repo_worker_busy),
            r.cleanup_enabled == (self.has_repo && !self.repo_worker_busy),
            r.undo_enabled == (self.can_undo_last_commit && !self.repo_worker_busy),
            r.discard_enabled == (self.can_discard && !self.repo_worker_busy),
            r.view_logs_shown == self.has_logs,
    {
        RepoMenuModel {
            publish_enabled: self.has_repo && !self.has_origin_remote && !self.welcome_worker_busy,
            sign_in_shown: self.needs_github_sign_in,
            sign_in_enabled: self.has_repo && !self.welcome_worker_busy,
            create_tag_enabled: self.can_create_tag && !self.repo_worker_busy,
            cleanup_enabled: self.has_repo && !self.repo_worker_busy,
            undo_enabled: self.can_undo_last_commit && !self.repo_worker_busy,
            discard_enabled: self.can_discard && !self.repo_worker_busy,
            view_logs_shown: self.has_logs,
        }
    }

    /// Push, Pull and the branch controls.
    pub fn controls(&self) -> (r: RepoControlsModel)
        ensures
            r.sync_shown == self.has_origin_remote,
            r.push_pull_enabled == (self.has_repo && !self.repo_worker_busy),
            r.new_branch_enabled == (self.has_repo && !self.repo_worker_busy),
            r.branch_picker_shown == self.has_branch,
            r.branch_picker_enabled == !self.repo_worker_busy,
    {
        RepoControlsModel {
            sync_shown: self.has_origin_remote,
            push_pull_enabled: self.has_repo && !self.repo_worker_busy,
            new_branch_enabled: self.has_repo && !self.repo_worker_busy,
            branch_picker_shown: self.has_branch,
            branch_picker_enabled: !self.repo_worker_busy,
        }
    }

    /// The pull-request button, when there is a prompt: label, tooltip and
    /// whether it can be pressed.
    pub fn pull_request_button(&self) -> (r: Option<(String, String, bool)>)
        ensures
            match self.pull_request_prompt {
                Some(p) => r matches Some((label, hover, enabled)) && label@ == pull_request_button_text(p).0
                    && hover@ == pull_request_button_text(p).1 && enabled == (self.has_repo && !self.repo_worker_busy),
                None => r is None,
            },
    {
        match &self.pull_request_prompt {
            None => None,
            Some(PullRequestPrompt::Open { number, url, .. }) => {
                let mut label = lit("Open PR #");
                push_all(&mut label, crate::text::u64_chars(*number).as_slice());
                let mut hover = lit("Open existing pull request\n");
                push_all(&mut hover, chars_of(url.as_str()).as_slice());
                Some((string_of(label.as_slice()), string_of(hover.as_slice()), self.has_repo && !self.repo_worker_busy))
            },
            Some(PullRequestPrompt::Create { branch, .. }) => {
                let mut hover = lit("Open GitHub pull request creation for ");
                push_all(&mut hover, chars_of(branch.as_str()).as_slice());
                Some((owned("Create PR..."), string_of(hover.as_slice()), self.has_repo && !self.repo_worker_busy))
            },
        }
    }

    /// The busy label shown beside Push and Pull (`push_or_pull`), or beside
    /// the pull-request button.
    pub fn busy_label(&self, push_or_pull: bool) -> (r: Option<String>)
        ensures
            crate::sync::opt_text(r) == busy_label_for(self.repo_busy, push_or_pull),
    {
        match &self.repo_busy {
            Some(b) => {
                let matches_group = if push_or_pull {
                    b.action == BusyAction::Push || b.action == BusyAction::Pull
                } else {
                    b.action == BusyAction::OpenPullRequest || b.action == BusyAction::CreatePullRequest
                };
                if matches_group {
                    Some(b.label.clone())
                } else {
                    None
                }
            },
            None => None,
        }
    }
}

} // verus!
