//! What the tab's buttons and shortcuts decide before anything is written:
//! whether background work may start and what the tab shows while it runs,
//! what a shortcut asks for, and what the dialogs keep once a write came
//! back. The writes themselves and the worker belong to the caller.

use vstd::prelude::*;

use crate::commit_rules::{build_message, built_message, validate_for_submit, validation, CommitMessageRuleSet};
use crate::git::{CreateBranchPreview, StaleBranch};
use crate::github::PullRequestPrompt;
use crate::inspector::InspectorState;
use crate::state::{
    BranchDialogState, BusyAction, BusyState, CleanupBranchesDialogState, CommitState, RepoState,
    SelectedFile, StatusLevel, StatusMessage, WorktreeState,
};
use crate::tags::{can_create_tag_on_branch, taggable_branch};
use crate::toolbar::{toolbar_ok, RepoToolbarModel};
use crate::text::{
    chars_of, dec, join, join_chars, lit, push_all, seq_eq, slice_chars, string_of, texts, trim,
    trim_chars, u64_chars, usize_chars,
};
use crate::views::{failure_text, status_message_for_error};

verus! {

/// Work that runs on the tab's background worker.
pub enum WorkerRequest {
    Push,
    Pull,
    DiscardAndReset,
    CreateTag(String),
    LaunchPullRequest,
}

/// What a request for background work comes to.
#[derive(Debug)]
pub enum Dispatch {
    /// The tab has no repository: nothing happens.
    Ignore,
    /// Nothing starts; the status line says why.
    Refuse(String),
    /// The worker is handed the request; while it runs the tab is busy with
    /// this, and the status line shows its label.
    Start(BusyState),
}

pub open spec fn busy_text() -> Seq<char> {
    "Busy — please wait..."@
}

/// `Dispatch` with its strings taken as text.
pub open spec fn dispatch_view(d: Dispatch) -> Option<Result<(BusyAction, Seq<char>), Seq<char>>> {
    match d {
        Dispatch::Ignore => None,
        Dispatch::Refuse(s) => Some(Err(s@)),
        Dispatch::Start(b) => Some(Ok((b.action, b.label@))),
    }
}

/// What the pull-request button starts for a prompt.
pub open spec fn pull_request_work(p: PullRequestPrompt) -> (BusyAction, Seq<char>) {
    match p {
        PullRequestPrompt::Open { number, .. } => (
            BusyAction::OpenPullRequest,
            "Opening pull request #"@ + dec(number as nat) + "..."@,
        ),
        PullRequestPrompt::Create { branch, .. } => (
            BusyAction::CreatePullRequest,
            "Opening pull request creation for "@ + branch@ + "..."@,
        ),
    }
}

/// The decision for a request: a tag only from main or master, and on a
/// GitHub HTTPS remote only once signed in; nothing while the worker is busy.
pub open spec fn dispatch_plan(
    request: WorkerRequest,
    repo: RepoState,
    worker_busy: bool,
    signed_in: bool,
) -> Option<Result<(BusyAction, Seq<char>), Seq<char>>> {
    match request {
        WorkerRequest::LaunchPullRequest => match repo.pull_request_prompt {
            None => Some(Err("No pull request action available"@)),
            Some(p) => if worker_busy {
                Some(Err(busy_text()))
            } else {
                Some(Ok(pull_request_work(p)))
            },
        },
        _ => if repo.path is None {
            None
        } else if worker_busy {
            Some(Err(busy_text()))
        } else {
            match request {
                WorkerRequest::Push => Some(Ok((BusyAction::Push, "Pushing..."@))),
                WorkerRequest::Pull => Some(Ok((BusyAction::Pull, "Pulling..."@))),
                WorkerRequest::DiscardAndReset => Some(
                    Ok((BusyAction::DiscardAndReset, "Resetting to remote..."@)),
                ),
                WorkerRequest::CreateTag(name) => if !taggable_branch(repo.branch@) {
                    Some(Err("Tags can only be created from the main or master branch."@))
                } else if repo.has_github_https_origin && !signed_in {
                    Some(Err("Sign in to GitHub before creating tags for this repository."@))
                } else {
                    Some(Ok((BusyAction::CreateTag, "Creating tag "@ + name@ + "..."@)))
                },
                WorkerRequest::LaunchPullRequest => None,
            }
        },
    }
}

/// Whether a request would start background work.
pub open spec fn starts(request: WorkerRequest, repo: RepoState, worker_busy: bool, signed_in: bool) -> bool {
    dispatch_plan(request, repo, worker_busy, signed_in) matches Some(Ok(_))
}

/// What the toolbar enables starts when pressed: Push and Pull, the
/// pull-request button and, with a repository open, Reset to origin. Create
/// Tag is enabled exactly when pressing it would start a tag, so the menu and
/// the refusals never disagree.
pub proof fn law_enabled_actions_start(
    m: RepoToolbarModel,
    repo: RepoState,
    busy: Option<BusyState>,
    signed_in: bool,
    tag: String,
)
    requires
        toolbar_ok(m, repo, signed_in),
        m.repo_worker_busy == busy is Some,
        m.pull_request_prompt == repo.pull_request_prompt,
    ensures
        m.has_repo && !m.repo_worker_busy ==> starts(WorkerRequest::Push, repo, busy is Some, signed_in)
            && starts(WorkerRequest::Pull, repo, busy is Some, signed_in),
        m.has_repo && !m.repo_worker_busy && m.pull_request_prompt is Some ==> starts(
            WorkerRequest::LaunchPullRequest,
            repo,
            busy is Some,
            signed_in,
        ),
        m.has_repo && m.can_discard && !m.repo_worker_busy ==> starts(
            WorkerRequest::DiscardAndReset,
            repo,
            busy is Some,
            signed_in,
        ),
        !m.repo_worker_busy ==> (m.can_create_tag <==> starts(
            WorkerRequest::CreateTag(tag),
            repo,
            busy is Some,
            signed_in,
        )),
{
}

/// Nothing starts while the tab's worker is busy: every request is refused
/// or ignored.
pub proof fn law_a_busy_worker_starts_nothing(request: WorkerRequest, repo: RepoState, signed_in: bool)
    ensures
        !starts(request, repo, true, signed_in),
{
}

fn wrapped(before: &str, middle: &[char], after: &str) -> (r: String)
    ensures
        r@ == before@ + middle@ + after@,
{
    let mut out = lit(before);
    push_all(&mut out, middle);
    push_all(&mut out, lit(after).as_slice());
    string_of(out.as_slice())
}

/// Decides what a request for background work does, given whether the
/// worker is already running one and whether the user is signed in to
/// GitHub.
pub fn dispatch(request: &WorkerRequest, repo: &RepoState, worker_busy: bool, signed_in: bool) -> (r: Dispatch)
    ensures
        dispatch_view(r) == dispatch_plan(*request, *repo, worker_busy, signed_in),
{
    if let WorkerRequest::LaunchPullRequest = request {
        return match &repo.pull_request_prompt {
            None => Dispatch::Refuse("No pull request action available".to_string()),
            Some(p) => if worker_busy {
                Dispatch::Refuse("Busy — please wait...".to_string())
            } else {
                match p {
                    PullRequestPrompt::Open { number, .. } => {
                        let digits = u64_chars(*number);
                        let label = wrapped("Opening pull request #", digits.as_slice(), "...");
                        Dispatch::Start(BusyState { action: BusyAction::OpenPullRequest, label })
                    },
                    PullRequestPrompt::Create { branch, .. } => {
                        let label = wrapped(
                            "Opening pull request creation for ",
                            chars_of(branch.as_str()).as_slice(),
                            "...",
                        );
                        Dispatch::Start(BusyState { action: BusyAction::CreatePullRequest, label })
                    },
                }
            },
        };
    }
    if repo.path.is_none() {
        return Dispatch::Ignore;
    }
    if worker_busy {
        return Dispatch::Refuse("Busy — please wait...".to_string());
    }
    match request {
        WorkerRequest::Push => Dispatch::Start(BusyState::new(BusyAction::Push, "Pushing...")),
        WorkerRequest::Pull => Dispatch::Start(BusyState::new(BusyAction::Pull, "Pulling...")),
        WorkerRequest::DiscardAndReset => Dispatch::Start(
            BusyState::new(BusyAction::DiscardAndReset, "Resetting to remote..."),
        ),
        WorkerRequest::CreateTag(name) => {
            if !can_create_tag_on_branch(repo.branch.as_str()) {
                Dispatch::Refuse("Tags can only be created from the main or master branch.".to_string())
            } else if repo.has_github_https_origin && !signed_in {
                Dispatch::Refuse(
                    "Sign in to GitHub before creating tags for this repository.".to_string(),
                )
            } else {
                let label = wrapped("Creating tag ", chars_of(name.as_str()).as_slice(), "...");
                Dispatch::Start(BusyState { action: BusyAction::CreateTag, label })
            }
        },
        WorkerRequest::LaunchPullRequest => Dispatch::Ignore,
    }
}

/// A write to the repository that the user asked for directly.
pub enum RepoWrite {
    StageFile(String),
    UnstageFile(String),
    StageAll,
    UnstageAll,
    SwitchBranch(String),
    CreateBranch(String),
}

/// What the status line says once a write succeeded.
pub open spec fn write_done_text(w: RepoWrite) -> Seq<char> {
    match w {
        RepoWrite::StageFile(p) => "Staged: "@ + p@,
        RepoWrite::UnstageFile(p) => "Unstaged: "@ + p@,
        RepoWrite::StageAll => "Staged all changes"@,
        RepoWrite::UnstageAll => "Unstaged all changes"@,
        RepoWrite::SwitchBranch(b) => "Switched to "@ + b@,
        RepoWrite::CreateBranch(b) => "Created and switched to "@ + b@,
    }
}

/// The name a failed write is reported and logged under.
pub open spec fn write_context(w: RepoWrite) -> Seq<char> {
    match w {
        RepoWrite::StageFile(_) => "Stage"@,
        RepoWrite::UnstageFile(_) => "Unstage"@,
        RepoWrite::StageAll => "Stage all"@,
        RepoWrite::UnstageAll => "Unstage all"@,
        RepoWrite::SwitchBranch(_) => "Switch branch"@,
        RepoWrite::CreateBranch(_) => "Create branch"@,
    }
}

/// Whether a successful write leaves the open file, diff and conflict
/// behind: changing branch does.
pub open spec fn write_clears_selection(w: RepoWrite) -> bool {
    w is SwitchBranch || w is CreateBranch
}

impl RepoWrite {
    pub fn done_message(&self) -> (r: StatusMessage)
        ensures
            r.shown() == write_done_text(*self),
            r.severity() == StatusLevel::Success,
    {
        let text = match self {
            RepoWrite::StageFile(p) => wrapped("Staged: ", chars_of(p.as_str()).as_slice(), ""),
            RepoWrite::UnstageFile(p) => wrapped("Unstaged: ", chars_of(p.as_str()).as_slice(), ""),
            RepoWrite::StageAll => "Staged all changes".to_string(),
            RepoWrite::UnstageAll => "Unstaged all changes".to_string(),
            RepoWrite::SwitchBranch(b) => wrapped("Switched to ", chars_of(b.as_str()).as_slice(), ""),
            RepoWrite::CreateBranch(b) => wrapped(
                "Created and switched to ",
                chars_of(b.as_str()).as_slice(),
                "",
            ),
        };
        proof {
            reveal_strlit("");
        }
        StatusMessage::success(text.as_str())
    }

    pub fn context(&self) -> (r: &'static str)
        ensures
            r@ == write_context(*self),
    {
        match self {
            RepoWrite::StageFile(_) => "Stage",
            RepoWrite::UnstageFile(_) => "Unstage",
            RepoWrite::StageAll => "Stage all",
            RepoWrite::UnstageAll => "Unstage all",
            RepoWrite::SwitchBranch(_) => "Switch branch",
            RepoWrite::CreateBranch(_) => "Create branch",
        }
    }

    pub fn clears_selection(&self) -> (r: bool)
        ensures
            r == write_clears_selection(*self),
    {
        match self {
            RepoWrite::SwitchBranch(_) | RepoWrite::CreateBranch(_) => true,
            _ => false,
        }
    }
}

/// What the stage shortcut asks for: the open file moves to the other list.
pub fn stage_shortcut(selected: &Option<SelectedFile>) -> (r: Result<RepoWrite, StatusMessage>)
    ensures
        match *selected {
            Some(f) => if f.staged {
                r matches Ok(RepoWrite::UnstageFile(p)) && p@ == f.path@
            } else {
                r matches Ok(RepoWrite::StageFile(p)) && p@ == f.path@
            },
            None => r matches Err(m) && m.shown() == "Select a file to stage or unstage first"@
                && m.severity() == StatusLevel::Info,
        },
{
    match selected {
        Some(f) => if f.staged {
            Ok(RepoWrite::UnstageFile(f.path.clone()))
        } else {
            Ok(RepoWrite::StageFile(f.path.clone()))
        },
        None => Err(StatusMessage::info("Select a file to stage or unstage first")),
    }
}

/// Why the commit shortcut commits nothing, and whether the summary field
/// takes the focus; `None` when it commits.
pub open spec fn commit_shortcut_refusal(
    ruleset: CommitMessageRuleSet,
    staged_count: nat,
    summary: Seq<char>,
    body: Seq<char>,
) -> Option<(Seq<char>, bool)> {
    if staged_count == 0 {
        Some(("Stage files first"@, false))
    } else if trim(summary).len() == 0 {
        Some(("Enter a commit summary"@, true))
    } else {
        match validation(ruleset, built_message(summary, body)) {
            Ok(()) => None,
            Err(e) => Some((e, true)),
        }
    }
}

/// The commit shortcut: nothing staged, an empty summary and a message the
/// rules refuse each stop it, in that order.
pub fn commit_shortcut(ruleset: CommitMessageRuleSet, worktree: &WorktreeState, commit: &CommitState) -> (r: Option<(StatusMessage, bool)>)
    ensures
        match commit_shortcut_refusal(ruleset, worktree.staged@.len(), commit.commit_summary@, commit.commit_body@) {
            None => r is None,
            Some((text, focus)) => r matches Some((m, f)) && m.shown() == text && f == focus
                && m.severity() == StatusLevel::Info,
        },
{
    if worktree.staged.len() == 0 {
        return Some((StatusMessage::info("Stage files first"), false));
    }
    if trim_chars(chars_of(commit.commit_summary.as_str()).as_slice()).len() == 0 {
        return Some((StatusMessage::info("Enter a commit summary"), true));
    }
    let message = build_message(commit.commit_summary.as_str(), commit.commit_body.as_str());
    match validate_for_submit(ruleset, message.as_str()) {
        Ok(()) => None,
        Err(e) => Some((StatusMessage::info(e.as_str()), true)),
    }
}

/// The open file, its diff and its conflict are dropped.
pub fn clear_repo_selection(inspector: &mut InspectorState)
    ensures
        final(inspector).diff_content@.len() == 0,
        final(inspector).parsed_diff.rows@.len() == 0,
        *final(inspector) == (InspectorState {
            selected_file: None,
            conflict_data: None,
            diff_content: final(inspector).diff_content,
            parsed_diff: final(inspector).parsed_diff,
            ..*old(inspector)
        }),
{
    inspector.selected_file = None;
    inspector.clear_diff();
    inspector.conflict_data = None;
}

/// What the status line says after a commit: the first eight characters of
/// its id.
pub open spec fn committed_text(id: Seq<char>) -> Seq<char> {
    "Committed: "@ + id.take(8)
}

/// After a commit went through: the form is emptied and the open file
/// dropped.
pub fn commit_done(commit: &mut CommitState, inspector: &mut InspectorState, id: &str) -> (r: StatusMessage)
    requires
        id@.len() >= 8,
    ensures
        r.shown() == committed_text(id@),
        r.severity() == StatusLevel::Success,
        final(commit).commit_summary@.len() == 0,
        final(commit).commit_body@.len() == 0,
        final(commit).inferred_commit_scopes == old(commit).inferred_commit_scopes,
        final(commit).focus_commit_summary_requested == old(commit).focus_commit_summary_requested,
        final(inspector).diff_content@.len() == 0,
        final(inspector).parsed_diff.rows@.len() == 0,
        *final(inspector) == (InspectorState {
            selected_file: None,
            conflict_data: None,
            diff_content: final(inspector).diff_content,
            parsed_diff: final(inspector).parsed_diff,
            ..*old(inspector)
        }),
{
    let id_chars = chars_of(id);
    let short = slice_chars(id_chars.as_slice(), 0, 8);
    let text = wrapped("Committed: ", short.as_slice(), "");
    proof {
        reveal_strlit("");
        assert(short@ =~= id@.take(8));
    }
    clear_repo_selection(inspector);
    commit.commit_summary = String::new();
    commit.commit_body = String::new();
    StatusMessage::success(text.as_str())
}

/// Whether creating a branch would carry nothing along.
pub open spec fn preview_clean(p: CreateBranchPreview) -> bool {
    p.dirty_files == 0 && p.untracked_files == 0 && p.staged_files == 0
}

/// The branch form's Create: a clean checkout creates the branch at once
/// (the name comes back); otherwise the confirmation opens with the preview.
pub fn open_create_branch_confirm(branch: &mut BranchDialogState, name: String, preview: CreateBranchPreview) -> (r: Option<String>)
    ensures
        preview_clean(preview) ==> r == Some(name) && *final(branch) == *old(branch),
        !preview_clean(preview) ==> r is None && *final(branch) == (BranchDialogState {
            pending_new_branch_name: Some(name),
            create_branch_preview: Some(preview),
            show_create_branch_dialog: false,
            show_create_branch_confirm: true,
            ..*old(branch)
        }),
{
    if preview.dirty_files == 0 && preview.untracked_files == 0 && preview.staged_files == 0 {
        Some(name)
    } else {
        branch.pending_new_branch_name = Some(name);
        branch.create_branch_preview = Some(preview);
        branch.show_create_branch_dialog = false;
        branch.show_create_branch_confirm = true;
        None
    }
}

/// The confirmation's Create: hands back the pending name and closes.
pub fn confirm_create_branch(branch: &mut BranchDialogState) -> (r: Option<String>)
    ensures
        r == old(branch).pending_new_branch_name,
        *final(branch) == (BranchDialogState {
            pending_new_branch_name: None,
            show_create_branch_confirm: false,
            create_branch_preview: None,
            ..*old(branch)
        }),
{
    let name = branch.pending_new_branch_name.take();
    branch.show_create_branch_confirm = false;
    branch.create_branch_preview = None;
    name
}

/// Once the branch exists, the form and the confirmation are closed and
/// emptied.
pub fn branch_created(branch: &mut BranchDialogState)
    ensures
        final(branch).new_branch_name@.len() == 0,
        *final(branch) == (BranchDialogState {
            new_branch_name: final(branch).new_branch_name,
            show_create_branch_dialog: false,
            show_create_branch_confirm: false,
            create_branch_preview: None,
            pending_new_branch_name: None,
            ..*old(branch)
        }),
{
    branch.new_branch_name = String::new();
    branch.show_create_branch_dialog = false;
    branch.show_create_branch_confirm = false;
    branch.create_branch_preview = None;
    branch.pending_new_branch_name = None;
}

/// The names whose deletion went through, in order.
pub open spec fn deleted_names(names: Seq<String>, results: Seq<Result<(), String>>) -> Seq<Seq<char>>
    decreases names.len(),
{
    if names.len() == 0 {
        Seq::empty()
    } else {
        let rest = deleted_names(names.drop_last(), results.take(names.len() - 1));
        if results[names.len() - 1] is Ok {
            rest.push(names.last()@)
        } else {
            rest
        }
    }
}

/// `name: error` for each deletion that failed, in order.
pub open spec fn deletion_failures(names: Seq<String>, results: Seq<Result<(), String>>) -> Seq<Seq<char>>
    decreases names.len(),
{
    if names.len() == 0 {
        Seq::empty()
    } else {
        let rest = deletion_failures(names.drop_last(), results.take(names.len() - 1));
        match results[names.len() - 1] {
            Ok(()) => rest,
            Err(e) => rest.push(names.last()@ + ": "@ + e@),
        }
    }
}

/// The stale branches whose name is not among `deleted`, in order.
pub open spec fn still_stale(stale: Seq<StaleBranch>, deleted: Seq<Seq<char>>) -> Seq<StaleBranch>
    decreases stale.len(),
{
    if stale.len() == 0 {
        Seq::empty()
    } else {
        let rest = still_stale(stale.drop_last(), deleted);
        if deleted.contains(stale.last().name@) {
            rest
        } else {
            rest.push(stale.last())
        }
    }
}

/// What the status line says when every deletion went through.
pub open spec fn deleted_text(count: nat) -> Seq<char> {
    "Deleted "@ + dec(count) + " branch(es)"@
}

fn in_list(list: &Vec<Vec<char>>, name: &[char]) -> (r: bool)
    ensures
        r == texts(list@).contains(name@),
{
    let mut i: usize = 0;
    while i < list.len()
        invariant
            0 <= i <= list@.len(),
            forall|j: int| 0 <= j < i ==> texts(list@)[j] != name@,
        decreases list@.len() - i,
    {
        if seq_eq(list[i].as_slice(), name) {
            assert(texts(list@)[i as int] == name@);
            return true;
        }
        i = i + 1;
    }
    proof {
        if texts(list@).contains(name@) {
            let k = choose|k: int| 0 <= k < texts(list@).len() && texts(list@)[k] == name@;
            assert(texts(list@)[k] != name@);
        }
    }
    false
}

/// After the selected stale branches were deleted one by one (`results[i]`
/// for `names[i]`): the deleted ones leave the list, and either the dialog
/// closes with the count or the failures come back joined by `; ` for the
/// error line and the log.
pub fn finish_stale_deletion(
    cleanup: &mut CleanupBranchesDialogState,
    names: &Vec<String>,
    results: &Vec<Result<(), String>>,
) -> (r: Result<StatusMessage, String>)
    requires
        names@.len() == results@.len(),
    ensures
        final(cleanup).stale_branches@ == still_stale(old(cleanup).stale_branches@, deleted_names(names@, results@)),
        deletion_failures(names@, results@).len() == 0 ==> {
            &&& r matches Ok(m) && m.shown() == deleted_text(deleted_names(names@, results@).len())
                && m.severity() == StatusLevel::Success
            &&& !final(cleanup).show_cleanup_branches_dialog
        },
        deletion_failures(names@, results@).len() > 0 ==> {
            &&& r matches Err(e) && e@ == join(deletion_failures(names@, results@), "; "@)
            &&& final(cleanup).show_cleanup_branches_dialog == old(cleanup).show_cleanup_branches_dialog
        },
{
    let mut deleted: Vec<Vec<char>> = Vec::new();
    let mut failures: Vec<Vec<char>> = Vec::new();
    let mut i: usize = 0;
    while i < names.len()
        invariant
            names@.len() == results@.len(),
            0 <= i <= names@.len(),
            texts(deleted@) == deleted_names(names@.take(i as int), results@.take(i as int)),
            texts(failures@) == deletion_failures(names@.take(i as int), results@.take(i as int)),
        decreases names@.len() - i,
    {
        assert(names@.take(i + 1).drop_last() =~= names@.take(i as int));
        assert(results@.take(i + 1).take(i as int) =~= results@.take(i as int));
        match &results[i] {
            Ok(()) => {
                deleted.push(chars_of(names[i].as_str()));
                assert(texts(deleted@) =~= texts(deleted@.drop_last()).push(names@[i as int]@));
            },
            Err(e) => {
                let mut line = chars_of(names[i].as_str());
                push_all(&mut line, lit(": ").as_slice());
                push_all(&mut line, chars_of(e.as_str()).as_slice());
                failures.push(line);
                assert(texts(failures@) =~= texts(failures@.drop_last()).push(
                    names@[i as int]@ + ": "@ + e@,
                ));
            },
        }
        i = i + 1;
    }
    assert(names@.take(names@.len() as int) =~= names@);
    assert(results@.take(results@.len() as int) =~= results@);
    let ghost gone = texts(deleted@);
    let old_stale = &cleanup.stale_branches;
    let mut kept: Vec<StaleBranch> = Vec::new();
    let mut j: usize = 0;
    while j < old_stale.len()
        invariant
            0 <= j <= old_stale@.len(),
            gone == texts(deleted@),
            kept@ == still_stale(old_stale@.take(j as int), gone),
        decreases old_stale@.len() - j,
    {
        assert(old_stale@.take(j + 1).drop_last() =~= old_stale@.take(j as int));
        if !in_list(&deleted, chars_of(old_stale[j].name.as_str()).as_slice()) {
            kept.push(old_stale[j].duplicate());
        }
        j = j + 1;
    }
    assert(old_stale@.take(old_stale@.len() as int) =~= old_stale@);
    cleanup.stale_branches = kept;
    if failures.len() == 0 {
        cleanup.show_cleanup_branches_dialog = false;
        let text = wrapped("Deleted ", usize_chars(deleted.len()).as_slice(), " branch(es)");
        Ok(StatusMessage::success(text.as_str()))
    } else {
        Err(string_of(join_chars(&failures, lit("; ").as_slice()).as_slice()))
    }
}

/// What the status line says after a refresh: the failure if one read
/// failed, otherwise that the status is fresh.
pub fn refreshed_status(failure: Option<&str>) -> (r: StatusMessage)
    ensures
        match failure {
            Some(d) => r.shown() == failure_text("Refresh"@, d@) && r.severity() == StatusLevel::Error,
            None => r.shown() == "Refreshed repository status"@ && r.severity() == StatusLevel::Success,
        },
{
    match failure {
        Some(d) => status_message_for_error("Refresh", d),
        None => StatusMessage::success("Refreshed repository status"),
    }
}

/// After a resolution was written and staged: the file reopens from the
/// staged list and the conflict closes.
pub fn resolution_saved(inspector: &mut InspectorState, path: &str) -> (r: StatusMessage)
    ensures
        r.shown() == "Resolved and staged: "@ + path@,
        r.severity() == StatusLevel::Success,
        final(inspector).selected_file matches Some(f) && f.path@ == path@ && f.staged,
        *final(inspector) == (InspectorState {
            selected_file: final(inspector).selected_file,
            conflict_data: None,
            ..*old(inspector)
        }),
{
    let text = wrapped("Resolved and staged: ", chars_of(path).as_slice(), "");
    proof {
        reveal_strlit("");
    }
    inspector.selected_file = Some(SelectedFile { path: path.to_string(), staged: true });
    inspector.conflict_data = None;
    StatusMessage::success(text.as_str())
}

} // verus!
