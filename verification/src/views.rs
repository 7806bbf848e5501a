//! The decisions a tab makes when it refreshes or reports: what a failure
//! reads like, which selections survive a refresh, which files scopes are
//! inferred from, and what each part of the state is reset to.

use vstd::prelude::*;

use crate::git::{age_text, relative_time};
use crate::github::PullRequestPrompt;
use crate::logging::{summarize_for_ui, ui_summary};
use crate::paths::{file_name, file_name_chars};
use crate::state::{
    CommitState, RepoState, StatusLevel, StatusMessage, WorktreeDialogState, WorktreeState,
    worktree_key,
};
use crate::text::{chars_of, lit, push_all, seq_eq, strs, string_of};
use crate::text_map::TextMap;
use crate::worktrees::{LinkedWorktree, LinkedWorktreeStatus};

verus! {

/// What the status bar says when an operation failed.
pub open spec fn failure_text(context: Seq<char>, detail: Seq<char>) -> Seq<char> {
    context + " failed: "@ + ui_summary(detail) + ". See Logs."@
}

/// The status line for a failed operation, at error level; the detail goes
/// to the log.
pub fn status_message_for_error(context: &str, detail: &str) -> (r: StatusMessage)
    ensures
        r.shown() == failure_text(context@, detail@),
        r.severity() == StatusLevel::Error,
{
    let mut out = chars_of(context);
    push_all(&mut out, lit(" failed: ").as_slice());
    push_all(&mut out, chars_of(summarize_for_ui(detail).as_str()).as_slice());
    push_all(&mut out, lit(". See Logs.").as_slice());
    StatusMessage::error(string_of(out.as_slice()).as_str())
}

/// The detail logged when a worker refused a task.
pub const WORKER_DISPATCH_ERROR_DETAIL: &'static str = "worker rejected task dispatch";

/// The status line for an operation whose worker would not start.
pub fn status_message_for_worker_dispatch(context: &str) -> (r: StatusMessage)
    ensures
        r.shown() == context@ + " could not start. Please try again."@,
        r.severity() == StatusLevel::Error,
{
    let mut out = chars_of(context);
    push_all(&mut out, lit(" could not start. Please try again.").as_slice());
    StatusMessage::error(string_of(out.as_slice()).as_str())
}

/// A tab's title: the repository folder's name, or `Repository`.
pub open spec fn tab_label(path: Option<Seq<char>>) -> Seq<char> {
    match path {
        Some(p) => match file_name(p) {
            Some(n) => if n.len() > 0 {
                n
            } else {
                "Repository"@
            },
            None => "Repository"@,
        },
        None => "Repository"@,
    }
}

pub fn repo_tab_label(path: Option<&str>) -> (r: String)
    ensures
        r@ == tab_label(
            match path {
                Some(p) => Some(p@),
                None => None,
            },
        ),
{
    match path {
        Some(p) => match file_name_chars(chars_of(p).as_slice()) {
            Some(n) => if n.len() > 0 {
                string_of(n.as_slice())
            } else {
                string_of(lit("Repository").as_slice())
            },
            None => string_of(lit("Repository").as_slice()),
        },
        None => string_of(lit("Repository").as_slice()),
    }
}

/// The name proposed for a repository published from a folder.
pub fn default_repo_name_for_path(path: &str) -> (r: String)
    ensures
        r@ == tab_label(Some(path@)),
{
    repo_tab_label(Some(path))
}

/// How many of a worktree's files are not committed yet, from the status the
/// listing read.
pub open spec fn uncommitted_files(s: LinkedWorktreeStatus) -> int {
    match s {
        LinkedWorktreeStatus::Dirty { modified, staged, untracked } => modified + staged + untracked,
        _ => 0,
    }
}

pub fn uncommitted_count(worktree: &LinkedWorktree) -> (r: usize)
    requires
        uncommitted_files(worktree.status) <= usize::MAX,
    ensures
        r == uncommitted_files(worktree.status),
{
    match &worktree.status {
        LinkedWorktreeStatus::Dirty { modified, staged, untracked } => *modified + *staged + *untracked,
        _ => 0,
    }
}

/// Whether an offered pull request still applies: it is about the branch the
/// tab is on, and the repository still has an origin.
pub open spec fn prompt_still_applies(r: RepoState) -> bool {
    match r.pull_request_prompt {
        Some(PullRequestPrompt::Open { branch, .. }) => branch@ == r.branch@ && r.has_origin_remote,
        Some(PullRequestPrompt::Create { branch, .. }) => branch@ == r.branch@ && r.has_origin_remote,
        None => false,
    }
}

/// Drops a pull-request offer that no longer applies.
pub fn sync_pull_request_prompt(repo_state: &mut RepoState)
    ensures
        *final(repo_state) == (RepoState {
            pull_request_prompt: if prompt_still_applies(*old(repo_state)) {
                old(repo_state).pull_request_prompt
            } else {
                None
            },
            ..*old(repo_state)
        }),
{
    let keep = match &repo_state.pull_request_prompt {
        Some(prompt) => {
            let b = chars_of(prompt.branch().as_str());
            seq_eq(b.as_slice(), chars_of(repo_state.branch.as_str()).as_slice())
                && repo_state.has_origin_remote
        },
        None => false,
    };
    if !keep {
        repo_state.pull_request_prompt = None;
    }
}

/// Whether a selection made against a worktree survives a refresh: an empty
/// list means the listing failed, and a transient error must not throw away
/// what the user is reading.
pub open spec fn survives_refresh(worktrees: Seq<LinkedWorktree>, key: Seq<char>) -> bool {
    worktrees.len() == 0 || exists|i: int| 0 <= i < worktrees.len() && worktree_key(#[trigger] worktrees[i]) == key
}

/// A refresh whose worktree listing failed leaves the list empty, and an
/// empty list never discards a selection: a transient error must not throw
/// away what the user is reading.
pub proof fn law_a_failed_listing_keeps_every_selection(key: Seq<char>)
    ensures
        survives_refresh(Seq::empty(), key),
{
}

/// A selection made against a linked worktree does not survive on the main
/// worktree alone, even when the two share a name: the main worktree never
/// stands in for a linked one that was removed.
pub proof fn law_the_main_worktree_never_stands_in_for_a_linked_one(listed: Seq<LinkedWorktree>, name: Seq<char>)
    requires
        forall|i: int| 0 <= i < listed.len() ==> (#[trigger] listed[i]).is_main,
        listed.len() > 0,
    ensures
        !survives_refresh(listed, crate::worktree_metadata::key_of(false, name)),
{
    assert forall|i: int| 0 <= i < listed.len() implies worktree_key(#[trigger] listed[i])
        != crate::worktree_metadata::key_of(false, name) by {
        crate::worktree_metadata::lemma_main_key_never_collides(listed[i].name@, name);
    }
}

pub fn selection_survives_refresh(repo_state: &RepoState, key: &str) -> (r: bool)
    ensures
        r == survives_refresh(repo_state.linked_worktrees@, key@),
{
    repo_state.linked_worktrees.len() == 0 || repo_state.worktree_by_key(key).is_some()
}

/// The files scopes are inferred from: the staged ones, or the unstaged ones
/// when nothing is staged.
pub fn scope_source_paths(worktree_state: &WorktreeState) -> (r: Vec<String>)
    ensures
        r@.len() == if worktree_state.staged@.len() > 0 {
            worktree_state.staged@.len()
        } else {
            worktree_state.unstaged@.len()
        },
        forall|i: int|
            0 <= i < r@.len() ==> #[trigger] r@[i] == if worktree_state.staged@.len() > 0 {
                worktree_state.staged@[i].path
            } else {
                worktree_state.unstaged@[i].path
            },
{
    let list = if worktree_state.staged.len() > 0 {
        &worktree_state.staged
    } else {
        &worktree_state.unstaged
    };
    let n = list.len();
    let mut out: Vec<String> = Vec::new();
    let mut i: usize = 0;
    while i < n
        invariant
            n == list@.len(),
            list == if worktree_state.staged@.len() > 0 {
                &worktree_state.staged
            } else {
                &worktree_state.unstaged
            },
            0 <= i <= n,
            out@.len() == i,
            forall|j: int| 0 <= j < i ==> #[trigger] out@[j] == list@[j].path,
        decreases n - i,
    {
        out.push(list[i].path.clone());
        i = i + 1;
    }
    out
}

/// Which list a file selected before a refresh is shown from afterwards:
/// the list it was in, while it is still there; otherwise the staged list
/// when only that one holds it.
pub open spec fn reselect_staged(was_staged: bool, in_staged: bool, in_unstaged: bool) -> bool {
    if was_staged && in_staged {
        true
    } else if !was_staged && in_unstaged {
        false
    } else {
        in_staged && !in_unstaged
    }
}

pub fn reselected_as_staged(was_staged: bool, in_staged: bool, in_unstaged: bool) -> (r: bool)
    ensures
        r == reselect_staged(was_staged, in_staged, in_unstaged),
{
    if was_staged && in_staged {
        true
    } else if !was_staged && in_unstaged {
        false
    } else {
        in_staged && !in_unstaged
    }
}

/// How long ago a worktree was started, `None` when the app did not create
/// it.
pub fn started_label(now_secs: i64, started: i64) -> (r: Option<String>)
    requires
        started > 0 ==> i64::MIN <= now_secs - started <= i64::MAX,
    ensures
        started <= 0 ==> r is None,
        started > 0 ==> (r matches Some(s) && s@ == age_text(now_secs - started)),
{
    if started <= 0 {
        return None;
    }
    Some(relative_time(now_secs, started))
}

/// Forgets everything read from the repository.
pub fn reset_repo_state(repo_state: &mut RepoState)
    ensures
        !final(repo_state).has_origin_remote,
        !final(repo_state).has_github_origin,
        !final(repo_state).has_github_https_origin,
        final(repo_state).branch@.len() == 0,
        final(repo_state).outgoing_commit_count == 0,
        final(repo_state).branches@.len() == 0,
        final(repo_state).remote_branches@.len() == 0,
        final(repo_state).commit_history@.len() == 0,
        final(repo_state).pull_request_prompt is None,
        final(repo_state).linked_worktrees@.len() == 0,
        final(repo_state).worktree_metadata.wf(),
        final(repo_state).worktree_metadata.keys().len() == 0,
        final(repo_state).path == old(repo_state).path,
{
    repo_state.has_origin_remote = false;
    repo_state.has_github_origin = false;
    repo_state.has_github_https_origin = false;
    repo_state.branch = String::new();
    repo_state.outgoing_commit_count = 0;
    repo_state.branches = Vec::new();
    repo_state.remote_branches = Vec::new();
    repo_state.commit_history = Vec::new();
    repo_state.pull_request_prompt = None;
    repo_state.linked_worktrees = Vec::new();
    repo_state.worktree_metadata = TextMap::new();
}

/// Forgets the file lists.
pub fn reset_worktree_state(worktree_state: &mut WorktreeState)
    ensures
        final(worktree_state).unstaged@.len() == 0,
        final(worktree_state).staged@.len() == 0,
{
    worktree_state.unstaged = Vec::new();
    worktree_state.staged = Vec::new();
}

/// Empties the commit form.
pub fn reset_commit_state(commit_state: &mut CommitState)
    ensures
        final(commit_state).inferred_commit_scopes@.len() == 0,
        final(commit_state).commit_summary@.len() == 0,
        final(commit_state).commit_body@.len() == 0,
        !final(commit_state).focus_commit_summary_requested,
{
    commit_state.inferred_commit_scopes = Vec::new();
    commit_state.commit_summary = String::new();
    commit_state.commit_body = String::new();
    commit_state.focus_commit_summary_requested = false;
}

/// Closes and empties the New Worktree form; the branch and path follow the
/// name again.
pub fn reset_worktree_dialog_state(dialog_state: &mut WorktreeDialogState)
    ensures
        !final(dialog_state).show_new_worktree_dialog,
        final(dialog_state).name@.len() == 0,
        final(dialog_state).branch@.len() == 0,
        final(dialog_state).base_branch is None,
        final(dialog_state).path@.len() == 0,
        final(dialog_state).path_parent@.len() == 0,
        !final(dialog_state).focus_name_requested,
        final(dialog_state).branch_follows_name,
        final(dialog_state).path_follows_name,
        final(dialog_state).pending_remove is None,
{
    dialog_state.show_new_worktree_dialog = false;
    dialog_state.name = String::new();
    dialog_state.branch = String::new();
    dialog_state.base_branch = None;
    dialog_state.path = String::new();
    dialog_state.path_parent = String::new();
    dialog_state.focus_name_requested = false;
    dialog_state.branch_follows_name = true;
    dialog_state.path_follows_name = true;
    dialog_state.pending_remove = None;
}

} // verus!

verus! {

/// Which of a tab's dialogs Escape closes first: clean-up, then discard and
/// tag (not while their operation runs), then the branch confirmation, then
/// the new-branch form.
pub open spec fn topmost_dialog(d: crate::state::DialogState, busy: Option<crate::state::BusyAction>) -> Option<int> {
    if d.cleanup.show_cleanup_branches_dialog {
        Some(0)
    } else if d.discard.show_discard_dialog && busy != Some(crate::state::BusyAction::DiscardAndReset) {
        Some(1)
    } else if d.tag.show_create_tag_dialog && busy != Some(crate::state::BusyAction::CreateTag) {
        Some(2)
    } else if d.branch.show_create_branch_confirm {
        Some(3)
    } else if d.branch.show_create_branch_dialog {
        Some(4)
    } else {
        None
    }
}

/// How closing a tab's topmost dialog changes its dialogs: that dialog is
/// closed and its draft cleared; everything else stays.
pub open spec fn closes_topmost(before: crate::state::DialogState, after: crate::state::DialogState, busy: Option<crate::state::BusyAction>) -> bool {
    &&& (topmost_dialog(before, busy) is None ==> after == before)
    &&& (topmost_dialog(before, busy) == Some(0int) ==> {
            &&& !after.cleanup.show_cleanup_branches_dialog
            &&& after.cleanup.stale_branches@.len() == 0
            &&& after.discard == before.discard
            &&& after.tag == before.tag
            &&& after.branch == before.branch
        })
    &&& (topmost_dialog(before, busy) == Some(1int) ==> {
            &&& !after.discard.show_discard_dialog
            &&& after.discard.discard_preview is None
            &&& !after.discard.discard_clean_untracked
            &&& after.cleanup == before.cleanup
            &&& after.tag == before.tag
            &&& after.branch == before.branch
        })
    &&& (topmost_dialog(before, busy) == Some(2int) ==> {
            &&& !after.tag.show_create_tag_dialog
            &&& after.tag.new_tag_name@.len() == 0
            &&& !after.tag.focus_new_tag_name_requested
            &&& after.cleanup == before.cleanup
            &&& after.discard == before.discard
            &&& after.branch == before.branch
        })
    &&& (topmost_dialog(before, busy) == Some(3int) ==> {
            &&& !after.branch.show_create_branch_confirm
            &&& after.branch.create_branch_preview is None
            &&& after.branch.pending_new_branch_name is None
            &&& after.branch.new_branch_name@.len() == 0
            &&& !after.branch.focus_new_branch_name_requested
            &&& after.branch.show_create_branch_dialog == before.branch.show_create_branch_dialog
            &&& after.cleanup == before.cleanup
            &&& after.discard == before.discard
            &&& after.tag == before.tag
        })
    &&& (topmost_dialog(before, busy) == Some(4int) ==> {
            &&& !after.branch.show_create_branch_dialog
            &&& after.branch.new_branch_name@.len() == 0
            &&& !after.branch.focus_new_branch_name_requested
            &&& after.branch.show_create_branch_confirm == before.branch.show_create_branch_confirm
            &&& after.cleanup == before.cleanup
            &&& after.discard == before.discard
            &&& after.tag == before.tag
        })
    &&& (after.worktree == before.worktree)
    &&& (after.worktree_metadata == before.worktree_metadata)
}

/// Closes the tab's topmost dialog, clearing its draft; `false` when none
/// could be closed.
pub fn close_topmost_tab_dialog(dialogs: &mut crate::state::DialogState, busy: Option<crate::state::BusyAction>) -> (r: bool)
    ensures
        r == topmost_dialog(*old(dialogs), busy) is Some,
        closes_topmost(*old(dialogs), *final(dialogs), busy),

{
    let discard_busy = match busy {
        Some(crate::state::BusyAction::DiscardAndReset) => true,
        _ => false,
    };
    let tag_busy = match busy {
        Some(crate::state::BusyAction::CreateTag) => true,
        _ => false,
    };
    if dialogs.cleanup.show_cleanup_branches_dialog {
        dialogs.cleanup.show_cleanup_branches_dialog = false;
        dialogs.cleanup.stale_branches = Vec::new();
        return true;
    }
    if dialogs.discard.show_discard_dialog && !discard_busy {
        dialogs.discard.show_discard_dialog = false;
        dialogs.discard.discard_preview = None;
        dialogs.discard.discard_clean_untracked = false;
        return true;
    }
    if dialogs.tag.show_create_tag_dialog && !tag_busy {
        dialogs.tag.show_create_tag_dialog = false;
        dialogs.tag.new_tag_name = String::new();
        dialogs.tag.focus_new_tag_name_requested = false;
        return true;
    }
    if dialogs.branch.show_create_branch_confirm {
        dialogs.branch.show_create_branch_confirm = false;
        dialogs.branch.create_branch_preview = None;
        dialogs.branch.pending_new_branch_name = None;
        dialogs.branch.new_branch_name = String::new();
        dialogs.branch.focus_new_branch_name_requested = false;
        return true;
    }
    if dialogs.branch.show_create_branch_dialog {
        dialogs.branch.show_create_branch_dialog = false;
        dialogs.branch.new_branch_name = String::new();
        dialogs.branch.focus_new_branch_name_requested = false;
        return true;
    }
    false
}

} // verus!

verus! {

/// Everything a refresh reads from the repository, each read with its own
/// failure.
pub struct RefreshReads {
    pub has_origin_remote: bool,
    pub has_github_origin: bool,
    pub has_github_https_origin: bool,
    pub outgoing_commit_count: Result<usize, String>,
    /// The unstaged and the staged files.
    pub file_statuses: Result<(Vec<crate::git::FileEntry>, Vec<crate::git::FileEntry>), String>,
    pub current_branch: Result<String, String>,
    pub branches: Result<Vec<String>, String>,
    pub remote_branches: Result<Vec<String>, String>,
    pub commit_history: Result<Vec<crate::git::CommitEntry>, String>,
    pub linked_worktrees: Result<Vec<LinkedWorktree>, String>,
    pub worktree_metadata: Result<crate::metadata_store::WorktreeMetadataMap, String>,
    /// The text of the repository's `Cargo.toml`, when it has one.
    pub manifest: Option<String>,
}

/// `label: error` for a failed read, nothing for one that worked.
pub open spec fn read_failure<T>(label: Seq<char>, r: Result<T, String>) -> Seq<Seq<char>> {
    match r {
        Ok(_) => Seq::empty(),
        Err(e) => seq![label + seq![':', ' '] + e@],
    }
}

/// The failures of a refresh, in the order the reads are made.
pub open spec fn refresh_failures(r: RefreshReads) -> Seq<Seq<char>> {
    read_failure("outgoing commit count"@, r.outgoing_commit_count) + read_failure(
        "file statuses"@,
        r.file_statuses,
    ) + read_failure("current branch"@, r.current_branch) + read_failure(
        "branches"@,
        r.branches,
    ) + read_failure("remote branches"@, r.remote_branches) + read_failure(
        "commit history"@,
        r.commit_history,
    ) + read_failure("worktrees"@, r.linked_worktrees) + read_failure(
        "worktree metadata"@,
        r.worktree_metadata,
    )
}

/// The paths of a file list.
pub open spec fn entry_paths(v: Seq<crate::git::FileEntry>) -> Seq<Seq<char>> {
    Seq::new(v.len(), |i: int| v[i].path@)
}

/// The paths scopes are inferred from on a refresh: the staged files, or the
/// unstaged ones when nothing is staged.
pub open spec fn refresh_scope_paths(r: RefreshReads) -> Seq<Seq<char>> {
    status_scope_paths(r.file_statuses)
}

/// The paths scopes are inferred from, given the file lists read.
pub open spec fn status_scope_paths(
    read: Result<(Vec<crate::git::FileEntry>, Vec<crate::git::FileEntry>), String>,
) -> Seq<Seq<char>> {
    match read {
        Ok((unstaged, staged)) => if staged@.len() > 0 {
            entry_paths(staged@)
        } else {
            entry_paths(unstaged@)
        },
        Err(_) => Seq::empty(),
    }
}

fn record_failure_line(errors: &mut Vec<Vec<char>>, label: &str, e: &String)
    ensures
        crate::text::texts(final(errors)@) == crate::text::texts(old(errors)@).push(label@ + seq![':', ' '] + e@),
{
    let mut line = chars_of(label);
    line.push(':');
    line.push(' ');
    push_all(&mut line, chars_of(e.as_str()).as_slice());
    assert(line@ =~= label@ + seq![':', ' '] + e@);
    let ghost before = errors@;
    errors.push(line);
    assert(crate::text::texts(errors@) =~= crate::text::texts(before).push(label@ + seq![':', ' '] + e@));
}

/// Puts a read's value in its slot, or `empty` and a reported failure.
fn take_read<T>(slot: &mut T, read: Result<T, String>, empty: T, errors: &mut Vec<Vec<char>>, label: &str)
    ensures
        *final(slot) == match read {
            Ok(v) => v,
            Err(_) => empty,
        },
        crate::text::texts(final(errors)@) == crate::text::texts(old(errors)@) + read_failure(label@, read),
{
    let ghost before = crate::text::texts(errors@);
    match read {
        Ok(v) => {
            *slot = v;
            assert(crate::text::texts(errors@) =~= before + read_failure(label@, read));
        },
        Err(e) => {
            record_failure_line(errors, label, &e);
            *slot = empty;
            assert(crate::text::texts(errors@) =~= before + read_failure(label@, read));
        },
    }
}

/// The file lists and the scopes inferred from them.
fn take_file_statuses(
    repo_path: &Option<String>,
    manifest: &Option<String>,
    worktree_state: &mut WorktreeState,
    commit_state: &mut CommitState,
    read: Result<(Vec<crate::git::FileEntry>, Vec<crate::git::FileEntry>), String>,
    errors: &mut Vec<Vec<char>>,
)
    requires
        forall|i: int|
            0 <= i < status_scope_paths(read).len() ==> crate::commit_rules::scope_defined(
                #[trigger] status_scope_paths(read)[i],
            ),
    ensures
        crate::text::texts(final(errors)@) == crate::text::texts(old(errors)@) + read_failure(
            "file statuses"@,
            read,
        ),
        match read {
            Ok((unstaged, staged)) => final(worktree_state).unstaged == unstaged
                && final(worktree_state).staged == staged
                && crate::commit_rules::inferred_scopes_ok(
                crate::commit_rules::default_scope(crate::sync::opt_text(*repo_path), crate::sync::opt_text(*manifest)),
                status_scope_paths(read),
                crate::text::strs(final(commit_state).inferred_commit_scopes@),
            ),
            Err(_) => final(commit_state).inferred_commit_scopes@.len() == 0
                && final(worktree_state).unstaged == old(worktree_state).unstaged
                && final(worktree_state).staged == old(worktree_state).staged,
        },
        final(commit_state).commit_summary == old(commit_state).commit_summary,
        final(commit_state).commit_body == old(commit_state).commit_body,
        final(commit_state).focus_commit_summary_requested == old(commit_state).focus_commit_summary_requested,
{
    let ghost before = crate::text::texts(errors@);
    match read {
        Ok((unstaged, staged)) => {
            worktree_state.unstaged = unstaged;
            worktree_state.staged = staged;
            let paths = scope_source_paths(worktree_state);
            let n = paths.len();
            let mut refs: Vec<&str> = Vec::new();
            let mut i: usize = 0;
            while i < n
                invariant
                    n == paths@.len(),
                    0 <= i <= n,
                    refs@.len() == i,
                    forall|j: int| 0 <= j < i ==> (#[trigger] refs@[j])@ == paths@[j]@,
                decreases n - i,
            {
                refs.push(paths[i].as_str());
                i = i + 1;
            }
            proof {
                let ps = if staged@.len() > 0 {
                    entry_paths(staged@)
                } else {
                    entry_paths(unstaged@)
                };
                assert(ps == status_scope_paths(read));
                assert forall|j: int| 0 <= j < refs@.len() implies crate::commit_rules::scope_defined(#[trigger] refs@[j]@) by {
                    assert(refs@[j]@ == paths@[j]@);
                    assert(paths@[j]@ == ps[j]);
                    assert(crate::commit_rules::scope_defined(status_scope_paths(read)[j]));
                }
                assert(crate::text::str_texts(refs@) =~= status_scope_paths(read)) by {
                    assert forall|j: int| 0 <= j < refs@.len() implies #[trigger] crate::text::str_texts(refs@)[j]
                        == status_scope_paths(read)[j] by {
                        assert(refs@[j]@ == paths@[j]@);
                        assert(paths@[j]@ == ps[j]);
                    }
                }
            }
            let root: Option<&str> = match repo_path {
                Some(p) => Some(p.as_str()),
                None => None,
            };
            let m: Option<&str> = match manifest {
                Some(t) => Some(t.as_str()),
                None => None,
            };
            commit_state.inferred_commit_scopes = crate::commit_rules::infer_commit_scopes(
                root,
                m,
                refs.as_slice(),
            );
            assert(crate::text::texts(errors@) =~= before + read_failure("file statuses"@, read));
        },
        Err(e) => {
            record_failure_line(errors, "file statuses", &e);
            commit_state.inferred_commit_scopes = Vec::new();
            assert(crate::text::texts(errors@) =~= before + read_failure("file statuses"@, read));
        },
    }
}

/// What taking in a refresh's reads does to the tab, from `before` to
/// `after`, answering `r`: every read that worked replaces what the tab
/// showed, every read that failed empties it and is reported; the failures,
/// joined by `; `, become the status line and are handed back.
pub open spec fn refresh_applied(
    before: RepoState,
    after: RepoState,
    worktree_before: WorktreeState,
    worktree_state: WorktreeState,
    commit_before: CommitState,
    commit_state: CommitState,
    status_before: StatusMessage,
    status_after: StatusMessage,
    reads: RefreshReads,
    r: Option<String>,
) -> bool {
    &&& after.has_origin_remote == reads.has_origin_remote
    &&& after.has_github_origin == reads.has_github_origin
    &&& after.has_github_https_origin == reads.has_github_https_origin
    &&& after.outgoing_commit_count == match reads.outgoing_commit_count {
        Ok(n) => n,
        Err(_) => 0,
    }
    &&& after.branch@ == match reads.current_branch {
        Ok(b) => b@,
        Err(_) => Seq::<char>::empty(),
    }
    &&& after.branches@ == match reads.branches {
        Ok(b) => b@,
        Err(_) => Seq::<String>::empty(),
    }
    &&& after.remote_branches@ == match reads.remote_branches {
        Ok(b) => b@,
        Err(_) => Seq::<String>::empty(),
    }
    &&& after.linked_worktrees@ == match reads.linked_worktrees {
        Ok(w) => w@,
        Err(_) => Seq::<LinkedWorktree>::empty(),
    }
    &&& after.commit_history@ == match reads.commit_history {
        Ok(h) => h@,
        Err(_) => Seq::<crate::git::CommitEntry>::empty(),
    }
    &&& match reads.worktree_metadata {
        Ok(m) => after.worktree_metadata == m,
        Err(_) => after.worktree_metadata.wf() && after.worktree_metadata.keys().len() == 0,
    }
    &&& match reads.file_statuses {
        Ok((unstaged, staged)) => worktree_state.unstaged == unstaged && worktree_state.staged == staged
            && crate::commit_rules::inferred_scopes_ok(
            crate::commit_rules::default_scope(
                crate::sync::opt_text(before.path),
                crate::sync::opt_text(reads.manifest),
            ),
            refresh_scope_paths(reads),
            crate::text::strs(commit_state.inferred_commit_scopes@),
        ),
        Err(_) => commit_state.inferred_commit_scopes@.len() == 0 && worktree_state.unstaged
            == worktree_before.unstaged && worktree_state.staged == worktree_before.staged,
    }
    &&& commit_state.commit_summary == commit_before.commit_summary
    &&& commit_state.commit_body == commit_before.commit_body
    &&& commit_state.focus_commit_summary_requested == commit_before.focus_commit_summary_requested
    &&& after.pull_request_prompt == (if prompt_still_applies(
        RepoState { pull_request_prompt: before.pull_request_prompt, ..after },
    ) {
        before.pull_request_prompt
    } else {
        None
    })
    &&& after.path == before.path
    &&& refresh_failures(reads).len() == 0 ==> r is None && status_after == status_before
    &&& refresh_failures(reads).len() > 0 ==> (r matches Some(d) && d@ == crate::text::join(
        refresh_failures(reads),
        "; "@,
    ) && status_after.shown() == failure_text("Refresh"@, d@) && status_after.severity()
        == StatusLevel::Error)
}

/// Takes in what a refresh read, as `refresh_applied` says.
pub fn apply_refresh(
    repo_state: &mut RepoState,
    worktree_state: &mut WorktreeState,
    commit_state: &mut CommitState,
    status: &mut StatusMessage,
    reads: RefreshReads,
) -> (r: Option<String>)
    requires
        forall|i: int|
            0 <= i < refresh_scope_paths(reads).len() ==> crate::commit_rules::scope_defined(
                #[trigger] refresh_scope_paths(reads)[i],
            ),
    ensures
        refresh_applied(
            *old(repo_state),
            *final(repo_state),
            *old(worktree_state),
            *final(worktree_state),
            *old(commit_state),
            *final(commit_state),
            *old(status),
            *final(status),
            reads,
            r,
        ),
{
    let ghost failures = refresh_failures(reads);
    let mut errors: Vec<Vec<char>> = Vec::new();
    repo_state.has_origin_remote = reads.has_origin_remote;
    repo_state.has_github_origin = reads.has_github_origin;
    repo_state.has_github_https_origin = reads.has_github_https_origin;
    take_read(&mut repo_state.outgoing_commit_count, reads.outgoing_commit_count, 0, &mut errors, "outgoing commit count");
    assert(refresh_scope_paths(reads) == status_scope_paths(reads.file_statuses));
    take_file_statuses(&repo_state.path, &reads.manifest, worktree_state, commit_state, reads.file_statuses, &mut errors);
    take_read(&mut repo_state.branch, reads.current_branch, String::new(), &mut errors, "current branch");
    take_read(&mut repo_state.branches, reads.branches, Vec::new(), &mut errors, "branches");
    take_read(&mut repo_state.remote_branches, reads.remote_branches, Vec::new(), &mut errors, "remote branches");
    take_read(&mut repo_state.commit_history, reads.commit_history, Vec::new(), &mut errors, "commit history");
    take_read(&mut repo_state.linked_worktrees, reads.linked_worktrees, Vec::new(), &mut errors, "worktrees");
    take_read(&mut repo_state.worktree_metadata, reads.worktree_metadata, TextMap::new(), &mut errors, "worktree metadata");
    assert(crate::text::texts(errors@) =~= failures);
    sync_pull_request_prompt(repo_state);
    if errors.len() == 0 {
        None
    } else {
        let detail = string_of(crate::text::join_chars(&errors, lit("; ").as_slice()).as_slice());
        *status = status_message_for_error("Refresh", detail.as_str());
        Some(detail)
    }
}

/// A whole refresh of a tab: takes in the reads, then brings the inspector in
/// line with what they found, the open file first, then the open commit,
/// review and picked worktree. Answers the failures for the log, the file to
/// read again if any, and whether a worktree is still picked, whose totals
/// the caller reads again.
pub fn refresh_tab(
    repo_state: &mut RepoState,
    worktree_state: &mut WorktreeState,
    commit_state: &mut CommitState,
    inspector: &mut crate::inspector::InspectorState,
    status: &mut StatusMessage,
    reads: RefreshReads,
) -> (r: (Option<String>, Option<crate::inspector::FileReload>, bool))
    requires
        forall|i: int|
            0 <= i < refresh_scope_paths(reads).len() ==> crate::commit_rules::scope_defined(
                #[trigger] refresh_scope_paths(reads)[i],
            ),
    ensures
        refresh_applied(
            *old(repo_state),
            *final(repo_state),
            *old(worktree_state),
            *final(worktree_state),
            *old(commit_state),
            *final(commit_state),
            *old(status),
            *final(status),
            reads,
            r.0,
        ),
        crate::inspector::file_synced(
            *final(worktree_state),
            *old(inspector),
            (crate::inspector::InspectorState {
                selected_commit: old(inspector).selected_commit,
                selected_review: old(inspector).selected_review,
                selected_worktree: old(inspector).selected_worktree,
                ..*final(inspector)
            }),
            r.1,
        ),
        *final(inspector) == crate::inspector::selections_synced(
            *final(repo_state),
            (crate::inspector::InspectorState {
                selected_commit: old(inspector).selected_commit,
                selected_review: old(inspector).selected_review,
                selected_worktree: old(inspector).selected_worktree,
                ..*final(inspector)
            }),
        ),
        r.2 == final(inspector).selected_worktree is Some,
{
    let failures = apply_refresh(repo_state, worktree_state, commit_state, status, reads);
    let reload = crate::inspector::sync_selected_file(worktree_state, inspector);
    crate::inspector::sync_selected_commit(repo_state, inspector);
    crate::inspector::sync_selected_review(repo_state, inspector);
    let still_picked = crate::inspector::sync_selected_worktree(repo_state, inspector);
    (failures, reload, still_picked)
}

} // verus!

verus! {

/// The window's own dialogs, which sit above every tab.
#[derive(Debug)]
pub struct AppOverlays {
    pub show_log_viewer: bool,
    /// The sign-in code on screen while GitHub waits for the user.
    pub github_auth_prompt: Option<crate::github::GithubAuthPrompt>,
    pub settings_open: bool,
    pub settings_focus_requested: bool,
    pub publish_open: bool,
    pub publish_focus_requested: bool,
}

/// Whether a tab's dialog is open.
pub open spec fn tab_dialog_open(d: crate::state::DialogState) -> bool {
    d.branch.show_create_branch_dialog || d.branch.show_create_branch_confirm
        || d.tag.show_create_tag_dialog || d.cleanup.show_cleanup_branches_dialog
        || d.discard.show_discard_dialog
}

/// Whether any dialog is open: one of the window's, or one of the active
/// tab's when there is a tab.
pub fn any_dialog_open(overlays: &AppOverlays, tab: Option<&crate::state::DialogState>) -> (r: bool)
    ensures
        r == (overlays.publish_open || overlays.settings_open || overlays.github_auth_prompt is Some
            || overlays.show_log_viewer || match tab {
            Some(d) => tab_dialog_open(*d),
            None => false,
        }),
{
    if overlays.publish_open || overlays.settings_open || overlays.github_auth_prompt.is_some()
        || overlays.show_log_viewer {
        return true;
    }
    match tab {
        None => false,
        Some(d) => d.branch.show_create_branch_dialog || d.branch.show_create_branch_confirm
            || d.tag.show_create_tag_dialog || d.cleanup.show_cleanup_branches_dialog
            || d.discard.show_discard_dialog,
    }
}

/// Which dialog Escape closes: the log viewer, then the sign-in prompt, then
/// the active tab's topmost dialog, then settings, then the publish form
/// (not while the app's worker runs). 0 to 4 name the window's, 10 the tab's.
pub open spec fn topmost_overlay(o: AppOverlays, tab: Option<(crate::state::DialogState, Option<crate::state::BusyAction>)>, welcome_busy: bool) -> Option<int> {
    if o.show_log_viewer {
        Some(0)
    } else if o.github_auth_prompt is Some {
        Some(1)
    } else if tab matches Some((d, busy)) && topmost_dialog(d, busy) is Some {
        Some(10)
    } else if o.settings_open {
        Some(2)
    } else if o.publish_open && !welcome_busy {
        Some(3)
    } else {
        None
    }
}

/// Closes the topmost dialog, window-level or the active tab's; `false` when
/// none could be closed. `tab_dialogs` and `tab_busy` describe the active
/// tab and are left alone when `has_tab` is false.
pub fn close_topmost_dialog(
    overlays: &mut AppOverlays,
    has_tab: bool,
    tab_dialogs: &mut crate::state::DialogState,
    tab_busy: Option<crate::state::BusyAction>,
    welcome_busy: bool,
) -> (r: bool)
    ensures
        ({
            let top = topmost_overlay(
                *old(overlays),
                if has_tab { Some((*old(tab_dialogs), tab_busy)) } else { None },
                welcome_busy,
            );
            &&& r == top is Some
            &&& top != Some(10int) ==> *final(tab_dialogs) == *old(tab_dialogs)
            &&& top == Some(10int) ==> closes_topmost(*old(tab_dialogs), *final(tab_dialogs), tab_busy)
            &&& top == Some(10int) ==> *final(overlays) == *old(overlays)
            &&& top is None ==> *final(overlays) == *old(overlays)
            &&& top == Some(0int) ==> *final(overlays) == (AppOverlays { show_log_viewer: false, ..*old(overlays) })
            &&& top == Some(1int) ==> *final(overlays) == (AppOverlays { github_auth_prompt: None, ..*old(overlays) })
            &&& top == Some(2int) ==> *final(overlays) == (AppOverlays {
                settings_open: false,
                settings_focus_requested: false,
                ..*old(overlays)
            })
            &&& top == Some(3int) ==> *final(overlays) == (AppOverlays {
                publish_open: false,
                publish_focus_requested: false,
                ..*old(overlays)
            })
        }),
        has_tab && topmost_overlay(*old(overlays), Some((*old(tab_dialogs), tab_busy)), welcome_busy) == Some(10int)
            ==> topmost_dialog(*old(tab_dialogs), tab_busy) is Some,
{
    if overlays.show_log_viewer {
        overlays.show_log_viewer = false;
        return true;
    }
    if overlays.github_auth_prompt.is_some() {
        overlays.github_auth_prompt = None;
        return true;
    }
    if has_tab && close_topmost_tab_dialog(tab_dialogs, tab_busy) {
        return true;
    }
    if overlays.settings_open {
        overlays.settings_open = false;
        overlays.settings_focus_requested = false;
        return true;
    }
    if overlays.publish_open && !welcome_busy {
        overlays.publish_open = false;
        overlays.publish_focus_requested = false;
        return true;
    }
    false
}

} // verus!
