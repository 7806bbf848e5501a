//! What a repository tab holds between frames: the repository's facts, the
//! working tree's file lists, the open selections, the dialogs' drafts and
//! the status line.

use vstd::prelude::*;

use crate::conflicts::ConflictData;
use crate::diff::{
    diff_rows_spec, parse_diff_rows, row_view, rows_view, side_by_side_spec, to_side_by_side,
    entries_view, DiffLineKind, ParsedDiffLine, SideBySideEntry, EntryView,
};
use crate::git::{CommitEntry, CreateBranchPreview, DiscardPreview, FileEntry, StaleBranch};
use crate::github::PullRequestPrompt;
use crate::metadata_store::WorktreeMetadataMap;
use crate::review::{ReviewBase, ReviewSummary};
use crate::text::{chars_of, lit, string_of, trim, trim_chars, trim_end, trim_end_chars};
use crate::text_map::TextMap;
use crate::worktree_metadata::{key_of, storage_key, ReviewState, TestState, WorktreeMetadata};
use crate::worktrees::{LinkedWorktree, NewWorktreeRequest};

verus! {

/// The file open in the diff view.
#[derive(Clone, Debug)]
pub struct SelectedFile {
    pub path: String,
    pub staged: bool,
}

/// How many of `rows` are of `kind`.
pub open spec fn kind_count(rows: Seq<(Option<usize>, Option<usize>, DiffLineKind, Seq<char>)>, kind: DiffLineKind) -> nat
    decreases rows.len(),
{
    if rows.len() == 0 {
        0
    } else {
        kind_count(rows.drop_last(), kind) + if rows.last().2 == kind {
            1nat
        } else {
            0nat
        }
    }
}

fn count_kind(rows: &Vec<ParsedDiffLine>, kind: DiffLineKind) -> (r: usize)
    ensures
        r == kind_count(rows_view(rows@), kind),
{
    let n = rows.len();
    let mut c: usize = 0;
    let mut i: usize = 0;
    while i < n
        invariant
            n == rows@.len(),
            0 <= i <= n,
            c <= i,
            c == kind_count(rows_view(rows@).take(i as int), kind),
        decreases n - i,
    {
        assert(rows_view(rows@).take(i + 1).drop_last() =~= rows_view(rows@).take(i as int));
        if rows[i].kind == kind {
            c = c + 1;
        }
        i = i + 1;
    }
    assert(rows_view(rows@).take(n as int) =~= rows_view(rows@));
    c
}

/// A working-tree patch parsed once per selection: the rows and the tallies
/// the header shows.
#[derive(Debug)]
pub struct ParsedDiff {
    pub rows: Vec<ParsedDiffLine>,
    pub added_lines: usize,
    pub removed_lines: usize,
}

impl Default for ParsedDiff {
    fn default() -> (r: ParsedDiff)
        ensures
            r.rows@.len() == 0 && r.added_lines == 0 && r.removed_lines == 0,
    {
        ParsedDiff { rows: Vec::new(), added_lines: 0, removed_lines: 0 }
    }
}

impl ParsedDiff {
    /// Parses a patch and tallies its added and removed lines.
    pub fn from_patch(content: &str) -> (r: ParsedDiff)
        ensures
            rows_view(r.rows@) == diff_rows_spec(content@),
            r.added_lines == kind_count(diff_rows_spec(content@), DiffLineKind::Added),
            r.removed_lines == kind_count(diff_rows_spec(content@), DiffLineKind::Removed),
    {
        let rows = parse_diff_rows(content);
        let added_lines = count_kind(&rows, DiffLineKind::Added);
        let removed_lines = count_kind(&rows, DiffLineKind::Removed);
        ParsedDiff { rows, added_lines, removed_lines }
    }
}

/// The rows of a patch without its file-header lines.
pub open spec fn without_file_headers(rows: Seq<(Option<usize>, Option<usize>, DiffLineKind, Seq<char>)>) -> Seq<(Option<usize>, Option<usize>, DiffLineKind, Seq<char>)>
    decreases rows.len(),
{
    if rows.len() == 0 {
        rows
    } else if rows.last().2 == DiffLineKind::FileHeader {
        without_file_headers(rows.drop_last())
    } else {
        without_file_headers(rows.drop_last()).push(rows.last())
    }
}

/// A patch as the read-only inspectors show it: its rows paired side by side
/// from the first hunk on (the file's preamble is in the view's header
/// already), with its added and removed line counts.
pub fn patch_entries(diff_content: &str) -> (r: (Vec<SideBySideEntry>, usize, usize))
    ensures
        entries_view(r.0@) == side_by_side_spec(without_file_headers(diff_rows_spec(diff_content@))),
        r.1 == kind_count(diff_rows_spec(diff_content@), DiffLineKind::Added),
        r.2 == kind_count(diff_rows_spec(diff_content@), DiffLineKind::Removed),
{
    let parsed = ParsedDiff::from_patch(diff_content);
    let rows = parsed.rows;
    let ghost rv = rows_view(rows@);
    let n = rows.len();
    let mut kept: Vec<ParsedDiffLine> = Vec::new();
    let mut i: usize = 0;
    assert(rows_view(kept@) =~= without_file_headers(rv.take(0)));
    while i < n
        invariant
            n == rows@.len(),
            rv == rows_view(rows@),
            0 <= i <= n,
            rows_view(kept@) == without_file_headers(rv.take(i as int)),
        decreases n - i,
    {
        assert(rv.take(i + 1).drop_last() =~= rv.take(i as int));
        assert(rv.take(i + 1).last() == row_view(rows@[i as int]));
        if rows[i].kind != DiffLineKind::FileHeader {
            let ghost before = kept@;
            kept.push(rows[i].duplicate());
            assert(rows_view(kept@) =~= rows_view(before).push(row_view(rows@[i as int])));
        }
        i = i + 1;
    }
    assert(rv.take(n as int) =~= rv);
    let entries = to_side_by_side(kept.as_slice());
    (entries, parsed.added_lines, parsed.removed_lines)
}

} // verus!

verus! {

/// The worktree picked in the Agents view or the sidebar. Holds its identity
/// and only what needs its repository opened to work out; the rest is read
/// from the live list.
#[derive(Debug)]
pub struct SelectedWorktree {
    /// Its storage key: the metadata key and the reconciliation key in one.
    pub storage_key: String,
    /// Git's own name for it, for messages.
    pub worktree_name: String,
    /// The checkout's own directory.
    pub path: String,
    /// `None` when the base could not be resolved; `load_error` says why.
    pub base: Option<ReviewBase>,
    pub summary: Option<ReviewSummary>,
    /// Why the base or the totals could not be read.
    pub load_error: Option<String>,
}

impl SelectedWorktree {
    /// Records why this worktree could not be read, keeping the selection,
    /// and hands the detail back for the log.
    pub fn record_failure(&mut self, display: String, detail: String) -> (r: String)
        ensures
            final(self).load_error == Some(display),
            final(self).storage_key == old(self).storage_key,
            final(self).worktree_name == old(self).worktree_name,
            final(self).path == old(self).path,
            final(self).base == old(self).base,
            final(self).summary == old(self).summary,
            r == detail,
    {
        self.load_error = Some(display);
        detail
    }
}

/// What the centre of the window shows.
#[derive(Clone, Copy, Debug, PartialEq, Eq, Structural)]
pub enum CenterView {
    Diff,
    History,
    Review,
    Agents,
}

impl Default for CenterView {
    fn default() -> (r: CenterView)
        ensures
            r == CenterView::Diff,
    {
        CenterView::Diff
    }
}

/// A file being dragged between the staged and unstaged lists.
#[derive(Clone, Debug)]
pub struct DragFile {
    pub path: String,
    pub from_staged: bool,
}

/// How much attention a status message deserves.
#[derive(Clone, Copy, Debug, PartialEq, Eq, Structural)]
pub enum StatusLevel {
    Info,
    Success,
    Error,
}

impl Default for StatusLevel {
    fn default() -> (r: StatusLevel)
        ensures
            r == StatusLevel::Info,
    {
        StatusLevel::Info
    }
}

/// The one-line message in the bottom bar, with its severity: every writer
/// states the severity it means.
#[derive(Clone, Debug)]
pub struct StatusMessage {
    text: String,
    level: StatusLevel,
}

impl StatusMessage {
    pub closed spec fn shown(&self) -> Seq<char> {
        self.text@
    }

    pub closed spec fn severity(&self) -> StatusLevel {
        self.level
    }

    pub fn info(text: &str) -> (r: StatusMessage)
        ensures
            r.shown() == text@,
            r.severity() == StatusLevel::Info,
    {
        StatusMessage { text: text.to_string(), level: StatusLevel::Info }
    }

    pub fn success(text: &str) -> (r: StatusMessage)
        ensures
            r.shown() == text@,
            r.severity() == StatusLevel::Success,
    {
        StatusMessage { text: text.to_string(), level: StatusLevel::Success }
    }

    pub fn error(text: &str) -> (r: StatusMessage)
        ensures
            r.shown() == text@,
            r.severity() == StatusLevel::Error,
    {
        StatusMessage { text: text.to_string(), level: StatusLevel::Error }
    }

    pub fn text(&self) -> (r: &str)
        ensures
            r@ == self.shown(),
    {
        self.text.as_str()
    }

    pub fn level(&self) -> (r: StatusLevel)
        ensures
            r == self.severity(),
    {
        self.level
    }
}

impl Default for StatusMessage {
    fn default() -> (r: StatusMessage)
        ensures
            r.shown().len() == 0,
            r.severity() == StatusLevel::Info,
    {
        StatusMessage { text: String::new(), level: StatusLevel::Info }
    }
}

/// The background operation a tab is waiting for.
#[derive(Clone, Copy, Debug, PartialEq, Eq, Structural)]
pub enum BusyAction {
    Push,
    Pull,
    CreateTag,
    OpenPullRequest,
    CreatePullRequest,
    DiscardAndReset,
    UndoLastCommit,
    CreateWorktree,
    RemoveWorktree,
    GithubSignIn,
    PublishRepository,
    CloneRepository,
}

#[derive(Clone, Debug)]
pub struct BusyState {
    pub action: BusyAction,
    pub label: String,
}

impl BusyState {
    pub fn new(action: BusyAction, label: &str) -> (r: BusyState)
        ensures
            r.action == action,
            r.label@ == label@,
    {
        BusyState { action, label: label.to_string() }
    }
}

/// What the tab knows about its repository.
pub struct RepoState {
    pub path: Option<String>,
    pub has_origin_remote: bool,
    pub has_github_origin: bool,
    pub has_github_https_origin: bool,
    pub branch: String,
    pub outgoing_commit_count: usize,
    pub branches: Vec<String>,
    pub remote_branches: Vec<String>,
    pub commit_history: Vec<CommitEntry>,
    pub pull_request_prompt: Option<PullRequestPrompt>,
    /// What the user recorded about the repository's worktrees, keyed by
    /// storage key; re-read on every refresh.
    pub worktree_metadata: WorktreeMetadataMap,
    /// Every checkout sharing the repository's object store, main tree first.
    pub linked_worktrees: Vec<LinkedWorktree>,
}

impl Default for RepoState {
    fn default() -> (r: RepoState)
        ensures
            r.path is None,
            !r.has_origin_remote && !r.has_github_origin && !r.has_github_https_origin,
            r.branch@.len() == 0,
            r.outgoing_commit_count == 0,
            r.branches@.len() == 0 && r.remote_branches@.len() == 0,
            r.commit_history@.len() == 0,
            r.pull_request_prompt is None,
            r.worktree_metadata.wf(),
            r.worktree_metadata.keys().len() == 0,
            r.linked_worktrees@.len() == 0,
    {
        RepoState {
            path: None,
            has_origin_remote: false,
            has_github_origin: false,
            has_github_https_origin: false,
            branch: String::new(),
            outgoing_commit_count: 0,
            branches: Vec::new(),
            remote_branches: Vec::new(),
            commit_history: Vec::new(),
            pull_request_prompt: None,
            worktree_metadata: TextMap::new(),
            linked_worktrees: Vec::new(),
        }
    }
}

/// The storage key of a listed worktree.
pub open spec fn worktree_key(w: LinkedWorktree) -> Seq<char> {
    key_of(w.is_main, w.name@)
}

impl RepoState {
    /// The listed worktree with this storage key, as the last refresh read
    /// it: the first one in list order.
    pub fn worktree_by_key(&self, key: &str) -> (r: Option<&LinkedWorktree>)
        ensures
            match r {
                Some(w) => exists|i: int|
                    0 <= i < self.linked_worktrees@.len() && self.linked_worktrees@[i] == *w
                        && worktree_key(*w) == key@ && forall|j: int|
                        0 <= j < i ==> worktree_key(#[trigger] self.linked_worktrees@[j]) != key@,
                None => forall|j: int|
                    0 <= j < self.linked_worktrees@.len() ==> worktree_key(
                        #[trigger] self.linked_worktrees@[j],
                    ) != key@,
            },
    {
        let k = chars_of(key);
        let n = self.linked_worktrees.len();
        let mut i: usize = 0;
        while i < n
            invariant
                n == self.linked_worktrees@.len(),
                k@ == key@,
                0 <= i <= n,
                forall|j: int| 0 <= j < i ==> worktree_key(#[trigger] self.linked_worktrees@[j]) != key@,
            decreases n - i,
        {
            let sk = storage_key(&self.linked_worktrees[i]);
            if crate::text::seq_eq(chars_of(sk.as_str()).as_slice(), k.as_slice()) {
                return Some(&self.linked_worktrees[i]);
            }
            i = i + 1;
        }
        None
    }
}

/// The staged and unstaged file lists of the tab's checkout.
#[derive(Debug)]
pub struct WorktreeState {
    pub unstaged: Vec<FileEntry>,
    pub staged: Vec<FileEntry>,
}

impl Default for WorktreeState {
    fn default() -> (r: WorktreeState)
        ensures
            r.unstaged@.len() == 0 && r.staged@.len() == 0,
    {
        WorktreeState { unstaged: Vec::new(), staged: Vec::new() }
    }
}

/// Draft text of one conflict being edited by hand.
#[derive(Clone, Debug)]
pub struct ConflictEdit {
    pub index: usize,
    pub buffer: String,
}

/// The commit form.
#[derive(Debug, Default)]
pub struct CommitState {
    pub inferred_commit_scopes: Vec<String>,
    pub commit_summary: String,
    pub commit_body: String,
    pub focus_commit_summary_requested: bool,
}

#[derive(Debug, Default)]
pub struct BranchDialogState {
    pub new_branch_name: String,
    pub focus_new_branch_name_requested: bool,
    pub show_create_branch_dialog: bool,
    pub show_create_branch_confirm: bool,
    pub create_branch_preview: Option<CreateBranchPreview>,
    pub pending_new_branch_name: Option<String>,
}

#[derive(Debug, Default)]
pub struct TagDialogState {
    pub new_tag_name: String,
    pub focus_new_tag_name_requested: bool,
    pub show_create_tag_dialog: bool,
}

#[derive(Debug, Default)]
pub struct CleanupBranchesDialogState {
    pub stale_branches: Vec<StaleBranch>,
    pub show_cleanup_branches_dialog: bool,
}

#[derive(Debug, Default)]
pub struct DiscardDialogState {
    pub show_discard_dialog: bool,
    pub discard_preview: Option<DiscardPreview>,
    pub discard_clean_untracked: bool,
}

/// Draft state of the New Worktree form and of the removal confirmation.
#[derive(Debug, Default)]
pub struct WorktreeDialogState {
    pub show_new_worktree_dialog: bool,
    pub name: String,
    pub branch: String,
    /// `None` means "branch from the current HEAD".
    pub base_branch: Option<String>,
    pub path: String,
    /// Folder new worktrees are proposed inside.
    pub path_parent: String,
    pub focus_name_requested: bool,
    /// Whether `branch` and `path` still mirror the name as it is typed.
    pub branch_follows_name: bool,
    pub path_follows_name: bool,
    /// The worktree awaiting removal confirmation, while the dialog is open.
    pub pending_remove: Option<LinkedWorktree>,
}

impl WorktreeDialogState {
    /// What the form asks for, its text fields trimmed.
    pub fn request(&self) -> (r: NewWorktreeRequest)
        ensures
            r.name@ == trim(self.name@),
            r.branch@ == trim(self.branch@),
            r.base_branch == self.base_branch,
            r.path@ == trim(self.path@),
    {
        NewWorktreeRequest {
            name: string_of(trim_chars(chars_of(self.name.as_str()).as_slice()).as_slice()),
            branch: string_of(trim_chars(chars_of(self.branch.as_str()).as_slice()).as_slice()),
            base_branch: match &self.base_branch {
                Some(b) => Some(b.clone()),
                None => None,
            },
            path: string_of(trim_chars(chars_of(self.path.as_str()).as_slice()).as_slice()),
        }
    }
}

/// Draft state of the worktree metadata form; open while `editing` names the
/// worktree.
#[derive(Debug)]
pub struct WorktreeMetadataDialogState {
    pub editing: Option<String>,
    /// The storage key captured when the dialog opened, so the write cannot
    /// drift onto another worktree.
    pub key: String,
    /// Why the last save failed.
    pub save_error: Option<String>,
    pub task: String,
    pub agent: String,
    pub notes: String,
    /// Shown read-only: the app records it when it creates a worktree.
    pub base_commit: String,
    /// Shown read-only, and carried through a save.
    pub started: i64,
    pub review: ReviewState,
    pub test: TestState,
    pub focus_task_requested: bool,
}

impl Default for WorktreeMetadataDialogState {
    fn default() -> (r: WorktreeMetadataDialogState)
        ensures
            r.editing is None,
            r.key@.len() == 0,
            r.save_error is None,
            r.task@.len() == 0 && r.agent@.len() == 0 && r.notes@.len() == 0,
            r.base_commit@.len() == 0,
            r.started == 0,
            r.review == ReviewState::Unreviewed,
            r.test == TestState::Unknown,
            !r.focus_task_requested,
    {
        WorktreeMetadataDialogState {
            editing: None,
            key: String::new(),
            save_error: None,
            task: String::new(),
            agent: String::new(),
            notes: String::new(),
            base_commit: String::new(),
            started: 0,
            review: ReviewState::Unreviewed,
            test: TestState::Unknown,
            focus_task_requested: false,
        }
    }
}

impl WorktreeMetadataDialogState {
    /// Fills the form from a worktree's stored metadata.
    pub fn open(&mut self, name: &str, metadata: &WorktreeMetadata)
        ensures
            final(self).editing matches Some(e) && e@ == name@,
            final(self).key == old(self).key,
            final(self).save_error is None,
            final(self).task == metadata.task,
            final(self).agent == metadata.agent,
            final(self).notes == metadata.notes,
            final(self).base_commit == metadata.base_commit,
            final(self).started == metadata.started,
            final(self).review == metadata.review,
            final(self).test == metadata.test,
            final(self).focus_task_requested,
    {
        self.editing = Some(name.to_string());
        self.save_error = None;
        self.task = metadata.task.clone();
        self.agent = metadata.agent.clone();
        self.notes = metadata.notes.clone();
        self.base_commit = metadata.base_commit.clone();
        self.started = metadata.started;
        self.review = metadata.review;
        self.test = metadata.test;
        self.focus_task_requested = true;
    }

    /// What the form describes: task and agent trimmed, notes losing only
    /// their trailing whitespace, and the fields the form cannot edit carried
    /// through.
    pub fn metadata(&self) -> (r: WorktreeMetadata)
        ensures
            r.task@ == trim(self.task@),
            r.agent@ == trim(self.agent@),
            r.notes@ == trim_end(self.notes@),
            r.base_commit == self.base_commit,
            r.started == self.started,
            r.review == self.review,
            r.test == self.test,
    {
        WorktreeMetadata {
            task: string_of(trim_chars(chars_of(self.task.as_str()).as_slice()).as_slice()),
            agent: string_of(trim_chars(chars_of(self.agent.as_str()).as_slice()).as_slice()),
            notes: string_of(trim_end_chars(chars_of(self.notes.as_str()).as_slice()).as_slice()),
            base_commit: self.base_commit.clone(),
            started: self.started,
            review: self.review,
            test: self.test,
        }
    }
}

/// Saving the metadata form unedited, right after it was opened on what an
/// earlier save produced, stores exactly what it showed: the trimming a save
/// does is already done.
pub proof fn law_unedited_form_saves_what_it_showed(saved: WorktreeMetadata, form: WorktreeMetadataDialogState)
    requires
        exists|x: Seq<char>| saved.task@ == trim(x),
        exists|x: Seq<char>| saved.agent@ == trim(x),
        exists|x: Seq<char>| saved.notes@ == trim_end(x),
        form.task == saved.task,
        form.agent == saved.agent,
        form.notes == saved.notes,
    ensures
        trim(form.task@) == saved.task@,
        trim(form.agent@) == saved.agent@,
        trim_end(form.notes@) == saved.notes@,
{
    let x = choose|x: Seq<char>| saved.task@ == trim(x);
    crate::text::lemma_trim_idempotent(x);
    let y = choose|x: Seq<char>| saved.agent@ == trim(x);
    crate::text::lemma_trim_idempotent(y);
    let z = choose|x: Seq<char>| saved.notes@ == trim_end(x);
    crate::text::lemma_trim_end_idempotent(z);
}

/// Every dialog's draft state.
#[derive(Debug, Default)]
pub struct DialogState {
    pub branch: BranchDialogState,
    pub tag: TagDialogState,
    pub cleanup: CleanupBranchesDialogState,
    pub discard: DiscardDialogState,
    pub worktree: WorktreeDialogState,
    pub worktree_metadata: WorktreeMetadataDialogState,
}

/// Why a conflict resolution may not be saved yet, if it may not: an open
/// draft, or a conflict still unresolved.
pub open spec fn save_blocker(editing: bool, unresolved: Option<nat>) -> Option<Seq<char>> {
    if editing {
        Some("Apply or cancel your edit before saving."@)
    } else {
        match unresolved {
            None => Some("Resolve every conflict before saving."@),
            Some(n) => if n > 0 {
                Some("Resolve every conflict before saving."@)
            } else {
                None
            },
        }
    }
}

/// Shared by the save control and the action that saves, so a queued action
/// cannot write an earlier resolution while a draft is still being edited.
pub fn resolution_save_error(editing: bool, conflict: Option<&ConflictData>) -> (r: Option<&'static str>)
    ensures
        match save_blocker(
            editing,
            match conflict {
                Some(d) => Some(
                    crate::conflicts::unresolved_upto(d.parts(), d.parts().len() as int),
                ),
                None => None,
            },
        ) {
            Some(m) => r is Some && r->0@ == m,
            None => r is None,
        },
{
    if editing {
        return Some("Apply or cancel your edit before saving.");
    }
    match conflict {
        None => Some("Resolve every conflict before saving."),
        Some(d) => if d.unresolved_count() > 0 {
            Some("Resolve every conflict before saving.")
        } else {
            None
        },
    }
}

} // verus!
