//! The inspector: the file, commit, review or worktree the user has open,
//! and what a refresh keeps of it. Reading patches and repositories is the
//! caller's; every choice about what stays open, what is dropped and what has
//! to be read again is made here.

use vstd::prelude::*;

use crate::conflicts::ConflictData;
use crate::diff::{diff_rows_spec, entries_view, side_by_side_spec, DiffLineKind, SideBySideEntry};
use crate::git::{CommitFileChange, FileEntry};
use crate::review::{ReviewBase, ReviewSummary};
use crate::state::{
    kind_count, patch_entries, save_blocker, without_file_headers, CenterView, ConflictEdit, DragFile,
    ParsedDiff, RepoState, SelectedFile, SelectedWorktree, WorktreeState,
};
use crate::diff::rows_view;
use crate::text::{chars_of, lit, push_all, seq_eq, string_of};
use crate::worktrees::LinkedWorktree;

verus! {

/// A set of changed files with one of them open, as the read-only commit and
/// review views show it. The scroll offset of its panes belongs to the window
/// and is kept there.
#[derive(Debug)]
pub struct ChangeSet {
    pub files: Vec<CommitFileChange>,
    pub selected_path: Option<String>,
    pub diff_content: String,
    /// `diff_content` parsed and paired for the side-by-side panes.
    pub diff_entries: Vec<SideBySideEntry>,
    pub added_lines: usize,
    pub removed_lines: usize,
    /// Why the file list could not be read: an empty `files` alone would look
    /// like a change set with nothing in it.
    pub load_error: Option<String>,
}

impl Default for ChangeSet {
    fn default() -> (r: ChangeSet)
        ensures
            r.files@.len() == 0,
            r.selected_path is None,
            r.diff_content@.len() == 0,
            r.diff_entries@.len() == 0,
            r.added_lines == 0,
            r.removed_lines == 0,
            r.load_error is None,
    {
        ChangeSet {
            files: Vec::new(),
            selected_path: None,
            diff_content: String::new(),
            diff_entries: Vec::new(),
            added_lines: 0,
            removed_lines: 0,
            load_error: None,
        }
    }
}

impl ChangeSet {
    /// Opens one file's patch: parsed, paired from its first hunk on, and
    /// tallied.
    pub fn set_patch(&mut self, path: String, diff_content: String)
        ensures
            final(self).selected_path == Some(path),
            final(self).diff_content == diff_content,
            entries_view(final(self).diff_entries@) == side_by_side_spec(
                without_file_headers(diff_rows_spec(diff_content@)),
            ),
            final(self).added_lines == kind_count(diff_rows_spec(diff_content@), DiffLineKind::Added),
            final(self).removed_lines == kind_count(diff_rows_spec(diff_content@), DiffLineKind::Removed),
            final(self).files == old(self).files,
            final(self).load_error == old(self).load_error,
    {
        let (entries, added, removed) = patch_entries(diff_content.as_str());
        self.diff_entries = entries;
        self.added_lines = added;
        self.removed_lines = removed;
        self.diff_content = diff_content;
        self.selected_path = Some(path);
    }

    /// Records a file list, keeping a failed read apart from an empty list;
    /// hands the failure back for the log.
    pub fn fill_files(&mut self, result: Result<Vec<CommitFileChange>, String>) -> (r: Option<String>)
        ensures
            match result {
                Ok(files) => r is None && *final(self) == (ChangeSet { files, ..*old(self) }),
                Err(e) => r == Some(e) && *final(self) == (ChangeSet { load_error: Some(e), ..*old(self) }),
            },
    {
        match result {
            Ok(files) => {
                self.files = files;
                None
            },
            Err(e) => {
                self.load_error = Some(e.clone());
                Some(e)
            },
        }
    }
}

/// The commit open in the History tab's read-only view.
#[derive(Debug)]
pub struct SelectedCommit {
    pub oid: String,
    pub short_oid: String,
    pub summary: String,
    pub author: String,
    pub time: String,
    pub changes: ChangeSet,
}

/// The worktree open in the Review tab.
#[derive(Debug)]
pub struct SelectedReview {
    pub worktree_name: String,
    /// Its storage key: what a refresh reconciles it by.
    pub storage_key: String,
    /// The checkout's own directory, reopened for each patch.
    pub worktree_path: String,
    pub branch: Option<String>,
    pub base: ReviewBase,
    /// How many of its files are still uncommitted, from its listed status.
    pub uncommitted: usize,
    pub changes: ChangeSet,
}

/// What the inspector has open. The merge editor's scroll offset belongs to
/// the window and is kept there.
#[derive(Debug)]
pub struct InspectorState {
    pub selected_file: Option<SelectedFile>,
    pub diff_content: String,
    /// `diff_content` parsed for the Changes tab; only `set_diff` and
    /// `clear_diff` change the two.
    pub parsed_diff: ParsedDiff,
    pub diff_wrap: bool,
    /// Text the file panel narrows both lists by.
    pub file_filter: String,
    pub center_view: CenterView,
    pub conflict_data: Option<ConflictData>,
    /// The conflict being edited by hand, with its draft text.
    pub conflict_edit: Option<ConflictEdit>,
    /// Ordinal of the conflict picked by Previous/Next.
    pub conflict_focus: usize,
    pub selected_commit: Option<SelectedCommit>,
    pub selected_review: Option<SelectedReview>,
    /// The worktree picked in the Agents view or the sidebar; independent of
    /// the review.
    pub selected_worktree: Option<SelectedWorktree>,
    pub dragging: Option<DragFile>,
}

impl Default for InspectorState {
    fn default() -> (r: InspectorState)
        ensures
            r.selected_file is None,
            r.diff_content@.len() == 0,
            r.parsed_diff.rows@.len() == 0,
            !r.diff_wrap,
            r.file_filter@.len() == 0,
            r.center_view == CenterView::Diff,
            r.conflict_data is None,
            r.conflict_edit is None,
            r.conflict_focus == 0,
            r.selected_commit is None,
            r.selected_review is None,
            r.selected_worktree is None,
            r.dragging is None,
    {
        InspectorState {
            selected_file: None,
            diff_content: String::new(),
            parsed_diff: ParsedDiff::default(),
            diff_wrap: false,
            file_filter: String::new(),
            center_view: CenterView::Diff,
            conflict_data: None,
            conflict_edit: None,
            conflict_focus: 0,
            selected_commit: None,
            selected_review: None,
            selected_worktree: None,
            dragging: None,
        }
    }
}

impl InspectorState {
    /// Replaces the working-tree patch and reparses it in the same move, so the
    /// two never disagree about what is on screen.
    pub fn set_diff(&mut self, content: String)
        ensures
            final(self).diff_content == content,
            rows_view(final(self).parsed_diff.rows@) == diff_rows_spec(content@),
            final(self).parsed_diff.added_lines == kind_count(diff_rows_spec(content@), DiffLineKind::Added),
            final(self).parsed_diff.removed_lines == kind_count(diff_rows_spec(content@), DiffLineKind::Removed),
            *final(self) == (InspectorState {
                diff_content: content,
                parsed_diff: final(self).parsed_diff,
                ..*old(self)
            }),
    {
        self.parsed_diff = ParsedDiff::from_patch(content.as_str());
        self.diff_content = content;
    }

    pub fn clear_diff(&mut self)
        ensures
            final(self).diff_content@.len() == 0,
            final(self).parsed_diff.rows@.len() == 0,
            final(self).parsed_diff.added_lines == 0,
            final(self).parsed_diff.removed_lines == 0,
            *final(self) == (InspectorState {
                diff_content: final(self).diff_content,
                parsed_diff: final(self).parsed_diff,
                ..*old(self)
            }),
    {
        self.diff_content = String::new();
        self.parsed_diff = ParsedDiff::default();
    }

    /// Sets or clears the open conflict, resetting the inline edit and the
    /// conflict focus so nothing carries over between files.
    pub fn set_conflict(&mut self, data: Option<ConflictData>)
        ensures
            *final(self) == (InspectorState {
                conflict_data: data,
                conflict_edit: None,
                conflict_focus: 0,
                ..*old(self)
            }),
    {
        self.conflict_data = data;
        self.conflict_edit = None;
        self.conflict_focus = 0;
    }

    /// Why the open resolution may not be saved yet, if it may not.
    pub fn resolution_save_error(&self) -> (r: Option<&'static str>)
        ensures
            match save_blocker(
                self.conflict_edit is Some,
                match self.conflict_data {
                    Some(d) => Some(crate::conflicts::unresolved_upto(d.parts(), d.parts().len() as int)),
                    None => None,
                },
            ) {
                Some(m) => r is Some && r->0@ == m,
                None => r is None,
            },
    {
        crate::state::resolution_save_error(self.conflict_edit.is_some(), self.conflict_data.as_ref())
    }

    /// Opens or closes the read-only commit view.
    pub fn set_commit(&mut self, commit: Option<SelectedCommit>)
        ensures
            *final(self) == (InspectorState { selected_commit: commit, ..*old(self) }),
    {
        self.selected_commit = commit;
    }

    /// Opens or closes the Review tab's view.
    pub fn set_review(&mut self, review: Option<SelectedReview>)
        ensures
            *final(self) == (InspectorState { selected_review: review, ..*old(self) }),
    {
        self.selected_review = review;
    }

    /// Picks or unpicks the worktree the Agents view and the sidebar follow.
    pub fn set_selected_worktree(&mut self, selected: Option<SelectedWorktree>)
        ensures
            *final(self) == (InspectorState { selected_worktree: selected, ..*old(self) }),
    {
        self.selected_worktree = selected;
    }

    /// The picked worktree's storage key.
    pub fn selected_worktree_key(&self) -> (r: Option<&str>)
        ensures
            match self.selected_worktree {
                Some(w) => r is Some && r->0@ == w.storage_key@,
                None => r is None,
            },
    {
        match &self.selected_worktree {
            Some(w) => Some(w.storage_key.as_str()),
            None => None,
        }
    }
}

} // verus!

verus! {

/// Whether a file list holds `path`.
pub open spec fn lists_path(v: Seq<FileEntry>, path: Seq<char>) -> bool {
    exists|i: int| 0 <= i < v.len() && (#[trigger] v[i]).path@ == path
}

/// Whether a file list holds `path` as a conflicted file.
pub open spec fn lists_conflict(v: Seq<FileEntry>, path: Seq<char>) -> bool {
    exists|i: int|
        0 <= i < v.len() && (#[trigger] v[i]).path@ == path && v[i].kind == crate::git::FileChangeKind::Conflicted
}

fn file_listed(v: &Vec<FileEntry>, path: &str, conflicted_only: bool) -> (r: bool)
    ensures
        r == if conflicted_only {
            lists_conflict(v@, path@)
        } else {
            lists_path(v@, path@)
        },
{
    let p = chars_of(path);
    let n = v.len();
    let mut i: usize = 0;
    while i < n
        invariant
            n == v@.len(),
            0 <= i <= n,
            p@ == path@,
            forall|k: int|
                0 <= k < i ==> !((#[trigger] v@[k]).path@ == path@ && (!conflicted_only || v@[k].kind
                    == crate::git::FileChangeKind::Conflicted)),
        decreases n - i,
    {
        if seq_eq(chars_of(v[i].path.as_str()).as_slice(), p.as_slice()) && (!conflicted_only || v[i].is_conflicted()) {
            return true;
        }
        i = i + 1;
    }
    false
}

/// Whether the file at `path` is conflicted in the working tree.
pub fn file_is_conflicted(worktree_state: &WorktreeState, path: &str) -> (r: bool)
    ensures
        r == lists_conflict(worktree_state.unstaged@, path@),
{
    file_listed(&worktree_state.unstaged, path, true)
}

/// The view state a change to the open file leaves alone.
pub open spec fn same_other_views(a: InspectorState, b: InspectorState) -> bool {
    &&& a.selected_commit == b.selected_commit
    &&& a.selected_review == b.selected_review
    &&& a.selected_worktree == b.selected_worktree
    &&& a.center_view == b.center_view
    &&& a.file_filter == b.file_filter
    &&& a.diff_wrap == b.diff_wrap
    &&& a.dragging == b.dragging
}

/// A file whose contents have to be read again after a refresh.
#[derive(Clone, Debug)]
pub struct FileReload {
    pub path: String,
    pub staged: bool,
}

/// Which list a reloaded file is shown from: the one it was picked in while
/// it is still there, otherwise the one it moved to.
pub open spec fn reload_side(was_staged: bool, in_staged: bool, in_unstaged: bool) -> bool {
    if was_staged && in_staged {
        true
    } else if !was_staged && in_unstaged {
        false
    } else {
        in_staged && !in_unstaged
    }
}

/// Whether the open conflict is the selected file and still conflicted: it
/// holds decisions that exist nowhere else and must survive a refresh.
pub open spec fn editing_conflict(ins: InspectorState, ws: WorktreeState, path: Seq<char>) -> bool {
    &&& ins.conflict_data matches Some(d)
    &&& d.path_text() == path
    &&& lists_conflict(ws.unstaged@, path)
}

/// What bringing the open file in line with a refreshed working tree does,
/// from `before` to `after`, answering `r`: a file gone from both lists is
/// closed, a conflict being resolved is kept as it is, and anything else is
/// handed back to be read again.
pub open spec fn file_synced(
    worktree_state: WorktreeState,
    before: InspectorState,
    after: InspectorState,
    r: Option<FileReload>,
) -> bool {
    match before.selected_file {
        None => r is None && after == (InspectorState {
            conflict_data: None,
            conflict_edit: None,
            conflict_focus: 0,
            ..before
        }),
        Some(sel) => {
            let in_u = lists_path(worktree_state.unstaged@, sel.path@);
            let in_s = lists_path(worktree_state.staged@, sel.path@);
            if !in_u && !in_s {
                &&& r is None
                &&& after.selected_file is None
                &&& after.diff_content@.len() == 0
                &&& after.parsed_diff.rows@.len() == 0
                &&& after.conflict_data is None
                &&& after.conflict_edit is None
                &&& same_other_views(after, before)
            } else if editing_conflict(before, worktree_state, sel.path@) {
                r is None && after == before
            } else {
                &&& r matches Some(f)
                &&& f.path == sel.path
                &&& f.staged == reload_side(sel.staged, in_s, in_u)
                &&& after == before
            }
        },
    }
}

/// Brings the open file in line with a refreshed working tree, as
/// `file_synced` says.
pub fn sync_selected_file(worktree_state: &WorktreeState, inspector: &mut InspectorState) -> (r: Option<FileReload>)
    ensures
        file_synced(*worktree_state, *old(inspector), *final(inspector), r),
{
    let (path, was_staged) = match &inspector.selected_file {
        None => {
            inspector.set_conflict(None);
            return None;
        },
        Some(sel) => (sel.path.clone(), sel.staged),
    };
    let in_unstaged = file_listed(&worktree_state.unstaged, path.as_str(), false);
    let in_staged = file_listed(&worktree_state.staged, path.as_str(), false);
    if !in_unstaged && !in_staged {
        inspector.selected_file = None;
        inspector.clear_diff();
        inspector.set_conflict(None);
        return None;
    }
    let open_here = match &inspector.conflict_data {
        Some(d) => seq_eq(chars_of(d.path_str()).as_slice(), chars_of(path.as_str()).as_slice()),
        None => false,
    };
    if open_here && file_listed(&worktree_state.unstaged, path.as_str(), true) {
        return None;
    }
    let staged = if was_staged && in_staged {
        true
    } else if !was_staged && in_unstaged {
        false
    } else {
        in_staged && !in_unstaged
    };
    Some(FileReload { path, staged })
}

/// `label` followed by `detail`.
fn prefixed(label: &str, detail: &str) -> (r: String)
    ensures
        r@ == label@ + detail@,
{
    let mut v = chars_of(label);
    push_all(&mut v, chars_of(detail).as_slice());
    string_of(v.as_slice())
}

/// Opens a conflicted file in the merge editor, given how reading its
/// conflict markers went.
pub fn show_conflict(inspector: &mut InspectorState, path: String, read: Result<ConflictData, String>)
    ensures
        final(inspector).selected_file == Some(SelectedFile { path, staged: false }),
        final(inspector).conflict_edit is None,
        match read {
            Ok(d) => final(inspector).conflict_data == Some(d) && final(inspector).diff_content@.len() == 0,
            Err(e) => final(inspector).conflict_data is None && final(inspector).diff_content@
                == "Error loading conflict data: "@ + e@,
        },
        same_other_views(*final(inspector), *old(inspector)),
{
    inspector.selected_file = Some(SelectedFile { path, staged: false });
    match read {
        Ok(d) => {
            inspector.set_conflict(Some(d));
            inspector.clear_diff();
        },
        Err(e) => {
            inspector.set_conflict(None);
            inspector.set_diff(prefixed("Error loading conflict data: ", e.as_str()));
        },
    }
}

/// Opens a file's patch, given how reading it went.
pub fn show_file_diff(inspector: &mut InspectorState, path: String, staged: bool, read: Result<String, String>)
    ensures
        final(inspector).selected_file == Some(SelectedFile { path, staged }),
        final(inspector).conflict_data is None,
        final(inspector).conflict_edit is None,
        match read {
            Ok(d) => final(inspector).diff_content == d,
            Err(e) => final(inspector).diff_content@ == "Error loading diff: "@ + e@,
        },
        same_other_views(*final(inspector), *old(inspector)),
{
    inspector.set_conflict(None);
    match read {
        Ok(d) => inspector.set_diff(d),
        Err(e) => inspector.set_diff(prefixed("Error loading diff: ", e.as_str())),
    }
    inspector.selected_file = Some(SelectedFile { path, staged });
}

/// Whether the history holds a commit with this id.
pub open spec fn history_has(h: Seq<crate::git::CommitEntry>, oid: Seq<char>) -> bool {
    exists|i: int| 0 <= i < h.len() && (#[trigger] h[i]).oid@ == oid
}

fn history_position(h: &Vec<crate::git::CommitEntry>, oid: &str) -> (r: Option<usize>)
    ensures
        match r {
            Some(i) => i < h@.len() && h@[i as int].oid@ == oid@ && forall|j: int|
                0 <= j < i ==> (#[trigger] h@[j]).oid@ != oid@,
            None => !history_has(h@, oid@),
        },
{
    let o = chars_of(oid);
    let n = h.len();
    let mut i: usize = 0;
    while i < n
        invariant
            n == h@.len(),
            0 <= i <= n,
            o@ == oid@,
            forall|j: int| 0 <= j < i ==> (#[trigger] h@[j]).oid@ != oid@,
        decreases n - i,
    {
        if seq_eq(chars_of(h[i].oid.as_str()).as_slice(), o.as_slice()) {
            return Some(i);
        }
        i = i + 1;
    }
    None
}

/// Closes the open commit once a refresh no longer lists it.
pub fn sync_selected_commit(repo_state: &RepoState, inspector: &mut InspectorState)
    ensures
        *final(inspector) == match old(inspector).selected_commit {
            Some(c) => if history_has(repo_state.commit_history@, c.oid@) {
                *old(inspector)
            } else {
                InspectorState { selected_commit: None, ..*old(inspector) }
            },
            None => *old(inspector),
        },
{
    let still_present = match &inspector.selected_commit {
        Some(c) => history_position(&repo_state.commit_history, c.oid.as_str()).is_some(),
        None => true,
    };
    if !still_present {
        inspector.set_commit(None);
    }
}

/// Closes the open review once its worktree is really gone. An empty listing
/// means the listing failed, and keeps it.
pub fn sync_selected_review(repo_state: &RepoState, inspector: &mut InspectorState)
    ensures
        *final(inspector) == match old(inspector).selected_review {
            Some(rv) => if crate::views::survives_refresh(repo_state.linked_worktrees@, rv.storage_key@) {
                *old(inspector)
            } else {
                InspectorState { selected_review: None, ..*old(inspector) }
            },
            None => *old(inspector),
        },
{
    let keep = match &inspector.selected_review {
        Some(rv) => crate::views::selection_survives_refresh(repo_state, rv.storage_key.as_str()),
        None => true,
    };
    if !keep {
        inspector.set_review(None);
    }
}

/// Unpicks the picked worktree once it is really gone, by the same rule as
/// the review. Answers whether a worktree is still picked, whose totals the
/// caller then reads again.
pub fn sync_selected_worktree(repo_state: &RepoState, inspector: &mut InspectorState) -> (r: bool)
    ensures
        match old(inspector).selected_worktree {
            Some(w) => if crate::views::survives_refresh(repo_state.linked_worktrees@, w.storage_key@) {
                r && *final(inspector) == *old(inspector)
            } else {
                !r && *final(inspector) == (InspectorState { selected_worktree: None, ..*old(inspector) })
            },
            None => !r && *final(inspector) == *old(inspector),
        },
{
    let keep = match &inspector.selected_worktree {
        Some(w) => crate::views::selection_survives_refresh(repo_state, w.storage_key.as_str()),
        None => {
            return false;
        },
    };
    if !keep {
        inspector.set_selected_worktree(None);
    }
    keep
}

/// What a refresh keeps of the open commit, review and picked worktree: each
/// stays while the refreshed repository still has it.
pub open spec fn selections_synced(repo_state: RepoState, ins: InspectorState) -> InspectorState {
    InspectorState {
        selected_commit: match ins.selected_commit {
            Some(c) => if history_has(repo_state.commit_history@, c.oid@) {
                ins.selected_commit
            } else {
                None
            },
            None => None,
        },
        selected_review: match ins.selected_review {
            Some(rv) => if crate::views::survives_refresh(repo_state.linked_worktrees@, rv.storage_key@) {
                ins.selected_review
            } else {
                None
            },
            None => None,
        },
        selected_worktree: match ins.selected_worktree {
            Some(w) => if crate::views::survives_refresh(repo_state.linked_worktrees@, w.storage_key@) {
                ins.selected_worktree
            } else {
                None
            },
            None => None,
        },
        ..ins
    }
}

/// Closes everything the inspector has open.
pub fn reset_inspector_state(inspector: &mut InspectorState)
    ensures
        final(inspector).selected_file is None,
        final(inspector).diff_content@.len() == 0,
        final(inspector).parsed_diff.rows@.len() == 0,
        !final(inspector).diff_wrap,
        final(inspector).file_filter@.len() == 0,
        final(inspector).center_view == CenterView::Diff,
        final(inspector).conflict_data is None,
        final(inspector).conflict_edit is None,
        final(inspector).selected_commit is None,
        final(inspector).selected_review is None,
        final(inspector).selected_worktree is None,
        final(inspector).dragging is None,
{
    inspector.selected_file = None;
    inspector.clear_diff();
    inspector.diff_wrap = false;
    inspector.file_filter = String::new();
    inspector.center_view = CenterView::Diff;
    inspector.set_conflict(None);
    inspector.set_commit(None);
    inspector.set_review(None);
    inspector.set_selected_worktree(None);
    inspector.dragging = None;
}

} // verus!

verus! {

/// `commit <oid> is no longer in the loaded history`.
pub open spec fn lost_commit_text(oid: Seq<char>) -> Seq<char> {
    "commit "@ + oid + " is no longer in the loaded history"@
}

/// Opens a commit from the loaded history in the read-only view, with the
/// file list read for it; hands back why the list could not be read, or why
/// the commit could not be opened at all. The list is ignored for a commit the
/// history no longer holds.
pub fn open_commit(
    repo_state: &RepoState,
    inspector: &mut InspectorState,
    oid: &str,
    files: Result<Vec<CommitFileChange>, String>,
) -> (r: Option<String>)
    ensures
        !history_has(repo_state.commit_history@, oid@) ==> {
            &&& r matches Some(d) && d@ == lost_commit_text(oid@)
            &&& *final(inspector) == (InspectorState { selected_commit: None, ..*old(inspector) })
        },
        history_has(repo_state.commit_history@, oid@) ==> {
            &&& final(inspector).selected_commit matches Some(c) && exists|i: int|
                0 <= i < repo_state.commit_history@.len() && {
                    let e = #[trigger] repo_state.commit_history@[i];
                    &&& e.oid@ == oid@
                    &&& forall|j: int| 0 <= j < i ==> (#[trigger] repo_state.commit_history@[j]).oid@ != oid@
                    &&& c.oid == e.oid
                    &&& c.short_oid == e.short_oid
                    &&& c.summary == e.message
                    &&& c.author == e.author
                    &&& c.time == e.time
                } && match files {
                    Ok(f) => r is None && c.changes.files == f && c.changes.load_error is None,
                    Err(e) => r == Some(e) && c.changes.files@.len() == 0 && c.changes.load_error == Some(e),
                } && c.changes.selected_path is None
            &&& *final(inspector) == (InspectorState { selected_commit: final(inspector).selected_commit, ..*old(inspector) })
        },
{
    match history_position(&repo_state.commit_history, oid) {
        None => {
            inspector.set_commit(None);
            let mut v = lit("commit ");
            push_all(&mut v, chars_of(oid).as_slice());
            push_all(&mut v, lit(" is no longer in the loaded history").as_slice());
            Some(string_of(v.as_slice()))
        },
        Some(i) => {
            let e = &repo_state.commit_history[i];
            let mut commit = SelectedCommit {
                oid: e.oid.clone(),
                short_oid: e.short_oid.clone(),
                summary: e.message.clone(),
                author: e.author.clone(),
                time: e.time.clone(),
                changes: ChangeSet::default(),
            };
            let detail = commit.changes.fill_files(files);
            inspector.set_commit(Some(commit));
            detail
        },
    }
}

/// The file the open commit shows first.
pub fn first_commit_path(inspector: &InspectorState) -> (r: Option<String>)
    ensures
        match inspector.selected_commit {
            Some(c) => if c.changes.files@.len() > 0 {
                r == Some(c.changes.files@[0].path)
            } else {
                r is None
            },
            None => r is None,
        },
{
    match &inspector.selected_commit {
        Some(c) => if c.changes.files.len() > 0 {
            Some(c.changes.files[0].path.clone())
        } else {
            None
        },
        None => None,
    }
}

/// The patch text shown for a read: the patch, or why it could not be read.
pub open spec fn patch_text(read: Result<String, String>) -> Seq<char> {
    match read {
        Ok(d) => d@,
        Err(e) => "Error loading diff: "@ + e@,
    }
}

fn patch_of(read: Result<String, String>) -> (r: String)
    ensures
        r@ == patch_text(read),
{
    match read {
        Ok(d) => d,
        Err(e) => prefixed("Error loading diff: ", e.as_str()),
    }
}

/// Opens one file of the open commit, given how reading its patch went.
/// Nothing happens when no commit is open.
pub fn show_commit_file_diff(inspector: &mut InspectorState, path: String, read: Result<String, String>)
    ensures
        match old(inspector).selected_commit {
            None => *final(inspector) == *old(inspector),
            Some(c) => final(inspector).selected_commit matches Some(n) && {
                &&& n.changes.selected_path == Some(path)
                &&& n.changes.diff_content@ == patch_text(read)
                &&& entries_view(n.changes.diff_entries@) == side_by_side_spec(
                    without_file_headers(diff_rows_spec(patch_text(read))),
                )
                &&& n.changes.files == c.changes.files
                &&& n.oid == c.oid
            },
        },
{
    let text = patch_of(read);
    match &mut inspector.selected_commit {
        Some(c) => c.changes.set_patch(path, text),
        None => {},
    }
}

/// Why an open review could not be read, or what was read for it.
pub enum ReviewRead {
    /// The worktree could not be opened; the text says why.
    NotOpened(String),
    /// No base could be worked out; the text is already worded for a person.
    NoBase(String),
    /// The base, and the file list read against it.
    Read { base: ReviewBase, files: Result<Vec<CommitFileChange>, String> },
}

/// `worktree '<name>' could not be opened: <error>`.
pub open spec fn unopened_text(name: Seq<char>, e: Seq<char>) -> Seq<char> {
    crate::worktree_service::quoted("worktree "@, name, " could not be opened: "@) + e
}

fn unopened(name: &str, e: &str) -> (r: String)
    ensures
        r@ == unopened_text(name@, e@),
{
    let mut v = lit("worktree '");
    push_all(&mut v, chars_of(name).as_slice());
    push_all(&mut v, lit("' could not be opened: ").as_slice());
    push_all(&mut v, chars_of(e).as_slice());
    proof {
        reveal_strlit("worktree '");
        reveal_strlit("worktree ");
        reveal_strlit("' could not be opened: ");
        reveal_strlit(" could not be opened: ");
    }
    assert(v@ =~= unopened_text(name@, e@));
    string_of(v.as_slice())
}

/// Opens a worktree in the Review tab; hands back what went wrong, if
/// anything did.
pub fn open_review(inspector: &mut InspectorState, worktree: &LinkedWorktree, read: ReviewRead) -> (r: Option<String>)
    requires
        crate::views::uncommitted_files(worktree.status) <= usize::MAX,
    ensures
        match read {
            ReviewRead::NotOpened(e) => r matches Some(d) && d@ == unopened_text(worktree.name@, e@)
                && *final(inspector) == (InspectorState { selected_review: None, ..*old(inspector) }),
            ReviewRead::NoBase(m) => r == Some(m) && *final(inspector) == (InspectorState {
                selected_review: None,
                ..*old(inspector)
            }),
            ReviewRead::Read { base, files } => {
                &&& final(inspector).selected_review matches Some(rv) && {
                    &&& rv.worktree_name == worktree.name
                    &&& rv.storage_key@ == crate::worktree_metadata::key_of(worktree.is_main, worktree.name@)
                    &&& rv.worktree_path == worktree.path
                    &&& rv.branch == worktree.branch
                    &&& rv.base == base
                    &&& rv.uncommitted == crate::views::uncommitted_files(worktree.status)
                    &&& rv.changes.selected_path is None
                    &&& match files {
                        Ok(f) => r is None && rv.changes.files == f && rv.changes.load_error is None,
                        Err(e) => r == Some(e) && rv.changes.files@.len() == 0 && rv.changes.load_error == Some(e),
                    }
                }
                &&& *final(inspector) == (InspectorState { selected_review: final(inspector).selected_review, ..*old(inspector) })
            },
        },
{
    match read {
        ReviewRead::NotOpened(e) => {
            inspector.set_review(None);
            Some(unopened(worktree.name.as_str(), e.as_str()))
        },
        ReviewRead::NoBase(m) => {
            inspector.set_review(None);
            Some(m)
        },
        ReviewRead::Read { base, files } => {
            let mut review = SelectedReview {
                worktree_name: worktree.name.clone(),
                storage_key: crate::worktree_metadata::storage_key(worktree),
                worktree_path: worktree.path.clone(),
                branch: match &worktree.branch {
                    Some(b) => Some(b.clone()),
                    None => None,
                },
                base,
                uncommitted: crate::views::uncommitted_count(worktree),
                changes: ChangeSet::default(),
            };
            let detail = review.changes.fill_files(files);
            inspector.set_review(Some(review));
            detail
        },
    }
}

/// The file the open review shows first.
pub fn first_review_path(inspector: &InspectorState) -> (r: Option<String>)
    ensures
        match inspector.selected_review {
            Some(rv) => if rv.changes.files@.len() > 0 {
                r == Some(rv.changes.files@[0].path)
            } else {
                r is None
            },
            None => r is None,
        },
{
    match &inspector.selected_review {
        Some(rv) => if rv.changes.files.len() > 0 {
            Some(rv.changes.files[0].path.clone())
        } else {
            None
        },
        None => None,
    }
}

/// Opens one file of the open review, given how reading its patch went.
pub fn show_review_file_diff(inspector: &mut InspectorState, path: String, read: Result<String, String>)
    ensures
        match old(inspector).selected_review {
            None => *final(inspector) == *old(inspector),
            Some(o) => final(inspector).selected_review matches Some(n) && {
                &&& n.changes.selected_path == Some(path)
                &&& n.changes.diff_content@ == patch_text(read)
                &&& entries_view(n.changes.diff_entries@) == side_by_side_spec(
                    without_file_headers(diff_rows_spec(patch_text(read))),
                )
                &&& n.changes.files == o.changes.files
                &&& n.storage_key == o.storage_key
            },
        },
{
    let text = patch_of(read);
    match &mut inspector.selected_review {
        Some(rv) => rv.changes.set_patch(path, text),
        None => {},
    }
}

/// The base commit recorded for a worktree, or nothing when none was.
pub fn recorded_base(repo_state: &RepoState, storage_key: &str) -> (r: String)
    requires
        repo_state.worktree_metadata.wf(),
    ensures
        r@ == if repo_state.worktree_metadata.as_map().contains_key(storage_key@) {
            repo_state.worktree_metadata.as_map()[storage_key@].base_commit@
        } else {
            Seq::<char>::empty()
        },
{
    match repo_state.worktree_metadata.get(storage_key) {
        Some(m) => m.base_commit.clone(),
        None => String::new(),
    }
}

/// What reading a picked worktree's base and totals gave.
pub enum WorktreeRead {
    /// The checkout could not be opened; the text says why.
    NotOpened(String),
    /// No base could be worked out; the text is worded for a person.
    NoBase(String),
    /// The base, but not the totals since it.
    NoSummary { base: ReviewBase, detail: String },
    Read { base: ReviewBase, summary: ReviewSummary },
}

pub open spec fn unreadable_checkout_text() -> Seq<char> {
    "This checkout could not be opened. It may have been deleted; see Logs."@
}

/// Records a fresh read of a picked worktree: a failure stays on the
/// selection, so the panel can say what went wrong, and its detail is handed
/// back for the log.
pub fn fill_worktree_summary(selected: &mut SelectedWorktree, read: WorktreeRead) -> (r: Option<String>)
    ensures
        final(selected).storage_key == old(selected).storage_key,
        final(selected).worktree_name == old(selected).worktree_name,
        final(selected).path == old(selected).path,
        match read {
            WorktreeRead::NotOpened(e) => {
                &&& r matches Some(d) && d@ == unopened_text(old(selected).worktree_name@, e@)
                &&& final(selected).base is None
                &&& final(selected).summary is None
                &&& final(selected).load_error matches Some(m) && m@ == unreadable_checkout_text()
            },
            WorktreeRead::NoBase(m) => {
                &&& r == Some(m)
                &&& final(selected).base is None
                &&& final(selected).summary is None
                &&& final(selected).load_error == Some(m)
            },
            WorktreeRead::NoSummary { base, detail } => {
                &&& r == Some(detail)
                &&& final(selected).base == Some(base)
                &&& final(selected).summary is None
                &&& final(selected).load_error == Some(detail)
            },
            WorktreeRead::Read { base, summary } => {
                &&& r is None
                &&& final(selected).base == Some(base)
                &&& final(selected).summary == Some(summary)
                &&& final(selected).load_error is None
            },
        },
{
    selected.base = None;
    selected.summary = None;
    selected.load_error = None;
    match read {
        WorktreeRead::NotOpened(e) => {
            let detail = unopened(selected.worktree_name.as_str(), e.as_str());
            Some(selected.record_failure(
                crate::text::owned("This checkout could not be opened. It may have been deleted; see Logs."),
                detail,
            ))
        },
        WorktreeRead::NoBase(m) => Some(selected.record_failure(m.clone(), m)),
        WorktreeRead::NoSummary { base, detail } => {
            selected.base = Some(base);
            Some(selected.record_failure(detail.clone(), detail))
        },
        WorktreeRead::Read { base, summary } => {
            selected.base = Some(base);
            selected.summary = Some(summary);
            None
        },
    }
}

/// Picks a worktree and records what reading it gave.
pub fn select_worktree(inspector: &mut InspectorState, worktree: &LinkedWorktree, read: WorktreeRead) -> (r: Option<String>)
    ensures
        final(inspector).selected_worktree matches Some(s) && {
            &&& s.storage_key@ == crate::worktree_metadata::key_of(worktree.is_main, worktree.name@)
            &&& s.worktree_name == worktree.name
            &&& s.path == worktree.path
            &&& (s.load_error is None <==> r is None)
        },
        *final(inspector) == (InspectorState { selected_worktree: final(inspector).selected_worktree, ..*old(inspector) }),
{
    let mut selected = SelectedWorktree {
        storage_key: crate::worktree_metadata::storage_key(worktree),
        worktree_name: worktree.name.clone(),
        path: worktree.path.clone(),
        base: None,
        summary: None,
        load_error: None,
    };
    let detail = fill_worktree_summary(&mut selected, read);
    inspector.set_selected_worktree(Some(selected));
    detail
}

} // verus!
