//! What the status of a working tree means for the file lists, the damage
//! previews and the worktree panel. The flags are git's status flags for one
//! path, read by the caller and handed over as plain booleans.

use vstd::prelude::*;

use crate::git::{CommitFileChange, CreateBranchPreview, DiscardPreview, FileChangeKind, FileEntry};
use crate::text::owned;
use crate::worktrees::LinkedWorktreeStatus;

verus! {

/// The status flags git reports for one path.
#[derive(Clone, Copy, Debug, PartialEq, Eq, Structural)]
pub struct FileStatus {
    pub index_new: bool,
    pub index_modified: bool,
    pub index_deleted: bool,
    pub index_renamed: bool,
    pub index_typechange: bool,
    pub wt_new: bool,
    pub wt_modified: bool,
    pub wt_deleted: bool,
    pub wt_typechange: bool,
    pub wt_renamed: bool,
    pub wt_unreadable: bool,
    pub ignored: bool,
    pub conflicted: bool,
}

/// One entry of a status listing: the path, when it is valid UTF-8, and its
/// flags.
#[derive(Clone, Debug)]
pub struct StatusEntry {
    pub path: Option<String>,
    pub status: FileStatus,
}

/// Any change recorded in the index.
pub open spec fn has_staged_change(s: FileStatus) -> bool {
    s.index_new || s.index_modified || s.index_deleted || s.index_renamed || s.index_typechange
}

/// A change in the working tree that is not a new file.
pub open spec fn has_worktree_change(s: FileStatus) -> bool {
    s.wt_modified || s.wt_deleted || s.wt_typechange || s.wt_renamed || s.conflicted
}

/// Exactly "new in the working tree" and nothing else.
pub open spec fn only_untracked(s: FileStatus) -> bool {
    s.wt_new && !s.index_new && !s.index_modified && !s.index_deleted && !s.index_renamed
        && !s.index_typechange && !s.wt_modified && !s.wt_deleted && !s.wt_typechange
        && !s.wt_renamed && !s.wt_unreadable && !s.ignored && !s.conflicted
}

/// Whether the path belongs in the staged list.
pub open spec fn listed_staged(s: FileStatus) -> bool {
    s.index_new || s.index_modified || s.index_deleted || s.index_renamed
}

/// Whether the path belongs in the unstaged list.
pub open spec fn listed_unstaged(s: FileStatus) -> bool {
    s.wt_new || s.wt_modified || s.wt_deleted
}

/// What happened to a staged path.
pub open spec fn staged_kind(s: FileStatus) -> FileChangeKind {
    if s.index_new {
        FileChangeKind::Added
    } else if s.index_modified {
        FileChangeKind::Modified
    } else if s.index_deleted {
        FileChangeKind::Deleted
    } else if s.index_renamed {
        FileChangeKind::Renamed
    } else {
        FileChangeKind::TypeChange
    }
}

/// What happened to an unstaged path.
pub open spec fn unstaged_kind(s: FileStatus) -> FileChangeKind {
    if s.wt_new {
        FileChangeKind::Added
    } else if s.wt_modified {
        FileChangeKind::Modified
    } else if s.wt_deleted {
        FileChangeKind::Deleted
    } else {
        FileChangeKind::TypeChange
    }
}

/// The word the staged list shows for a kind.
pub open spec fn staged_word(k: FileChangeKind) -> Seq<char> {
    match k {
        FileChangeKind::Added => "new"@,
        FileChangeKind::Modified => "modified"@,
        FileChangeKind::Deleted => "deleted"@,
        FileChangeKind::Renamed => "renamed"@,
        FileChangeKind::TypeChange => "changed"@,
        FileChangeKind::Conflicted => "conflicted"@,
    }
}

/// The word the unstaged list shows for a kind: a file git has never seen is
/// "untracked" there.
pub open spec fn unstaged_word(k: FileChangeKind) -> Seq<char> {
    match k {
        FileChangeKind::Added => "untracked"@,
        FileChangeKind::Modified => "modified"@,
        FileChangeKind::Deleted => "deleted"@,
        FileChangeKind::Renamed => "renamed"@,
        FileChangeKind::TypeChange => "changed"@,
        FileChangeKind::Conflicted => "conflicted"@,
    }
}

pub fn staged_label(kind: FileChangeKind) -> (r: String)
    ensures
        r@ == staged_word(kind),
{
    match kind {
        FileChangeKind::Added => owned("new"),
        FileChangeKind::Modified => owned("modified"),
        FileChangeKind::Deleted => owned("deleted"),
        FileChangeKind::Renamed => owned("renamed"),
        FileChangeKind::TypeChange => owned("changed"),
        FileChangeKind::Conflicted => owned("conflicted"),
    }
}

pub fn unstaged_label(kind: FileChangeKind) -> (r: String)
    ensures
        r@ == unstaged_word(kind),
{
    match kind {
        FileChangeKind::Added => owned("untracked"),
        FileChangeKind::Modified => owned("modified"),
        FileChangeKind::Deleted => owned("deleted"),
        FileChangeKind::Renamed => owned("renamed"),
        FileChangeKind::TypeChange => owned("changed"),
        FileChangeKind::Conflicted => owned("conflicted"),
    }
}

pub fn kind_of_staged(s: FileStatus) -> (r: FileChangeKind)
    ensures
        r == staged_kind(s),
{
    if s.index_new {
        FileChangeKind::Added
    } else if s.index_modified {
        FileChangeKind::Modified
    } else if s.index_deleted {
        FileChangeKind::Deleted
    } else if s.index_renamed {
        FileChangeKind::Renamed
    } else {
        FileChangeKind::TypeChange
    }
}

pub fn kind_of_unstaged(s: FileStatus) -> (r: FileChangeKind)
    ensures
        r == unstaged_kind(s),
{
    if s.wt_new {
        FileChangeKind::Added
    } else if s.wt_modified {
        FileChangeKind::Modified
    } else if s.wt_deleted {
        FileChangeKind::Deleted
    } else {
        FileChangeKind::TypeChange
    }
}

/// A file list entry as plain values: path, shown word, kind.
pub open spec fn entry_view(f: FileEntry) -> (Seq<char>, Seq<char>, FileChangeKind) {
    (f.path@, f.display_status@, f.kind)
}

pub open spec fn entry_views(v: Seq<FileEntry>) -> Seq<(Seq<char>, Seq<char>, FileChangeKind)> {
    Seq::new(v.len(), |i: int| entry_view(v[i]))
}

/// The unstaged and the staged list a status listing gives, in listing
/// order. A conflicted path goes to the unstaged list only; a path with a
/// change on both sides goes to both; a path that is not valid UTF-8 is left
/// out, since nothing downstream could stage it.
pub open spec fn file_lists(entries: Seq<StatusEntry>) -> (
    Seq<(Seq<char>, Seq<char>, FileChangeKind)>,
    Seq<(Seq<char>, Seq<char>, FileChangeKind)>,
)
    decreases entries.len(),
{
    if entries.len() == 0 {
        (Seq::empty(), Seq::empty())
    } else {
        let (u, s) = file_lists(entries.drop_last());
        let e = entries.last();
        match e.path {
            None => (u, s),
            Some(p) => if e.status.conflicted {
                (u.push((p@, "conflicted"@, FileChangeKind::Conflicted)), s)
            } else {
                let s2 = if listed_staged(e.status) {
                    s.push((p@, staged_word(staged_kind(e.status)), staged_kind(e.status)))
                } else {
                    s
                };
                let u2 = if listed_unstaged(e.status) {
                    u.push((p@, unstaged_word(unstaged_kind(e.status)), unstaged_kind(e.status)))
                } else {
                    u
                };
                (u2, s2)
            },
        }
    }
}

/// The word a file list shows is derived from the file's kind and never the
/// other way round: a staged file reads as its kind in the staged list's
/// words, an unstaged one in the unstaged list's, and a conflicted file is
/// only ever in the unstaged list.
pub proof fn law_labels_follow_kinds(entries: Seq<StatusEntry>)
    ensures
        forall|i: int| 0 <= i < file_lists(entries).1.len() ==> {
            let e = #[trigger] file_lists(entries).1[i];
            e.1 == staged_word(e.2) && e.2 != FileChangeKind::Conflicted
        },
        forall|i: int| 0 <= i < file_lists(entries).0.len() ==> {
            let e = #[trigger] file_lists(entries).0[i];
            e.1 == unstaged_word(e.2)
        },
    decreases entries.len(),
{
    if entries.len() > 0 {
        law_labels_follow_kinds(entries.drop_last());
        let (u, s) = file_lists(entries.drop_last());
        assert forall|i: int| 0 <= i < file_lists(entries).1.len() implies {
            let e = #[trigger] file_lists(entries).1[i];
            e.1 == staged_word(e.2) && e.2 != FileChangeKind::Conflicted
        } by {
            if i < s.len() {
                assert(file_lists(entries).1[i] == s[i]);
            }
        }
        assert forall|i: int| 0 <= i < file_lists(entries).0.len() implies {
            let e = #[trigger] file_lists(entries).0[i];
            e.1 == unstaged_word(e.2)
        } by {
            if i < u.len() {
                assert(file_lists(entries).0[i] == u[i]);
            }
        }
    }
}

/// Splits a status listing into the unstaged and the staged file list.
pub fn split_file_lists(entries: &[StatusEntry]) -> (r: (Vec<FileEntry>, Vec<FileEntry>))
    ensures
        (entry_views(r.0@), entry_views(r.1@)) == file_lists(entries@),
{
    let mut unstaged: Vec<FileEntry> = Vec::new();
    let mut staged: Vec<FileEntry> = Vec::new();
    let n = entries.len();
    let mut i: usize = 0;
    while i < n
        invariant
            n == entries@.len(),
            0 <= i <= n,
            (entry_views(unstaged@), entry_views(staged@)) == file_lists(entries@.take(i as int)),
        decreases n - i,
    {
        let ghost before_u = unstaged@;
        let ghost before_s = staged@;
        assert(entries@.take(i as int + 1).drop_last() =~= entries@.take(i as int));
        let e = &entries[i];
        match &e.path {
            None => {},
            Some(p) => {
                if e.status.conflicted {
                    unstaged.push(FileEntry {
                        path: p.clone(),
                        display_status: owned("conflicted"),
                        kind: FileChangeKind::Conflicted,
                    });
                    assert(entry_views(unstaged@) =~= entry_views(before_u).push(
                        (p@, "conflicted"@, FileChangeKind::Conflicted),
                    ));
                } else {
                    let st = e.status;
                    if st.index_new || st.index_modified || st.index_deleted || st.index_renamed {
                        let kind = kind_of_staged(st);
                        staged.push(FileEntry { path: p.clone(), display_status: staged_label(kind), kind });
                        assert(entry_views(staged@) =~= entry_views(before_s).push(
                            (p@, staged_word(kind), kind),
                        ));
                    }
                    if st.wt_new || st.wt_modified || st.wt_deleted {
                        let kind = kind_of_unstaged(st);
                        unstaged.push(FileEntry { path: p.clone(), display_status: unstaged_label(kind), kind });
                        assert(entry_views(unstaged@) =~= entry_views(before_u).push(
                            (p@, unstaged_word(kind), kind),
                        ));
                    }
                }
            },
        }
        i = i + 1;
    }
    assert(entries@.take(n as int) =~= entries@);
    (unstaged, staged)
}

/// How many of the paths have a property.
pub open spec fn count_where(s: Seq<FileStatus>, p: spec_fn(FileStatus) -> bool) -> nat
    decreases s.len(),
{
    if s.len() == 0 {
        0
    } else {
        count_where(s.drop_last(), p) + if p(s.last()) {
            1nat
        } else {
            0nat
        }
    }
}

pub proof fn lemma_count_at_most_len(s: Seq<FileStatus>, p: spec_fn(FileStatus) -> bool)
    ensures
        count_where(s, p) <= s.len(),
    decreases s.len(),
{
    if s.len() > 0 {
        lemma_count_at_most_len(s.drop_last(), p);
    }
}

/// Counted as untracked by a discard preview: new in the working tree and
/// nothing else.
pub open spec fn discard_untracked(s: FileStatus) -> bool {
    only_untracked(s)
}

/// Counted as dirty by a discard preview.
pub open spec fn discard_dirty(s: FileStatus) -> bool {
    !only_untracked(s) && (has_worktree_change(s) || has_staged_change(s))
}

/// Counted as untracked by a branch preview and the worktree panel: new in
/// the working tree, whatever else is set.
pub open spec fn carries_untracked(s: FileStatus) -> bool {
    s.wt_new
}

/// Counted as modified by a branch preview and the worktree panel.
pub open spec fn carries_modified(s: FileStatus) -> bool {
    !s.wt_new && has_worktree_change(s)
}

/// What a discard-and-reset would throw away, given the status of every path
/// and the number of commits only this clone has.
pub fn discard_preview(statuses: &[FileStatus], local_only_commits: usize) -> (r: DiscardPreview)
    ensures
        r.dirty_files == count_where(statuses@, |s: FileStatus| discard_dirty(s)),
        r.untracked_files == count_where(statuses@, |s: FileStatus| discard_untracked(s)),
        r.local_only_commits == local_only_commits,
{
    let ghost dirty = |s: FileStatus| discard_dirty(s);
    let ghost untracked = |s: FileStatus| discard_untracked(s);
    let mut dirty_files: usize = 0;
    let mut untracked_files: usize = 0;
    let n = statuses.len();
    let mut i: usize = 0;
    while i < n
        invariant
            n == statuses@.len(),
            0 <= i <= n,
            forall|s: FileStatus| #[trigger] dirty(s) == discard_dirty(s),
            forall|s: FileStatus| #[trigger] untracked(s) == discard_untracked(s),
            dirty_files == count_where(statuses@.take(i as int), dirty),
            untracked_files == count_where(statuses@.take(i as int), untracked),
        decreases n - i,
    {
        assert(statuses@.take(i as int + 1).drop_last() =~= statuses@.take(i as int));
        proof {
            lemma_count_at_most_len(statuses@.take(i as int), dirty);
            lemma_count_at_most_len(statuses@.take(i as int), untracked);
        }
        let st = statuses[i];
        assert(statuses@.take(i as int + 1).last() == st);
        assert(count_where(statuses@.take(i as int + 1), dirty) == count_where(statuses@.take(i as int), dirty)
            + if discard_dirty(st) { 1nat } else { 0nat });
        assert(count_where(statuses@.take(i as int + 1), untracked) == count_where(statuses@.take(i as int), untracked)
            + if discard_untracked(st) { 1nat } else { 0nat });
        let only_new = st.wt_new && !st.index_new && !st.index_modified && !st.index_deleted
            && !st.index_renamed && !st.index_typechange && !st.wt_modified && !st.wt_deleted
            && !st.wt_typechange && !st.wt_renamed && !st.wt_unreadable && !st.ignored
            && !st.conflicted;
        if only_new {
            untracked_files = untracked_files + 1;
        } else if st.wt_modified || st.wt_deleted || st.wt_typechange || st.wt_renamed
            || st.index_new || st.index_modified || st.index_deleted || st.index_renamed
            || st.index_typechange || st.conflicted {
            dirty_files = dirty_files + 1;
        }
        i = i + 1;
    }
    assert(statuses@.take(n as int) =~= statuses@);
    DiscardPreview { dirty_files, untracked_files, local_only_commits }
}

/// Counts of modified, staged and untracked paths, as a branch preview and
/// the worktree panel count them.
fn change_counts(statuses: &[FileStatus]) -> (r: (usize, usize, usize))
    ensures
        r.0 == count_where(statuses@, |s: FileStatus| carries_modified(s)),
        r.1 == count_where(statuses@, |s: FileStatus| has_staged_change(s)),
        r.2 == count_where(statuses@, |s: FileStatus| carries_untracked(s)),
{
    let ghost modified_p = |s: FileStatus| carries_modified(s);
    let ghost staged_p = |s: FileStatus| has_staged_change(s);
    let ghost untracked_p = |s: FileStatus| carries_untracked(s);
    let mut modified: usize = 0;
    let mut staged: usize = 0;
    let mut untracked: usize = 0;
    let n = statuses.len();
    let mut i: usize = 0;
    while i < n
        invariant
            n == statuses@.len(),
            0 <= i <= n,
            forall|s: FileStatus| #[trigger] modified_p(s) == carries_modified(s),
            forall|s: FileStatus| #[trigger] staged_p(s) == has_staged_change(s),
            forall|s: FileStatus| #[trigger] untracked_p(s) == carries_untracked(s),
            modified == count_where(statuses@.take(i as int), modified_p),
            staged == count_where(statuses@.take(i as int), staged_p),
            untracked == count_where(statuses@.take(i as int), untracked_p),
        decreases n - i,
    {
        assert(statuses@.take(i as int + 1).drop_last() =~= statuses@.take(i as int));
        proof {
            lemma_count_at_most_len(statuses@.take(i as int), modified_p);
            lemma_count_at_most_len(statuses@.take(i as int), staged_p);
            lemma_count_at_most_len(statuses@.take(i as int), untracked_p);
        }
        let st = statuses[i];
        assert(statuses@.take(i as int + 1).last() == st);
        assert(count_where(statuses@.take(i as int + 1), modified_p) == count_where(statuses@.take(i as int), modified_p)
            + if carries_modified(st) { 1nat } else { 0nat });
        assert(count_where(statuses@.take(i as int + 1), staged_p) == count_where(statuses@.take(i as int), staged_p)
            + if has_staged_change(st) { 1nat } else { 0nat });
        assert(count_where(statuses@.take(i as int + 1), untracked_p) == count_where(statuses@.take(i as int), untracked_p)
            + if carries_untracked(st) { 1nat } else { 0nat });
        if st.index_new || st.index_modified || st.index_deleted || st.index_renamed || st.index_typechange {
            staged = staged + 1;
        }
        if st.wt_new {
            untracked = untracked + 1;
        } else if st.wt_modified || st.wt_deleted || st.wt_typechange || st.wt_renamed || st.conflicted {
            modified = modified + 1;
        }
        i = i + 1;
    }
    assert(statuses@.take(n as int) =~= statuses@);
    (modified, staged, untracked)
}

/// What switching to a new branch would carry along, given the status of
/// every path.
pub fn create_branch_preview(branch_name: &str, statuses: &[FileStatus]) -> (r: CreateBranchPreview)
    ensures
        r.branch_name@ == branch_name@,
        r.dirty_files == count_where(statuses@, |s: FileStatus| carries_modified(s)),
        r.staged_files == count_where(statuses@, |s: FileStatus| has_staged_change(s)),
        r.untracked_files == count_where(statuses@, |s: FileStatus| carries_untracked(s)),
{
    let (dirty_files, staged_files, untracked_files) = change_counts(statuses);
    CreateBranchPreview { branch_name: owned(branch_name), dirty_files, untracked_files, staged_files }
}

/// The state the worktree panel shows for a checkout, given the status of
/// every path: clean when nothing counts, otherwise the three counts.
pub fn worktree_status(statuses: &[FileStatus]) -> (r: LinkedWorktreeStatus)
    ensures
        ({
            let m = count_where(statuses@, |s: FileStatus| carries_modified(s));
            let st = count_where(statuses@, |s: FileStatus| has_staged_change(s));
            let u = count_where(statuses@, |s: FileStatus| carries_untracked(s));
            if m == 0 && st == 0 && u == 0 {
                r == LinkedWorktreeStatus::Clean
            } else {
                r == (LinkedWorktreeStatus::Dirty { modified: m as usize, staged: st as usize, untracked: u as usize })
            }
        }),
{
    let (modified, staged, untracked) = change_counts(statuses);
    if modified == 0 && staged == 0 && untracked == 0 {
        LinkedWorktreeStatus::Clean
    } else {
        LinkedWorktreeStatus::Dirty { modified, staged, untracked }
    }
}

/// What git says happened to a file between a commit and its first parent.
#[derive(Clone, Copy, Debug, PartialEq, Eq, Structural)]
pub enum DeltaKind {
    Unmodified,
    Added,
    Deleted,
    Modified,
    Renamed,
    Copied,
    Ignored,
    Untracked,
    Typechange,
    Unreadable,
    Conflicted,
}

/// The word the commit file list shows, from the same vocabulary as the
/// working-tree lists.
pub open spec fn delta_word(d: DeltaKind) -> Seq<char> {
    match d {
        DeltaKind::Added | DeltaKind::Copied | DeltaKind::Untracked => "new"@,
        DeltaKind::Deleted => "deleted"@,
        DeltaKind::Renamed => "renamed"@,
        DeltaKind::Modified | DeltaKind::Typechange => "modified"@,
        _ => "changed"@,
    }
}

pub fn delta_label(d: DeltaKind) -> (r: String)
    ensures
        r@ == delta_word(d),
{
    match d {
        DeltaKind::Added | DeltaKind::Copied | DeltaKind::Untracked => owned("new"),
        DeltaKind::Deleted => owned("deleted"),
        DeltaKind::Renamed => owned("renamed"),
        DeltaKind::Modified | DeltaKind::Typechange => owned("modified"),
        _ => owned("changed"),
    }
}

/// One changed file of a commit: its new and old path, each when it is
/// valid UTF-8, and what happened to it.
#[derive(Clone, Debug)]
pub struct CommitDelta {
    pub new_path: Option<String>,
    pub old_path: Option<String>,
    pub status: DeltaKind,
}

/// The path a commit file list shows: the new one, or the old one for a file
/// that is gone.
pub open spec fn delta_path(d: CommitDelta) -> Option<Seq<char>> {
    match d.new_path {
        Some(p) => Some(p@),
        None => match d.old_path {
            Some(p) => Some(p@),
            None => None,
        },
    }
}

/// The files of a commit as listed: every delta with a path, in order.
pub open spec fn commit_list(deltas: Seq<CommitDelta>) -> Seq<(Seq<char>, Seq<char>)>
    decreases deltas.len(),
{
    if deltas.len() == 0 {
        Seq::empty()
    } else {
        let rest = commit_list(deltas.drop_last());
        match delta_path(deltas.last()) {
            Some(p) => rest.push((p, delta_word(deltas.last().status))),
            None => rest,
        }
    }
}

pub open spec fn change_view(c: CommitFileChange) -> (Seq<char>, Seq<char>) {
    (c.path@, c.display_status@)
}

/// The file list of a commit.
pub fn commit_changes(deltas: &[CommitDelta]) -> (r: Vec<CommitFileChange>)
    ensures
        r@.len() == commit_list(deltas@).len(),
        forall|i: int| 0 <= i < r@.len() ==> #[trigger] change_view(r@[i]) == commit_list(deltas@)[i],
{
    let mut out: Vec<CommitFileChange> = Vec::new();
    let n = deltas.len();
    let mut i: usize = 0;
    while i < n
        invariant
            n == deltas@.len(),
            0 <= i <= n,
            out@.len() == commit_list(deltas@.take(i as int)).len(),
            forall|k: int| 0 <= k < out@.len() ==> #[trigger] change_view(out@[k]) == commit_list(deltas@.take(i as int))[k],
        decreases n - i,
    {
        assert(deltas@.take(i as int + 1).drop_last() =~= deltas@.take(i as int));
        let d = &deltas[i];
        assert(deltas@.take(i as int + 1).last() == *d);
        let path = match &d.new_path {
            Some(p) => Some(p.clone()),
            None => match &d.old_path {
                Some(p) => Some(p.clone()),
                None => None,
            },
        };
        match path {
            Some(p) => {
                out.push(CommitFileChange { path: p, display_status: delta_label(d.status) });
            },
            None => {},
        }
        i = i + 1;
    }
    assert(deltas@.take(n as int) =~= deltas@);
    out
}

} // verus!
