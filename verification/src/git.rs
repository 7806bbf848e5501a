//! What the repository views show about files, commits and branches, and how
//! an age reads.

use vstd::prelude::*;

use crate::text::{chars_of, dec, lit, push_all, seq_eq, strs, string_of, u64_chars};

verus! {

/// What git reports happened to a file, independent of the words shown for
/// it. Anything that acts on a file, above all the destructive actions,
/// dispatches on this and never on the label.
#[derive(Clone, Copy, Debug, PartialEq, Eq, Structural)]
pub enum FileChangeKind {
    /// Git has no committed copy of this path: such a file can only be
    /// deleted, never restored.
    Added,
    Modified,
    Deleted,
    Renamed,
    /// A type change, or any flag combination the file lists do not name.
    TypeChange,
    Conflicted,
}

/// A file in the staged or unstaged list.
#[derive(Clone, Debug)]
pub struct FileEntry {
    pub path: String,
    /// Display copy only: badge wording and colour.
    pub display_status: String,
    pub kind: FileChangeKind,
}

impl FileEntry {
    pub fn is_conflicted(&self) -> (r: bool)
        ensures
            r == (self.kind == FileChangeKind::Conflicted),
    {
        self.kind == FileChangeKind::Conflicted
    }
}

/// One file touched by a commit, relative to that commit's first parent.
#[derive(Clone, Debug, PartialEq, Eq)]
pub struct CommitFileChange {
    pub path: String,
    pub display_status: String,
}

/// One line of the history list.
#[derive(Clone, Debug)]
pub struct CommitEntry {
    /// Full 40-hex object id: the handle used to look the commit up again.
    pub oid: String,
    pub short_oid: String,
    pub message: String,
    pub author: String,
    pub time: String,
    pub is_merge: bool,
    pub branch_labels: Vec<String>,
}

/// A local branch offered for clean-up.
#[derive(Clone, Debug)]
pub struct StaleBranch {
    pub name: String,
    pub merged_into_head: bool,
    pub selected: bool,
}

impl StaleBranch {
    /// A copy of this entry.
    pub fn duplicate(&self) -> (r: StaleBranch)
        ensures
            r == *self,
    {
        StaleBranch {
            name: self.name.clone(),
            merged_into_head: self.merged_into_head,
            selected: self.selected,
        }
    }
}

/// What a discard-and-reset would throw away.
#[derive(Clone, Debug)]
pub struct DiscardPreview {
    pub dirty_files: usize,
    pub untracked_files: usize,
    pub local_only_commits: usize,
}

impl Default for DiscardPreview {
    fn default() -> (r: DiscardPreview)
        ensures
            r.dirty_files == 0 && r.untracked_files == 0 && r.local_only_commits == 0,
    {
        DiscardPreview { dirty_files: 0, untracked_files: 0, local_only_commits: 0 }
    }
}

/// What creating a branch would carry along from the working tree.
#[derive(Clone, Debug)]
pub struct CreateBranchPreview {
    pub branch_name: String,
    pub dirty_files: usize,
    pub untracked_files: usize,
    pub staged_files: usize,
}

impl Default for CreateBranchPreview {
    fn default() -> (r: CreateBranchPreview)
        ensures
            r.branch_name@.len() == 0 && r.dirty_files == 0 && r.untracked_files == 0
                && r.staged_files == 0,
    {
        CreateBranchPreview {
            branch_name: String::new(),
            dirty_files: 0,
            untracked_files: 0,
            staged_files: 0,
        }
    }
}

/// How long ago something happened, `diff` seconds back: the largest unit
/// that fits, rounded down.
pub open spec fn age_text(diff: int) -> Seq<char> {
    if diff < 0 {
        "in the future"@
    } else if diff < 60 {
        "just now"@
    } else if diff < 3600 {
        dec((diff / 60) as nat) + "m ago"@
    } else if diff < 86400 {
        dec((diff / 3600) as nat) + "h ago"@
    } else if diff < 2592000 {
        dec((diff / 86400) as nat) + "d ago"@
    } else {
        dec((diff / 2592000) as nat) + "mo ago"@
    }
}

fn count_with_unit(n: u64, unit: &str) -> (r: String)
    ensures
        r@ == dec(n as nat) + unit@,
{
    let mut out = u64_chars(n);
    let u = lit(unit);
    push_all(&mut out, u.as_slice());
    string_of(out.as_slice())
}

/// How long ago an instant was; both arguments are Unix seconds.
pub fn relative_time(now_secs: i64, then_secs: i64) -> (r: String)
    requires
        i64::MIN <= now_secs - then_secs <= i64::MAX,
    ensures
        r@ == age_text(now_secs - then_secs),
{
    let diff = now_secs - then_secs;
    if diff < 0 {
        return string_of(lit("in the future").as_slice());
    }
    if diff < 60 {
        return string_of(lit("just now").as_slice());
    }
    let d = diff as u64;
    if diff < 3600 {
        return count_with_unit(d / 60, "m ago");
    }
    if diff < 86400 {
        return count_with_unit(d / 3600, "h ago");
    }
    if diff < 2592000 {
        return count_with_unit(d / 86400, "d ago");
    }
    count_with_unit(d / 2592000, "mo ago")
}

/// The names among `refs` (name, commit id) that point at `oid`, in order.
pub open spec fn labels_for(oid: Seq<char>, refs: Seq<(String, String)>) -> Seq<Seq<char>>
    decreases refs.len(),
{
    if refs.len() == 0 {
        Seq::empty()
    } else {
        let rest = labels_for(oid, refs.drop_last());
        if refs.last().1@ == oid {
            rest.push(refs.last().0@)
        } else {
            rest
        }
    }
}

/// The labels a history row shows for commit `oid`: every local branch and
/// then every tag pointing at it, `refs` listing the branches first.
pub fn commit_labels(oid: &str, refs: &Vec<(String, String)>) -> (r: Vec<String>)
    ensures
        strs(r@) == labels_for(oid@, refs@),
{
    let target = chars_of(oid);
    let mut out: Vec<String> = Vec::new();
    let mut i: usize = 0;
    while i < refs.len()
        invariant
            0 <= i <= refs@.len(),
            target@ == oid@,
            strs(out@) == labels_for(oid@, refs@.take(i as int)),
        decreases refs@.len() - i,
    {
        assert(refs@.take(i + 1).drop_last() =~= refs@.take(i as int));
        let (name, points_at) = &refs[i];
        if seq_eq(chars_of(points_at.as_str()).as_slice(), target.as_slice()) {
            let ghost before = out@;
            out.push(name.clone());
            assert(strs(out@) =~= strs(before).push(refs@[i as int].0@));
        }
        i = i + 1;
    }
    assert(refs@.take(refs@.len() as int) =~= refs@);
    out
}

} // verus!
