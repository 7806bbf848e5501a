//! The checkouts that share one object store: the main working tree and the
//! linked worktrees git keeps under `.git/worktrees/`.

use vstd::prelude::*;

use crate::text::{dec, join, join_chars, lit, push_all, slice_chars, string_of, strs, texts, usize_chars, strings_of};

verus! {

/// How much uncommitted work a checkout holds, or why that is unknown.
/// `Missing` and `Unavailable` are kept apart from `Clean`: a checkout whose
/// directory vanished reports no changed files, and calling that clean would
/// invite removing it as if that were safe.
#[derive(Clone, Debug, PartialEq, Eq)]
pub enum LinkedWorktreeStatus {
    Clean,
    Dirty { modified: usize, staged: usize, untracked: usize },
    /// The metadata is there but the checkout is not, so git would prune it.
    Missing,
    /// The checkout could not be inspected; the text says why.
    Unavailable(String),
}

/// One checkout belonging to a repository.
#[derive(Clone, Debug, PartialEq, Eq)]
pub struct LinkedWorktree {
    /// Git's handle for the worktree; for the main worktree, which git does
    /// not name, its directory name.
    pub name: String,
    /// Top level of the checkout.
    pub path: String,
    /// `None` when HEAD is detached.
    pub branch: Option<String>,
    pub head_short_oid: String,
    pub is_main: bool,
    /// Whether this is the checkout the current tab has open.
    pub is_current: bool,
    pub is_locked: bool,
    pub lock_reason: Option<String>,
    pub status: LinkedWorktreeStatus,
}

/// What the branch column shows.
pub open spec fn branch_text(w: LinkedWorktree) -> Seq<char> {
    match w.branch {
        Some(b) => b@,
        None => "detached at "@ + w.head_short_oid@,
    }
}

impl LinkedWorktree {
    /// Whether the checkout holds work that removing it would destroy.
    pub fn has_uncommitted_changes(&self) -> (r: bool)
        ensures
            r == (self.status is Dirty),
    {
        match self.status {
            LinkedWorktreeStatus::Dirty { .. } => true,
            _ => false,
        }
    }

    /// The branch name, or the detached head.
    pub fn branch_label(&self) -> (r: String)
        ensures
            r@ == branch_text(*self),
    {
        match &self.branch {
            Some(branch) => branch.clone(),
            None => {
                let mut out = lit("detached at ");
                push_all(&mut out, lit(self.head_short_oid.as_str()).as_slice());
                string_of(out.as_slice())
            },
        }
    }
}

/// `"4 modified files"`: a count, what it counts, and the right plural.
pub open spec fn count_label(count: nat, what: Seq<char>) -> Seq<char> {
    dec(count) + seq![' '] + what + " file"@ + if count == 1 {
        ""@
    } else {
        "s"@
    }
}

/// The fragments for the non-zero counts, in the order modified, staged,
/// untracked.
pub open spec fn count_labels(modified: nat, staged: nat, untracked: nat) -> Seq<Seq<char>> {
    (if modified > 0 {
        seq![count_label(modified, "modified"@)]
    } else {
        Seq::empty()
    }) + (if staged > 0 {
        seq![count_label(staged, "staged"@)]
    } else {
        Seq::empty()
    }) + (if untracked > 0 {
        seq![count_label(untracked, "untracked"@)]
    } else {
        Seq::empty()
    })
}

/// The one-line summary of a checkout's state.
pub open spec fn status_summary(s: LinkedWorktreeStatus) -> Seq<char> {
    match s {
        LinkedWorktreeStatus::Clean => "Clean"@,
        LinkedWorktreeStatus::Dirty { modified, staged, untracked } => {
            let parts = count_labels(modified as nat, staged as nat, untracked as nat);
            if parts.len() == 0 {
                "Clean"@
            } else {
                join(parts, ", "@)
            }
        },
        LinkedWorktreeStatus::Missing => "Missing from disk"@,
        LinkedWorktreeStatus::Unavailable(_) => "Status unavailable"@,
    }
}

/// What a removal would destroy, one line per kind of file at risk.
pub open spec fn status_damage(s: LinkedWorktreeStatus) -> Seq<Seq<char>> {
    match s {
        LinkedWorktreeStatus::Dirty { modified, staged, untracked } => count_labels(
            modified as nat,
            staged as nat,
            untracked as nat,
        ),
        _ => Seq::empty(),
    }
}

fn count_label_chars(count: usize, what: &str) -> (r: Vec<char>)
    ensures
        r@ == count_label(count as nat, what@),
{
    let mut out = usize_chars(count);
    out.push(' ');
    push_all(&mut out, lit(what).as_slice());
    push_all(&mut out, lit(" file").as_slice());
    if count == 1 {
        push_all(&mut out, lit("").as_slice());
    } else {
        push_all(&mut out, lit("s").as_slice());
    }
    out
}

fn count_label_list(modified: usize, staged: usize, untracked: usize) -> (r: Vec<Vec<char>>)
    ensures
        texts(r@) == count_labels(modified as nat, staged as nat, untracked as nat),
{
    let mut out: Vec<Vec<char>> = Vec::new();
    if modified > 0 {
        out.push(count_label_chars(modified, "modified"));
    }
    let ghost a = texts(out@);
    if staged > 0 {
        out.push(count_label_chars(staged, "staged"));
        assert(texts(out@) =~= a.push(count_label(staged as nat, "staged"@)));
    }
    let ghost b = texts(out@);
    if untracked > 0 {
        out.push(count_label_chars(untracked, "untracked"));
        assert(texts(out@) =~= b.push(count_label(untracked as nat, "untracked"@)));
    }
    assert(texts(out@) =~= count_labels(modified as nat, staged as nat, untracked as nat));
    out
}

impl LinkedWorktreeStatus {
    /// One-line summary for the worktree row.
    pub fn summary(&self) -> (r: String)
        ensures
            r@ == status_summary(*self),
    {
        match self {
            LinkedWorktreeStatus::Clean => string_of(lit("Clean").as_slice()),
            LinkedWorktreeStatus::Dirty { modified, staged, untracked } => {
                let parts = count_label_list(*modified, *staged, *untracked);
                if parts.len() == 0 {
                    string_of(lit("Clean").as_slice())
                } else {
                    let sep = lit(", ");
                    string_of(join_chars(&parts, sep.as_slice()).as_slice())
                }
            },
            LinkedWorktreeStatus::Missing => string_of(lit("Missing from disk").as_slice()),
            LinkedWorktreeStatus::Unavailable(_) => string_of(lit("Status unavailable").as_slice()),
        }
    }

    /// The list a removal confirmation shows; empty when nothing is at risk.
    pub fn damage_lines(&self) -> (r: Vec<String>)
        ensures
            strs(r@) == status_damage(*self),
    {
        match self {
            LinkedWorktreeStatus::Dirty { modified, staged, untracked } => {
                let parts = count_label_list(*modified, *staged, *untracked);
                strings_of(&parts)
            },
            _ => {
                let r: Vec<String> = Vec::new();
                assert(strs(r@) =~= Seq::<Seq<char>>::empty());
                r
            },
        }
    }
}

/// What the New Worktree dialog collected, before any of it was checked
/// against the repository.
#[derive(Clone, Debug, PartialEq, Eq)]
pub struct NewWorktreeRequest {
    /// Directory name under `.git/worktrees/`; may not contain separators.
    pub name: String,
    /// Branch to check out, created if it does not exist.
    pub branch: String,
    /// Branch the new branch starts from; `None` means the current HEAD.
    pub base_branch: Option<String>,
    pub path: String,
}

impl Default for NewWorktreeRequest {
    fn default() -> (r: NewWorktreeRequest)
        ensures
            r.name@.len() == 0 && r.branch@.len() == 0 && r.base_branch is None && r.path@.len() == 0,
    {
        NewWorktreeRequest {
            name: String::new(),
            branch: String::new(),
            base_branch: None,
            path: String::new(),
        }
    }
}

/// What creating a worktree produced, the base commit included: nothing
/// above the git layer could recover it afterwards.
#[derive(Clone, Debug, PartialEq, Eq)]
pub struct CreatedWorktree {
    pub name: String,
    pub branch: String,
    pub path: String,
    /// Full oid the new checkout starts from.
    pub base_commit: String,
}

} // verus!
