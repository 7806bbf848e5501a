//! What a worktree review is measured against, and how much changed since.

use vstd::prelude::*;

use crate::text::{dec, lit, push_all, string_of, usize_chars};

verus! {

/// Where a review base came from.
#[derive(Clone, Copy, Debug, PartialEq, Eq, Structural)]
pub enum ReviewBaseSource {
    /// The exact commit the app branched from, out of the worktree's metadata.
    Recorded,
    /// Derived: where this worktree's branch diverged from the main worktree.
    ForkPoint,
}

/// The commit a worktree's work is measured from.
#[derive(Clone, Debug, PartialEq, Eq)]
pub struct ReviewBase {
    /// Full oid, so it can be looked up again without re-deriving it.
    pub oid: String,
    pub short_oid: String,
    pub source: ReviewBaseSource,
}

/// How the review header explains a base's origin.
pub open spec fn base_description(source: ReviewBaseSource) -> Seq<char> {
    match source {
        ReviewBaseSource::Recorded => "recorded when the worktree was created"@,
        ReviewBaseSource::ForkPoint => "fork point from the main worktree"@,
    }
}

impl ReviewBase {
    /// How the header explains where the base came from.
    pub fn description(&self) -> (r: &'static str)
        ensures
            r@ == base_description(self.source),
    {
        match self.source {
            ReviewBaseSource::Recorded => "recorded when the worktree was created",
            ReviewBaseSource::ForkPoint => "fork point from the main worktree",
        }
    }
}

/// How much a worktree changed since its base: committed, staged and
/// unstaged together.
#[derive(Clone, Copy, Debug, PartialEq, Eq, Structural)]
pub struct ReviewSummary {
    pub files_changed: usize,
    pub insertions: usize,
    pub deletions: usize,
}

impl Default for ReviewSummary {
    fn default() -> (r: ReviewSummary)
        ensures
            r.files_changed == 0 && r.insertions == 0 && r.deletions == 0,
    {
        ReviewSummary { files_changed: 0, insertions: 0, deletions: 0 }
    }
}

/// `"8 files, +120 -45"`, or a sentence when nothing differs. The signs are
/// ASCII.
pub open spec fn summary_label(s: ReviewSummary) -> Seq<char> {
    if s.files_changed == 0 {
        "No changes since its base"@
    } else {
        dec(s.files_changed as nat) + " file"@ + (if s.files_changed == 1 {
            ""@
        } else {
            "s"@
        }) + ", +"@ + dec(s.insertions as nat) + " -"@ + dec(s.deletions as nat)
    }
}

impl ReviewSummary {
    pub fn label(&self) -> (r: String)
        ensures
            r@ == summary_label(*self),
    {
        if self.is_empty() {
            return string_of(lit("No changes since its base").as_slice());
        }
        let mut out = usize_chars(self.files_changed);
        push_all(&mut out, lit(" file").as_slice());
        if self.files_changed != 1 {
            push_all(&mut out, lit("s").as_slice());
        } else {
            push_all(&mut out, lit("").as_slice());
        }
        push_all(&mut out, lit(", +").as_slice());
        push_all(&mut out, usize_chars(self.insertions).as_slice());
        push_all(&mut out, lit(" -").as_slice());
        push_all(&mut out, usize_chars(self.deletions).as_slice());
        string_of(out.as_slice())
    }

    pub fn is_empty(&self) -> (r: bool)
        ensures
            r == (self.files_changed == 0),
    {
        self.files_changed == 0
    }
}

} // verus!
