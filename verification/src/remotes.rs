//! What the push, pull and reset operations report. The transfers themselves
//! are git's; the refspecs they are given, which outcome counts as failure
//! and how each is worded are decided here.

use vstd::prelude::*;

use crate::sync::opt_text;
use crate::text::{chars_of, dec, join, join_chars, lit, owned, push_all, string_of, texts, trim_end_char, trim_end_char_chars, usize_chars};

verus! {

/// `refs/heads/<b>:refs/heads/<b>`: pushes a branch to the branch of the same
/// name.
pub open spec fn branch_refspec(branch: Seq<char>) -> Seq<char> {
    "refs/heads/"@ + branch + ":refs/heads/"@ + branch
}

/// `refs/tags/<t>:refs/tags/<t>`.
pub open spec fn tag_refspec(tag: Seq<char>) -> Seq<char> {
    "refs/tags/"@ + tag + ":refs/tags/"@ + tag
}

/// The remote-tracking reference of a branch on `origin`.
pub open spec fn origin_ref(branch: Seq<char>) -> Seq<char> {
    "refs/remotes/origin/"@ + branch
}

pub fn push_refspec(branch: &str) -> (r: String)
    ensures
        r@ == branch_refspec(branch@),
{
    let b = chars_of(branch);
    let mut v = lit("refs/heads/");
    push_all(&mut v, b.as_slice());
    push_all(&mut v, lit(":refs/heads/").as_slice());
    push_all(&mut v, b.as_slice());
    string_of(v.as_slice())
}

pub fn tag_push_refspec(tag: &str) -> (r: String)
    ensures
        r@ == tag_refspec(tag@),
{
    let t = chars_of(tag);
    let mut v = lit("refs/tags/");
    push_all(&mut v, t.as_slice());
    push_all(&mut v, lit(":refs/tags/").as_slice());
    push_all(&mut v, t.as_slice());
    string_of(v.as_slice())
}

pub fn origin_ref_name(branch: &str) -> (r: String)
    ensures
        r@ == origin_ref(branch@),
{
    let mut v = lit("refs/remotes/origin/");
    push_all(&mut v, chars_of(branch).as_slice());
    string_of(v.as_slice())
}

/// `label: detail`.
pub open spec fn labelled(label: Seq<char>, detail: Seq<char>) -> Seq<char> {
    label + ": "@ + detail
}

/// An error worded as `label: detail`.
pub fn labelled_error(label: &str, detail: &str) -> (r: String)
    ensures
        r@ == labelled(label@, detail@),
{
    let mut v = chars_of(label);
    push_all(&mut v, lit(": ").as_slice());
    push_all(&mut v, chars_of(detail).as_slice());
    string_of(v.as_slice())
}

/// A push the transport accepted still fails when the remote refused the
/// reference update; `rejection` is the reason it gave, if it gave one.
pub fn push_rejection(rejection: &Option<String>) -> (r: Result<(), String>)
    ensures
        match rejection {
            Some(reason) => r matches Err(e) && e@ == labelled("Push rejected by remote"@, reason@),
            None => r is Ok,
        },
{
    match rejection {
        Some(reason) => Err(labelled_error("Push rejected by remote", reason.as_str())),
        None => Ok(()),
    }
}

/// The same for a tag push.
pub fn tag_push_rejection(rejection: &Option<String>) -> (r: Result<(), String>)
    ensures
        match rejection {
            Some(reason) => r matches Err(e) && e@ == labelled("Tag push rejected by remote"@, reason@),
            None => r is Ok,
        },
{
    match rejection {
        Some(reason) => Err(labelled_error("Tag push rejected by remote", reason.as_str())),
        None => Ok(()),
    }
}

/// What a completed push reports: a failure to set the branch's upstream is
/// only a warning, since the commits did arrive.
pub open spec fn push_report(upstream_repair: Result<(), String>) -> Seq<char> {
    match upstream_repair {
        Ok(()) => "Push successful"@,
        Err(e) => "Push successful (warning: upstream configuration error: "@ + e@ + ")"@,
    }
}

pub fn push_success_message(upstream_repair: &Result<(), String>) -> (r: String)
    ensures
        r@ == push_report(*upstream_repair),
{
    match upstream_repair {
        Ok(()) => owned("Push successful"),
        Err(e) => {
            let mut v = lit("Push successful (warning: upstream configuration error: ");
            push_all(&mut v, chars_of(e.as_str()).as_slice());
            v.push(')');
            proof {
                reveal_strlit(")");
            }
            assert(v@ =~= push_report(*upstream_repair));
            string_of(v.as_slice())
        },
    }
}

/// What a pull does after fetching, by git's merge analysis of the fetched
/// branch.
#[derive(Clone, Copy, Debug, PartialEq, Eq, Structural)]
pub enum PullAction {
    AlreadyUpToDate,
    FastForward,
    Merge,
}

/// Up to date wins over fast-forward, which wins over a merge; anything else
/// is left to the user.
pub open spec fn pull_choice(up_to_date: bool, fast_forward: bool, normal: bool) -> Result<PullAction, Seq<char>> {
    if up_to_date {
        Ok(PullAction::AlreadyUpToDate)
    } else if fast_forward {
        Ok(PullAction::FastForward)
    } else if normal {
        Ok(PullAction::Merge)
    } else {
        Err("Pull requires manual reconciliation."@)
    }
}

pub fn pull_action(up_to_date: bool, fast_forward: bool, normal: bool) -> (r: Result<PullAction, String>)
    ensures
        match pull_choice(up_to_date, fast_forward, normal) {
            Ok(a) => r == Ok::<PullAction, String>(a),
            Err(m) => r matches Err(e) && e@ == m,
        },
{
    if up_to_date {
        Ok(PullAction::AlreadyUpToDate)
    } else if fast_forward {
        Ok(PullAction::FastForward)
    } else if normal {
        Ok(PullAction::Merge)
    } else {
        Err(owned("Pull requires manual reconciliation."))
    }
}

/// The message of a merge commit a pull makes; `remote_url` is `origin`'s
/// URL, when it has one.
pub open spec fn merge_commit_text(branch: Seq<char>, remote_url: Option<Seq<char>>) -> Seq<char> {
    "Merge branch '"@ + branch + "' of "@ + match remote_url {
        Some(u) => u,
        None => "origin"@,
    }
}

pub fn merge_commit_message(branch: &str, remote_url: &Option<String>) -> (r: String)
    ensures
        r@ == merge_commit_text(branch@, opt_text(*remote_url)),
{
    let mut v = lit("Merge branch '");
    push_all(&mut v, chars_of(branch).as_slice());
    push_all(&mut v, lit("' of ").as_slice());
    match remote_url {
        Some(u) => push_all(&mut v, chars_of(u.as_str()).as_slice()),
        None => push_all(&mut v, lit("origin").as_slice()),
    }
    string_of(v.as_slice())
}

/// What a pull that left conflicts reports.
pub fn conflicted_pull_message(branch: &str) -> (r: String)
    ensures
        r@ == "Pull completed with conflicts on "@ + branch@ + ". Resolve them and commit the merge."@,
{
    let mut v = lit("Pull completed with conflicts on ");
    push_all(&mut v, chars_of(branch).as_slice());
    push_all(&mut v, lit(". Resolve them and commit the merge.").as_slice());
    string_of(v.as_slice())
}

/// An untracked entry a reset could not remove.
#[derive(Clone, Debug)]
pub struct RemovalFailure {
    pub path: String,
    pub error: String,
}

/// A failed removal as reported: the path without the trailing `/` git puts
/// on a directory.
pub fn removal_failure(path: &str, error: &str) -> (r: RemovalFailure)
    ensures
        r.path@ == trim_end_char(path@, '/'),
        r.error@ == error@,
{
    RemovalFailure {
        path: string_of(trim_end_char_chars(chars_of(path).as_slice(), '/').as_slice()),
        error: owned(error),
    }
}

/// `path (error)`.
pub open spec fn failure_text(f: RemovalFailure) -> Seq<char> {
    f.path@ + " ("@ + f.error@ + ")"@
}

/// What a discard-and-reset reports: the branch it reset to, how many
/// untracked entries went, and which could not be removed and why.
pub open spec fn reset_report(branch: Seq<char>, removed: nat, failures: Seq<RemovalFailure>) -> Seq<char> {
    "Reset to origin/"@ + branch + (if removed > 0 {
        ", removed "@ + dec(removed) + " untracked entry(ies)"@
    } else {
        Seq::empty()
    }) + (if failures.len() > 0 {
        ", failed to remove "@ + dec(failures.len()) + " untracked entry(ies): "@ + join(
            Seq::new(failures.len(), |i: int| failure_text(failures[i])),
            ", "@,
        )
    } else {
        Seq::empty()
    })
}

pub fn reset_message(branch: &str, removed: usize, failures: &[RemovalFailure]) -> (r: String)
    ensures
        r@ == reset_report(branch@, removed as nat, failures@),
{
    let mut v = lit("Reset to origin/");
    push_all(&mut v, chars_of(branch).as_slice());
    let ghost head = v@;
    if removed > 0 {
        push_all(&mut v, lit(", removed ").as_slice());
        push_all(&mut v, usize_chars(removed).as_slice());
        push_all(&mut v, lit(" untracked entry(ies)").as_slice());
    }
    let ghost middle = v@;
    if failures.len() > 0 {
        let mut parts: Vec<Vec<char>> = Vec::new();
        let n = failures.len();
        let mut i: usize = 0;
        while i < n
            invariant
                n == failures@.len(),
                0 <= i <= n,
                parts@.len() == i,
                forall|k: int| 0 <= k < i ==> (#[trigger] parts@[k])@ == failure_text(failures@[k]),
            decreases n - i,
        {
            let mut p = chars_of(failures[i].path.as_str());
            push_all(&mut p, lit(" (").as_slice());
            push_all(&mut p, chars_of(failures[i].error.as_str()).as_slice());
            p.push(')');
            proof {
                reveal_strlit(")");
            }
            assert(p@ =~= failure_text(failures@[i as int]));
            parts.push(p);
            i = i + 1;
        }
        assert(texts(parts@) =~= Seq::new(failures@.len(), |i: int| failure_text(failures@[i])));
        push_all(&mut v, lit(", failed to remove ").as_slice());
        push_all(&mut v, usize_chars(n).as_slice());
        push_all(&mut v, lit(" untracked entry(ies): ").as_slice());
        push_all(&mut v, join_chars(&parts, lit(", ").as_slice()).as_slice());
    }
    string_of(v.as_slice())
}

/// What undoing the last commit reports.
pub fn undo_report(short_oid: &str, branch: &str) -> (r: String)
    ensures
        r@ == "Removed commit "@ + short_oid@ + " from "@ + branch@ + " and kept its changes staged"@,
{
    let mut v = lit("Removed commit ");
    push_all(&mut v, chars_of(short_oid).as_slice());
    push_all(&mut v, lit(" from ").as_slice());
    push_all(&mut v, chars_of(branch).as_slice());
    push_all(&mut v, lit(" and kept its changes staged").as_slice());
    string_of(v.as_slice())
}

} // verus!
