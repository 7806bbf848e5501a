//! Which names a new branch may take, and which local branches count as
//! stale. Whether libgit2 accepts a text as a reference name is its own
//! business; everything around that answer is decided here.

use vstd::prelude::*;

use crate::git::StaleBranch;
use crate::sync::opt_text;
use crate::text::{chars_of, lit, list_contains, owned, push_all, string_of, strs, trim, trim_chars};

verus! {

/// Whether libgit2 accepts the text as a reference name.
pub uninterp spec fn valid_reference_name(refname: Seq<char>) -> bool;

/// `git2::Reference::is_valid_name`: whether libgit2 accepts `refname` as a
/// reference name. The result depends on the name alone; which names pass is
/// libgit2's rule and is not restated here. The function panics on a text that
/// holds a NUL, which `requires` leaves out.
#[verifier::external_body]
pub(crate) fn reference_name_is_valid(refname: &str) -> (r: bool)
    requires
        !refname@.contains('\0'),
    ensures
        r == valid_reference_name(refname@),
{
    git2::Reference::is_valid_name(refname)
}

/// The full name of the local branch `name`.
pub open spec fn heads_ref(name: Seq<char>) -> Seq<char> {
    "refs/heads/"@ + name
}

/// The full reference name of a local branch.
pub fn heads_ref_name(name: &[char]) -> (r: String)
    ensures
        r@ == heads_ref(name@),
{
    let mut v = lit("refs/heads/");
    push_all(&mut v, name);
    string_of(v.as_slice())
}

/// Whether libgit2 accepts `name` as the name of a local branch.
pub fn branch_name_is_valid(name: &[char]) -> (r: bool)
    requires
        !name@.contains('\0'),
    ensures
        r == valid_reference_name(heads_ref(name@)),
{
    let full = heads_ref_name(name);
    proof {
        reveal_strlit("refs/heads/");
        assert forall|i: int| 0 <= i < full@.len() implies full@[i] != '\0' by {
            if i >= 11 {
                assert(full@[i] == name@[i - 11]);
            }
        }
    }
    reference_name_is_valid(full.as_str())
}

pub open spec fn invalid_branch_name_message() -> Seq<char> {
    "Invalid name. Avoid spaces, '..', '~', '^', ':', '?', '*', '[', '\\', and leading/trailing '/' or '.'."@
}

/// Why a name typed for a new branch cannot be used, if so: nothing is said of
/// an empty name, since the form only disables its button then.
pub open spec fn branch_name_problem(name: Seq<char>, valid: bool, local_branches: Seq<Seq<char>>) -> Option<Seq<char>> {
    let t = trim(name);
    if t.len() == 0 {
        None
    } else if !valid {
        Some(invalid_branch_name_message())
    } else if local_branches.contains(t) {
        Some("A branch named '"@ + t + "' already exists."@)
    } else {
        None
    }
}

/// The verdict on a typed branch name, given libgit2's answer for its trimmed
/// form and the local branches.
pub fn new_branch_name_problem(name: &str, name_is_valid: bool, local_branches: &[String]) -> (r: Option<String>)
    ensures
        opt_text(r) == branch_name_problem(name@, name_is_valid, strs(local_branches@)),
{
    let t = trim_chars(chars_of(name).as_slice());
    if t.len() == 0 {
        None
    } else if !name_is_valid {
        Some(owned(
            "Invalid name. Avoid spaces, '..', '~', '^', ':', '?', '*', '[', '\\', and leading/trailing '/' or '.'.",
        ))
    } else if list_contains(local_branches, t.as_slice()) {
        let mut m = lit("A branch named '");
        push_all(&mut m, t.as_slice());
        push_all(&mut m, lit("' already exists.").as_slice());
        Some(string_of(m.as_slice()))
    } else {
        None
    }
}

/// Live feedback on a name typed for a new branch.
pub fn validate_new_branch_name(name: &str, local_branches: &[String]) -> (r: Option<String>)
    requires
        !name@.contains('\0'),
    ensures
        opt_text(r) == branch_name_problem(
            name@,
            valid_reference_name(heads_ref(trim(name@))),
            strs(local_branches@),
        ),
{
    let t = trim_chars(chars_of(name).as_slice());
    if t.len() == 0 {
        return None;
    }
    proof {
        crate::text::lemma_trim_keeps_absent(name@, '\0');
    }
    let valid = branch_name_is_valid(t.as_slice());
    new_branch_name_problem(name, valid, local_branches)
}

/// Whether a branch may be created under `name`: the trimmed name, or why not.
pub open spec fn branch_creation(name: Seq<char>, valid: bool, local_branches: Seq<Seq<char>>) -> Result<Seq<char>, Seq<char>> {
    let t = trim(name);
    if t.len() == 0 {
        Err("Branch name cannot be empty"@)
    } else if !valid {
        Err("Invalid branch name"@)
    } else if local_branches.contains(t) {
        Err("Branch already exists"@)
    } else {
        Ok(t)
    }
}

pub open spec fn result_text(r: Result<String, String>) -> Result<Seq<char>, Seq<char>> {
    match r {
        Ok(s) => Ok(s@),
        Err(e) => Err(e@),
    }
}

/// The check made before a branch is created, given libgit2's answer for the
/// trimmed name.
pub fn branch_creation_verdict(name: &str, name_is_valid: bool, local_branches: &[String]) -> (r: Result<String, String>)
    ensures
        result_text(r) == branch_creation(name@, name_is_valid, strs(local_branches@)),
{
    let t = trim_chars(chars_of(name).as_slice());
    if t.len() == 0 {
        Err(owned("Branch name cannot be empty"))
    } else if !name_is_valid {
        Err(owned("Invalid branch name"))
    } else if list_contains(local_branches, t.as_slice()) {
        Err(owned("Branch already exists"))
    } else {
        Ok(string_of(t.as_slice()))
    }
}

/// The check made before a branch is created: the trimmed name to create, or
/// why it cannot be.
pub fn check_branch_creation(name: &str, local_branches: &[String]) -> (r: Result<String, String>)
    requires
        !name@.contains('\0'),
    ensures
        result_text(r) == branch_creation(
            name@,
            valid_reference_name(heads_ref(trim(name@))),
            strs(local_branches@),
        ),
{
    let t = trim_chars(chars_of(name).as_slice());
    if t.len() == 0 {
        return Err(owned("Branch name cannot be empty"));
    }
    proof {
        crate::text::lemma_trim_keeps_absent(name@, '\0');
    }
    let valid = branch_name_is_valid(t.as_slice());
    branch_creation_verdict(name, valid, local_branches)
}

/// The live feedback and the check made on creation agree: a name the form
/// raises no problem with is one a branch can be created under, and the form
/// names a problem exactly when creation would refuse.
pub proof fn law_feedback_agrees_with_creation(name: Seq<char>, valid: bool, local_branches: Seq<Seq<char>>)
    requires
        trim(name).len() > 0,
    ensures
        branch_name_problem(name, valid, local_branches) is None <==> branch_creation(name, valid, local_branches) is Ok,
        branch_creation(name, valid, local_branches) matches Ok(t) ==> t == trim(name),
{
}

/// A local branch as the stale-branch cleanup sees it.
#[derive(Clone, Debug)]
pub struct LocalBranch {
    /// The branch name, when it is valid UTF-8.
    pub name: Option<String>,
    /// Whether it is the checked-out branch.
    pub is_head: bool,
    /// Whether it tracks an upstream branch that no longer exists.
    pub upstream_gone: bool,
    /// Whether HEAD already contains its tip.
    pub merged_into_head: bool,
}

/// A branch the cleanup offers: not checked out, named, not `main` or
/// `master`, and tracking an upstream that is gone.
pub open spec fn is_stale(b: LocalBranch) -> bool {
    &&& !b.is_head
    &&& b.name is Some
    &&& b.name->0@ != "main"@
    &&& b.name->0@ != "master"@
    &&& b.upstream_gone
}

/// The stale branches among `branches`, in order, as (name, merged) pairs.
pub open spec fn stale_of(branches: Seq<LocalBranch>) -> Seq<(Seq<char>, bool)>
    decreases branches.len(),
{
    if branches.len() == 0 {
        Seq::empty()
    } else {
        let rest = stale_of(branches.drop_last());
        let b = branches.last();
        if is_stale(b) {
            rest.push((b.name->0@, b.merged_into_head))
        } else {
            rest
        }
    }
}

pub open spec fn stale_view(s: StaleBranch) -> (Seq<char>, bool) {
    (s.name@, s.merged_into_head)
}

/// The branches the cleanup dialog lists; those already merged start out
/// selected.
pub fn stale_branches(branches: &[LocalBranch]) -> (r: Vec<StaleBranch>)
    ensures
        r@.len() == stale_of(branches@).len(),
        forall|i: int| 0 <= i < r@.len() ==> #[trigger] stale_view(r@[i]) == stale_of(branches@)[i],
        forall|i: int| 0 <= i < r@.len() ==> (#[trigger] r@[i]).selected == r@[i].merged_into_head,
{
    let mut out: Vec<StaleBranch> = Vec::new();
    let n = branches.len();
    let mut i: usize = 0;
    while i < n
        invariant
            n == branches@.len(),
            0 <= i <= n,
            out@.len() == stale_of(branches@.take(i as int)).len(),
            forall|k: int| 0 <= k < out@.len() ==> #[trigger] stale_view(out@[k]) == stale_of(branches@.take(i as int))[k],
            forall|k: int| 0 <= k < out@.len() ==> (#[trigger] out@[k]).selected == out@[k].merged_into_head,
        decreases n - i,
    {
        assert(branches@.take(i as int + 1).drop_last() =~= branches@.take(i as int));
        let b = &branches[i];
        assert(branches@.take(i as int + 1).last() == *b);
        if !b.is_head && b.upstream_gone {
            match &b.name {
                Some(name) => {
                    let v = chars_of(name.as_str());
                    proof {
                        reveal_strlit("main");
                        reveal_strlit("master");
                    }
                    if !crate::text::seq_eq(v.as_slice(), lit("main").as_slice())
                        && !crate::text::seq_eq(v.as_slice(), lit("master").as_slice()) {
                        out.push(StaleBranch {
                            name: name.clone(),
                            merged_into_head: b.merged_into_head,
                            selected: b.merged_into_head,
                        });
                    }
                },
                None => {},
            }
        }
        i = i + 1;
    }
    assert(branches@.take(n as int) =~= branches@);
    out
}

} // verus!
