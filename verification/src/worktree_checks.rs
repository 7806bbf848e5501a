//! What a request to add or remove a linked worktree must pass before git is
//! asked to do it. The caller reads the repository and the file system; the
//! verdicts are made here.

use vstd::prelude::*;

use crate::branches::{branch_name_is_valid, heads_ref, valid_reference_name};
use crate::sync::opt_text;
use crate::text::{chars_of, list_contains, lit, owned, push_all, string_of, strs, trim, trim_chars};
use crate::worktree_service::{name_problem, quoted, worktree_name_problem};
use crate::worktrees::{LinkedWorktreeStatus, NewWorktreeRequest};

verus! {

/// What is at a worktree's destination on disk.
#[derive(Clone, Debug)]
pub enum DestinationState {
    /// Nothing: the parent folders are created and git makes the leaf.
    Vacant,
    /// Something that is not a folder.
    NotAFolder,
    /// A folder with something in it.
    NotEmpty,
    /// An empty folder, which is removed first and then made again by git.
    EmptyFolder,
    /// A folder whose entries could not be listed; the text says why.
    Unreadable(String),
}

/// What the destination check found usable.
#[derive(Clone, Copy, Debug, PartialEq, Eq, Structural)]
pub enum Destination {
    Vacant,
    EmptyFolder,
}

/// Why a destination cannot take a new worktree, or what has to be done to
/// it first.
pub open spec fn destination_verdict(path: Seq<char>, has_parent: bool, state: DestinationState) -> Result<Destination, Seq<char>> {
    if path.len() == 0 {
        Err("Choose a destination folder for the worktree."@)
    } else if !has_parent {
        Err(quoted("Destination "@, path, " has no parent folder."@))
    } else {
        match state {
            DestinationState::Vacant => Ok(Destination::Vacant),
            DestinationState::NotAFolder => Err(quoted("Destination "@, path, " already exists and is not a folder."@)),
            DestinationState::NotEmpty => Err(quoted("Destination "@, path, " already exists and is not empty."@)),
            DestinationState::EmptyFolder => Ok(Destination::EmptyFolder),
            DestinationState::Unreadable(e) => Err(quoted("Destination "@, path, " could not be read: "@) + e@),
        }
    }
}

fn quoted_text(head: &str, name: &[char], tail: &str) -> (r: Vec<char>)
    ensures
        r@ == quoted(head@, name@, tail@),
{
    let mut out = chars_of(head);
    out.push('\'');
    push_all(&mut out, name);
    out.push('\'');
    push_all(&mut out, chars_of(tail).as_slice());
    out
}

/// Checks a worktree's destination, given whether the path has a parent
/// folder and what is on disk there.
pub fn check_destination(path: &str, has_parent: bool, state: &DestinationState) -> (r: Result<Destination, String>)
    ensures
        match destination_verdict(path@, has_parent, *state) {
            Ok(d) => r == Ok::<Destination, String>(d),
            Err(m) => r matches Err(e) && e@ == m,
        },
{
    let p = chars_of(path);
    if p.len() == 0 {
        return Err(owned("Choose a destination folder for the worktree."));
    }
    if !has_parent {
        return Err(string_of(quoted_text("Destination ", p.as_slice(), " has no parent folder.").as_slice()));
    }
    match state {
        DestinationState::Vacant => Ok(Destination::Vacant),
        DestinationState::NotAFolder => Err(string_of(
            quoted_text("Destination ", p.as_slice(), " already exists and is not a folder.").as_slice(),
        )),
        DestinationState::NotEmpty => Err(string_of(
            quoted_text("Destination ", p.as_slice(), " already exists and is not empty.").as_slice(),
        )),
        DestinationState::EmptyFolder => Ok(Destination::EmptyFolder),
        DestinationState::Unreadable(e) => {
            let mut m = quoted_text("Destination ", p.as_slice(), " could not be read: ");
            push_all(&mut m, chars_of(e.as_str()).as_slice());
            Err(string_of(m.as_slice()))
        },
    }
}

/// What the repository says about a requested worktree.
#[derive(Clone, Debug)]
pub struct WorktreeRepoFacts {
    /// The names of the linked worktrees that exist.
    pub worktree_names: Vec<String>,
    /// Whether the requested branch exists locally.
    pub branch_exists: bool,
    /// The checkout that has the requested branch checked out, when the branch
    /// exists and one does.
    pub branch_holder: Option<String>,
}

pub open spec fn invalid_worktree_branch_message() -> Seq<char> {
    "Invalid branch name. Avoid spaces, '..', '~', '^', ':', '?', '*', '[', '\\', and leading/trailing '/' or '.'."@
}

/// Whether the check of a New Worktree request gets as far as asking
/// whether its branch name is valid.
pub open spec fn reaches_branch_check(request: NewWorktreeRequest, repo: Result<WorktreeRepoFacts, String>) -> bool {
    let name = trim(request.name@);
    let branch = trim(request.branch@);
    &&& name.len() > 0
    &&& branch.len() > 0
    &&& name_problem(name) is None
    &&& repo matches Ok(facts)
    &&& !strs(facts.worktree_names@).contains(name)
}

/// The live feedback on a New Worktree request: nothing while a field is
/// still empty, then the first problem found, in the order the form can fix
/// them.
pub open spec fn worktree_request_verdict(
    request: NewWorktreeRequest,
    repo: Result<WorktreeRepoFacts, String>,
    branch_valid: bool,
    has_parent: bool,
    destination: DestinationState,
) -> Option<Seq<char>> {
    let name = trim(request.name@);
    let branch = trim(request.branch@);
    if name.len() == 0 || branch.len() == 0 {
        None
    } else if name_problem(name) is Some {
        name_problem(name)
    } else {
        match repo {
            Err(e) => Some(e@),
            Ok(facts) => if strs(facts.worktree_names@).contains(name) {
                Some(quoted("A worktree named "@, name, " already exists."@))
            } else if !branch_valid {
                Some(invalid_worktree_branch_message())
            } else if facts.branch_holder is Some {
                Some(
                    quoted("Branch "@, branch, " is already checked out in another worktree ("@)
                        + quoted(""@, facts.branch_holder->0@, ")."@),
                )
            } else {
                match destination_verdict(request.path@, has_parent, destination) {
                    Ok(_) => None,
                    Err(m) => Some(m),
                }
            },
        }
    }
}

/// The verdict on a New Worktree request, given libgit2's answer for the
/// trimmed branch name.
pub fn worktree_request_problem(
    request: &NewWorktreeRequest,
    repo: &Result<WorktreeRepoFacts, String>,
    branch_is_valid: bool,
    has_parent: bool,
    destination: &DestinationState,
) -> (r: Option<String>)
    ensures
        opt_text(r) == worktree_request_verdict(*request, *repo, branch_is_valid, has_parent, *destination),
{
    let name = trim_chars(chars_of(request.name.as_str()).as_slice());
    let branch = trim_chars(chars_of(request.branch.as_str()).as_slice());
    if name.len() == 0 || branch.len() == 0 {
        return None;
    }
    let name_text = string_of(name.as_slice());
    match worktree_name_problem(name_text.as_str()) {
        Some(p) => {
            return Some(p);
        },
        None => {},
    }
    match repo {
        Err(e) => Some(e.clone()),
        Ok(facts) => {
            if list_contains(facts.worktree_names.as_slice(), name.as_slice()) {
                Some(string_of(quoted_text("A worktree named ", name.as_slice(), " already exists.").as_slice()))
            } else if !branch_is_valid {
                Some(owned(
                    "Invalid branch name. Avoid spaces, '..', '~', '^', ':', '?', '*', '[', '\\', and leading/trailing '/' or '.'.",
                ))
            } else {
                match &facts.branch_holder {
                    Some(holder) => {
                        let mut m = quoted_text(
                            "Branch ",
                            branch.as_slice(),
                            " is already checked out in another worktree (",
                        );
                        let h = quoted_text("", chars_of(holder.as_str()).as_slice(), ").");
                        push_all(&mut m, h.as_slice());
                        Some(string_of(m.as_slice()))
                    },
                    None => match check_destination(request.path.as_str(), has_parent, destination) {
                        Ok(_) => None,
                        Err(m) => Some(m),
                    },
                }
            }
        },
    }
}

/// Live feedback on a New Worktree request.
pub fn validate_new_worktree(
    request: &NewWorktreeRequest,
    repo: &Result<WorktreeRepoFacts, String>,
    has_parent: bool,
    destination: &DestinationState,
) -> (r: Option<String>)
    requires
        reaches_branch_check(*request, *repo) ==> !request.branch@.contains('\0'),
    ensures
        opt_text(r) == worktree_request_verdict(
            *request,
            *repo,
            valid_reference_name(heads_ref(trim(request.branch@))),
            has_parent,
            *destination,
        ),
{
    let name = trim_chars(chars_of(request.name.as_str()).as_slice());
    let branch = trim_chars(chars_of(request.branch.as_str()).as_slice());
    let name_text = string_of(name.as_slice());
    let reaches = name.len() > 0 && branch.len() > 0 && worktree_name_problem(name_text.as_str()).is_none()
        && match repo {
        Ok(facts) => !list_contains(facts.worktree_names.as_slice(), name.as_slice()),
        Err(_) => false,
    };
    if !reaches {
        return worktree_request_problem(request, repo, true, has_parent, destination);
    }
    proof {
        crate::text::lemma_trim_keeps_absent(request.branch@, '\0');
    }
    let valid = branch_name_is_valid(branch.as_slice());
    worktree_request_problem(request, repo, valid, has_parent, destination)
}

/// Where the branch of a new worktree starts.
#[derive(Clone, Debug)]
pub enum BranchStart {
    /// The branch exists and is checked out as it is.
    Existing,
    /// The branch is created from this local branch.
    FromBranch(String),
    /// The branch is created from the current HEAD.
    FromHead,
}

/// What adding a worktree will do, once every check passed.
#[derive(Clone, Debug)]
pub struct WorktreePlan {
    pub name: String,
    pub branch: String,
    pub destination: Destination,
    pub start: BranchStart,
}

pub open spec fn start_view(s: BranchStart) -> Option<Option<Seq<char>>> {
    match s {
        BranchStart::Existing => None,
        BranchStart::FromBranch(b) => Some(Some(b@)),
        BranchStart::FromHead => Some(None),
    }
}

/// Whether adding a worktree gets as far as asking whether its branch name
/// is valid.
pub open spec fn add_reaches_branch_check(request: NewWorktreeRequest) -> bool {
    let name = trim(request.name@);
    &&& name.len() > 0
    &&& trim(request.branch@).len() > 0
    &&& name_problem(name) is None
}

/// The checks made before a worktree is added, in the order they are made:
/// the trimmed name and branch, what to do with the destination, and where
/// the branch starts; or why it cannot be done.
pub open spec fn add_worktree_verdict(
    request: NewWorktreeRequest,
    branch_valid: bool,
    repo: Result<WorktreeRepoFacts, String>,
    has_parent: bool,
    destination: DestinationState,
) -> Result<(Seq<char>, Seq<char>, Destination, Option<Option<Seq<char>>>), Seq<char>> {
    let name = trim(request.name@);
    let branch = trim(request.branch@);
    if name.len() == 0 {
        Err("Worktree name cannot be empty"@)
    } else if branch.len() == 0 {
        Err("Branch name cannot be empty"@)
    } else if name_problem(name) is Some {
        Err(name_problem(name)->0)
    } else if !branch_valid {
        Err("Invalid branch name"@)
    } else {
        match repo {
            Err(e) => Err(e@),
            Ok(facts) => if strs(facts.worktree_names@).contains(name) {
                Err(quoted("A worktree named "@, name, " already exists."@))
            } else {
                match destination_verdict(request.path@, has_parent, destination) {
                    Err(m) => Err(m),
                    Ok(d) => if facts.branch_exists {
                        match facts.branch_holder {
                            Some(h) => Err(
                                quoted("Branch "@, branch, " is already checked out in another worktree ("@)
                                    + quoted(""@, h@, ")."@),
                            ),
                            None => Ok((name, branch, d, None)),
                        }
                    } else {
                        let base = match request.base_branch {
                            Some(b) => if trim(b@).len() > 0 {
                                Some(trim(b@))
                            } else {
                                None
                            },
                            None => None,
                        };
                        Ok((name, branch, d, Some(base)))
                    },
                }
            },
        }
    }
}

pub open spec fn plan_view(r: Result<WorktreePlan, String>) -> Result<(Seq<char>, Seq<char>, Destination, Option<Option<Seq<char>>>), Seq<char>> {
    match r {
        Ok(p) => Ok((p.name@, p.branch@, p.destination, start_view(p.start))),
        Err(e) => Err(e@),
    }
}

/// What adding a worktree will do, given libgit2's answer for the trimmed
/// branch name and what the repository and the disk hold.
pub fn plan_worktree(
    request: &NewWorktreeRequest,
    branch_is_valid: bool,
    repo: &Result<WorktreeRepoFacts, String>,
    has_parent: bool,
    destination: &DestinationState,
) -> (r: Result<WorktreePlan, String>)
    ensures
        plan_view(r) == add_worktree_verdict(*request, branch_is_valid, *repo, has_parent, *destination),
{
    let name = trim_chars(chars_of(request.name.as_str()).as_slice());
    let branch = trim_chars(chars_of(request.branch.as_str()).as_slice());
    if name.len() == 0 {
        return Err(owned("Worktree name cannot be empty"));
    }
    if branch.len() == 0 {
        return Err(owned("Branch name cannot be empty"));
    }
    let name_text = string_of(name.as_slice());
    match worktree_name_problem(name_text.as_str()) {
        Some(p) => {
            return Err(p);
        },
        None => {},
    }
    if !branch_is_valid {
        return Err(owned("Invalid branch name"));
    }
    let facts = match repo {
        Err(e) => {
            return Err(e.clone());
        },
        Ok(f) => f,
    };
    if list_contains(facts.worktree_names.as_slice(), name.as_slice()) {
        return Err(string_of(quoted_text("A worktree named ", name.as_slice(), " already exists.").as_slice()));
    }
    let d = match check_destination(request.path.as_str(), has_parent, destination) {
        Err(m) => {
            return Err(m);
        },
        Ok(d) => d,
    };
    let start = if facts.branch_exists {
        match &facts.branch_holder {
            Some(holder) => {
                let mut m = quoted_text("Branch ", branch.as_slice(), " is already checked out in another worktree (");
                let h = quoted_text("", chars_of(holder.as_str()).as_slice(), ").");
                push_all(&mut m, h.as_slice());
                return Err(string_of(m.as_slice()));
            },
            None => BranchStart::Existing,
        }
    } else {
        match &request.base_branch {
            Some(b) => {
                let t = trim_chars(chars_of(b.as_str()).as_slice());
                if t.len() > 0 {
                    BranchStart::FromBranch(string_of(t.as_slice()))
                } else {
                    BranchStart::FromHead
                }
            },
            None => BranchStart::FromHead,
        }
    };
    Ok(WorktreePlan { name: name_text, branch: string_of(branch.as_slice()), destination: d, start })
}

/// The checks made before a worktree is added.
pub fn check_add_worktree(
    request: &NewWorktreeRequest,
    repo: &Result<WorktreeRepoFacts, String>,
    has_parent: bool,
    destination: &DestinationState,
) -> (r: Result<WorktreePlan, String>)
    requires
        add_reaches_branch_check(*request) ==> !request.branch@.contains('\0'),
    ensures
        plan_view(r) == add_worktree_verdict(
            *request,
            valid_reference_name(heads_ref(trim(request.branch@))),
            *repo,
            has_parent,
            *destination,
        ),
{
    let name = trim_chars(chars_of(request.name.as_str()).as_slice());
    let branch = trim_chars(chars_of(request.branch.as_str()).as_slice());
    let name_text = string_of(name.as_slice());
    if name.len() == 0 || branch.len() == 0 || worktree_name_problem(name_text.as_str()).is_some() {
        return plan_worktree(request, true, repo, has_parent, destination);
    }
    proof {
        crate::text::lemma_trim_keeps_absent(request.branch@, '\0');
    }
    let valid = branch_name_is_valid(branch.as_slice());
    plan_worktree(request, valid, repo, has_parent, destination)
}

/// Why a linked worktree may not be pruned, given whether it is locked (with
/// its reason) and, when its checkout exists and was inspected, its status.
pub open spec fn prune_problem(name: Seq<char>, locked: Option<Option<String>>, inspected: Option<LinkedWorktreeStatus>) -> Option<Seq<char>> {
    match locked {
        Some(reason) => Some(
            quoted("Worktree "@, name, " is locked: "@) + match reason {
                Some(r) => r@,
                None => "no reason given"@,
            } + ". Unlock it before removing."@,
        ),
        None => match inspected {
            Some(LinkedWorktreeStatus::Dirty { .. }) => Some(
                quoted(
                    "Cannot remove worktree "@,
                    name,
                    " because it contains uncommitted changes. Open it and commit or discard them first."@,
                ),
            ),
            Some(LinkedWorktreeStatus::Unavailable(d)) => Some(
                quoted("Cannot remove worktree "@, name, " because its status could not be read: "@) + d@,
            ),
            _ => None,
        },
    }
}

/// The live feedback on a New Worktree request and the checks made when it is
/// carried out agree: once both fields are filled in, the form shows no
/// problem exactly when the worktree can be added. (The facts are consistent:
/// only an existing branch can be checked out somewhere.)
pub proof fn law_feedback_agrees_with_adding(
    request: NewWorktreeRequest,
    repo: Result<WorktreeRepoFacts, String>,
    branch_valid: bool,
    has_parent: bool,
    destination: DestinationState,
)
    requires
        trim(request.name@).len() > 0,
        trim(request.branch@).len() > 0,
        repo matches Ok(f) ==> (f.branch_holder is Some ==> f.branch_exists),
    ensures
        worktree_request_verdict(request, repo, branch_valid, has_parent, destination) is None
            <==> add_worktree_verdict(request, branch_valid, repo, has_parent, destination) is Ok,
{
}

/// What a removal reports when the repository has no worktree by that name.
pub fn worktree_not_found(name: &str) -> (r: String)
    ensures
        r@ == quoted("Worktree "@, name@, " was not found in this repository."@),
{
    string_of(quoted_text("Worktree ", chars_of(name).as_slice(), " was not found in this repository.").as_slice())
}

/// The last check before a worktree is pruned.
pub fn prune_blocker(name: &str, locked: &Option<Option<String>>, inspected: &Option<LinkedWorktreeStatus>) -> (r: Option<String>)
    ensures
        opt_text(r) == prune_problem(name@, *locked, *inspected),
{
    let n = chars_of(name);
    match locked {
        Some(reason) => {
            let mut m = quoted_text("Worktree ", n.as_slice(), " is locked: ");
            match reason {
                Some(r) => push_all(&mut m, chars_of(r.as_str()).as_slice()),
                None => push_all(&mut m, lit("no reason given").as_slice()),
            }
            push_all(&mut m, lit(". Unlock it before removing.").as_slice());
            Some(string_of(m.as_slice()))
        },
        None => match inspected {
            Some(LinkedWorktreeStatus::Dirty { .. }) => Some(string_of(
                quoted_text(
                    "Cannot remove worktree ",
                    n.as_slice(),
                    " because it contains uncommitted changes. Open it and commit or discard them first.",
                ).as_slice(),
            )),
            Some(LinkedWorktreeStatus::Unavailable(d)) => {
                let mut m = quoted_text("Cannot remove worktree ", n.as_slice(), " because its status could not be read: ");
                push_all(&mut m, chars_of(d.as_str()).as_slice());
                Some(string_of(m.as_slice()))
            },
            _ => None,
        },
    }
}

} // verus!
