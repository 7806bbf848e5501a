//! Which worktree operations are allowed. The git calls live behind
//! `GitLinkedWorktreePort`; the checks are repeated here because the
//! repository can change between opening a dialog and confirming it.

use vstd::prelude::*;

use crate::ports::{calls_added, GitCall, GitLinkedWorktreePort};
use crate::text::{chars_of, lit, push_all, seq_eq, string_of, trim, trim_chars};
use crate::worktrees::{LinkedWorktree, LinkedWorktreeStatus, NewWorktreeRequest};

verus! {

/// Worktrees holding uncommitted work are never destroyed: the removal
/// passes this to git.
pub const ALLOW_DESTROYING_UNCOMMITTED_WORK: bool = false;

/// `head`, a quoted `name`, and `tail`.
pub open spec fn quoted(head: Seq<char>, name: Seq<char>, tail: Seq<char>) -> Seq<char> {
    head + seq!['\''] + name + seq!['\''] + tail
}

fn quoted_text(head: &str, name: &str, tail: &str) -> (r: String)
    ensures
        r@ == quoted(head@, name@, tail@),
{
    let mut out = chars_of(head);
    out.push('\'');
    push_all(&mut out, chars_of(name).as_slice());
    out.push('\'');
    push_all(&mut out, chars_of(tail).as_slice());
    string_of(out.as_slice())
}

/// What is missing from a New Worktree request, if anything.
pub open spec fn request_problem(r: NewWorktreeRequest) -> Option<Seq<char>> {
    if trim(r.name@).len() == 0 {
        Some("Enter a name for the worktree."@)
    } else if trim(r.branch@).len() == 0 {
        Some("Enter a branch for the worktree."@)
    } else if r.path@.len() == 0 {
        Some("Choose a destination folder for the worktree."@)
    } else {
        None
    }
}

pub fn new_worktree_problem(request: &NewWorktreeRequest) -> (r: Option<String>)
    ensures
        match request_problem(*request) {
            Some(m) => r matches Some(x) && x@ == m,
            None => r is None,
        },
{
    if trim_chars(chars_of(request.name.as_str()).as_slice()).len() == 0 {
        Some(string_of(lit("Enter a name for the worktree.").as_slice()))
    } else if trim_chars(chars_of(request.branch.as_str()).as_slice()).len() == 0 {
        Some(string_of(lit("Enter a branch for the worktree.").as_slice()))
    } else if chars_of(request.path.as_str()).len() == 0 {
        Some(string_of(lit("Choose a destination folder for the worktree.").as_slice()))
    } else {
        None
    }
}

/// Whether a listed worktree has `branch` checked out.
pub open spec fn holds_branch(w: LinkedWorktree, branch: Seq<char>) -> bool {
    w.branch matches Some(b) && b@ == branch
}

/// Why a worktree called `name` on `branch` cannot be added next to
/// `existing`: the name is taken, or another checkout holds the branch (the
/// first such one is named).
pub open spec fn creation_conflict(existing: Seq<LinkedWorktree>, name: Seq<char>, branch: Seq<char>) -> Option<Seq<char>> {
    if exists|i: int| 0 <= i < existing.len() && (#[trigger] existing[i]).name@ == name {
        Some(quoted("A worktree named "@, name, " already exists."@))
    } else if exists|i: int| 0 <= i < existing.len() && holds_branch(#[trigger] existing[i], branch) {
        let i = choose|i: int|
            0 <= i < existing.len() && holds_branch(existing[i], branch) && forall|j: int|
                0 <= j < i ==> !holds_branch(#[trigger] existing[j], branch);
        Some(
            quoted("Branch "@, branch, " is already checked out in another worktree ("@)
                + seq!['\''] + existing[i].name@ + seq!['\'', ')', '.'],
        )
    } else {
        None
    }
}

pub fn creation_conflict_message(existing: &Vec<LinkedWorktree>, name: &str, branch: &str) -> (r: Option<String>)
    ensures
        match creation_conflict(existing@, name@, branch@) {
            Some(m) => r matches Some(x) && x@ == m,
            None => r is None,
        },
{
    let nv = chars_of(name);
    let bv = chars_of(branch);
    let n = existing.len();
    let mut i: usize = 0;
    while i < n
        invariant
            n == existing@.len(),
            nv@ == name@,
            0 <= i <= n,
            forall|j: int| 0 <= j < i ==> (#[trigger] existing@[j]).name@ != name@,
        decreases n - i,
    {
        if seq_eq(chars_of(existing[i].name.as_str()).as_slice(), nv.as_slice()) {
            return Some(quoted_text("A worktree named ", name, " already exists."));
        }
        i = i + 1;
    }
    let mut k: usize = 0;
    while k < n
        invariant
            n == existing@.len(),
            bv@ == branch@,
            0 <= k <= n,
            forall|j: int| 0 <= j < n ==> (#[trigger] existing@[j]).name@ != name@,
            forall|j: int| 0 <= j < k ==> !holds_branch(#[trigger] existing@[j], branch@),
        decreases n - k,
    {
        let holds = match &existing[k].branch {
            Some(b) => seq_eq(chars_of(b.as_str()).as_slice(), bv.as_slice()),
            None => false,
        };
        if holds {
            proof {
                let c = choose|c: int|
                    0 <= c < existing@.len() && holds_branch(existing@[c], branch@) && forall|j: int|
                        0 <= j < c ==> !holds_branch(#[trigger] existing@[j], branch@);
                assert(holds_branch(existing@[k as int], branch@));
                if c < k {
                    assert(!holds_branch(existing@[c], branch@));
                }
                if k < c {
                    assert(!holds_branch(existing@[k as int], branch@));
                }
            }
            let mut out = chars_of(quoted_text("Branch ", branch, " is already checked out in another worktree (").as_str());
            out.push('\'');
            push_all(&mut out, chars_of(existing[k].name.as_str()).as_slice());
            out.push('\'');
            out.push(')');
            out.push('.');
            assert(out@ =~= quoted("Branch "@, branch@, " is already checked out in another worktree ("@)
                + seq!['\''] + existing@[k as int].name@ + seq!['\'', ')', '.']);
            return Some(string_of(out.as_slice()));
        }
        k = k + 1;
    }
    None
}

/// Why a worktree may not be removed, if it may not: it is the main
/// worktree, it is locked, or it holds uncommitted work.
pub open spec fn removal_problem(w: LinkedWorktree) -> Option<Seq<char>> {
    if w.is_main {
        Some(quoted(""@, w.name@, " is the repository's main worktree and cannot be removed."@))
    } else if w.is_locked {
        Some(
            quoted("Worktree "@, w.name@, " is locked: "@) + match w.lock_reason {
                Some(r) => r@,
                None => "no reason given"@,
            } + ". Unlock it before removing."@,
        )
    } else if w.status is Dirty {
        Some(
            quoted(
                "Worktree "@,
                w.name@,
                " has uncommitted changes. Open it and commit or discard them first."@,
            ),
        )
    } else {
        None
    }
}

/// Why this worktree may not be removed, or `None` when it may; shared with
/// the confirmation dialog so it refuses for the same reason.
pub fn removal_blocker(worktree: &LinkedWorktree) -> (r: Option<String>)
    ensures
        match removal_problem(*worktree) {
            Some(m) => r matches Some(x) && x@ == m,
            None => r is None,
        },
{
    let name = worktree.name.as_str();
    if worktree.is_main {
        return Some(quoted_text("", name, " is the repository's main worktree and cannot be removed."));
    }
    if worktree.is_locked {
        let mut out = chars_of(quoted_text("Worktree ", name, " is locked: ").as_str());
        match &worktree.lock_reason {
            Some(r) => push_all(&mut out, chars_of(r.as_str()).as_slice()),
            None => push_all(&mut out, lit("no reason given").as_slice()),
        }
        push_all(&mut out, lit(". Unlock it before removing.").as_slice());
        return Some(string_of(out.as_slice()));
    }
    if worktree.has_uncommitted_changes() {
        return Some(
            quoted_text(
                "Worktree ",
                name,
                " has uncommitted changes. Open it and commit or discard them first.",
            ),
        );
    }
    None
}

/// What creating a worktree ends in, and the git calls `made` for it, given
/// the ports' answers: the listing, what it says of the name and the branch,
/// then the answer of the one adding, which reports where the worktree was
/// made. A refused request adds nothing.
pub open spec fn creation_result<G: GitLinkedWorktreePort>(
    repo_path: Seq<char>,
    request: NewWorktreeRequest,
    r: Result<String, String>,
    made: Seq<GitCall>,
) -> bool {
    match request_problem(request) {
        Some(m) => r matches Err(x) && x@ == m && made == Seq::<GitCall>::empty(),
        None => exists|listed: Result<Vec<LinkedWorktree>, String>|
            #![trigger G::listing_answer(repo_path, listed)]
            G::listing_answer(repo_path, listed) && match listed {
                Err(e) => r == Err::<String, String>(e) && made == Seq::<GitCall>::empty(),
                Ok(ws) => match creation_conflict(ws@, trim(request.name@), trim(request.branch@)) {
                    Some(m) => r matches Err(x) && x@ == m && made == Seq::<GitCall>::empty(),
                    None => exists|added: Result<String, String>|
                        #![trigger G::adding_answer(repo_path, request, added)]
                        G::adding_answer(repo_path, request, added)
                            && made == seq![GitCall::AddWorktree { repo: repo_path, request }]
                            && match added {
                            Err(e) => r == Err::<String, String>(e),
                            Ok(path) => r matches Ok(m) && m@ == quoted("Created worktree "@, trim(request.name@), " on "@)
                                + quoted(""@, trim(request.branch@), " at "@) + path@,
                        },
                },
            },
    }
}

/// Creates a worktree, refusing an incomplete request, a taken name or a
/// branch checked out elsewhere.
pub fn create<G: GitLinkedWorktreePort>(repo_path: &str, request: &NewWorktreeRequest, git: &mut G) -> (r: Result<String, String>)
    ensures
        request_problem(*request) matches Some(m) ==> (r matches Err(x) && x@ == m),
        r matches Ok(m) ==> exists|path: Seq<char>| m@ == quoted("Created worktree "@, trim(request.name@), " on "@)
            + quoted(""@, trim(request.branch@), " at "@) + path,
        final(git).git_calls() == old(git).git_calls() + calls_added(old(git).git_calls(), final(git).git_calls()),
        creation_result::<G>(repo_path@, *request, r, calls_added(old(git).git_calls(), final(git).git_calls())),
{
    let ghost before = git.git_calls();
    proof {
        assert(calls_added(before, before) =~= Seq::<GitCall>::empty());
        assert(before =~= before + Seq::<GitCall>::empty());
    }
    if let Some(problem) = new_worktree_problem(request) {
        return Err(problem);
    }
    let name = string_of(trim_chars(chars_of(request.name.as_str()).as_slice()).as_slice());
    let branch = string_of(trim_chars(chars_of(request.branch.as_str()).as_slice()).as_slice());
    let listed = git.list_worktrees(repo_path);
    assert(G::listing_answer(repo_path@, listed));
    let existing = match listed {
        Ok(list) => list,
        Err(e) => {
            return Err(e);
        },
    };
    if let Some(conflict) = creation_conflict_message(&existing, name.as_str(), branch.as_str()) {
        return Err(conflict);
    }
    let added = git.add_worktree(repo_path, request);
    proof {
        assert(G::adding_answer(repo_path@, *request, added));
        assert(calls_added(before, git.git_calls()) =~= seq![GitCall::AddWorktree { repo: repo_path@, request: *request }]);
    }
    let path = match added {
        Ok(p) => p,
        Err(e) => {
            return Err(e);
        },
    };
    let mut out = chars_of(quoted_text("Created worktree ", name.as_str(), " on ").as_str());
    push_all(&mut out, chars_of(quoted_text("", branch.as_str(), " at ").as_str()).as_slice());
    push_all(&mut out, chars_of(path.as_str()).as_slice());
    assert(out@ == quoted("Created worktree "@, trim(request.name@), " on "@) + quoted(""@, trim(request.branch@), " at "@) + path@);
    Ok(string_of(out.as_slice()))
}

/// The first listed worktree named `name`.
pub open spec fn first_named(ws: Seq<LinkedWorktree>, name: Seq<char>) -> Option<LinkedWorktree>
    decreases ws.len(),
{
    if ws.len() == 0 {
        None
    } else if ws[0].name@ == name {
        Some(ws[0])
    } else {
        first_named(ws.drop_first(), name)
    }
}

/// What a removal ends in, and the git calls `made` for it, given the ports'
/// answers: the listing, the worktree of that name in it and what keeps it,
/// then the answer of the one removal, asked never to destroy uncommitted
/// work. A refused removal removes nothing.
pub open spec fn removal_result<G: GitLinkedWorktreePort>(
    repo_path: Seq<char>,
    name: Seq<char>,
    r: Result<String, String>,
    made: Seq<GitCall>,
) -> bool {
    exists|listed: Result<Vec<LinkedWorktree>, String>|
        #![trigger G::listing_answer(repo_path, listed)]
        G::listing_answer(repo_path, listed) && match listed {
            Err(e) => r == Err::<String, String>(e) && made == Seq::<GitCall>::empty(),
            Ok(ws) => match first_named(ws@, name) {
                None => r matches Err(m) && m@ == quoted("Worktree "@, name, " was not found in this repository."@)
                    && made == Seq::<GitCall>::empty(),
                Some(w) => match removal_problem(w) {
                    Some(p) => r matches Err(m) && m@ == p && made == Seq::<GitCall>::empty(),
                    None => exists|removed: Result<(), String>|
                        #![trigger G::removal_answer(repo_path, name, false, removed)]
                        G::removal_answer(repo_path, name, false, removed)
                            && made == seq![GitCall::RemoveWorktree { repo: repo_path, name, force: false }]
                            && match removed {
                            Ok(()) => r matches Ok(m) && m@ == quoted("Removed worktree "@, name, ""@),
                            Err(e) => r == Err::<String, String>(e),
                        },
                },
            },
        }
}

/// Removes a linked worktree, refusing anything that would lose work.
pub fn remove<G: GitLinkedWorktreePort>(repo_path: &str, name: &str, git: &mut G) -> (r: Result<String, String>)
    ensures
        r matches Ok(m) ==> m@ == quoted("Removed worktree "@, name@, ""@),
        final(git).git_calls() == old(git).git_calls() + calls_added(old(git).git_calls(), final(git).git_calls()),
        removal_result::<G>(repo_path@, name@, r, calls_added(old(git).git_calls(), final(git).git_calls())),
{
    let ghost before = git.git_calls();
    proof {
        assert(calls_added(before, before) =~= Seq::<GitCall>::empty());
        assert(before =~= before + Seq::<GitCall>::empty());
    }
    let listed = git.list_worktrees(repo_path);
    assert(G::listing_answer(repo_path@, listed));
    let ghost listed_view = listed;
    let existing = match listed {
        Ok(list) => list,
        Err(e) => {
            return Err(e);
        },
    };
    let nv = chars_of(name);
    let n = existing.len();
    let mut i: usize = 0;
    assert(existing@.skip(0) =~= existing@);
    while i < n
        invariant
            n == existing@.len(),
            0 <= i <= n,
            nv@ == name@,
            G::listing_answer(repo_path@, listed_view),
            listed_view == Ok::<Vec<LinkedWorktree>, String>(existing),
            first_named(existing@, name@) == first_named(existing@.skip(i as int), name@),
            git.git_calls() == before,
            before == old(git).git_calls(),
            calls_added(before, before) =~= Seq::<GitCall>::empty(),
            before =~= before + Seq::<GitCall>::empty(),
        decreases n - i,
    {
        let ghost rest = existing@.skip(i as int);
        assert(rest[0] == existing@[i as int]);
        assert(rest.drop_first() =~= existing@.skip(i + 1));
        if seq_eq(chars_of(existing[i].name.as_str()).as_slice(), nv.as_slice()) {
            assert(first_named(existing@, name@) == Some(existing@[i as int]));
            if let Some(problem) = removal_blocker(&existing[i]) {
                return Err(problem);
            }
            let removed = git.remove_worktree(repo_path, name, ALLOW_DESTROYING_UNCOMMITTED_WORK);
            proof {
                assert(G::removal_answer(repo_path@, name@, false, removed));
                assert(calls_added(before, git.git_calls()) =~= seq![
                    GitCall::RemoveWorktree { repo: repo_path@, name: name@, force: false },
                ]);
            }
            return match removed {
                Ok(()) => Ok(quoted_text("Removed worktree ", name, "")),
                Err(e) => Err(e),
            };
        }
        i = i + 1;
    }
    assert(existing@.skip(n as int) =~= Seq::<LinkedWorktree>::empty());
    Err(quoted_text("Worktree ", name, " was not found in this repository."))
}

} // verus!

verus! {

/// Why a worktree name cannot be a folder under `.git/worktrees/`, if so.
pub open spec fn name_problem(name: Seq<char>) -> Option<Seq<char>> {
    if crate::text::has_char(name, '/') || crate::text::has_char(name, '\\') {
        Some("Worktree names cannot contain '/' or '\\'."@)
    } else if name == "."@ || name == ".."@ {
        Some("'.' and '..' are not valid worktree names."@)
    } else {
        None
    }
}

pub fn worktree_name_problem(name: &str) -> (r: Option<String>)
    ensures
        match name_problem(name@) {
            Some(m) => r matches Some(x) && x@ == m,
            None => r is None,
        },
{
    let v = chars_of(name);
    if crate::text::contains_char(v.as_slice(), '/') || crate::text::contains_char(v.as_slice(), '\\') {
        Some(string_of(lit("Worktree names cannot contain '/' or '\\'.").as_slice()))
    } else if seq_eq(v.as_slice(), lit(".").as_slice()) || seq_eq(v.as_slice(), lit("..").as_slice()) {
        Some(string_of(lit("'.' and '..' are not valid worktree names.").as_slice()))
    } else {
        None
    }
}

/// The name the main worktree goes by: its folder's name, or `main`.
pub open spec fn main_worktree_name(path: Seq<char>) -> Seq<char> {
    match crate::paths::file_name(path) {
        Some(n) => if n.len() > 0 {
            n
        } else {
            "main"@
        },
        None => "main"@,
    }
}

pub fn directory_name(path: &str) -> (r: String)
    ensures
        r@ == main_worktree_name(path@),
{
    match crate::paths::file_name_chars(chars_of(path).as_slice()) {
        Some(n) => if n.len() > 0 {
            string_of(n.as_slice())
        } else {
            string_of(lit("main").as_slice())
        },
        None => string_of(lit("main").as_slice()),
    }
}

} // verus!
