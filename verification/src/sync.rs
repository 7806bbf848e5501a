//! Push, pull, reset and undo: which authentication each uses and what each
//! refuses to do.

use vstd::prelude::*;

use crate::github::{GithubAuthSession, PullRequestPrompt, PushSuccess};
use crate::ports::{
    auth_session, calls_added, GitBranchReadPort, GitCall, GitHubRemoteInfoPort, GitRemoteAuth, GitRemoteSyncPort,
    GitUndoCommitPort,
};
use crate::text::{chars_of, lit, owned, push_all, string_of};

verus! {

pub open spec fn github_push_needs_branch() -> Seq<char> {
    "GitHub push requires a checked-out branch."@
}

pub open spec fn github_push_needs_sign_in() -> Seq<char> {
    "GitHub push requires the app's GitHub sign-in. Use 'Sign in to GitHub...' and try again."@
}

pub open spec fn pull_needs_branch() -> Seq<char> {
    "Pull requires a checked-out branch."@
}

pub open spec fn github_pull_needs_branch() -> Seq<char> {
    "GitHub pull requires a checked-out branch."@
}

pub open spec fn github_pull_needs_sign_in() -> Seq<char> {
    "GitHub pull requires the app's GitHub sign-in. Use 'Sign in to GitHub...' and try again."@
}

pub open spec fn reset_needs_sign_in() -> Seq<char> {
    "Reset requires the app's GitHub sign-in. Use 'Sign in to GitHub...' and try again."@
}

pub open spec fn undo_needs_branch() -> Seq<char> {
    "Undo last commit requires a checked-out branch."@
}

/// The refusal of an undo with nothing local to undo.
pub open spec fn undo_needs_local_commit(branch: Seq<char>) -> Seq<char> {
    "Undo last commit requires at least one local-only commit on "@ + branch + seq!['.']
}

/// How a GitHub HTTPS push is decided, before anything is sent: `Ok(false)`
/// when the remote is not GitHub over HTTPS (the system's git setup pushes),
/// `Ok(true)` when the app's sign-in pushes, or why neither can.
pub open spec fn github_push_plan(is_github_https: bool, branch: Option<Seq<char>>, signed_in: bool) -> Result<bool, Seq<char>> {
    if !is_github_https {
        Ok(false)
    } else if branch is None {
        Err(github_push_needs_branch())
    } else if !signed_in {
        Err(github_push_needs_sign_in())
    } else {
        Ok(true)
    }
}

/// The message a push reports when the pull-request check failed.
pub open spec fn with_pr_check_failure(message: Seq<char>, error: Seq<char>) -> Seq<char> {
    message + " PR check unavailable: "@ + error
}

/// How a pull is decided once the origin's kind and the branch are known:
/// the branch to pull and whether the app's sign-in is used, or why it
/// cannot go ahead.
pub open spec fn pull_plan(is_github_https: bool, branch: Result<Option<Seq<char>>, Seq<char>>, signed_in: bool) -> Result<(Seq<char>, bool), Seq<char>> {
    match branch {
        Err(e) => Err(e),
        Ok(None) => if is_github_https {
            Err(github_pull_needs_branch())
        } else {
            Err(pull_needs_branch())
        },
        Ok(Some(b)) => if is_github_https && !signed_in {
            Err(github_pull_needs_sign_in())
        } else {
            Ok((b, is_github_https))
        },
    }
}

/// How a reset authenticates: `Ok(true)` with the app's sign-in, `Ok(false)`
/// with the system's setup, or why it cannot go ahead.
pub open spec fn reset_plan(is_github_https: bool, signed_in: bool) -> Result<bool, Seq<char>> {
    if is_github_https && !signed_in {
        Err(reset_needs_sign_in())
    } else {
        Ok(is_github_https)
    }
}

/// Whether an undo may go ahead on what git reported about the branch and
/// its unpushed commits.
pub open spec fn undo_plan(branch: Result<Option<Seq<char>>, Seq<char>>, outgoing: Result<usize, Seq<char>>) -> Result<(), Seq<char>> {
    match branch {
        Err(e) => Err(e),
        Ok(None) => Err(undo_needs_branch()),
        Ok(Some(b)) => match outgoing {
            Err(e) => Err(e),
            Ok(n) => if n == 0 {
                Err(undo_needs_local_commit(b))
            } else {
                Ok(())
            },
        },
    }
}

/// A GitHub remote over HTTPS is only ever reached with the app's own
/// sign-in, and any other remote only with the system's git setup: whenever a
/// push, pull or reset goes ahead, it uses the app's sign-in exactly when the
/// origin is GitHub over HTTPS. Without the sign-in, none of the three goes
/// ahead against such a remote.
pub proof fn law_github_https_remotes_use_the_apps_sign_in(
    is_github_https: bool,
    branch: Option<Seq<char>>,
    branch_read: Result<Option<Seq<char>>, Seq<char>>,
    signed_in: bool,
)
    ensures
        github_push_plan(is_github_https, branch, signed_in) matches Ok(app) ==> app == is_github_https,
        pull_plan(is_github_https, branch_read, signed_in) matches Ok((_, app)) ==> app == is_github_https,
        reset_plan(is_github_https, signed_in) matches Ok(app) ==> app == is_github_https,
        is_github_https && !signed_in ==> {
            &&& github_push_plan(is_github_https, branch, signed_in) is Err
            &&& pull_plan(is_github_https, branch_read, signed_in) is Err
            &&& reset_plan(is_github_https, signed_in) is Err
        },
{
}

pub open spec fn opt_text(o: Option<String>) -> Option<Seq<char>> {
    match o {
        Some(s) => Some(s@),
        None => None,
    }
}

pub open spec fn branch_answer(r: Result<Option<String>, String>) -> Result<Option<Seq<char>>, Seq<char>> {
    match r {
        Ok(b) => Ok(opt_text(b)),
        Err(e) => Err(e@),
    }
}


/// Decides a GitHub HTTPS push.
pub fn github_push_route(is_github_https: bool, branch: Option<&str>, signed_in: bool) -> (r: Result<bool, String>)
    ensures
        match github_push_plan(
            is_github_https,
            match branch {
                Some(b) => Some(b@),
                None => None,
            },
            signed_in,
        ) {
            Ok(x) => r == Ok::<bool, String>(x),
            Err(e) => r matches Err(m) && m@ == e,
        },
{
    if !is_github_https {
        Ok(false)
    } else if branch.is_none() {
        Err(owned("GitHub push requires a checked-out branch."))
    } else if !signed_in {
        Err(
            owned(
                "GitHub push requires the app's GitHub sign-in. Use 'Sign in to GitHub...' and try again.",
            ),
        )
    } else {
        Ok(true)
    }
}

/// Decides a pull.
pub fn pull_route(is_github_https: bool, branch: Result<Option<String>, String>, signed_in: bool) -> (r: Result<(String, bool), String>)
    ensures
        match pull_plan(is_github_https, branch_answer(branch), signed_in) {
            Ok((b, app)) => r matches Ok((rb, rapp)) && rb@ == b && rapp == app,
            Err(e) => r matches Err(m) && m@ == e,
        },
{
    match branch {
        Err(e) => Err(e),
        Ok(None) => if is_github_https {
            Err(owned("GitHub pull requires a checked-out branch."))
        } else {
            Err(owned("Pull requires a checked-out branch."))
        },
        Ok(Some(b)) => if is_github_https && !signed_in {
            Err(
                owned(
                    "GitHub pull requires the app's GitHub sign-in. Use 'Sign in to GitHub...' and try again.",
                ),
            )
        } else {
            Ok((b, is_github_https))
        },
    }
}

/// Decides how a reset authenticates.
pub fn reset_route(is_github_https: bool, signed_in: bool) -> (r: Result<bool, String>)
    ensures
        match reset_plan(is_github_https, signed_in) {
            Ok(x) => r == Ok::<bool, String>(x),
            Err(e) => r matches Err(m) && m@ == e,
        },
{
    if is_github_https && !signed_in {
        Err(
            owned(
                "Reset requires the app's GitHub sign-in. Use 'Sign in to GitHub...' and try again.",
            ),
        )
    } else {
        Ok(is_github_https)
    }
}

/// The session of an optional sign-in.
pub open spec fn session_of(auth: Option<&GithubAuthSession>) -> Option<GithubAuthSession> {
    match auth {
        Some(a) => Some(*a),
        None => None,
    }
}

/// An optional name as text.
pub open spec fn str_opt(b: Option<&str>) -> Option<Seq<char>> {
    match b {
        Some(x) => Some(x@),
        None => None,
    }
}

/// What a push with the app's sign-in ends in, and the git calls `made` for
/// it, given the ports' answers: the decision on the answer about the
/// origin, then, when the sign-in pushes, the push of `branch` with `auth`.
pub open spec fn try_push_result<G: GitRemoteSyncPort, H: GitHubRemoteInfoPort>(
    repo_path: Seq<char>,
    branch: Option<Seq<char>>,
    auth: Option<GithubAuthSession>,
    r: Result<Option<String>, String>,
    made: Seq<GitCall>,
) -> bool {
    exists|https: bool|
        #![trigger H::https_origin_answer(repo_path, https)]
        H::https_origin_answer(repo_path, https) && match github_push_plan(https, branch, auth is Some) {
            Err(e) => r matches Err(m) && m@ == e && made == Seq::<GitCall>::empty(),
            Ok(false) => r == Ok::<Option<String>, String>(None) && made == Seq::<GitCall>::empty(),
            Ok(true) => exists|pushed: Result<String, String>|
                #![trigger G::push_answer(repo_path, branch->0, auth, pushed)]
                G::push_answer(repo_path, branch->0, auth, pushed)
                    && made == seq![GitCall::Push { repo: repo_path, branch: branch->0, auth }]
                    && match pushed {
                    Ok(_) => r matches Ok(Some(m)) && m@ == "Push successful"@,
                    Err(e) => r == Err::<Option<String>, String>(e),
                },
        }
}

/// Pushes with the app's sign-in when the remote is GitHub over HTTPS:
/// `None` when the remote is something else and the system's setup should
/// push instead. A successful push with the sign-in reports `Push successful`.
pub fn try_push_with_auth<G: GitRemoteSyncPort, H: GitHubRemoteInfoPort>(
    repo_path: &str,
    branch_name: Option<&str>,
    auth: Option<&GithubAuthSession>,
    git: &mut G,
    github: &H,
) -> (r: Result<Option<String>, String>)
    ensures
        r matches Ok(Some(m)) ==> m@ == "Push successful"@,
        r matches Ok(Some(_)) ==> auth is Some && branch_name is Some,
        auth is None && branch_name is Some ==> !(r matches Ok(Some(_))),
        final(git).git_calls() == old(git).git_calls() + calls_added(old(git).git_calls(), final(git).git_calls()),
        try_push_result::<G, H>(
            repo_path@,
            str_opt(branch_name),
            session_of(auth),
            r,
            calls_added(old(git).git_calls(), final(git).git_calls()),
        ),
{
    let ghost before = git.git_calls();
    let is_https = github.is_github_https_origin(repo_path);
    proof {
        assert(H::https_origin_answer(repo_path@, is_https));
        assert(calls_added(before, before) =~= Seq::<GitCall>::empty());
        assert(before =~= before + Seq::<GitCall>::empty());
    }
    match github_push_route(is_https, branch_name, auth.is_some()) {
        Err(e) => Err(e),
        Ok(false) => Ok(None),
        Ok(true) => {
            let (branch, session) = match (branch_name, auth) {
                (Some(b), Some(a)) => (b, a),
                _ => {
                    return Err(owned("GitHub push requires a checked-out branch."));
                },
            };
            let pushed = git.push(repo_path, branch, GitRemoteAuth::GitHub(session));
            proof {
                assert(auth_session(GitRemoteAuth::GitHub(session)) == session_of(auth));
                assert(G::push_answer(repo_path@, str_opt(branch_name)->0, session_of(auth), pushed));
                assert(calls_added(before, git.git_calls()) =~= seq![
                    GitCall::Push { repo: repo_path@, branch: branch@, auth: session_of(auth) },
                ]);
            }
            match pushed {
                Ok(_) => Ok(Some(owned("Push successful"))),
                Err(e) => Err(e),
            }
        },
    }
}

/// A push that went through with message `base`, as reported: on a branch,
/// with the pull-request check's answer for that branch.
pub open spec fn push_reported<H: GitHubRemoteInfoPort>(
    repo_path: Seq<char>,
    branch: Option<String>,
    auth: Option<GithubAuthSession>,
    base: Seq<char>,
    r: Result<PushSuccess, String>,
) -> bool {
    match branch {
        Some(b) => exists|check: Result<Option<PullRequestPrompt>, String>|
            #![trigger H::pull_request_answer(repo_path, b@, auth, check)]
            H::pull_request_answer(repo_path, b@, auth, check) && (r matches Ok(s) && match check {
                Ok(p) => s.message@ == base && s.pull_request_prompt == p,
                Err(e) => s.message@ == with_pr_check_failure(base, e@) && s.pull_request_prompt is None,
            }),
        None => r matches Ok(s) && s.message@ == base && s.pull_request_prompt is None,
    }
}

/// What a push ends in, and the git calls `made` for it, given the ports'
/// answers: the checked-out branch, the push with the app's sign-in,
/// otherwise one push with the system's setup, then the pull-request check.
/// A refused push makes no call.
pub open spec fn push_result<G: GitBranchReadPort + GitRemoteSyncPort, H: GitHubRemoteInfoPort>(
    repo_path: Seq<char>,
    auth: Option<GithubAuthSession>,
    r: Result<PushSuccess, String>,
    made: Seq<GitCall>,
) -> bool {
    exists|branch: Result<Option<String>, String>|
        #![trigger G::branch_answer(repo_path, branch)]
        G::branch_answer(repo_path, branch) && match branch {
            Err(e) => r == Err::<PushSuccess, String>(e) && made == Seq::<GitCall>::empty(),
            Ok(b) => exists|attempt: Result<Option<String>, String>, tried: Seq<GitCall>|
                #![trigger try_push_result::<G, H>(repo_path, opt_text(b), auth, attempt, tried)]
                try_push_result::<G, H>(repo_path, opt_text(b), auth, attempt, tried) && match attempt {
                    Err(e) => r == Err::<PushSuccess, String>(e) && made == tried,
                    Ok(Some(m)) => push_reported::<H>(repo_path, b, auth, m@, r) && made == tried,
                    Ok(None) => match b {
                        None => r matches Err(x) && x@ == "Push requires a checked-out branch."@
                            && made == Seq::<GitCall>::empty(),
                        Some(name) => exists|sys: Result<String, String>|
                            #![trigger G::push_answer(repo_path, name@, None, sys)]
                            G::push_answer(repo_path, name@, None, sys)
                                && made == seq![GitCall::Push { repo: repo_path, branch: name@, auth: None }]
                                && match sys {
                                Err(e) => r == Err::<PushSuccess, String>(e),
                                Ok(m) => push_reported::<H>(repo_path, b, auth, m@, r),
                            },
                    },
                },
        }
}

/// Pushes the checked-out branch, then looks for a pull request to offer. A
/// failed pull-request check is reported in the message, not as a failure.
pub fn push<G: GitBranchReadPort + GitRemoteSyncPort, H: GitHubRemoteInfoPort>(
    repo_path: &str,
    auth: Option<&GithubAuthSession>,
    git: &mut G,
    github: &H,
) -> (r: Result<PushSuccess, String>)
    ensures
        final(git).git_calls() == old(git).git_calls() + calls_added(old(git).git_calls(), final(git).git_calls()),
        push_result::<G, H>(
            repo_path@,
            session_of(auth),
            r,
            calls_added(old(git).git_calls(), final(git).git_calls()),
        ),
{
    let ghost before = git.git_calls();
    let read = git.current_branch_name(repo_path);
    let ghost read_view = read;
    proof {
        assert(G::branch_answer(repo_path@, read_view));
        assert(calls_added(before, before) =~= Seq::<GitCall>::empty());
        assert(before =~= before + Seq::<GitCall>::empty());
    }
    let branch_name = match read {
        Ok(b) => b,
        Err(e) => {
            return Err(e);
        },
    };
    let branch_ref: Option<&str> = match &branch_name {
        Some(b) => Some(b.as_str()),
        None => None,
    };
    assert(str_opt(branch_ref) == opt_text(branch_name));
    let attempt = try_push_with_auth(repo_path, branch_ref, auth, git, github);
    let ghost attempt_view = attempt;
    let ghost tried = calls_added(before, git.git_calls());
    assert(try_push_result::<G, H>(repo_path@, opt_text(branch_name), session_of(auth), attempt_view, tried));
    let base_message = match attempt {
        Err(e) => {
            return Err(e);
        },
        Ok(Some(m)) => m,
        Ok(None) => {
            let b = match branch_ref {
                Some(b) => b,
                None => {
                    return Err(owned("Push requires a checked-out branch."));
                },
            };
            let ghost mid = git.git_calls();
            let sys = git.push(repo_path, b, GitRemoteAuth::System);
            proof {
                assert(G::push_answer(repo_path@, b@, None, sys));
                assert(mid =~= before + tried);
                assert(calls_added(before, git.git_calls()) =~= seq![
                    GitCall::Push { repo: repo_path@, branch: b@, auth: None },
                ]);
            }
            match sys {
                Ok(m) => m,
                Err(e) => {
                    return Err(e);
                },
            }
        },
    };
    let (message, pull_request_prompt) = match branch_ref {
        Some(branch) => {
            let check = github.detect_pull_request_prompt(repo_path, branch, auth);
            assert(H::pull_request_answer(repo_path@, branch@, session_of(auth), check));
            with_pull_request_check(base_message, check)
        },
        None => (base_message, None),
    };
    let r = PushSuccess { message, pull_request_prompt };
    assert(push_reported::<H>(repo_path@, branch_name, session_of(auth), base_message@, Ok::<PushSuccess, String>(r)));
    Ok(r)
}

/// What a push reports once the pull-request check answered: the prompt, or
/// the message with the reason the check failed appended.
pub fn with_pull_request_check(message: String, check: Result<Option<PullRequestPrompt>, String>) -> (r: (String, Option<PullRequestPrompt>))
    ensures
        match check {
            Ok(p) => r.0 == message && r.1 == p,
            Err(e) => r.0@ == with_pr_check_failure(message@, e@) && r.1 is None,
        },
{
    match check {
        Ok(p) => (message, p),
        Err(e) => {
            let mut out = chars_of(message.as_str());
            push_all(&mut out, lit(" PR check unavailable: ").as_slice());
            push_all(&mut out, chars_of(e.as_str()).as_slice());
            (string_of(out.as_slice()), None)
        },
    }
}

/// What a pull ends in, and the git calls `made` for it, given the ports'
/// answers about the origin and the checked-out branch: the refusal the
/// decision gives, with no call made, or the answer of the one pull of the
/// decided branch, with the app's sign-in exactly when the decision says so.
pub open spec fn pull_result<G: GitBranchReadPort + GitRemoteSyncPort, H: GitHubRemoteInfoPort>(
    repo_path: Seq<char>,
    auth: Option<GithubAuthSession>,
    r: Result<String, String>,
    made: Seq<GitCall>,
) -> bool {
    exists|https: bool, branch: Result<Option<String>, String>|
        #![trigger H::https_origin_answer(repo_path, https), G::branch_answer(repo_path, branch)]
        H::https_origin_answer(repo_path, https) && G::branch_answer(repo_path, branch) && match pull_plan(
            https,
            branch_answer(branch),
            auth is Some,
        ) {
            Err(e) => r matches Err(m) && m@ == e && made == Seq::<GitCall>::empty(),
            Ok((b, app)) => G::pull_answer(repo_path, b, if app { auth } else { None }, r)
                && made == seq![GitCall::Pull { repo: repo_path, branch: b, auth: if app { auth } else { None } }],
        }
}

/// What a reset ends in, and the git calls `made` for it, given the port's
/// answer about the origin: the refusal, with no call made, or the answer of
/// the one reset, with `clean_untracked` handed on as it came.
pub open spec fn reset_result<G: GitRemoteSyncPort, H: GitHubRemoteInfoPort>(
    repo_path: Seq<char>,
    auth: Option<GithubAuthSession>,
    clean_untracked: bool,
    r: Result<String, String>,
    made: Seq<GitCall>,
) -> bool {
    exists|https: bool|
        #![trigger H::https_origin_answer(repo_path, https)]
        H::https_origin_answer(repo_path, https) && match reset_plan(https, auth is Some) {
            Err(e) => r matches Err(m) && m@ == e && made == Seq::<GitCall>::empty(),
            Ok(app) => G::reset_answer(repo_path, if app { auth } else { None }, clean_untracked, r)
                && made == seq![
                GitCall::ResetToRemote { repo: repo_path, auth: if app { auth } else { None }, clean_untracked },
            ],
        }
}

/// An unpushed-commit count as text-valued result.
pub open spec fn count_answer(c: Result<usize, String>) -> Result<usize, Seq<char>> {
    match c {
        Ok(n) => Ok(n),
        Err(e) => Err(e@),
    }
}

/// How an undo ends once the branch and the count are known, and the git
/// calls `made` for it: the refusal, with no call made, or the answer of the
/// one undo.
pub open spec fn undo_outcome<G: GitUndoCommitPort>(
    repo_path: Seq<char>,
    branch: Result<Option<String>, String>,
    count: Result<usize, Seq<char>>,
    r: Result<String, String>,
    made: Seq<GitCall>,
) -> bool {
    match undo_plan(branch_answer(branch), count) {
        Err(e) => r matches Err(m) && m@ == e && made == Seq::<GitCall>::empty(),
        Ok(()) => G::undo_answer(repo_path, r) && made == seq![GitCall::UndoLastCommit { repo: repo_path }],
    }
}

/// What an undo ends in, and the git calls `made` for it, given the ports'
/// answers: the checked-out branch, then, only on a branch, the count of
/// unpushed commits.
pub open spec fn undo_result<G: GitBranchReadPort + GitUndoCommitPort>(
    repo_path: Seq<char>,
    r: Result<String, String>,
    made: Seq<GitCall>,
) -> bool {
    exists|branch: Result<Option<String>, String>|
        #![trigger G::branch_answer(repo_path, branch)]
        G::branch_answer(repo_path, branch) && match branch {
            Ok(Some(_)) => exists|count: Result<usize, String>|
                #![trigger G::outgoing_answer(repo_path, count)]
                G::outgoing_answer(repo_path, count) && undo_outcome::<G>(repo_path, branch, count_answer(count), r, made),
            _ => undo_outcome::<G>(repo_path, branch, Ok(0), r, made),
        }
}

/// Pulls the checked-out branch; from GitHub over HTTPS only with the app's
/// sign-in.
pub fn pull<G: GitBranchReadPort + GitRemoteSyncPort, H: GitHubRemoteInfoPort>(
    repo_path: &str,
    auth: Option<&GithubAuthSession>,
    git: &mut G,
    github: &H,
) -> (r: Result<String, String>)
    ensures
        final(git).git_calls() == old(git).git_calls() + calls_added(old(git).git_calls(), final(git).git_calls()),
        pull_result::<G, H>(
            repo_path@,
            session_of(auth),
            r,
            calls_added(old(git).git_calls(), final(git).git_calls()),
        ),
{
    let ghost before = git.git_calls();
    let is_https = github.is_github_https_origin(repo_path);
    let read = git.current_branch_name(repo_path);
    proof {
        assert(H::https_origin_answer(repo_path@, is_https) && G::branch_answer(repo_path@, read));
        assert(calls_added(before, before) =~= Seq::<GitCall>::empty());
        assert(before =~= before + Seq::<GitCall>::empty());
    }
    match pull_route(is_https, read, auth.is_some()) {
        Err(e) => Err(e),
        Ok((branch, false)) => {
            let r = git.pull(repo_path, branch.as_str(), GitRemoteAuth::System);
            assert(calls_added(before, git.git_calls()) =~= seq![
                GitCall::Pull { repo: repo_path@, branch: branch@, auth: None },
            ]);
            r
        },
        Ok((branch, true)) => match auth {
            Some(a) => {
                let r = git.pull(repo_path, branch.as_str(), GitRemoteAuth::GitHub(a));
                assert(auth_session(GitRemoteAuth::GitHub(a)) == session_of(auth));
                assert(calls_added(before, git.git_calls()) =~= seq![
                    GitCall::Pull { repo: repo_path@, branch: branch@, auth: session_of(auth) },
                ]);
                r
            },
            None => Err(
                owned(
                    "GitHub pull requires the app's GitHub sign-in. Use 'Sign in to GitHub...' and try again.",
                ),
            ),
        },
    }
}

/// Throws local work away and resets to the remote; for GitHub over HTTPS
/// only with the app's sign-in.
pub fn discard_and_reset_to_remote<G: GitRemoteSyncPort, H: GitHubRemoteInfoPort>(
    repo_path: &str,
    auth: Option<&GithubAuthSession>,
    clean_untracked: bool,
    git: &mut G,
    github: &H,
) -> (r: Result<String, String>)
    ensures
        final(git).git_calls() == old(git).git_calls() + calls_added(old(git).git_calls(), final(git).git_calls()),
        reset_result::<G, H>(
            repo_path@,
            session_of(auth),
            clean_untracked,
            r,
            calls_added(old(git).git_calls(), final(git).git_calls()),
        ),
{
    let ghost before = git.git_calls();
    let is_https = github.is_github_https_origin(repo_path);
    proof {
        assert(H::https_origin_answer(repo_path@, is_https));
        assert(calls_added(before, before) =~= Seq::<GitCall>::empty());
        assert(before =~= before + Seq::<GitCall>::empty());
    }
    match reset_route(is_https, auth.is_some()) {
        Err(e) => Err(e),
        Ok(false) => {
            let r = git.reset_to_remote(repo_path, GitRemoteAuth::System, clean_untracked);
            assert(calls_added(before, git.git_calls()) =~= seq![
                GitCall::ResetToRemote { repo: repo_path@, auth: None, clean_untracked },
            ]);
            r
        },
        Ok(true) => match auth {
            Some(a) => {
                let r = git.reset_to_remote(repo_path, GitRemoteAuth::GitHub(a), clean_untracked);
                assert(auth_session(GitRemoteAuth::GitHub(a)) == session_of(auth));
                assert(calls_added(before, git.git_calls()) =~= seq![
                    GitCall::ResetToRemote { repo: repo_path@, auth: session_of(auth), clean_untracked },
                ]);
                r
            },
            None => Err(
                owned(
                    "Reset requires the app's GitHub sign-in. Use 'Sign in to GitHub...' and try again.",
                ),
            ),
        },
    }
}

/// Decides an undo on what git reported: the branch, then (only when there
/// is one) the count of unpushed commits.
pub fn undo_allowed(branch: Result<Option<String>, String>, outgoing: Result<usize, String>) -> (r: Result<(), String>)
    ensures
        match undo_plan(
            branch_answer(branch),
            match outgoing {
                Ok(n) => Ok(n),
                Err(e) => Err(e@),
            },
        ) {
            Ok(()) => r is Ok,
            Err(e) => r matches Err(m) && m@ == e,
        },
{
    match branch {
        Err(e) => Err(e),
        Ok(None) => Err(owned("Undo last commit requires a checked-out branch.")),
        Ok(Some(b)) => match outgoing {
            Err(e) => Err(e),
            Ok(n) => if n == 0 {
                let mut out = lit("Undo last commit requires at least one local-only commit on ");
                push_all(&mut out, chars_of(b.as_str()).as_slice());
                out.push('.');
                Err(string_of(out.as_slice()))
            } else {
                Ok(())
            },
        },
    }
}

/// Undoes the last commit, only on a branch and only when it was never
/// pushed.
pub fn undo_last_commit<G: GitBranchReadPort + GitUndoCommitPort>(repo_path: &str, git: &mut G) -> (r: Result<String, String>)
    ensures
        final(git).git_calls() == old(git).git_calls() + calls_added(old(git).git_calls(), final(git).git_calls()),
        undo_result::<G>(repo_path@, r, calls_added(old(git).git_calls(), final(git).git_calls())),
{
    let ghost before = git.git_calls();
    let branch = git.current_branch_name(repo_path);
    assert(G::branch_answer(repo_path@, branch));
    let outgoing = match &branch {
        Ok(Some(_)) => {
            let count = git.outgoing_commit_count(repo_path);
            assert(G::outgoing_answer(repo_path@, count));
            count
        },
        _ => Ok(0),
    };
    proof {
        assert(calls_added(before, before) =~= Seq::<GitCall>::empty());
        assert(before =~= before + Seq::<GitCall>::empty());
    }
    match undo_allowed(branch, outgoing) {
        Err(e) => Err(e),
        Ok(()) => {
            let r = git.undo_last_commit(repo_path);
            assert(calls_added(before, git.git_calls()) =~= seq![GitCall::UndoLastCommit { repo: repo_path@ }]);
            r
        },
    }
}

/// Whether a remote call's credentials fit the origin: the app's own
/// sign-in `auth` only where the port may call the origin GitHub over HTTPS,
/// the system's setup only where it may call it something else.
pub open spec fn credentials_fit<H: GitHubRemoteInfoPort>(
    repo_path: Seq<char>,
    auth: Option<GithubAuthSession>,
    used: Option<GithubAuthSession>,
) -> bool {
    match used {
        Some(a) => auth == Some(a) && H::https_origin_answer(repo_path, true),
        None => H::https_origin_answer(repo_path, false),
    }
}

/// The calls that reach a remote carry the app's sign-in exactly where the
/// origin is GitHub over HTTPS: a push, pull or reset makes at most one call,
/// to the requested repository, and that call uses the app's sign-in only
/// when the port answered that the origin is GitHub over HTTPS, and the
/// system's setup only when it answered otherwise. Without a sign-in, no
/// call ever carries GitHub credentials.
pub proof fn law_remote_calls_use_the_apps_sign_in_only_for_github_https<G, H>(
    repo_path: Seq<char>,
    auth: Option<GithubAuthSession>,
    clean_untracked: bool,
    pushed: Result<PushSuccess, String>,
    push_made: Seq<GitCall>,
    pulled: Result<String, String>,
    pull_made: Seq<GitCall>,
    reset: Result<String, String>,
    reset_made: Seq<GitCall>,
) where
    G: GitBranchReadPort + GitRemoteSyncPort,
    H: GitHubRemoteInfoPort,

    requires
        push_result::<G, H>(repo_path, auth, pushed, push_made),
        pull_result::<G, H>(repo_path, auth, pulled, pull_made),
        reset_result::<G, H>(repo_path, auth, clean_untracked, reset, reset_made),
    ensures
        push_made.len() <= 1,
        push_made.len() == 1 ==> (push_made[0] matches GitCall::Push { repo, auth: used, .. } && repo == repo_path
            && credentials_fit::<H>(repo_path, auth, used)),
        pull_made.len() <= 1,
        pull_made.len() == 1 ==> (pull_made[0] matches GitCall::Pull { repo, auth: used, .. } && repo == repo_path
            && credentials_fit::<H>(repo_path, auth, used)),
        reset_made.len() <= 1,
        reset_made.len() == 1 ==> (reset_made[0] matches GitCall::ResetToRemote { repo, auth: used, clean_untracked: c }
            && repo == repo_path && c == clean_untracked && credentials_fit::<H>(repo_path, auth, used)),
{
}

/// An undo goes out only on a checked-out branch that has at least one
/// commit never pushed, and then exactly once.
pub proof fn law_undo_only_with_a_local_commit<G: GitBranchReadPort + GitUndoCommitPort>(
    repo_path: Seq<char>,
    r: Result<String, String>,
    made: Seq<GitCall>,
)
    requires
        undo_result::<G>(repo_path, r, made),
    ensures
        made.len() <= 1,
        made.len() == 1 ==> made[0] == (GitCall::UndoLastCommit { repo: repo_path }) && exists|b: String, n: usize|
            G::branch_answer(repo_path, Ok(Some(b))) && G::outgoing_answer(repo_path, Ok(n)) && n > 0,
{
}

} // verus!
