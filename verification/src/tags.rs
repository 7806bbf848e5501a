//! Release tags: which branches may be tagged, how a tag's version is read,
//! what the next tag is, and how creating and publishing a tag goes.

use vstd::prelude::*;

use crate::branches::valid_reference_name;

use crate::github::GithubAuthSession;
use crate::ports::{
    auth_session, calls_added, GitBranchReadPort, GitCall, GitHubRemoteInfoPort, GitRemoteAuth, GitRemoteInfoPort,
    GitTagPort,
};
use crate::sync::session_of;
use crate::text::{
    chars_of, dec, lit, owned, parse_unsigned, parse_unsigned_chars, push_all, seq_eq, split_chars,
    split_on, string_of, texts, trim, trim_chars, u64_chars,
};

verus! {

/// Tags are made from `main` or `master` only.
pub open spec fn taggable_branch(branch: Seq<char>) -> bool {
    trim(branch) == "main"@ || trim(branch) == "master"@
}

pub fn can_create_tag_on_branch(branch_name: &str) -> (r: bool)
    ensures
        r == taggable_branch(branch_name@),
{
    let t = trim_chars(chars_of(branch_name).as_slice());
    seq_eq(t.as_slice(), lit("main").as_slice()) || seq_eq(t.as_slice(), lit("master").as_slice())
}

/// The four numbers of a `major.minor.patch.build` tag, optionally written
/// with a leading `v`, and whether it was.
pub open spec fn tag_version(name: Seq<char>) -> Option<(Seq<nat>, bool)> {
    let has_v = name.len() > 0 && name[0] == 'v';
    let rest = if has_v {
        name.drop_first()
    } else {
        name
    };
    let parts = split_on(rest, '.');
    if parts.len() != 4 {
        None
    } else {
        match (
            parse_unsigned(parts[0], u32::MAX as nat),
            parse_unsigned(parts[1], u32::MAX as nat),
            parse_unsigned(parts[2], u32::MAX as nat),
            parse_unsigned(parts[3], u32::MAX as nat),
        ) {
            (Some(a), Some(b), Some(c), Some(d)) => Some((seq![a, b, c, d], has_v)),
            _ => None,
        }
    }
}

/// Reads a release tag's version.
pub fn parse_semver_tag(name: &str) -> (r: Option<([u32; 4], bool)>)
    ensures
        match tag_version(name@) {
            Some((v, has_v)) => r matches Some((arr, rv)) && rv == has_v && arr@.len() == 4 && arr@[0]
                == v[0] && arr@[1] == v[1] && arr@[2] == v[2] && arr@[3] == v[3],
            None => r is None,
        },
{
    let n = chars_of(name);
    let has_v = n.len() > 0 && n[0] == 'v';
    let rest = if has_v {
        crate::text::slice_chars(n.as_slice(), 1, n.len())
    } else {
        crate::text::slice_chars(n.as_slice(), 0, n.len())
    };
    assert(rest@ =~= (if has_v { n@.drop_first() } else { n@ }));
    let parts = split_chars(rest.as_slice(), '.');
    if parts.len() != 4 {
        return None;
    }
    assert(parts@[0]@ == texts(parts@)[0]);
    assert(parts@[1]@ == texts(parts@)[1]);
    assert(parts@[2]@ == texts(parts@)[2]);
    assert(parts@[3]@ == texts(parts@)[3]);
    let a = parse_unsigned_chars(parts[0].as_slice(), 4294967295);
    let b = parse_unsigned_chars(parts[1].as_slice(), 4294967295);
    let c = parse_unsigned_chars(parts[2].as_slice(), 4294967295);
    let d = parse_unsigned_chars(parts[3].as_slice(), 4294967295);
    match (a, b, c, d) {
        (Some(a), Some(b), Some(c), Some(d)) => {
            let arr: [u32; 4] = [a as u32, b as u32, c as u32, d as u32];
            assert(arr@ =~= seq![a as u32, b as u32, c as u32, d as u32]);
            Some((arr, has_v))
        },
        _ => None,
    }
}

/// `a` is an earlier version than `b`.
pub open spec fn version_lt(a: Seq<nat>, b: Seq<nat>) -> bool {
    ||| a[0] < b[0]
    ||| a[0] == b[0] && a[1] < b[1]
    ||| a[0] == b[0] && a[1] == b[1] && a[2] < b[2]
    ||| a[0] == b[0] && a[1] == b[1] && a[2] == b[2] && a[3] < b[3]
}

/// The highest version among the first `k` tags, with its prefix style; the
/// first of equal versions wins.
pub open spec fn best_version(names: Seq<Seq<char>>, k: int) -> Option<(Seq<nat>, bool)>
    decreases k,
{
    if k <= 0 {
        None
    } else {
        let prev = best_version(names, k - 1);
        match tag_version(names[k - 1]) {
            None => prev,
            Some((v, p)) => match prev {
                Some((cur, q)) => if version_lt(cur, v) {
                    Some((v, p))
                } else {
                    Some((cur, q))
                },
                None => Some((v, p)),
            },
        }
    }
}

/// The tag proposed next: the highest release tag with its build number
/// raised by one (staying at the top of the range), in its prefix style; or
/// `v1.0.0.0`.
pub open spec fn next_tag_text(names: Seq<Seq<char>>) -> Seq<char> {
    match best_version(names, names.len() as int) {
        Some((v, p)) => (if p {
            "v"@
        } else {
            ""@
        }) + dec(v[0]) + seq!['.'] + dec(v[1]) + seq!['.'] + dec(v[2]) + seq!['.'] + dec(
            if v[3] >= u32::MAX {
                u32::MAX as nat
            } else {
                v[3] + 1
            },
        ),
        None => "v1.0.0.0"@,
    }
}

/// The best version among the first `k` tags is one of them, and none of
/// them is later.
proof fn lemma_best_is_highest(names: Seq<Seq<char>>, k: int)
    requires
        0 <= k <= names.len(),
    ensures
        match best_version(names, k) {
            Some((b, p)) => {
                &&& exists|j: int| 0 <= j < k && tag_version(#[trigger] names[j]) == Some((b, p))
                &&& forall|j: int|
                    0 <= j < k ==> (tag_version(#[trigger] names[j]) matches Some((v, _)) ==> !version_lt(b, v))
            },
            None => forall|j: int| 0 <= j < k ==> tag_version(#[trigger] names[j]) is None,
        },
    decreases k,
{
    if k > 0 {
        lemma_best_is_highest(names, k - 1);
        let prev = best_version(names, k - 1);
        match tag_version(names[k - 1]) {
            None => {},
            Some((v, p)) => {
                assert(v.len() == 4);
                match prev {
                    Some((cur, q)) => {
                        let wj = choose|j: int| 0 <= j < k - 1 && tag_version(#[trigger] names[j]) == Some((cur, q));
                        assert(cur.len() == 4);
                        if version_lt(cur, v) {
                            assert forall|j: int|
                                0 <= j < k implies (tag_version(#[trigger] names[j]) matches Some((w, _)) ==> !version_lt(v, w)) by {
                                if j < k - 1 {
                                    match tag_version(names[j]) {
                                        Some((w, _)) => {
                                            assert(!version_lt(cur, w));
                                        },
                                        None => {},
                                    }
                                }
                            }
                            assert(tag_version(names[k - 1]) == Some((v, p)));
                        } else {
                            assert(tag_version(names[wj]) == Some((cur, q)));
                        }
                    },
                    None => {
                        assert(tag_version(names[k - 1]) == Some((v, p)));
                    },
                }
            },
        }
    }
}

/// The suggested tag is built from the highest release tag there is: one of
/// the tags, and no tag is a later version. Without any release tag the
/// suggestion is the first release.
pub proof fn law_suggestion_builds_on_the_highest_tag(names: Seq<Seq<char>>)
    ensures
        match best_version(names, names.len() as int) {
            Some((b, p)) => {
                &&& exists|j: int| 0 <= j < names.len() && tag_version(#[trigger] names[j]) == Some((b, p))
                &&& forall|j: int|
                    0 <= j < names.len() ==> (tag_version(#[trigger] names[j]) matches Some((v, _)) ==> !version_lt(b, v))
            },
            None => next_tag_text(names) == "v1.0.0.0"@,
        },
{
    lemma_best_is_highest(names, names.len() as int);
}

/// A version's tag text: `major.minor.patch.build`, with a leading `v` when
/// `prefixed`.
pub open spec fn tag_text(v: Seq<nat>, prefixed: bool) -> Seq<char> {
    (if prefixed {
        "v"@
    } else {
        ""@
    }) + dec(v[0]) + seq!['.'] + dec(v[1]) + seq!['.'] + dec(v[2]) + seq!['.'] + dec(v[3])
}

/// `s` comes after `v`: it is later in major, then minor, then patch, then
/// build number; or it is `v` itself with its build number at the top of
/// its range.
pub open spec fn suggested_after(s: Seq<nat>, v: Seq<nat>) -> bool {
    ||| s[0] > v[0]
    ||| s[0] == v[0] && s[1] > v[1]
    ||| s[0] == v[0] && s[1] == v[1] && s[2] > v[2]
    ||| s[0] == v[0] && s[1] == v[1] && s[2] == v[2] && s[3] > v[3]
    ||| s[0] == v[0] && s[1] == v[1] && s[2] == v[2] && s[3] == v[3] && v[3] == u32::MAX
}

/// The suggested tag comes after every release tag there is. When some tag
/// name reads as a version, the suggestion is the text of a version `s`
/// that is later than each of them, comparing major, then minor, then
/// patch, then build number; the one exception is a highest tag whose build
/// number is already at the top of its range, which is suggested again.
/// Without any release tag the suggestion is `v1.0.0.0`.
pub proof fn law_the_suggestion_comes_after_every_release_tag(names: Seq<Seq<char>>)
    ensures
        (forall|j: int| 0 <= j < names.len() ==> tag_version(#[trigger] names[j]) is None) ==> next_tag_text(names)
            == "v1.0.0.0"@,
        (exists|j: int| 0 <= j < names.len() && tag_version(#[trigger] names[j]) is Some) ==> exists|
            s: Seq<nat>,
            p: bool,
        |
            #![trigger tag_text(s, p)]
            s.len() == 4 && next_tag_text(names) == tag_text(s, p) && forall|k: int|
                0 <= k < names.len() ==> match #[trigger] tag_version(names[k]) {
                    Some((v, _)) => suggested_after(s, v),
                    None => true,
                },
{
    lemma_best_is_highest(names, names.len() as int);
    match best_version(names, names.len() as int) {
        Some((b, p)) => {
            let j0 = choose|j: int| 0 <= j < names.len() && tag_version(#[trigger] names[j]) == Some((b, p));
            assert(tag_version(names[j0]) == Some((b, p)));
            assert(b.len() == 4 && b[3] <= u32::MAX);
            let last: nat = if b[3] >= u32::MAX {
                u32::MAX as nat
            } else {
                b[3] + 1
            };
            let s = seq![b[0], b[1], b[2], last];
            assert(next_tag_text(names) =~= tag_text(s, p));
            assert forall|k: int|
                0 <= k < names.len() implies match #[trigger] tag_version(names[k]) {
                    Some((v, _)) => suggested_after(s, v),
                    None => true,
                } by {
                if let Some((v, _)) = tag_version(names[k]) {
                    assert(v.len() == 4 && v[3] <= u32::MAX);
                    assert(!version_lt(b, v));
                }
            }
            assert(s.len() == 4);
        },
        None => {},
    }
}

/// The full name of the tag `name`.
pub open spec fn tags_ref(name: Seq<char>) -> Seq<char> {
    "refs/tags/"@ + name
}

/// The full reference name of a tag.
pub fn tag_ref_name(name: &str) -> (r: String)
    ensures
        r@ == tags_ref(name@),
{
    let mut out = crate::text::lit("refs/tags/");
    crate::text::push_all(&mut out, crate::text::chars_of(name).as_slice());
    crate::text::string_of(out.as_slice())
}

/// Why a local tag cannot be made under `tag_name`, given whether libgit2
/// accepts its reference name and whether such a tag exists already.
pub open spec fn tag_creation_problem(valid: bool, exists: bool) -> Option<Seq<char>> {
    if !valid {
        Some("Invalid tag name."@)
    } else if exists {
        Some("Tag already exists."@)
    } else {
        None
    }
}

/// The verdict on a tag name, given libgit2's answer and whether the tag
/// exists.
pub fn tag_creation_verdict(name_is_valid: bool, tag_exists: bool) -> (r: Option<String>)
    ensures
        crate::sync::opt_text(r) == tag_creation_problem(name_is_valid, tag_exists),
{
    if !name_is_valid {
        Some(owned("Invalid tag name."))
    } else if tag_exists {
        Some(owned("Tag already exists."))
    } else {
        None
    }
}

/// The check made before a local tag is created.
pub fn check_tag_creation(tag_name: &str, tag_exists: bool) -> (r: Option<String>)
    requires
        !tag_name@.contains('\0'),
    ensures
        crate::sync::opt_text(r) == tag_creation_problem(valid_reference_name(tags_ref(tag_name@)), tag_exists),
{
    let mut v = lit("refs/tags/");
    push_all(&mut v, chars_of(tag_name).as_slice());
    let full = string_of(v.as_slice());
    proof {
        reveal_strlit("refs/tags/");
        assert forall|i: int| 0 <= i < full@.len() implies full@[i] != '\0' by {
            if i >= 10 {
                assert(full@[i] == tag_name@[i - 10]);
            }
        }
    }
    let valid = crate::branches::reference_name_is_valid(full.as_str());
    tag_creation_verdict(valid, tag_exists)
}

fn lt4(a: &[u32; 4], b: &[u32; 4]) -> (r: bool)
    ensures
        r == version_lt(seq![a@[0] as nat, a@[1] as nat, a@[2] as nat, a@[3] as nat], seq![b@[0] as nat, b@[1] as nat, b@[2] as nat, b@[3] as nat]),
{
    a[0] < b[0] || (a[0] == b[0] && a[1] < b[1]) || (a[0] == b[0] && a[1] == b[1] && a[2] < b[2])
        || (a[0] == b[0] && a[1] == b[1] && a[2] == b[2] && a[3] < b[3])
}

/// The tag proposed for the next release, given the repository's tag names.
pub fn suggest_next_tag(tag_names: &[String]) -> (r: String)
    ensures
        r@ == next_tag_text(crate::text::strs(tag_names@)),
{
    let ghost names = crate::text::strs(tag_names@);
    let n = tag_names.len();
    let mut best: Option<([u32; 4], bool)> = None;
    let mut k: usize = 0;
    while k < n
        invariant
            n == tag_names@.len(),
            names == crate::text::strs(tag_names@),
            0 <= k <= n,
            match best_version(names, k as int) {
                Some((v, p)) => best matches Some((arr, q)) && q == p && arr@.len() == 4 && v
                    =~= seq![arr@[0] as nat, arr@[1] as nat, arr@[2] as nat, arr@[3] as nat],
                None => best is None,
            },
        decreases n - k,
    {
        match parse_semver_tag(tag_names[k].as_str()) {
            Some((version, has_v)) => {
                let replace = match &best {
                    Some((current, _)) => lt4(current, &version),
                    None => true,
                };
                if replace {
                    best = Some((version, has_v));
                }
            },
            None => {},
        }
        k = k + 1;
    }
    match best {
        Some((v, has_v)) => {
            let mut out: Vec<char> = if has_v {
                lit("v")
            } else {
                lit("")
            };
            push_all(&mut out, u64_chars(v[0] as u64).as_slice());
            out.push('.');
            push_all(&mut out, u64_chars(v[1] as u64).as_slice());
            out.push('.');
            push_all(&mut out, u64_chars(v[2] as u64).as_slice());
            out.push('.');
            push_all(&mut out, u64_chars(v[3].saturating_add(1) as u64).as_slice());
            string_of(out.as_slice())
        },
        None => string_of(lit("v1.0.0.0").as_slice()),
    }
}

} // verus!

verus! {

/// The tag name a request stands for, or why there is none.
pub open spec fn tag_name_plan(tag_name: Seq<char>) -> Result<Seq<char>, Seq<char>> {
    if trim(tag_name).len() == 0 {
        Err("Tag name cannot be empty."@)
    } else {
        Ok(trim(tag_name))
    }
}

/// How a created tag ends: published, or the push's failure, with the
/// rollback's failure appended when the local tag could not be removed
/// either.
pub open spec fn tag_publish_outcome(tag: Seq<char>, push: Result<(), Seq<char>>, rollback: Result<(), Seq<char>>) -> Result<Seq<char>, Seq<char>> {
    match push {
        Ok(()) => Ok("Created and pushed tag "@ + tag),
        Err(e) => match rollback {
            Ok(()) => Err(e),
            Err(re) => Err(e + " Local tag rollback also failed: "@ + re),
        },
    }
}


fn with_text(head: &str, tail: &str) -> (r: String)
    ensures
        r@ == head@ + tail@,
{
    let mut out = chars_of(head);
    push_all(&mut out, chars_of(tail).as_slice());
    string_of(out.as_slice())
}

pub fn tag_name_checked(tag_name: &str) -> (r: Result<String, String>)
    ensures
        match tag_name_plan(tag_name@) {
            Ok(t) => r matches Ok(x) && x@ == t,
            Err(e) => r matches Err(m) && m@ == e,
        },
{
    let t = trim_chars(chars_of(tag_name).as_slice());
    if t.len() == 0 {
        Err(owned("Tag name cannot be empty."))
    } else {
        Ok(string_of(t.as_slice()))
    }
}

pub fn tag_publish_result(tag: &str, push: Result<(), String>, rollback: Result<(), String>) -> (r: Result<String, String>)
    ensures
        match tag_publish_outcome(
            tag@,
            match push {
                Ok(()) => Ok(()),
                Err(e) => Err(e@),
            },
            match rollback {
                Ok(()) => Ok(()),
                Err(e) => Err(e@),
            },
        ) {
            Ok(m) => r matches Ok(x) && x@ == m,
            Err(e) => r matches Err(x) && x@ == e,
        },
{
    match push {
        Ok(()) => Ok(with_text("Created and pushed tag ", tag)),
        Err(e) => match rollback {
            Ok(()) => Err(e),
            Err(re) => {
                let mut out = chars_of(e.as_str());
                push_all(&mut out, lit(" Local tag rollback also failed: ").as_slice());
                push_all(&mut out, chars_of(re.as_str()).as_slice());
                Err(string_of(out.as_slice()))
            },
        },
    }
}

/// What publishing a tag ends in, and the git calls `made` for it, given the
/// port's answer about the origin: to GitHub over HTTPS only with the app's
/// sign-in, and without it no push at all; elsewhere one push with the
/// system's setup.
pub open spec fn tag_push_result<G: GitTagPort, H: GitHubRemoteInfoPort>(
    repo_path: Seq<char>,
    tag_name: Seq<char>,
    auth: Option<GithubAuthSession>,
    r: Result<(), String>,
    made: Seq<GitCall>,
) -> bool {
    exists|https: bool|
        #![trigger H::https_origin_answer(repo_path, https)]
        H::https_origin_answer(repo_path, https) && (if https {
            match auth {
                Some(a) => G::tag_push_answer(repo_path, tag_name, Some(a), r)
                    && made == seq![GitCall::PushTag { repo: repo_path, tag: tag_name, auth: Some(a) }],
                None => r matches Err(m)
                    && m@ == "GitHub tag creation requires the app's GitHub sign-in. Use 'Sign in to GitHub...' and try again."@
                    && made == Seq::<GitCall>::empty(),
            }
        } else {
            G::tag_push_answer(repo_path, tag_name, None, r)
                && made == seq![GitCall::PushTag { repo: repo_path, tag: tag_name, auth: None }]
        })
}

fn push_tag<G: GitTagPort, H: GitHubRemoteInfoPort>(
    repo_path: &str,
    tag_name: &str,
    auth: Option<&GithubAuthSession>,
    git: &mut G,
    github: &H,
) -> (r: Result<(), String>)
    ensures
        final(git).git_calls() == old(git).git_calls() + calls_added(old(git).git_calls(), final(git).git_calls()),
        tag_push_result::<G, H>(
            repo_path@,
            tag_name@,
            session_of(auth),
            r,
            calls_added(old(git).git_calls(), final(git).git_calls()),
        ),
{
    let ghost before = git.git_calls();
    proof {
        assert(calls_added(before, before) =~= Seq::<GitCall>::empty());
        assert(before =~= before + Seq::<GitCall>::empty());
    }
    let https = github.is_github_https_origin(repo_path);
    assert(H::https_origin_answer(repo_path@, https));
    if https {
        match auth {
            Some(a) => {
                let r = git.push_tag(repo_path, tag_name, GitRemoteAuth::GitHub(a));
                assert(auth_session(GitRemoteAuth::GitHub(a)) == session_of(auth));
                assert(calls_added(before, git.git_calls()) =~= seq![
                    GitCall::PushTag { repo: repo_path@, tag: tag_name@, auth: session_of(auth) },
                ]);
                r
            },
            None => Err(
                owned(
                    "GitHub tag creation requires the app's GitHub sign-in. Use 'Sign in to GitHub...' and try again.",
                ),
            ),
        }
    } else {
        let r = git.push_tag(repo_path, tag_name, GitRemoteAuth::System);
        assert(calls_added(before, git.git_calls()) =~= seq![
            GitCall::PushTag { repo: repo_path@, tag: tag_name@, auth: None },
        ]);
        r
    }
}

/// `Ok`/`Err` of unit with its error as text.
pub open spec fn unit_answer(r: Result<(), String>) -> Result<(), Seq<char>> {
    match r {
        Ok(()) => Ok(()),
        Err(e) => Err(e@),
    }
}

/// How a created tag's publishing ends, and the git calls `made` for it,
/// given the push's answer: when the push failed, one rollback of the tag
/// and its answer; otherwise no call.
pub open spec fn tag_published<G: GitTagPort>(
    repo_path: Seq<char>,
    tag: Seq<char>,
    pushed: Result<(), String>,
    r: Result<String, String>,
    made: Seq<GitCall>,
) -> bool {
    match pushed {
        Ok(()) => r matches Ok(m) && m@ == "Created and pushed tag "@ + tag && made == Seq::<GitCall>::empty(),
        Err(_) => exists|rollback: Result<(), String>|
            #![trigger G::tag_rollback_answer(repo_path, tag, rollback)]
            G::tag_rollback_answer(repo_path, tag, rollback)
                && made == seq![GitCall::RollbackTag { repo: repo_path, tag }]
                && match tag_publish_outcome(
                tag,
                unit_answer(pushed),
                unit_answer(rollback),
            ) {
                Ok(m) => r matches Ok(x) && x@ == m,
                Err(e) => r matches Err(x) && x@ == e,
            },
    }
}

/// What creating a tag ends in, and the git calls `made` for it, given the
/// ports' answers: the checked-out branch and whether a tag may be made on
/// it, the local tag, whether there is an origin, then the push and, when it
/// failed, the rollback. Nothing is created, pushed or rolled back on a
/// refusal; the tag is created once, before anything else is asked of git.
pub open spec fn tag_creation_result<G: GitBranchReadPort + GitTagPort + GitRemoteInfoPort, H: GitHubRemoteInfoPort>(
    repo_path: Seq<char>,
    tag_name: Seq<char>,
    auth: Option<GithubAuthSession>,
    r: Result<String, String>,
    made: Seq<GitCall>,
) -> bool {
    match tag_name_plan(tag_name) {
        Err(e) => r matches Err(m) && m@ == e && made == Seq::<GitCall>::empty(),
        Ok(tag) => exists|branch: Result<Option<String>, String>|
            #![trigger G::branch_answer(repo_path, branch)]
            G::branch_answer(repo_path, branch) && match branch {
                Err(e) => r == Err::<String, String>(e) && made == Seq::<GitCall>::empty(),
                Ok(None) => r matches Err(m) && m@ == "Tag creation requires a checked-out branch."@
                    && made == Seq::<GitCall>::empty(),
                Ok(Some(b)) => exists|allowed: bool|
                    #![trigger G::tag_branch_answer(b@, allowed)]
                    G::tag_branch_answer(b@, allowed) && (if !allowed {
                        r matches Err(m) && m@ == "Tags can only be created from the main or master branch."@
                            && made == Seq::<GitCall>::empty()
                    } else {
                        exists|created: Result<(), String>|
                            #![trigger G::tag_create_answer(repo_path, tag, created)]
                            G::tag_create_answer(repo_path, tag, created) && match created {
                                Err(e) => r == Err::<String, String>(e)
                                    && made == seq![GitCall::CreateTag { repo: repo_path, tag }],
                                Ok(()) => exists|origin: Result<bool, String>|
                                    #![trigger G::origin_answer(repo_path, origin)]
                                    G::origin_answer(repo_path, origin) && match origin {
                                        Err(e) => r == Err::<String, String>(e)
                                            && made == seq![GitCall::CreateTag { repo: repo_path, tag }],
                                        Ok(false) => r matches Ok(m) && m@ == "Created local tag "@ + tag
                                            && made == seq![GitCall::CreateTag { repo: repo_path, tag }],
                                        Ok(true) => exists|
                                            pushed: Result<(), String>,
                                            pushing: Seq<GitCall>,
                                            rolling: Seq<GitCall>,
                                        |
                                            #![trigger tag_push_result::<G, H>(repo_path, tag, auth, pushed, pushing), tag_published::<G>(repo_path, tag, pushed, r, rolling)]
                                            tag_push_result::<G, H>(repo_path, tag, auth, pushed, pushing)
                                                && tag_published::<G>(repo_path, tag, pushed, r, rolling)
                                                && made == seq![GitCall::CreateTag { repo: repo_path, tag }] + pushing
                                                + rolling,
                                    },
                            }
                    }),
            },
    }
}

/// Creates a release tag on `main` or `master` and publishes it when there
/// is an origin; a tag that cannot be published is rolled back.
pub fn create_tag<G: GitBranchReadPort + GitTagPort + GitRemoteInfoPort, H: GitHubRemoteInfoPort>(
    repo_path: &str,
    tag_name: &str,
    auth: Option<&GithubAuthSession>,
    git: &mut G,
    github: &H,
) -> (r: Result<String, String>)
    ensures
        tag_name_plan(tag_name@) matches Err(e) ==> (r matches Err(m) && m@ == e),
        r matches Ok(m) ==> (m@ == "Created local tag "@ + trim(tag_name@) || m@ == "Created and pushed tag "@
            + trim(tag_name@)),
        final(git).git_calls() == old(git).git_calls() + calls_added(old(git).git_calls(), final(git).git_calls()),
        tag_creation_result::<G, H>(
            repo_path@,
            tag_name@,
            session_of(auth),
            r,
            calls_added(old(git).git_calls(), final(git).git_calls()),
        ),
{
    let ghost before = git.git_calls();
    proof {
        assert(calls_added(before, before) =~= Seq::<GitCall>::empty());
        assert(before =~= before + Seq::<GitCall>::empty());
    }
    let tag = match tag_name_checked(tag_name) {
        Ok(t) => t,
        Err(e) => {
            return Err(e);
        },
    };
    let read = git.current_branch_name(repo_path);
    assert(G::branch_answer(repo_path@, read));
    let branch = match read {
        Ok(Some(b)) => b,
        Ok(None) => {
            return Err(owned("Tag creation requires a checked-out branch."));
        },
        Err(e) => {
            return Err(e);
        },
    };
    let allowed = git.can_create_tag_on_branch(branch.as_str());
    assert(G::tag_branch_answer(branch@, allowed));
    if !allowed {
        return Err(owned("Tags can only be created from the main or master branch."));
    }
    let made = git.create_tag(repo_path, tag.as_str());
    let ghost create_call = seq![GitCall::CreateTag { repo: repo_path@, tag: tag@ }];
    proof {
        assert(G::tag_create_answer(repo_path@, tag@, made));
        assert(calls_added(before, git.git_calls()) =~= create_call);
        assert(git.git_calls() =~= before + create_call);
    }
    if let Err(e) = made {
        return Err(e);
    }
    let origin = git.has_origin_remote(repo_path);
    assert(G::origin_answer(repo_path@, origin));
    match origin {
        Err(e) => {
            return Err(e);
        },
        Ok(false) => {
            return Ok(with_text("Created local tag ", tag.as_str()));
        },
        Ok(true) => {},
    }
    let ghost mid = git.git_calls();
    let pushed = push_tag(repo_path, tag.as_str(), auth, git, github);
    let ghost pushed_view = pushed;
    let ghost pushing = calls_added(mid, git.git_calls());
    let ghost mid2 = git.git_calls();
    assert(tag_push_result::<G, H>(repo_path@, tag@, session_of(auth), pushed_view, pushing));
    let rollback = match &pushed {
        Ok(()) => Ok(()),
        Err(_) => {
            let rb = git.rollback_tag(repo_path, tag.as_str());
            assert(G::tag_rollback_answer(repo_path@, tag@, rb));
            rb
        },
    };
    let ghost rolling = calls_added(mid2, git.git_calls());
    proof {
        if pushed_view is Err {
            assert(rolling =~= seq![GitCall::RollbackTag { repo: repo_path@, tag: tag@ }]);
        } else {
            assert(rolling =~= Seq::<GitCall>::empty());
        }
        assert(git.git_calls() =~= mid2 + rolling);
        assert(mid2 =~= mid + pushing);
        assert(calls_added(before, git.git_calls()) =~= create_call + pushing + rolling);
        assert(git.git_calls() =~= before + calls_added(before, git.git_calls()));
    }
    let r = tag_publish_result(tag.as_str(), pushed, rollback);
    assert(tag_published::<G>(repo_path@, tag@, pushed_view, r, rolling));
    r
}

/// A tag is created at most once, before any other call; it is pushed at
/// most once, after being created; and it is rolled back at most once, only
/// as the last call, when publishing it failed.
pub proof fn law_a_tag_is_rolled_back_only_after_a_failed_push<G, H>(
    repo_path: Seq<char>,
    tag_name: Seq<char>,
    auth: Option<GithubAuthSession>,
    r: Result<String, String>,
    made: Seq<GitCall>,
) where
    G: GitBranchReadPort + GitTagPort + GitRemoteInfoPort,
    H: GitHubRemoteInfoPort,

    requires
        tag_creation_result::<G, H>(repo_path, tag_name, auth, r, made),
    ensures
        made.len() <= 3,
        made.len() > 0 ==> made[0] == (GitCall::CreateTag { repo: repo_path, tag: trim(tag_name) }),
        forall|i: int| 1 <= i < made.len() ==> !(#[trigger] made[i] is CreateTag),
        forall|i: int| 0 <= i < made.len() && (#[trigger] made[i] is RollbackTag) ==> i == made.len() - 1 && r is Err,
        forall|i: int| 0 <= i < made.len() && (#[trigger] made[i] is PushTag) ==> i == 1,
{
}

} // verus!
