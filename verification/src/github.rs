//! GitHub: the values exchanged with it, and the text the app reads from it
//! or sends to it: remote URLs, repository names, paging links, API
//! addresses and sign-in messages.

use vstd::prelude::*;

use crate::text::{
    chars_of, contains_seq, has_infix, has_prefix, has_suffix, lit, push_all, seq_eq, slice_chars,
    split_chars, split_on, starts_with, ends_with, string_of, texts, trim, trim_chars, has_char,
    contains_char, first_index, find_char, trim_end_char, trim_start_char,
};

verus! {

/// What to offer after a push: the open pull request, or a link to open one.
#[derive(Clone, Debug)]
pub enum PullRequestPrompt {
    Open { branch: String, number: u64, url: String },
    Create { branch: String, url: String },
}

impl PullRequestPrompt {
    /// A copy of this prompt.
    pub fn duplicate(&self) -> (r: PullRequestPrompt)
        ensures
            r == *self,
    {
        match self {
            PullRequestPrompt::Open { branch, number, url } => PullRequestPrompt::Open {
                branch: branch.clone(),
                number: *number,
                url: url.clone(),
            },
            PullRequestPrompt::Create { branch, url } => PullRequestPrompt::Create {
                branch: branch.clone(),
                url: url.clone(),
            },
        }
    }

    /// The branch the prompt is about.
    pub fn branch(&self) -> (r: &String)
        ensures
            r == match self {
                PullRequestPrompt::Open { branch, .. } => branch,
                PullRequestPrompt::Create { branch, .. } => branch,
            },
    {
        match self {
            PullRequestPrompt::Open { branch, .. } => branch,
            PullRequestPrompt::Create { branch, .. } => branch,
        }
    }
}

#[derive(Clone, Copy, Debug, PartialEq, Eq, Structural)]
pub enum GithubRepoVisibility {
    Public,
    Private,
}

impl GithubRepoVisibility {
    pub fn is_private(self) -> (r: bool)
        ensures
            r == (self == GithubRepoVisibility::Private),
    {
        match self {
            GithubRepoVisibility::Private => true,
            GithubRepoVisibility::Public => false,
        }
    }
}

/// A signed-in GitHub session.
#[derive(Clone, Debug)]
pub struct GithubAuthSession {
    pub access_token: String,
    pub login: String,
}

/// What publishing a folder as a new GitHub repository needs.
#[derive(Clone, Debug)]
pub struct CreateGithubRepoRequest {
    pub folder_path: String,
    pub repo_name: String,
    pub commit_message: String,
    pub visibility: GithubRepoVisibility,
    pub auth: GithubAuthSession,
}

#[derive(Clone, Debug)]
pub struct CreateGithubRepoSuccess {
    pub folder_path: String,
    pub message: String,
}

#[derive(Clone, Debug)]
pub struct PushSuccess {
    pub message: String,
    pub pull_request_prompt: Option<PullRequestPrompt>,
}

/// One repository of the signed-in user's list.
#[derive(Clone, Debug)]
pub struct GithubRepoSummary {
    pub full_name: String,
    pub clone_url: String,
    pub private: bool,
    pub description: Option<String>,
}

/// What the user is shown to finish signing in on github.com.
#[derive(Clone, Debug)]
pub struct GithubAuthPrompt {
    pub user_code: String,
    pub verification_uri: String,
    pub browser_url: String,
}

impl GithubAuthPrompt {
    /// The prompt for a device code GitHub handed out: the code to type, the
    /// page to type it on, and the page the browser opens, which is the one
    /// with the code filled in when GitHub gave one.
    pub fn for_device_code(
        user_code: String,
        verification_uri: String,
        verification_uri_complete: Option<String>,
    ) -> (r: GithubAuthPrompt)
        ensures
            r.user_code == user_code,
            r.verification_uri == verification_uri,
            r.browser_url == match verification_uri_complete {
                Some(u) => u,
                None => verification_uri,
            },
    {
        let browser_url = match verification_uri_complete {
            Some(u) => u,
            None => verification_uri.clone(),
        };
        GithubAuthPrompt { user_code, verification_uri, browser_url }
    }
}

/// Whether a stored session still works.
#[derive(Clone, Copy, Debug, PartialEq, Eq, Structural)]
pub enum GithubAuthCheck {
    Valid,
    Revoked,
}

/// Whether a remote URL is GitHub over HTTPS, which the app's own sign-in
/// serves.
pub fn is_github_https_url(url: &str) -> (r: bool)
    ensures
        r == has_prefix(url@, "https://github.com/"@),
{
    starts_with(chars_of(url).as_slice(), lit("https://github.com/").as_slice())
}

} // verus!

verus! {

/// `s` with every trailing repetition of `p` removed (`str::trim_end_matches`).
pub open spec fn strip_all_suffix(s: Seq<char>, p: Seq<char>) -> Seq<char>
    decreases s.len(),
{
    if p.len() > 0 && has_suffix(s, p) {
        strip_all_suffix(s.take(s.len() - p.len()), p)
    } else {
        s
    }
}

fn strip_all_suffix_chars(s: &[char], p: &[char]) -> (r: Vec<char>)
    ensures
        r@ == strip_all_suffix(s@, p@),
{
    let mut cur = slice_chars(s, 0, s.len());
    assert(cur@ =~= s@);
    if p.len() == 0 {
        return cur;
    }
    while ends_with(cur.as_slice(), p)
        invariant
            p@.len() > 0,
            strip_all_suffix(cur@, p@) == strip_all_suffix(s@, p@),
        decreases cur@.len(),
    {
        let n = cur.len();
        cur = slice_chars(cur.as_slice(), 0, n - p.len());
    }
    cur
}

/// `owner/name` out of the path part of a GitHub remote, a trailing `.git`
/// (however often repeated) dropped and both halves trimmed.
pub open spec fn slug_parts(slug: Seq<char>) -> Option<(Seq<char>, Seq<char>)> {
    let s = strip_all_suffix(slug, ".git"@);
    match first_index(s, '/') {
        None => None,
        Some(i) => {
            let owner = trim(s.take(i));
            let repo = trim(s.skip(i + 1));
            if owner.len() == 0 || repo.len() == 0 {
                None
            } else {
                Some((owner, repo))
            }
        },
    }
}

/// The owner and name of the GitHub repository a remote URL points at, for
/// the HTTPS, HTTP, SCP-style SSH and `ssh://` forms.
pub open spec fn remote_slug(url: Seq<char>) -> Option<(Seq<char>, Seq<char>)> {
    if has_prefix(url, "https://github.com/"@) {
        slug_parts(url.skip("https://github.com/"@.len() as int))
    } else if has_prefix(url, "http://github.com/"@) {
        slug_parts(url.skip("http://github.com/"@.len() as int))
    } else if has_prefix(url, "git@github.com:"@) {
        slug_parts(url.skip("git@github.com:"@.len() as int))
    } else if has_prefix(url, "ssh://git@github.com/"@) {
        slug_parts(url.skip("ssh://git@github.com/"@.len() as int))
    } else {
        None
    }
}

fn parse_github_slug(slug: &[char]) -> (r: Option<(String, String)>)
    ensures
        match slug_parts(slug@) {
            Some((o, n)) => match r {
                Some((ro, rn)) => ro@ == o && rn@ == n,
                None => false,
            },
            None => r is None,
        },
{
    let s = strip_all_suffix_chars(slug, lit(".git").as_slice());
    match find_char(s.as_slice(), '/') {
        None => None,
        Some(i) => {
            let sl = s.len();
            let owner = trim_chars(slice_chars(s.as_slice(), 0, i).as_slice());
            assert(s@.subrange(0, i as int) =~= s@.take(i as int));
            let repo = trim_chars(slice_chars(s.as_slice(), i + 1, sl).as_slice());
            assert(s@.subrange(i + 1, sl as int) =~= s@.skip(i + 1));
            if owner.len() == 0 || repo.len() == 0 {
                None
            } else {
                Some((string_of(owner.as_slice()), string_of(repo.as_slice())))
            }
        },
    }
}

fn after_prefix(s: &[char], p: &str) -> (r: Option<Vec<char>>)
    ensures
        match r {
            Some(rest) => has_prefix(s@, p@) && rest@ == s@.skip(p@.len() as int),
            None => !has_prefix(s@, p@),
        },
{
    let pv = lit(p);
    if starts_with(s, pv.as_slice()) {
        let rest = slice_chars(s, pv.len(), s.len());
        assert(rest@ =~= s@.skip(p@.len() as int));
        Some(rest)
    } else {
        None
    }
}

/// The owner and name of the GitHub repository a remote URL points at.
pub fn parse_github_remote_slug(remote_url: &str) -> (r: Option<(String, String)>)
    ensures
        match remote_slug(remote_url@) {
            Some((o, n)) => match r {
                Some((ro, rn)) => ro@ == o && rn@ == n,
                None => false,
            },
            None => r is None,
        },
{
    let url = chars_of(remote_url);
    if let Some(rest) = after_prefix(url.as_slice(), "https://github.com/") {
        return parse_github_slug(rest.as_slice());
    }
    if let Some(rest) = after_prefix(url.as_slice(), "http://github.com/") {
        return parse_github_slug(rest.as_slice());
    }
    if let Some(rest) = after_prefix(url.as_slice(), "git@github.com:") {
        return parse_github_slug(rest.as_slice());
    }
    if let Some(rest) = after_prefix(url.as_slice(), "ssh://git@github.com/") {
        return parse_github_slug(rest.as_slice());
    }
    None
}

} // verus!

verus! {

/// A character that separates the segments of a clone URL.
pub open spec fn url_separator(c: char) -> bool {
    c == '/' || c == ':'
}

/// The run of non-separators `s` ends with.
pub open spec fn trailing_run(s: Seq<char>) -> Seq<char>
    decreases s.len(),
{
    if s.len() == 0 || url_separator(s.last()) {
        Seq::empty()
    } else {
        trailing_run(s.drop_last()).push(s.last())
    }
}

/// The last non-empty segment of `s` split at `/` and `:`.
pub open spec fn last_segment(s: Seq<char>) -> Option<Seq<char>>
    decreases s.len(),
{
    if s.len() == 0 {
        None
    } else if url_separator(s.last()) {
        last_segment(s.drop_last())
    } else {
        Some(trailing_run(s))
    }
}

/// The folder name a clone of `url` gets: the last segment of the trimmed
/// URL without one trailing `.git`, refused when it is `.` or `..`, holds a
/// backslash or a NUL, or is blank.
pub open spec fn clone_folder_name(url: Seq<char>) -> Option<Seq<char>> {
    let trimmed = trim(url);
    let without_git = if has_suffix(trimmed, ".git"@) {
        trimmed.take(trimmed.len() - 4)
    } else {
        trimmed
    };
    if trimmed.len() == 0 {
        None
    } else {
        match last_segment(without_git) {
            None => None,
            Some(seg) => {
                let name = trim(seg);
                if name.len() == 0 || has_char(name, '\\') || has_char(name, '\0') || name == "."@
                    || name == ".."@ {
                    None
                } else {
                    Some(name)
                }
            },
        }
    }
}

proof fn lemma_trailing_run_step(s: Seq<char>, k: int)
    requires
        0 <= k <= s.len(),
        forall|j: int| k <= j < s.len() ==> !url_separator(#[trigger] s[j]),
        k == 0 || url_separator(s[k - 1]),
    ensures
        trailing_run(s) == s.skip(k),
    decreases s.len(),
{
    if s.len() > k {
        lemma_trailing_run_step(s.drop_last(), k);
        assert(s.drop_last().skip(k).push(s.last()) =~= s.skip(k));
    } else {
        assert(s.skip(k) =~= Seq::<char>::empty());
    }
}

fn last_segment_chars(s: &[char]) -> (r: Option<Vec<char>>)
    ensures
        match last_segment(s@) {
            Some(x) => r is Some && r->0@ == x,
            None => r is None,
        },
{
    let n = s.len();
    let mut end: usize = n;
    assert(s@.take(n as int) =~= s@);
    while end > 0 && (s[end - 1] == '/' || s[end - 1] == ':')
        invariant
            n == s@.len(),
            0 <= end <= n,
            last_segment(s@) == last_segment(s@.take(end as int)),
        decreases end,
    {
        assert(s@.take(end as int).drop_last() =~= s@.take(end - 1));
        end = end - 1;
    }
    if end == 0 {
        return None;
    }
    let mut start: usize = end;
    while start > 0 && !(s[start - 1] == '/' || s[start - 1] == ':')
        invariant
            n == s@.len(),
            0 <= start <= end <= n,
            forall|j: int| start <= j < end ==> !url_separator(#[trigger] s@[j]),
        decreases start,
    {
        start = start - 1;
    }
    let ghost t = s@.take(end as int);
    assert(!url_separator(t.last()));
    proof {
        assert forall|j: int| start <= j < t.len() implies !url_separator(#[trigger] t[j]) by {
            assert(t[j] == s@[j]);
        }
        if start > 0 {
            assert(t[start - 1] == s@[start - 1]);
        }
        lemma_trailing_run_step(t, start as int);
    }
    let seg = slice_chars(s, start, end);
    assert(seg@ =~= t.skip(start as int));
    Some(seg)
}

/// The folder name to clone a repository into, taken from its URL.
pub fn repo_name_from_clone_url(url: &str) -> (r: Option<String>)
    ensures
        match clone_folder_name(url@) {
            Some(n) => r is Some && r->0@ == n,
            None => r is None,
        },
{
    let trimmed = trim_chars(chars_of(url).as_slice());
    if trimmed.len() == 0 {
        return None;
    }
    let git = lit(".git");
    proof {
        reveal_strlit(".git");
    }
    let without_git = if ends_with(trimmed.as_slice(), git.as_slice()) {
        let tl = trimmed.len();
        slice_chars(trimmed.as_slice(), 0, tl - git.len())
    } else {
        slice_chars(trimmed.as_slice(), 0, trimmed.len())
    };
    proof {
        reveal_strlit(".git");
    }
    assert(without_git@ =~= (if has_suffix(trimmed@, ".git"@) {
        trimmed@.take(trimmed@.len() - 4)
    } else {
        trimmed@
    }));
    match last_segment_chars(without_git.as_slice()) {
        None => None,
        Some(seg) => {
            let name = trim_chars(seg.as_slice());
            if name.len() == 0 || contains_char(name.as_slice(), '\\') || contains_char(
                name.as_slice(),
                '\0',
            ) || seq_eq(name.as_slice(), lit(".").as_slice()) || seq_eq(
                name.as_slice(),
                lit("..").as_slice(),
            ) {
                None
            } else {
                Some(string_of(name.as_slice()))
            }
        },
    }
}

} // verus!

verus! {

/// A link parameter that marks the next page.
pub open spec fn is_next_rel(param: Seq<char>) -> bool {
    trim(param) == "rel=\"next\""@ || trim(param) == "rel=next"@
}

/// Whether any of `params` from `k` on marks the next page.
pub open spec fn has_next_rel(params: Seq<Seq<char>>, k: int) -> bool
    decreases params.len() - k,
{
    if k < 0 || k >= params.len() {
        false
    } else {
        is_next_rel(params[k]) || has_next_rel(params, k + 1)
    }
}

/// The URL of one `<url>; rel="…"` element of a `Link` header, when it
/// marks the next page.
pub open spec fn next_target(part: Seq<char>) -> Option<Seq<char>> {
    let p = trim(part);
    match first_index(p, ';') {
        None => None,
        Some(i) => if has_next_rel(split_on(p.skip(i + 1), ';'), 0) {
            Some(trim_end_char(trim_start_char(trim(p.take(i)), '<'), '>'))
        } else {
            None
        },
    }
}

pub open spec fn next_link_from(parts: Seq<Seq<char>>, k: int) -> Option<Seq<char>>
    decreases parts.len() - k,
{
    if k < 0 || k >= parts.len() {
        None
    } else {
        match next_target(parts[k]) {
            Some(u) => Some(u),
            None => next_link_from(parts, k + 1),
        }
    }
}

/// The next-page URL of a `Link` header.
pub open spec fn next_link(header: Seq<char>) -> Option<Seq<char>> {
    next_link_from(split_on(header, ','), 0)
}

fn is_next_param(param: &[char]) -> (r: bool)
    ensures
        r == is_next_rel(param@),
{
    let t = trim_chars(param);
    seq_eq(t.as_slice(), lit("rel=\"next\"").as_slice()) || seq_eq(
        t.as_slice(),
        lit("rel=next").as_slice(),
    )
}

fn next_target_chars(part: &[char]) -> (r: Option<Vec<char>>)
    ensures
        match next_target(part@) {
            Some(u) => r is Some && r->0@ == u,
            None => r is None,
        },
{
    let p = trim_chars(part);
    match find_char(p.as_slice(), ';') {
        None => None,
        Some(i) => {
            let pl = p.len();
            let params_text = slice_chars(p.as_slice(), i + 1, pl);
            assert(params_text@ =~= p@.skip(i + 1));
            let params = split_chars(params_text.as_slice(), ';');
            let ghost ps = texts(params@);
            let n = params.len();
            let mut k: usize = 0;
            let mut found = false;
            while k < n
                invariant
                    n == params@.len(),
                    ps == texts(params@),
                    0 <= k <= n,
                    has_next_rel(ps, 0) == (found || has_next_rel(ps, k as int)),
                decreases n - k,
            {
                assert(params@[k as int]@ == ps[k as int]);
                if is_next_param(params[k].as_slice()) {
                    found = true;
                }
                k = k + 1;
            }
            if found {
                let target = slice_chars(p.as_slice(), 0, i);
                assert(target@ =~= p@.take(i as int));
                let t = trim_chars(target.as_slice());
                let a = crate::text::trim_start_char_chars(t.as_slice(), '<');
                Some(crate::text::trim_end_char_chars(a.as_slice(), '>'))
            } else {
                None
            }
        },
    }
}

/// The URL of the next page a GitHub `Link` header names.
pub fn parse_link_header_next(header: &str) -> (r: Option<String>)
    ensures
        match next_link(header@) {
            Some(u) => r is Some && r->0@ == u,
            None => r is None,
        },
{
    let parts = split_chars(chars_of(header).as_slice(), ',');
    let ghost ps = texts(parts@);
    let n = parts.len();
    let mut k: usize = 0;
    while k < n
        invariant
            n == parts@.len(),
            ps == texts(parts@),
            ps == split_on(header@, ','),
            0 <= k <= n,
            next_link(header@) == next_link_from(ps, k as int),
        decreases n - k,
    {
        assert(parts@[k as int]@ == ps[k as int]);
        match next_target_chars(parts[k].as_slice()) {
            Some(u) => {
                return Some(string_of(u.as_slice()));
            },
            None => {},
        }
        k = k + 1;
    }
    None
}

} // verus!

verus! {

/// The owner and name a typed repository name stands for: `owner/name`, or a
/// bare name owned by the signed-in user.
pub open spec fn target_repo(repo_name: Seq<char>, fallback_owner: Seq<char>) -> Result<(Seq<char>, Seq<char>), Seq<char>> {
    match first_index(repo_name, '/') {
        Some(i) => {
            let owner = trim(repo_name.take(i));
            let name = trim(repo_name.skip(i + 1));
            if owner.len() == 0 || name.len() == 0 {
                Err("Repository name must look like owner/name or name"@)
            } else {
                Ok((owner, name))
            }
        },
        None => Ok((fallback_owner, trim(repo_name))),
    }
}

/// Splits a typed repository name into owner and name.
pub fn parse_target_repo_name(repo_name: &str, fallback_owner: &str) -> (r: Result<(String, String), String>)
    ensures
        match target_repo(repo_name@, fallback_owner@) {
            Ok((o, n)) => match r {
                Ok((ro, rn)) => ro@ == o && rn@ == n,
                Err(_) => false,
            },
            Err(e) => match r {
                Ok(_) => false,
                Err(re) => re@ == e,
            },
        },
{
    let v = chars_of(repo_name);
    match find_char(v.as_slice(), '/') {
        Some(i) => {
            let vl = v.len();
            let owner = trim_chars(slice_chars(v.as_slice(), 0, i).as_slice());
            assert(v@.subrange(0, i as int) =~= v@.take(i as int));
            let name = trim_chars(slice_chars(v.as_slice(), i + 1, vl).as_slice());
            assert(v@.subrange(i + 1, vl as int) =~= v@.skip(i + 1));
            if owner.len() == 0 || name.len() == 0 {
                Err(string_of(lit("Repository name must look like owner/name or name").as_slice()))
            } else {
                Ok((string_of(owner.as_slice()), string_of(name.as_slice())))
            }
        },
        None => Ok((
            string_of(chars_of(fallback_owner).as_slice()),
            string_of(trim_chars(v.as_slice()).as_slice()),
        )),
    }
}

/// Where a repository is created: under the user, or under an organisation.
pub open spec fn create_repo_url(owner: Seq<char>, login: Seq<char>) -> Seq<char> {
    if owner == login {
        "https://api.github.com/user/repos"@
    } else {
        "https://api.github.com/orgs/"@ + owner + "/repos"@
    }
}

/// The API address a new repository of `owner` is created at.
pub fn repository_create_url(owner: &str, login: &str) -> (r: String)
    ensures
        r@ == create_repo_url(owner@, login@),
{
    let o = chars_of(owner);
    if seq_eq(o.as_slice(), chars_of(login).as_slice()) {
        string_of(lit("https://api.github.com/user/repos").as_slice())
    } else {
        let mut out = lit("https://api.github.com/orgs/");
        push_all(&mut out, o.as_slice());
        push_all(&mut out, lit("/repos").as_slice());
        string_of(out.as_slice())
    }
}

/// The message shown when GitHub refuses the configured OAuth app.
pub open spec fn oauth_configuration_message() -> Seq<char> {
    "GitHub OAuth configuration error: the configured client ID is not valid for a GitHub OAuth App device flow. Use a GitHub OAuth App client ID and make sure Device Flow is enabled for that app."@
}

/// An OAuth error as the user reads it: a misconfigured client named as
/// such, anything else as GitHub said it.
pub open spec fn oauth_error_text(message: Seq<char>) -> Seq<char> {
    if has_infix(message, "incorrect_client_credentials"@) || has_infix(
        message,
        "client_id and/or client_secret passed are incorrect"@,
    ) || has_infix(message, "client_id is invalid"@) || has_infix(
        message,
        "device flow is disabled"@,
    ) {
        oauth_configuration_message()
    } else {
        message
    }
}

pub fn normalize_github_oauth_error(message: String) -> (r: String)
    ensures
        r@ == oauth_error_text(message@),
{
    let m = chars_of(message.as_str());
    if contains_seq(m.as_slice(), lit("incorrect_client_credentials").as_slice()) || contains_seq(
        m.as_slice(),
        lit("client_id and/or client_secret passed are incorrect").as_slice(),
    ) || contains_seq(m.as_slice(), lit("client_id is invalid").as_slice()) || contains_seq(
        m.as_slice(),
        lit("device flow is disabled").as_slice(),
    ) {
        return string_of(
            lit(
                "GitHub OAuth configuration error: the configured client ID is not valid for a GitHub OAuth App device flow. Use a GitHub OAuth App client ID and make sure Device Flow is enabled for that app.",
            ).as_slice(),
        );
    }
    message
}

} // verus!

verus! {

// ---------------------------------------------------------------------------
// Percent-encoding
// ---------------------------------------------------------------------------

/// The UTF-8 bytes of a character.
pub open spec fn utf8_bytes(c: char) -> Seq<u8> {
    let v = c as int;
    if v < 0x80 {
        seq![v as u8]
    } else if v < 0x800 {
        seq![(0xC0 + v / 64) as u8, (0x80 + v % 64) as u8]
    } else if v < 0x10000 {
        seq![(0xE0 + v / 4096) as u8, (0x80 + (v / 64) % 64) as u8, (0x80 + v % 64) as u8]
    } else {
        seq![
            (0xF0 + v / 262144) as u8,
            (0x80 + (v / 4096) % 64) as u8,
            (0x80 + (v / 64) % 64) as u8,
            (0x80 + v % 64) as u8,
        ]
    }
}

/// A byte that percent-encoding leaves as it is: ASCII letters and digits,
/// `-`, `.`, `_` and `~`.
pub open spec fn unreserved_byte(b: u8) -> bool {
    (48 <= b <= 57) || (65 <= b <= 90) || (97 <= b <= 122) || b == 45 || b == 46 || b == 95 || b
        == 126
}

/// An uppercase hexadecimal digit.
pub open spec fn upper_hex(d: int) -> char {
    if d < 10 {
        ((48 + d) as u8) as char
    } else {
        ((55 + d) as u8) as char
    }
}

/// One byte, percent-encoded.
pub open spec fn byte_encoded(b: u8) -> Seq<char> {
    if unreserved_byte(b) {
        seq![b as char]
    } else {
        seq!['%', upper_hex(b as int / 16), upper_hex(b as int % 16)]
    }
}

pub open spec fn bytes_encoded(bs: Seq<u8>) -> Seq<char>
    decreases bs.len(),
{
    if bs.len() == 0 {
        Seq::empty()
    } else {
        bytes_encoded(bs.drop_last()) + byte_encoded(bs.last())
    }
}

/// Text percent-encoded byte by byte over its UTF-8 form.
pub open spec fn url_encoded(s: Seq<char>) -> Seq<char>
    decreases s.len(),
{
    if s.len() == 0 {
        Seq::empty()
    } else {
        url_encoded(s.drop_last()) + bytes_encoded(utf8_bytes(s.last()))
    }
}

/// `urlencoding::encode`: percent-encodes every UTF-8 byte of `s` except
/// ASCII letters and digits and `-`, `.`, `_`, `~`, with uppercase hex
/// digits.
#[verifier::external_body]
fn url_encode(s: &str) -> (r: String)
    ensures
        r@ == url_encoded(s@),
{
    urlencoding::encode(s).into_owned()
}

/// The open pull requests of `owner/repo` from `branch`.
pub open spec fn open_pulls_url(owner: Seq<char>, repo: Seq<char>, branch: Seq<char>) -> Seq<char> {
    "https://api.github.com/repos/"@ + owner + seq!['/'] + repo + "/pulls?state=open&head="@
        + url_encoded(owner) + "%3A"@ + url_encoded(branch)
}

/// The API address asked for the open pull requests of a branch.
pub fn pull_requests_url(owner: &str, repo: &str, branch: &str) -> (r: String)
    ensures
        r@ == open_pulls_url(owner@, repo@, branch@),
{
    let mut out = lit("https://api.github.com/repos/");
    push_all(&mut out, chars_of(owner).as_slice());
    out.push('/');
    push_all(&mut out, chars_of(repo).as_slice());
    push_all(&mut out, lit("/pulls?state=open&head=").as_slice());
    push_all(&mut out, chars_of(url_encode(owner).as_str()).as_slice());
    push_all(&mut out, lit("%3A").as_slice());
    push_all(&mut out, chars_of(url_encode(branch).as_str()).as_slice());
    string_of(out.as_slice())
}

/// The API address of a repository.
pub fn repository_url(owner: &str, repo: &str) -> (r: String)
    ensures
        r@ == "https://api.github.com/repos/"@ + owner@ + seq!['/'] + repo@,
{
    let mut out = lit("https://api.github.com/repos/");
    push_all(&mut out, chars_of(owner).as_slice());
    out.push('/');
    push_all(&mut out, chars_of(repo).as_slice());
    string_of(out.as_slice())
}

/// The page that opens a pull request from `branch` into the default branch.
pub open spec fn compare_page(html_url: Seq<char>, default_branch: Seq<char>, branch: Seq<char>) -> Seq<char> {
    html_url + "/compare/"@ + url_encoded(default_branch) + "..."@ + url_encoded(branch)
        + "?expand=1"@
}

pub fn compare_url(html_url: &str, default_branch: &str, branch: &str) -> (r: String)
    ensures
        r@ == compare_page(html_url@, default_branch@, branch@),
{
    let mut out = chars_of(html_url);
    push_all(&mut out, lit("/compare/").as_slice());
    push_all(&mut out, chars_of(url_encode(default_branch).as_str()).as_slice());
    push_all(&mut out, lit("...").as_slice());
    push_all(&mut out, chars_of(url_encode(branch).as_str()).as_slice());
    push_all(&mut out, lit("?expand=1").as_slice());
    string_of(out.as_slice())
}

/// The form that asks GitHub for a device code.
pub fn device_code_body(client_id: &str) -> (r: String)
    ensures
        r@ == "client_id="@ + url_encoded(client_id@) + "&scope="@ + url_encoded(
            "repo workflow"@,
        ),
{
    let mut out = lit("client_id=");
    push_all(&mut out, chars_of(url_encode(client_id).as_str()).as_slice());
    push_all(&mut out, lit("&scope=").as_slice());
    push_all(&mut out, chars_of(url_encode("repo workflow").as_str()).as_slice());
    string_of(out.as_slice())
}

/// The form that asks GitHub whether a device code was authorised.
pub fn token_request_body(client_id: &str, device_code: &str) -> (r: String)
    ensures
        r@ == "client_id="@ + url_encoded(client_id@) + "&device_code="@ + url_encoded(
            device_code@,
        ) + "&grant_type="@ + url_encoded("urn:ietf:params:oauth:grant-type:device_code"@),
{
    let mut out = lit("client_id=");
    push_all(&mut out, chars_of(url_encode(client_id).as_str()).as_slice());
    push_all(&mut out, lit("&device_code=").as_slice());
    push_all(&mut out, chars_of(url_encode(device_code).as_str()).as_slice());
    push_all(&mut out, lit("&grant_type=").as_slice());
    push_all(
        &mut out,
        chars_of(url_encode("urn:ietf:params:oauth:grant-type:device_code").as_str()).as_slice(),
    );
    string_of(out.as_slice())
}

} // verus!

verus! {

// ---------------------------------------------------------------------------
// Device sign-in
// ---------------------------------------------------------------------------

/// Where a device sign-in stands: how long to wait between polls and how
/// many seconds of the code's life are left.
#[derive(Clone, Copy, Debug, PartialEq, Eq, Structural)]
pub struct DevicePoll {
    pub interval: u64,
    pub remaining: u64,
}

/// What one answer to a poll means.
#[derive(Clone, Debug)]
pub enum PollVerdict {
    /// Signed in: the access token to look the user up with.
    Authorized(String),
    /// Not yet: wait and poll again.
    KeepWaiting,
    /// Over, with the message to show.
    Failed(String),
}

/// The message for a sign-in the user did not finish in time.
pub open spec fn timeout_message() -> Seq<char> {
    "GitHub sign-in timed out before authorization completed."@
}

/// The verdict on a token answer, and the poll state after it.
pub open spec fn poll_outcome(
    state: DevicePoll,
    access_token: Option<Seq<char>>,
    error: Option<Seq<char>>,
    description: Option<Seq<char>>,
) -> (DevicePoll, Result<Option<Seq<char>>, Seq<char>>) {
    match access_token {
        Some(t) => (state, Ok(Some(t))),
        None => match error {
            Some(e) => if e == "authorization_pending"@ {
                (state, Ok(None))
            } else if e == "slow_down"@ {
                (DevicePoll { interval: (state.interval + 5) as u64, remaining: state.remaining }, Ok(None))
            } else if e == "access_denied"@ {
                (state, Err("GitHub sign-in was cancelled."@))
            } else if e == "expired_token"@ {
                (state, Err(timeout_message()))
            } else {
                (state, Err(oauth_error_text(match description {
                    Some(d) => d,
                    None => e,
                })))
            },
            None => (state, Err(oauth_error_text(match description {
                Some(d) => d,
                None => "GitHub did not return an access token"@,
            }))),
        },
    }
}

/// The poll state once one interval has been waited: the code's remaining
/// life shortened by the interval, never below zero.
pub open spec fn after_wait(s: DevicePoll) -> DevicePoll {
    DevicePoll {
        interval: s.interval,
        remaining: if s.remaining >= s.interval {
            (s.remaining - s.interval) as u64
        } else {
            0
        },
    }
}

/// Polling for a sign-in always ends: the interval never drops below one
/// second, no answer gives the code back any of its life, and every wait
/// takes some of it, so at most `remaining` polls are made.
pub proof fn law_sign_in_polling_ends(
    s: DevicePoll,
    access_token: Option<Seq<char>>,
    error: Option<Seq<char>>,
    description: Option<Seq<char>>,
)
    requires
        s.interval >= 1,
        s.interval <= u64::MAX - 5,
    ensures
        s.remaining > 0 ==> after_wait(s).remaining < s.remaining,
        after_wait(s).interval == s.interval,
        poll_outcome(s, access_token, error, description).0.remaining == s.remaining,
        poll_outcome(s, access_token, error, description).0.interval >= s.interval,
{
}

impl DevicePoll {
    /// The first state: GitHub's interval (five seconds when it names none,
    /// never under one) and the code's lifetime.
    pub fn start(interval: Option<u64>, expires_in: u64) -> (r: DevicePoll)
        ensures
            r.interval == match interval {
                Some(i) => if i < 1 { 1 } else { i },
                None => 5,
            },
            r.remaining == expires_in,
    {
        let i = match interval {
            Some(i) => i,
            None => 5,
        };
        DevicePoll { interval: if i < 1 { 1 } else { i }, remaining: expires_in }
    }

    /// Whether the code may still be polled.
    pub fn should_poll(&self) -> (r: bool)
        ensures
            r == (self.remaining > 0),
    {
        self.remaining > 0
    }

    /// One interval has been waited.
    pub fn waited(&mut self)
        ensures
            *final(self) == after_wait(*old(self)),
    {
        self.remaining = self.remaining.saturating_sub(self.interval);
    }

    /// Reads one answer to a poll.
    pub fn on_token_response(
        &mut self,
        access_token: Option<String>,
        error: Option<String>,
        description: Option<String>,
    ) -> (r: PollVerdict)
        requires
            old(self).interval <= u64::MAX - 5,
        ensures
            ({
                let (next, outcome) = poll_outcome(
                    *old(self),
                    match access_token {
                        Some(t) => Some(t@),
                        None => None,
                    },
                    match error {
                        Some(e) => Some(e@),
                        None => None,
                    },
                    match description {
                        Some(d) => Some(d@),
                        None => None,
                    },
                );
                &&& *final(self) == next
                &&& match outcome {
                    Ok(Some(t)) => r matches PollVerdict::Authorized(x) && x@ == t,
                    Ok(None) => r is KeepWaiting,
                    Err(m) => r matches PollVerdict::Failed(x) && x@ == m,
                }
            }),
    {
        if let Some(t) = access_token {
            return PollVerdict::Authorized(t);
        }
        match error {
            Some(e) => {
                let ev = chars_of(e.as_str());
                if seq_eq(ev.as_slice(), lit("authorization_pending").as_slice()) {
                    PollVerdict::KeepWaiting
                } else if seq_eq(ev.as_slice(), lit("slow_down").as_slice()) {
                    self.interval = self.interval + 5;
                    PollVerdict::KeepWaiting
                } else if seq_eq(ev.as_slice(), lit("access_denied").as_slice()) {
                    PollVerdict::Failed(string_of(lit("GitHub sign-in was cancelled.").as_slice()))
                } else if seq_eq(ev.as_slice(), lit("expired_token").as_slice()) {
                    PollVerdict::Failed(login_timeout_message())
                } else {
                    let m = match description {
                        Some(d) => d,
                        None => e,
                    };
                    PollVerdict::Failed(normalize_github_oauth_error(m))
                }
            },
            None => {
                let m = match description {
                    Some(d) => d,
                    None => string_of(lit("GitHub did not return an access token").as_slice()),
                };
                PollVerdict::Failed(normalize_github_oauth_error(m))
            },
        }
    }
}

/// The message for a sign-in the user did not finish in time.
pub fn login_timeout_message() -> (r: String)
    ensures
        r@ == timeout_message(),
{
    string_of(lit("GitHub sign-in timed out before authorization completed.").as_slice())
}

} // verus!

verus! {

/// What a check of a stored token concludes from the status GitHub answered
/// with: any success means the token works, 401 means it was revoked, and
/// anything else is a failed check. `status_text` is the status as shown,
/// code and reason.
pub open spec fn auth_check_verdict(code: u16, status_text: Seq<char>) -> Result<GithubAuthCheck, Seq<char>> {
    if 200 <= code <= 299 {
        Ok(GithubAuthCheck::Valid)
    } else if code == 401 {
        Ok(GithubAuthCheck::Revoked)
    } else {
        Err("GitHub token check failed with status "@ + status_text)
    }
}

pub fn auth_check_for_status(code: u16, status_text: &str) -> (r: Result<GithubAuthCheck, String>)
    ensures
        match auth_check_verdict(code, status_text@) {
            Ok(c) => r == Ok::<GithubAuthCheck, String>(c),
            Err(m) => r matches Err(e) && e@ == m,
        },
{
    if 200 <= code && code <= 299 {
        Ok(GithubAuthCheck::Valid)
    } else if code == 401 {
        Ok(GithubAuthCheck::Revoked)
    } else {
        let mut v = crate::text::lit("GitHub token check failed with status ");
        crate::text::push_all(&mut v, crate::text::chars_of(status_text).as_slice());
        Err(crate::text::string_of(v.as_slice()))
    }
}

/// What opening a page in the browser reports: `done` on success, otherwise
/// why the browser could not open `target`.
pub open spec fn browser_report(opened: Result<(), String>, target: Seq<char>, done: Seq<char>) -> Result<Seq<char>, Seq<char>> {
    match opened {
        Ok(()) => Ok(done),
        Err(e) => Err("Could not open "@ + target + ": "@ + e@),
    }
}

fn browser_result(opened: Result<(), String>, target: &str, done: &str) -> (r: Result<String, String>)
    ensures
        crate::branches::result_text(r) == browser_report(opened, target@, done@),
{
    match opened {
        Ok(()) => Ok(crate::text::owned(done)),
        Err(e) => {
            let mut v = crate::text::lit("Could not open ");
            crate::text::push_all(&mut v, crate::text::chars_of(target).as_slice());
            crate::text::push_all(&mut v, crate::text::lit(": ").as_slice());
            crate::text::push_all(&mut v, crate::text::chars_of(e.as_str()).as_slice());
            Err(crate::text::string_of(v.as_slice()))
        },
    }
}

/// What opening an existing pull request reports, given how the browser
/// fared with its page.
pub fn open_pull_request(opened: Result<(), String>) -> (r: Result<String, String>)
    ensures
        crate::branches::result_text(r) == browser_report(opened, "pull request"@, "Opened pull request in browser"@),
{
    browser_result(opened, "pull request", "Opened pull request in browser")
}

/// What opening the page that creates a pull request reports.
pub fn create_pull_request(opened: Result<(), String>) -> (r: Result<String, String>)
    ensures
        crate::branches::result_text(r) == browser_report(
            opened,
            "pull request creation page"@,
            "Opened pull request creation in browser"@,
        ),
{
    browser_result(opened, "pull request creation page", "Opened pull request creation in browser")
}

} // verus!
