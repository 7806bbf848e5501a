//! The window outside any tab: cloning a repository, paging through the
//! signed-in user's GitHub repositories, opening a repository in a tab and
//! what the sign-in line says. Asking git, GitHub and the file system is the
//! caller's; every decision on what they answered is made here.

use vstd::prelude::*;

use crate::commit_rules::{validate_for_submit, validation, CommitMessageRuleSet};
use crate::github::{
    clone_folder_name, is_github_https_url, next_link, parse_link_header_next, repo_name_from_clone_url,
    CreateGithubRepoRequest, GithubAuthCheck, GithubAuthSession, GithubRepoVisibility,
};
use crate::state::{BusyAction, BusyState, StatusLevel, StatusMessage};
use crate::text::{chars_of, has_prefix, lit, push_all, seq_eq, string_of, trim, trim_chars};
use crate::views::{repo_tab_label, tab_label};

verus! {

pub open spec fn busy_text() -> Seq<char> {
    "Busy — please wait..."@
}

/// `parent` with `name` appended as one more path component, as
/// `PathBuf::join` does for a relative name with no `/` in it.
pub open spec fn joined_path(parent: Seq<char>, name: Seq<char>) -> Seq<char> {
    if parent.len() > 0 && parent.last() == '/' {
        parent + name
    } else {
        parent + seq!['/'] + name
    }
}

/// What the clone form's Clone does: the trimmed URL, the folder the clone
/// goes to and what the form says meanwhile; or why it does nothing.
pub open spec fn clone_request_plan(worker_busy: bool, url: Seq<char>, parent: Seq<char>) -> Result<(Seq<char>, Seq<char>, Seq<char>), Seq<char>> {
    if worker_busy {
        Err(busy_text())
    } else if trim(url).len() == 0 || trim(parent).len() == 0 {
        Err("URL and destination folder are required."@)
    } else {
        match clone_folder_name(trim(url)) {
            None => Err("Could not derive a repository name from this URL."@),
            Some(name) => {
                let dest = joined_path(trim(parent), name);
                Ok((trim(url), dest, "Cloning into "@ + dest + "..."@))
            },
        }
    }
}

/// Decides the clone form's Clone: `(url, destination, message)`.
pub fn clone_request(worker_busy: bool, url: &str, parent: &str) -> (r: Result<(String, String, String), String>)
    ensures
        match clone_request_plan(worker_busy, url@, parent@) {
            Ok((u, d, m)) => r matches Ok((ru, rd, rm)) && ru@ == u && rd@ == d && rm@ == m,
            Err(e) => r matches Err(re) && re@ == e,
        },
{
    if worker_busy {
        return Err("Busy — please wait...".to_string());
    }
    let u = trim_chars(chars_of(url).as_slice());
    let p = trim_chars(chars_of(parent).as_slice());
    if u.len() == 0 || p.len() == 0 {
        return Err("URL and destination folder are required.".to_string());
    }
    let url_text = string_of(u.as_slice());
    proof {
        crate::text::lemma_trim_idempotent(url@);
    }
    match repo_name_from_clone_url(url_text.as_str()) {
        None => Err("Could not derive a repository name from this URL.".to_string()),
        Some(name) => {
            let mut dest = p;
            if !(dest.len() > 0 && dest[dest.len() - 1] == '/') {
                dest.push('/');
            }
            push_all(&mut dest, chars_of(name.as_str()).as_slice());
            let mut message = lit("Cloning into ");
            push_all(&mut message, dest.as_slice());
            push_all(&mut message, lit("...").as_slice());
            Ok((url_text, string_of(dest.as_slice()), string_of(message.as_slice())))
        },
    }
}

/// What the clone's destination looks like before anything is written.
pub enum CloneDestination {
    /// The folder exists and holds nothing.
    Empty,
    /// The folder exists and holds something, or could not be listed.
    NotEmpty,
    /// The folder does not exist; `missing_parent` names its parent when that
    /// is a non-empty path that does not exist either.
    Absent { missing_parent: Option<String> },
}

/// The checks before a clone: the trimmed URL and whether the app's GitHub
/// sign-in authenticates it, or why the clone cannot start.
pub open spec fn clone_plan(url: Seq<char>, dest: Seq<char>, destination: CloneDestination, signed_in: bool) -> Result<(Seq<char>, bool), Seq<char>> {
    if trim(url).len() == 0 {
        Err("Clone URL is required."@)
    } else {
        match destination {
            CloneDestination::NotEmpty => Err("Destination already exists and is not empty: "@ + dest),
            CloneDestination::Absent { missing_parent: Some(p) } => Err("Parent folder does not exist: "@ + p@),
            _ => Ok((trim(url), signed_in && has_prefix(trim(url), "https://github.com/"@))),
        }
    }
}

/// Decides whether a clone may start and how it authenticates.
pub fn check_clone(url: &str, dest: &str, destination: &CloneDestination, signed_in: bool) -> (r: Result<(String, bool), String>)
    ensures
        match clone_plan(url@, dest@, *destination, signed_in) {
            Ok((u, github)) => r matches Ok((ru, rg)) && ru@ == u && rg == github,
            Err(e) => r matches Err(re) && re@ == e,
        },
{
    let u = trim_chars(chars_of(url).as_slice());
    if u.len() == 0 {
        return Err("Clone URL is required.".to_string());
    }
    match destination {
        CloneDestination::NotEmpty => {
            let mut m = lit("Destination already exists and is not empty: ");
            push_all(&mut m, chars_of(dest).as_slice());
            Err(string_of(m.as_slice()))
        },
        CloneDestination::Absent { missing_parent: Some(p) } => {
            let mut m = lit("Parent folder does not exist: ");
            push_all(&mut m, chars_of(p.as_str()).as_slice());
            Err(string_of(m.as_slice()))
        },
        _ => {
            let trimmed = string_of(u.as_slice());
            let github = signed_in && is_github_https_url(trimmed.as_str());
            Ok((trimmed, github))
        },
    }
}

/// The address of the first page of the signed-in user's repositories.
pub open spec fn first_listing_url() -> Seq<char> {
    "https://api.github.com/user/repos?per_page=100&sort=updated&affiliation=owner,collaborator,organization_member"@
}

/// The most pages of repositories ever asked for.
pub const REPO_LIST_MAX_PAGES: usize = 5;

/// Paging through the signed-in user's repositories: how many pages were
/// asked for, and the address of the next one, if GitHub named one.
pub struct RepoListing {
    pages: usize,
    next: Option<String>,
}

impl RepoListing {
    pub closed spec fn pages_asked(&self) -> nat {
        self.pages as nat
    }

    pub closed spec fn pending(&self) -> Option<Seq<char>> {
        match self.next {
            Some(u) => Some(u@),
            None => None,
        }
    }

    pub closed spec fn wf(&self) -> bool {
        self.pages <= REPO_LIST_MAX_PAGES
    }

    pub fn new() -> (r: RepoListing)
        ensures
            r.wf(),
            r.pages_asked() == 0,
            r.pending() == Some(first_listing_url()),
    {
        RepoListing {
            pages: 0,
            next: Some(
                "https://api.github.com/user/repos?per_page=100&sort=updated&affiliation=owner,collaborator,organization_member".to_string(),
            ),
        }
    }

    /// The next page to ask for: none once no address is pending or five
    /// pages were asked for. The pending address is used up either way.
    pub fn next_request(&mut self) -> (r: Option<String>)
        requires
            old(self).wf(),
        ensures
            final(self).wf(),
            final(self).pending() is None,
            match old(self).pending() {
                Some(u) => if old(self).pages_asked() < REPO_LIST_MAX_PAGES {
                    r matches Some(ru) && ru@ == u && final(self).pages_asked() == old(self).pages_asked() + 1
                } else {
                    r is None && final(self).pages_asked() == old(self).pages_asked()
                },
                None => r is None && final(self).pages_asked() == old(self).pages_asked(),
            },
            r is Some ==> final(self).pages_asked() <= REPO_LIST_MAX_PAGES,
    {
        let next = self.next.take();
        match next {
            None => None,
            Some(u) => if self.pages >= REPO_LIST_MAX_PAGES {
                None
            } else {
                self.pages = self.pages + 1;
                Some(u)
            },
        }
    }

    /// A page answered with this status and `Link` header: a refused token
    /// and any other failure end the listing; a success names the next page
    /// if the header does.
    pub fn page_answered(&mut self, code: u16, status_text: &str, link: Option<&str>) -> (r: Result<(), String>)
        requires
            old(self).wf(),
        ensures
            final(self).wf(),
            final(self).pages_asked() == old(self).pages_asked(),
            code == 401 ==> (r matches Err(e)
                && e@ == "GitHub token is no longer valid. Sign in again to refresh your session."@),
            code != 401 && !(200 <= code < 300) ==> (r matches Err(e)
                && e@ == "GitHub repo list failed with status "@ + status_text@),
            200 <= code < 300 ==> r is Ok && final(self).pending() == match link {
                Some(h) => next_link(h@),
                None => None,
            },
            r is Err ==> final(self).pending() == old(self).pending(),
    {
        if code == 401 {
            return Err("GitHub token is no longer valid. Sign in again to refresh your session.".to_string());
        }
        if !(200 <= code && code < 300) {
            let mut m = lit("GitHub repo list failed with status ");
            push_all(&mut m, chars_of(status_text).as_slice());
            return Err(string_of(m.as_slice()));
        }
        self.next = match link {
            Some(h) => parse_link_header_next(h),
            None => None,
        };
        Ok(())
    }
}

/// Whether a tab showing `shown` shows the repository at `path`.
pub open spec fn shows(shown: Option<String>, path: Seq<char>) -> bool {
    shown matches Some(p) && p@ == path
}

/// The tab already showing the repository at `path`, if one does.
pub fn tab_for_path(open: &Vec<Option<String>>, path: &str) -> (r: Option<usize>)
    ensures
        match r {
            Some(i) => i < open@.len() && shows(open@[i as int], path@) && forall|j: int|
                0 <= j < i ==> !shows(#[trigger] open@[j], path@),
            None => forall|j: int| 0 <= j < open@.len() ==> !shows(#[trigger] open@[j], path@),
        },
{
    let target = chars_of(path);
    let mut i: usize = 0;
    while i < open.len()
        invariant
            0 <= i <= open@.len(),
            target@ == path@,
            forall|j: int| 0 <= j < i ==> !shows(#[trigger] open@[j], path@),
        decreases open@.len() - i,
    {
        if let Some(p) = &open[i] {
            if seq_eq(chars_of(p.as_str()).as_slice(), target.as_slice()) {
                return Some(i);
            }
        }
        i = i + 1;
    }
    None
}

/// What the status line says once a repository opened in a new tab.
pub fn repository_loaded_text(path: &str) -> (r: String)
    ensures
        r@ == "Repository loaded: "@ + tab_label(Some(path@)),
{
    let mut m = lit("Repository loaded: ");
    push_all(&mut m, chars_of(repo_tab_label(Some(path)).as_str()).as_slice());
    string_of(m.as_slice())
}

/// The sign-in line of the publish form.
pub fn github_status_text(login: Option<&str>) -> (r: String)
    ensures
        match login {
            Some(l) => r@ == "Signed in to GitHub as @"@ + l@,
            None => r@ == "Not signed in to GitHub. Sign in to create repositories and PRs."@,
        },
{
    match login {
        Some(l) => {
            let mut m = lit("Signed in to GitHub as @");
            push_all(&mut m, chars_of(l).as_slice());
            string_of(m.as_slice())
        },
        None => "Not signed in to GitHub. Sign in to create repositories and PRs.".to_string(),
    }
}

/// Starting a sign-in: refused while the window's worker is busy; otherwise
/// the window is busy signing in, with the given message.
pub fn begin_sign_in(worker_busy: bool, start_message: &str) -> (r: Result<BusyState, String>)
    ensures
        worker_busy ==> (r matches Err(e) && e@ == busy_text()),
        !worker_busy ==> (r matches Ok(b) && b.action == BusyAction::GithubSignIn && b.label@ == start_message@),
{
    if worker_busy {
        Err("Busy — please wait...".to_string())
    } else {
        Ok(BusyState::new(BusyAction::GithubSignIn, start_message))
    }
}

/// The publish form's Create: only when signed in, and only with a first
/// commit message the rules accept; the folder, name and message go out
/// trimmed, and the window is busy publishing meanwhile.
pub fn publish_dispatch(
    session: Option<&GithubAuthSession>,
    ruleset: CommitMessageRuleSet,
    folder: &str,
    repo_name: &str,
    commit_message: &str,
    visibility: GithubRepoVisibility,
) -> (r: Result<(CreateGithubRepoRequest, BusyState, String), String>)
    ensures
        session is None ==> (r matches Err(e) && e@ == "Sign in to GitHub before creating a repository."@),
        session matches Some(a) ==> match validation(ruleset, trim(commit_message@)) {
            Err(m) => r matches Err(e) && e@ == m,
            Ok(()) => r matches Ok((request, busy, status)) && request.folder_path@ == trim(folder@)
                && request.repo_name@ == trim(repo_name@) && request.commit_message@ == trim(commit_message@)
                && request.visibility == visibility && request.auth == a
                && busy.action == BusyAction::PublishRepository && busy.label@ == "Publishing repository..."@
                && status@ == "Publishing folder to GitHub..."@,
        },
{
    let auth = match session {
        None => {
            return Err("Sign in to GitHub before creating a repository.".to_string());
        },
        Some(a) => a,
    };
    let message = string_of(trim_chars(chars_of(commit_message).as_slice()).as_slice());
    match validate_for_submit(ruleset, message.as_str()) {
        Err(e) => Err(e),
        Ok(()) => {
            let request = CreateGithubRepoRequest {
                folder_path: string_of(trim_chars(chars_of(folder).as_slice()).as_slice()),
                repo_name: string_of(trim_chars(chars_of(repo_name).as_slice()).as_slice()),
                commit_message: message,
                visibility,
                auth: GithubAuthSession { access_token: auth.access_token.clone(), login: auth.login.clone() },
            };
            Ok((
                request,
                BusyState::new(BusyAction::PublishRepository, "Publishing repository..."),
                "Publishing folder to GitHub...".to_string(),
            ))
        },
    }
}

/// What the app does at start with a saved sign-in once GitHub said whether
/// it still works.
#[derive(Debug)]
pub struct SavedSignIn {
    /// Whether the session stays in use.
    pub keep: bool,
    /// Whether the saved copy is deleted.
    pub clear: bool,
    /// What is logged under `GitHub sign-in`.
    pub logged: Option<String>,
    /// What the status line says.
    pub notice: Option<StatusMessage>,
}

/// A valid session is kept; a revoked one is forgotten with a word to the
/// user; when GitHub could not be asked, the session is kept and the failure
/// logged.
pub fn saved_sign_in_verdict(check: &Result<GithubAuthCheck, String>) -> (r: SavedSignIn)
    ensures
        match check {
            Ok(GithubAuthCheck::Valid) => r.keep && !r.clear && r.logged is None && r.notice is None,
            Ok(GithubAuthCheck::Revoked) => {
                &&& !r.keep && r.clear
                &&& r.logged matches Some(l) && l@ == "Saved GitHub token was revoked or expired; please sign in again."@
                &&& r.notice matches Some(n) && n.shown() == "GitHub sign-in expired. Use 'Sign in to GitHub...' to reconnect."@
                    && n.severity() == StatusLevel::Info
            },
            Err(e) => r.keep && !r.clear && r.notice is None && (r.logged matches Some(l) && l@ == e@),
        },
{
    match check {
        Ok(GithubAuthCheck::Valid) => SavedSignIn { keep: true, clear: false, logged: None, notice: None },
        Ok(GithubAuthCheck::Revoked) => SavedSignIn {
            keep: false,
            clear: true,
            logged: Some("Saved GitHub token was revoked or expired; please sign in again.".to_string()),
            notice: Some(StatusMessage::info("GitHub sign-in expired. Use 'Sign in to GitHub...' to reconnect.")),
        },
        Err(e) => SavedSignIn { keep: true, clear: false, logged: Some(e.clone()), notice: None },
    }
}

/// What the status line says once the app has started: the first trouble
/// met wins. A settings file that could not be read comes first, then what
/// the saved sign-in's check had to say, then a saved sign-in that could not
/// be read; with none of them, nothing is said.
pub fn startup_status(
    settings_failure: Option<&str>,
    sign_in_notice: Option<StatusMessage>,
    session_load_failure: Option<&str>,
) -> (r: Option<StatusMessage>)
    ensures
        match settings_failure {
            Some(m) => r matches Some(s) && s.shown() == crate::views::failure_text("Settings"@, m@)
                && s.severity() == StatusLevel::Error,
            None => match sign_in_notice {
                Some(n) => r == Some(n),
                None => match session_load_failure {
                    Some(m) => r matches Some(s) && s.shown() == crate::views::failure_text("GitHub sign-in"@, m@)
                        && s.severity() == StatusLevel::Error,
                    None => r is None,
                },
            },
        },
{
    if let Some(m) = settings_failure {
        return Some(crate::views::status_message_for_error("Settings", m));
    }
    if sign_in_notice.is_some() {
        return sign_in_notice;
    }
    match session_load_failure {
        Some(m) => Some(crate::views::status_message_for_error("GitHub sign-in", m)),
        None => None,
    }
}

} // verus!
