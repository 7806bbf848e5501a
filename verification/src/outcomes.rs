//! What the application does once a background job answered: the status
//! line, what is logged, which dialog closes and whether the tab re-reads its
//! repository. Running the job, writing the log and re-reading belong to the
//! caller.

use vstd::prelude::*;

use crate::github::{GithubAuthPrompt, PullRequestPrompt, PushSuccess};
use crate::logging::{summarize_for_ui, ui_summary};
use crate::state::{DiscardDialogState, RepoState, StatusLevel, StatusMessage, TagDialogState, WorktreeDialogState};
use crate::text::{chars_of, dec, lit, push_all, string_of, u64_chars};
use crate::views::{failure_text, reset_worktree_dialog_state, status_message_for_error};
use crate::worktree_metadata::{key_of, linked_storage_key, storage_key, ReviewState, TestState, WorktreeMetadata};
use crate::worktrees::CreatedWorktree;

verus! {

/// What a tab does with a finished job.
#[derive(Debug)]
pub struct JobReport {
    pub status: StatusMessage,
    /// The context and detail to log, when the job failed.
    pub logged: Option<(String, String)>,
    /// Whether the tab re-reads its repository.
    pub refresh: bool,
}

/// A successful job: `text` at success level, nothing logged.
pub open spec fn reports_success(r: JobReport, text: Seq<char>, refresh: bool) -> bool {
    &&& r.status.shown() == text
    &&& r.status.severity() == StatusLevel::Success
    &&& r.logged is None
    &&& r.refresh == refresh
}

/// A failed job: the failure line at error level, and the detail logged
/// under the same context.
pub open spec fn reports_failure(r: JobReport, context: Seq<char>, detail: Seq<char>, refresh: bool) -> bool {
    &&& r.status.shown() == failure_text(context, detail)
    &&& r.status.severity() == StatusLevel::Error
    &&& r.logged matches Some((c, d)) && c@ == context && d@ == detail
    &&& r.refresh == refresh
}

fn joined(parts: &[&[char]]) -> (r: String)
    ensures
        parts@.len() == 1 ==> r@ == parts@[0]@,
        parts@.len() == 2 ==> r@ == parts@[0]@ + parts@[1]@,
        parts@.len() == 3 ==> r@ == parts@[0]@ + parts@[1]@ + parts@[2]@,
{
    let mut out: Vec<char> = Vec::new();
    let mut i: usize = 0;
    while i < parts.len()
        invariant
            0 <= i <= parts@.len(),
            i == 0 ==> out@.len() == 0,
            i == 1 ==> out@ == parts@[0]@,
            i == 2 ==> out@ == parts@[0]@ + parts@[1]@,
            i == 3 ==> out@ == parts@[0]@ + parts@[1]@ + parts@[2]@,
        decreases parts@.len() - i,
    {
        push_all(&mut out, parts[i]);
        proof {
            if i == 0 {
                assert(out@ =~= parts@[0]@);
            }
        }
        i = i + 1;
    }
    string_of(out.as_slice())
}

fn succeeded(text: String, refresh: bool) -> (r: JobReport)
    ensures
        reports_success(r, text@, refresh),
{
    JobReport { status: StatusMessage::success(text.as_str()), logged: None, refresh }
}

fn failed(context: &str, detail: String, refresh: bool) -> (r: JobReport)
    ensures
        reports_failure(r, context@, detail@, refresh),
{
    let status = status_message_for_error(context, detail.as_str());
    JobReport { status, logged: Some((context.to_string(), detail)), refresh }
}

/// What a push adds about the pull request it found.
pub open spec fn prompt_note(p: Option<PullRequestPrompt>) -> Seq<char> {
    match p {
        Some(PullRequestPrompt::Open { number, .. }) => " Pull request #"@ + dec(number as nat) + " is ready."@,
        Some(PullRequestPrompt::Create { .. }) => " You can create a pull request now."@,
        None => Seq::empty(),
    }
}

/// A push answered: on success the tab takes the pull-request prompt it
/// found and re-reads the repository.
pub fn push_finished(repo: &mut RepoState, result: Result<PushSuccess, String>) -> (r: JobReport)
    ensures
        match result {
            Ok(s) => {
                &&& reports_success(r, "Push: "@ + s.message@ + prompt_note(s.pull_request_prompt), true)
                &&& *final(repo) == (RepoState { pull_request_prompt: s.pull_request_prompt, ..*old(repo) })
            },
            Err(e) => reports_failure(r, "Push"@, e@, false) && *final(repo) == *old(repo),
        },
{
    match result {
        Ok(s) => {
            let note: Vec<char> = match &s.pull_request_prompt {
                Some(PullRequestPrompt::Open { number, .. }) => {
                    let mut n = lit(" Pull request #");
                    push_all(&mut n, u64_chars(*number).as_slice());
                    push_all(&mut n, lit(" is ready.").as_slice());
                    n
                },
                Some(PullRequestPrompt::Create { .. }) => lit(" You can create a pull request now."),
                None => Vec::new(),
            };
            let head = lit("Push: ");
            let message = chars_of(s.message.as_str());
            let text = joined(&[head.as_slice(), message.as_slice(), note.as_slice()]);
            repo.pull_request_prompt = s.pull_request_prompt;
            succeeded(text, true)
        },
        Err(e) => failed("Push", e, false),
    }
}

/// A pull answered; only a successful one is followed by a re-read.
pub fn pull_finished(result: Result<String, String>) -> (r: JobReport)
    ensures
        match result {
            Ok(m) => reports_success(r, "Pull: "@ + m@, true),
            Err(e) => reports_failure(r, "Pull"@, e@, false),
        },
{
    match result {
        Ok(m) => {
            let head = lit("Pull: ");
            let text = joined(&[head.as_slice(), chars_of(m.as_str()).as_slice()]);
            succeeded(text, true)
        },
        Err(e) => failed("Pull", e, false),
    }
}

/// A tag answered: on success its dialog closes and empties.
pub fn tag_finished(tag: &mut TagDialogState, result: Result<String, String>) -> (r: JobReport)
    ensures
        match result {
            Ok(m) => {
                &&& reports_success(r, m@, true)
                &&& final(tag).new_tag_name@.len() == 0
                &&& !final(tag).focus_new_tag_name_requested
                &&& !final(tag).show_create_tag_dialog
            },
            Err(e) => reports_failure(r, "Create tag"@, e@, true) && *final(tag) == *old(tag),
        },
{
    match result {
        Ok(m) => {
            tag.new_tag_name = String::new();
            tag.focus_new_tag_name_requested = false;
            tag.show_create_tag_dialog = false;
            succeeded(m, true)
        },
        Err(e) => failed("Create tag", e, true),
    }
}

/// Opening an existing pull request (`existing`) or the page to create one
/// answered.
pub fn pull_request_finished(existing: bool, result: Result<String, String>) -> (r: JobReport)
    ensures
        match result {
            Ok(m) => reports_success(r, m@, false),
            Err(e) => reports_failure(r, if existing { "Open PR"@ } else { "Create PR"@ }, e@, false),
        },
{
    match result {
        Ok(m) => succeeded(m, false),
        Err(e) => if existing {
            failed("Open PR", e, false)
        } else {
            failed("Create PR", e, false)
        },
    }
}

/// A discard-and-reset answered: on success its dialog closes and forgets
/// its preview.
pub fn discard_finished(discard: &mut DiscardDialogState, result: Result<String, String>) -> (r: JobReport)
    ensures
        match result {
            Ok(m) => {
                &&& reports_success(r, "Discard: "@ + m@, true)
                &&& !final(discard).show_discard_dialog
                &&& final(discard).discard_preview is None
                &&& !final(discard).discard_clean_untracked
            },
            Err(e) => reports_failure(r, "Discard & reset"@, e@, true) && *final(discard) == *old(discard),
        },
{
    match result {
        Ok(m) => {
            discard.show_discard_dialog = false;
            discard.discard_preview = None;
            discard.discard_clean_untracked = false;
            let head = lit("Discard: ");
            succeeded(joined(&[head.as_slice(), chars_of(m.as_str()).as_slice()]), true)
        },
        Err(e) => failed("Discard & reset", e, true),
    }
}

/// An undo of the last commit answered.
pub fn undo_finished(result: Result<String, String>) -> (r: JobReport)
    ensures
        match result {
            Ok(m) => reports_success(r, "Undo last commit: "@ + m@, true),
            Err(e) => reports_failure(r, "Undo last commit"@, e@, true),
        },
{
    match result {
        Ok(m) => {
            let head = lit("Undo last commit: ");
            succeeded(joined(&[head.as_slice(), chars_of(m.as_str()).as_slice()]), true)
        },
        Err(e) => failed("Undo last commit", e, true),
    }
}

/// A worktree was created or refused. On success the form is emptied only
/// now, so a refused request comes back with everything still typed in, and
/// the record to write under the worktree's key comes back too.
pub fn worktree_created(
    dialog: &mut WorktreeDialogState,
    result: Result<(String, CreatedWorktree), String>,
    now: i64,
) -> (r: (JobReport, Option<(String, WorktreeMetadata)>))
    ensures
        match result {
            Ok((m, created)) => {
                &&& reports_success(r.0, m@, true)
                &&& r.1 matches Some((key, record)) && key@ == key_of(false, created.name@)
                    && record.base_commit == created.base_commit && record.started == now
                    && record.task@.len() == 0 && record.agent@.len() == 0 && record.notes@.len() == 0
                    && record.review == ReviewState::Unreviewed && record.test == TestState::Unknown
                &&& !final(dialog).show_new_worktree_dialog
                &&& final(dialog).name@.len() == 0
                &&& final(dialog).branch@.len() == 0
                &&& final(dialog).base_branch is None
                &&& final(dialog).path@.len() == 0
                &&& final(dialog).pending_remove is None
            },
            Err(e) => reports_failure(r.0, "New worktree"@, e@, true) && r.1 is None && *final(dialog) == *old(dialog),
        },
{
    match result {
        Ok((m, created)) => {
            let key = linked_storage_key(created.name.as_str());
            let record = WorktreeMetadata {
                task: String::new(),
                agent: String::new(),
                base_commit: created.base_commit,
                notes: String::new(),
                started: now,
                review: ReviewState::Unreviewed,
                test: TestState::Unknown,
            };
            reset_worktree_dialog_state(dialog);
            (succeeded(m, true), Some((key, record)))
        },
        Err(e) => (failed("New worktree", e, true), None),
    }
}

/// A removal answered. The confirmation closes either way; on success the
/// key of the worktree it was about comes back, so its metadata is dropped
/// and a later worktree of the same name starts afresh.
pub fn worktree_removed(dialog: &mut WorktreeDialogState, result: Result<String, String>) -> (r: (JobReport, Option<String>))
    ensures
        final(dialog).pending_remove is None,
        *final(dialog) == (WorktreeDialogState { pending_remove: None, ..*old(dialog) }),
        match result {
            Ok(m) => {
                &&& reports_success(r.0, m@, true)
                &&& match old(dialog).pending_remove {
                    Some(w) => r.1 matches Some(k) && k@ == key_of(w.is_main, w.name@),
                    None => r.1 is None,
                }
            },
            Err(e) => reports_failure(r.0, "Remove worktree"@, e@, true) && r.1 is None,
        },
{
    let forget = match (&result, &dialog.pending_remove) {
        (Ok(_), Some(w)) => Some(storage_key(w)),
        _ => None,
    };
    dialog.pending_remove = None;
    let report = match result {
        Ok(m) => succeeded(m, true),
        Err(e) => failed("Remove worktree", e, true),
    };
    (report, forget)
}

/// What the app shows while GitHub waits for the code: the code to enter,
/// and where to enter it should the browser not have opened.
pub fn sign_in_prompt_texts(prompt: &GithubAuthPrompt) -> (r: (String, String))
    ensures
        r.0@ == "Enter GitHub code "@ + prompt.user_code@ + " to finish signing in."@,
        r.1@ == "If GitHub did not open automatically, visit "@ + prompt.verification_uri@ + "."@,
{
    let a = lit("Enter GitHub code ");
    let b = lit(" to finish signing in.");
    let c = lit("If GitHub did not open automatically, visit ");
    let d = lit(".");
    (
        joined(&[a.as_slice(), chars_of(prompt.user_code.as_str()).as_slice(), b.as_slice()]),
        joined(&[c.as_slice(), chars_of(prompt.verification_uri.as_str()).as_slice(), d.as_slice()]),
    )
}

/// A sign-in went through: a success, unless the session could not be saved,
/// which still leaves it usable for this run but is reported as an error.
pub fn sign_in_succeeded(login: &str, saved: &Result<(), String>) -> (r: StatusMessage)
    ensures
        match saved {
            Ok(()) => r.shown() == "GitHub sign-in complete for @"@ + login@ && r.severity()
                == StatusLevel::Success,
            Err(e) => r.shown() == "GitHub sign-in complete for @"@ + login@ + ", but "@ + ui_summary(e@)
                && r.severity() == StatusLevel::Error,
        },
{
    let head = lit("GitHub sign-in complete for @");
    let name = chars_of(login);
    match saved {
        Ok(()) => StatusMessage::success(joined(&[head.as_slice(), name.as_slice()]).as_str()),
        Err(e) => {
            let but = lit(", but ");
            let mut text = chars_of(joined(&[head.as_slice(), name.as_slice(), but.as_slice()]).as_str());
            push_all(&mut text, chars_of(summarize_for_ui(e.as_str()).as_str()).as_slice());
            StatusMessage::error(string_of(text.as_slice()).as_str())
        },
    }
}

/// A sign-in failed: an earlier session still stands, and says so.
pub fn sign_in_failed(detail: &str, previous_login: Option<&str>) -> (r: StatusMessage)
    ensures
        r.severity() == StatusLevel::Error,
        match previous_login {
            Some(l) => r.shown() == "Signed in to GitHub as @"@ + l@ + " (latest sign-in failed: "@
                + ui_summary(detail@) + ")"@,
            None => r.shown() == failure_text("GitHub sign-in"@, detail@),
        },
{
    match previous_login {
        Some(l) => {
            let head = lit("Signed in to GitHub as @");
            let mid = lit(" (latest sign-in failed: ");
            let mut text = chars_of(joined(&[head.as_slice(), chars_of(l).as_slice(), mid.as_slice()]).as_str());
            push_all(&mut text, chars_of(summarize_for_ui(detail).as_str()).as_slice());
            text.push(')');
            proof {
                reveal_strlit(")");
            }
            StatusMessage::error(string_of(text.as_slice()).as_str())
        },
        None => status_message_for_error("GitHub sign-in", detail),
    }
}

/// A clone answered: where it went, or why it failed.
pub fn clone_finished(result: &Result<String, String>) -> (r: StatusMessage)
    ensures
        match result {
            Ok(p) => r.shown() == "Cloned repository to "@ + p@ && r.severity() == StatusLevel::Success,
            Err(e) => r.shown() == failure_text("Clone"@, e@) && r.severity() == StatusLevel::Error,
        },
{
    match result {
        Ok(p) => {
            let head = lit("Cloned repository to ");
            StatusMessage::success(joined(&[head.as_slice(), chars_of(p.as_str()).as_slice()]).as_str())
        },
        Err(e) => status_message_for_error("Clone", e.as_str()),
    }
}

/// Publishing a folder to GitHub answered.
pub fn publish_finished(result: &Result<String, String>) -> (r: StatusMessage)
    ensures
        match result {
            Ok(m) => r.shown() == m@ && r.severity() == StatusLevel::Success,
            Err(e) => r.shown() == failure_text("Publish to GitHub"@, e@) && r.severity() == StatusLevel::Error,
        },
{
    match result {
        Ok(m) => StatusMessage::success(m.as_str()),
        Err(e) => status_message_for_error("Publish to GitHub", e.as_str()),
    }
}

} // verus!
