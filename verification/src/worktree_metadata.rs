//! What the application remembers about a worktree beyond what git reports:
//! the task, who works on it, where it started, review and test state.

use vstd::prelude::*;
use vstd::string::StrSliceExecFns;

use crate::text::{chars_of, lead_ws, lead_ws_len, lit, push_all, string_of, trail_ws_len, trim, lemma_lead_ws_bound, lemma_trail_ws_bound};
use crate::worktrees::LinkedWorktree;

verus! {

/// Longest task text kept, in UTF-8 bytes.
pub const MAX_TASK_LEN: usize = 512;

/// Longest agent name kept, in UTF-8 bytes.
pub const MAX_AGENT_LEN: usize = 128;

/// Longest free-form note kept, in UTF-8 bytes.
pub const MAX_NOTES_LEN: usize = 2048;

/// The key a worktree's metadata is stored under: linked worktrees are
/// prefixed so that none can collide with the main worktree, whose only name
/// is its directory's.
pub open spec fn key_of(is_main: bool, name: Seq<char>) -> Seq<char> {
    if is_main {
        "main:"@
    } else {
        "wt:"@ + name
    }
}

/// The key the linked worktree `name` is stored under.
pub fn linked_storage_key(name: &str) -> (r: String)
    ensures
        r@ == key_of(false, name@),
{
    let mut out = lit("wt:");
    push_all(&mut out, chars_of(name).as_slice());
    string_of(out.as_slice())
}

/// How one worktree is named in the stored metadata.
pub fn storage_key(worktree: &LinkedWorktree) -> (r: String)
    ensures
        r@ == key_of(worktree.is_main, worktree.name@),
{
    if worktree.is_main {
        string_of(lit("main:").as_slice())
    } else {
        linked_storage_key(worktree.name.as_str())
    }
}

/// The key of the main worktree differs from that of every linked one,
/// whatever their names.
pub proof fn lemma_main_key_never_collides(main_name: Seq<char>, linked_name: Seq<char>)
    ensures
        key_of(true, main_name) != key_of(false, linked_name),
{
    reveal_strlit("main:");
    reveal_strlit("wt:");
    assert(key_of(true, main_name)[0] != key_of(false, linked_name)[0]);
}

/// Two linked worktrees with different names never share stored metadata,
/// and none shares it with the main worktree.
pub proof fn law_worktrees_keep_their_own_metadata(a: Seq<char>, b: Seq<char>, main_name: Seq<char>)
    ensures
        a != b ==> key_of(false, a) != key_of(false, b),
        key_of(true, main_name) != key_of(false, a),
{
    lemma_main_key_never_collides(main_name, a);
    reveal_strlit("wt:");
    if a != b && key_of(false, a) == key_of(false, b) {
        assert(key_of(false, a).skip(3) =~= a);
        assert(key_of(false, b).skip(3) =~= b);
    }
}

/// How far human review of a worktree's work has got.
#[derive(Clone, Copy, Debug, PartialEq, Eq, Structural)]
pub enum ReviewState {
    Unreviewed,
    NeedsReview,
    ChangesRequested,
    Approved,
}

impl Default for ReviewState {
    fn default() -> (r: ReviewState)
        ensures
            r == ReviewState::Unreviewed,
    {
        ReviewState::Unreviewed
    }
}

/// What the tests of a worktree's work last reported, as the user saw it.
#[derive(Clone, Copy, Debug, PartialEq, Eq, Structural)]
pub enum TestState {
    Unknown,
    Passing,
    Failing,
}

impl Default for TestState {
    fn default() -> (r: TestState)
        ensures
            r == TestState::Unknown,
    {
        TestState::Unknown
    }
}

pub open spec fn review_label(s: ReviewState) -> Seq<char> {
    match s {
        ReviewState::Unreviewed => "Unreviewed"@,
        ReviewState::NeedsReview => "Needs review"@,
        ReviewState::ChangesRequested => "Changes requested"@,
        ReviewState::Approved => "Approved"@,
    }
}

/// The word a review state is stored as.
pub open spec fn review_word(s: ReviewState) -> Seq<char> {
    match s {
        ReviewState::Unreviewed => "unreviewed"@,
        ReviewState::NeedsReview => "needs_review"@,
        ReviewState::ChangesRequested => "changes_requested"@,
        ReviewState::Approved => "approved"@,
    }
}

/// The review state a stored word stands for; a word this build does not
/// know reads as the default, so one unknown value costs one field and not
/// the whole file.
pub open spec fn review_from_word(w: Seq<char>) -> ReviewState {
    if w == "needs_review"@ {
        ReviewState::NeedsReview
    } else if w == "changes_requested"@ {
        ReviewState::ChangesRequested
    } else if w == "approved"@ {
        ReviewState::Approved
    } else {
        ReviewState::Unreviewed
    }
}

impl ReviewState {
    pub fn label(self) -> (r: &'static str)
        ensures
            r@ == review_label(self),
    {
        match self {
            ReviewState::Unreviewed => "Unreviewed",
            ReviewState::NeedsReview => "Needs review",
            ReviewState::ChangesRequested => "Changes requested",
            ReviewState::Approved => "Approved",
        }
    }

    /// Whether this state earns a chip in the list: the default says nothing.
    pub fn is_noteworthy(self) -> (r: bool)
        ensures
            r == (self != ReviewState::Unreviewed),
    {
        self != ReviewState::Unreviewed
    }

    /// The word this state is stored as.
    pub fn stored_word(self) -> (r: &'static str)
        ensures
            r@ == review_word(self),
    {
        match self {
            ReviewState::Unreviewed => "unreviewed",
            ReviewState::NeedsReview => "needs_review",
            ReviewState::ChangesRequested => "changes_requested",
            ReviewState::Approved => "approved",
        }
    }

    /// The state a stored word stands for, the default for an unknown word.
    pub fn from_stored_word(word: &str) -> (r: ReviewState)
        ensures
            r == review_from_word(word@),
    {
        let w = chars_of(word);
        if crate::text::seq_eq(w.as_slice(), lit("needs_review").as_slice()) {
            ReviewState::NeedsReview
        } else if crate::text::seq_eq(w.as_slice(), lit("changes_requested").as_slice()) {
            ReviewState::ChangesRequested
        } else if crate::text::seq_eq(w.as_slice(), lit("approved").as_slice()) {
            ReviewState::Approved
        } else {
            ReviewState::Unreviewed
        }
    }
}

pub open spec fn test_label(s: TestState) -> Seq<char> {
    match s {
        TestState::Unknown => "Unknown"@,
        TestState::Passing => "Passing"@,
        TestState::Failing => "Failing"@,
    }
}

pub open spec fn test_word(s: TestState) -> Seq<char> {
    match s {
        TestState::Unknown => "unknown"@,
        TestState::Passing => "passing"@,
        TestState::Failing => "failing"@,
    }
}

pub open spec fn test_from_word(w: Seq<char>) -> TestState {
    if w == "passing"@ {
        TestState::Passing
    } else if w == "failing"@ {
        TestState::Failing
    } else {
        TestState::Unknown
    }
}

impl TestState {
    pub fn label(self) -> (r: &'static str)
        ensures
            r@ == test_label(self),
    {
        match self {
            TestState::Unknown => "Unknown",
            TestState::Passing => "Passing",
            TestState::Failing => "Failing",
        }
    }

    pub fn is_noteworthy(self) -> (r: bool)
        ensures
            r == (self != TestState::Unknown),
    {
        self != TestState::Unknown
    }

    pub fn stored_word(self) -> (r: &'static str)
        ensures
            r@ == test_word(self),
    {
        match self {
            TestState::Unknown => "unknown",
            TestState::Passing => "passing",
            TestState::Failing => "failing",
        }
    }

    pub fn from_stored_word(word: &str) -> (r: TestState)
        ensures
            r == test_from_word(word@),
    {
        let w = chars_of(word);
        if crate::text::seq_eq(w.as_slice(), lit("passing").as_slice()) {
            TestState::Passing
        } else if crate::text::seq_eq(w.as_slice(), lit("failing").as_slice()) {
            TestState::Failing
        } else {
            TestState::Unknown
        }
    }
}

/// Every state reads back as itself from the word it is stored as.
pub proof fn lemma_states_round_trip(r: ReviewState, t: TestState)
    ensures
        review_from_word(review_word(r)) == r,
        test_from_word(test_word(t)) == t,
{
    reveal_strlit("unreviewed");
    reveal_strlit("needs_review");
    reveal_strlit("changes_requested");
    reveal_strlit("approved");
    reveal_strlit("unknown");
    reveal_strlit("passing");
    reveal_strlit("failing");
    assert("unreviewed"@ != "needs_review"@ ==> true);
    if r == ReviewState::Unreviewed {
        assert("unreviewed"@[0] != "needs_review"@[0]);
        assert("unreviewed"@[0] != "changes_requested"@[0]);
        assert("unreviewed"@[0] != "approved"@[0]);
    }
    if r == ReviewState::ChangesRequested {
        assert("changes_requested"@[0] != "needs_review"@[0]);
    }
    if r == ReviewState::Approved {
        assert("approved"@[0] != "needs_review"@[0]);
        assert("approved"@[0] != "changes_requested"@[0]);
    }
    if t == TestState::Unknown {
        assert("unknown"@[0] != "passing"@[0]);
        assert("unknown"@[0] != "failing"@[0]);
    }
    if t == TestState::Failing {
        assert("failing"@[0] != "passing"@[0]);
    }
}

} // verus!

verus! {

/// Metadata for one worktree. Every field is set by the user except
/// `base_commit`, which the app fills in when it creates a worktree.
#[derive(Clone, Debug, PartialEq, Eq)]
pub struct WorktreeMetadata {
    /// What is being attempted in this worktree.
    pub task: String,
    /// Who or what is working on it, as free text.
    pub agent: String,
    /// Full oid the worktree started from; empty when the app did not create it.
    pub base_commit: String,
    /// Whatever else the user wants to remember, in prose.
    pub notes: String,
    /// Unix seconds the app created this worktree, or `0` when it did not.
    pub started: i64,
    pub review: ReviewState,
    pub test: TestState,
}

/// Whether every field of `m` is at its default.
pub open spec fn metadata_is_default(m: WorktreeMetadata) -> bool {
    &&& m.task@.len() == 0
    &&& m.agent@.len() == 0
    &&& m.base_commit@.len() == 0
    &&& m.notes@.len() == 0
    &&& m.started == 0
    &&& m.review == ReviewState::Unreviewed
    &&& m.test == TestState::Unknown
}

impl Default for WorktreeMetadata {
    fn default() -> (r: WorktreeMetadata)
        ensures
            metadata_is_default(r),
    {
        WorktreeMetadata {
            task: String::new(),
            agent: String::new(),
            base_commit: String::new(),
            notes: String::new(),
            started: 0,
            review: ReviewState::Unreviewed,
            test: TestState::Unknown,
        }
    }
}

/// Bytes a character takes in UTF-8.
pub open spec fn utf8_width(c: char) -> nat {
    if (c as int) < 0x80 {
        1
    } else if (c as int) < 0x800 {
        2
    } else if (c as int) < 0x10000 {
        3
    } else {
        4
    }
}

/// Bytes a text takes in UTF-8: what `str::len` reports.
pub open spec fn utf8_len(s: Seq<char>) -> nat
    decreases s.len(),
{
    if s.len() == 0 {
        0
    } else {
        utf8_width(s[0]) + utf8_len(s.drop_first())
    }
}

/// How many leading characters fit in `budget` bytes.
pub open spec fn fit_count(s: Seq<char>, budget: int) -> nat
    decreases s.len(),
{
    if s.len() == 0 || utf8_width(s[0]) > budget {
        0
    } else {
        1 + fit_count(s.drop_first(), budget - utf8_width(s[0]))
    }
}

/// A text cut to at most `max` UTF-8 bytes, on a character boundary: its
/// longest prefix of whole characters that fits.
pub open spec fn clamp_text(s: Seq<char>, max: usize) -> Seq<char> {
    s.take(fit_count(s, max as int) as int)
}

/// The short form of a base commit: its first seven characters once
/// trimmed, `None` when there is none.
pub open spec fn short_commit(b: Seq<char>) -> Option<Seq<char>> {
    let t = trim(b);
    if t.len() == 0 {
        None
    } else if t.len() <= 7 {
        Some(t)
    } else {
        Some(t.take(7))
    }
}

fn char_width(c: char) -> (w: usize)
    ensures
        w == utf8_width(c),
{
    if '\u{80}' > c {
        1
    } else if '\u{800}' > c {
        2
    } else if '\u{10000}' > c {
        3
    } else {
        4
    }
}

proof fn lemma_fit_count_step(s: Seq<char>, i: int, budget: int)
    requires
        0 <= i < s.len(),
        utf8_width(s[i]) <= budget,
    ensures
        fit_count(s.skip(i), budget) == 1 + fit_count(s.skip(i + 1), budget - utf8_width(s[i])),
{
    assert(s.skip(i).drop_first() =~= s.skip(i + 1));
}

fn clamp_string(text: String, max: usize) -> (r: String)
    ensures
        r@ == clamp_text(text@, max),
{
    let v = chars_of(text.as_str());
    let n = v.len();
    let mut i: usize = 0;
    let mut left: usize = max;
    assert(v@.skip(0) =~= v@);
    while i < n
        invariant
            n == v@.len(),
            0 <= i <= n,
            left <= max,
            fit_count(v@, max as int) == i + fit_count(v@.skip(i as int), left as int),
        ensures
            0 <= i <= n,
            fit_count(v@, max as int) == i,
        decreases n - i,
    {
        let w = char_width(v[i]);
        if w > left {
            assert(v@.skip(i as int)[0] == v@[i as int]);
            assert(fit_count(v@.skip(i as int), left as int) == 0);
            break;
        }
        proof {
            lemma_fit_count_step(v@, i as int, left as int);
        }
        left = left - w;
        i = i + 1;
    }
    string_of(crate::text::slice_chars(v.as_slice(), 0, i).as_slice())
}

impl WorktreeMetadata {
    /// Whether every field is still at its default; such an entry carries no
    /// information and is not stored.
    pub fn is_empty(&self) -> (r: bool)
        ensures
            r == metadata_is_default(*self),
    {
        self.task.as_str().unicode_len() == 0 && self.agent.as_str().unicode_len() == 0
            && self.base_commit.as_str().unicode_len() == 0 && self.notes.as_str().unicode_len()
            == 0 && self.started == 0 && self.review == ReviewState::Unreviewed && self.test
            == TestState::Unknown
    }

    /// The short form of the base commit for display, `None` when the app
    /// did not create this worktree. Cuts on a character boundary.
    pub fn short_base_commit(&self) -> (r: Option<&str>)
        ensures
            match short_commit(self.base_commit@) {
                Some(c) => r is Some && r->0@ == c,
                None => r is None,
            },
    {
        let s = self.base_commit.as_str();
        let v = chars_of(s);
        let lead = lead_ws_len(v.as_slice());
        let t = crate::text::trim_chars(v.as_slice());
        proof {
            lemma_lead_ws_bound(v@);
            lemma_trail_ws_bound(v@.skip(lead as int));
        }
        if t.len() == 0 {
            return None;
        }
        let k: usize = if t.len() <= 7 {
            t.len()
        } else {
            7
        };
        assert(v@.skip(lead as int).take(t@.len() as int) =~= v@.subrange(lead as int, lead + t@.len()));
        let vn = v.len();
        assert(lead + t@.len() <= vn);
        let r = s.substring_char(lead, lead + k);
        assert(r@ =~= (if t@.len() <= 7 { t@ } else { t@.take(7) }));
        Some(r)
    }

    /// The free-text fields cut to what the UI can carry.
    pub fn clamped(self) -> (r: WorktreeMetadata)
        ensures
            r.task@ == clamp_text(self.task@, MAX_TASK_LEN),
            r.agent@ == clamp_text(self.agent@, MAX_AGENT_LEN),
            r.notes@ == clamp_text(self.notes@, MAX_NOTES_LEN),
            r.base_commit == self.base_commit,
            r.started == self.started,
            r.review == self.review,
            r.test == self.test,
    {
        WorktreeMetadata {
            task: clamp_string(self.task, MAX_TASK_LEN),
            agent: clamp_string(self.agent, MAX_AGENT_LEN),
            base_commit: self.base_commit,
            notes: clamp_string(self.notes, MAX_NOTES_LEN),
            started: self.started,
            review: self.review,
            test: self.test,
        }
    }
}

/// A clamped text fits its limit, and a text that already fit is kept whole.
pub proof fn lemma_clamp_fits(s: Seq<char>, max: usize)
    ensures
        utf8_len(clamp_text(s, max)) <= max,
        utf8_len(s) <= max ==> clamp_text(s, max) == s,
        clamp_text(s, max).len() <= s.len(),
{
    lemma_prefix_fits(s, max as int);
}

proof fn lemma_prefix_fits(s: Seq<char>, budget: int)
    requires
        budget >= 0,
    ensures
        fit_count(s, budget) <= s.len(),
        utf8_len(s.take(fit_count(s, budget) as int)) <= budget,
        utf8_len(s) <= budget ==> fit_count(s, budget) == s.len(),
    decreases s.len(),
{
    if s.len() > 0 && utf8_width(s[0]) <= budget {
        let rest = s.drop_first();
        let k = fit_count(s, budget) as int;
        lemma_prefix_fits(rest, budget - utf8_width(s[0]));
        assert(s.take(k).drop_first() =~= rest.take(k - 1));
        assert(s.take(k)[0] == s[0]);
    } else if s.len() > 0 {
        assert(s.take(0) =~= Seq::<char>::empty());
    } else {
        assert(s.take(0) =~= Seq::<char>::empty());
    }
}

} // verus!
