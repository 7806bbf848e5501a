//! Commit-message rule sets: the Conventional Commits subject grammar, prefix
//! suggestions and completion, custom scopes, and scope inference from the
//! changed paths.

use vstd::prelude::*;

use crate::paths::{components, components_chars, file_name, file_name_chars};
use crate::text::{
    chars_of, first_index, first_line, first_line_chars, find_char, has_char, has_prefix,
    has_suffix, is_whitespace, is_ws, join, join_chars, lex_less, lex_lt, lit, push_all,
    seq_eq, slice_chars, split_chars, split_lines, split_on, starts_with, ends_with, string_of,
    texts, trim, trim_chars, trim_end, trim_end_chars, trim_start, trim_start_chars, lines,
    strs, strings_of, chars_list, with_unique, push_unique, str_texts, trim_matches,
    trim_matches_chars, lemma_lex_lt_total, lemma_lex_lt_transitive,
};

verus! {

/// Which commit-message rules a repository follows.
#[derive(Clone, Copy, Debug, PartialEq, Eq, Structural)]
pub enum CommitMessageRuleSet {
    Off,
    ConventionalCommits,
}

impl Default for CommitMessageRuleSet {
    fn default() -> (r: CommitMessageRuleSet)
        ensures
            r == CommitMessageRuleSet::Off,
    {
        CommitMessageRuleSet::Off
    }
}

/// What a rule set offers the commit panel.
pub trait CommitMessageRules {
    fn display_name(&self) -> &'static str;

    fn description(&self) -> Option<&'static str>;

    fn default_initial_summary(&self) -> &'static str;

    fn validate(&self, message: &str) -> Result<(), String>;

    fn prefix_suggestions(
        &self,
        message: &str,
        inferred_scopes: &[String],
        custom_scopes: &[String],
    ) -> Vec<String>;

    fn apply_prefix(&self, message: &mut String, prefix: &str);
}

// ---------------------------------------------------------------------------
// The Conventional Commits grammar
// ---------------------------------------------------------------------------

/// The commit types, in the order prefixes are offered.
pub open spec fn commit_type(i: int) -> Seq<char> {
    if i == 0 {
        "build"@
    } else if i == 1 {
        "chore"@
    } else if i == 2 {
        "ci"@
    } else if i == 3 {
        "docs"@
    } else if i == 4 {
        "feat"@
    } else if i == 5 {
        "fix"@
    } else if i == 6 {
        "perf"@
    } else if i == 7 {
        "refactor"@
    } else if i == 8 {
        "revert"@
    } else if i == 9 {
        "style"@
    } else {
        "test"@
    }
}

pub const COMMIT_TYPE_COUNT: usize = 11;

fn commit_type_text(i: usize) -> (r: &'static str)
    requires
        i < COMMIT_TYPE_COUNT,
    ensures
        r@ == commit_type(i as int),
{
    if i == 0 {
        "build"
    } else if i == 1 {
        "chore"
    } else if i == 2 {
        "ci"
    } else if i == 3 {
        "docs"
    } else if i == 4 {
        "feat"
    } else if i == 5 {
        "fix"
    } else if i == 6 {
        "perf"
    } else if i == 7 {
        "refactor"
    } else if i == 8 {
        "revert"
    } else if i == 9 {
        "style"
    } else {
        "test"
    }
}

proof fn reveal_commit_types()
    ensures
        commit_type(0) == seq!['b', 'u', 'i', 'l', 'd'],
        commit_type(1) == seq!['c', 'h', 'o', 'r', 'e'],
        commit_type(2) == seq!['c', 'i'],
        commit_type(3) == seq!['d', 'o', 'c', 's'],
        commit_type(4) == seq!['f', 'e', 'a', 't'],
        commit_type(5) == seq!['f', 'i', 'x'],
        commit_type(6) == seq!['p', 'e', 'r', 'f'],
        commit_type(7) == seq!['r', 'e', 'f', 'a', 'c', 't', 'o', 'r'],
        commit_type(8) == seq!['r', 'e', 'v', 'e', 'r', 't'],
        commit_type(9) == seq!['s', 't', 'y', 'l', 'e'],
        commit_type(10) == seq!['t', 'e', 's', 't'],
{
    reveal_strlit("build");
    reveal_strlit("chore");
    reveal_strlit("ci");
    reveal_strlit("docs");
    reveal_strlit("feat");
    reveal_strlit("fix");
    reveal_strlit("perf");
    reveal_strlit("refactor");
    reveal_strlit("revert");
    reveal_strlit("style");
    reveal_strlit("test");
    assert(commit_type(0) =~= seq!['b', 'u', 'i', 'l', 'd']);
    assert(commit_type(1) =~= seq!['c', 'h', 'o', 'r', 'e']);
    assert(commit_type(2) =~= seq!['c', 'i']);
    assert(commit_type(3) =~= seq!['d', 'o', 'c', 's']);
    assert(commit_type(4) =~= seq!['f', 'e', 'a', 't']);
    assert(commit_type(5) =~= seq!['f', 'i', 'x']);
    assert(commit_type(6) =~= seq!['p', 'e', 'r', 'f']);
    assert(commit_type(7) =~= seq!['r', 'e', 'f', 'a', 'c', 't', 'o', 'r']);
    assert(commit_type(8) =~= seq!['r', 'e', 'v', 'e', 'r', 't']);
    assert(commit_type(9) =~= seq!['s', 't', 'y', 'l', 'e']);
    assert(commit_type(10) =~= seq!['t', 'e', 's', 't']);
}

/// No commit type is a prefix of another, so at most one can open a subject.
proof fn lemma_commit_types_prefix_free(s: Seq<char>, i: int, j: int)
    requires
        0 <= i < 11,
        0 <= j < 11,
        has_prefix(s, commit_type(i)),
        has_prefix(s, commit_type(j)),
    ensures
        i == j,
{
    reveal_commit_types();
    let ti = commit_type(i);
    let tj = commit_type(j);
    assert(s.take(ti.len() as int) == ti);
    assert(s.take(tj.len() as int) == tj);
    assert forall|k: int| 0 <= k < ti.len() && k < tj.len() implies ti[k] == tj[k] by {
        assert(ti[k] == s.take(ti.len() as int)[k]);
        assert(tj[k] == s.take(tj.len() as int)[k]);
    }
    if i != j {
        assert(ti[0] == tj[0]);
        assert(ti[1] == tj[1]);
    }
}

/// The part of a subject after its type that the grammar accepts:
/// an optional `(scope)` holding at least one character and no `)`, an
/// optional `!`, then `: `, one non-whitespace character and no line break.
pub open spec fn subject_tail_ok(r: Seq<char>) -> bool {
    let r1 = if r.len() > 0 && r[0] == '(' {
        match first_index(r, ')') {
            Some(j) => if j >= 2 {
                Some(r.skip(j + 1))
            } else {
                None
            },
            None => None,
        }
    } else {
        Some(r)
    };
    match r1 {
        Some(r1) => {
            let r2 = if r1.len() > 0 && r1[0] == '!' {
                r1.drop_first()
            } else {
                r1
            };
            &&& r2.len() >= 3
            &&& r2[0] == ':'
            &&& r2[1] == ' '
            &&& !is_ws(r2[2])
            &&& !has_char(r2.skip(3), '\n')
        },
        None => false,
    }
}

/// A Conventional Commits subject:
/// `(build|chore|ci|docs|feat|fix|perf|refactor|style|test|revert)(\([^)]+\))?(!)?: \S.*`
/// matched against the whole text.
pub open spec fn conventional_subject(s: Seq<char>) -> bool {
    exists|i: int|
        0 <= i < 11 && has_prefix(s, commit_type(i)) && subject_tail_ok(
            s.skip(commit_type(i).len() as int),
        )
}

fn subject_tail_matches(r: &[char]) -> (b: bool)
    ensures
        b == subject_tail_ok(r@),
{
    let rest: Vec<char> = if r.len() > 0 && r[0] == '(' {
        match find_char(r, ')') {
            Some(j) => {
                if j >= 2 {
                    let x = slice_chars(r, j + 1, r.len());
                    assert(x@ =~= r@.skip(j + 1));
                    x
                } else {
                    return false;
                }
            },
            None => {
                return false;
            },
        }
    } else {
        let x = slice_chars(r, 0, r.len());
        assert(x@ =~= r@);
        x
    };
    assert(rest@ == (if r@.len() > 0 && r@[0] == '(' {
        r@.skip(first_index(r@, ')')->0 + 1)
    } else {
        r@
    }));
    let r2: Vec<char> = if rest.len() > 0 && rest[0] == '!' {
        let x = slice_chars(rest.as_slice(), 1, rest.len());
        assert(x@ =~= rest@.drop_first());
        x
    } else {
        rest
    };
    if r2.len() < 3 || r2[0] != ':' || r2[1] != ' ' || is_whitespace(r2[2]) {
        return false;
    }
    let tail = slice_chars(r2.as_slice(), 3, r2.len());
    assert(tail@ =~= r2@.skip(3));
    !crate::text::contains_char(tail.as_slice(), '\n')
}

/// Whether `s` is a Conventional Commits subject.
pub fn is_conventional_subject(s: &[char]) -> (b: bool)
    ensures
        b == conventional_subject(s@),
{
    let mut i: usize = 0;
    while i < COMMIT_TYPE_COUNT
        invariant
            0 <= i <= 11,
            forall|k: int| 0 <= k < i ==> !has_prefix(s@, #[trigger] commit_type(k)),
        decreases 11 - i,
    {
        let t = lit(commit_type_text(i));
        if starts_with(s, t.as_slice()) {
            let rest = slice_chars(s, t.len(), s.len());
            let ok = subject_tail_matches(rest.as_slice());
            proof {
                if ok {
                    assert(has_prefix(s@, commit_type(i as int)) && subject_tail_ok(
                        s@.skip(commit_type(i as int).len() as int),
                    ));
                } else {
                    assert forall|k: int|
                        0 <= k < 11 && has_prefix(s@, commit_type(k)) implies !subject_tail_ok(
                        s@.skip(commit_type(k).len() as int),
                    ) by {
                        lemma_commit_types_prefix_free(s@, i as int, k);
                    }
                }
            }
            return ok;
        }
        i = i + 1;
    }
    false
}

/// After the scope, `sep` + `d` is a well-formed end of a subject.
/// What a subject tail must hold after its scope: an optional `!`, then
/// `: `, a non-whitespace character and no line break.
#[verifier::opaque]
pub open spec fn tail_end_ok(tail: Seq<char>) -> bool {
    let r2 = if tail.len() > 0 && tail[0] == '!' {
        tail.drop_first()
    } else {
        tail
    };
    r2.len() >= 3 && r2[0] == ':' && r2[1] == ' ' && !is_ws(r2[2]) && !has_char(r2.skip(3), '\n')
}

proof fn lemma_tail_after_scope(sep: Seq<char>, d: Seq<char>)
    requires
        sep == seq![':', ' '] || sep == seq!['!', ':', ' '],
        d.len() > 0,
        !is_ws(d[0]),
        !has_char(d, '\n'),
    ensures
        tail_end_ok(sep + d),
{
    reveal(tail_end_ok);
    let tail = sep + d;
    let r2 = if tail.len() > 0 && tail[0] == '!' {
        tail.drop_first()
    } else {
        tail
    };
    assert(r2 =~= seq![':', ' '] + d);
    assert(r2[2] == d[0]);
    assert(r2.skip(3) =~= d.skip(1));
    if has_char(d.skip(1), '\n') {
        let k = choose|k: int| 0 <= k < d.skip(1).len() && d.skip(1)[k] == '\n';
        assert(d[k + 1] == '\n');
    }
}

/// `(scope)` + `tail` is a tail whose scope ends right before `tail`.
proof fn lemma_scope_closes(scope: Seq<char>, tail: Seq<char>)
    requires
        scope.len() > 0,
        !has_char(scope, ')'),
    ensures
        first_index(seq!['('] + scope + seq![')'] + tail, ')') == Some(scope.len() as int + 1),
        (seq!['('] + scope + seq![')'] + tail).skip(scope.len() as int + 2) == tail,
{
    let r = seq!['('] + scope + seq![')'] + tail;
    let j: int = scope.len() as int + 1;
    assert(r[j] == ')');
    assert forall|k: int| 0 <= k < j implies r[k] != ')' by {
        if k > 0 {
            assert(r[k] == scope[k - 1]);
        }
    }
    crate::text::lemma_first_index_unique(r, ')', j);
    assert(r.skip(j + 1) =~= tail);
}

proof fn lemma_scoped_tail_accepted(scope: Seq<char>, tail: Seq<char>, r: Seq<char>)
    requires
        scope.len() > 0,
        !has_char(scope, ')'),
        r == seq!['('] + scope + seq![')'] + tail,
        tail_end_ok(tail),
    ensures
        subject_tail_ok(r),
{
    lemma_scope_closes(scope, tail);
    assert(r[0] == '(');
    assert(first_index(r, ')') == Some(scope.len() as int + 1));
    assert(r.skip(scope.len() as int + 2) == tail);
    reveal(tail_end_ok);
}

proof fn lemma_unscoped_tail_accepted(tail: Seq<char>)
    requires
        tail.len() > 0,
        tail[0] != '(',
        tail_end_ok(tail),
    ensures
        subject_tail_ok(tail),
{
    reveal(tail_end_ok);
}

/// The subject tail `(scope)` + `sep` + `d`, or `sep` + `d` with no scope.
proof fn lemma_tail_accepted(scope: Seq<char>, sep: Seq<char>, d: Seq<char>, r: Seq<char>)
    requires
        !has_char(scope, ')'),
        sep == seq![':', ' '] || sep == seq!['!', ':', ' '],
        d.len() > 0,
        !is_ws(d[0]),
        !has_char(d, '\n'),
        r == (if scope.len() > 0 {
            seq!['('] + scope + seq![')']
        } else {
            Seq::<char>::empty()
        }) + sep + d,
    ensures
        subject_tail_ok(r),
{
    lemma_tail_after_scope(sep, d);
    let tail = sep + d;
    if scope.len() > 0 {
        assert(r =~= seq!['('] + scope + seq![')'] + tail);
        lemma_scoped_tail_accepted(scope, tail, r);
    } else {
        assert(tail[0] == sep[0]);
        lemma_unscoped_tail_accepted(tail);
        assert(r =~= tail);
    }
}

proof fn lemma_typed_subject(i: int, tail: Seq<char>, s: Seq<char>)
    requires
        0 <= i < 11,
        subject_tail_ok(tail),
        s == commit_type(i) + tail,
    ensures
        conventional_subject(s),
{
    assert(s.take(commit_type(i).len() as int) =~= commit_type(i));
    assert(s.skip(commit_type(i).len() as int) =~= tail);
}

proof fn lemma_subject_accepted(i: int, scope: Seq<char>, sep: Seq<char>, d: Seq<char>)
    requires
        0 <= i < 11,
        !has_char(scope, ')'),
        sep == seq![':', ' '] || sep == seq!['!', ':', ' '],
        d.len() > 0,
        !is_ws(d[0]),
        !has_char(d, '\n'),
    ensures
        conventional_subject(
            commit_type(i) + (if scope.len() > 0 {
                seq!['('] + scope + seq![')']
            } else {
                Seq::<char>::empty()
            }) + sep + d,
        ),
{
    let sp = if scope.len() > 0 {
        seq!['('] + scope + seq![')']
    } else {
        Seq::<char>::empty()
    };
    let tail = sp + sep + d;
    lemma_tail_accepted(scope, sep, d, tail);
    let s = commit_type(i) + sp + sep + d;
    assert(s =~= commit_type(i) + tail);
    lemma_typed_subject(i, tail, s);
}

/// A breaking change may be marked with `!` before the colon: for every
/// commit type, with or without a well-formed scope, and every one-line
/// description starting with a non-whitespace character, both
/// `type(scope)!: description` and `type(scope): description` are
/// Conventional Commits subjects.
pub proof fn law_a_breaking_change_marker_is_accepted(i: int, scope: Seq<char>, d: Seq<char>)
    requires
        0 <= i < 11,
        !has_char(scope, ')'),
        d.len() > 0,
        !is_ws(d[0]),
        !has_char(d, '\n'),
    ensures
        conventional_subject(
            commit_type(i) + (if scope.len() > 0 {
                seq!['('] + scope + seq![')']
            } else {
                Seq::<char>::empty()
            }) + seq!['!', ':', ' '] + d,
        ),
        conventional_subject(
            commit_type(i) + (if scope.len() > 0 {
                seq!['('] + scope + seq![')']
            } else {
                Seq::<char>::empty()
            }) + seq![':', ' '] + d,
        ),
{
    let sp = if scope.len() > 0 {
        seq!['('] + scope + seq![')']
    } else {
        Seq::<char>::empty()
    };
    assert(conventional_subject(commit_type(i) + sp + seq!['!', ':', ' '] + d)) by {
        lemma_subject_accepted(i, scope, seq!['!', ':', ' '], d);
    }
    assert(conventional_subject(commit_type(i) + sp + seq![':', ' '] + d)) by {
        lemma_subject_accepted(i, scope, seq![':', ' '], d);
    }
}

/// The commit type a subject starts with. Types are prefix-free, so there is
/// at most one.
pub open spec fn type_of(s: Seq<char>) -> Option<int> {
    if exists|i: int| 0 <= i < 11 && has_prefix(s, commit_type(i)) {
        Some(choose|i: int| 0 <= i < 11 && has_prefix(s, commit_type(i)))
    } else {
        None
    }
}

proof fn lemma_type_of(s: Seq<char>, i: int)
    requires
        0 <= i < 11,
        has_prefix(s, commit_type(i)),
    ensures
        type_of(s) == Some(i),
{
    let k = choose|k: int| 0 <= k < 11 && has_prefix(s, commit_type(k));
    lemma_commit_types_prefix_free(s, i, k);
}

/// What follows `type(scope)!: ` in a subject, for the commit type it starts
/// with (the scope may be empty here); `None` when there is no such type or
/// it is not followed by a well-formed prefix.
pub open spec fn subject_remainder(s: Seq<char>) -> Option<Seq<char>> {
    match type_of(s) {
        Some(i) => {
            let rest = s.skip(commit_type(i).len() as int);
            let r1 = if rest.len() > 0 && rest[0] == '(' {
                match first_index(rest, ')') {
                    Some(j) => Some(rest.skip(j + 1)),
                    None => None,
                }
            } else {
                Some(rest)
            };
            match r1 {
                Some(r1) => {
                    let r2 = if r1.len() > 0 && r1[0] == '!' {
                        r1.drop_first()
                    } else {
                        r1
                    };
                    if has_prefix(r2, ": "@) {
                        Some(r2.skip(2))
                    } else {
                        None
                    }
                },
                None => None,
            }
        },
        None => None,
    }
}

fn subject_remainder_chars(s: &[char]) -> (r: Option<Vec<char>>)
    ensures
        match subject_remainder(s@) {
            Some(x) => r is Some && r->0@ == x,
            None => r is None,
        },
{
    let mut i: usize = 0;
    while i < COMMIT_TYPE_COUNT
        invariant
            0 <= i <= 11,
            forall|k: int| 0 <= k < i ==> !has_prefix(s@, #[trigger] commit_type(k)),
        decreases 11 - i,
    {
        let t = lit(commit_type_text(i));
        if starts_with(s, t.as_slice()) {
            proof {
                lemma_type_of(s@, i as int);
            }
            let rest = slice_chars(s, t.len(), s.len());
            assert(rest@ =~= s@.skip(commit_type(i as int).len() as int));
            let r1: Vec<char> = if rest.len() > 0 && rest[0] == '(' {
                match find_char(rest.as_slice(), ')') {
                    Some(j) => {
                        let x = slice_chars(rest.as_slice(), j + 1, rest.len());
                        assert(x@ =~= rest@.skip(j + 1));
                        x
                    },
                    None => {
                        return None;
                    },
                }
            } else {
                rest
            };
            let r2: Vec<char> = if r1.len() > 0 && r1[0] == '!' {
                let x = slice_chars(r1.as_slice(), 1, r1.len());
                assert(x@ =~= r1@.drop_first());
                x
            } else {
                r1
            };
            let colon = lit(": ");
            proof {
                reveal_strlit(": ");
            }
            if starts_with(r2.as_slice(), colon.as_slice()) {
                let x = slice_chars(r2.as_slice(), 2, r2.len());
                assert(x@ =~= r2@.skip(2));
                return Some(x);
            } else {
                return None;
            }
        }
        i = i + 1;
    }
    assert(type_of(s@) is None);
    None
}

/// The verdict on a commit message under Conventional Commits.
pub open spec fn conventional_validation(message: Seq<char>) -> Result<(), Seq<char>> {
    let subject = trim_end(first_line(message));
    if conventional_subject(subject) {
        Ok(())
    } else if subject_remainder(subject) is Some && trim(subject_remainder(subject)->0).len()
        == 0 {
        Err("Add a short summary after the commit type prefix."@)
    } else {
        Err(
            "Commit message must start with a Conventional Commits prefix like `feat: add search` or `fix(parser): handle empty input`."@,
        )
    }
}

fn validate_conventional_commit(message: &str) -> (r: Result<(), String>)
    ensures
        match conventional_validation(message@) {
            Ok(()) => r is Ok,
            Err(e) => r is Err && r->Err_0@ == e,
        },
{
    let m = chars_of(message);
    let first = first_line_chars(m.as_slice());
    let subject = trim_end_chars(first.as_slice());
    if is_conventional_subject(subject.as_slice()) {
        return Ok(());
    }
    match subject_remainder_chars(subject.as_slice()) {
        Some(rest) => {
            let t = trim_chars(rest.as_slice());
            if t.len() == 0 {
                return Err(string_of(lit("Add a short summary after the commit type prefix.").as_slice()));
            }
        },
        None => {},
    }
    Err(
        string_of(
            lit(
                "Commit message must start with a Conventional Commits prefix like `feat: add search` or `fix(parser): handle empty input`.",
            ).as_slice(),
        ),
    )
}

} // verus!

verus! {

// ---------------------------------------------------------------------------
// Messages, validation and prefix completion
// ---------------------------------------------------------------------------

/// The message a summary and a body make: both trimmed, joined by a blank
/// line when both are present.
pub open spec fn built_message(summary: Seq<char>, body: Seq<char>) -> Seq<char> {
    let s = trim(summary);
    let b = trim(body);
    if s.len() == 0 {
        b
    } else if b.len() == 0 {
        s
    } else {
        s + seq!['\n', '\n'] + b
    }
}

/// Joins a summary and a body into one commit message.
pub fn build_message(summary: &str, body: &str) -> (r: String)
    ensures
        r@ == built_message(summary@, body@),
{
    let s = trim_chars(chars_of(summary).as_slice());
    let b = trim_chars(chars_of(body).as_slice());
    if s.len() == 0 {
        return string_of(b.as_slice());
    }
    if b.len() == 0 {
        return string_of(s.as_slice());
    }
    let mut out = s;
    out.push('\n');
    out.push('\n');
    push_all(&mut out, b.as_slice());
    assert(out@ =~= trim(summary@) + seq!['\n', '\n'] + trim(body@));
    string_of(out.as_slice())
}

/// The verdict of a rule set on a message.
pub open spec fn validation(ruleset: CommitMessageRuleSet, message: Seq<char>) -> Result<(), Seq<char>> {
    match ruleset {
        CommitMessageRuleSet::Off => Ok(()),
        CommitMessageRuleSet::ConventionalCommits => conventional_validation(message),
    }
}

/// Checks a message before it is committed.
pub fn validate_for_submit(ruleset: CommitMessageRuleSet, message: &str) -> (r: Result<(), String>)
    ensures
        match validation(ruleset, message@) {
            Ok(()) => r is Ok,
            Err(e) => r is Err && r->Err_0@ == e,
        },
{
    match ruleset {
        CommitMessageRuleSet::Off => Ok(()),
        CommitMessageRuleSet::ConventionalCommits => validate_conventional_commit(message),
    }
}

/// The complaint shown while a message is typed: nothing for a blank message.
pub fn validation_error(ruleset: CommitMessageRuleSet, message: &str) -> (r: Option<String>)
    ensures
        trim(message@).len() == 0 ==> r is None,
        trim(message@).len() > 0 ==> match validation(ruleset, message@) {
            Ok(()) => r is None,
            Err(e) => r is Some && r->0@ == e,
        },
{
    let t = trim_chars(chars_of(message).as_slice());
    if t.len() == 0 {
        return None;
    }
    match validate_for_submit(ruleset, message) {
        Ok(()) => None,
        Err(e) => Some(e),
    }
}

/// A prefix the completion accepts: it ends in `: ` and, followed by a word,
/// makes a Conventional Commits subject.
pub open spec fn conventional_prefix_ok(prefix: Seq<char>) -> bool {
    has_suffix(prefix, seq![':', ' ']) && conventional_subject(prefix + "summary"@)
}

fn is_valid_conventional_prefix(prefix: &[char]) -> (b: bool)
    ensures
        b == conventional_prefix_ok(prefix@),
{
    let sep: Vec<char> = vec![':', ' '];
    assert(sep@ =~= seq![':', ' ']);
    if !ends_with(prefix, sep.as_slice()) {
        return false;
    }
    let mut probe = slice_chars(prefix, 0, prefix.len());
    assert(probe@ =~= prefix@);
    let word = lit("summary");
    push_all(&mut probe, word.as_slice());
    is_conventional_subject(probe.as_slice())
}

/// Whether a suggested prefix continues what the subject already holds.
pub open spec fn prefix_matches(candidate: Seq<char>, subject: Seq<char>) -> bool {
    has_prefix(candidate, subject) || has_prefix(trim_end(candidate), subject)
}

fn prefix_matches_subject(candidate: &[char], subject: &[char]) -> (b: bool)
    ensures
        b == prefix_matches(candidate@, subject@),
{
    let trimmed = trim_end_chars(candidate);
    starts_with(candidate, subject) || starts_with(trimmed.as_slice(), subject)
}

/// What stays of a subject line once `prefix` goes in front of it: nothing
/// when the line (without its leading whitespace) is itself the start of
/// `prefix`, else the line without its `type(scope)!: ` and leading whitespace.
pub open spec fn subject_rest(prefix: Seq<char>, raw: Seq<char>) -> Seq<char> {
    let subject = trim_start(raw);
    if prefix_matches(prefix, subject) {
        Seq::<char>::empty()
    } else {
        match subject_remainder(subject) {
            Some(r) => trim_start(r),
            None => trim_start(subject),
        }
    }
}

/// A message with `prefix` put in front of its subject line; the lines after
/// the first stay as they are. An unacceptable prefix leaves the message as
/// it is.
pub open spec fn with_conventional_prefix(message: Seq<char>, prefix: Seq<char>) -> Seq<char> {
    if !conventional_prefix_ok(prefix) {
        message
    } else {
        match first_index(message, '\n') {
            Some(i) => prefix + subject_rest(prefix, message.take(i)) + seq!['\n'] + message.skip(i + 1),
            None => prefix + subject_rest(prefix, message),
        }
    }
}

fn prefixed_subject(p: &[char], raw: &[char]) -> (r: Vec<char>)
    ensures
        r@ == p@ + subject_rest(p@, raw@),
{
    let subject = trim_start_chars(raw);
    let remainder: Vec<char> = if prefix_matches_subject(p, subject.as_slice()) {
        Vec::new()
    } else {
        match subject_remainder_chars(subject.as_slice()) {
            Some(r) => trim_start_chars(r.as_slice()),
            None => trim_start_chars(subject.as_slice()),
        }
    };
    let mut out = slice_chars(p, 0, p.len());
    assert(out@ =~= p@);
    push_all(&mut out, remainder.as_slice());
    out
}

fn apply_conventional_prefix(message: &mut String, prefix: &str)
    ensures
        final(message)@ == with_conventional_prefix(old(message)@, prefix@),
{
    let p = chars_of(prefix);
    if !is_valid_conventional_prefix(p.as_slice()) {
        return;
    }
    let m = chars_of(message.as_str());
    let newline = find_char(m.as_slice(), '\n');
    match newline {
        Some(i) => {
            let ml = m.len();
            assert(i < ml);
            let raw = slice_chars(m.as_slice(), 0, i);
            assert(raw@ =~= m@.take(i as int));
            let mut out = prefixed_subject(p.as_slice(), raw.as_slice());
            out.push('\n');
            let body = slice_chars(m.as_slice(), i + 1, ml);
            push_all(&mut out, body.as_slice());
            assert(out@ =~= p@ + subject_rest(p@, m@.take(i as int)) + seq!['\n'] + m@.skip(i + 1));
            *message = string_of(out.as_slice());
        },
        None => {
            let out = prefixed_subject(p.as_slice(), m.as_slice());
            *message = string_of(out.as_slice());
        },
    }
}

/// A message after a rule set applied `prefix` to it.
pub open spec fn prefix_applied(ruleset: CommitMessageRuleSet, message: Seq<char>, prefix: Seq<char>) -> Seq<char> {
    match ruleset {
        CommitMessageRuleSet::Off => message,
        CommitMessageRuleSet::ConventionalCommits => with_conventional_prefix(message, prefix),
    }
}

/// Puts a chosen prefix in front of the message's subject.
pub fn apply_prefix(ruleset: CommitMessageRuleSet, message: &mut String, prefix: &str)
    ensures
        final(message)@ == prefix_applied(ruleset, old(message)@, prefix@),
{
    match ruleset {
        CommitMessageRuleSet::Off => {},
        CommitMessageRuleSet::ConventionalCommits => apply_conventional_prefix(message, prefix),
    }
}

} // verus!

verus! {

// ---------------------------------------------------------------------------
// Custom scopes
// ---------------------------------------------------------------------------

pub open spec fn is_ascii_alnum(c: char) -> bool {
    ('A' <= c && c <= 'Z') || ('a' <= c && c <= 'z') || ('0' <= c && c <= '9')
}

/// A scope a user may define: `[A-Za-z0-9][A-Za-z0-9._/-]*`.
pub open spec fn valid_scope(s: Seq<char>) -> bool {
    &&& s.len() > 0
    &&& is_ascii_alnum(s[0])
    &&& forall|i: int|
        1 <= i < s.len() ==> is_ascii_alnum(#[trigger] s[i]) || s[i] == '.' || s[i] == '_'
            || s[i] == '-' || s[i] == '/'
}

fn is_valid_scope(s: &[char]) -> (b: bool)
    ensures
        b == valid_scope(s@),
{
    let n = s.len();
    if n == 0 {
        return false;
    }
    let c0 = s[0];
    if !(('A' <= c0 && c0 <= 'Z') || ('a' <= c0 && c0 <= 'z') || ('0' <= c0 && c0 <= '9')) {
        return false;
    }
    let mut i: usize = 1;
    while i < n
        invariant
            n == s@.len(),
            1 <= i <= n,
            forall|k: int|
                1 <= k < i ==> is_ascii_alnum(#[trigger] s@[k]) || s@[k] == '.' || s@[k] == '_'
                    || s@[k] == '-' || s@[k] == '/',
        decreases n - i,
    {
        let c = s[i];
        if !(('A' <= c && c <= 'Z') || ('a' <= c && c <= 'z') || ('0' <= c && c <= '9') || c
            == '.' || c == '_' || c == '-' || c == '/') {
            return false;
        }
        i = i + 1;
    }
    true
}

/// The complaint about a scope that breaks the pattern.
pub open spec fn scope_error(scope: Seq<char>) -> Seq<char> {
    "Custom scopes must use letters, numbers, `.`, `_`, `-`, or `/`: `"@ + scope + "`"@
}

/// The scopes of the first `k` comma-separated pieces: trimmed, blank ones
/// skipped, repeats dropped; the first malformed one is an error.
pub open spec fn scopes_upto(pieces: Seq<Seq<char>>, k: int) -> Result<Seq<Seq<char>>, Seq<char>>
    decreases k,
{
    if k <= 0 {
        Ok(Seq::empty())
    } else {
        match scopes_upto(pieces, k - 1) {
            Err(e) => Err(e),
            Ok(acc) => {
                let s = trim(pieces[k - 1]);
                if s.len() == 0 {
                    Ok(acc)
                } else if !valid_scope(s) {
                    Err(scope_error(s))
                } else {
                    Ok(with_unique(acc, s))
                }
            },
        }
    }
}

/// The custom scopes a comma-separated list names.
pub open spec fn custom_scopes(input: Seq<char>) -> Result<Seq<Seq<char>>, Seq<char>> {
    scopes_upto(split_on(input, ','), split_on(input, ',').len() as int)
}

/// Reads the custom scopes a user typed, comma-separated.
pub fn parse_custom_scopes(input: &str) -> (r: Result<Vec<String>, String>)
    ensures
        match custom_scopes(input@) {
            Ok(v) => r is Ok && strs(r->Ok_0@) == v,
            Err(e) => r is Err && r->Err_0@ == e,
        },
{
    let pieces = split_chars(chars_of(input).as_slice(), ',');
    let ghost sp = texts(pieces@);
    let n = pieces.len();
    let mut scopes: Vec<Vec<char>> = Vec::new();
    let mut k: usize = 0;
    assert(texts(scopes@) =~= Seq::<Seq<char>>::empty());
    while k < n
        invariant
            n == pieces@.len(),
            sp == texts(pieces@),
            sp == split_on(input@, ','),
            0 <= k <= n,
            scopes_upto(sp, k as int) == Ok::<Seq<Seq<char>>, Seq<char>>(texts(scopes@)),
        decreases n - k,
    {
        let scope = trim_chars(pieces[k].as_slice());
        assert(scope@ == trim(sp[k as int]));
        if scope.len() > 0 {
            if !is_valid_scope(scope.as_slice()) {
                let mut msg = lit("Custom scopes must use letters, numbers, `.`, `_`, `-`, or `/`: `");
                push_all(&mut msg, scope.as_slice());
                let close = lit("`");
                push_all(&mut msg, close.as_slice());
                proof {
                    lemma_scopes_err_stays(sp, k as int + 1, sp.len() as int);
                }
                return Err(string_of(msg.as_slice()));
            }
            push_unique(&mut scopes, scope);
        }
        k = k + 1;
    }
    Ok(strings_of(&scopes))
}

proof fn lemma_scopes_valid_and_distinct(pieces: Seq<Seq<char>>, k: int)
    ensures
        scopes_upto(pieces, k) matches Ok(v) ==> {
            &&& forall|i: int| 0 <= i < v.len() ==> valid_scope(#[trigger] v[i])
            &&& forall|i: int, j: int| 0 <= i < j < v.len() ==> #[trigger] v[i] != #[trigger] v[j]
        },
    decreases k,
{
    if k > 0 {
        lemma_scopes_valid_and_distinct(pieces, k - 1);
        match scopes_upto(pieces, k - 1) {
            Err(_) => {},
            Ok(acc) => {
                let s = trim(pieces[k - 1]);
                if s.len() > 0 && valid_scope(s) && !acc.contains(s) {
                    let v = acc.push(s);
                    assert forall|i: int, j: int| 0 <= i < j < v.len() implies #[trigger] v[i] != #[trigger] v[j] by {
                        if j == acc.len() {
                            assert(acc[i] == v[i]);
                            if v[i] == s {
                                assert(acc.contains(s));
                            }
                        } else {
                            assert(acc[i] == v[i] && acc[j] == v[j]);
                        }
                    }
                    assert forall|i: int| 0 <= i < v.len() implies valid_scope(#[trigger] v[i]) by {
                        if i < acc.len() {
                            assert(acc[i] == v[i]);
                        }
                    }
                }
            },
        }
    }
}

/// Custom scopes that parse are each a well-formed scope, and none is listed
/// twice, whatever repeats the input held.
pub proof fn law_custom_scopes_are_valid_and_distinct(input: Seq<char>)
    ensures
        custom_scopes(input) matches Ok(v) ==> {
            &&& forall|i: int| 0 <= i < v.len() ==> valid_scope(#[trigger] v[i])
            &&& forall|i: int, j: int| 0 <= i < j < v.len() ==> #[trigger] v[i] != #[trigger] v[j]
        },
{
    lemma_scopes_valid_and_distinct(split_on(input, ','), split_on(input, ',').len() as int);
}

/// The settings form's text for the custom scopes: comma-separated.
pub fn custom_scopes_input(scopes: &Vec<String>) -> (r: String)
    ensures
        r@ == join(strs(scopes@), ", "@),
{
    let parts = chars_list(scopes.as_slice());
    string_of(join_chars(&parts, lit(", ").as_slice()).as_slice())
}

/// Splitting `a + b` where `b` holds no separator extends the last piece of
/// `a` by `b`.
proof fn lemma_split_extend(a: Seq<char>, b: Seq<char>, sep: char)
    requires
        !b.contains(sep),
    ensures
        split_on(a + b, sep) == split_on(a, sep).update(
            split_on(a, sep).len() - 1,
            split_on(a, sep).last() + b,
        ),
    decreases b.len(),
{
    crate::text::lemma_split_on_nonempty(a, sep);
    let pa = split_on(a, sep);
    if b.len() == 0 {
        assert(a + b =~= a);
        assert(pa.last() + b =~= pa.last());
        assert(pa.update(pa.len() - 1, pa.last() + b) =~= pa);
    } else {
        let b0 = b.drop_last();
        assert(!b0.contains(sep)) by {
            if b0.contains(sep) {
                let j = choose|j: int| 0 <= j < b0.len() && b0[j] == sep;
                assert(b[j] == sep);
            }
        }
        lemma_split_extend(a, b0, sep);
        assert(b[b.len() - 1] == b.last());
        assert(b.last() != sep);
        let s = a + b;
        assert(s.drop_last() =~= a + b0);
        assert(s.last() == b.last());
        let init = split_on(a + b0, sep);
        assert(init.len() == pa.len());
        assert(init.last() =~= pa.last() + b0);
        assert(init.last().push(b.last()) =~= pa.last() + b);
        assert(split_on(s, sep) == init.update(init.len() - 1, init.last().push(b.last())));
        assert(init.update(init.len() - 1, init.last().push(b.last())) =~= pa.update(
            pa.len() - 1,
            pa.last() + b,
        ));
    }
}

/// The pieces a comma split gives of scopes joined by `, `: the first scope,
/// then each further one behind its space.
pub open spec fn joined_scope_pieces(scopes: Seq<Seq<char>>) -> Seq<Seq<char>> {
    Seq::new(scopes.len(), |i: int| if i == 0 { scopes[0] } else { seq![' '] + scopes[i] })
}

proof fn lemma_split_joined_scopes(scopes: Seq<Seq<char>>)
    requires
        scopes.len() > 0,
        forall|i: int| 0 <= i < scopes.len() ==> !(#[trigger] scopes[i]).contains(','),
    ensures
        split_on(join(scopes, ", "@), ',') == joined_scope_pieces(scopes),
    decreases scopes.len(),
{
    reveal_strlit(", ");
    if scopes.len() == 1 {
        lemma_split_extend(Seq::empty(), scopes[0], ',');
        assert(Seq::<char>::empty() + scopes[0] =~= scopes[0]);
        assert(split_on(Seq::<char>::empty(), ',') =~= seq![Seq::<char>::empty()]);
        assert(split_on(scopes[0], ',') =~= joined_scope_pieces(scopes));
    } else {
        let d = scopes.drop_last();
        assert forall|i: int| 0 <= i < d.len() implies !(#[trigger] d[i]).contains(',') by {
            assert(d[i] == scopes[i]);
        }
        lemma_split_joined_scopes(d);
        let jd = join(d, ", "@);
        let head = jd.push(',');
        let tail = seq![' '] + scopes.last();
        assert(join(scopes, ", "@) =~= head + tail);
        assert(head.drop_last() =~= jd);
        assert(split_on(head, ',') == split_on(jd, ',').push(Seq::<char>::empty()));
        assert(!tail.contains(',')) by {
            assert(!scopes[scopes.len() - 1].contains(','));
            if tail.contains(',') {
                let j = choose|j: int| 0 <= j < tail.len() && tail[j] == ',';
                assert(j > 0);
                assert(tail[j] == scopes.last()[j - 1]);
            }
        }
        lemma_split_extend(head, tail, ',');
        assert(Seq::<char>::empty() + tail =~= tail);
        assert(split_on(head + tail, ',') =~= joined_scope_pieces(scopes));
    }
}

proof fn lemma_valid_scope_trims(x: Seq<char>)
    requires
        valid_scope(x),
    ensures
        trim(x) == x,
        trim(seq![' '] + x) == x,
        !x.contains(','),
{
    let last = x[x.len() - 1];
    assert(!is_ws(x[0]));
    assert(!is_ws(last)) by {
        if x.len() > 1 {
            assert(is_ascii_alnum(x[x.len() - 1]) || x[x.len() - 1] == '.' || x[x.len() - 1] == '_'
                || x[x.len() - 1] == '-' || x[x.len() - 1] == '/');
        }
    }
    crate::text::lemma_lead_ws(x, 0);
    assert(trim_start(x) =~= x);
    crate::text::lemma_trail_ws(x, 0);
    assert(trim_end(x) =~= x);
    let y = seq![' '] + x;
    assert(y[1] == x[0]);
    crate::text::lemma_lead_ws(y, 1);
    assert(trim_start(y) =~= x);
    assert(!x.contains(',')) by {
        if x.contains(',') {
            let j = choose|j: int| 0 <= j < x.len() && x[j] == ',';
            if j > 0 {
                assert(is_ascii_alnum(x[j]) || x[j] == '.' || x[j] == '_' || x[j] == '-' || x[j] == '/');
            }
        }
    }
}

proof fn lemma_scopes_of_joined(scopes: Seq<Seq<char>>, k: int)
    requires
        0 <= k <= scopes.len(),
        forall|i: int| 0 <= i < scopes.len() ==> valid_scope(#[trigger] scopes[i]),
        forall|i: int, j: int| 0 <= i < j < scopes.len() ==> #[trigger] scopes[i] != #[trigger] scopes[j],
    ensures
        scopes_upto(joined_scope_pieces(scopes), k) == Ok::<Seq<Seq<char>>, Seq<char>>(scopes.take(k)),
    decreases k,
{
    if k == 0 {
        assert(scopes.take(0) =~= Seq::<Seq<char>>::empty());
    } else {
        lemma_scopes_of_joined(scopes, k - 1);
        let x = scopes[k - 1];
        lemma_valid_scope_trims(x);
        let piece = joined_scope_pieces(scopes)[k - 1];
        assert(trim(piece) == x);
        let acc = scopes.take(k - 1);
        assert(!acc.contains(x)) by {
            if acc.contains(x) {
                let j = choose|j: int| 0 <= j < acc.len() && acc[j] == x;
                assert(scopes[j] == scopes[k - 1]);
            }
        }
        assert(acc.push(x) =~= scopes.take(k));
    }
}

/// The settings form shows the custom scopes comma-separated, and reading
/// that text back gives the very same scopes, in order: opening the settings
/// and saving them unchanged keeps every scope. It holds of any list the
/// parser can produce, whose scopes are well-formed and distinct.
pub proof fn law_shown_scopes_read_back_unchanged(scopes: Seq<Seq<char>>)
    requires
        forall|i: int| 0 <= i < scopes.len() ==> valid_scope(#[trigger] scopes[i]),
        forall|i: int, j: int| 0 <= i < j < scopes.len() ==> #[trigger] scopes[i] != #[trigger] scopes[j],
    ensures
        custom_scopes(join(scopes, ", "@)) == Ok::<Seq<Seq<char>>, Seq<char>>(scopes),
{
    if scopes.len() == 0 {
        assert(join(scopes, ", "@) =~= Seq::<char>::empty());
        assert(split_on(join(scopes, ", "@), ',') =~= seq![Seq::<char>::empty()]);
        assert(trim(Seq::<char>::empty()) =~= Seq::<char>::empty());
        assert(scopes =~= Seq::<Seq<char>>::empty());
        let p = split_on(join(scopes, ", "@), ',');
        assert(scopes_upto(p, 0) == Ok::<Seq<Seq<char>>, Seq<char>>(Seq::empty()));
        assert(trim(p[0]).len() == 0);
        assert(scopes_upto(p, 1) == Ok::<Seq<Seq<char>>, Seq<char>>(Seq::empty()));
    } else {
        assert forall|i: int| 0 <= i < scopes.len() implies !(#[trigger] scopes[i]).contains(',') by {
            lemma_valid_scope_trims(scopes[i]);
        }
        lemma_split_joined_scopes(scopes);
        lemma_scopes_of_joined(scopes, scopes.len() as int);
        assert(scopes.take(scopes.len() as int) =~= scopes);
        let pieces = split_on(join(scopes, ", "@), ',');
        assert(pieces == joined_scope_pieces(scopes));
        assert(pieces.len() == scopes.len());
        assert(custom_scopes(join(scopes, ", "@)) == scopes_upto(pieces, pieces.len() as int));
    }
}

proof fn lemma_scopes_err_stays(pieces: Seq<Seq<char>>, k: int, m: int)
    requires
        1 <= k <= m,
        scopes_upto(pieces, k) is Err,
    ensures
        scopes_upto(pieces, m) == scopes_upto(pieces, k),
    decreases m - k,
{
    if m > k {
        lemma_scopes_err_stays(pieces, k, m - 1);
    }
}

} // verus!

verus! {

// ---------------------------------------------------------------------------
// Prefix suggestions
// ---------------------------------------------------------------------------

/// `type(scope): `.
pub open spec fn scoped_prefix(t: Seq<char>, scope: Seq<char>) -> Seq<char> {
    t + seq!['('] + scope + seq![')', ':', ' ']
}

/// The (at most) three best inferred scopes.
pub open spec fn top_scopes(inferred: Seq<Seq<char>>) -> Seq<Seq<char>> {
    if inferred.len() <= 3 {
        inferred
    } else {
        inferred.take(3)
    }
}

/// `acc` extended by each of `xs` that it does not hold yet, in order.
pub open spec fn all_unique(acc: Seq<Seq<char>>, xs: Seq<Seq<char>>) -> Seq<Seq<char>>
    decreases xs.len(),
{
    if xs.len() == 0 {
        acc
    } else {
        with_unique(all_unique(acc, xs.drop_last()), xs.last())
    }
}

/// The prefixes offered for one type, before repeats are dropped: the bare
/// type, the top inferred scopes together (when there are several), each
/// top inferred scope, then each custom scope.
pub open spec fn raw_candidates(t: Seq<char>, inferred: Seq<Seq<char>>, custom: Seq<Seq<char>>) -> Seq<Seq<char>> {
    let top = top_scopes(inferred);
    let combined = if top.len() > 1 {
        seq![scoped_prefix(t, join(top, seq![',']))]
    } else {
        Seq::<Seq<char>>::empty()
    };
    seq![t + seq![':', ' ']] + combined + Seq::new(top.len(), |i: int| scoped_prefix(t, top[i]))
        + Seq::new(custom.len(), |i: int| scoped_prefix(t, custom[i]))
}

/// The prefixes offered for one type.
pub open spec fn candidates_for_type(t: Seq<char>, inferred: Seq<Seq<char>>, custom: Seq<Seq<char>>) -> Seq<Seq<char>> {
    all_unique(Seq::empty(), raw_candidates(t, inferred, custom))
}

/// `acc` extended by each candidate that continues `subject`, without repeats.
pub open spec fn add_matching(acc: Seq<Seq<char>>, cands: Seq<Seq<char>>, subject: Seq<char>) -> Seq<Seq<char>>
    decreases cands.len(),
{
    if cands.len() == 0 {
        acc
    } else {
        let prev = add_matching(acc, cands.drop_last(), subject);
        if prefix_matches(cands.last(), subject) {
            with_unique(prev, cands.last())
        } else {
            prev
        }
    }
}

/// A type is offered when the subject starts with it or is a start of it.
pub open spec fn type_offered(t: Seq<char>, subject: Seq<char>) -> bool {
    has_prefix(subject, t) || has_prefix(t, subject)
}

pub open spec fn suggestions_upto(subject: Seq<char>, inferred: Seq<Seq<char>>, custom: Seq<Seq<char>>, k: int) -> Seq<Seq<char>>
    decreases k,
{
    if k <= 0 {
        Seq::empty()
    } else {
        let prev = suggestions_upto(subject, inferred, custom, k - 1);
        let t = commit_type(k - 1);
        if type_offered(t, subject) {
            add_matching(prev, candidates_for_type(t, inferred, custom), subject)
        } else {
            prev
        }
    }
}

/// The Conventional Commits prefixes offered for what the subject line holds
/// so far (nothing for a blank subject).
pub open spec fn conventional_suggestions(message: Seq<char>, inferred: Seq<Seq<char>>, custom: Seq<Seq<char>>) -> Seq<Seq<char>> {
    let subject = trim_start(first_line(message));
    if subject.len() == 0 {
        Seq::empty()
    } else {
        suggestions_upto(subject, inferred, custom, 11)
    }
}

/// The prefixes a rule set offers.
pub open spec fn suggestions(ruleset: CommitMessageRuleSet, message: Seq<char>, inferred: Seq<Seq<char>>, custom: Seq<Seq<char>>) -> Seq<Seq<char>> {
    match ruleset {
        CommitMessageRuleSet::Off => Seq::empty(),
        CommitMessageRuleSet::ConventionalCommits => conventional_suggestions(
            message,
            inferred,
            custom,
        ),
    }
}

fn copy_texts(v: &Vec<Vec<char>>, n: usize) -> (r: Vec<Vec<char>>)
    requires
        n <= v@.len(),
    ensures
        texts(r@) == texts(v@).take(n as int),
{
    let mut out: Vec<Vec<char>> = Vec::new();
    let mut i: usize = 0;
    while i < n
        invariant
            n <= v@.len(),
            0 <= i <= n,
            texts(out@) == texts(v@).take(i as int),
        decreases n - i,
    {
        let ghost before = out@;
        let c = slice_chars(v[i].as_slice(), 0, v[i].len());
        assert(c@ =~= v@[i as int]@);
        out.push(c);
        assert(texts(out@) =~= texts(before).push(v@[i as int]@));
        i = i + 1;
        assert(texts(out@) =~= texts(v@).take(i as int));
    }
    out
}

fn scoped_prefix_chars(t: &[char], scope: &[char]) -> (r: Vec<char>)
    ensures
        r@ == scoped_prefix(t@, scope@),
{
    let mut out = slice_chars(t, 0, t.len());
    out.push('(');
    push_all(&mut out, scope);
    out.push(')');
    out.push(':');
    out.push(' ');
    assert(out@ =~= t@ + seq!['('] + scope@ + seq![')', ':', ' ']);
    out
}

fn raw_candidates_chars(t: &[char], inferred: &Vec<Vec<char>>, custom: &Vec<Vec<char>>) -> (r: Vec<Vec<char>>)
    ensures
        texts(r@) == raw_candidates(t@, texts(inferred@), texts(custom@)),
{
    let ghost inf = texts(inferred@);
    let ghost cus = texts(custom@);
    let n_top: usize = if inferred.len() <= 3 {
        inferred.len()
    } else {
        3
    };
    let top = copy_texts(inferred, n_top);
    assert(texts(top@) =~= top_scopes(inf));
    let ghost tops = texts(top@);
    let mut out: Vec<Vec<char>> = Vec::new();
    let mut bare = slice_chars(t, 0, t.len());
    bare.push(':');
    bare.push(' ');
    assert(bare@ =~= t@ + seq![':', ' ']);
    out.push(bare);
    let ghost combined = if tops.len() > 1 {
        seq![scoped_prefix(t@, join(tops, seq![',']))]
    } else {
        Seq::<Seq<char>>::empty()
    };
    let comma: Vec<char> = vec![','];
    assert(comma@ =~= seq![',']);
    if top.len() > 1 {
        let joined = join_chars(&top, comma.as_slice());
        let ghost before = out@;
        out.push(scoped_prefix_chars(t, joined.as_slice()));
        assert(texts(out@) =~= texts(before).push(scoped_prefix(t@, join(tops, seq![',']))));
    }
    assert(texts(out@) =~= seq![t@ + seq![':', ' ']] + combined);
    let ghost head = texts(out@);
    let mut i: usize = 0;
    while i < top.len()
        invariant
            tops == texts(top@),
            0 <= i <= tops.len(),
            texts(out@) == head + Seq::new(i as nat, |j: int| scoped_prefix(t@, tops[j])),
        decreases tops.len() - i,
    {
        let ghost before = out@;
        out.push(scoped_prefix_chars(t, top[i].as_slice()));
        assert(texts(out@) =~= texts(before).push(scoped_prefix(t@, tops[i as int])));
        i = i + 1;
        assert(texts(out@) =~= head + Seq::new(i as nat, |j: int| scoped_prefix(t@, tops[j])));
    }
    let ghost mid = texts(out@);
    let mut j: usize = 0;
    while j < custom.len()
        invariant
            cus == texts(custom@),
            0 <= j <= cus.len(),
            texts(out@) == mid + Seq::new(j as nat, |x: int| scoped_prefix(t@, cus[x])),
        decreases cus.len() - j,
    {
        let ghost before = out@;
        out.push(scoped_prefix_chars(t, custom[j].as_slice()));
        assert(texts(out@) =~= texts(before).push(scoped_prefix(t@, cus[j as int])));
        j = j + 1;
        assert(texts(out@) =~= mid + Seq::new(j as nat, |x: int| scoped_prefix(t@, cus[x])));
    }
    assert(texts(out@) =~= raw_candidates(t@, inf, cus));
    out
}

fn suggestion_candidates_for_type(t: &[char], inferred: &Vec<Vec<char>>, custom: &Vec<Vec<char>>) -> (r: Vec<Vec<char>>)
    ensures
        texts(r@) == candidates_for_type(t@, texts(inferred@), texts(custom@)),
{
    let raw = raw_candidates_chars(t, inferred, custom);
    let ghost rs = texts(raw@);
    let mut out: Vec<Vec<char>> = Vec::new();
    let mut i: usize = 0;
    assert(texts(out@) =~= all_unique(Seq::empty(), rs.take(0)));
    while i < raw.len()
        invariant
            rs == texts(raw@),
            0 <= i <= rs.len(),
            texts(out@) == all_unique(Seq::empty(), rs.take(i as int)),
        decreases rs.len() - i,
    {
        assert(rs.take(i + 1).drop_last() =~= rs.take(i as int));
        assert(rs.take(i + 1).last() == rs[i as int]);
        let c = slice_chars(raw[i].as_slice(), 0, raw[i].len());
        assert(c@ =~= rs[i as int]);
        push_unique(&mut out, c);
        i = i + 1;
    }
    assert(rs.take(rs.len() as int) =~= rs);
    out
}

fn conventional_prefix_suggestions(message: &str, inferred: &Vec<Vec<char>>, custom: &Vec<Vec<char>>) -> (r: Vec<Vec<char>>)
    ensures
        texts(r@) == conventional_suggestions(message@, texts(inferred@), texts(custom@)),
{
    let m = chars_of(message);
    let first = first_line_chars(m.as_slice());
    let subject = trim_start_chars(first.as_slice());
    let mut out: Vec<Vec<char>> = Vec::new();
    if subject.len() == 0 {
        return out;
    }
    let ghost inf = texts(inferred@);
    let ghost cus = texts(custom@);
    let mut k: usize = 0;
    assert(texts(out@) =~= suggestions_upto(subject@, inf, cus, 0));
    while k < COMMIT_TYPE_COUNT
        invariant
            inf == texts(inferred@),
            cus == texts(custom@),
            0 <= k <= 11,
            texts(out@) == suggestions_upto(subject@, inf, cus, k as int),
        decreases 11 - k,
    {
        let t = lit(commit_type_text(k));
        if starts_with(subject.as_slice(), t.as_slice()) || starts_with(
            t.as_slice(),
            subject.as_slice(),
        ) {
            let cands = suggestion_candidates_for_type(t.as_slice(), inferred, custom);
            let ghost cs = texts(cands@);
            let ghost start = texts(out@);
            let mut i: usize = 0;
            assert(cs.take(0) =~= Seq::<Seq<char>>::empty());
            while i < cands.len()
                invariant
                    cs == texts(cands@),
                    0 <= i <= cs.len(),
                    texts(out@) == add_matching(start, cs.take(i as int), subject@),
                decreases cs.len() - i,
            {
                assert(cs.take(i + 1).drop_last() =~= cs.take(i as int));
                assert(cs.take(i + 1).last() == cs[i as int]);
                assert(cands@[i as int]@ == cs[i as int]);
                if prefix_matches_subject(cands[i].as_slice(), subject.as_slice()) {
                    let c = slice_chars(cands[i].as_slice(), 0, cands[i].len());
                    assert(c@ =~= cs[i as int]);
                    push_unique(&mut out, c);
                }
                i = i + 1;
            }
            assert(cs.take(cs.len() as int) =~= cs);
        }
        k = k + 1;
    }
    out
}

/// The prefixes a rule set offers for the message typed so far.
pub fn prefix_suggestions(
    ruleset: CommitMessageRuleSet,
    message: &str,
    inferred_scopes: &[String],
    custom_scopes: &[String],
) -> (r: Vec<String>)
    ensures
        strs(r@) == suggestions(ruleset, message@, strs(inferred_scopes@), strs(custom_scopes@)),
{
    match ruleset {
        CommitMessageRuleSet::Off => {
            let r: Vec<String> = Vec::new();
            assert(strs(r@) =~= Seq::<Seq<char>>::empty());
            r
        },
        CommitMessageRuleSet::ConventionalCommits => {
            let inferred = chars_list(inferred_scopes);
            let custom = chars_list(custom_scopes);
            let found = conventional_prefix_suggestions(message, &inferred, &custom);
            strings_of(&found)
        },
    }
}

} // verus!

verus! {

// ---------------------------------------------------------------------------
// The package name in a Cargo manifest
// ---------------------------------------------------------------------------

/// The `name = "…"` of the `[package]` section, read from line `k` on;
/// `in_package` says whether line `k` lies in that section.
pub open spec fn package_scan(ls: Seq<Seq<char>>, k: int, in_package: bool) -> Option<Seq<char>>
    decreases ls.len() - k,
{
    if k < 0 || k >= ls.len() {
        None
    } else {
        let t = trim(ls[k]);
        if has_prefix(t, seq!['[']) {
            package_scan(ls, k + 1, t == "[package]"@)
        } else if !in_package {
            package_scan(ls, k + 1, in_package)
        } else {
            match first_index(t, '=') {
                None => package_scan(ls, k + 1, in_package),
                Some(e) => {
                    let value = trim_matches(trim(t.skip(e + 1)), '"');
                    if trim(t.take(e)) != "name"@ || value.len() == 0 {
                        package_scan(ls, k + 1, in_package)
                    } else {
                        Some(value)
                    }
                },
            }
        }
    }
}

/// The package name a `Cargo.toml` declares.
pub open spec fn package_name(manifest: Seq<char>) -> Option<Seq<char>> {
    package_scan(lines(manifest), 0, false)
}

/// Reads the package name from the text of a `Cargo.toml`.
pub fn cargo_package_name(manifest: &str) -> (r: Option<String>)
    ensures
        match package_name(manifest@) {
            Some(n) => r is Some && r->0@ == n,
            None => r is None,
        },
{
    let ls = split_lines(chars_of(manifest).as_slice());
    let ghost sl = texts(ls@);
    let n = ls.len();
    let mut in_package = false;
    let mut k: usize = 0;
    let open = lit("[package]");
    let key = lit("name");
    while k < n
        invariant
            n == ls@.len(),
            sl == texts(ls@),
            sl == lines(manifest@),
            0 <= k <= n,
            open@ == "[package]"@,
            key@ == "name"@,
            package_scan(sl, 0, false) == package_scan(sl, k as int, in_package),
        decreases n - k,
    {
        let t = trim_chars(ls[k].as_slice());
        assert(t@ == trim(sl[k as int]));
        if t.len() > 0 && t[0] == '[' {
            assert(t@.take(1) =~= seq!['[']);
            in_package = seq_eq(t.as_slice(), open.as_slice());
        } else {
            if t.len() > 0 {
                assert(t@.take(1)[0] != seq!['['][0]);
            }
            if in_package {
                match find_char(t.as_slice(), '=') {
                    None => {},
                    Some(e) => {
                        let lhs = trim_chars(slice_chars(t.as_slice(), 0, e).as_slice());
                        assert(t@.subrange(0, e as int) =~= t@.take(e as int));
                        let rhs = trim_chars(slice_chars(t.as_slice(), e + 1, t.len()).as_slice());
                        assert(t@.subrange(e + 1, t@.len() as int) =~= t@.skip(e + 1));
                        let value = trim_matches_chars(rhs.as_slice(), '"');
                        if seq_eq(lhs.as_slice(), key.as_slice()) && value.len() > 0 {
                            return Some(string_of(value.as_slice()));
                        }
                    },
                }
            }
        }
        k = k + 1;
    }
    None
}

/// The scope used when the paths name none: the manifest's package name,
/// else the name of the repository's folder.
pub open spec fn default_scope(repo_root: Option<Seq<char>>, manifest: Option<Seq<char>>) -> Option<Seq<char>> {
    match repo_root {
        None => None,
        Some(root) => {
            let named = match manifest {
                Some(m) => package_name(m),
                None => None,
            };
            match named {
                Some(n) => Some(n),
                None => file_name(root),
            }
        },
    }
}

/// The default scope of a repository, given the text of its `Cargo.toml`
/// when there is one.
pub fn repo_default_scope(repo_root: Option<&str>, manifest: Option<&str>) -> (r: Option<String>)
    ensures
        match default_scope(
            match repo_root {
                Some(x) => Some(x@),
                None => None,
            },
            match manifest {
                Some(m) => Some(m@),
                None => None,
            },
        ) {
            Some(n) => r is Some && r->0@ == n,
            None => r is None,
        },
{
    match repo_root {
        None => None,
        Some(root) => {
            let named = match manifest {
                Some(m) => cargo_package_name(m),
                None => None,
            };
            match named {
                Some(n) => Some(n),
                None => match file_name_chars(chars_of(root).as_slice()) {
                    Some(f) => Some(string_of(f.as_slice())),
                    None => None,
                },
            }
        },
    }
}

} // verus!

verus! {

// ---------------------------------------------------------------------------
// Scopes inferred from changed paths
// ---------------------------------------------------------------------------

/// Folder names too common to name a scope.
pub open spec fn is_generic_dir(c: Seq<char>) -> bool {
    ||| c == ".github"@
    ||| c == ".vscode"@
    ||| c == "benches"@
    ||| c == "docs"@
    ||| c == "examples"@
    ||| c == "src"@
    ||| c == "target"@
    ||| c == "test"@
    ||| c == "tests"@
    ||| c == "vendor"@
}

fn is_generic_scope_dir(c: &[char]) -> (b: bool)
    ensures
        b == is_generic_dir(c@),
{
    seq_eq(c, lit(".github").as_slice()) || seq_eq(c, lit(".vscode").as_slice()) || seq_eq(
        c,
        lit("benches").as_slice(),
    ) || seq_eq(c, lit("docs").as_slice()) || seq_eq(c, lit("examples").as_slice()) || seq_eq(
        c,
        lit("src").as_slice(),
    ) || seq_eq(c, lit("target").as_slice()) || seq_eq(c, lit("test").as_slice()) || seq_eq(
        c,
        lit("tests").as_slice(),
    ) || seq_eq(c, lit("vendor").as_slice())
}

/// The first generic folder at or after `from`.
pub open spec fn first_generic(comps: Seq<Seq<char>>, from: int) -> Option<int>
    decreases comps.len() - from,
{
    if from < 0 || from >= comps.len() {
        None
    } else if is_generic_dir(comps[from]) {
        Some(from)
    } else {
        first_generic(comps, from + 1)
    }
}

/// The first name in `from..to` that is not a generic folder.
pub open spec fn first_non_generic(comps: Seq<Seq<char>>, from: int, to: int) -> Option<int>
    decreases to - from,
{
    if from < 0 || from >= to || to > comps.len() {
        None
    } else if !is_generic_dir(comps[from]) {
        Some(from)
    } else {
        first_non_generic(comps, from + 1, to)
    }
}

/// The scope of one path, given its components: the name just before the
/// first generic folder; when the path starts with a generic folder, the
/// first folder after it that is not generic; else the first folder that is
/// not generic; else `default`. (A path that is a single generic name has no
/// answer: see `scope_defined`.)
pub open spec fn scope_of_components(comps: Seq<Seq<char>>, default: Option<Seq<char>>) -> Option<Seq<char>> {
    if comps.len() == 0 {
        default
    } else {
        match first_generic(comps, 0) {
            Some(m) => if m > 0 {
                Some(comps[m - 1])
            } else {
                match first_non_generic(comps, 1, comps.len() - 1) {
                    Some(j) => Some(comps[j]),
                    None => default,
                }
            },
            None => match first_non_generic(comps, 0, comps.len() - 1) {
                Some(j) => Some(comps[j]),
                None => default,
            },
        }
    }
}

/// The paths on which scope inference is defined: all but a path made of a
/// single generic folder name.
pub open spec fn scope_defined(path: Seq<char>) -> bool {
    !(components(path).len() == 1 && is_generic_dir(components(path)[0]))
}

/// Whether scope inference is defined on `path`; callers outside verified
/// code test this before asking for scopes.
pub fn scope_is_defined(path: &str) -> (r: bool)
    ensures
        r == scope_defined(path@),
{
    let comps = components_chars(chars_of(path).as_slice());
    proof {
        assert(comps@.len() == components(path@).len());
        if comps@.len() == 1 {
            assert(comps@[0]@ == components(path@)[0]);
        }
    }
    !(comps.len() == 1 && is_generic_scope_dir(comps[0].as_slice()))
}

/// The scope a changed path suggests.
pub open spec fn path_scope(default: Option<Seq<char>>, path: Seq<char>) -> Option<Seq<char>> {
    scope_of_components(components(path), default)
}

proof fn lemma_first_generic(comps: Seq<Seq<char>>, from: int)
    ensures
        match first_generic(comps, from) {
            Some(m) => from <= m < comps.len() && is_generic_dir(comps[m]) && forall|k: int|
                from <= k < m ==> !is_generic_dir(#[trigger] comps[k]),
            None => forall|k: int| 0 <= from <= k < comps.len() ==> !is_generic_dir(#[trigger] comps[k]),
        },
    decreases comps.len() - from,
{
    if 0 <= from < comps.len() && !is_generic_dir(comps[from]) {
        lemma_first_generic(comps, from + 1);
    }
}

proof fn lemma_first_non_generic(comps: Seq<Seq<char>>, from: int, to: int)
    ensures
        match first_non_generic(comps, from, to) {
            Some(j) => from <= j < to && to <= comps.len() && !is_generic_dir(comps[j]),
            None => true,
        },
    decreases to - from,
{
    if 0 <= from < to && to <= comps.len() && is_generic_dir(comps[from]) {
        lemma_first_non_generic(comps, from + 1, to);
    }
}

fn first_generic_index(comps: &Vec<Vec<char>>) -> (r: Option<usize>)
    ensures
        match first_generic(texts(comps@), 0) {
            Some(m) => r == Some(m as usize),
            None => r is None,
        },
{
    let n = comps.len();
    let ghost cs = texts(comps@);
    let mut i: usize = 0;
    while i < n
        invariant
            n == comps@.len(),
            cs == texts(comps@),
            0 <= i <= n,
            first_generic(cs, 0) == first_generic(cs, i as int),
        decreases n - i,
    {
        assert(comps@[i as int]@ == cs[i as int]);
        if is_generic_scope_dir(comps[i].as_slice()) {
            return Some(i);
        }
        i = i + 1;
    }
    None
}

fn first_non_generic_index(comps: &Vec<Vec<char>>, from: usize, to: usize) -> (r: Option<usize>)
    requires
        to <= comps@.len(),
    ensures
        match first_non_generic(texts(comps@), from as int, to as int) {
            Some(j) => r == Some(j as usize),
            None => r is None,
        },
{
    let ghost cs = texts(comps@);
    let mut i: usize = from;
    while i < to
        invariant
            to <= comps@.len(),
            cs == texts(comps@),
            from <= i,
            first_non_generic(cs, from as int, to as int) == first_non_generic(
                cs,
                i as int,
                to as int,
            ),
        decreases to - i,
    {
        assert(comps@[i as int]@ == cs[i as int]);
        if !is_generic_scope_dir(comps[i].as_slice()) {
            return Some(i);
        }
        i = i + 1;
    }
    None
}

fn copy_opt(v: &Option<Vec<char>>) -> (r: Option<Vec<char>>)
    ensures
        match v {
            Some(x) => r is Some && r->0@ == x@,
            None => r is None,
        },
{
    match v {
        Some(x) => Some(slice_chars(x.as_slice(), 0, x.len())),
        None => None,
    }
}

/// The scope one changed path suggests.
fn infer_scope_from_path(default: &Option<Vec<char>>, path: &[char]) -> (r: Option<Vec<char>>)
    requires
        scope_defined(path@),
    ensures
        match path_scope(
            match default {
                Some(d) => Some(d@),
                None => None,
            },
            path@,
        ) {
            Some(s) => r is Some && r->0@ == s,
            None => r is None,
        },
{
    let comps = components_chars(path);
    let ghost cs = texts(comps@);
    let n = comps.len();
    if n == 0 {
        return copy_opt(default);
    }
    proof {
        lemma_first_generic(cs, 0);
        lemma_first_non_generic(cs, 1, n - 1);
        lemma_first_non_generic(cs, 0, n - 1);
    }
    match first_generic_index(&comps) {
        Some(m) => {
            if m > 0 {
                assert(comps@[m - 1]@ == cs[m - 1]);
                return Some(slice_chars(comps[m - 1].as_slice(), 0, comps[m - 1].len()));
            }
            assert(n >= 2);
            match first_non_generic_index(&comps, 1, n - 1) {
                Some(j) => {
                    assert(comps@[j as int]@ == cs[j as int]);
                    Some(slice_chars(comps[j].as_slice(), 0, comps[j].len()))
                },
                None => copy_opt(default),
            }
        },
        None => match first_non_generic_index(&comps, 0, n - 1) {
            Some(j) => {
                assert(comps@[j as int]@ == cs[j as int]);
                Some(slice_chars(comps[j].as_slice(), 0, comps[j].len()))
            },
            None => copy_opt(default),
        },
    }
}

} // verus!

verus! {

/// The scopes the first `k` paths suggest, one per path that suggests one.
pub open spec fn found_scopes(default: Option<Seq<char>>, paths: Seq<Seq<char>>, k: int) -> Seq<Seq<char>>
    decreases k,
{
    if k <= 0 {
        Seq::empty()
    } else {
        let prev = found_scopes(default, paths, k - 1);
        match path_scope(default, paths[k - 1]) {
            Some(s) => prev.push(s),
            None => prev,
        }
    }
}

/// How often `x` occurs in `xs`.
pub open spec fn occurrences(xs: Seq<Seq<char>>, x: Seq<char>) -> nat
    decreases xs.len(),
{
    if xs.len() == 0 {
        0
    } else {
        occurrences(xs.drop_last(), x) + if xs.last() == x {
            1nat
        } else {
            0nat
        }
    }
}

/// `a` is ranked above `b`: suggested by more paths, or as often and first
/// in text order.
pub open spec fn ranks_before(found: Seq<Seq<char>>, a: Seq<char>, b: Seq<char>) -> bool {
    ||| occurrences(found, a) > occurrences(found, b)
    ||| occurrences(found, a) == occurrences(found, b) && lex_lt(a, b)
}

/// `r` lists each suggested scope once, best ranked first.
pub open spec fn ranked(found: Seq<Seq<char>>, r: Seq<Seq<char>>) -> bool {
    &&& forall|x: Seq<char>| #[trigger] r.contains(x) <==> found.contains(x)
    &&& forall|i: int, j: int| 0 <= i < j < r.len() ==> ranks_before(found, r[i], r[j])
}

/// The scopes inferred for a set of changed paths: ranked as above, or the
/// default scope alone when no path suggests any.
pub open spec fn inferred_scopes_ok(
    default: Option<Seq<char>>,
    paths: Seq<Seq<char>>,
    r: Seq<Seq<char>>,
) -> bool {
    let found = found_scopes(default, paths, paths.len() as int);
    if found.len() == 0 {
        r == match default {
            Some(d) => seq![d],
            None => Seq::<Seq<char>>::empty(),
        }
    } else {
        ranked(found, r)
    }
}

/// A path is scoped by the folder it sits in before its first generic
/// folder: when the first generic folder (`src`, `tests`, `docs`, ...) of a
/// path's components is at position `m > 0`, the scopes inferred for that
/// path alone are exactly the component just before it, e.g.
/// `crates/parser/src/lib.rs` gives `parser`.
pub proof fn law_a_path_is_scoped_by_the_name_before_its_first_generic_folder(
    default: Option<Seq<char>>,
    path: Seq<char>,
    m: int,
    r: Seq<Seq<char>>,
)
    requires
        0 < m < components(path).len(),
        is_generic_dir(components(path)[m]),
        forall|k: int| 0 <= k < m ==> !is_generic_dir(#[trigger] components(path)[k]),
        inferred_scopes_ok(default, seq![path], r),
    ensures
        r == seq![components(path)[m - 1]],
{
    let comps = components(path);
    let x = comps[m - 1];
    lemma_first_generic(comps, 0);
    match first_generic(comps, 0) {
        Some(g) => {
            if g < m {
                assert(!is_generic_dir(comps[g]));
            }
            if g > m {
                assert(!is_generic_dir(comps[m]));
            }
        },
        None => {
            assert(!is_generic_dir(comps[m]));
        },
    }
    assert(path_scope(default, path) == Some(x));
    let paths = seq![path];
    let found = found_scopes(default, paths, 1);
    assert(found_scopes(default, paths, 0) =~= Seq::<Seq<char>>::empty());
    assert(found =~= seq![x]);
    assert(found[0] == x);
    assert(found.contains(x));
    assert(r.contains(x));
    crate::text::lemma_lex_lt_irreflexive(x);
    if r.len() > 1 {
        assert(r.contains(r[0]));
        assert(r.contains(r[1]));
        assert(found.contains(r[0]));
        assert(found.contains(r[1]));
        assert(r[0] == x && r[1] == x);
        assert(ranks_before(found, r[0], r[1]));
    }
    let i = choose|i: int| 0 <= i < r.len() && r[i] == x;
    assert(r =~= seq![x]);
}

pub proof fn lemma_occurrences(xs: Seq<Seq<char>>, x: Seq<char>)
    ensures
        occurrences(xs, x) <= xs.len(),
        xs.contains(x) <==> occurrences(xs, x) > 0,
    decreases xs.len(),
{
    if xs.len() > 0 {
        lemma_occurrences(xs.drop_last(), x);
        if xs.drop_last().contains(x) {
            let i = choose|i: int| 0 <= i < xs.drop_last().len() && xs.drop_last()[i] == x;
            assert(xs[i] == x);
        }
        if xs.contains(x) && xs.last() != x {
            let i = choose|i: int| 0 <= i < xs.len() && xs[i] == x;
            assert(xs.drop_last()[i] == x);
        }
        if xs.last() == x {
            assert(xs[xs.len() - 1] == x);
        }
    }
}

proof fn lemma_ranks_total(found: Seq<Seq<char>>, a: Seq<char>, b: Seq<char>)
    requires
        a != b,
    ensures
        ranks_before(found, a, b) || ranks_before(found, b, a),
        !(ranks_before(found, a, b) && ranks_before(found, b, a)),
{
    lemma_lex_lt_total(a, b);
}

proof fn lemma_ranks_transitive(found: Seq<Seq<char>>, a: Seq<char>, b: Seq<char>, c: Seq<char>)
    requires
        ranks_before(found, a, b),
        ranks_before(found, b, c),
    ensures
        ranks_before(found, a, c),
{
    if occurrences(found, a) == occurrences(found, b) && occurrences(found, b) == occurrences(
        found,
        c,
    ) {
        lemma_lex_lt_transitive(a, b, c);
    }
}

/// Distinct scopes with how often each occurs in `found`.
fn tally(found: &Vec<Vec<char>>) -> (r: (Vec<Vec<char>>, Vec<usize>))
    ensures
        r.0@.len() == r.1@.len(),
        forall|x: Seq<char>| #[trigger] texts(r.0@).contains(x) <==> texts(found@).contains(x),
        forall|i: int, j: int| 0 <= i < j < r.0@.len() ==> texts(r.0@)[i] != texts(r.0@)[j],
        forall|i: int|
            0 <= i < r.0@.len() ==> #[trigger] r.1@[i] == occurrences(texts(found@), texts(r.0@)[i]),
{
    let ghost fs = texts(found@);
    let n = found.len();
    let mut names: Vec<Vec<char>> = Vec::new();
    let mut counts: Vec<usize> = Vec::new();
    let mut k: usize = 0;
    while k < n
        invariant
            n == found@.len(),
            fs == texts(found@),
            0 <= k <= n,
            names@.len() == counts@.len(),
            forall|x: Seq<char>| #[trigger] texts(names@).contains(x) <==> fs.take(k as int).contains(x),
            forall|i: int, j: int| 0 <= i < j < names@.len() ==> texts(names@)[i] != texts(names@)[j],
            forall|i: int|
                0 <= i < names@.len() ==> #[trigger] counts@[i] == occurrences(fs.take(k as int), texts(names@)[i]),
        decreases n - k,
    {
        let ghost pre = fs.take(k as int);
        let ghost post = fs.take(k + 1);
        assert(post.drop_last() =~= pre);
        assert(post.last() == fs[k as int]);
        assert(found@[k as int]@ == fs[k as int]);
        let ghost x = fs[k as int];
        let m = names.len();
        let mut j: usize = 0;
        while j < m
            invariant
                m == names@.len(),
                0 <= j <= m,
                k < found@.len(),
                found@[k as int]@ == x,
                forall|i: int| 0 <= i < j ==> texts(names@)[i] != x,
            ensures
                0 <= j <= m,
                j < m ==> texts(names@)[j as int] == x,
                forall|i: int| 0 <= i < j ==> texts(names@)[i] != x,
            decreases m - j,
        {
            if seq_eq(names[j].as_slice(), found[k].as_slice()) {
                break;
            }
            j = j + 1;
        }
        proof {
            lemma_occurrences(pre, x);
            assert forall|i: int| 0 <= i < names@.len() implies occurrences(post, texts(names@)[i]) == occurrences(pre, texts(names@)[i]) + if texts(names@)[i] == x { 1nat } else { 0nat } by {}
        }
        if j < m {
            assert(texts(names@)[j as int] == x);
            assert(counts@[j as int] == occurrences(pre, x));
            assert(texts(names@).contains(x));
            assert(pre.contains(x));
            proof {
                lemma_occurrences(pre, x);
            }
            assert(counts@[j as int] <= k);
            let c = counts[j];
            counts.set(j, c + 1);
            assert forall|y: Seq<char>| #[trigger] texts(names@).contains(y) <==> post.contains(y) by {
                if post.contains(y) && !pre.contains(y) {
                    let i = choose|i: int| 0 <= i < post.len() && post[i] == y;
                    if i < pre.len() {
                        assert(pre[i] == y);
                    }
                    assert(y == x);
                    assert(texts(names@)[j as int] == y);
                }
                if pre.contains(y) {
                    let i = choose|i: int| 0 <= i < pre.len() && pre[i] == y;
                    assert(post[i] == y);
                }
            }
        } else {
            assert(!texts(names@).contains(x)) by {
                if texts(names@).contains(x) {
                    let i = choose|i: int| 0 <= i < texts(names@).len() && texts(names@)[i] == x;
                    assert(texts(names@)[i] != x);
                }
            }
            assert(!pre.contains(x));
            proof {
                lemma_occurrences(pre, x);
            }
            let ghost before = names@;
            let copy = slice_chars(found[k].as_slice(), 0, found[k].len());
            assert(copy@ =~= x);
            names.push(copy);
            counts.push(1);
            assert(texts(names@) =~= texts(before).push(x));
            assert forall|y: Seq<char>| #[trigger] texts(names@).contains(y) <==> post.contains(y) by {
                if post.contains(y) {
                    let i = choose|i: int| 0 <= i < post.len() && post[i] == y;
                    if i < pre.len() {
                        assert(pre[i] == y);
                        assert(texts(before).contains(y));
                        let q = choose|q: int| 0 <= q < texts(before).len() && texts(before)[q] == y;
                        assert(texts(names@)[q] == y);
                    } else {
                        assert(texts(names@)[texts(before).len() as int] == y);
                    }
                }
                if texts(names@).contains(y) {
                    let q = choose|q: int| 0 <= q < texts(names@).len() && texts(names@)[q] == y;
                    if q < texts(before).len() {
                        assert(texts(before)[q] == y);
                        assert(texts(before).contains(y));
                        let i = choose|i: int| 0 <= i < pre.len() && pre[i] == y;
                        assert(post[i] == y);
                    } else {
                        assert(post[k as int] == y);
                    }
                }
            }
        }
        k = k + 1;
    }
    assert(fs.take(n as int) =~= fs);
    (names, counts)
}

} // verus!

verus! {

pub open spec fn sorted_by_rank(found: Seq<Seq<char>>, s: Seq<Seq<char>>) -> bool {
    forall|i: int, j: int| 0 <= i < j < s.len() ==> ranks_before(found, s[i], s[j])
}

proof fn lemma_insert_sorted(found: Seq<Seq<char>>, s: Seq<Seq<char>>, p: int, x: Seq<char>)
    requires
        0 <= p <= s.len(),
        sorted_by_rank(found, s),
        forall|a: int| 0 <= a < p ==> ranks_before(found, #[trigger] s[a], x),
        p < s.len() ==> ranks_before(found, x, s[p]),
    ensures
        sorted_by_rank(found, s.insert(p, x)),
{
    let t = s.insert(p, x);
    assert forall|i: int, j: int| 0 <= i < j < t.len() implies ranks_before(found, t[i], t[j]) by {
        if j < p {
            assert(t[i] == s[i] && t[j] == s[j]);
        } else if j == p {
            assert(t[i] == s[i] && t[j] == x);
        } else if i < p {
            assert(t[i] == s[i] && t[j] == s[j - 1]);
        } else if i == p {
            assert(t[i] == x && t[j] == s[j - 1]);
            if j - 1 > p {
                lemma_ranks_transitive(found, x, s[p], s[j - 1]);
            }
        } else {
            assert(t[i] == s[i - 1] && t[j] == s[j - 1]);
        }
    }
}

/// `names` (distinct, with how often each was found) in rank order.
fn rank_scopes(names: &Vec<Vec<char>>, counts: &Vec<usize>, Ghost(found): Ghost<Seq<Seq<char>>>) -> (r: Vec<Vec<char>>)
    requires
        names@.len() == counts@.len(),
        forall|i: int, j: int| 0 <= i < j < names@.len() ==> texts(names@)[i] != texts(names@)[j],
        forall|i: int|
            0 <= i < names@.len() ==> #[trigger] counts@[i] == occurrences(found, texts(names@)[i]),
    ensures
        forall|x: Seq<char>| #[trigger] texts(r@).contains(x) <==> texts(names@).contains(x),
        sorted_by_rank(found, texts(r@)),
{
    let ghost ns = texts(names@);
    let n = names.len();
    let mut out: Vec<Vec<char>> = Vec::new();
    let mut oc: Vec<usize> = Vec::new();
    let mut i: usize = 0;
    while i < n
        invariant
            n == names@.len(),
            n == counts@.len(),
            ns == texts(names@),
            forall|a: int, b: int| 0 <= a < b < n ==> ns[a] != ns[b],
            forall|a: int| 0 <= a < n ==> #[trigger] counts@[a] == occurrences(found, ns[a]),
            0 <= i <= n,
            out@.len() == oc@.len(),
            forall|a: int| 0 <= a < out@.len() ==> #[trigger] oc@[a] == occurrences(found, texts(out@)[a]),
            forall|x: Seq<char>| #[trigger] texts(out@).contains(x) <==> ns.take(i as int).contains(x),
            sorted_by_rank(found, texts(out@)),
        decreases n - i,
    {
        let ghost x = ns[i as int];
        assert(names@[i as int]@ == x);
        let ghost so = texts(out@);
        let m = out.len();
        let ci = counts[i];
        let mut p: usize = 0;
        while p < m && (oc[p] > ci || (oc[p] == ci && lex_less(out[p].as_slice(), names[i].as_slice())))
            invariant
                m == out@.len(),
                m == oc@.len(),
                so == texts(out@),
                i < n,
                n == names@.len(),
                names@[i as int]@ == x,
                ci == occurrences(found, x),
                forall|a: int| 0 <= a < m ==> #[trigger] oc@[a] == occurrences(found, so[a]),
                0 <= p <= m,
                forall|a: int| 0 <= a < p ==> ranks_before(found, #[trigger] so[a], x),
            decreases m - p,
        {
            assert(out@[p as int]@ == so[p as int]);
            p = p + 1;
        }
        proof {
            if p < m {
                assert(out@[p as int]@ == so[p as int]);
                assert(!ranks_before(found, so[p as int], x));
                assert(so[p as int] != x) by {
                    assert(so.contains(so[p as int]));
                    assert(ns.take(i as int).contains(so[p as int]));
                    let q = choose|q: int| 0 <= q < i && ns.take(i as int)[q] == so[p as int];
                    assert(ns[q] == so[p as int]);
                }
                lemma_ranks_total(found, x, so[p as int]);
            }
            lemma_insert_sorted(found, so, p as int, x);
        }
        let copy = slice_chars(names[i].as_slice(), 0, names[i].len());
        assert(copy@ =~= x);
        out.insert(p, copy);
        oc.insert(p, ci);
        assert(texts(out@) =~= so.insert(p as int, x));
        assert forall|y: Seq<char>| #[trigger] texts(out@).contains(y) <==> ns.take(i + 1).contains(y) by {
            let t = texts(out@);
            if t.contains(y) {
                let q = choose|q: int| 0 <= q < t.len() && t[q] == y;
                if q == p {
                    assert(ns.take(i + 1)[i as int] == y);
                } else {
                    let q2 = if q < p { q } else { q - 1 };
                    assert(so[q2] == y);
                    assert(so.contains(y));
                    let w = choose|w: int| 0 <= w < i && ns.take(i as int)[w] == y;
                    assert(ns.take(i + 1)[w] == y);
                }
            }
            let ni = ns.take(i + 1);
            if ni.contains(y) {
                let w = choose|w: int| 0 <= w < ni.len() && ni[w] == y;
                if w == i {
                    assert(t[p as int] == y);
                } else {
                    assert(ns.take(i as int)[w] == y);
                    assert(so.contains(y));
                    let q = choose|q: int| 0 <= q < so.len() && so[q] == y;
                    if q < p {
                        assert(t[q] == y);
                    } else {
                        assert(t[q + 1] == y);
                    }
                }
            }
        }
        i = i + 1;
    }
    assert(ns.take(n as int) =~= ns);
    out
}

/// The scopes the changed paths suggest, best first: a scope suggested by
/// more paths comes first, ties go in text order. When no path suggests one,
/// the repository's default scope, if it has one. `manifest` is the text of
/// the repository's `Cargo.toml`, when it has one.
pub fn infer_commit_scopes(repo_root: Option<&str>, manifest: Option<&str>, changed_paths: &[&str]) -> (r: Vec<String>)
    requires
        forall|i: int| 0 <= i < changed_paths@.len() ==> scope_defined(#[trigger] changed_paths@[i]@),
    ensures
        inferred_scopes_ok(
            default_scope(
                match repo_root {
                    Some(x) => Some(x@),
                    None => None,
                },
                match manifest {
                    Some(m) => Some(m@),
                    None => None,
                },
            ),
            str_texts(changed_paths@),
            strs(r@),
        ),
{
    let ghost default = default_scope(
        match repo_root {
            Some(x) => Some(x@),
            None => None,
        },
        match manifest {
            Some(m) => Some(m@),
            None => None,
        },
    );
    let ghost ps = str_texts(changed_paths@);
    let default_text: Option<Vec<char>> = match repo_default_scope(repo_root, manifest) {
        Some(d) => Some(chars_of(d.as_str())),
        None => None,
    };
    let n = changed_paths.len();
    let mut found: Vec<Vec<char>> = Vec::new();
    let mut k: usize = 0;
    assert(texts(found@) =~= found_scopes(default, ps, 0));
    while k < n
        invariant
            n == changed_paths@.len(),
            ps == str_texts(changed_paths@),
            forall|i: int| 0 <= i < changed_paths@.len() ==> scope_defined(#[trigger] changed_paths@[i]@),
            match default {
                Some(d) => default_text is Some && default_text->0@ == d,
                None => default_text is None,
            },
            0 <= k <= n,
            texts(found@) == found_scopes(default, ps, k as int),
        decreases n - k,
    {
        let path = chars_of(changed_paths[k]);
        assert(path@ == ps[k as int]);
        assert(scope_defined(changed_paths@[k as int]@));
        match infer_scope_from_path(&default_text, path.as_slice()) {
            Some(s) => {
                let ghost before = found@;
                found.push(s);
                assert(texts(found@) =~= texts(before).push(s@));
            },
            None => {},
        }
        k = k + 1;
    }
    let ghost fs = texts(found@);
    if found.len() == 0 {
        let mut r: Vec<String> = Vec::new();
        match default_text {
            Some(d) => r.push(string_of(d.as_slice())),
            None => {},
        }
        assert(strs(r@) =~= match default {
            Some(d) => seq![d],
            None => Seq::<Seq<char>>::empty(),
        });
        return r;
    }
    let (names, counts) = tally(&found);
    let ranked_names = rank_scopes(&names, &counts, Ghost(fs));
    let r = strings_of(&ranked_names);
    assert(strs(r@) == texts(ranked_names@));
    r
}

} // verus!

verus! {

// ---------------------------------------------------------------------------
// The rule sets at run time
// ---------------------------------------------------------------------------

/// The name a rule set is shown under.
pub open spec fn ruleset_name(ruleset: CommitMessageRuleSet) -> Seq<char> {
    match ruleset {
        CommitMessageRuleSet::Off => "Off"@,
        CommitMessageRuleSet::ConventionalCommits => "Conventional Commits"@,
    }
}

/// The explanation shown under a rule set's name.
pub open spec fn ruleset_description(ruleset: CommitMessageRuleSet) -> Option<Seq<char>> {
    match ruleset {
        CommitMessageRuleSet::Off => None,
        CommitMessageRuleSet::ConventionalCommits => Some(
            "Require the first line to look like `feat: add search` or `fix(parser): handle empty input`."@,
        ),
    }
}

/// The summary proposed for a repository's first commit.
pub open spec fn initial_summary(ruleset: CommitMessageRuleSet) -> Seq<char> {
    match ruleset {
        CommitMessageRuleSet::Off => "Initial commit"@,
        CommitMessageRuleSet::ConventionalCommits => "chore: initial commit"@,
    }
}

/// The rules of one rule set, as the commit panel uses them.
#[derive(Clone, Copy, Debug)]
pub struct ActiveRules {
    pub ruleset: CommitMessageRuleSet,
}

impl CommitMessageRuleSet {
    /// The rules this selection stands for.
    pub fn runtime(self) -> (r: ActiveRules)
        ensures
            r.ruleset == self,
    {
        ActiveRules { ruleset: self }
    }

    pub fn display_name(self) -> (r: &'static str)
        ensures
            r@ == ruleset_name(self),
    {
        self.runtime().display_name()
    }

    pub fn description(self) -> (r: Option<&'static str>)
        ensures
            match ruleset_description(self) {
                Some(d) => r is Some && r->0@ == d,
                None => r is None,
            },
    {
        self.runtime().description()
    }
}

impl CommitMessageRules for ActiveRules {
    fn display_name(&self) -> (r: &'static str)
        ensures
            r@ == ruleset_name(self.ruleset),
    {
        match self.ruleset {
            CommitMessageRuleSet::Off => "Off",
            CommitMessageRuleSet::ConventionalCommits => "Conventional Commits",
        }
    }

    fn description(&self) -> (r: Option<&'static str>)
        ensures
            match ruleset_description(self.ruleset) {
                Some(d) => r is Some && r->0@ == d,
                None => r is None,
            },
    {
        match self.ruleset {
            CommitMessageRuleSet::Off => None,
            CommitMessageRuleSet::ConventionalCommits => Some(
                "Require the first line to look like `feat: add search` or `fix(parser): handle empty input`.",
            ),
        }
    }

    fn default_initial_summary(&self) -> (r: &'static str)
        ensures
            r@ == initial_summary(self.ruleset),
    {
        match self.ruleset {
            CommitMessageRuleSet::Off => "Initial commit",
            CommitMessageRuleSet::ConventionalCommits => "chore: initial commit",
        }
    }

    fn validate(&self, message: &str) -> (r: Result<(), String>)
        ensures
            match validation(self.ruleset, message@) {
                Ok(()) => r is Ok,
                Err(e) => r is Err && r->Err_0@ == e,
            },
    {
        validate_for_submit(self.ruleset, message)
    }

    fn prefix_suggestions(
        &self,
        message: &str,
        inferred_scopes: &[String],
        custom_scopes: &[String],
    ) -> (r: Vec<String>)
        ensures
            strs(r@) == suggestions(
                self.ruleset,
                message@,
                strs(inferred_scopes@),
                strs(custom_scopes@),
            ),
    {
        prefix_suggestions(self.ruleset, message, inferred_scopes, custom_scopes)
    }

    fn apply_prefix(&self, message: &mut String, prefix: &str)
        ensures
            final(message)@ == prefix_applied(self.ruleset, old(message)@, prefix@),
    {
        apply_prefix(self.ruleset, message, prefix)
    }
}

/// The summary proposed for a repository's first commit.
pub fn default_initial_commit_summary(ruleset: CommitMessageRuleSet) -> (r: &'static str)
    ensures
        r@ == initial_summary(ruleset),
{
    ruleset.runtime().default_initial_summary()
}

} // verus!
