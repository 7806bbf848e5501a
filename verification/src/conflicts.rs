//! The merge editor's model: conflicted files split into common text and
//! conflicts, line-level alignment of the two sides, three-way merging, and
//! recomposing the file from the user's choices.

use vstd::prelude::*;

use crate::text::{
    chars_of, contains_seq, ends_with, has_infix, has_prefix, has_suffix, join, join_chars, lines, seq_eq, split_lines, starts_with,
    string_of, texts,
};

verus! {

/// The line terminator a conflicted file uses.
///
/// Every section text in this module is stored terminator-free (split with
/// `str::lines`, which also strips a trailing `\r`), so the file's own style has
/// to be carried alongside and put back by [`ConflictData::compose`].
#[derive(Clone, Copy, Debug, PartialEq, Eq, Structural)]
pub enum Eol {
    Lf,
    Crlf,
}

/// The characters of a terminator.
pub open spec fn eol_seq(eol: Eol) -> Seq<char> {
    match eol {
        Eol::Lf => seq!['\n'],
        Eol::Crlf => seq!['\r', '\n'],
    }
}

/// `s` with every `\r\n` replaced by `\n`, scanning left to right.
pub open spec fn crlf_to_lf(s: Seq<char>) -> Seq<char>
    decreases s.len(),
{
    if s.len() == 0 {
        s
    } else if s.len() >= 2 && s[0] == '\r' && s[1] == '\n' {
        seq!['\n'] + crlf_to_lf(s.skip(2))
    } else {
        seq![s[0]] + crlf_to_lf(s.drop_first())
    }
}

/// `s` with every `\n` replaced by `\r\n`.
pub open spec fn lf_to_crlf(s: Seq<char>) -> Seq<char>
    decreases s.len(),
{
    if s.len() == 0 {
        s
    } else if s[0] == '\n' {
        seq!['\r', '\n'] + lf_to_crlf(s.drop_first())
    } else {
        seq![s[0]] + lf_to_crlf(s.drop_first())
    }
}

/// What [`Eol::normalize`] makes of a text.
pub open spec fn normalized(eol: Eol, s: Seq<char>) -> Seq<char> {
    match eol {
        Eol::Lf => crlf_to_lf(s),
        Eol::Crlf => lf_to_crlf(crlf_to_lf(s)),
    }
}

fn lf_form(s: &[char]) -> (r: Vec<char>)
    ensures
        r@ == crlf_to_lf(s@),
{
    let mut out: Vec<char> = Vec::new();
    let mut i: usize = 0;
    assert(s@.skip(0) =~= s@);
    while i < s.len()
        invariant
            0 <= i <= s@.len(),
            out@ + crlf_to_lf(s@.skip(i as int)) == crlf_to_lf(s@),
        decreases s@.len() - i,
    {
        let ghost rest = s@.skip(i as int);
        if i + 1 < s.len() && s[i] == '\r' && s[i + 1] == '\n' {
            out.push('\n');
            assert(rest.skip(2) == s@.skip(i + 2));
            assert(out@ + crlf_to_lf(s@.skip(i + 2)) =~= crlf_to_lf(s@));
            i = i + 2;
        } else {
            out.push(s[i]);
            assert(rest.drop_first() == s@.skip(i + 1));
            assert(out@ + crlf_to_lf(s@.skip(i + 1)) =~= crlf_to_lf(s@));
            i = i + 1;
        }
    }
    assert(s@.skip(i as int).len() == 0);
    assert(out@ =~= crlf_to_lf(s@));
    out
}

fn crlf_form(s: &[char]) -> (r: Vec<char>)
    ensures
        r@ == lf_to_crlf(s@),
{
    let mut out: Vec<char> = Vec::new();
    let mut i: usize = 0;
    assert(s@.skip(0) =~= s@);
    while i < s.len()
        invariant
            0 <= i <= s@.len(),
            out@ + lf_to_crlf(s@.skip(i as int)) == lf_to_crlf(s@),
        decreases s@.len() - i,
    {
        let ghost rest = s@.skip(i as int);
        assert(rest.drop_first() == s@.skip(i + 1));
        if s[i] == '\n' {
            out.push('\r');
            out.push('\n');
        } else {
            out.push(s[i]);
        }
        assert(out@ + lf_to_crlf(s@.skip(i + 1)) =~= lf_to_crlf(s@));
        i = i + 1;
    }
    assert(s@.skip(i as int).len() == 0);
    assert(out@ =~= lf_to_crlf(s@));
    out
}

impl Eol {
    /// The terminator a text predominantly uses. One CRLF is taken as proof:
    /// mixed-ending files are rare, and matching the majority style beats
    /// silently normalising the whole file.
    pub fn detect(text: &str) -> (r: Eol)
        ensures
            r == (if has_infix(text@, seq!['\r', '\n']) {
                Eol::Crlf
            } else {
                Eol::Lf
            }),
    {
        let chars = chars_of(text);
        let mut crlf: Vec<char> = Vec::new();
        crlf.push('\r');
        crlf.push('\n');
        assert(crlf@ =~= seq!['\r', '\n']);
        if contains_seq(chars.as_slice(), crlf.as_slice()) {
            Eol::Crlf
        } else {
            Eol::Lf
        }
    }

    /// The terminator as characters.
    pub fn chars(self) -> (r: Vec<char>)
        ensures
            r@ == eol_seq(self),
    {
        let mut r: Vec<char> = Vec::new();
        match self {
            Eol::Lf => {
                r.push('\n');
            },
            Eol::Crlf => {
                r.push('\r');
                r.push('\n');
            },
        }
        assert(r@ =~= eol_seq(self));
        r
    }

    pub fn as_str(self) -> (r: &'static str)
        ensures
            r@ == eol_seq(self),
    {
        match self {
            Eol::Lf => {
                proof {
                    reveal_strlit("\n");
                }
                let r = "\n";
                assert(r@ =~= eol_seq(self));
                r
            },
            Eol::Crlf => {
                proof {
                    reveal_strlit("\r\n");
                }
                let r = "\r\n";
                assert(r@ =~= eol_seq(self));
                r
            },
        }
    }

    /// Rewrite every terminator in `text` to this one, whatever it used before.
    ///
    /// Text that reaches the model from outside — most of all a hand-typed
    /// resolution, since a multiline text box only ever inserts `\n` — has to be
    /// brought onto the file's own terminator before it is stored.
    pub fn normalize(self, text: &str) -> (r: String)
        ensures
            r@ == normalized(self, text@),
    {
        let chars = chars_of(text);
        let r = self.normalize_chars(chars.as_slice());
        string_of(r.as_slice())
    }

    pub fn normalize_chars(self, text: &[char]) -> (r: Vec<char>)
        ensures
            r@ == normalized(self, text@),
    {
        let lf = lf_form(text);
        match self {
            Eol::Lf => lf,
            Eol::Crlf => crlf_form(lf.as_slice()),
        }
    }
}

impl Default for Eol {
    fn default() -> (r: Eol)
        ensures
            r == Eol::Lf,
    {
        Eol::Lf
    }
}

/// How the source file was formatted, so a resolved write matches it rather
/// than imposing a house style on the user's repository.
#[derive(Clone, Copy, Debug, PartialEq, Eq, Structural)]
pub struct FileStyle {
    pub eol: Eol,
    /// Whether the file ended with a line terminator.
    pub trailing_newline: bool,
}

impl FileStyle {
    pub fn detect(text: &str) -> (r: FileStyle)
        ensures
            r.eol == (if has_infix(text@, seq!['\r', '\n']) {
                Eol::Crlf
            } else {
                Eol::Lf
            }),
            r.trailing_newline == has_suffix(text@, seq!['\n']),
    {
        let eol = Eol::detect(text);
        let chars = chars_of(text);
        let mut nl: Vec<char> = Vec::new();
        nl.push('\n');
        assert(nl@ =~= seq!['\n']);
        FileStyle { eol, trailing_newline: ends_with(chars.as_slice(), nl.as_slice()) }
    }
}

impl Default for FileStyle {
    /// Matches how text files are normally written, for the rare caller with no
    /// source text to inspect.
    fn default() -> (r: FileStyle)
        ensures
            r.eol == Eol::Lf,
            r.trailing_newline,
    {
        FileStyle { eol: Eol::Lf, trailing_newline: true }
    }
}

// ---------------------------------------------------------------------------
// Line alignment
// ---------------------------------------------------------------------------

/// Which side a merged line came from.
#[derive(Clone, Copy, Debug, PartialEq, Eq, Structural)]
pub enum SegmentOrigin {
    /// Present on both sides — always kept.
    Common,
    /// Unique to the current (ours) side.
    Ours,
    /// Unique to the incoming (theirs) side.
    Theirs,
}

/// One line of a conflict, tagged with the side it came from.
#[derive(Clone, Debug, PartialEq)]
pub struct MergeSegment {
    pub origin: SegmentOrigin,
    pub text: String,
}

/// Ceiling on the longest-common-subsequence table, in cells.
///
/// The table is inherently `O(lines_a * lines_b)`, so a large conflicted file
/// would otherwise ask for gigabytes; past this size callers degrade to a
/// coarser answer rather than trying.
pub const MAX_LCS_CELLS: u64 = 16777216;

/// Whether the table for `n` by `m` lines stays within [`MAX_LCS_CELLS`].
pub open spec fn table_fits(n: nat, m: nat) -> bool {
    (n + 1) * (m + 1) <= MAX_LCS_CELLS
}

/// Length of the longest common subsequence of `a[i..]` and `b[j..]`.
pub open spec fn lcs(a: Seq<Seq<char>>, b: Seq<Seq<char>>, i: int, j: int) -> nat
    decreases a.len() - i + b.len() - j,
    when 0 <= i <= a.len() && 0 <= j <= b.len()
{
    if i >= a.len() || j >= b.len() {
        0
    } else if a[i] == b[j] {
        1 + lcs(a, b, i + 1, j + 1)
    } else {
        let x = lcs(a, b, i + 1, j);
        let y = lcs(a, b, i, j + 1);
        if x >= y {
            x
        } else {
            y
        }
    }
}

pub proof fn lemma_lcs_bound(a: Seq<Seq<char>>, b: Seq<Seq<char>>, i: int, j: int)
    requires
        0 <= i <= a.len(),
        0 <= j <= b.len(),
    ensures
        lcs(a, b, i, j) <= a.len() - i,
    decreases a.len() - i + b.len() - j,
{
    if i < a.len() && j < b.len() {
        lemma_lcs_bound(a, b, i + 1, j + 1);
        lemma_lcs_bound(a, b, i + 1, j);
        lemma_lcs_bound(a, b, i, j + 1);
    }
}

/// Suffix-length table for the longest common subsequence of two line
/// slices, one row per suffix of `a`: `rows[t][j]` is the LCS length of
/// `a[n - t..]` and `b[j..]`.
struct LcsTable {
    rows: Vec<Vec<u32>>,
}

impl LcsTable {
    spec fn holds(&self, a: Seq<Seq<char>>, b: Seq<Seq<char>>) -> bool {
        &&& self.rows@.len() == a.len() + 1
        &&& forall|t: int|
            #![trigger self.rows@[t]]
            0 <= t <= a.len() ==> self.rows@[t]@.len() == b.len() + 1
        &&& forall|t: int, c: int|
            #![trigger self.rows@[t]@[c]]
            0 <= t <= a.len() && 0 <= c <= b.len() ==> self.rows@[t]@[c] == lcs(
                a,
                b,
                a.len() - t,
                c,
            )
    }

    /// `None` when the table would exceed [`MAX_LCS_CELLS`].
    fn build(a: &[Vec<char>], b: &[Vec<char>]) -> (r: Option<LcsTable>)
        ensures
            r is Some <==> table_fits(a@.len(), b@.len()),
            r matches Some(t) ==> t.holds(texts(a@), texts(b@)),
    {
        let n = a.len();
        let m = b.len();
        if n as u64 >= MAX_LCS_CELLS || m as u64 >= MAX_LCS_CELLS {
            assert((n + 1) * (m + 1) > MAX_LCS_CELLS) by (nonlinear_arith)
                requires
                    n >= MAX_LCS_CELLS || m >= MAX_LCS_CELLS,
            ;
            return None;
        }
        assert((n + 1) * (m + 1) <= 0x1000000000000) by (nonlinear_arith)
            requires
                n < MAX_LCS_CELLS,
                m < MAX_LCS_CELLS,
        ;
        let cells = (n as u64 + 1) * (m as u64 + 1);
        if cells > MAX_LCS_CELLS {
            return None;
        }
        let ghost sa = texts(a@);
        let ghost sb = texts(b@);
        let mut rows: Vec<Vec<u32>> = Vec::new();
        // The row for the empty suffix of `a`.
        let mut last: Vec<u32> = Vec::new();
        let mut c: usize = 0;
        while c <= m
            invariant
                m == b@.len(),
                n == a@.len(),
                m < MAX_LCS_CELLS,
                0 <= c <= m + 1,
                last@.len() == c,
                forall|k: int| 0 <= k < c ==> last@[k] == 0,
            decreases m + 1 - c,
        {
            last.push(0);
            c = c + 1;
        }
        assert forall|k: int| 0 <= k <= m implies last@[k] == lcs(sa, sb, n as int, k) by {}
        rows.push(last);
        let mut t: usize = 1;
        while t <= n
            invariant
                m == b@.len(),
                n == a@.len(),
                sa == texts(a@),
                sb == texts(b@),
                (n + 1) * (m + 1) <= MAX_LCS_CELLS,
                n < MAX_LCS_CELLS,
                m < MAX_LCS_CELLS,
                1 <= t <= n + 1,
                rows@.len() == t,
                forall|r: int| #![trigger rows@[r]] 0 <= r < t ==> rows@[r]@.len() == m + 1,
                forall|r: int, k: int|
                    #![trigger rows@[r]@[k]]
                    0 <= r < t && 0 <= k <= m ==> rows@[r]@[k] == lcs(sa, sb, n - r, k),
            decreases n + 1 - t,
        {
            let i = n - t;
            let below = &rows[t - 1];
            assert(below@.len() == m + 1);
            let mut row: Vec<u32> = Vec::new();
            let mut k: usize = 0;
            while k <= m
                invariant
                    m == b@.len(),
                    n == a@.len(),
                    m < MAX_LCS_CELLS,
                    0 <= k <= m + 1,
                    row@.len() == k,
                    forall|x: int| 0 <= x < k ==> row@[x] == 0,
                decreases m + 1 - k,
            {
                row.push(0);
                k = k + 1;
            }
            assert(row@[m as int] == lcs(sa, sb, i as int, m as int));
            let mut j: usize = m;
            while j > 0
                invariant
                    m == b@.len(),
                    n == a@.len(),
                    sa == texts(a@),
                    sb == texts(b@),
                    i < n,
                    (n + 1) * (m + 1) <= MAX_LCS_CELLS,
                    0 <= j <= m,
                    row@.len() == m + 1,
                    below@.len() == m + 1,
                    forall|k: int|
                        #![trigger below@[k]]
                        0 <= k <= m ==> below@[k] == lcs(sa, sb, i + 1, k),
                    forall|k: int|
                        #![trigger row@[k]]
                        j <= k <= m ==> row@[k] == lcs(sa, sb, i as int, k),
                decreases j,
            {
                j = j - 1;
                proof {
                    lemma_lcs_bound(sa, sb, i as int, j as int);
                    assert(n <= MAX_LCS_CELLS) by (nonlinear_arith)
                        requires
                            (n + 1) * (m + 1) <= MAX_LCS_CELLS,
                    ;
                }
                let value: u32 = if seq_eq(a[i].as_slice(), b[j].as_slice()) {
                    below[j + 1] + 1
                } else {
                    let x = below[j];
                    let y = row[j + 1];
                    if x >= y {
                        x
                    } else {
                        y
                    }
                };
                row.set(j, value);
            }
            rows.push(row);
            t = t + 1;
        }
        Some(LcsTable { rows })
    }

    /// Whether advancing on `a` keeps a subsequence at least as long as
    /// advancing on `b` would — the backtracking tie-break.
    fn prefer_a(&self, n: usize, m: usize, i: usize, j: usize) -> (r: bool)
        requires
            exists|a: Seq<Seq<char>>, b: Seq<Seq<char>>|
                a.len() == n && b.len() == m && #[trigger] self.holds(a, b),
            i < n,
            j < m,
        ensures
            forall|a: Seq<Seq<char>>, b: Seq<Seq<char>>|
                a.len() == n && b.len() == m && #[trigger] self.holds(a, b) ==> r == (lcs(
                    a,
                    b,
                    i + 1,
                    j as int,
                ) >= lcs(a, b, i as int, j + 1)),
    {
        let below = &self.rows[n - i - 1];
        let here = &self.rows[n - i];
        below[j] >= here[j + 1]
    }
}

/// The view of a merged line.
pub open spec fn seg_view(s: MergeSegment) -> (SegmentOrigin, Seq<char>) {
    (s.origin, s.text@)
}

pub open spec fn segs_view(v: Seq<MergeSegment>) -> Seq<(SegmentOrigin, Seq<char>)> {
    Seq::new(v.len(), |i: int| seg_view(v[i]))
}

/// The greedy walk of the LCS table from `(i, j)`: equal lines are common,
/// otherwise the side whose advance keeps the longer subsequence goes first,
/// ties going to `a`.
pub open spec fn merge_walk(a: Seq<Seq<char>>, b: Seq<Seq<char>>, i: int, j: int) -> Seq<
    (SegmentOrigin, Seq<char>),
>
    decreases a.len() - i + b.len() - j,
    when 0 <= i <= a.len() && 0 <= j <= b.len()
{
    if i >= a.len() && j >= b.len() {
        Seq::empty()
    } else if i < a.len() && j < b.len() && a[i] == b[j] {
        seq![(SegmentOrigin::Common, a[i])] + merge_walk(a, b, i + 1, j + 1)
    } else if j >= b.len() || (i < a.len() && lcs(a, b, i + 1, j) >= lcs(a, b, i, j + 1)) {
        seq![(SegmentOrigin::Ours, a[i])] + merge_walk(a, b, i + 1, j)
    } else {
        seq![(SegmentOrigin::Theirs, b[j])] + merge_walk(a, b, i, j + 1)
    }
}

/// Every line of `a` as an `Ours` segment, then every line of `b` as `Theirs`.
pub open spec fn sides_in_turn(a: Seq<Seq<char>>, b: Seq<Seq<char>>) -> Seq<
    (SegmentOrigin, Seq<char>),
> {
    Seq::new(a.len(), |i: int| (SegmentOrigin::Ours, a[i])) + Seq::new(
        b.len(),
        |i: int| (SegmentOrigin::Theirs, b[i]),
    )
}

/// The segments [`merge_segments`] produces for two sides' lines.
pub open spec fn merge_spec(a: Seq<Seq<char>>, b: Seq<Seq<char>>) -> Seq<
    (SegmentOrigin, Seq<char>),
> {
    if table_fits(a.len(), b.len()) {
        merge_walk(a, b, 0, 0)
    } else {
        sides_in_turn(a, b)
    }
}

fn segment(origin: SegmentOrigin, text: &[char]) -> (r: MergeSegment)
    ensures
        seg_view(r) == (origin, text@),
{
    MergeSegment { origin, text: string_of(text) }
}

/// Interleave two sides' lines into a single ordered line sequence via a
/// longest common subsequence, tagging each line as `Common`, `Ours`, or
/// `Theirs`.
pub fn merge_lines(a: &[Vec<char>], b: &[Vec<char>]) -> (r: Vec<MergeSegment>)
    ensures
        segs_view(r@) == merge_spec(texts(a@), texts(b@)),
{
    let n = a.len();
    let m = b.len();
    let ghost sa = texts(a@);
    let ghost sb = texts(b@);
    let mut out: Vec<MergeSegment> = Vec::new();
    match LcsTable::build(a, b) {
        None => {
            let mut i: usize = 0;
            while i < n
                invariant
                    n == a@.len(),
                    sa == texts(a@),
                    0 <= i <= n,
                    segs_view(out@) == Seq::new(i as nat, |k: int| (SegmentOrigin::Ours, sa[k])),
                decreases n - i,
            {
                let ghost before = out@;
                out.push(segment(SegmentOrigin::Ours, a[i].as_slice()));
                assert(segs_view(out@) =~= segs_view(before).push((SegmentOrigin::Ours, sa[i as int])));
                i = i + 1;
                assert(segs_view(out@) =~= Seq::new(
                    i as nat,
                    |k: int| (SegmentOrigin::Ours, sa[k]),
                ));
            }
            let mut j: usize = 0;
            while j < m
                invariant
                    n == a@.len(),
                    m == b@.len(),
                    sa == texts(a@),
                    sb == texts(b@),
                    0 <= j <= m,
                    segs_view(out@) == Seq::new(n as nat, |k: int| (SegmentOrigin::Ours, sa[k]))
                        + Seq::new(j as nat, |k: int| (SegmentOrigin::Theirs, sb[k])),
                decreases m - j,
            {
                let ghost before = out@;
                out.push(segment(SegmentOrigin::Theirs, b[j].as_slice()));
                assert(segs_view(out@) =~= segs_view(before).push((SegmentOrigin::Theirs, sb[j as int])));
                j = j + 1;
                assert(segs_view(out@) =~= Seq::new(
                    n as nat,
                    |k: int| (SegmentOrigin::Ours, sa[k]),
                ) + Seq::new(j as nat, |k: int| (SegmentOrigin::Theirs, sb[k])));
            }
            assert(segs_view(out@) =~= sides_in_turn(sa, sb));
            out
        },
        Some(table) => {
            let mut i: usize = 0;
            let mut j: usize = 0;
            while i < n || j < m
                invariant
                    n == a@.len(),
                    m == b@.len(),
                    sa == texts(a@),
                    sb == texts(b@),
                    table.holds(sa, sb),
                    0 <= i <= n,
                    0 <= j <= m,
                    segs_view(out@) + merge_walk(sa, sb, i as int, j as int) == merge_walk(
                        sa,
                        sb,
                        0,
                        0,
                    ),
                decreases n - i + m - j,
            {
                let ghost before = out@;
                if i < n && j < m && seq_eq(a[i].as_slice(), b[j].as_slice()) {
                    out.push(segment(SegmentOrigin::Common, a[i].as_slice()));
                    i = i + 1;
                    j = j + 1;
                } else if j >= m || (i < n && table.prefer_a(n, m, i, j)) {
                    out.push(segment(SegmentOrigin::Ours, a[i].as_slice()));
                    i = i + 1;
                } else {
                    out.push(segment(SegmentOrigin::Theirs, b[j].as_slice()));
                    j = j + 1;
                }
                assert(segs_view(out@) =~= segs_view(before).push(seg_view(out@.last())));
            }
            out
        },
    }
}

/// [`merge_lines`] on two texts, split with `str::lines`.
pub fn merge_segments(ours: &str, theirs: &str) -> (r: Vec<MergeSegment>)
    ensures
        segs_view(r@) == merge_spec(lines(ours@), lines(theirs@)),
{
    let a = split_lines(chars_of(ours).as_slice());
    let b = split_lines(chars_of(theirs).as_slice());
    merge_lines(a.as_slice(), b.as_slice())
}

} // verus!

verus! {

// ---------------------------------------------------------------------------
// Projection laws of the line alignment
// ---------------------------------------------------------------------------

/// The lines of a segment list that do not come from side `other`: with
/// `other == Theirs` this is what the ours side contributed, and vice versa.
pub open spec fn side_lines(segs: Seq<(SegmentOrigin, Seq<char>)>, other: SegmentOrigin) -> Seq<
    Seq<char>,
>
    decreases segs.len(),
{
    if segs.len() == 0 {
        Seq::empty()
    } else if segs[0].0 == other {
        side_lines(segs.drop_first(), other)
    } else {
        seq![segs[0].1] + side_lines(segs.drop_first(), other)
    }
}

proof fn lemma_side_lines_concat(
    x: Seq<(SegmentOrigin, Seq<char>)>,
    y: Seq<(SegmentOrigin, Seq<char>)>,
    other: SegmentOrigin,
)
    ensures
        side_lines(x + y, other) == side_lines(x, other) + side_lines(y, other),
    decreases x.len(),
{
    if x.len() == 0 {
        assert(x + y =~= y);
    } else {
        assert((x + y).drop_first() =~= x.drop_first() + y);
        lemma_side_lines_concat(x.drop_first(), y, other);
        assert(seq![x[0].1] + (side_lines(x.drop_first(), other) + side_lines(y, other))
            =~= (seq![x[0].1] + side_lines(x.drop_first(), other)) + side_lines(y, other));
    }
}

proof fn lemma_side_lines_uniform(s: Seq<Seq<char>>, origin: SegmentOrigin, other: SegmentOrigin)
    ensures
        side_lines(Seq::new(s.len(), |i: int| (origin, s[i])), other) == (if origin == other {
            Seq::<Seq<char>>::empty()
        } else {
            s
        }),
    decreases s.len(),
{
    let segs = Seq::new(s.len(), |i: int| (origin, s[i]));
    if s.len() > 0 {
        lemma_side_lines_uniform(s.drop_first(), origin, other);
        assert(segs.drop_first() =~= Seq::new(
            s.drop_first().len(),
            |i: int| (origin, s.drop_first()[i]),
        ));
        if origin != other {
            assert(seq![s[0]] + s.drop_first() =~= s);
        }
    }
}

proof fn lemma_merge_walk_sides(a: Seq<Seq<char>>, b: Seq<Seq<char>>, i: int, j: int)
    requires
        0 <= i <= a.len(),
        0 <= j <= b.len(),
    ensures
        side_lines(merge_walk(a, b, i, j), SegmentOrigin::Theirs) == a.skip(i),
        side_lines(merge_walk(a, b, i, j), SegmentOrigin::Ours) == b.skip(j),
    decreases a.len() - i + b.len() - j,
{
    let w = merge_walk(a, b, i, j);
    if i >= a.len() && j >= b.len() {
        assert(a.skip(i) =~= Seq::<Seq<char>>::empty());
        assert(b.skip(j) =~= Seq::<Seq<char>>::empty());
    } else if i < a.len() && j < b.len() && a[i] == b[j] {
        lemma_merge_walk_sides(a, b, i + 1, j + 1);
        assert(w.drop_first() =~= merge_walk(a, b, i + 1, j + 1));
        assert(seq![a[i]] + a.skip(i + 1) =~= a.skip(i));
        assert(seq![b[j]] + b.skip(j + 1) =~= b.skip(j));
    } else if j >= b.len() || (i < a.len() && lcs(a, b, i + 1, j) >= lcs(a, b, i, j + 1)) {
        lemma_merge_walk_sides(a, b, i + 1, j);
        assert(w.drop_first() =~= merge_walk(a, b, i + 1, j));
        assert(seq![a[i]] + a.skip(i + 1) =~= a.skip(i));
    } else {
        lemma_merge_walk_sides(a, b, i, j + 1);
        assert(w.drop_first() =~= merge_walk(a, b, i, j + 1));
        assert(seq![b[j]] + b.skip(j + 1) =~= b.skip(j));
    }
}

/// Keeping every line that is not `Theirs` gives back the ours side exactly,
/// and keeping every line that is not `Ours` gives back the theirs side: the
/// alignment reorders nothing and loses nothing, whether or not the table fit.
pub proof fn lemma_merge_segments_project(a: Seq<Seq<char>>, b: Seq<Seq<char>>)
    ensures
        side_lines(merge_spec(a, b), SegmentOrigin::Theirs) == a,
        side_lines(merge_spec(a, b), SegmentOrigin::Ours) == b,
{
    if table_fits(a.len(), b.len()) {
        lemma_merge_walk_sides(a, b, 0, 0);
        assert(a.skip(0) =~= a);
        assert(b.skip(0) =~= b);
    } else {
        let xs = Seq::new(a.len(), |i: int| (SegmentOrigin::Ours, a[i]));
        let ys = Seq::new(b.len(), |i: int| (SegmentOrigin::Theirs, b[i]));
        lemma_side_lines_concat(xs, ys, SegmentOrigin::Theirs);
        lemma_side_lines_concat(xs, ys, SegmentOrigin::Ours);
        lemma_side_lines_uniform(a, SegmentOrigin::Ours, SegmentOrigin::Theirs);
        lemma_side_lines_uniform(b, SegmentOrigin::Theirs, SegmentOrigin::Theirs);
        lemma_side_lines_uniform(a, SegmentOrigin::Ours, SegmentOrigin::Ours);
        lemma_side_lines_uniform(b, SegmentOrigin::Theirs, SegmentOrigin::Ours);
        assert(a + Seq::<Seq<char>>::empty() =~= a);
        assert(Seq::<Seq<char>>::empty() + b =~= b);
    }
}

} // verus!

verus! {

// ---------------------------------------------------------------------------
// Sections of a conflicted file
// ---------------------------------------------------------------------------

#[derive(Clone, Debug)]
pub enum ConflictPart {
    Common(String),
    Conflict { ours: String, theirs: String, resolution: ConflictChoice },
}

#[derive(Clone, Debug, PartialEq)]
pub enum ConflictChoice {
    Unresolved,
    Ours,
    Theirs,
    Both,
    /// A hand-typed resolution for this conflict (inline edit).
    Custom(String),
    /// Per-line selection: one flag per entry of [`merge_segments`], `true`
    /// meaning that line is kept in the result.
    Picked(Vec<bool>),
}

impl Default for ConflictChoice {
    fn default() -> (r: ConflictChoice)
        ensures
            r is Unresolved,
    {
        ConflictChoice::Unresolved
    }
}

impl ConflictChoice {
    /// Whether the user has settled this conflict (anything but `Unresolved`).
    pub fn is_resolved(&self) -> (r: bool)
        ensures
            r == !(self is Unresolved),
    {
        !matches!(self, ConflictChoice::Unresolved)
    }
}

/// The mathematical content of a [`ConflictChoice`].
pub enum ChoiceView {
    Unresolved,
    Ours,
    Theirs,
    Both,
    Custom(Seq<char>),
    Picked(Seq<bool>),
}

/// The mathematical content of a [`ConflictPart`].
pub enum PartView {
    Common(Seq<char>),
    Conflict(Seq<char>, Seq<char>, ChoiceView),
}

pub open spec fn choice_view(c: ConflictChoice) -> ChoiceView {
    match c {
        ConflictChoice::Unresolved => ChoiceView::Unresolved,
        ConflictChoice::Ours => ChoiceView::Ours,
        ConflictChoice::Theirs => ChoiceView::Theirs,
        ConflictChoice::Both => ChoiceView::Both,
        ConflictChoice::Custom(t) => ChoiceView::Custom(t@),
        ConflictChoice::Picked(m) => ChoiceView::Picked(m@),
    }
}

pub open spec fn part_view(p: ConflictPart) -> PartView {
    match p {
        ConflictPart::Common(t) => PartView::Common(t@),
        ConflictPart::Conflict { ours, theirs, resolution } => PartView::Conflict(
            ours@,
            theirs@,
            choice_view(resolution),
        ),
    }
}

pub open spec fn parts_view(v: Seq<ConflictPart>) -> Seq<PartView> {
    Seq::new(v.len(), |i: int| part_view(v[i]))
}

// ---------------------------------------------------------------------------
// Three-way merge
// ---------------------------------------------------------------------------

/// The matched index pairs of the greedy LCS walk from `(i, j)`.
pub open spec fn pairs_walk(a: Seq<Seq<char>>, b: Seq<Seq<char>>, i: int, j: int) -> Seq<
    (int, int),
>
    decreases a.len() - i + b.len() - j,
    when 0 <= i <= a.len() && 0 <= j <= b.len()
{
    if i >= a.len() || j >= b.len() {
        Seq::empty()
    } else if a[i] == b[j] {
        seq![(i, j)] + pairs_walk(a, b, i + 1, j + 1)
    } else if lcs(a, b, i + 1, j) >= lcs(a, b, i, j + 1) {
        pairs_walk(a, b, i + 1, j)
    } else {
        pairs_walk(a, b, i, j + 1)
    }
}

/// The pairs [`lcs_pairs`] reports: none at all when the table is oversized.
pub open spec fn pairs_spec(a: Seq<Seq<char>>, b: Seq<Seq<char>>) -> Seq<(int, int)> {
    if table_fits(a.len(), b.len()) {
        pairs_walk(a, b, 0, 0)
    } else {
        Seq::empty()
    }
}

/// Every pair of the walk from `(i, j)` matches equal lines, lies in bounds at
/// or after `(i, j)`, and the pairs rise strictly on both sides.
pub proof fn lemma_pairs_walk_shape(a: Seq<Seq<char>>, b: Seq<Seq<char>>, i: int, j: int)
    requires
        0 <= i <= a.len(),
        0 <= j <= b.len(),
    ensures
        forall|k: int|
            0 <= k < pairs_walk(a, b, i, j).len() ==> {
                let p = #[trigger] pairs_walk(a, b, i, j)[k];
                &&& i <= p.0 < a.len()
                &&& j <= p.1 < b.len()
                &&& a[p.0] == b[p.1]
            },
        forall|k: int, l: int|
            0 <= k < l < pairs_walk(a, b, i, j).len() ==> #[trigger] pairs_walk(a, b, i, j)[k].0
                < #[trigger] pairs_walk(a, b, i, j)[l].0 && pairs_walk(a, b, i, j)[k].1
                < pairs_walk(a, b, i, j)[l].1,
    decreases a.len() - i + b.len() - j,
{
    let w = pairs_walk(a, b, i, j);
    if i >= a.len() || j >= b.len() {
    } else if a[i] == b[j] {
        lemma_pairs_walk_shape(a, b, i + 1, j + 1);
        let r = pairs_walk(a, b, i + 1, j + 1);
        assert(w == seq![(i, j)] + r);
        assert forall|k: int| 0 <= k < w.len() implies {
            let p = #[trigger] w[k];
            &&& i <= p.0 < a.len()
            &&& j <= p.1 < b.len()
            &&& a[p.0] == b[p.1]
        } by {
            if k > 0 {
                assert(w[k] == r[k - 1]);
            }
        }
        assert forall|k: int, l: int| 0 <= k < l < w.len() implies #[trigger] w[k].0
            < #[trigger] w[l].0 && w[k].1 < w[l].1 by {
            assert(w[l] == r[l - 1]);
            if k > 0 {
                assert(w[k] == r[k - 1]);
            }
        }
    } else if lcs(a, b, i + 1, j) >= lcs(a, b, i, j + 1) {
        lemma_pairs_walk_shape(a, b, i + 1, j);
        assert(w == pairs_walk(a, b, i + 1, j));
    } else {
        lemma_pairs_walk_shape(a, b, i, j + 1);
        assert(w == pairs_walk(a, b, i, j + 1));
    }
}

pub proof fn lemma_pairs_spec_shape(a: Seq<Seq<char>>, b: Seq<Seq<char>>)
    ensures
        forall|k: int|
            0 <= k < pairs_spec(a, b).len() ==> {
                let p = #[trigger] pairs_spec(a, b)[k];
                &&& 0 <= p.0 < a.len()
                &&& 0 <= p.1 < b.len()
                &&& a[p.0] == b[p.1]
            },
        forall|k: int, l: int|
            0 <= k < l < pairs_spec(a, b).len() ==> #[trigger] pairs_spec(a, b)[k].0
                < #[trigger] pairs_spec(a, b)[l].0 && pairs_spec(a, b)[k].1 < pairs_spec(a, b)[l].1,
{
    lemma_pairs_walk_shape(a, b, 0, 0);
}

pub open spec fn pairs_view(v: Seq<(usize, usize)>) -> Seq<(int, int)> {
    Seq::new(v.len(), |k: int| (v[k].0 as int, v[k].1 as int))
}

/// The matched index pairs of a longest common subsequence between two line
/// slices, in increasing order on both sides. Empty when the table would be
/// oversized.
fn lcs_pairs(a: &[Vec<char>], b: &[Vec<char>]) -> (r: Vec<(usize, usize)>)
    ensures
        pairs_view(r@) == pairs_spec(texts(a@), texts(b@)),
{
    let n = a.len();
    let m = b.len();
    let ghost sa = texts(a@);
    let ghost sb = texts(b@);
    let mut pairs: Vec<(usize, usize)> = Vec::new();
    match LcsTable::build(a, b) {
        None => pairs,
        Some(table) => {
            let mut i: usize = 0;
            let mut j: usize = 0;
            while i < n && j < m
                invariant
                    n == a@.len(),
                    m == b@.len(),
                    sa == texts(a@),
                    sb == texts(b@),
                    table.holds(sa, sb),
                    0 <= i <= n,
                    0 <= j <= m,
                    pairs_view(pairs@) + pairs_walk(sa, sb, i as int, j as int) == pairs_walk(
                        sa,
                        sb,
                        0,
                        0,
                    ),
                decreases n - i + m - j,
            {
                if seq_eq(a[i].as_slice(), b[j].as_slice()) {
                    let ghost before = pairs@;
                    pairs.push((i, j));
                    assert(pairs_view(pairs@) =~= pairs_view(before).push((i as int, j as int)));
                    i = i + 1;
                    j = j + 1;
                } else if table.prefer_a(n, m, i, j) {
                    i = i + 1;
                } else {
                    j = j + 1;
                }
            }
            assert(pairs_walk(sa, sb, i as int, j as int) =~= Seq::<(int, int)>::empty());
            assert(pairs_view(pairs@) =~= pairs_walk(sa, sb, 0, 0));
            pairs
        },
    }
}

/// For each line of the first side, the index of the line of the second side
/// it was matched with, built by recording the pairs one after another.
pub open spec fn match_map(n: nat, pairs: Seq<(int, int)>) -> Seq<Option<int>>
    decreases pairs.len(),
{
    if pairs.len() == 0 {
        Seq::new(n, |k: int| None)
    } else {
        let rest = match_map(n, pairs.drop_last());
        let p = pairs.last();
        if 0 <= p.0 < rest.len() {
            rest.update(p.0, Some(p.1))
        } else {
            rest
        }
    }
}

pub proof fn lemma_match_map_len(n: nat, pairs: Seq<(int, int)>)
    ensures
        match_map(n, pairs).len() == n,
    decreases pairs.len(),
{
    if pairs.len() > 0 {
        lemma_match_map_len(n, pairs.drop_last());
    }
}

/// An entry of the map is always one of the recorded pairs.
pub proof fn lemma_match_map_from_pairs(n: nat, pairs: Seq<(int, int)>, k: int)
    requires
        0 <= k < n,
        match_map(n, pairs)[k] is Some,
    ensures
        exists|t: int| 0 <= t < pairs.len() && #[trigger] pairs[t] == (k, match_map(n, pairs)[k]->0),
    decreases pairs.len(),
{
    lemma_match_map_len(n, pairs.drop_last());
    if pairs.len() > 0 {
        let rest = match_map(n, pairs.drop_last());
        let p = pairs.last();
        if 0 <= p.0 < rest.len() && p.0 == k {
            assert(pairs[pairs.len() - 1] == (k, match_map(n, pairs)[k]->0));
        } else {
            lemma_match_map_from_pairs(n, pairs.drop_last(), k);
            let t = choose|t: int|
                0 <= t < pairs.drop_last().len() && #[trigger] pairs.drop_last()[t] == (
                    k,
                    rest[k]->0,
                );
            assert(pairs[t] == pairs.drop_last()[t]);
        }
    }
}

/// Each line both sides still carry, with its index on each side, in base
/// order: `(k, ak, bk)` for every `k < upto` matched on both sides.
pub open spec fn anchors_upto(in_a: Seq<Option<int>>, in_b: Seq<Option<int>>, upto: int) -> Seq<
    (int, int, int),
>
    decreases upto,
{
    if upto <= 0 {
        Seq::empty()
    } else {
        let rest = anchors_upto(in_a, in_b, upto - 1);
        let k = upto - 1;
        if in_a[k] is Some && in_b[k] is Some {
            rest.push((k, in_a[k]->0, in_b[k]->0))
        } else {
            rest
        }
    }
}

pub proof fn lemma_anchors_shape(in_a: Seq<Option<int>>, in_b: Seq<Option<int>>, upto: int)
    requires
        0 <= upto <= in_a.len(),
        upto <= in_b.len(),
    ensures
        forall|t: int|
            0 <= t < anchors_upto(in_a, in_b, upto).len() ==> {
                let x = #[trigger] anchors_upto(in_a, in_b, upto)[t];
                &&& 0 <= x.0 < upto
                &&& in_a[x.0] == Some(x.1)
                &&& in_b[x.0] == Some(x.2)
            },
    decreases upto,
{
    if upto > 0 {
        lemma_anchors_shape(in_a, in_b, upto - 1);
    }
}

/// The first anchor at or after `na` that lies at or beyond `(oi, ai, bi)` on
/// every side (or the end of the list).
pub open spec fn skip_anchors(anchors: Seq<(int, int, int)>, na: int, oi: int, ai: int, bi: int) -> int
    decreases anchors.len() - na,
    when 0 <= na <= anchors.len()
{
    if na < anchors.len() && (anchors[na].0 < oi || anchors[na].1 < ai || anchors[na].2 < bi) {
        skip_anchors(anchors, na + 1, oi, ai, bi)
    } else {
        na
    }
}

pub proof fn lemma_skip_anchors(anchors: Seq<(int, int, int)>, na: int, oi: int, ai: int, bi: int)
    requires
        0 <= na <= anchors.len(),
    ensures
        na <= skip_anchors(anchors, na, oi, ai, bi) <= anchors.len(),
        skip_anchors(anchors, na, oi, ai, bi) < anchors.len() ==> {
            let x = anchors[skip_anchors(anchors, na, oi, ai, bi)];
            x.0 >= oi && x.1 >= ai && x.2 >= bi
        },
    decreases anchors.len() - na,
{
    if na < anchors.len() && (anchors[na].0 < oi || anchors[na].1 < ai || anchors[na].2 < bi) {
        lemma_skip_anchors(anchors, na + 1, oi, ai, bi);
    }
}

/// The pending common lines as a section, if there are any.
pub open spec fn flush(common: Seq<Seq<char>>, sep: Seq<char>) -> Seq<PartView> {
    if common.len() == 0 {
        Seq::empty()
    } else {
        seq![PartView::Common(join(common, sep))]
    }
}

/// The sections the merge emits from the position `(oi, ai, bi)` on, with
/// `common` the lines collected since the last emitted section.
///
/// On a line all three sides still agree on, it is common context. Otherwise
/// the change region runs up to the next line common to all three; it is
/// resolved to theirs when ours left the base untouched there, to ours when
/// theirs did or both made the same edit, and is a conflict otherwise.
pub open spec fn d3_from(
    o: Seq<Seq<char>>,
    a: Seq<Seq<char>>,
    b: Seq<Seq<char>>,
    in_a: Seq<Option<int>>,
    in_b: Seq<Option<int>>,
    anchors: Seq<(int, int, int)>,
    sep: Seq<char>,
    oi: int,
    ai: int,
    bi: int,
    na: int,
    common: Seq<Seq<char>>,
) -> Seq<PartView>
    decreases o.len() - oi + a.len() - ai + b.len() - bi,
    when 0 <= oi <= o.len() && 0 <= ai <= a.len() && 0 <= bi <= b.len()
{
    if !(oi < o.len() || ai < a.len() || bi < b.len()) {
        flush(common, sep)
    } else if oi < o.len() && ai < a.len() && bi < b.len() && in_a[oi] == Some(ai) && in_b[oi]
        == Some(bi) {
        d3_from(o, a, b, in_a, in_b, anchors, sep, oi + 1, ai + 1, bi + 1, na, common.push(o[oi]))
    } else {
        let na2 = if 0 <= na <= anchors.len() {
            skip_anchors(anchors, na, oi, ai, bi)
        } else {
            anchors.len() as int
        };
        let end = if 0 <= na2 < anchors.len() {
            anchors[na2]
        } else {
            (o.len() as int, a.len() as int, b.len() as int)
        };
        let o2 = end.0;
        let a2 = end.1;
        let b2 = end.2;
        if !(oi <= o2 <= o.len() && ai <= a2 <= a.len() && bi <= b2 <= b.len()) || (o2 == oi && a2
            == ai && b2 == bi) {
            Seq::empty()
        } else {
            let os = o.subrange(oi, o2);
            let as_ = a.subrange(ai, a2);
            let bs = b.subrange(bi, b2);
            if as_ == os {
                d3_from(o, a, b, in_a, in_b, anchors, sep, o2, a2, b2, na2, common + bs)
            } else if bs == os || as_ == bs {
                d3_from(o, a, b, in_a, in_b, anchors, sep, o2, a2, b2, na2, common + as_)
            } else {
                flush(common, sep) + seq![
                    PartView::Conflict(join(as_, sep), join(bs, sep), ChoiceView::Unresolved),
                ] + d3_from(o, a, b, in_a, in_b, anchors, sep, o2, a2, b2, na2, Seq::empty())
            }
        }
    }
}

/// What [`diff3`] yields for the lines of base, ours and theirs.
pub open spec fn diff3_spec(o: Seq<Seq<char>>, a: Seq<Seq<char>>, b: Seq<Seq<char>>, sep: Seq<char>) -> Seq<
    PartView,
> {
    let in_a = match_map(o.len(), pairs_spec(o, a));
    let in_b = match_map(o.len(), pairs_spec(o, b));
    let anchors = anchors_upto(in_a, in_b, o.len() as int);
    d3_from(o, a, b, in_a, in_b, anchors, sep, 0, 0, 0, 0, Seq::empty())
}

pub open spec fn opts_view(v: Seq<Option<usize>>) -> Seq<Option<int>> {
    Seq::new(
        v.len(),
        |k: int|
            match v[k] {
                Some(x) => Some(x as int),
                None => None,
            },
    )
}

pub open spec fn anchors_view(v: Seq<(usize, usize, usize)>) -> Seq<(int, int, int)> {
    Seq::new(v.len(), |k: int| (v[k].0 as int, v[k].1 as int, v[k].2 as int))
}

fn match_vec(n: usize, pairs: &Vec<(usize, usize)>, m: usize) -> (r: Vec<Option<usize>>)
    requires
        forall|k: int|
            0 <= k < pairs@.len() ==> (#[trigger] pairs@[k]).0 < n && pairs@[k].1 < m,
    ensures
        opts_view(r@) == match_map(n as nat, pairs_view(pairs@)),
        forall|k: int| 0 <= k < r@.len() && (#[trigger] r@[k]) is Some ==> r@[k]->0 < m,
{
    let mut r: Vec<Option<usize>> = Vec::new();
    let mut k: usize = 0;
    while k < n
        invariant
            0 <= k <= n,
            r@.len() == k,
            forall|x: int| 0 <= x < k ==> r@[x] is None,
        decreases n - k,
    {
        r.push(None);
        k = k + 1;
    }
    assert(opts_view(r@) =~= match_map(n as nat, pairs_view(pairs@).take(0)));
    let mut t: usize = 0;
    while t < pairs.len()
        invariant
            0 <= t <= pairs@.len(),
            r@.len() == n,
            forall|k: int|
                0 <= k < pairs@.len() ==> (#[trigger] pairs@[k]).0 < n && pairs@[k].1 < m,
            opts_view(r@) == match_map(n as nat, pairs_view(pairs@).take(t as int)),
            forall|k: int| 0 <= k < r@.len() && (#[trigger] r@[k]) is Some ==> r@[k]->0 < m,
        decreases pairs@.len() - t,
    {
        let (x, y) = pairs[t];
        proof {
            lemma_match_map_len(n as nat, pairs_view(pairs@).take(t as int));
        }
        r.set(x, Some(y));
        assert(pairs_view(pairs@).take(t + 1).drop_last() =~= pairs_view(pairs@).take(t as int));
        t = t + 1;
        assert(opts_view(r@) =~= match_map(n as nat, pairs_view(pairs@).take(t as int)));
    }
    assert(pairs_view(pairs@).take(pairs@.len() as int) =~= pairs_view(pairs@));
    r
}

fn anchor_vec(in_a: &Vec<Option<usize>>, in_b: &Vec<Option<usize>>) -> (r: Vec<(usize, usize, usize)>)
    requires
        in_a@.len() == in_b@.len(),
    ensures
        anchors_view(r@) == anchors_upto(opts_view(in_a@), opts_view(in_b@), in_a@.len() as int),
{
    let mut r: Vec<(usize, usize, usize)> = Vec::new();
    let mut k: usize = 0;
    while k < in_a.len()
        invariant
            in_a@.len() == in_b@.len(),
            0 <= k <= in_a@.len(),
            anchors_view(r@) == anchors_upto(opts_view(in_a@), opts_view(in_b@), k as int),
        decreases in_a@.len() - k,
    {
        match (in_a[k], in_b[k]) {
            (Some(x), Some(y)) => {
                let ghost before = r@;
                r.push((k, x, y));
                assert(anchors_view(r@) =~= anchors_view(before).push(
                    (k as int, x as int, y as int),
                ));
            },
            _ => {},
        }
        k = k + 1;
    }
    r
}

/// Whether `x[xi..x2]` and `y[yi..y2]` hold the same lines.
fn same_lines(x: &[Vec<char>], xi: usize, x2: usize, y: &[Vec<char>], yi: usize, y2: usize) -> (r:
    bool)
    requires
        xi <= x2 <= x@.len(),
        yi <= y2 <= y@.len(),
    ensures
        r == (texts(x@).subrange(xi as int, x2 as int) == texts(y@).subrange(yi as int, y2 as int)),
{
    if x2 - xi != y2 - yi {
        assert(texts(x@).subrange(xi as int, x2 as int).len() != texts(y@).subrange(
            yi as int,
            y2 as int,
        ).len());
        return false;
    }
    let mut k: usize = 0;
    while k < x2 - xi
        invariant
            xi <= x2 <= x@.len(),
            yi <= y2 <= y@.len(),
            x2 - xi == y2 - yi,
            0 <= k <= x2 - xi,
            forall|t: int| 0 <= t < k ==> texts(x@).subrange(xi as int, x2 as int)[t] == #[trigger] texts(y@).subrange(yi as int, y2 as int)[t],
        decreases x2 - xi - k,
    {
        if !seq_eq(x[xi + k].as_slice(), y[yi + k].as_slice()) {
            assert(texts(x@).subrange(xi as int, x2 as int)[k as int] != texts(y@).subrange(
                yi as int,
                y2 as int,
            )[k as int]);
            return false;
        }
        k = k + 1;
    }
    assert(texts(x@).subrange(xi as int, x2 as int) =~= texts(y@).subrange(yi as int, y2 as int));
    true
}

/// Copies of `x[from..to]`.
fn copy_lines(x: &[Vec<char>], from: usize, to: usize) -> (r: Vec<Vec<char>>)
    requires
        from <= to <= x@.len(),
    ensures
        texts(r@) == texts(x@).subrange(from as int, to as int),
{
    let mut r: Vec<Vec<char>> = Vec::new();
    let mut k = from;
    while k < to
        invariant
            from <= k <= to <= x@.len(),
            texts(r@) == texts(x@).subrange(from as int, k as int),
        decreases to - k,
    {
        let ghost before = r@;
        let line = crate::text::slice_chars(x[k].as_slice(), 0, x[k].len());
        assert(line@ =~= x@[k as int]@);
        r.push(line);
        assert(texts(r@) =~= texts(before).push(x@[k as int]@));
        k = k + 1;
        assert(texts(r@) =~= texts(x@).subrange(from as int, k as int));
    }
    r
}

fn push_lines(dst: &mut Vec<Vec<char>>, x: &[Vec<char>], from: usize, to: usize)
    requires
        from <= to <= x@.len(),
    ensures
        texts(final(dst)@) == texts(old(dst)@) + texts(x@).subrange(from as int, to as int),
{
    let ghost start = texts(dst@);
    let mut k = from;
    while k < to
        invariant
            from <= k <= to <= x@.len(),
            texts(dst@) == start + texts(x@).subrange(from as int, k as int),
        decreases to - k,
    {
        let line = crate::text::slice_chars(x[k].as_slice(), 0, x[k].len());
        assert(line@ =~= x@[k as int]@);
        let ghost before = dst@;
        dst.push(line);
        assert(texts(dst@) =~= texts(before).push(x@[k as int]@));
        k = k + 1;
        assert(texts(dst@) =~= start + texts(x@).subrange(from as int, k as int));
    }
}

fn flush_common(parts: &mut Vec<ConflictPart>, common: &mut Vec<Vec<char>>, sep: &[char])
    ensures
        parts_view(final(parts)@) == parts_view(old(parts)@) + flush(texts(old(common)@), sep@),
        final(common)@.len() == 0,
{
    if common.len() > 0 {
        let text = join_chars(common, sep);
        let ghost before = parts@;
        parts.push(ConflictPart::Common(string_of(text.as_slice())));
        assert(parts_view(parts@) =~= parts_view(before) + flush(texts(old(common)@), sep@));
        common.clear();
    } else {
        assert(parts_view(parts@) =~= parts_view(old(parts)@) + flush(texts(old(common)@), sep@));
    }
}

/// Three-way merge of `ours` and `theirs` against their common ancestor
/// `base`, yielding the ordered section list for the merge editor.
///
/// Anchored on lines the base still shares with both sides, each change region
/// between anchors is resolved automatically when only one side touched it (or
/// both made the identical edit) and emitted as [`ConflictPart::Common`]; only
/// regions where the two sides diverge differently become
/// [`ConflictPart::Conflict`].
pub fn diff3(base: &str, ours: &str, theirs: &str, eol: Eol) -> (r: Vec<ConflictPart>)
    ensures
        parts_view(r@) == diff3_spec(lines(base@), lines(ours@), lines(theirs@), eol_seq(eol)),
{
    let sep = eol.chars();
    let o = split_lines(chars_of(base).as_slice());
    let a = split_lines(chars_of(ours).as_slice());
    let b = split_lines(chars_of(theirs).as_slice());
    diff3_lines(o.as_slice(), a.as_slice(), b.as_slice(), sep.as_slice())
}

pub fn diff3_lines(o: &[Vec<char>], a: &[Vec<char>], b: &[Vec<char>], sep: &[char]) -> (r: Vec<
    ConflictPart,
>)
    ensures
        parts_view(r@) == diff3_spec(texts(o@), texts(a@), texts(b@), sep@),
{
    let ghost so = texts(o@);
    let ghost sa = texts(a@);
    let ghost sb = texts(b@);
    let pa = lcs_pairs(o, a);
    let pb = lcs_pairs(o, b);
    proof {
        lemma_pairs_walk_shape(so, sa, 0, 0);
        lemma_pairs_walk_shape(so, sb, 0, 0);
        lemma_pairs_spec_shape(so, sa);
        lemma_pairs_spec_shape(so, sb);
        assert forall|k: int| 0 <= k < pa@.len() implies (#[trigger] pa@[k]).0 < o@.len()
            && pa@[k].1 < a@.len() by {
            assert(pairs_view(pa@)[k] == pairs_spec(so, sa)[k]);
        }
        assert forall|k: int| 0 <= k < pb@.len() implies (#[trigger] pb@[k]).0 < o@.len()
            && pb@[k].1 < b@.len() by {
            assert(pairs_view(pb@)[k] == pairs_spec(so, sb)[k]);
        }
    }
    let in_a = match_vec(o.len(), &pa, a.len());
    let in_b = match_vec(o.len(), &pb, b.len());
    proof {
        lemma_match_map_len(o@.len(), pairs_view(pa@));
        lemma_match_map_len(o@.len(), pairs_view(pb@));
        assert(opts_view(in_a@).len() == in_a@.len());
        assert(opts_view(in_b@).len() == in_b@.len());
    }
    let anchors = anchor_vec(&in_a, &in_b);
    let ghost ia = opts_view(in_a@);
    let ghost ib = opts_view(in_b@);
    let ghost an = anchors_view(anchors@);
    proof {
        lemma_match_map_len(o@.len(), pairs_view(pa@));
        lemma_anchors_shape(ia, ib, o@.len() as int);
    }
    let la = a.len();
    let lb = b.len();
    let lo = o.len();
    let ghost whole = d3_from(so, sa, sb, ia, ib, an, sep@, 0, 0, 0, 0, Seq::empty());
    let mut parts: Vec<ConflictPart> = Vec::new();
    let mut common: Vec<Vec<char>> = Vec::new();
    assert(texts(common@) =~= Seq::<Seq<char>>::empty());
    assert(parts_view(parts@) =~= Seq::<PartView>::empty());
    let mut oi: usize = 0;
    let mut ai: usize = 0;
    let mut bi: usize = 0;
    let mut na: usize = 0;
    while oi < o.len() || ai < a.len() || bi < b.len()
        invariant
            so == texts(o@),
            sa == texts(a@),
            sb == texts(b@),
            la == a@.len(),
            lb == b@.len(),
            lo == o@.len(),
            ia == opts_view(in_a@),
            ib == opts_view(in_b@),
            an == anchors_view(anchors@),
            in_a@.len() == o@.len(),
            in_b@.len() == o@.len(),
            forall|k: int| 0 <= k < in_a@.len() && (#[trigger] in_a@[k]) is Some ==> in_a@[k]->0
                < a@.len(),
            forall|k: int| 0 <= k < in_b@.len() && (#[trigger] in_b@[k]) is Some ==> in_b@[k]->0
                < b@.len(),
            forall|t: int|
                0 <= t < an.len() ==> {
                    let x = #[trigger] an[t];
                    &&& 0 <= x.0 < o@.len()
                    &&& ia[x.0] == Some(x.1)
                    &&& ib[x.0] == Some(x.2)
                },
            0 <= oi <= o@.len(),
            0 <= ai <= a@.len(),
            0 <= bi <= b@.len(),
            0 <= na <= anchors@.len(),
            parts_view(parts@) + d3_from(
                so,
                sa,
                sb,
                ia,
                ib,
                an,
                sep@,
                oi as int,
                ai as int,
                bi as int,
                na as int,
                texts(common@),
            ) == whole,
        decreases o@.len() - oi + a@.len() - ai + b@.len() - bi,
    {
        let mut matched = false;
        if oi < o.len() {
            match (in_a[oi], in_b[oi]) {
                (Some(x), Some(y)) => {
                    if x == ai && y == bi {
                        assert(ia[oi as int] == Some(ai as int));
                        assert(ib[oi as int] == Some(bi as int));
                        assert(x < a@.len());
                        assert(y < b@.len());
                        let line = crate::text::slice_chars(o[oi].as_slice(), 0, o[oi].len());
                        assert(line@ =~= so[oi as int]);
                        let ghost cbefore = common@;
                        common.push(line);
                        assert(texts(common@) =~= texts(cbefore).push(so[oi as int]));
                        oi = oi + 1;
                        ai = ai + 1;
                        bi = bi + 1;
                        matched = true;
                    }
                },
                _ => {},
            }
        }
        if !matched {
            assert(!(oi < o@.len() && ai < a@.len() && bi < b@.len() && ia[oi as int] == Some(
                ai as int,
            ) && ib[oi as int] == Some(bi as int)));
            let ghost na_start = na as int;
            while na < anchors.len() && (anchors[na].0 < oi || anchors[na].1 < ai || anchors[na].2
                < bi)
                invariant
                    an == anchors_view(anchors@),
                    an.len() == anchors@.len(),
                    0 <= na_start,
                    na_start <= na <= anchors@.len(),
                    skip_anchors(an, na as int, oi as int, ai as int, bi as int) == skip_anchors(
                        an,
                        na_start,
                        oi as int,
                        ai as int,
                        bi as int,
                    ),
                decreases anchors@.len() - na,
            {
                na = na + 1;
            }
            proof {
                lemma_skip_anchors(an, na_start, oi as int, ai as int, bi as int);
            }
            let (o2, a2, b2) = if na < anchors.len() {
                let (k, ak, bk) = anchors[na];
                assert(an[na as int] == (k as int, ak as int, bk as int));
                (k, ak, bk)
            } else {
                (o.len(), a.len(), b.len())
            };
            assert(ia[o2 as int] is Some ==> true);
            if na < anchors.len() {
                assert(o2 < o@.len());
                assert(in_a@[o2 as int] is Some);
                assert(in_b@[o2 as int] is Some);
            }
            assert(!(o2 == oi && a2 == ai && b2 == bi));
            let ghost os = so.subrange(oi as int, o2 as int);
            let ghost as_ = sa.subrange(ai as int, a2 as int);
            let ghost bs = sb.subrange(bi as int, b2 as int);
            if same_lines(a, ai, a2, o, oi, o2) {
                push_lines(&mut common, b, bi, b2);
            } else if same_lines(b, bi, b2, o, oi, o2) || same_lines(a, ai, a2, b, bi, b2) {
                push_lines(&mut common, a, ai, a2);
            } else {
                flush_common(&mut parts, &mut common, sep);
                let ours_lines = copy_lines(a, ai, a2);
                let theirs_lines = copy_lines(b, bi, b2);
                let ours_text = join_chars(&ours_lines, sep);
                let theirs_text = join_chars(&theirs_lines, sep);
                let ghost before = parts@;
                parts.push(
                    ConflictPart::Conflict {
                        ours: string_of(ours_text.as_slice()),
                        theirs: string_of(theirs_text.as_slice()),
                        resolution: ConflictChoice::Unresolved,
                    },
                );
                assert(parts_view(parts@) =~= parts_view(before).push(
                    PartView::Conflict(join(as_, sep@), join(bs, sep@), ChoiceView::Unresolved),
                ));
                assert(texts(common@) =~= Seq::<Seq<char>>::empty());
            }
            oi = o2;
            ai = a2;
            bi = b2;
        }
    }
    flush_common(&mut parts, &mut common, sep);
    parts
}

} // verus!

verus! {

// ---------------------------------------------------------------------------
// Laws of the three-way merge
// ---------------------------------------------------------------------------

/// The facts about the line matches and anchors that the merge laws rest on.
pub open spec fn d3_inputs_ok(
    o: Seq<Seq<char>>,
    a: Seq<Seq<char>>,
    b: Seq<Seq<char>>,
    in_a: Seq<Option<int>>,
    in_b: Seq<Option<int>>,
    anchors: Seq<(int, int, int)>,
) -> bool {
    &&& in_a.len() == o.len()
    &&& in_b.len() == o.len()
    &&& forall|k: int|
        0 <= k < o.len() && (#[trigger] in_a[k]) is Some ==> 0 <= in_a[k]->0 < a.len() && o[k]
            == a[in_a[k]->0]
    &&& forall|k: int|
        0 <= k < o.len() && (#[trigger] in_b[k]) is Some ==> 0 <= in_b[k]->0 < b.len() && o[k]
            == b[in_b[k]->0]
    &&& forall|t: int|
        0 <= t < anchors.len() ==> {
            let x = #[trigger] anchors[t];
            &&& 0 <= x.0 < o.len()
            &&& in_a[x.0] == Some(x.1)
            &&& in_b[x.0] == Some(x.2)
        }
}

proof fn lemma_match_map_ok(o: Seq<Seq<char>>, a: Seq<Seq<char>>)
    ensures
        match_map(o.len(), pairs_spec(o, a)).len() == o.len(),
        forall|k: int|
            0 <= k < o.len() && (#[trigger] match_map(o.len(), pairs_spec(o, a))[k]) is Some ==> {
                let x = match_map(o.len(), pairs_spec(o, a))[k]->0;
                &&& 0 <= x < a.len()
                &&& o[k] == a[x]
                &&& exists|t: int|
                    0 <= t < pairs_spec(o, a).len() && #[trigger] pairs_spec(o, a)[t] == (k, x)
            },
{
    let m = match_map(o.len(), pairs_spec(o, a));
    lemma_match_map_len(o.len(), pairs_spec(o, a));
    lemma_pairs_spec_shape(o, a);
    assert forall|k: int| 0 <= k < o.len() && (#[trigger] m[k]) is Some implies {
        let x = m[k]->0;
        &&& 0 <= x < a.len()
        &&& o[k] == a[x]
        &&& exists|t: int| 0 <= t < pairs_spec(o, a).len() && #[trigger] pairs_spec(o, a)[t] == (k, x)
    } by {
        lemma_match_map_from_pairs(o.len(), pairs_spec(o, a), k);
        let t = choose|t: int|
            0 <= t < pairs_spec(o, a).len() && #[trigger] pairs_spec(o, a)[t] == (k, m[k]->0);
        assert(pairs_spec(o, a)[t] == (k, m[k]->0));
    }
}

proof fn lemma_d3_inputs(o: Seq<Seq<char>>, a: Seq<Seq<char>>, b: Seq<Seq<char>>)
    ensures
        d3_inputs_ok(
            o,
            a,
            b,
            match_map(o.len(), pairs_spec(o, a)),
            match_map(o.len(), pairs_spec(o, b)),
            anchors_upto(
                match_map(o.len(), pairs_spec(o, a)),
                match_map(o.len(), pairs_spec(o, b)),
                o.len() as int,
            ),
        ),
{
    lemma_match_map_ok(o, a);
    lemma_match_map_ok(o, b);
    lemma_anchors_shape(
        match_map(o.len(), pairs_spec(o, a)),
        match_map(o.len(), pairs_spec(o, b)),
        o.len() as int,
    );
}

/// Matching a side against itself only ever pairs a line with itself.
proof fn lemma_pairs_walk_diagonal(x: Seq<Seq<char>>, i: int)
    requires
        0 <= i <= x.len(),
    ensures
        forall|t: int|
            0 <= t < pairs_walk(x, x, i, i).len() ==> (#[trigger] pairs_walk(x, x, i, i)[t]).0
                == pairs_walk(x, x, i, i)[t].1,
    decreases x.len() - i,
{
    if i < x.len() {
        lemma_pairs_walk_diagonal(x, i + 1);
        let w = pairs_walk(x, x, i, i);
        let r = pairs_walk(x, x, i + 1, i + 1);
        assert(w == seq![(i, i)] + r);
        assert forall|t: int| 0 <= t < w.len() implies (#[trigger] w[t]).0 == w[t].1 by {
            if t > 0 {
                assert(w[t] == r[t - 1]);
            }
        }
    }
}

proof fn lemma_self_matches_diagonal(o: Seq<Seq<char>>)
    ensures
        forall|k: int|
            0 <= k < o.len() && (#[trigger] match_map(o.len(), pairs_spec(o, o))[k]) is Some
                ==> match_map(o.len(), pairs_spec(o, o))[k]->0 == k,
{
    lemma_match_map_ok(o, o);
    lemma_pairs_walk_diagonal(o, 0);
    let m = match_map(o.len(), pairs_spec(o, o));
    assert forall|k: int| 0 <= k < o.len() && (#[trigger] m[k]) is Some implies m[k]->0 == k by {
        let t = choose|t: int|
            0 <= t < pairs_spec(o, o).len() && #[trigger] pairs_spec(o, o)[t] == (k, m[k]->0);
        if table_fits(o.len(), o.len()) {
            assert(pairs_spec(o, o)[t] == pairs_walk(o, o, 0, 0)[t]);
        }
    }
}

proof fn lemma_d3_one_side_untouched(
    o: Seq<Seq<char>>,
    a: Seq<Seq<char>>,
    b: Seq<Seq<char>>,
    in_a: Seq<Option<int>>,
    in_b: Seq<Option<int>>,
    anchors: Seq<(int, int, int)>,
    sep: Seq<char>,
    oi: int,
    bi: int,
    na: int,
    common: Seq<Seq<char>>,
)
    requires
        d3_inputs_ok(o, a, b, in_a, in_b, anchors),
        a == o,
        forall|k: int| 0 <= k < o.len() && (#[trigger] in_a[k]) is Some ==> in_a[k]->0 == k,
        0 <= oi <= o.len(),
        0 <= bi <= b.len(),
        0 <= na <= anchors.len(),
        common == b.take(bi),
    ensures
        d3_from(o, a, b, in_a, in_b, anchors, sep, oi, oi, bi, na, common) == flush(b, sep),
    decreases o.len() - oi + a.len() - oi + b.len() - bi,
{
    if !(oi < o.len() || oi < a.len() || bi < b.len()) {
        assert(b.take(bi) =~= b);
    } else if oi < o.len() && oi < a.len() && bi < b.len() && in_a[oi] == Some(oi) && in_b[oi]
        == Some(bi) {
        assert(common.push(o[oi]) =~= b.take(bi + 1));
        lemma_d3_one_side_untouched(o, a, b, in_a, in_b, anchors, sep, oi + 1, bi + 1, na, common.push(o[oi]));
    } else {
        let na2 = skip_anchors(anchors, na, oi, oi, bi);
        lemma_skip_anchors(anchors, na, oi, oi, bi);
        let end = if 0 <= na2 < anchors.len() {
            anchors[na2]
        } else {
            (o.len() as int, a.len() as int, b.len() as int)
        };
        if 0 <= na2 < anchors.len() {
            assert(in_a[end.0] == Some(end.1));
            assert(end.1 == end.0);
        }
        let o2 = end.0;
        let b2 = end.2;
        assert(oi <= o2 <= o.len() && oi <= o2 <= a.len() && bi <= b2 <= b.len());
        assert(!(o2 == oi && b2 == bi));
        assert(a.subrange(oi, o2) == o.subrange(oi, o2));
        assert(common + b.subrange(bi, b2) =~= b.take(b2));
        lemma_d3_one_side_untouched(o, a, b, in_a, in_b, anchors, sep, o2, b2, na2, common + b.subrange(bi, b2));
    }
}

proof fn lemma_d3_other_side_untouched(
    o: Seq<Seq<char>>,
    a: Seq<Seq<char>>,
    b: Seq<Seq<char>>,
    in_a: Seq<Option<int>>,
    in_b: Seq<Option<int>>,
    anchors: Seq<(int, int, int)>,
    sep: Seq<char>,
    oi: int,
    ai: int,
    na: int,
    common: Seq<Seq<char>>,
)
    requires
        d3_inputs_ok(o, a, b, in_a, in_b, anchors),
        b == o,
        forall|k: int| 0 <= k < o.len() && (#[trigger] in_b[k]) is Some ==> in_b[k]->0 == k,
        0 <= oi <= o.len(),
        0 <= ai <= a.len(),
        0 <= na <= anchors.len(),
        common == a.take(ai),
    ensures
        d3_from(o, a, b, in_a, in_b, anchors, sep, oi, ai, oi, na, common) == flush(a, sep),
    decreases o.len() - oi + a.len() - ai + b.len() - oi,
{
    if !(oi < o.len() || ai < a.len() || oi < b.len()) {
        assert(a.take(ai) =~= a);
    } else if oi < o.len() && ai < a.len() && oi < b.len() && in_a[oi] == Some(ai) && in_b[oi]
        == Some(oi) {
        assert(common.push(o[oi]) =~= a.take(ai + 1));
        lemma_d3_other_side_untouched(o, a, b, in_a, in_b, anchors, sep, oi + 1, ai + 1, na, common.push(o[oi]));
    } else {
        let na2 = skip_anchors(anchors, na, oi, ai, oi);
        lemma_skip_anchors(anchors, na, oi, ai, oi);
        let end = if 0 <= na2 < anchors.len() {
            anchors[na2]
        } else {
            (o.len() as int, a.len() as int, b.len() as int)
        };
        if 0 <= na2 < anchors.len() {
            assert(in_b[end.0] == Some(end.2));
            assert(end.2 == end.0);
        }
        let o2 = end.0;
        let a2 = end.1;
        assert(oi <= o2 <= o.len() && ai <= a2 <= a.len() && oi <= o2 <= b.len());
        assert(!(o2 == oi && a2 == ai));
        assert(b.subrange(oi, o2) == o.subrange(oi, o2));
        assert(common + a.subrange(ai, a2) =~= a.take(a2));
        if a.subrange(ai, a2) == o.subrange(oi, o2) {
            assert(b.subrange(oi, o2) == a.subrange(ai, a2));
        }
        lemma_d3_other_side_untouched(o, a, b, in_a, in_b, anchors, sep, o2, a2, na2, common + a.subrange(ai, a2));
    }
}

proof fn lemma_d3_same_edit(
    o: Seq<Seq<char>>,
    a: Seq<Seq<char>>,
    b: Seq<Seq<char>>,
    in_a: Seq<Option<int>>,
    in_b: Seq<Option<int>>,
    anchors: Seq<(int, int, int)>,
    sep: Seq<char>,
    oi: int,
    ai: int,
    na: int,
    common: Seq<Seq<char>>,
)
    requires
        d3_inputs_ok(o, a, b, in_a, in_b, anchors),
        a == b,
        in_a == in_b,
        0 <= oi <= o.len(),
        0 <= ai <= a.len(),
        0 <= na <= anchors.len(),
        common == a.take(ai),
    ensures
        d3_from(o, a, b, in_a, in_b, anchors, sep, oi, ai, ai, na, common) == flush(a, sep),
    decreases o.len() - oi + a.len() - ai + b.len() - ai,
{
    if !(oi < o.len() || ai < a.len() || ai < b.len()) {
        assert(a.take(ai) =~= a);
    } else if oi < o.len() && ai < a.len() && ai < b.len() && in_a[oi] == Some(ai) && in_b[oi]
        == Some(ai) {
        assert(common.push(o[oi]) =~= a.take(ai + 1));
        lemma_d3_same_edit(o, a, b, in_a, in_b, anchors, sep, oi + 1, ai + 1, na, common.push(o[oi]));
    } else {
        let na2 = skip_anchors(anchors, na, oi, ai, ai);
        lemma_skip_anchors(anchors, na, oi, ai, ai);
        let end = if 0 <= na2 < anchors.len() {
            anchors[na2]
        } else {
            (o.len() as int, a.len() as int, b.len() as int)
        };
        if 0 <= na2 < anchors.len() {
            assert(in_a[end.0] == Some(end.1));
            assert(in_b[end.0] == Some(end.2));
        }
        let o2 = end.0;
        let a2 = end.1;
        assert(end.2 == a2);
        assert(oi <= o2 <= o.len() && ai <= a2 <= a.len());
        assert(!(o2 == oi && a2 == ai));
        assert(common + a.subrange(ai, a2) =~= a.take(a2));
        lemma_d3_same_edit(o, a, b, in_a, in_b, anchors, sep, o2, a2, na2, common + a.subrange(ai, a2));
    }
}

/// A side that left the base untouched never causes a conflict: the merge is
/// the other side's text, as one common section.
pub proof fn lemma_diff3_takes_theirs_when_ours_is_base(
    o: Seq<Seq<char>>,
    b: Seq<Seq<char>>,
    sep: Seq<char>,
)
    ensures
        diff3_spec(o, o, b, sep) == flush(b, sep),
{
    lemma_d3_inputs(o, o, b);
    lemma_self_matches_diagonal(o);
    assert(b.take(0) =~= Seq::<Seq<char>>::empty());
    lemma_d3_one_side_untouched(
        o,
        o,
        b,
        match_map(o.len(), pairs_spec(o, o)),
        match_map(o.len(), pairs_spec(o, b)),
        anchors_upto(
            match_map(o.len(), pairs_spec(o, o)),
            match_map(o.len(), pairs_spec(o, b)),
            o.len() as int,
        ),
        sep,
        0,
        0,
        0,
        Seq::empty(),
    );
}

/// Symmetric: when theirs left the base untouched, ours is the merge.
pub proof fn lemma_diff3_takes_ours_when_theirs_is_base(
    o: Seq<Seq<char>>,
    a: Seq<Seq<char>>,
    sep: Seq<char>,
)
    ensures
        diff3_spec(o, a, o, sep) == flush(a, sep),
{
    lemma_d3_inputs(o, a, o);
    lemma_self_matches_diagonal(o);
    assert(a.take(0) =~= Seq::<Seq<char>>::empty());
    lemma_d3_other_side_untouched(
        o,
        a,
        o,
        match_map(o.len(), pairs_spec(o, a)),
        match_map(o.len(), pairs_spec(o, o)),
        anchors_upto(
            match_map(o.len(), pairs_spec(o, a)),
            match_map(o.len(), pairs_spec(o, o)),
            o.len() as int,
        ),
        sep,
        0,
        0,
        0,
        Seq::empty(),
    );
}

/// Both sides making the identical edit is no conflict: the merge is that
/// edit.
pub proof fn lemma_diff3_identical_edits_agree(o: Seq<Seq<char>>, a: Seq<Seq<char>>, sep: Seq<char>)
    ensures
        diff3_spec(o, a, a, sep) == flush(a, sep),
{
    lemma_d3_inputs(o, a, a);
    assert(a.take(0) =~= Seq::<Seq<char>>::empty());
    lemma_d3_same_edit(
        o,
        a,
        a,
        match_map(o.len(), pairs_spec(o, a)),
        match_map(o.len(), pairs_spec(o, a)),
        anchors_upto(
            match_map(o.len(), pairs_spec(o, a)),
            match_map(o.len(), pairs_spec(o, a)),
            o.len() as int,
        ),
        sep,
        0,
        0,
        0,
        Seq::empty(),
    );
}

} // verus!

verus! {

// ---------------------------------------------------------------------------
// Resolutions and recomposition
// ---------------------------------------------------------------------------

/// The keep/drop mask a conflict's resolution implies over its segments:
/// `Common` lines are always kept; `Picked` gives its stored mask when the
/// length still matches, and the other choices map to their obvious masks.
pub open spec fn mask_spec(segs: Seq<(SegmentOrigin, Seq<char>)>, res: ChoiceView) -> Seq<bool> {
    if res is Picked && res->Picked_0.len() == segs.len() {
        res->Picked_0
    } else {
        Seq::new(
            segs.len(),
            |i: int|
                match segs[i].0 {
                    SegmentOrigin::Common => true,
                    SegmentOrigin::Ours => res is Ours || res is Both,
                    SegmentOrigin::Theirs => res is Theirs || res is Both,
                },
        )
    }
}

fn mask_for(segments: &[MergeSegment], resolution: &ConflictChoice) -> (r: Vec<bool>)
    ensures
        r@ == mask_spec(segs_view(segments@), choice_view(*resolution)),
{
    if let ConflictChoice::Picked(mask) = resolution {
        if mask.len() == segments.len() {
            let mut copy: Vec<bool> = Vec::new();
            let mut i: usize = 0;
            while i < mask.len()
                invariant
                    0 <= i <= mask@.len(),
                    copy@ == mask@.take(i as int),
                decreases mask@.len() - i,
            {
                copy.push(mask[i]);
                i = i + 1;
                assert(copy@ =~= mask@.take(i as int));
            }
            assert(mask@.take(mask@.len() as int) =~= mask@);
            return copy;
        }
    }
    let ghost res = choice_view(*resolution);
    let keep_ours = matches!(resolution, ConflictChoice::Ours | ConflictChoice::Both);
    let keep_theirs = matches!(resolution, ConflictChoice::Theirs | ConflictChoice::Both);
    let mut out: Vec<bool> = Vec::new();
    let mut i: usize = 0;
    while i < segments.len()
        invariant
            0 <= i <= segments@.len(),
            out@.len() == i,
            keep_ours == (res is Ours || res is Both),
            keep_theirs == (res is Theirs || res is Both),
            forall|k: int|
                0 <= k < i ==> #[trigger] out@[k] == match segments@[k].origin {
                    SegmentOrigin::Common => true,
                    SegmentOrigin::Ours => keep_ours,
                    SegmentOrigin::Theirs => keep_theirs,
                },
        decreases segments@.len() - i,
    {
        let keep = match segments[i].origin {
            SegmentOrigin::Common => true,
            SegmentOrigin::Ours => keep_ours,
            SegmentOrigin::Theirs => keep_theirs,
        };
        out.push(keep);
        i = i + 1;
    }
    assert(out@ =~= mask_spec(segs_view(segments@), res));
    out
}

/// The kept lines of the first `k` segments.
pub open spec fn kept_lines(segs: Seq<(SegmentOrigin, Seq<char>)>, mask: Seq<bool>, k: int) -> Seq<
    Seq<char>,
>
    decreases k,
{
    if k <= 0 {
        Seq::empty()
    } else if mask[k - 1] {
        kept_lines(segs, mask, k - 1).push(segs[k - 1].1)
    } else {
        kept_lines(segs, mask, k - 1)
    }
}

/// The kept lines of a segment list, joined into merged text. Segments and
/// flags are paired up to the shorter of the two.
pub open spec fn picked_text(segs: Seq<(SegmentOrigin, Seq<char>)>, mask: Seq<bool>, sep: Seq<char>) -> Seq<
    char,
> {
    let n = if segs.len() <= mask.len() {
        segs.len()
    } else {
        mask.len()
    };
    join(kept_lines(segs, mask, n as int), sep)
}

proof fn lemma_kept_lines_drop_side(
    segs: Seq<(SegmentOrigin, Seq<char>)>,
    res: ChoiceView,
    other: SegmentOrigin,
    k: int,
)
    requires
        0 <= k <= segs.len(),
        (res is Ours && other == SegmentOrigin::Theirs) || (res is Theirs && other == SegmentOrigin::Ours),
    ensures
        kept_lines(segs, mask_spec(segs, res), k) == side_lines(segs.take(k), other),
    decreases k,
{
    let mask = mask_spec(segs, res);
    if k == 0 {
        assert(segs.take(0) =~= Seq::<(SegmentOrigin, Seq<char>)>::empty());
    } else {
        lemma_kept_lines_drop_side(segs, res, other, k - 1);
        let last = seq![segs[k - 1]];
        assert(segs.take(k) =~= segs.take(k - 1) + last);
        lemma_side_lines_concat(segs.take(k - 1), last, other);
        assert(last.drop_first() =~= Seq::<(SegmentOrigin, Seq<char>)>::empty());
        assert(side_lines(last.drop_first(), other) =~= Seq::<Seq<char>>::empty());
        assert(mask[k - 1] == (segs[k - 1].0 != other));
        let rest = kept_lines(segs, mask, k - 1);
        if segs[k - 1].0 != other {
            assert(side_lines(last, other) =~= seq![segs[k - 1].1]);
            assert(rest.push(segs[k - 1].1) =~= rest + seq![segs[k - 1].1]);
        } else {
            assert(side_lines(last, other) =~= Seq::<Seq<char>>::empty());
            assert(rest + Seq::<Seq<char>>::empty() =~= rest);
        }
    }
}

/// Switching a conflict from a whole side to line-by-line picking starts
/// from exactly that side: over the aligned lines of the two sides, the mask
/// `Ours` implies keeps the ours lines, in order, and the mask `Theirs`
/// implies keeps the theirs lines.
pub proof fn law_line_picking_starts_from_the_chosen_side(a: Seq<Seq<char>>, b: Seq<Seq<char>>, sep: Seq<char>)
    ensures
        picked_text(merge_spec(a, b), mask_spec(merge_spec(a, b), ChoiceView::Ours), sep) == join(a, sep),
        picked_text(merge_spec(a, b), mask_spec(merge_spec(a, b), ChoiceView::Theirs), sep) == join(b, sep),
{
    let segs = merge_spec(a, b);
    lemma_merge_segments_project(a, b);
    lemma_kept_lines_drop_side(segs, ChoiceView::Ours, SegmentOrigin::Theirs, segs.len() as int);
    lemma_kept_lines_drop_side(segs, ChoiceView::Theirs, SegmentOrigin::Ours, segs.len() as int);
    assert(segs.take(segs.len() as int) =~= segs);
}

/// A text given CRLF terminators never starts with a line feed.
proof fn lemma_crlf_form_starts_without_lf(x: Seq<char>)
    ensures
        lf_to_crlf(x).len() > 0 ==> lf_to_crlf(x)[0] != '\n',
{
}

/// Putting CRLF terminators in and taking them out again gives the text back.
proof fn lemma_crlf_round_trip(x: Seq<char>)
    ensures
        crlf_to_lf(lf_to_crlf(x)) == x,
    decreases x.len(),
{
    if x.len() > 0 {
        let rest = x.drop_first();
        lemma_crlf_round_trip(rest);
        let out = lf_to_crlf(x);
        let tail = lf_to_crlf(rest);
        if x[0] == '\n' {
            assert(out == seq!['\r', '\n'] + tail);
            assert(out.skip(2) =~= tail);
        } else {
            assert(out == seq![x[0]] + tail);
            lemma_crlf_form_starts_without_lf(rest);
            assert(out.drop_first() =~= tail);
        }
        assert(x =~= seq![x[0]] + rest);
    }
}

/// In a text given CRLF terminators, every line feed follows a carriage
/// return.
proof fn lemma_crlf_form_pairs_lf(x: Seq<char>)
    ensures
        forall|i: int|
            0 <= i < lf_to_crlf(x).len() && #[trigger] lf_to_crlf(x)[i] == '\n' ==> i > 0 && lf_to_crlf(x)[i - 1]
                == '\r',
    decreases x.len(),
{
    if x.len() > 0 {
        let rest = x.drop_first();
        lemma_crlf_form_pairs_lf(rest);
        let out = lf_to_crlf(x);
        let tail = lf_to_crlf(rest);
        let k: int = if x[0] == '\n' { 2 } else { 1 };
        lemma_crlf_form_starts_without_lf(rest);
        assert forall|i: int| 0 <= i < out.len() && #[trigger] out[i] == '\n' implies i > 0 && out[i - 1] == '\r' by {
            if i >= k {
                assert(out[i] == tail[i - k]);
                if i - k > 0 {
                    assert(out[i - 1] == tail[i - k - 1]);
                } else {
                    assert(tail[0] != '\n');
                }
            }
        }
    }
}

/// A text with no `\r\n` in it has nothing for the LF pass to change.
proof fn lemma_lf_form_keeps_crlf_free(t: Seq<char>)
    requires
        !has_infix(t, seq!['\r', '\n']),
    ensures
        crlf_to_lf(t) == t,
    decreases t.len(),
{
    if t.len() > 0 {
        if t.len() >= 2 && t[0] == '\r' && t[1] == '\n' {
            assert(crate::text::occurs_at(t, seq!['\r', '\n'], 0)) by {
                assert(t.subrange(0, 2) =~= seq!['\r', '\n']);
            }
        }
        let rest = t.drop_first();
        assert(!has_infix(rest, seq!['\r', '\n'])) by {
            if has_infix(rest, seq!['\r', '\n']) {
                let j = choose|j: int| crate::text::occurs_at(rest, seq!['\r', '\n'], j);
                assert(t.subrange(j + 1, j + 3) =~= rest.subrange(j, j + 2));
                assert(crate::text::occurs_at(t, seq!['\r', '\n'], j + 1));
            }
        }
        lemma_lf_form_keeps_crlf_free(rest);
        assert(t =~= seq![t[0]] + rest);
    }
}

/// Normalizing to CRLF settles a text at once: a second pass changes
/// nothing, and every line feed of the result follows a carriage return.
pub proof fn law_crlf_normalize_is_settled(s: Seq<char>)
    ensures
        normalized(Eol::Crlf, normalized(Eol::Crlf, s)) == normalized(Eol::Crlf, s),
        forall|i: int|
            0 <= i < normalized(Eol::Crlf, s).len() && #[trigger] normalized(Eol::Crlf, s)[i] == '\n' ==> i > 0
                && normalized(Eol::Crlf, s)[i - 1] == '\r',
{
    lemma_crlf_round_trip(crlf_to_lf(s));
    lemma_crlf_form_pairs_lf(crlf_to_lf(s));
}

/// Normalizing to LF a second time changes nothing, unless the first pass
/// left a `\r\n` behind (as `\r\r\n` does, which becomes `\r\n`).
pub proof fn law_lf_normalize_is_settled(s: Seq<char>)
    requires
        !has_infix(normalized(Eol::Lf, s), seq!['\r', '\n']),
    ensures
        normalized(Eol::Lf, normalized(Eol::Lf, s)) == normalized(Eol::Lf, s),
{
    lemma_lf_form_keeps_crlf_free(crlf_to_lf(s));
}

fn compose_picked(segments: &[MergeSegment], mask: &[bool], sep: &[char]) -> (r: Vec<char>)
    ensures
        r@ == picked_text(segs_view(segments@), mask@, sep@),
{
    let n = if segments.len() <= mask.len() {
        segments.len()
    } else {
        mask.len()
    };
    let ghost sv = segs_view(segments@);
    let mut kept: Vec<Vec<char>> = Vec::new();
    let mut i: usize = 0;
    while i < n
        invariant
            n <= segments@.len(),
            n <= mask@.len(),
            sv == segs_view(segments@),
            0 <= i <= n,
            texts(kept@) == kept_lines(sv, mask@, i as int),
        decreases n - i,
    {
        if mask[i] {
            let line = chars_of(segments[i].text.as_str());
            let ghost before = kept@;
            kept.push(line);
            assert(texts(kept@) =~= texts(before).push(sv[i as int].1));
        }
        i = i + 1;
    }
    join_chars(&kept, sep)
}

/// Two texts joined by `sep`, leaving out whichever is empty.
pub open spec fn join_non_empty(x: Seq<char>, y: Seq<char>, sep: Seq<char>) -> Seq<char> {
    if x.len() == 0 {
        y
    } else if y.len() == 0 {
        x
    } else {
        x + sep + y
    }
}

/// What an unresolved conflict looks like in the result: the raw markers,
/// so it stays visible and editable.
pub open spec fn marker_text(ours: Seq<char>, theirs: Seq<char>, sep: Seq<char>) -> Seq<char> {
    "<<<<<<< Current (ours)"@ + sep + ours + sep + "======="@ + sep + theirs + sep
        + ">>>>>>> Incoming (theirs)"@
}

/// The text a conflict contributes under its resolution.
pub open spec fn resolved_text(
    ours: Seq<char>,
    theirs: Seq<char>,
    res: ChoiceView,
    segs: Seq<(SegmentOrigin, Seq<char>)>,
    sep: Seq<char>,
) -> Seq<char> {
    match res {
        ChoiceView::Ours => ours,
        ChoiceView::Theirs => theirs,
        ChoiceView::Both => join_non_empty(ours, theirs, sep),
        ChoiceView::Custom(t) => t,
        ChoiceView::Picked(mask) => picked_text(segs, mask, sep),
        ChoiceView::Unresolved => marker_text(ours, theirs, sep),
    }
}

/// The pieces the first `k` sections contribute: every common run (even an
/// empty one, which is a real blank line), and every conflict whose
/// resolution is not empty.
pub open spec fn pieces(
    parts: Seq<PartView>,
    segs: Seq<Seq<(SegmentOrigin, Seq<char>)>>,
    sep: Seq<char>,
    k: int,
) -> Seq<Seq<char>>
    decreases k,
{
    if k <= 0 {
        Seq::empty()
    } else {
        let rest = pieces(parts, segs, sep, k - 1);
        match parts[k - 1] {
            PartView::Common(t) => rest.push(t),
            PartView::Conflict(ours, theirs, res) => {
                let r = resolved_text(ours, theirs, res, segs[k - 1], sep);
                if r.len() > 0 {
                    rest.push(r)
                } else {
                    rest
                }
            },
        }
    }
}

/// The file text a list of sections renders to.
pub open spec fn compose_spec(
    parts: Seq<PartView>,
    segs: Seq<Seq<(SegmentOrigin, Seq<char>)>>,
    style: FileStyle,
) -> Seq<char> {
    let sep = eol_seq(style.eol);
    let content = join(pieces(parts, segs, sep, parts.len() as int), sep);
    if style.trailing_newline && content.len() > 0 {
        content + sep
    } else {
        content
    }
}

/// Number of conflicts among the first `k` sections still left unresolved.
pub open spec fn unresolved_upto(parts: Seq<PartView>, k: int) -> nat
    decreases k,
{
    if k <= 0 {
        0
    } else {
        unresolved_upto(parts, k - 1) + if parts[k - 1] is Conflict && parts[k - 1]->Conflict_2
            is Unresolved {
            1nat
        } else {
            0nat
        }
    }
}

/// The segments a section is aligned into: those of its two sides for a
/// conflict, none for common text.
pub open spec fn section_segments(p: PartView) -> Seq<(SegmentOrigin, Seq<char>)> {
    match p {
        PartView::Common(_) => Seq::empty(),
        PartView::Conflict(ours, theirs, _) => merge_spec(lines(ours), lines(theirs)),
    }
}

/// The keep/drop mask a section's current resolution implies.
pub open spec fn section_mask(p: PartView) -> Seq<bool> {
    match p {
        PartView::Common(_) => Seq::empty(),
        PartView::Conflict(_, _, res) => mask_spec(section_segments(p), res),
    }
}

pub open spec fn all_segments(parts: Seq<PartView>) -> Seq<Seq<(SegmentOrigin, Seq<char>)>> {
    Seq::new(parts.len(), |i: int| section_segments(parts[i]))
}

#[derive(Clone, Debug)]
pub struct ConflictData {
    pub path: String,
    /// Formatting of the source file, restored by [`Self::compose`].
    pub style: FileStyle,
    sections: Vec<ConflictPart>,
    /// Segments per section, keyed by the same index as `sections` and empty
    /// for `Common` ones. They depend only on a conflict's `ours` and
    /// `theirs`, which never change once parsed, so the cache cannot go stale.
    segments: Vec<Vec<MergeSegment>>,
    /// Keep/drop mask per section, keyed the same way and empty for `Common`
    /// ones; rebuilt whenever a resolution changes.
    masks: Vec<Vec<bool>>,
}

impl ConflictData {
    /// The sections, as values.
    pub closed spec fn parts(&self) -> Seq<PartView> {
        parts_view(self.sections@)
    }

    /// The file's path, as text.
    pub closed spec fn path_text(&self) -> Seq<char> {
        self.path@
    }

    /// The file's path.
    pub fn path_str(&self) -> (r: &str)
        ensures
            r@ == self.path_text(),
    {
        self.path.as_str()
    }

    /// The formatting restored on output.
    pub closed spec fn file_style(&self) -> FileStyle {
        self.style
    }

    /// The caches agree with the sections: each holds exactly what its
    /// section's sides and resolution imply.
    pub closed spec fn wf(&self) -> bool {
        &&& self.segments@.len() == self.sections@.len()
        &&& self.masks@.len() == self.sections@.len()
        &&& forall|i: int|
            0 <= i < self.sections@.len() ==> segs_view(#[trigger] self.segments@[i]@)
                == section_segments(self.parts()[i])
        &&& forall|i: int|
            0 <= i < self.sections@.len() ==> (#[trigger] self.masks@[i])@ == section_mask(
                self.parts()[i],
            )
    }

    pub fn new(path: String, sections: Vec<ConflictPart>, style: FileStyle) -> (r: ConflictData)
        ensures
            r.wf(),
            r.parts() == parts_view(sections@),
            r.path_text() == path@,
            r.file_style() == style,
    {
        let mut segments: Vec<Vec<MergeSegment>> = Vec::new();
        let mut masks: Vec<Vec<bool>> = Vec::new();
        let ghost pv = parts_view(sections@);
        let mut i: usize = 0;
        while i < sections.len()
            invariant
                pv == parts_view(sections@),
                0 <= i <= sections@.len(),
                segments@.len() == i,
                masks@.len() == i,
                forall|k: int|
                    0 <= k < i ==> segs_view(#[trigger] segments@[k]@) == section_segments(pv[k]),
                forall|k: int| 0 <= k < i ==> (#[trigger] masks@[k])@ == section_mask(pv[k]),
            decreases sections@.len() - i,
        {
            match &sections[i] {
                ConflictPart::Conflict { ours, theirs, resolution } => {
                    let segs = merge_segments(ours.as_str(), theirs.as_str());
                    let mask = mask_for(segs.as_slice(), resolution);
                    segments.push(segs);
                    masks.push(mask);
                },
                ConflictPart::Common(_) => {
                    segments.push(Vec::new());
                    masks.push(Vec::new());
                    assert(segs_view(segments@[i as int]@) =~= section_segments(pv[i as int]));
                    assert(masks@[i as int]@ =~= section_mask(pv[i as int]));
                },
            }
            i = i + 1;
        }
        ConflictData { path, style, sections, segments, masks }
    }

    /// Read-only view of the ordered sections.
    pub fn sections(&self) -> (r: &[ConflictPart])
        ensures
            parts_view(r@) == self.parts(),
    {
        self.sections.as_slice()
    }

    /// Bring one section's cached mask back in step with its resolution.
    fn refresh_mask(&mut self, section_index: usize)
        requires
            old(self).segments@.len() == old(self).sections@.len(),
            old(self).masks@.len() == old(self).sections@.len(),
            forall|i: int|
                0 <= i < old(self).sections@.len() ==> segs_view(#[trigger] old(self).segments@[i]@)
                    == section_segments(old(self).parts()[i]),
            forall|i: int|
                0 <= i < old(self).sections@.len() && i != section_index ==> (#[trigger] old(
                    self,
                ).masks@[i])@ == section_mask(old(self).parts()[i]),
            section_index < old(self).sections@.len() ==> old(self).parts()[section_index as int] is Conflict,
        ensures
            final(self).wf(),
            final(self).parts() == old(self).parts(),
            final(self).path_text() == old(self).path_text(),
            final(self).file_style() == old(self).file_style(),
    {
        if section_index >= self.sections.len() {
            return;
        }
        let mask = match &self.sections[section_index] {
            ConflictPart::Conflict { resolution, .. } => mask_for(
                self.segments[section_index].as_slice(),
                resolution,
            ),
            ConflictPart::Common(_) => Vec::new(),
        };
        self.masks.set(section_index, mask);
    }

    /// Record the user's choice for one conflict. The only sanctioned mutation:
    /// it leaves `ours`/`theirs` — and therefore the cached segments — intact.
    ///
    /// A `Custom` resolution is brought onto the file's own terminator on the way
    /// in: it is the one choice whose text comes from outside the parsed file.
    pub fn set_resolution(&mut self, section_index: usize, choice: ConflictChoice)
        requires
            old(self).wf(),
        ensures
            final(self).wf(),
            final(self).path_text() == old(self).path_text(),
            final(self).file_style() == old(self).file_style(),
            final(self).parts() == (if section_index < old(self).parts().len() && old(
                self,
            ).parts()[section_index as int] is Conflict {
                old(self).parts().update(
                    section_index as int,
                    PartView::Conflict(
                        old(self).parts()[section_index as int]->Conflict_0,
                        old(self).parts()[section_index as int]->Conflict_1,
                        match choice {
                            ConflictChoice::Custom(t) => ChoiceView::Custom(
                                normalized(old(self).file_style().eol, t@),
                            ),
                            _ => choice_view(choice),
                        },
                    ),
                )
            } else {
                old(self).parts()
            }),
    {
        let choice = match choice {
            ConflictChoice::Custom(text) => ConflictChoice::Custom(
                self.style.eol.normalize(text.as_str()),
            ),
            other => other,
        };
        if section_index >= self.sections.len() {
            return;
        }
        let replacement = match &self.sections[section_index] {
            ConflictPart::Conflict { ours, theirs, .. } => Some(
                ConflictPart::Conflict {
                    ours: ours.clone(),
                    theirs: theirs.clone(),
                    resolution: choice,
                },
            ),
            ConflictPart::Common(_) => None,
        };
        if let Some(part) = replacement {
            let ghost before = self.parts();
            self.sections.set(section_index, part);
            assert(self.parts() =~= before.update(
                section_index as int,
                part_view(self.sections@[section_index as int]),
            ));
            self.refresh_mask(section_index);
        }
    }

    /// The cached segments of a section and its current keep/drop mask, for
    /// rendering the per-line picker. `None` if the index is not a conflict.
    pub fn conflict_segments(&self, section_index: usize) -> (r: Option<(&[MergeSegment], &[bool])>)
        requires
            self.wf(),
        ensures
            match r {
                Some((segs, mask)) => section_index < self.parts().len() && self.parts()[section_index as int] is Conflict
                    && segs_view(segs@) == section_segments(self.parts()[section_index as int])
                    && mask@ == section_mask(self.parts()[section_index as int]),
                None => !(section_index < self.parts().len() && self.parts()[section_index as int] is Conflict),
            },
    {
        if section_index >= self.sections.len() {
            return None;
        }
        match &self.sections[section_index] {
            ConflictPart::Conflict { .. } => Some(
                (self.segments[section_index].as_slice(), self.masks[section_index].as_slice()),
            ),
            ConflictPart::Common(_) => None,
        }
    }

    /// Toggle whether one line of a conflict is kept, switching that conflict
    /// into `Picked` mode. `Common` lines are always kept and ignore toggles.
    pub fn toggle_segment(&mut self, section_index: usize, segment_index: usize)
        requires
            old(self).wf(),
        ensures
            final(self).wf(),
            final(self).path_text() == old(self).path_text(),
            final(self).file_style() == old(self).file_style(),
            final(self).parts() == (if section_index < old(self).parts().len() && old(
                self,
            ).parts()[section_index as int] is Conflict {
                let p = old(self).parts()[section_index as int];
                let segs = section_segments(p);
                let mask = section_mask(p);
                let flipped = if segment_index < segs.len() && segs[segment_index as int].0
                    != SegmentOrigin::Common {
                    mask.update(segment_index as int, !mask[segment_index as int])
                } else {
                    mask
                };
                old(self).parts().update(
                    section_index as int,
                    PartView::Conflict(p->Conflict_0, p->Conflict_1, ChoiceView::Picked(flipped)),
                )
            } else {
                old(self).parts()
            }),
    {
        if section_index >= self.sections.len() {
            return;
        }
        let is_conflict = match &self.sections[section_index] {
            ConflictPart::Conflict { .. } => true,
            ConflictPart::Common(_) => false,
        };
        if !is_conflict {
            return;
        }
        let ghost p = self.parts()[section_index as int];
        let current = &self.masks[section_index];
        let mut mask: Vec<bool> = Vec::new();
        let mut i: usize = 0;
        while i < current.len()
            invariant
                0 <= i <= current@.len(),
                mask@ == current@.take(i as int),
            decreases current@.len() - i,
        {
            mask.push(current[i]);
            i = i + 1;
            assert(mask@ =~= current@.take(i as int));
        }
        assert(current@.take(current@.len() as int) =~= current@);
        let segs = &self.segments[section_index];
        assert(mask@.len() == segs_view(segs@).len());
        if segment_index < segs.len() && segment_index < mask.len() {
            if segs[segment_index].origin != SegmentOrigin::Common {
                let flag = mask[segment_index];
                mask.set(segment_index, !flag);
            }
        }
        self.set_resolution(section_index, ConflictChoice::Picked(mask));
    }

    /// Number of conflict sections still left `Unresolved`.
    pub fn unresolved_count(&self) -> (r: usize)
        ensures
            r == unresolved_upto(self.parts(), self.parts().len() as int),
    {
        let mut count: usize = 0;
        let mut i: usize = 0;
        while i < self.sections.len()
            invariant
                0 <= i <= self.sections@.len(),
                count == unresolved_upto(self.parts(), i as int),
                count <= i,
            decreases self.sections@.len() - i,
        {
            match &self.sections[i] {
                ConflictPart::Conflict { resolution: ConflictChoice::Unresolved, .. } => {
                    count = count + 1;
                },
                _ => {},
            }
            i = i + 1;
        }
        count
    }

    /// Render the sections back into the file's exact text, in the source
    /// file's own line terminator and with its final-newline state restored.
    ///
    /// Resolved conflicts emit the chosen side(s); an `Unresolved` conflict
    /// emits the raw `<<<<<<<` / `=======` / `>>>>>>>` markers. An empty
    /// resolution drops the region; an empty common run is a real blank line
    /// and stays.
    pub fn compose(&self) -> (r: String)
        requires
            self.wf(),
        ensures
            r@ == compose_spec(self.parts(), all_segments(self.parts()), self.file_style()),
    {
        let sep = self.style.eol.chars();
        let ghost pv = self.parts();
        let ghost segs = all_segments(pv);
        let mut out: Vec<Vec<char>> = Vec::new();
        let mut i: usize = 0;
        while i < self.sections.len()
            invariant
                self.wf(),
                pv == self.parts(),
                segs == all_segments(pv),
                sep@ == eol_seq(self.style.eol),
                0 <= i <= self.sections@.len(),
                texts(out@) == pieces(pv, segs, sep@, i as int),
            decreases self.sections@.len() - i,
        {
            let ghost before = out@;
            match &self.sections[i] {
                ConflictPart::Common(text) => {
                    out.push(chars_of(text.as_str()));
                    assert(texts(out@) =~= texts(before).push(text@));
                },
                ConflictPart::Conflict { ours, theirs, resolution } => {
                    let o = chars_of(ours.as_str());
                    let t = chars_of(theirs.as_str());
                    let resolved: Vec<char> = match resolution {
                        ConflictChoice::Ours => o,
                        ConflictChoice::Theirs => t,
                        ConflictChoice::Both => {
                            if o.len() == 0 {
                                t
                            } else if t.len() == 0 {
                                o
                            } else {
                                let mut r = o;
                                crate::text::push_all(&mut r, sep.as_slice());
                                crate::text::push_all(&mut r, t.as_slice());
                                r
                            }
                        },
                        ConflictChoice::Custom(text) => chars_of(text.as_str()),
                        ConflictChoice::Picked(mask) => {
                            assert(segs_view(self.segments@[i as int]@) == segs[i as int]);
                            compose_picked(
                                self.segments[i].as_slice(),
                                mask.as_slice(),
                                sep.as_slice(),
                            )
                        },
                        ConflictChoice::Unresolved => {
                            let mut r = chars_of("<<<<<<< Current (ours)");
                            crate::text::push_all(&mut r, sep.as_slice());
                            crate::text::push_all(&mut r, o.as_slice());
                            crate::text::push_all(&mut r, sep.as_slice());
                            let eq = chars_of("=======");
                            crate::text::push_all(&mut r, eq.as_slice());
                            crate::text::push_all(&mut r, sep.as_slice());
                            crate::text::push_all(&mut r, t.as_slice());
                            crate::text::push_all(&mut r, sep.as_slice());
                            let end = chars_of(">>>>>>> Incoming (theirs)");
                            crate::text::push_all(&mut r, end.as_slice());
                            r
                        },
                    };
                    assert(resolved@ == resolved_text(
                        ours@,
                        theirs@,
                        choice_view(*resolution),
                        segs[i as int],
                        sep@,
                    ));
                    if resolved.len() > 0 {
                        out.push(resolved);
                        assert(texts(out@) =~= texts(before).push(resolved@));
                    }
                },
            }
            i = i + 1;
        }
        let mut content = join_chars(&out, sep.as_slice());
        if self.style.trailing_newline && content.len() > 0 {
            crate::text::push_all(&mut content, sep.as_slice());
        }
        string_of(content.as_slice())
    }
}

// ---------------------------------------------------------------------------
// Reading conflict markers
// ---------------------------------------------------------------------------

/// `line` appended to `buf` on a line of its own; an empty buffer takes the
/// line as it is.
pub open spec fn add_line(buf: Seq<char>, line: Seq<char>) -> Seq<char> {
    if buf.len() == 0 {
        line
    } else {
        buf + seq!['\n'] + line
    }
}

/// The state of reading a conflicted file line by line.
pub struct MarkerScan {
    pub sections: Seq<PartView>,
    pub common: Seq<char>,
    pub ours: Seq<char>,
    pub theirs: Seq<char>,
    pub in_ours: bool,
    pub in_theirs: bool,
}

pub open spec fn scan_step(s: MarkerScan, line: Seq<char>) -> MarkerScan {
    if has_prefix(line, "<<<<<<<"@) {
        MarkerScan {
            sections: if s.common.len() > 0 {
                s.sections.push(PartView::Common(s.common))
            } else {
                s.sections
            },
            common: Seq::empty(),
            in_ours: true,
            ..s
        }
    } else if has_prefix(line, "======="@) && s.in_ours {
        MarkerScan { in_ours: false, in_theirs: true, ..s }
    } else if has_prefix(line, ">>>>>>>"@) && s.in_theirs {
        MarkerScan {
            sections: s.sections.push(
                PartView::Conflict(s.ours, s.theirs, ChoiceView::Unresolved),
            ),
            ours: Seq::empty(),
            theirs: Seq::empty(),
            in_theirs: false,
            ..s
        }
    } else if s.in_ours {
        MarkerScan { ours: add_line(s.ours, line), ..s }
    } else if s.in_theirs {
        MarkerScan { theirs: add_line(s.theirs, line), ..s }
    } else {
        MarkerScan { common: add_line(s.common, line), ..s }
    }
}

pub open spec fn scan_lines(ls: Seq<Seq<char>>, k: int) -> MarkerScan
    decreases k,
{
    if k <= 0 {
        MarkerScan {
            sections: Seq::empty(),
            common: Seq::empty(),
            ours: Seq::empty(),
            theirs: Seq::empty(),
            in_ours: false,
            in_theirs: false,
        }
    } else {
        scan_step(scan_lines(ls, k - 1), ls[k - 1])
    }
}

/// What [`parse_conflict_markers`] makes of a file's lines: the sections, or
/// `None` when a conflict is still open at the end.
pub open spec fn markers_spec(ls: Seq<Seq<char>>) -> Option<Seq<PartView>> {
    let s = scan_lines(ls, ls.len() as int);
    if s.in_ours || s.in_theirs {
        None
    } else if s.common.len() > 0 {
        Some(s.sections.push(PartView::Common(s.common)))
    } else {
        Some(s.sections)
    }
}

proof fn lemma_scan_prefix(a: Seq<Seq<char>>, b: Seq<Seq<char>>, j: int)
    requires
        0 <= j <= a.len(),
    ensures
        scan_lines(a + b, j) == scan_lines(a, j),
    decreases j,
{
    if j > 0 {
        lemma_scan_prefix(a, b, j - 1);
        assert((a + b)[j - 1] == a[j - 1]);
    }
}

/// Outside a conflict, nothing is held for either side.
proof fn lemma_idle_scan_holds_no_side(ls: Seq<Seq<char>>, k: int)
    ensures
        !scan_lines(ls, k).in_ours && !scan_lines(ls, k).in_theirs ==> scan_lines(ls, k).ours.len() == 0
            && scan_lines(ls, k).theirs.len() == 0,
    decreases k,
{
    if k > 0 {
        lemma_idle_scan_holds_no_side(ls, k - 1);
    }
}

/// Scanning `b`, which opens with a conflict, after a balanced `a` goes as
/// scanning `b` alone, behind the sections `a` gave.
proof fn lemma_scan_after_balanced(a: Seq<Seq<char>>, b: Seq<Seq<char>>, pa: Seq<PartView>, k: int)
    requires
        markers_spec(a) == Some(pa),
        b.len() > 0,
        has_prefix(b[0], "<<<<<<<"@),
        1 <= k <= b.len(),
    ensures
        scan_lines(a + b, a.len() + k) == (MarkerScan {
            sections: pa + scan_lines(b, k).sections,
            ..scan_lines(b, k)
        }),
    decreases k,
{
    let sa = scan_lines(a, a.len() as int);
    lemma_idle_scan_holds_no_side(a, a.len() as int);
    lemma_scan_prefix(a, b, a.len() as int);
    assert((a + b)[a.len() + k - 1] == b[k - 1]);
    if k == 1 {
        let init = scan_lines(b, 0);
        assert(init.sections.len() == 0 && init.common.len() == 0);
        assert(scan_lines(b, 1) == scan_step(init, b[0]));
        assert(scan_lines(b, 1).sections =~= Seq::<PartView>::empty());
        assert(scan_lines(a + b, a.len() + 1int) == scan_step(scan_lines(a + b, a.len() as int), b[0]));
        assert(pa + scan_lines(b, 1).sections =~= pa);
        assert(sa.ours =~= Seq::<char>::empty());
        assert(sa.theirs =~= Seq::<char>::empty());
    } else {
        lemma_scan_after_balanced(a, b, pa, k - 1);
        let sb = scan_lines(b, k - 1);
        let line = b[k - 1];
        if has_prefix(line, "<<<<<<<"@) {
            assert((pa + sb.sections).push(PartView::Common(sb.common)) =~= pa + sb.sections.push(
                PartView::Common(sb.common),
            ));
        } else if has_prefix(line, "======="@) && sb.in_ours {
        } else if has_prefix(line, ">>>>>>>"@) && sb.in_theirs {
            assert((pa + sb.sections).push(PartView::Conflict(sb.ours, sb.theirs, ChoiceView::Unresolved))
                =~= pa + sb.sections.push(PartView::Conflict(sb.ours, sb.theirs, ChoiceView::Unresolved)));
        }
    }
}

/// Each conflict holds only its own sides: reading a file made of a
/// balanced file `a` followed by a file `b` that opens with a conflict gives
/// the sections of `a` followed by those of `b`, so nothing of an earlier
/// conflict reaches a later one.
pub proof fn law_conflicts_keep_to_their_own_lines(
    a: Seq<Seq<char>>,
    b: Seq<Seq<char>>,
    pa: Seq<PartView>,
    pb: Seq<PartView>,
)
    requires
        markers_spec(a) == Some(pa),
        markers_spec(b) == Some(pb),
        b.len() > 0,
        has_prefix(b[0], "<<<<<<<"@),
    ensures
        markers_spec(a + b) == Some(pa + pb),
{
    lemma_scan_after_balanced(a, b, pa, b.len() as int);
    assert((a + b).len() == a.len() + b.len());
    let sb = scan_lines(b, b.len() as int);
    if sb.common.len() > 0 {
        assert((pa + sb.sections).push(PartView::Common(sb.common)) =~= pa + sb.sections.push(PartView::Common(sb.common)));
    }
}

fn add_line_exec(buf: &mut Vec<char>, line: &[char])
    ensures
        final(buf)@ == add_line(old(buf)@, line@),
{
    if buf.len() > 0 {
        buf.push('\n');
    }
    crate::text::push_all(buf, line);
    assert(final(buf)@ =~= add_line(old(buf)@, line@));
}

/// Split a conflicted file at its `<<<<<<<` / `=======` / `>>>>>>>` markers
/// into common text and conflicts; a conflict left open at the end of the file
/// is an error.
pub fn parse_conflict_markers(content: &str) -> (r: Result<Vec<ConflictPart>, String>)
    ensures
        match r {
            Ok(parts) => markers_spec(lines(content@)) == Some(parts_view(parts@)),
            Err(e) => markers_spec(lines(content@)) is None && e@ == "Unbalanced conflict markers"@,
        },
{
    let ls = split_lines(chars_of(content).as_slice());
    let ghost sl = texts(ls@);
    let open_marker = chars_of("<<<<<<<");
    let mid_marker = chars_of("=======");
    let close_marker = chars_of(">>>>>>>");
    let mut sections: Vec<ConflictPart> = Vec::new();
    let mut common: Vec<char> = Vec::new();
    let mut ours: Vec<char> = Vec::new();
    let mut theirs: Vec<char> = Vec::new();
    let mut in_ours = false;
    let mut in_theirs = false;
    let mut i: usize = 0;
    assert(parts_view(sections@) =~= Seq::<PartView>::empty());
    while i < ls.len()
        invariant
            sl == texts(ls@),
            open_marker@ == "<<<<<<<"@,
            mid_marker@ == "======="@,
            close_marker@ == ">>>>>>>"@,
            0 <= i <= ls@.len(),
            ({
                let s = scan_lines(sl, i as int);
                &&& s.sections == parts_view(sections@)
                &&& s.common == common@
                &&& s.ours == ours@
                &&& s.theirs == theirs@
                &&& s.in_ours == in_ours
                &&& s.in_theirs == in_theirs
            }),
        decreases ls@.len() - i,
    {
        let line = ls[i].as_slice();
        let ghost before = parts_view(sections@);
        if starts_with(line, open_marker.as_slice()) {
            if common.len() > 0 {
                let text = string_of(common.as_slice());
                sections.push(ConflictPart::Common(text));
                assert(parts_view(sections@) =~= before.push(PartView::Common(common@)));
                common = Vec::new();
            }
            in_ours = true;
        } else if starts_with(line, mid_marker.as_slice()) && in_ours {
            in_ours = false;
            in_theirs = true;
        } else if starts_with(line, close_marker.as_slice()) && in_theirs {
            in_theirs = false;
            let o = string_of(ours.as_slice());
            let t = string_of(theirs.as_slice());
            sections.push(
                ConflictPart::Conflict { ours: o, theirs: t, resolution: ConflictChoice::Unresolved },
            );
            assert(parts_view(sections@) =~= before.push(
                PartView::Conflict(ours@, theirs@, ChoiceView::Unresolved),
            ));
            ours = Vec::new();
            theirs = Vec::new();
        } else if in_ours {
            add_line_exec(&mut ours, line);
        } else if in_theirs {
            add_line_exec(&mut theirs, line);
        } else {
            add_line_exec(&mut common, line);
        }
        i = i + 1;
        assert(common@ =~= scan_lines(sl, i as int).common);
        assert(ours@ =~= scan_lines(sl, i as int).ours);
        assert(theirs@ =~= scan_lines(sl, i as int).theirs);
    }
    if in_ours || in_theirs {
        let e = chars_of("Unbalanced conflict markers");
        return Err(string_of(e.as_slice()));
    }
    if common.len() > 0 {
        let ghost before = parts_view(sections@);
        sections.push(ConflictPart::Common(string_of(common.as_slice())));
        assert(parts_view(sections@) =~= before.push(PartView::Common(common@)));
    }
    Ok(sections)
}

} // verus!
