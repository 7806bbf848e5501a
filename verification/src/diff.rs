//! Unified-patch parsing and side-by-side pairing.
//!
//! Pure text handling: the renderers turn these rows into widgets.

use vstd::prelude::*;

use crate::text::{
    all_digits, chars_of, has_prefix, is_whitespace, is_ws, lines, parse_unsigned,
    parse_unsigned_chars, slice_chars, split_chars, split_lines, split_on, starts_with, string_of,
    texts,
};

verus! {

#[derive(Clone, Copy, Debug, PartialEq, Eq, Structural)]
pub enum DiffLineKind {
    Context,
    Added,
    Removed,
    HunkHeader,
    FileHeader,
    Note,
    Other,
}

#[derive(Clone, Debug, PartialEq, Eq)]
pub struct ParsedDiffLine {
    pub old_line_number: Option<usize>,
    pub new_line_number: Option<usize>,
    pub kind: DiffLineKind,
    pub content: String,
}

impl ParsedDiffLine {
    /// A copy of this row.
    pub fn duplicate(&self) -> (r: ParsedDiffLine)
        ensures
            r == *self,
    {
        ParsedDiffLine {
            old_line_number: self.old_line_number,
            new_line_number: self.new_line_number,
            kind: self.kind,
            content: self.content.clone(),
        }
    }
}

/// One side of a side-by-side row: either a real line or padding opposite an
/// unpaired insertion/deletion.
#[derive(Clone, Debug, PartialEq, Eq)]
pub enum SideCell {
    Empty,
    Line { number: Option<usize>, kind: DiffLineKind, content: String },
}

#[derive(Clone, Debug, PartialEq, Eq)]
pub struct SideBySideRow {
    pub old: SideCell,
    pub new: SideCell,
}

/// A side-by-side document: full-width headers interleaved with paired rows.
#[derive(Clone, Debug, PartialEq, Eq)]
pub enum SideBySideEntry {
    Header(String),
    Row(SideBySideRow),
}

/// The kind a patch line is, by its leading characters.
pub open spec fn classify_spec(line: Seq<char>) -> DiffLineKind {
    if has_prefix(line, "@@"@) {
        DiffLineKind::HunkHeader
    } else if has_prefix(line, "diff --git"@) || has_prefix(line, "index "@) || has_prefix(
        line,
        "--- "@,
    ) || has_prefix(line, "+++ "@) || has_prefix(line, "rename from "@) || has_prefix(
        line,
        "rename to "@,
    ) || has_prefix(line, "new file mode "@) || has_prefix(line, "deleted file mode "@)
        || has_prefix(line, "similarity index "@) {
        DiffLineKind::FileHeader
    } else if has_prefix(line, "\\ "@) {
        DiffLineKind::Note
    } else if has_prefix(line, "+"@) {
        DiffLineKind::Added
    } else if has_prefix(line, "-"@) {
        DiffLineKind::Removed
    } else if has_prefix(line, " "@) {
        DiffLineKind::Context
    } else {
        DiffLineKind::Other
    }
}

proof fn lemma_classify_text_lines(l: Seq<char>)
    ensures
        (classify_spec(l) == DiffLineKind::Context || classify_spec(l) == DiffLineKind::Added
            || classify_spec(l) == DiffLineKind::Removed) ==> l.len() >= 1,
{
    reveal_strlit("+");
    reveal_strlit("-");
    reveal_strlit(" ");
}

fn prefixed(line: &[char], p: &str) -> (r: bool)
    ensures
        r == has_prefix(line@, p@),
{
    let pc = chars_of(p);
    starts_with(line, pc.as_slice())
}

pub fn classify_line_chars(line: &[char]) -> (r: DiffLineKind)
    ensures
        r == classify_spec(line@),
{
    if prefixed(line, "@@") {
        DiffLineKind::HunkHeader
    } else if prefixed(line, "diff --git") || prefixed(line, "index ") || prefixed(line, "--- ")
        || prefixed(line, "+++ ") || prefixed(line, "rename from ") || prefixed(
        line,
        "rename to ",
    ) || prefixed(line, "new file mode ") || prefixed(line, "deleted file mode ") || prefixed(
        line,
        "similarity index ",
    ) {
        DiffLineKind::FileHeader
    } else if prefixed(line, "\\ ") {
        DiffLineKind::Note
    } else if prefixed(line, "+") {
        DiffLineKind::Added
    } else if prefixed(line, "-") {
        DiffLineKind::Removed
    } else if prefixed(line, " ") {
        DiffLineKind::Context
    } else {
        DiffLineKind::Other
    }
}

pub fn classify_diff_line(line: &str) -> (r: DiffLineKind)
    ensures
        r == classify_spec(line@),
{
    classify_line_chars(chars_of(line).as_slice())
}

// ---------------------------------------------------------------------------
// Hunk headers
// ---------------------------------------------------------------------------

/// `s` split at every whitespace character (one more piece than there are
/// whitespace characters).
pub open spec fn split_at_ws(s: Seq<char>) -> Seq<Seq<char>>
    decreases s.len(),
{
    if s.len() == 0 {
        seq![Seq::<char>::empty()]
    } else {
        let init = split_at_ws(s.drop_last());
        if is_ws(s.last()) {
            init.push(Seq::<char>::empty())
        } else {
            init.update(init.len() - 1, init.last().push(s.last()))
        }
    }
}

proof fn lemma_split_at_ws_nonempty(s: Seq<char>)
    ensures
        split_at_ws(s).len() >= 1,
    decreases s.len(),
{
    if s.len() > 0 {
        lemma_split_at_ws_nonempty(s.drop_last());
    }
}

/// The non-empty pieces among the first `k`.
pub open spec fn non_empty(pieces: Seq<Seq<char>>, k: int) -> Seq<Seq<char>>
    decreases k,
{
    if k <= 0 {
        Seq::empty()
    } else if pieces[k - 1].len() > 0 {
        non_empty(pieces, k - 1).push(pieces[k - 1])
    } else {
        non_empty(pieces, k - 1)
    }
}

/// `str::split_whitespace`: the maximal runs of non-whitespace characters.
pub open spec fn words(s: Seq<char>) -> Seq<Seq<char>> {
    non_empty(split_at_ws(s), split_at_ws(s).len() as int)
}

fn split_words(s: &[char]) -> (r: Vec<Vec<char>>)
    ensures
        texts(r@) == words(s@),
{
    let mut done: Vec<Vec<char>> = Vec::new();
    let mut cur: Vec<char> = Vec::new();
    let mut i: usize = 0;
    while i < s.len()
        invariant
            0 <= i <= s@.len(),
            texts(done@).push(cur@) == split_at_ws(s@.take(i as int)),
        decreases s@.len() - i,
    {
        let ghost prev = s@.take(i as int);
        proof {
            lemma_split_at_ws_nonempty(prev);
        }
        assert(s@.take(i + 1).drop_last() == prev);
        if is_whitespace(s[i]) {
            let finished = cur;
            let ghost before = done@;
            done.push(finished);
            assert(texts(done@) =~= texts(before).push(finished@));
            cur = Vec::new();
            assert(texts(done@) =~= split_at_ws(prev));
        } else {
            cur.push(s[i]);
            assert(texts(done@).push(cur@) =~= split_at_ws(prev).update(
                split_at_ws(prev).len() - 1,
                split_at_ws(prev).last().push(s@[i as int]),
            ));
        }
        i = i + 1;
    }
    assert(s@.take(s@.len() as int) == s@);
    let ghost before = done@;
    done.push(cur);
    assert(texts(done@) =~= texts(before).push(cur@));
    let ghost pieces = texts(done@);
    let mut out: Vec<Vec<char>> = Vec::new();
    let mut k: usize = 0;
    while k < done.len()
        invariant
            pieces == texts(done@),
            0 <= k <= done@.len(),
            texts(out@) == non_empty(pieces, k as int),
        decreases done@.len() - k,
    {
        if done[k].len() > 0 {
            let w = slice_chars(done[k].as_slice(), 0, done[k].len());
            assert(w@ =~= done@[k as int]@);
            let ghost ob = out@;
            out.push(w);
            assert(texts(out@) =~= texts(ob).push(pieces[k as int]));
        }
        k = k + 1;
    }
    out
}

/// The number of a hunk range such as `-14,3`: after the expected sign, up
/// to the first comma, parsed as a `usize`.
pub open spec fn hunk_range_spec(range: Seq<char>, sign: char) -> Option<nat> {
    if range.len() > 0 && range[0] == sign {
        parse_unsigned(split_on(range.drop_first(), ',')[0], usize::MAX as nat)
    } else {
        None
    }
}

/// The old and new start lines of a hunk header `@@ -a,b +c,d @@ ...`.
pub open spec fn hunk_header_spec(line: Seq<char>) -> Option<(nat, nat)> {
    let w = words(line);
    if w.len() >= 4 && w[0] == "@@"@ && w[3] == "@@"@ {
        match (hunk_range_spec(w[1], '-'), hunk_range_spec(w[2], '+')) {
            (Some(x), Some(y)) => Some((x, y)),
            _ => None,
        }
    } else {
        None
    }
}

fn parse_hunk_range(range: &[char], sign: char) -> (r: Option<usize>)
    ensures
        match hunk_range_spec(range@, sign) {
            Some(v) => r == Some(v as usize),
            None => r is None,
        },
{
    if range.len() == 0 || range[0] != sign {
        return None;
    }
    let rest = slice_chars(range, 1, range.len());
    assert(rest@ =~= range@.drop_first());
    let pieces = split_chars(rest.as_slice(), ',');
    proof {
        crate::text::lemma_split_on_nonempty(rest@, ',');
    }
    assert(pieces[0]@ == split_on(rest@, ',')[0]);
    match parse_unsigned_chars(pieces[0].as_slice(), usize::MAX as u64) {
        Some(v) => Some(v as usize),
        None => None,
    }
}

fn is_at_at(w: &[char]) -> (r: bool)
    ensures
        r == (w@ == "@@"@),
{
    let p = chars_of("@@");
    crate::text::seq_eq(w, p.as_slice())
}

pub fn parse_hunk_header_chars(line: &[char]) -> (r: Option<(usize, usize)>)
    ensures
        match hunk_header_spec(line@) {
            Some((x, y)) => r == Some((x as usize, y as usize)),
            None => r is None,
        },
{
    let w = split_words(line);
    if w.len() < 4 || !is_at_at(w[0].as_slice()) || !is_at_at(w[3].as_slice()) {
        return None;
    }
    let old = parse_hunk_range(w[1].as_slice(), '-');
    let new = parse_hunk_range(w[2].as_slice(), '+');
    match (old, new) {
        (Some(x), Some(y)) => Some((x, y)),
        _ => None,
    }
}

/// The start lines of a hunk header, `None` for anything else.
pub fn parse_hunk_header(line: &str) -> (r: Option<(usize, usize)>)
    ensures
        match hunk_header_spec(line@) {
            Some((x, y)) => r == Some((x as usize, y as usize)),
            None => r is None,
        },
{
    parse_hunk_header_chars(chars_of(line).as_slice())
}

// ---------------------------------------------------------------------------
// Rows
// ---------------------------------------------------------------------------

/// The content of a parsed row.
pub open spec fn row_view(r: ParsedDiffLine) -> (Option<usize>, Option<usize>, DiffLineKind, Seq<char>) {
    (r.old_line_number, r.new_line_number, r.kind, r.content@)
}

pub open spec fn rows_view(v: Seq<ParsedDiffLine>) -> Seq<(Option<usize>, Option<usize>, DiffLineKind, Seq<char>)> {
    Seq::new(v.len(), |i: int| row_view(v[i]))
}

/// The next line number: one more, wrapping at the top of the range.
pub open spec fn next_number(n: Option<usize>) -> Option<usize> {
    match n {
        Some(x) => Some(if x == usize::MAX { 0 } else { (x + 1) as usize }),
        None => None,
    }
}

/// The rows of the first `k` patch lines, and the old and new line numbers
/// the next line would get.
pub open spec fn rows_upto(ls: Seq<Seq<char>>, k: int) -> (
    Seq<(Option<usize>, Option<usize>, DiffLineKind, Seq<char>)>,
    Option<usize>,
    Option<usize>,
)
    decreases k,
{
    if k <= 0 {
        (Seq::empty(), None, None)
    } else {
        let prev = rows_upto(ls, k - 1);
        let line = ls[k - 1];
        let kind = classify_spec(line);
        let (old0, new0) = if kind == DiffLineKind::HunkHeader && hunk_header_spec(line) is Some {
            let h = hunk_header_spec(line)->0;
            (Some(h.0 as usize), Some(h.1 as usize))
        } else {
            (prev.1, prev.2)
        };
        match kind {
            DiffLineKind::Context => (
                prev.0.push((old0, new0, kind, line.drop_first())),
                next_number(old0),
                next_number(new0),
            ),
            DiffLineKind::Added => (
                prev.0.push((None, new0, kind, line.drop_first())),
                old0,
                next_number(new0),
            ),
            DiffLineKind::Removed => (
                prev.0.push((old0, None, kind, line.drop_first())),
                next_number(old0),
                new0,
            ),
            _ => (prev.0.push((None, None, kind, line)), old0, new0),
        }
    }
}

/// What [`parse_diff_rows`] returns for a patch.
pub open spec fn diff_rows_spec(content: Seq<char>) -> Seq<(Option<usize>, Option<usize>, DiffLineKind, Seq<char>)> {
    rows_upto(lines(content), lines(content).len() as int).0
}

proof fn lemma_rows_upto_prefix(ls: Seq<Seq<char>>, k: int)
    requires
        0 <= k,
    ensures
        rows_upto(ls, k).0.len() == k,
        forall|i: int| 0 <= i < k ==> #[trigger] rows_upto(ls, k).0[i] == rows_upto(ls, i + 1).0[i],
    decreases k,
{
    if k > 0 {
        lemma_rows_upto_prefix(ls, k - 1);
        assert forall|i: int| 0 <= i < k implies #[trigger] rows_upto(ls, k).0[i] == rows_upto(ls, i + 1).0[i] by {
            if i < k - 1 {
                assert(rows_upto(ls, k).0[i] == rows_upto(ls, k - 1).0[i]);
            }
        }
    }
}

/// The `--- ` and `+++ ` lines of a patch name the two files: each becomes
/// a file header row with its whole text and no line numbers, never an
/// added or removed line.
pub proof fn law_file_name_lines_are_file_headers(content: Seq<char>, i: int)
    requires
        0 <= i < lines(content).len(),
        has_prefix(lines(content)[i], "--- "@) || has_prefix(lines(content)[i], "+++ "@),
    ensures
        diff_rows_spec(content).len() == lines(content).len(),
        diff_rows_spec(content)[i] == (None::<usize>, None::<usize>, DiffLineKind::FileHeader, lines(content)[i]),
{
    let ls = lines(content);
    let line = ls[i];
    reveal_strlit("--- ");
    reveal_strlit("+++ ");
    reveal_strlit("@@");
    assert(line[0] == '-' || line[0] == '+') by {
        if has_prefix(line, "--- "@) {
            assert(line.take(4)[0] == line[0]);
        } else {
            assert(line.take(4)[0] == line[0]);
        }
    }
    assert(!has_prefix(line, "@@"@)) by {
        if has_prefix(line, "@@"@) {
            assert(line.take(2)[0] == line[0]);
        }
    }
    assert(classify_spec(line) == DiffLineKind::FileHeader);
    lemma_rows_upto_prefix(ls, ls.len() as int);
    assert(rows_upto(ls, ls.len() as int).0[i] == rows_upto(ls, i + 1).0[i]);
    lemma_rows_upto_prefix(ls, i);
}

fn bump(n: Option<usize>) -> (r: Option<usize>)
    ensures
        r == next_number(n),
{
    match n {
        Some(x) => Some(x.wrapping_add(1)),
        None => None,
    }
}

/// Parse a unified patch into rows, numbering each context, added and removed
/// line on the side(s) it belongs to from the most recent hunk header.
pub fn parse_diff_rows(diff_content: &str) -> (r: Vec<ParsedDiffLine>)
    ensures
        rows_view(r@) == diff_rows_spec(diff_content@),
{
    let ls = split_lines(chars_of(diff_content).as_slice());
    let ghost sl = texts(ls@);
    let mut rows: Vec<ParsedDiffLine> = Vec::new();
    let mut old_line_number: Option<usize> = None;
    let mut new_line_number: Option<usize> = None;
    let mut i: usize = 0;
    assert(rows_view(rows@) =~= rows_upto(sl, 0).0);
    while i < ls.len()
        invariant
            sl == texts(ls@),
            sl == lines(diff_content@),
            0 <= i <= ls@.len(),
            rows_view(rows@) == rows_upto(sl, i as int).0,
            old_line_number == rows_upto(sl, i as int).1,
            new_line_number == rows_upto(sl, i as int).2,
        decreases ls@.len() - i,
    {
        let line = ls[i].as_slice();
        let kind = classify_line_chars(line);
        proof {
            lemma_classify_text_lines(line@);
        }
        if kind == DiffLineKind::HunkHeader {
            match parse_hunk_header_chars(line) {
                Some((old_start, new_start)) => {
                    old_line_number = Some(old_start);
                    new_line_number = Some(new_start);
                },
                None => {},
            }
        }
        let ghost before = rows@;
        let row = match kind {
            DiffLineKind::Context => {
                let old = old_line_number;
                let new = new_line_number;
                old_line_number = bump(old_line_number);
                new_line_number = bump(new_line_number);
                let c = slice_chars(line, 1, line.len());
                ParsedDiffLine {
                    old_line_number: old,
                    new_line_number: new,
                    kind,
                    content: string_of(c.as_slice()),
                }
            },
            DiffLineKind::Added => {
                let new = new_line_number;
                new_line_number = bump(new_line_number);
                let c = slice_chars(line, 1, line.len());
                ParsedDiffLine {
                    old_line_number: None,
                    new_line_number: new,
                    kind,
                    content: string_of(c.as_slice()),
                }
            },
            DiffLineKind::Removed => {
                let old = old_line_number;
                old_line_number = bump(old_line_number);
                let c = slice_chars(line, 1, line.len());
                ParsedDiffLine {
                    old_line_number: old,
                    new_line_number: None,
                    kind,
                    content: string_of(c.as_slice()),
                }
            },
            _ => ParsedDiffLine {
                old_line_number: None,
                new_line_number: None,
                kind,
                content: string_of(line),
            },
        };
        rows.push(row);
        assert(line@ == sl[i as int]);
        proof {
            if kind == DiffLineKind::Context || kind == DiffLineKind::Added || kind
                == DiffLineKind::Removed {
                assert(line@.subrange(1, line@.len() as int) =~= line@.drop_first());
            }
        }
        assert(rows_view(rows@) =~= rows_view(before).push(row_view(rows@.last())));
        i = i + 1;
    }
    rows
}

// ---------------------------------------------------------------------------
// Side by side
// ---------------------------------------------------------------------------

/// The content of one side of a row.
pub enum CellView {
    Empty,
    Line(Option<usize>, DiffLineKind, Seq<char>),
}

/// The content of a side-by-side entry.
pub enum EntryView {
    Header(Seq<char>),
    Row(CellView, CellView),
}

pub open spec fn cell_view(c: SideCell) -> CellView {
    match c {
        SideCell::Empty => CellView::Empty,
        SideCell::Line { number, kind, content } => CellView::Line(number, kind, content@),
    }
}

pub open spec fn entry_view(e: SideBySideEntry) -> EntryView {
    match e {
        SideBySideEntry::Header(t) => EntryView::Header(t@),
        SideBySideEntry::Row(r) => EntryView::Row(cell_view(r.old), cell_view(r.new)),
    }
}

pub open spec fn entries_view(v: Seq<SideBySideEntry>) -> Seq<EntryView> {
    Seq::new(v.len(), |i: int| entry_view(v[i]))
}

type RowV = (Option<usize>, Option<usize>, DiffLineKind, Seq<char>);

/// A row shown on one side, under the given number.
pub open spec fn cell_of(r: (Option<usize>, Option<usize>, DiffLineKind, Seq<char>), number: Option<usize>) -> CellView {
    CellView::Line(number, r.2, r.3)
}

/// A run of removals zipped with the run of additions that followed it, the
/// shorter run padded with empty cells.
pub open spec fn paired(removed: Seq<RowV>, added: Seq<RowV>) -> Seq<EntryView> {
    let n = if removed.len() >= added.len() {
        removed.len()
    } else {
        added.len()
    };
    Seq::new(
        n,
        |i: int|
            EntryView::Row(
                if i < removed.len() {
                    cell_of(removed[i], removed[i].0)
                } else {
                    CellView::Empty
                },
                if i < added.len() {
                    cell_of(added[i], added[i].1)
                } else {
                    CellView::Empty
                },
            ),
    )
}

/// The entries emitted for the first `k` rows, with the removal and addition
/// runs still waiting to be paired.
pub open spec fn sbs_upto(rows: Seq<RowV>, k: int) -> (Seq<EntryView>, Seq<RowV>, Seq<RowV>)
    decreases k,
{
    if k <= 0 {
        (Seq::empty(), Seq::empty(), Seq::empty())
    } else {
        let (entries, removed, added) = sbs_upto(rows, k - 1);
        let row = rows[k - 1];
        match row.2 {
            DiffLineKind::Removed => if added.len() > 0 {
                (entries + paired(removed, added), seq![row], Seq::empty())
            } else {
                (entries, removed.push(row), added)
            },
            DiffLineKind::Added => (entries, removed, added.push(row)),
            DiffLineKind::Context => (
                (entries + paired(removed, added)).push(
                    EntryView::Row(cell_of(row, row.0), cell_of(row, row.1)),
                ),
                Seq::empty(),
                Seq::empty(),
            ),
            _ => (
                (entries + paired(removed, added)).push(EntryView::Header(row.3)),
                Seq::empty(),
                Seq::empty(),
            ),
        }
    }
}

/// What [`to_side_by_side`] returns.
pub open spec fn side_by_side_spec(rows: Seq<RowV>) -> Seq<EntryView> {
    let (entries, removed, added) = sbs_upto(rows, rows.len() as int);
    entries + paired(removed, added)
}

fn cell(row: &ParsedDiffLine, number: Option<usize>) -> (r: SideCell)
    ensures
        cell_view(r) == cell_of(row_view(*row), number),
{
    SideCell::Line { number, kind: row.kind, content: row.content.clone() }
}

fn flush_pairs(
    entries: &mut Vec<SideBySideEntry>,
    rows: &[ParsedDiffLine],
    removed: &mut Vec<usize>,
    added: &mut Vec<usize>,
)
    requires
        forall|k: int| 0 <= k < old(removed)@.len() ==> #[trigger] old(removed)@[k] < rows@.len(),
        forall|k: int| 0 <= k < old(added)@.len() ==> #[trigger] old(added)@[k] < rows@.len(),
    ensures
        entries_view(final(entries)@) == entries_view(old(entries)@) + paired(
            Seq::new(old(removed)@.len(), |k: int| row_view(rows@[old(removed)@[k] as int])),
            Seq::new(old(added)@.len(), |k: int| row_view(rows@[old(added)@[k] as int])),
        ),
        final(removed)@.len() == 0,
        final(added)@.len() == 0,
{
    let ghost rv = Seq::new(removed@.len(), |k: int| row_view(rows@[removed@[k] as int]));
    let ghost av = Seq::new(added@.len(), |k: int| row_view(rows@[added@[k] as int]));
    let ghost start = entries_view(entries@);
    let pairs = if removed.len() >= added.len() {
        removed.len()
    } else {
        added.len()
    };
    let mut index: usize = 0;
    while index < pairs
        invariant
            rv == Seq::new(removed@.len(), |k: int| row_view(rows@[removed@[k] as int])),
            av == Seq::new(added@.len(), |k: int| row_view(rows@[added@[k] as int])),
            forall|k: int| 0 <= k < removed@.len() ==> #[trigger] removed@[k] < rows@.len(),
            forall|k: int| 0 <= k < added@.len() ==> #[trigger] added@[k] < rows@.len(),
            pairs == (if removed@.len() >= added@.len() {
                removed@.len()
            } else {
                added@.len()
            }),
            0 <= index <= pairs,
            entries_view(entries@) == start + paired(rv, av).take(index as int),
        decreases pairs - index,
    {
        let old_cell = if index < removed.len() {
            let row = &rows[removed[index]];
            cell(row, row.old_line_number)
        } else {
            SideCell::Empty
        };
        let new_cell = if index < added.len() {
            let row = &rows[added[index]];
            cell(row, row.new_line_number)
        } else {
            SideCell::Empty
        };
        let ghost before = entries@;
        entries.push(SideBySideEntry::Row(SideBySideRow { old: old_cell, new: new_cell }));
        assert(entries_view(entries@) =~= entries_view(before).push(paired(rv, av)[index as int]));
        index = index + 1;
        assert(entries_view(entries@) =~= start + paired(rv, av).take(index as int));
    }
    assert(paired(rv, av).take(pairs as int) =~= paired(rv, av));
    removed.clear();
    added.clear();
}

/// Pair a unified patch into aligned old/new rows.
///
/// A run of removals directly followed by a run of additions is read as a
/// replacement and zipped line by line; whichever run is shorter is padded with
/// [`SideCell::Empty`] so both sides keep the same row count. Everything that is
/// not part of the text (hunk and file headers, `\ No newline` notes) becomes a
/// full-width [`SideBySideEntry::Header`].
pub fn to_side_by_side(rows: &[ParsedDiffLine]) -> (r: Vec<SideBySideEntry>)
    ensures
        entries_view(r@) == side_by_side_spec(rows_view(rows@)),
{
    let ghost rv = rows_view(rows@);
    let mut entries: Vec<SideBySideEntry> = Vec::new();
    let mut removed: Vec<usize> = Vec::new();
    let mut added: Vec<usize> = Vec::new();
    let mut i: usize = 0;
    assert(entries_view(entries@) =~= sbs_upto(rv, 0).0);
    assert(Seq::new(removed@.len(), |k: int| row_view(rows@[removed@[k] as int])) =~= sbs_upto(rv, 0).1);
    assert(Seq::new(added@.len(), |k: int| row_view(rows@[added@[k] as int])) =~= sbs_upto(rv, 0).2);
    while i < rows.len()
        invariant
            rv == rows_view(rows@),
            0 <= i <= rows@.len(),
            forall|k: int| 0 <= k < removed@.len() ==> #[trigger] removed@[k] < rows@.len(),
            forall|k: int| 0 <= k < added@.len() ==> #[trigger] added@[k] < rows@.len(),
            entries_view(entries@) == sbs_upto(rv, i as int).0,
            Seq::new(removed@.len(), |k: int| row_view(rows@[removed@[k] as int])) == sbs_upto(
                rv,
                i as int,
            ).1,
            Seq::new(added@.len(), |k: int| row_view(rows@[added@[k] as int])) == sbs_upto(
                rv,
                i as int,
            ).2,
        decreases rows@.len() - i,
    {
        let ghost prev = sbs_upto(rv, i as int);
        assert(rv[i as int] == row_view(rows@[i as int]));
        match rows[i].kind {
            DiffLineKind::Removed => {
                if added.len() > 0 {
                    flush_pairs(&mut entries, rows, &mut removed, &mut added);
                }
                let ghost rb = removed@;
                removed.push(i);
                assert(Seq::new(removed@.len(), |k: int| row_view(rows@[removed@[k] as int]))
                    =~= sbs_upto(rv, i + 1).1);
                assert(Seq::new(added@.len(), |k: int| row_view(rows@[added@[k] as int]))
                    =~= sbs_upto(rv, i + 1).2);
            },
            DiffLineKind::Added => {
                added.push(i);
                assert(Seq::new(added@.len(), |k: int| row_view(rows@[added@[k] as int]))
                    =~= sbs_upto(rv, i + 1).2);
            },
            DiffLineKind::Context => {
                flush_pairs(&mut entries, rows, &mut removed, &mut added);
                let row = &rows[i];
                let ghost eb = entries@;
                entries.push(
                    SideBySideEntry::Row(
                        SideBySideRow {
                            old: cell(row, row.old_line_number),
                            new: cell(row, row.new_line_number),
                        },
                    ),
                );
                assert(entries_view(entries@) =~= entries_view(eb).push(entry_view(entries@.last())));
                assert(Seq::new(removed@.len(), |k: int| row_view(rows@[removed@[k] as int]))
                    =~= sbs_upto(rv, i + 1).1);
                assert(Seq::new(added@.len(), |k: int| row_view(rows@[added@[k] as int]))
                    =~= sbs_upto(rv, i + 1).2);
            },
            _ => {
                flush_pairs(&mut entries, rows, &mut removed, &mut added);
                let ghost eb = entries@;
                entries.push(SideBySideEntry::Header(rows[i].content.clone()));
                assert(entries_view(entries@) =~= entries_view(eb).push(entry_view(entries@.last())));
                assert(Seq::new(removed@.len(), |k: int| row_view(rows@[removed@[k] as int]))
                    =~= sbs_upto(rv, i + 1).1);
                assert(Seq::new(added@.len(), |k: int| row_view(rows@[added@[k] as int]))
                    =~= sbs_upto(rv, i + 1).2);
            },
        }
        i = i + 1;
    }
    flush_pairs(&mut entries, rows, &mut removed, &mut added);
    entries
}

} // verus!
