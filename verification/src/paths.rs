//! Unix path text: the components `Path::components` reports and the last
//! one `Path::file_name` returns.

use vstd::prelude::*;

use crate::text::{lit, seq_eq, slice_chars, split_chars, split_on, texts};

verus! {

/// The non-empty, non-`.` pieces of the first `k` pieces of a path split at
/// `/`.
pub open spec fn parts_upto(pieces: Seq<Seq<char>>, k: int) -> Seq<Seq<char>>
    decreases k,
{
    if k <= 0 {
        Seq::empty()
    } else if pieces[k - 1].len() == 0 || pieces[k - 1] == "."@ {
        parts_upto(pieces, k - 1)
    } else {
        parts_upto(pieces, k - 1).push(pieces[k - 1])
    }
}

/// The named parts of a path, `..` included.
pub open spec fn path_parts(p: Seq<char>) -> Seq<Seq<char>> {
    parts_upto(split_on(p, '/'), split_on(p, '/').len() as int)
}

/// The first `k` parts that are not `..`.
pub open spec fn normal_upto(parts: Seq<Seq<char>>, k: int) -> Seq<Seq<char>>
    decreases k,
{
    if k <= 0 {
        Seq::empty()
    } else if parts[k - 1] == ".."@ {
        normal_upto(parts, k - 1)
    } else {
        normal_upto(parts, k - 1).push(parts[k - 1])
    }
}

/// The `Normal` components of a path: its names, without the root, `.` or
/// `..`.
pub open spec fn components(p: Seq<char>) -> Seq<Seq<char>> {
    normal_upto(path_parts(p), path_parts(p).len() as int)
}

/// `Path::file_name`: the last name, `None` when there is none or the path
/// ends in `..`.
pub open spec fn file_name(p: Seq<char>) -> Option<Seq<char>> {
    let parts = path_parts(p);
    if parts.len() > 0 && parts.last() != ".."@ {
        Some(parts.last())
    } else {
        None
    }
}

fn is_text(v: &[char], s: &str) -> (r: bool)
    ensures
        r == (v@ == s@),
{
    let t = lit(s);
    seq_eq(v, t.as_slice())
}

fn path_parts_chars(p: &[char]) -> (r: Vec<Vec<char>>)
    ensures
        texts(r@) == path_parts(p@),
{
    let pieces = split_chars(p, '/');
    let ghost sp = texts(pieces@);
    let mut out: Vec<Vec<char>> = Vec::new();
    let mut k: usize = 0;
    while k < pieces.len()
        invariant
            sp == texts(pieces@),
            sp == split_on(p@, '/'),
            0 <= k <= pieces@.len(),
            texts(out@) == parts_upto(sp, k as int),
        decreases pieces@.len() - k,
    {
        let piece = &pieces[k];
        assert(piece@ == sp[k as int]);
        if piece.len() > 0 && !is_text(piece.as_slice(), ".") {
            let copy = slice_chars(piece.as_slice(), 0, piece.len());
            assert(copy@ =~= piece@);
            let ghost before = out@;
            out.push(copy);
            assert(texts(out@) =~= texts(before).push(piece@));
        }
        k = k + 1;
    }
    out
}

/// The `Normal` components of a path.
pub fn components_chars(p: &[char]) -> (r: Vec<Vec<char>>)
    ensures
        texts(r@) == components(p@),
{
    let parts = path_parts_chars(p);
    let ghost sp = texts(parts@);
    let mut out: Vec<Vec<char>> = Vec::new();
    let mut k: usize = 0;
    while k < parts.len()
        invariant
            sp == texts(parts@),
            sp == path_parts(p@),
            0 <= k <= parts@.len(),
            texts(out@) == normal_upto(sp, k as int),
        decreases parts@.len() - k,
    {
        let part = &parts[k];
        assert(part@ == sp[k as int]);
        if !is_text(part.as_slice(), "..") {
            let copy = slice_chars(part.as_slice(), 0, part.len());
            assert(copy@ =~= part@);
            let ghost before = out@;
            out.push(copy);
            assert(texts(out@) =~= texts(before).push(part@));
        }
        k = k + 1;
    }
    out
}

/// The last name of a path, as `Path::file_name` reports it.
pub fn file_name_chars(p: &[char]) -> (r: Option<Vec<char>>)
    ensures
        match file_name(p@) {
            Some(n) => r is Some && r->0@ == n,
            None => r is None,
        },
{
    let parts = path_parts_chars(p);
    let n = parts.len();
    if n == 0 {
        return None;
    }
    let last = &parts[n - 1];
    assert(last@ == path_parts(p@).last());
    if is_text(last.as_slice(), "..") {
        return None;
    }
    let copy = slice_chars(last.as_slice(), 0, last.len());
    assert(copy@ =~= last@);
    Some(copy)
}

} // verus!
