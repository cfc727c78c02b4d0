//! Marking every occurrence of the pattern inside a displayed line.
use vstd::prelude::*;
use vstd::string::StringSliceAdditionalSpecFns;
use crate::pattern::{pattern_spans, Matcher};

verus! {

/// A byte range `[start, end)` of a line, marked when it is an occurrence of
/// the pattern.
#[derive(Clone, Copy, Debug, PartialEq, Eq)]
pub struct Piece {
    pub start: usize,
    pub end: usize,
    pub hit: bool,
}

/// The unmarked piece before the `k`-th occurrence in `spans`.
pub open spec fn gap_before(spans: Seq<(usize, usize)>, k: int) -> Piece {
    Piece { start: if k == 0 { 0 } else { spans[k - 1].1 }, end: spans[k].0, hit: false }
}

/// The marked piece of the `k`-th occurrence in `spans`.
pub open spec fn hit_piece(spans: Seq<(usize, usize)>, k: int) -> Piece {
    Piece { start: spans[k].0, end: spans[k].1, hit: true }
}

/// The pieces up to and including the `k`-th occurrence: a gap then the
/// occurrence, for each.
pub open spec fn pieces_upto(spans: Seq<(usize, usize)>, k: int) -> Seq<Piece>
    decreases k,
{
    if k <= 0 {
        seq![]
    } else {
        pieces_upto(spans, k - 1).push(gap_before(spans, k - 1)).push(hit_piece(spans, k - 1))
    }
}

/// A line of `len` bytes cut at the occurrences `spans`: alternately an
/// unmarked gap and a marked occurrence, ending with the gap after the last
/// occurrence. Gaps may be empty.
pub open spec fn pieces_of(spans: Seq<(usize, usize)>, len: usize) -> Seq<Piece> {
    let n = spans.len() as int;
    pieces_upto(spans, n).push(
        Piece { start: if n == 0 { 0 } else { spans[n - 1].1 }, end: len, hit: false },
    )
}

proof fn lemma_pieces_upto(spans: Seq<(usize, usize)>, k: int)
    requires
        0 <= k <= spans.len(),
    ensures
        pieces_upto(spans, k).len() == 2 * k,
        forall|i: int|
            0 <= i < k ==> pieces_upto(spans, k)[2 * i] == #[trigger] gap_before(spans, i)
                && pieces_upto(spans, k)[2 * i + 1] == hit_piece(spans, i),
    decreases k,
{
    if k > 0 {
        lemma_pieces_upto(spans, k - 1);
        let p = pieces_upto(spans, k - 1);
        assert forall|i: int| 0 <= i < k implies pieces_upto(spans, k)[2 * i] == #[trigger] gap_before(
            spans,
            i,
        ) && pieces_upto(spans, k)[2 * i + 1] == hit_piece(spans, i) by {
            if i < k - 1 {
                assert(gap_before(spans, i) == p[2 * i]);
            }
        }
    }
}

proof fn lemma_piece_at(spans: Seq<(usize, usize)>, len: usize, i: int)
    requires
        0 <= i < spans.len(),
    ensures
        pieces_of(spans, len)[2 * i] == gap_before(spans, i),
        pieces_of(spans, len)[2 * i + 1] == hit_piece(spans, i),
{
    let n = spans.len() as int;
    lemma_pieces_upto(spans, n);
    assert(gap_before(spans, i) == pieces_upto(spans, n)[2 * i]);
}

/// When the occurrences lie within the line, in order and without overlap,
/// the pieces tile the line: the first starts at 0, each starts where the one
/// before ends, the last ends at `len`, none runs backwards, and the marked
/// pieces are the occurrences, in order, each between two unmarked gaps.
pub proof fn lemma_pieces_tile_line(spans: Seq<(usize, usize)>, len: usize)
    requires
        forall|k: int| 0 <= k < spans.len() ==> #[trigger] spans[k].0 <= spans[k].1 <= len,
        forall|k: int| 0 <= k < spans.len() - 1 ==> #[trigger] spans[k].1 <= spans[k + 1].0,
    ensures
        pieces_of(spans, len).len() == 2 * spans.len() + 1,
        pieces_of(spans, len)[0].start == 0,
        pieces_of(spans, len).last().end == len,
        forall|j: int|
            0 <= j < pieces_of(spans, len).len() - 1 ==> (#[trigger] pieces_of(spans, len)[j]).end
                == pieces_of(spans, len)[j + 1].start,
        forall|j: int|
            0 <= j < pieces_of(spans, len).len() ==> (#[trigger] pieces_of(spans, len)[j]).start
                <= pieces_of(spans, len)[j].end,
        forall|k: int|
            0 <= k < spans.len() ==> pieces_of(spans, len)[2 * k + 1] == #[trigger] hit_piece(spans, k)
                && !pieces_of(spans, len)[2 * k].hit,
        !pieces_of(spans, len).last().hit,
{
    let n = spans.len() as int;
    lemma_pieces_upto(spans, n);
    let p = pieces_of(spans, len);
    if n > 0 {
        lemma_piece_at(spans, len, 0);
    }
    assert forall|k: int| 0 <= k < n implies p[2 * k + 1] == #[trigger] hit_piece(spans, k)
        && !p[2 * k].hit by {
        lemma_piece_at(spans, len, k);
    }
    assert forall|j: int| 0 <= j < p.len() - 1 implies (#[trigger] p[j]).end == p[j + 1].start by {
        let i = j / 2;
        if j % 2 == 0 {
            assert(j == 2 * i);
            lemma_piece_at(spans, len, i);
        } else {
            assert(j == 2 * i + 1);
            lemma_piece_at(spans, len, i);
            if i + 1 < n {
                lemma_piece_at(spans, len, i + 1);
                assert(2 * (i + 1) == j + 1);
            }
        }
    }
    assert forall|j: int| 0 <= j < p.len() implies (#[trigger] p[j]).start <= p[j].end by {
        let i = j / 2;
        if j < 2 * n {
            if j % 2 == 0 {
                assert(j == 2 * i);
            } else {
                assert(j == 2 * i + 1);
            }
            lemma_piece_at(spans, len, i);
        }
    }
}

/// Cuts a line of `len` bytes at the occurrences `spans`, marking each one.
pub fn cut_pieces(spans: &Vec<(usize, usize)>, len: usize) -> (r: Vec<Piece>)
    ensures
        r@ == pieces_of(spans@, len),
{
    let mut out: Vec<Piece> = Vec::new();
    let mut prev_end: usize = 0;
    for k in 0..spans.len()
        invariant
            out@ == pieces_upto(spans@, k as int),
            prev_end == if k == 0 { 0 } else { spans@[k - 1].1 },
    {
        let (s, e) = spans[k];
        out.push(Piece { start: prev_end, end: s, hit: false });
        out.push(Piece { start: s, end: e, hit: true });
        prev_end = e;
    }
    out.push(Piece { start: prev_end, end: len, hit: false });
    out
}

/// Cuts `line` at every occurrence of the pattern, not only the first.
pub fn highlight(m: &Matcher, line: &str) -> (r: Vec<Piece>)
    ensures
        r@ == pieces_of(pattern_spans(m.pattern(), m.case_insensitive(), line@), line.spec_bytes().len() as usize),
{
    let spans = m.find_spans(line);
    cut_pieces(&spans, line.len())
}

} // verus!
