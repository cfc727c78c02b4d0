//! The content scanner: which lines match, and the window of context lines
//! shown around each match.
use vstd::prelude::*;
use crate::pattern::{pattern_finds, Matcher};

verus! {

/// One matching line of a file, with the inclusive range of line indices
/// (0-based) displayed around it.
#[derive(Clone, Copy, Debug, PartialEq, Eq)]
pub struct MatchRecord {
    pub line_index: usize,
    pub first: usize,
    pub last: usize,
}

/// First line index of the window of `radius` lines around index `i`.
pub open spec fn window_first(i: int, radius: int) -> int {
    if i - radius < 0 {
        0
    } else {
        i - radius
    }
}

/// Last line index of the window of `radius` lines around index `i`, in a
/// file of `len` lines.
pub open spec fn window_last(i: int, radius: int, len: int) -> int {
    if i + radius > len - 1 {
        len - 1
    } else {
        i + radius
    }
}

/// Indices of the `true` entries of `flags`, in increasing order.
pub open spec fn match_positions(flags: Seq<bool>) -> Seq<int>
    decreases flags.len(),
{
    if flags.len() == 0 {
        seq![]
    } else {
        let before = match_positions(flags.drop_last());
        if flags.last() {
            before.push(flags.len() - 1)
        } else {
            before
        }
    }
}

/// The record reported for a match at index `i` of a file of `len` lines.
pub open spec fn record_at(i: int, radius: int, len: int) -> MatchRecord {
    MatchRecord {
        line_index: i as usize,
        first: window_first(i, radius) as usize,
        last: window_last(i, radius, len) as usize,
    }
}

/// The records for the matches at `positions`, in a file of `len` lines.
pub open spec fn records_at(positions: Seq<int>, radius: int, len: int) -> Seq<MatchRecord> {
    positions.map_values(|i: int| record_at(i, radius, len))
}

/// The records reported for a file whose lines match where `flags` is true.
pub open spec fn scan_records(flags: Seq<bool>, radius: int) -> Seq<MatchRecord> {
    records_at(match_positions(flags), radius, flags.len() as int)
}

/// Number of `true` entries of `flags`.
pub open spec fn count_true(flags: Seq<bool>) -> nat
    decreases flags.len(),
{
    if flags.len() == 0 {
        0
    } else {
        count_true(flags.drop_last()) + if flags.last() {
            1nat
        } else {
            0nat
        }
    }
}

/// The window of `radius` lines around line `i` of a file of `len` lines,
/// clamped at both ends of the file.
pub fn context_window(i: usize, radius: usize, len: usize) -> (r: (usize, usize))
    requires
        i < len,
    ensures
        r.0 == window_first(i as int, radius as int),
        r.1 == window_last(i as int, radius as int, len as int),
{
    let first: usize = if i >= radius {
        i - radius
    } else {
        0
    };
    let last: usize = if radius >= len - 1 - i {
        len - 1
    } else {
        i + radius
    };
    (first, last)
}

/// Produces one record per `true` entry of `flags` (one per matching line),
/// in line order, each with its own clamped window; windows of neighbouring
/// matches are neither merged nor shortened.
pub fn scan_matches(flags: &Vec<bool>, radius: usize) -> (r: Vec<MatchRecord>)
    ensures
        r@ == scan_records(flags@, radius as int),
{
    let len = flags.len();
    let mut out: Vec<MatchRecord> = Vec::new();
    let mut i: usize = 0;
    while i < len
        invariant
            len == flags@.len(),
            i <= len,
            out@ == records_at(match_positions(flags@.subrange(0, i as int)), radius as int, len as int),
        decreases len - i,
    {
        let ghost prefix = flags@.subrange(0, i as int);
        let ghost next = flags@.subrange(0, i + 1);
        assert(next.drop_last() =~= prefix);
        if flags[i] {
            let (first, last) = context_window(i, radius, len);
            out.push(MatchRecord { line_index: i, first, last });
            assert(out@ =~= records_at(match_positions(next), radius as int, len as int));
        } else {
            assert(out@ =~= records_at(match_positions(next), radius as int, len as int));
        }
        i = i + 1;
    }
    assert(flags@.subrange(0, len as int) =~= flags@);
    out
}

/// The positions of `flags` are exactly its `true` entries, each once, in
/// increasing order.
proof fn lemma_match_positions(flags: Seq<bool>)
    ensures
        match_positions(flags).len() == count_true(flags),
        forall|k: int|
            0 <= k < match_positions(flags).len() ==> 0 <= #[trigger] match_positions(flags)[k]
                < flags.len() && flags[match_positions(flags)[k]],
        forall|k: int, j: int|
            0 <= k < j < match_positions(flags).len() ==> #[trigger] match_positions(flags)[k]
                < #[trigger] match_positions(flags)[j],
        forall|i: int|
            0 <= i < flags.len() && #[trigger] flags[i] ==> exists|k: int|
                0 <= k < match_positions(flags).len() && match_positions(flags)[k] == i,
    decreases flags.len(),
{
    if flags.len() > 0 {
        let init = flags.drop_last();
        lemma_match_positions(init);
        let p = match_positions(init);
        assert forall|i: int| 0 <= i < flags.len() && #[trigger] flags[i] implies exists|k: int|
            0 <= k < match_positions(flags).len() && match_positions(flags)[k] == i by {
            if i < flags.len() - 1 {
                assert(init[i] == flags[i]);
                let k = choose|k: int| 0 <= k < p.len() && p[k] == i;
                assert(match_positions(flags)[k] == i);
            } else {
                assert(match_positions(flags)[p.len() as int] == i);
            }
        }
    }
}

/// A file contributes one record per matching line and no other: the records
/// come in increasing line order, each at a matching line, and every matching
/// line has one.
pub proof fn lemma_one_record_per_matching_line(flags: Seq<bool>, radius: int)
    ensures
        scan_records(flags, radius).len() == count_true(flags),
        forall|k: int|
            0 <= k < scan_records(flags, radius).len() ==> #[trigger] match_positions(flags)[k]
                < flags.len() && flags[match_positions(flags)[k]],
        forall|k: int, j: int|
            0 <= k < j < scan_records(flags, radius).len() ==> #[trigger] match_positions(flags)[k]
                < #[trigger] match_positions(flags)[j],
        forall|i: int|
            0 <= i < flags.len() && #[trigger] flags[i] ==> exists|k: int|
                0 <= k < scan_records(flags, radius).len() && match_positions(flags)[k] == i,
{
    lemma_match_positions(flags);
}

/// The window of a match at index `i` with radius `r`, in a file of `L` lines,
/// is exactly `[max(0, i - r), min(L - 1, i + r)]`: it holds the matched line
/// and never leaves the file; with radius 0 it is the matched line alone.
pub proof fn lemma_window_clamped(flags: Seq<bool>, radius: int, k: int)
    requires
        flags.len() <= usize::MAX,
        radius >= 0,
        0 <= k < scan_records(flags, radius).len(),
    ensures
        ({
            let i = match_positions(flags)[k];
            let rec = scan_records(flags, radius)[k];
            &&& rec.line_index as int == i
            &&& rec.first as int == if i - radius < 0 { 0 } else { i - radius }
            &&& rec.last as int == if i + radius > flags.len() - 1 { flags.len() - 1 } else { i + radius }
            &&& 0 <= rec.first <= rec.line_index <= rec.last < flags.len()
            &&& radius == 0 ==> rec.first == rec.line_index && rec.last == rec.line_index
        }),
{
    lemma_match_positions(flags);
}

/// Which of `lines` the pattern matches.
pub open spec fn line_flags(pattern: Seq<char>, case_insensitive: bool, lines: Seq<String>) -> Seq<bool> {
    lines.map_values(|l: String| pattern_finds(pattern, case_insensitive, l@))
}

/// The records of a file whose lines are `lines`, scanned with `m`.
pub open spec fn file_records(m: Matcher, lines: Seq<String>, radius: int) -> Seq<MatchRecord> {
    scan_records(line_flags(m.pattern(), m.case_insensitive(), lines), radius)
}

/// Scans the lines of a file: one record per line that the pattern matches,
/// in line order, each with its clamped window of `radius` lines each side.
/// An empty file gives no record.
pub fn scan_lines(m: &Matcher, lines: &Vec<String>, radius: usize) -> (r: Vec<MatchRecord>)
    ensures
        r@ == file_records(*m, lines@, radius as int),
{
    let mut flags: Vec<bool> = Vec::new();
    for i in 0..lines.len()
        invariant
            flags@ == line_flags(m.pattern(), m.case_insensitive(), lines@.subrange(0, i as int)),
    {
        let hit = m.is_match(lines[i].as_str());
        flags.push(hit);
        assert(flags@ =~= line_flags(m.pattern(), m.case_insensitive(), lines@.subrange(0, i + 1)));
    }
    assert(lines@.subrange(0, lines@.len() as int) =~= lines@);
    scan_matches(&flags, radius)
}

} // verus!
