//! Gaps: the parts of a buffer that lie between the matches of a pattern.
//!
//! An inverse search reports the gaps in place of the matches. They are
//! derived from the matches in one pass, with a cursor that marks how far the
//! buffer has been accounted for.

use vstd::prelude::*;
use crate::span::{Span, covered, in_order, lemma_covered_first, lemma_in_order_rest, total_len};

verus! {

/// Where the cursor stands after a match was taken in: it only moves forward.
pub open spec fn cursor_after(cursor: usize, m: Span) -> usize {
    if m.end > cursor {
        m.end
    } else {
        cursor
    }
}

/// The gap that a match reveals before itself, with the cursor at `cursor`.
pub open spec fn gap_before(cursor: usize, m: Span) -> Option<Span> {
    if m.start > cursor {
        Some(Span { start: cursor, end: m.start })
    } else {
        None
    }
}

/// The gap that remains behind the last match, in a buffer of `len` bytes.
pub open spec fn gap_at_end(cursor: usize, len: usize) -> Option<Span> {
    if cursor < len {
        Some(Span { start: cursor, end: len })
    } else {
        None
    }
}

/// An optional span as a sequence of no span or one.
pub open spec fn as_seq(gap: Option<Span>) -> Seq<Span> {
    match gap {
        Some(g) => seq![g],
        None => Seq::empty(),
    }
}

/// The gaps that the matches leave in a buffer of `len` bytes of which the
/// first `cursor` bytes are accounted for already.
pub open spec fn gaps_from(matches: Seq<Span>, cursor: usize, len: usize) -> Seq<Span>
    decreases matches.len(),
{
    if matches.len() == 0 {
        as_seq(gap_at_end(cursor, len))
    } else {
        as_seq(gap_before(cursor, matches.first())) + gaps_from(
            matches.drop_first(),
            cursor_after(cursor, matches.first()),
            len,
        )
    }
}

/// The gaps that the matches leave in a buffer of `len` bytes.
pub open spec fn gaps_of(matches: Seq<Span>, len: usize) -> Seq<Span> {
    gaps_from(matches, 0, len)
}

/// The state of a gap derivation: the end of the part of the buffer that has
/// been accounted for.
#[derive(Clone, Copy, Debug, PartialEq, Eq, Structural)]
pub struct GapCursor {
    pub end: usize,
}

impl GapCursor {
    /// A cursor at the beginning of the buffer.
    pub fn new() -> (cursor: GapCursor)
        ensures
            cursor.end == 0,
    {
        GapCursor { end: 0 }
    }

    /// Takes in the next match. Returns the gap between the cursor and the
    /// match, if the match begins behind the cursor, and moves the cursor to
    /// the end of the match, never backward.
    pub fn advance(&mut self, m: Span) -> (gap: Option<Span>)
        ensures
            gap == gap_before(old(self).end, m),
            final(self).end == cursor_after(old(self).end, m),
    {
        let from: usize = self.end;
        if m.end > from {
            self.end = m.end;
        }
        if m.start > from {
            Some(Span { start: from, end: m.start })
        } else {
            None
        }
    }

    /// Closes the derivation for a buffer of `len` bytes. Returns the gap
    /// between the cursor and the end of the buffer, if any byte is left
    /// there, and moves the cursor to the end of the buffer.
    pub fn finish(&mut self, len: usize) -> (gap: Option<Span>)
        ensures
            gap == gap_at_end(old(self).end, len),
            final(self).end == if old(self).end < len { len } else { old(self).end },
            gap_at_end(final(self).end, len).is_none(),
    {
        let from: usize = self.end;
        if from < len {
            self.end = len;
            Some(Span { start: from, end: len })
        } else {
            None
        }
    }
}

/// Every gap holds at least one byte.
pub open spec fn all_nonempty(gaps: Seq<Span>) -> bool {
    forall|k: int| 0 <= k < gaps.len() ==> (#[trigger] gaps[k]).start < gaps[k].end
}

/// No gap reaches into a match or around one: each gap ends where the match
/// begins or earlier, or begins where the match ends or later.
pub open spec fn apart(gaps: Seq<Span>, matches: Seq<Span>) -> bool {
    forall|k: int, j: int|
        0 <= k < gaps.len() && 0 <= j < matches.len() ==> (#[trigger] gaps[k]).end <= (
        #[trigger] matches[j]).start || matches[j].end <= gaps[k].start
}

/// The matches lie at the two ends of the buffer and hold no byte.
pub open spec fn only_at_edges(matches: Seq<Span>, len: usize) -> bool {
    forall|j: int|
        0 <= j < matches.len() ==> (#[trigger] matches[j]).start == matches[j].end && (
        matches[j].start == 0 || matches[j].start == len)
}

proof fn lemma_gaps_from_partition(matches: Seq<Span>, cursor: usize, len: usize)
    requires
        in_order(matches, len as int),
        cursor <= len,
        forall|j: int| 0 <= j < matches.len() ==> cursor <= (#[trigger] matches[j]).start,
    ensures
        in_order(gaps_from(matches, cursor, len), len as int),
        all_nonempty(gaps_from(matches, cursor, len)),
        apart(gaps_from(matches, cursor, len), matches),
        forall|k: int|
            0 <= k < gaps_from(matches, cursor, len).len() ==> cursor <= (#[trigger] gaps_from(
                matches,
                cursor,
                len,
            )[k]).start,
        forall|i: int|
            cursor <= i < len ==> (#[trigger] covered(matches, i)) != covered(
                gaps_from(matches, cursor, len),
                i,
            ),
        total_len(matches) + total_len(gaps_from(matches, cursor, len)) == len - cursor,
    decreases matches.len(),
{
    let gaps = gaps_from(matches, cursor, len);
    if matches.len() == 0 {
        if cursor < len {
            assert(gaps.drop_first().len() == 0);
            assert(total_len(gaps) == len - cursor) by {
                reveal_with_fuel(total_len, 2);
            }
        }
        assert forall|i: int| cursor <= i < len implies (#[trigger] covered(matches, i))
            != covered(gaps, i) by {
            assert(gaps[0].holds(i));
        }
    } else {
        let m = matches.first();
        let rest = matches.drop_first();
        lemma_in_order_rest(matches, len as int);
        assert(cursor <= matches[0].start);
        let next = cursor_after(cursor, m);
        assert(next == m.end);
        lemma_gaps_from_partition(rest, next, len);
        let head = as_seq(gap_before(cursor, m));
        let tail = gaps_from(rest, next, len);
        assert(gaps == head + tail);
        assert(matches =~= seq![m] + rest);
        assert forall|k: int| 0 <= k < gaps.len() implies (#[trigger] gaps[k]).start
            < gaps[k].end && cursor <= gaps[k].start && gaps[k].end <= len && (k >= head.len()
            ==> gaps[k] == tail[k - head.len()]) && (k < head.len() ==> gaps[k] == Span {
            start: cursor,
            end: m.start,
        }) by {
            if k >= head.len() {
                assert(gaps[k] == tail[k - head.len()]);
            }
        }
        assert forall|a: int, b: int| 0 <= a < b < gaps.len() implies (#[trigger] gaps[a]).end <= (
        #[trigger] gaps[b]).start by {
            if a >= head.len() {
                assert(tail[a - head.len()].end <= tail[b - head.len()].start);
            }
        }
        assert forall|k: int, j: int| 0 <= k < gaps.len() && 0 <= j < matches.len() implies (
        #[trigger] gaps[k]).end <= (#[trigger] matches[j]).start || matches[j].end
            <= gaps[k].start by {
            if j > 0 {
                assert(matches[j] == rest[j - 1]);
            }
            if k >= head.len() && j > 0 {
                assert(tail[k - head.len()].end <= rest[j - 1].start || rest[j - 1].end <= tail[k
                    - head.len()].start);
            }
        }
        assert forall|i: int| cursor <= i < len implies (#[trigger] covered(matches, i))
            != covered(gaps, i) by {
            lemma_covered_first(m, rest, i);
            if m.start > cursor {
                lemma_covered_first(head[0], tail, i);
                assert(gaps =~= seq![head[0]] + tail);
            } else {
                assert(gaps =~= tail);
            }
            if i < m.end {
                assert(!covered(rest, i));
                assert(!covered(tail, i));
            } else {
                assert(covered(rest, i) != covered(tail, i));
            }
        }
        if m.start > cursor {
            assert(gaps.first() == head[0]);
            assert(gaps.drop_first() =~= tail);
        } else {
            assert(gaps =~= tail);
        }
    }
}

/// The matches of a search and the gaps derived from them partition the
/// buffer. The gaps come in order, inside the buffer, and none is empty; no
/// gap overlaps a match or has one inside it, not even an empty one; every
/// byte of the buffer lies either in a match or in a gap, never in both; and
/// the lengths of all the matches and gaps add up to the length of the
/// buffer.
pub proof fn lemma_matches_and_gaps_partition(matches: Seq<Span>, len: usize)
    requires
        in_order(matches, len as int),
    ensures
        in_order(gaps_of(matches, len), len as int),
        all_nonempty(gaps_of(matches, len)),
        apart(gaps_of(matches, len), matches),
        forall|i: int|
            0 <= i < len ==> (#[trigger] covered(matches, i)) != covered(gaps_of(matches, len), i),
        total_len(matches) + total_len(gaps_of(matches, len)) == len,
{
    lemma_gaps_from_partition(matches, 0, len);
}

/// A search leaves no gap exactly when its matches cover every byte of the
/// buffer: a pattern that matches the whole buffer, in one span or in
/// several adjacent ones, has no hole to report.
pub proof fn lemma_no_gap_iff_all_covered(matches: Seq<Span>, len: usize)
    requires
        in_order(matches, len as int),
    ensures
        gaps_of(matches, len).len() == 0 <==> (forall|i: int|
            0 <= i < len ==> #[trigger] covered(matches, i)),
{
    let gaps = gaps_of(matches, len);
    lemma_matches_and_gaps_partition(matches, len);
    if gaps.len() > 0 {
        let i = gaps[0].start as int;
        assert(gaps[0].holds(i));
        assert(covered(gaps, i));
        assert(!covered(matches, i));
    } else {
        assert forall|i: int| 0 <= i < len implies #[trigger] covered(matches, i) by {
            assert(!covered(gaps, i));
        }
    }
}

/// One match that spans the whole buffer leaves no gap.
pub proof fn lemma_whole_match_leaves_no_gap(len: usize)
    ensures
        gaps_of(seq![Span { start: 0, end: len }], len) == Seq::<Span>::empty(),
{
    let matches = seq![Span { start: 0, end: len }];
    assert(matches.drop_first().len() == 0);
    assert(gaps_of(matches, len) =~= Seq::<Span>::empty()) by {
        reveal_with_fuel(gaps_from, 3);
    }
}

/// The pattern matches somewhere exactly when the gaps are not the whole
/// buffer as a single gap.
///
/// This holds of a buffer that is not empty or has a match, and whose
/// matches do not all lie empty at its two ends: an empty buffer without a
/// match has no gap at all, and matches that hold no byte and cut the buffer
/// nowhere leave it whole.
pub proof fn lemma_match_iff_not_one_whole_gap(matches: Seq<Span>, len: usize)
    requires
        in_order(matches, len as int),
        len > 0 || matches.len() > 0,
        len > 0 && matches.len() > 0 ==> !only_at_edges(matches, len),
    ensures
        matches.len() > 0 <==> gaps_of(matches, len) != seq![Span { start: 0, end: len }],
{
    let gaps = gaps_of(matches, len);
    let whole = seq![Span { start: 0, end: len }];
    lemma_matches_and_gaps_partition(matches, len);
    if matches.len() == 0 {
        assert(gaps =~= whole);
    } else if len == 0 {
        if gaps == whole {
            assert(gaps[0].start < gaps[0].end);
        }
    } else {
        let j = choose|j: int|
            0 <= j < matches.len() && !((#[trigger] matches[j]).start == matches[j].end && (
            matches[j].start == 0 || matches[j].start == len));
        if gaps == whole {
            assert(gaps[0].end <= matches[j].start || matches[j].end <= gaps[0].start);
        }
    }
}

} // verus!
