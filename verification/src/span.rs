//! Byte ranges of a buffer.

use vstd::prelude::*;

verus! {

/// A half-open byte range `[start, end)` of a buffer.
///
/// A match of the pattern is such a range, and so is a gap between matches.
/// A range with `start == end` is empty: it lies at a position and holds no
/// byte.
#[derive(Clone, Copy, Debug, PartialEq, Eq, Structural)]
pub struct Span {
    pub start: usize,
    pub end: usize,
}

impl Span {
    /// The byte at `index` lies inside the range.
    pub open spec fn holds(self, index: int) -> bool {
        self.start <= index < self.end
    }

    /// The number of bytes in the range.
    pub open spec fn len_spec(self) -> usize {
        if self.start <= self.end {
            (self.end - self.start) as usize
        } else {
            0
        }
    }

    /// The number of bytes in the range; zero for an empty one.
    #[verifier::when_used_as_spec(len_spec)]
    pub fn len(self) -> (len: usize)
        ensures
            len == self.len_spec(),
    {
        if self.start <= self.end {
            self.end - self.start
        } else {
            0
        }
    }
}

/// Every span lies inside a buffer of `len` bytes, with its start at or
/// before its end, and each one ends where the next begins, or earlier: the
/// order in which a left-to-right search without overlaps reports its
/// matches.
pub open spec fn in_order(spans: Seq<Span>, len: int) -> bool {
    &&& forall|i: int|
        0 <= i < spans.len() ==> (#[trigger] spans[i]).start <= spans[i].end <= len
    &&& forall|i: int, j: int|
        0 <= i < j < spans.len() ==> (#[trigger] spans[i]).end <= (#[trigger] spans[j]).start
}

/// Some span of the sequence holds the byte at `index`.
pub open spec fn covered(spans: Seq<Span>, index: int) -> bool {
    exists|k: int| 0 <= k < spans.len() && (#[trigger] spans[k]).holds(index)
}

/// The number of bytes that the spans hold together, each span counted for
/// itself.
pub open spec fn total_len(spans: Seq<Span>) -> int
    decreases spans.len(),
{
    if spans.len() == 0 {
        0
    } else {
        spans.first().len() + total_len(spans.drop_first())
    }
}

/// A sequence that begins with `first` covers a byte exactly when `first`
/// holds it or the rest covers it.
pub proof fn lemma_covered_first(first: Span, rest: Seq<Span>, index: int)
    ensures
        covered(seq![first] + rest, index) <==> first.holds(index) || covered(rest, index),
{
    let all = seq![first] + rest;
    if covered(all, index) {
        let k = choose|k: int| 0 <= k < all.len() && (#[trigger] all[k]).holds(index);
        if k > 0 {
            assert(rest[k - 1] == all[k]);
        }
    }
    if first.holds(index) {
        assert(all[0] == first);
    }
    if covered(rest, index) {
        let k = choose|k: int| 0 <= k < rest.len() && (#[trigger] rest[k]).holds(index);
        assert(all[k + 1] == rest[k]);
    }
}

/// What is left of an ordered sequence after its first span is ordered too,
/// and begins no earlier than that span ends.
pub proof fn lemma_in_order_rest(spans: Seq<Span>, len: int)
    requires
        in_order(spans, len),
        spans.len() > 0,
    ensures
        in_order(spans.drop_first(), len),
        forall|i: int|
            0 <= i < spans.drop_first().len() ==> spans.first().end <= (
            #[trigger] spans.drop_first()[i]).start,
{
    let rest = spans.drop_first();
    assert forall|i: int| 0 <= i < rest.len() implies (#[trigger] rest[i]).start <= rest[i].end
        <= len && spans.first().end <= rest[i].start by {
        assert(rest[i] == spans[i + 1]);
        assert(spans[0].end <= spans[i + 1].start);
    }
    assert forall|i: int, j: int| 0 <= i < j < rest.len() implies (#[trigger] rest[i]).end <= (
    #[trigger] rest[j]).start by {
        assert(rest[i] == spans[i + 1]);
        assert(rest[j] == spans[j + 1]);
    }
}

} // verus!
