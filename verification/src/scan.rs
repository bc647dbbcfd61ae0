//! Scanning a buffer: the matches of a pattern, or the gaps between them,
//! one at a time.

use vstd::prelude::*;
use regex::bytes::Matches;
use crate::engine::{Matcher, Settings, match_spans, next_match, pending};
use crate::gaps::{GapCursor, as_seq, cursor_after, gap_at_end, gap_before, gaps_from, gaps_of,
    lemma_matches_and_gaps_partition};
use crate::span::{Span, in_order};

verus! {

/// The spans that a scan of `buffer` reports: the matches of the pattern, or,
/// for an inverse scan, the gaps that the matches leave.
pub open spec fn reported(settings: Settings, buffer: Seq<u8>, inverse: bool) -> Seq<Span> {
    if inverse {
        gaps_of(match_spans(settings, buffer), buffer.len() as usize)
    } else {
        match_spans(settings, buffer)
    }
}

/// Whether a scan of `buffer` finds anything to report.
pub open spec fn found(settings: Settings, buffer: Seq<u8>, inverse: bool) -> bool {
    reported(settings, buffer, inverse).len() > 0
}

/// A scan in progress over one buffer.
///
/// The scan is lazy: a span is searched for when it is asked for, and none
/// is kept. Its view is the sequence of spans that it has yet to report.
pub struct Scanner<'r, 'h> {
    matches: Matches<'r, 'h>,
    len: usize,
    inverse: bool,
    cursor: GapCursor,
}

impl<'r, 'h> View for Scanner<'r, 'h> {
    type V = Seq<Span>;

    closed spec fn view(&self) -> Seq<Span> {
        if self.inverse {
            gaps_from(pending(self.matches), self.cursor.end, self.len)
        } else {
            pending(self.matches)
        }
    }
}

impl<'r, 'h> Scanner<'r, 'h> {
    /// Starts a scan of `buffer` for the matches of `matcher`, or, with
    /// `inverse`, for the gaps between them.
    ///
    /// The spans to come are in order and inside the buffer.
    pub fn new(matcher: &'r Matcher, buffer: &'h [u8], inverse: bool) -> (scanner: Scanner<'r, 'h>)
        ensures
            scanner@ == reported(matcher@, buffer@, inverse),
            in_order(scanner@, buffer@.len() as int),
    {
        let matches = matcher.find_iter(buffer);
        proof {
            lemma_matches_and_gaps_partition(pending(matches), buffer.len());
        }
        Scanner { matches, len: buffer.len(), inverse, cursor: GapCursor::new() }
    }

    /// Reports the next span, if one is left, and goes on to the one after
    /// it. Once nothing is left, nothing is reported, however often the scan
    /// is asked.
    pub fn next(&mut self) -> (span: Option<Span>)
        ensures
            old(self)@.len() == 0 ==> span.is_none() && final(self)@.len() == 0,
            old(self)@.len() > 0 ==> span == Some(old(self)@.first()) && final(self)@ == old(
                self,
            )@.drop_first(),
    {
        if !self.inverse {
            return next_match(&mut self.matches);
        }
        loop
            invariant
                self.inverse,
                self.len == old(self).len,
                self@ == old(self)@,
            decreases pending(self.matches).len(),
        {
            let ghost before = pending(self.matches);
            let ghost from = self.cursor.end;
            match next_match(&mut self.matches) {
                None => {
                    let gap = self.cursor.finish(self.len);
                    proof {
                        assert(old(self)@ == as_seq(gap_at_end(from, self.len)));
                        assert(self@ =~= Seq::<Span>::empty());
                    }
                    return gap;
                },
                Some(m) => {
                    let gap = self.cursor.advance(m);
                    proof {
                        assert(old(self)@ == as_seq(gap_before(from, m)) + gaps_from(
                            before.drop_first(),
                            cursor_after(from, m),
                            self.len,
                        ));
                        assert(self@ == gaps_from(
                            before.drop_first(),
                            cursor_after(from, m),
                            self.len,
                        ));
                    }
                    if gap.is_some() {
                        proof {
                            assert(old(self)@.drop_first() =~= self@);
                        }
                        return gap;
                    }
                    proof {
                        assert(old(self)@ =~= self@);
                    }
                },
            }
        }
    }
}

} // verus!
