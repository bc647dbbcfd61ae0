//! The report on one input, record by record.
//!
//! A report hands out the lines for one input one at a time, each found
//! when it is asked for, so that whoever writes them need never hold more
//! than one.

use vstd::prelude::*;
use vstd::string::StringSliceAdditionalSpecFns;
use crate::engine::Matcher;
use crate::options::{Options, Output};
use crate::output::{bytes_records, emit_bytes, emit_offset, grep_filename, offset_records,
    records_of};
use crate::scan::Scanner;

verus! {

/// A report in progress on one input.
///
/// Its view is the sequence of records that it has yet to write.
pub struct Report<'r, 'h> {
    options: Options,
    path: &'h str,
    matcher: &'r Matcher,
    buffer: &'h [u8],
    scanner: Option<Scanner<'r, 'h>>,
    named: bool,
    matched: bool,
}

impl<'r, 'h> View for Report<'r, 'h> {
    type V = Seq<Seq<u8>>;

    closed spec fn view(&self) -> Seq<Seq<u8>> {
        match self.options.output {
            Output::FileName => if self.named {
                Seq::<Seq<u8>>::empty()
            } else {
                records_of(self.options, self.path.spec_bytes(), self.matcher@, self.buffer@)
            },
            Output::Bytes => match self.scanner {
                Some(scanner) => bytes_records(self.buffer@, scanner@),
                None => Seq::<Seq<u8>>::empty(),
            },
            Output::Offset => match self.scanner {
                Some(scanner) => offset_records(scanner@),
                None => Seq::<Seq<u8>>::empty(),
            },
        }
    }
}

impl<'r, 'h> Report<'r, 'h> {
    /// Whether the report has written a record.
    pub closed spec fn wrote_any(&self) -> bool {
        self.matched
    }

    /// Begins the report on the input `buffer`, named `path`, under the
    /// options. Nothing is searched yet.
    pub fn new(options: &Options, path: &'h str, matcher: &'r Matcher, buffer: &'h [u8]) -> (report:
        Report<'r, 'h>)
        ensures
            report@ == records_of(*options, path.spec_bytes(), matcher@, buffer@),
            !report.wrote_any(),
    {
        let scanner = match options.output {
            Output::FileName => None,
            Output::Bytes => Some(Scanner::new(matcher, buffer, options.inverse)),
            Output::Offset => Some(Scanner::new(matcher, buffer, options.inverse)),
        };
        Report { options: *options, path, matcher, buffer, scanner, named: false, matched: false }
    }

    /// Writes the next record to the sink, if one is left, and tells whether
    /// it wrote one. Once it has told that none is left, none will be.
    pub fn next_line(&mut self, out: &mut Vec<u8>) -> (wrote: bool)
        ensures
            wrote == (old(self)@.len() > 0),
            wrote ==> final(out)@ == old(out)@ + old(self)@.first() && final(self)@ == old(
                self,
            )@.drop_first(),
            !wrote ==> final(out)@ == old(out)@ && final(self)@ == old(self)@,
            final(self).wrote_any() == (old(self).wrote_any() || wrote),
    {
        match self.options.output {
            Output::FileName => {
                if self.named {
                    return false;
                }
                self.named = true;
                let wrote = grep_filename(out, &self.options, self.path, self.matcher, self.buffer);
                if wrote {
                    self.matched = true;
                    assert(old(self)@.drop_first() =~= self@);
                }
                wrote
            },
            Output::Bytes => {
                let found = match &mut self.scanner {
                    Some(scanner) => scanner.next(),
                    None => None,
                };
                match found {
                    Some(span) => {
                        emit_bytes(out, self.buffer, span);
                        self.matched = true;
                        assert(old(self)@.drop_first() =~= self@);
                        true
                    },
                    None => false,
                }
            },
            Output::Offset => {
                let found = match &mut self.scanner {
                    Some(scanner) => scanner.next(),
                    None => None,
                };
                match found {
                    Some(span) => {
                        emit_offset(out, span.start);
                        self.matched = true;
                        assert(old(self)@.drop_first() =~= self@);
                        true
                    },
                    None => false,
                }
            },
        }
    }

    /// Whether the report has written a record so far.
    pub fn matched(&self) -> (yes: bool)
        ensures
            yes == self.wrote_any(),
    {
        self.matched
    }

    /// Ends the report. Returns whether it has written a record: when none
    /// was left, that is whether the input counts as matched.
    pub fn finish(self) -> (yes: bool)
        ensures
            yes == self.wrote_any(),
    {
        self.matched
    }
}

} // verus!
