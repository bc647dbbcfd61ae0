//! A run over several inputs, one at a time.
//!
//! The run holds what stays the same from input to input: the options, the
//! compiled pattern, and whether any input so far has matched. Whoever
//! drives it reads each input into a buffer and hands it over, and writes
//! the records that come back, one at a time or all of an input at once;
//! reading and writing are not done here.

use vstd::prelude::*;
use vstd::string::{StrSliceExecFns, StringSliceAdditionalSpecFns};
use crate::engine::{CompileError, Matcher, accepted, byte_settings, refusal};
use crate::options::Options;
use crate::output::{LINE_FEED, grep, matched_of, output_of, records_of};
use crate::report::Report;

verus! {

/// Compiles the pattern of a search for raw bytes: no Unicode reading, `.`
/// matches a line feed too, and letter case counts unless the options say
/// otherwise.
pub fn build_pattern(pattern: &str, options: &Options) -> (made: Result<Matcher, CompileError>)
    ensures
        made.is_ok() == accepted(byte_settings(pattern@, options.case_insensitive)),
        made matches Ok(matcher) ==> matcher@ == byte_settings(pattern@, options.case_insensitive),
        made matches Err(e) ==> e.pattern@ == pattern@ && refusal(
            byte_settings(pattern@, options.case_insensitive),
        ) == Some(e.diagnostic@),
{
    Matcher::compile(pattern, options.case_insensitive)
}

/// The name that stands for standard input among the inputs.
pub open spec fn names_standard_input(path: Seq<char>) -> bool {
    path.len() == 1 && path[0] == '-'
}

/// Whether `path` stands for standard input, not for a file.
pub fn is_standard_input(path: &str) -> (yes: bool)
    ensures
        yes == names_standard_input(path@),
{
    path.unicode_len() == 1 && path.get_char(0) == '-'
}

/// The name under which an input is reported: the path as it was given, or
/// a fixed placeholder for standard input.
pub fn display_name<'a>(path: &'a str) -> (name: &'a str)
    ensures
        name@ == (if names_standard_input(path@) {
            "<stdin>"@
        } else {
            path@
        }),
{
    if is_standard_input(path) {
        "<stdin>"
    } else {
        path
    }
}

/// A buffer as it is searched: without one line feed at its end, where it
/// has one and `trim` asks for that.
pub open spec fn trimmed(buffer: Seq<u8>, trim: bool) -> Seq<u8> {
    if trim && buffer.len() > 0 && buffer.last() == LINE_FEED {
        buffer.drop_last()
    } else {
        buffer
    }
}

/// Takes one line feed off the end of the buffer, if it ends in one.
pub fn trim_ending_newline(buffer: &mut Vec<u8>)
    ensures
        final(buffer)@ == trimmed(old(buffer)@, true),
{
    let len: usize = buffer.len();
    if len > 0 && buffer[len - 1] == LINE_FEED {
        buffer.pop();
    }
}

/// The state of a run: the options, the compiled pattern, and whether any
/// input so far has matched.
pub struct Run {
    pub options: Options,
    pub matcher: Matcher,
    pub matched: bool,
}

impl Run {
    /// Begins a run: compiles the pattern, once, before any input is
    /// touched. A pattern that the engine refuses ends the run here.
    pub fn start(pattern: &str, options: Options) -> (begun: Result<Run, CompileError>)
        ensures
            begun.is_ok() == accepted(byte_settings(pattern@, options.case_insensitive)),
            begun matches Ok(run) ==> run.options == options && !run.matched && run.matcher@
                == byte_settings(pattern@, options.case_insensitive),
            begun matches Err(e) ==> e.pattern@ == pattern@ && refusal(
                byte_settings(pattern@, options.case_insensitive),
            ) == Some(e.diagnostic@),
    {
        match build_pattern(pattern, &options) {
            Ok(matcher) => Ok(Run { options, matcher, matched: false }),
            Err(e) => Err(e),
        }
    }

    /// Trims the buffer of an input, if the options ask for it.
    pub fn trim(&self, buffer: &mut Vec<u8>)
        ensures
            final(buffer)@ == trimmed(old(buffer)@, self.options.trim_ending_newline),
    {
        if self.options.trim_ending_newline {
            trim_ending_newline(buffer);
        }
    }

    /// Begins the report on one input, whose buffer has been trimmed: the
    /// records that the options ask for, to be written one by one.
    pub fn report<'r, 'h>(&'r self, path: &'h str, buffer: &'h [u8]) -> (report: Report<'r, 'h>)
        ensures
            report@ == records_of(self.options, path.spec_bytes(), self.matcher@, buffer@),
            !report.wrote_any(),
    {
        Report::new(&self.options, path, &self.matcher, buffer)
    }

    /// Notes whether an input matched.
    pub fn record(&mut self, matched: bool)
        ensures
            final(self).matched == (old(self).matched || matched),
            final(self).options == old(self).options,
            final(self).matcher == old(self).matcher,
    {
        if matched {
            self.matched = true;
        }
    }

    /// Takes in one input at once: trims the buffer if the options ask for it, scans
    /// it, appends to the sink what the options ask to be written, and notes
    /// whether the input matched. Returns whether this input matched.
    pub fn feed(&mut self, out: &mut Vec<u8>, path: &str, buffer: &mut Vec<u8>) -> (matched: bool)
        ensures
            final(buffer)@ == trimmed(old(buffer)@, old(self).options.trim_ending_newline),
            matched == matched_of(old(self).options, old(self).matcher@, final(buffer)@),
            final(out)@ == old(out)@ + output_of(
                old(self).options,
                path.spec_bytes(),
                old(self).matcher@,
                final(buffer)@,
            ),
            final(self).matched == (old(self).matched || matched),
            final(self).options == old(self).options,
            final(self).matcher == old(self).matcher,
    {
        self.trim(buffer);
        let matched = grep(out, &self.options, path, &self.matcher, buffer.as_slice());
        self.record(matched);
        matched
    }

    /// Ends the run. Returns whether any input matched; a run without
    /// inputs has matched nothing.
    pub fn finish(self) -> (matched: bool)
        ensures
            matched == self.matched,
    {
        self.matched
    }
}

} // verus!
