//! The three output formats.
//!
//! Each format scans one buffer and appends its lines to a sink of bytes,
//! one record to a line, and tells whether the input counts as matched.

use vstd::prelude::*;
use vstd::slice::slice_subrange;
use vstd::string::StringSliceAdditionalSpecFns;
use crate::engine::{Matcher, Settings};
use crate::options::{Options, Output};
use crate::scan::{Scanner, found, reported};
use crate::span::Span;

verus! {

/// The byte that ends a line.
pub const LINE_FEED: u8 = 10;

/// A record as a line of output: its bytes as they are, then a line feed.
pub open spec fn line(record: Seq<u8>) -> Seq<u8> {
    record.push(LINE_FEED)
}

/// The lowercase hexadecimal digit for a value below sixteen.
pub open spec fn hex_digit_of(nibble: int) -> u8 {
    if nibble < 10 {
        (48 + nibble) as u8
    } else {
        (87 + nibble) as u8
    }
}

/// A number in lowercase hexadecimal digits, with no leading zero but for
/// zero itself.
pub open spec fn hex_digits(value: nat) -> Seq<u8>
    decreases value,
{
    if value < 16 {
        seq![hex_digit_of(value as int)]
    } else {
        hex_digits(value / 16).push(hex_digit_of((value % 16) as int))
    }
}

/// An offset as it is written: `0x`, then its hexadecimal digits.
pub open spec fn offset_text(offset: usize) -> Seq<u8> {
    seq![48u8, 120u8] + hex_digits(offset as nat)
}

/// The bytes of `buffer` that a span holds; none where the span does not
/// lie inside the buffer.
pub open spec fn span_bytes(buffer: Seq<u8>, span: Span) -> Seq<u8> {
    if span.start <= span.end <= buffer.len() {
        buffer.subrange(span.start as int, span.end as int)
    } else {
        Seq::empty()
    }
}

/// The records that the offsets of the spans make, each a line, in order.
pub open spec fn offset_records(spans: Seq<Span>) -> Seq<Seq<u8>> {
    spans.map_values(|span: Span| line(offset_text(span.start)))
}

/// The records that the bytes of the spans make, each a line, in order.
pub open spec fn bytes_records(buffer: Seq<u8>, spans: Seq<Span>) -> Seq<Seq<u8>> {
    spans.map_values(|span: Span| line(span_bytes(buffer, span)))
}

/// The lines that the offsets of the spans make, in order.
pub open spec fn offset_lines(spans: Seq<Span>) -> Seq<u8> {
    offset_records(spans).flatten()
}

/// The lines that the bytes of the spans make, in order.
pub open spec fn bytes_lines(buffer: Seq<u8>, spans: Seq<Span>) -> Seq<u8> {
    bytes_records(buffer, spans).flatten()
}

/// The verdict on an input when names are written: whether the search found
/// anything, turned round when the inputs without a find are asked for.
pub open spec fn verdict(raw: bool, non_matching: bool) -> bool {
    raw != non_matching
}

/// To turn a verdict round twice gives the verdict back.
pub proof fn lemma_non_matching_twice(raw: bool, non_matching: bool)
    ensures
        verdict(verdict(raw, non_matching), non_matching) == raw,
{
}

/// Appends one record to the sink, as a line.
pub fn emit_line(out: &mut Vec<u8>, record: &[u8])
    ensures
        final(out)@ == old(out)@ + line(record@),
{
    out.extend_from_slice(record);
    out.push(LINE_FEED);
    assert(out@ =~= old(out)@ + line(record@));
}

/// Appends the bytes that a span holds in `buffer` to the sink, as a line.
pub fn emit_bytes(out: &mut Vec<u8>, buffer: &[u8], span: Span)
    ensures
        final(out)@ == old(out)@ + line(span_bytes(buffer@, span)),
{
    if span.start <= span.end && span.end <= buffer.len() {
        emit_line(out, slice_subrange(buffer, span.start, span.end));
    } else {
        out.push(LINE_FEED);
        assert(out@ =~= old(out)@ + line(span_bytes(buffer@, span)));
    }
}

fn hex_digit(nibble: usize) -> (digit: u8)
    requires
        nibble < 16,
    ensures
        digit == hex_digit_of(nibble as int),
{
    if nibble < 10 {
        48u8 + nibble as u8
    } else {
        87u8 + nibble as u8
    }
}

/// Appends a number to the sink in lowercase hexadecimal digits.
pub fn push_hex(out: &mut Vec<u8>, value: usize)
    ensures
        final(out)@ == old(out)@ + hex_digits(value as nat),
    decreases value,
{
    if value >= 16 {
        push_hex(out, value / 16);
    }
    out.push(hex_digit(value % 16));
    assert(out@ =~= old(out)@ + hex_digits(value as nat));
}

/// Appends one offset to the sink, as a line.
pub fn emit_offset(out: &mut Vec<u8>, offset: usize)
    ensures
        final(out)@ == old(out)@ + line(offset_text(offset)),
{
    out.push(48u8);
    out.push(120u8);
    push_hex(out, offset);
    out.push(LINE_FEED);
    assert(out@ =~= old(out)@ + line(offset_text(offset)));
}

proof fn lemma_offset_lines_push(spans: Seq<Span>, span: Span)
    ensures
        offset_lines(spans.push(span)) == offset_lines(spans) + line(offset_text(span.start)),
{
    let f = |span: Span| line(offset_text(span.start));
    assert(spans.push(span).map_values(f) =~= spans.map_values(f).push(f(span)));
    spans.map_values(f).lemma_flatten_push(f(span));
}

proof fn lemma_bytes_lines_push(buffer: Seq<u8>, spans: Seq<Span>, span: Span)
    ensures
        bytes_lines(buffer, spans.push(span)) == bytes_lines(buffer, spans) + line(
            span_bytes(buffer, span),
        ),
{
    let f = |span: Span| line(span_bytes(buffer, span));
    assert(spans.push(span).map_values(f) =~= spans.map_values(f).push(f(span)));
    spans.map_values(f).lemma_flatten_push(f(span));
}

/// Writes the name of the input, if the verdict on it says so.
///
/// The verdict is whether the scan finds a match, or for an inverse scan a
/// gap, turned round by `non_matching`. The name is written once at most,
/// however much is found. Returns the verdict.
pub fn grep_filename(
    out: &mut Vec<u8>,
    options: &Options,
    path: &str,
    matcher: &Matcher,
    buffer: &[u8],
) -> (matched: bool)
    ensures
        matched == verdict(found(matcher@, buffer@, options.inverse), options.non_matching),
        final(out)@ == old(out)@ + (if matched {
            line(path.spec_bytes())
        } else {
            Seq::<u8>::empty()
        }),
{
    let raw = if options.inverse {
        let mut scanner = Scanner::new(matcher, buffer, true);
        scanner.next().is_some()
    } else {
        matcher.is_match(buffer)
    };
    let matched = raw != options.non_matching;
    if matched {
        emit_line(out, path.as_bytes());
    } else {
        assert(out@ =~= old(out)@ + Seq::<u8>::empty());
    }
    matched
}

/// Writes the bytes of each span that the scan reports, one span to a line:
/// each match, or for an inverse scan each gap. Returns whether a line was
/// written.
pub fn grep_bytes(out: &mut Vec<u8>, options: &Options, matcher: &Matcher, buffer: &[u8]) -> (matched:
    bool)
    ensures
        matched == found(matcher@, buffer@, options.inverse),
        final(out)@ == old(out)@ + bytes_lines(
            buffer@,
            reported(matcher@, buffer@, options.inverse),
        ),
{
    let mut scanner = Scanner::new(matcher, buffer, options.inverse);
    let ghost all = scanner@;
    let ghost mut done: int = 0;
    let mut matched = false;
    assert(all.take(0) =~= Seq::<Span>::empty());
    assert(all.skip(0) =~= all);
    assert(out@ =~= old(out)@ + bytes_lines(buffer@, all.take(0)));
    loop
        invariant
            all == reported(matcher@, buffer@, options.inverse),
            0 <= done <= all.len(),
            scanner@ == all.skip(done),
            matched == (done > 0),
            out@ == old(out)@ + bytes_lines(buffer@, all.take(done)),
        decreases scanner@.len(),
    {
        match scanner.next() {
            None => {
                assert(all.take(done) =~= all);
                return matched;
            },
            Some(span) => {
                proof {
                    assert(span == all[done]);
                    assert(all.skip(done).drop_first() =~= all.skip(done + 1));
                    assert(all.take(done + 1) =~= all.take(done).push(span));
                    lemma_bytes_lines_push(buffer@, all.take(done), span);
                }
                emit_bytes(out, buffer, span);
                matched = true;
                proof {
                    done = done + 1;
                    assert(out@ =~= old(out)@ + bytes_lines(buffer@, all.take(done)));
                }
            },
        }
    }
}

/// Writes the offset at which each span that the scan reports begins, in
/// hexadecimal, one to a line: of each match, or for an inverse scan of each
/// gap. Returns whether a line was written.
pub fn grep_offset(out: &mut Vec<u8>, options: &Options, matcher: &Matcher, buffer: &[u8]) -> (matched:
    bool)
    ensures
        matched == found(matcher@, buffer@, options.inverse),
        final(out)@ == old(out)@ + offset_lines(reported(matcher@, buffer@, options.inverse)),
{
    let mut scanner = Scanner::new(matcher, buffer, options.inverse);
    let ghost all = scanner@;
    let ghost mut done: int = 0;
    let mut matched = false;
    assert(all.take(0) =~= Seq::<Span>::empty());
    assert(all.skip(0) =~= all);
    assert(out@ =~= old(out)@ + offset_lines(all.take(0)));
    loop
        invariant
            all == reported(matcher@, buffer@, options.inverse),
            0 <= done <= all.len(),
            scanner@ == all.skip(done),
            matched == (done > 0),
            out@ == old(out)@ + offset_lines(all.take(done)),
        decreases scanner@.len(),
    {
        match scanner.next() {
            None => {
                assert(all.take(done) =~= all);
                return matched;
            },
            Some(span) => {
                proof {
                    assert(span == all[done]);
                    assert(all.skip(done).drop_first() =~= all.skip(done + 1));
                    assert(all.take(done + 1) =~= all.take(done).push(span));
                    lemma_offset_lines_push(all.take(done), span);
                }
                emit_offset(out, span.start);
                matched = true;
                proof {
                    done = done + 1;
                    assert(out@ =~= old(out)@ + offset_lines(all.take(done)));
                }
            },
        }
    }
}

/// Whether an input counts as matched under the options: for names, the
/// verdict; for bytes and offsets, whether the scan found a span, which
/// `non_matching` does not alter.
pub open spec fn matched_of(options: Options, settings: Settings, buffer: Seq<u8>) -> bool {
    match options.output {
        Output::FileName => verdict(
            found(settings, buffer, options.inverse),
            options.non_matching,
        ),
        Output::Bytes => found(settings, buffer, options.inverse),
        Output::Offset => found(settings, buffer, options.inverse),
    }
}

/// The bytes that a scan of one input writes under the options, for an
/// input whose name is `path`.
pub open spec fn output_of(options: Options, path: Seq<u8>, settings: Settings, buffer: Seq<u8>) -> Seq<
    u8,
> {
    match options.output {
        Output::FileName => if matched_of(options, settings, buffer) {
            line(path)
        } else {
            Seq::<u8>::empty()
        },
        Output::Bytes => bytes_lines(buffer, reported(settings, buffer, options.inverse)),
        Output::Offset => offset_lines(reported(settings, buffer, options.inverse)),
    }
}

/// The records that a scan of one input writes under the options, one by
/// one: the name of the input, once, if the verdict says so; or a line for
/// each span that the scan reports.
pub open spec fn records_of(options: Options, path: Seq<u8>, settings: Settings, buffer: Seq<u8>) -> Seq<
    Seq<u8>,
> {
    match options.output {
        Output::FileName => if matched_of(options, settings, buffer) {
            seq![line(path)]
        } else {
            Seq::<Seq<u8>>::empty()
        },
        Output::Bytes => bytes_records(buffer, reported(settings, buffer, options.inverse)),
        Output::Offset => offset_records(reported(settings, buffer, options.inverse)),
    }
}

/// The records of an input, written one after another, are the output for
/// that input; and the input counts as matched exactly when it has a
/// record, whatever the format.
pub proof fn lemma_records_make_the_output(
    options: Options,
    path: Seq<u8>,
    settings: Settings,
    buffer: Seq<u8>,
)
    ensures
        records_of(options, path, settings, buffer).flatten() == output_of(
            options,
            path,
            settings,
            buffer,
        ),
        records_of(options, path, settings, buffer).len() > 0 <==> matched_of(
            options,
            settings,
            buffer,
        ),
{
    let records = records_of(options, path, settings, buffer);
    if options.output == Output::FileName {
        if matched_of(options, settings, buffer) {
            records.lemma_flatten_one_element();
        } else {
            assert(records.flatten() =~= Seq::<u8>::empty());
        }
    }
}

/// Scans one buffer and writes what the options ask for. Returns whether
/// the input counts as matched.
pub fn grep(out: &mut Vec<u8>, options: &Options, path: &str, matcher: &Matcher, buffer: &[u8]) -> (matched:
    bool)
    ensures
        matched == matched_of(*options, matcher@, buffer@),
        final(out)@ == old(out)@ + output_of(*options, path.spec_bytes(), matcher@, buffer@),
{
    match options.output {
        Output::FileName => grep_filename(out, options, path, matcher, buffer),
        Output::Bytes => grep_bytes(out, options, matcher, buffer),
        Output::Offset => grep_offset(out, options, matcher, buffer),
    }
}

/// A second scan of the same buffer, with the same matcher and the same
/// options, writes the very bytes that the first one wrote: what a scan
/// writes depends on nothing else, and not on what the sink holds.
pub proof fn lemma_scan_again_writes_the_same(
    options: Options,
    path: Seq<u8>,
    settings: Settings,
    buffer: Seq<u8>,
    sink: Seq<u8>,
)
    ensures
        ({
            let once = sink + output_of(options, path, settings, buffer);
            let twice = once + output_of(options, path, settings, buffer);
            twice.skip(once.len() as int) == once.skip(sink.len() as int)
        }),
{
    let written = output_of(options, path, settings, buffer);
    let once = sink + written;
    let twice = once + written;
    assert(twice.skip(once.len() as int) =~= written);
    assert(once.skip(sink.len() as int) =~= written);
}

} // verus!
