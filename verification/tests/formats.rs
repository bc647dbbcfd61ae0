use bgrep::engine::Matcher;
use bgrep::options::{Options, Output};
use bgrep::output::{
    emit_bytes, emit_line, emit_offset, grep, grep_bytes, grep_filename, grep_offset, push_hex,
};
use bgrep::span::Span;

fn options(output: Output, inverse: bool, non_matching: bool) -> Options {
    Options {
        case_insensitive: false,
        inverse,
        non_matching,
        trim_ending_newline: false,
        output,
    }
}

fn matcher(pattern: &str) -> Matcher {
    match Matcher::compile(pattern, false) {
        Ok(m) => m,
        Err(e) => panic!("pattern {} refused: {}", e.pattern, e.diagnostic),
    }
}

#[test]
fn forward_bytes_writes_each_match_on_a_line() {
    let m = matcher("ab");
    let mut out = Vec::new();
    let matched = grep_bytes(&mut out, &options(Output::Bytes, false, false), &m, b"xxabxxabxx");
    assert!(matched);
    assert_eq!(out, b"ab\nab\n".to_vec());
}

#[test]
fn forward_offset_writes_each_start_in_hex() {
    let m = matcher("ab");
    let mut out = Vec::new();
    let matched = grep_offset(&mut out, &options(Output::Offset, false, false), &m, b"xxabxxabxx");
    assert!(matched);
    assert_eq!(out, b"0x2\n0x6\n".to_vec());
}

#[test]
fn inverse_bytes_writes_the_three_gaps() {
    let m = matcher("ab");
    let mut out = Vec::new();
    let matched = grep_bytes(&mut out, &options(Output::Bytes, true, false), &m, b"xxabxxabxx");
    assert!(matched);
    assert_eq!(out, b"xx\nxx\nxx\n".to_vec());
}

#[test]
fn inverse_offset_writes_where_each_gap_begins() {
    let m = matcher("ab");
    let mut out = Vec::new();
    let matched = grep_offset(&mut out, &options(Output::Offset, true, false), &m, b"xxabxxabxx");
    assert!(matched);
    assert_eq!(out, b"0x0\n0x4\n0x8\n".to_vec());
}

#[test]
fn inverse_filename_is_silent_when_the_pattern_covers_the_buffer() {
    let m = matcher(".*");
    let mut out = Vec::new();
    let matched =
        grep_filename(&mut out, &options(Output::FileName, true, false), "some/file", &m, b"hello");
    assert!(!matched);
    assert!(out.is_empty());
}

#[test]
fn inverse_filename_with_non_matching_names_the_covered_buffer() {
    let m = matcher(".*");
    let mut out = Vec::new();
    let matched =
        grep_filename(&mut out, &options(Output::FileName, true, true), "some/file", &m, b"hello");
    assert!(matched);
    assert_eq!(out, b"some/file\n".to_vec());
}

#[test]
fn inverse_scan_of_an_empty_buffer_reports_nothing() {
    for pattern in ["ab", ".*", "x*", "^", "$"] {
        let m = matcher(pattern);
        let mut out = Vec::new();
        assert!(!grep_bytes(&mut out, &options(Output::Bytes, true, false), &m, b""));
        assert!(!grep_offset(&mut out, &options(Output::Offset, true, false), &m, b""));
        assert!(!grep_filename(&mut out, &options(Output::FileName, true, false), "p", &m, b""));
        assert!(out.is_empty());
    }
}

#[test]
fn adjacent_matches_leave_no_gap_between_them() {
    let m = matcher("a");
    let mut out = Vec::new();
    let matched = grep_bytes(&mut out, &options(Output::Bytes, true, false), &m, b"aa");
    assert!(!matched);
    assert!(out.is_empty());
    let matched = grep_offset(&mut out, &options(Output::Offset, true, false), &m, b"aa");
    assert!(!matched);
    assert!(out.is_empty());
}

#[test]
fn forward_filename_names_the_input_once() {
    let m = matcher("ab");
    let mut out = Vec::new();
    let matched =
        grep_filename(&mut out, &options(Output::FileName, false, false), "a.bin", &m, b"abababab");
    assert!(matched);
    assert_eq!(out, b"a.bin\n".to_vec());
}

#[test]
fn forward_filename_is_silent_without_a_match() {
    let m = matcher("ab");
    let mut out = Vec::new();
    let matched =
        grep_filename(&mut out, &options(Output::FileName, false, false), "a.bin", &m, b"xyz");
    assert!(!matched);
    assert!(out.is_empty());
}

#[test]
fn forward_filename_with_non_matching_names_the_input_without_a_match() {
    let m = matcher("ab");
    let mut out = Vec::new();
    let o = options(Output::FileName, false, true);
    assert!(grep_filename(&mut out, &o, "none", &m, b"xyz"));
    assert!(!grep_filename(&mut out, &o, "some", &m, b"xaby"));
    assert_eq!(out, b"none\n".to_vec());
}

#[test]
fn inverse_filename_finds_a_gap_before_between_and_after() {
    let m = matcher("ab");
    let o = options(Output::FileName, true, false);
    for buffer in [&b"xab"[..], &b"abxab"[..], &b"abx"[..], &b"x"[..]] {
        let mut out = Vec::new();
        assert!(grep_filename(&mut out, &o, "f", &m, buffer));
        assert_eq!(out, b"f\n".to_vec());
    }
    let mut out = Vec::new();
    assert!(!grep_filename(&mut out, &o, "f", &m, b"abab"));
    assert!(out.is_empty());
}

#[test]
fn non_matching_does_not_alter_bytes_or_offsets() {
    let m = matcher("ab");
    for inverse in [false, true] {
        let mut plain = Vec::new();
        let mut turned = Vec::new();
        let a = grep_bytes(&mut plain, &options(Output::Bytes, inverse, false), &m, b"xxabxx");
        let b = grep_bytes(&mut turned, &options(Output::Bytes, inverse, true), &m, b"xxabxx");
        assert_eq!(a, b);
        assert_eq!(plain, turned);
        let mut plain = Vec::new();
        let mut turned = Vec::new();
        let a = grep_offset(&mut plain, &options(Output::Offset, inverse, false), &m, b"xxabxx");
        let b = grep_offset(&mut turned, &options(Output::Offset, inverse, true), &m, b"xxabxx");
        assert_eq!(a, b);
        assert_eq!(plain, turned);
    }
}

#[test]
fn non_matching_twice_gives_the_raw_verdict_back() {
    let m = matcher("ab");
    for buffer in [&b"xaby"[..], &b"xyz"[..]] {
        for inverse in [false, true] {
            let mut out = Vec::new();
            let raw = grep_filename(&mut out, &options(Output::FileName, inverse, false), "f", &m, buffer);
            let turned = grep_filename(&mut out, &options(Output::FileName, inverse, true), "f", &m, buffer);
            assert_eq!(turned, raw ^ true);
            assert_eq!((raw ^ true) ^ true, raw);
            assert_eq!((raw ^ false) ^ false, raw);
        }
    }
}

#[test]
fn bytes_without_a_match_writes_nothing() {
    let m = matcher("ab");
    let mut out = Vec::new();
    assert!(!grep_bytes(&mut out, &options(Output::Bytes, false, false), &m, b"xyz"));
    assert!(!grep_offset(&mut out, &options(Output::Offset, false, false), &m, b"xyz"));
    assert!(out.is_empty());
}

#[test]
fn inverse_without_a_match_reports_the_whole_buffer() {
    let m = matcher("ab");
    let mut out = Vec::new();
    assert!(grep_bytes(&mut out, &options(Output::Bytes, true, false), &m, b"xyz"));
    assert_eq!(out, b"xyz\n".to_vec());
    let mut out = Vec::new();
    assert!(grep_offset(&mut out, &options(Output::Offset, true, false), &m, b"xyz"));
    assert_eq!(out, b"0x0\n".to_vec());
}

#[test]
fn inverse_bytes_counts_a_gap_behind_a_leading_match() {
    let m = matcher("ab");
    let mut out = Vec::new();
    let matched = grep_bytes(&mut out, &options(Output::Bytes, true, false), &m, b"abxx");
    assert!(matched);
    assert_eq!(out, b"xx\n".to_vec());
}

#[test]
fn matched_bytes_are_written_verbatim() {
    let m = matcher("a.b");
    let mut out = Vec::new();
    let buffer = [0x00u8, b'a', b'\n', b'b', 0xff, b'a', 0xfe, b'b'];
    assert!(grep_bytes(&mut out, &options(Output::Bytes, false, false), &m, &buffer));
    assert_eq!(out, vec![b'a', b'\n', b'b', b'\n', b'a', 0xfe, b'b', b'\n']);
}

#[test]
fn empty_matches_cut_the_buffer_into_single_bytes() {
    let m = matcher("x*");
    let mut out = Vec::new();
    assert!(grep_offset(&mut out, &options(Output::Offset, true, false), &m, b"hello"));
    assert_eq!(out, b"0x0\n0x1\n0x2\n0x3\n0x4\n".to_vec());
    let mut out = Vec::new();
    assert!(grep_bytes(&mut out, &options(Output::Bytes, true, false), &m, b"hello"));
    assert_eq!(out, b"h\ne\nl\nl\no\n".to_vec());
    let mut out = Vec::new();
    assert!(grep_offset(&mut out, &options(Output::Offset, false, false), &m, b"hello"));
    assert_eq!(out, b"0x0\n0x1\n0x2\n0x3\n0x4\n0x5\n".to_vec());
    let mut out = Vec::new();
    assert!(grep_bytes(&mut out, &options(Output::Bytes, false, false), &m, b"he"));
    assert_eq!(out, b"\n\n\n".to_vec());
}

#[test]
fn output_is_appended_to_what_the_sink_holds() {
    let m = matcher("ab");
    let mut out = b"before\n".to_vec();
    assert!(grep_offset(&mut out, &options(Output::Offset, false, false), &m, b"ab"));
    assert_eq!(out, b"before\n0x0\n".to_vec());
}

#[test]
fn scanning_twice_writes_the_same_bytes() {
    let buffer = b"xxabxxabxx\nab";
    for pattern in ["ab", "x*", ".*", "b|x"] {
        let m = matcher(pattern);
        for output in [Output::FileName, Output::Bytes, Output::Offset] {
            for inverse in [false, true] {
                let o = options(output, inverse, false);
                let mut out = Vec::new();
                let first = grep(&mut out, &o, "name", &m, buffer);
                let once = out.clone();
                let second = grep(&mut out, &o, "name", &m, buffer);
                assert_eq!(first, second);
                assert_eq!(out[once.len()..], once[..]);
            }
        }
    }
}

#[test]
fn grep_follows_the_output_option() {
    let m = matcher("ab");
    let mut out = Vec::new();
    assert!(grep(&mut out, &options(Output::FileName, false, false), "n", &m, b"xab"));
    assert!(grep(&mut out, &options(Output::Bytes, false, false), "n", &m, b"xab"));
    assert!(grep(&mut out, &options(Output::Offset, false, false), "n", &m, b"xab"));
    assert_eq!(out, b"n\nab\n0x1\n".to_vec());
}

#[test]
fn hex_digits_are_lowercase_without_leading_zeros() {
    let cases: [(usize, &[u8]); 8] = [
        (0, b"0"),
        (9, b"9"),
        (10, b"a"),
        (15, b"f"),
        (16, b"10"),
        (255, b"ff"),
        (0x1234abcd, b"1234abcd"),
        (0xdead_beef, b"deadbeef"),
    ];
    for (value, text) in cases {
        let mut out = Vec::new();
        push_hex(&mut out, value);
        assert_eq!(out, text.to_vec());
    }
    let mut out = Vec::new();
    push_hex(&mut out, usize::MAX);
    assert_eq!(out, format!("{:x}", usize::MAX).into_bytes());
}

#[test]
fn an_offset_is_written_with_its_prefix_and_a_line_feed() {
    let mut out = Vec::new();
    emit_offset(&mut out, 0);
    emit_offset(&mut out, 4096);
    assert_eq!(out, b"0x0\n0x1000\n".to_vec());
}

#[test]
fn a_record_is_written_as_it_is_and_ended_by_a_line_feed() {
    let mut out = Vec::new();
    emit_line(&mut out, b"");
    emit_line(&mut out, b"a\nb");
    emit_line(&mut out, &[0xff, 0x00]);
    assert_eq!(out, vec![b'\n', b'a', b'\n', b'b', b'\n', 0xff, 0x00, b'\n']);
}

#[test]
fn the_bytes_of_a_span_are_written_as_a_line() {
    let mut out = Vec::new();
    emit_bytes(&mut out, b"hello", Span { start: 1, end: 3 });
    emit_bytes(&mut out, b"hello", Span { start: 0, end: 5 });
    emit_bytes(&mut out, b"hello", Span { start: 5, end: 5 });
    assert_eq!(out, b"el\nhello\n\n".to_vec());
}

#[test]
fn a_span_outside_the_buffer_holds_no_bytes() {
    let mut out = Vec::new();
    emit_bytes(&mut out, b"hello", Span { start: 3, end: 6 });
    emit_bytes(&mut out, b"hello", Span { start: 4, end: 2 });
    emit_bytes(&mut out, b"", Span { start: 0, end: 1 });
    assert_eq!(out, b"\n\n\n".to_vec());
}
