//! The regular-expression engine, as far as the search relies on it.
//!
//! The engine is the `regex` crate, in its byte-oriented form. Nothing here
//! looks inside it. What the search assumes of it is written down on the
//! items of this module, each of which makes one call into the crate; the
//! rest of the library is proved from these statements.

use vstd::prelude::*;
use regex::bytes::{Matches, Regex, RegexBuilder};
use crate::span::{Span, in_order};

verus! {

/// `regex::bytes::Regex`: a compiled pattern. Nothing inside it is seen
/// here.
#[verifier::external_type_specification]
#[verifier::external_body]
pub struct ExRegex(Regex);

/// `regex::bytes::Matches`: the iterator over the matches of a pattern in
/// a haystack. Nothing inside it is seen here.
#[verifier::external_type_specification]
#[verifier::external_body]
pub struct ExMatches<'r, 'h>(Matches<'r, 'h>);

/// `regex::Error`: why the engine refused a pattern. Nothing inside it is
/// seen here; its text is had through `error_text`.
#[verifier::external_type_specification]
#[verifier::external_body]
pub struct ExError(regex::Error);

/// What a compiled pattern was built from: the pattern text and the three
/// flags that this library sets. Every other option of the engine keeps its
/// default.
pub struct Settings {
    pub pattern: Seq<char>,
    pub unicode: bool,
    pub dot_matches_new_line: bool,
    pub case_insensitive: bool,
}

/// The settings that a compiled pattern was built from.
pub uninterp spec fn settings_of(regex: Regex) -> Settings;

/// What `RegexBuilder::build` answers to `settings` on a machine whose words
/// have `word_bits` bits: nothing if it accepts the pattern, else the text
/// of its error.
///
/// The engine refuses a pattern whose syntax is wrong or whose compiled
/// program is larger than a fixed limit. It counts that size in bytes of its
/// own states, which depends on how wide a machine word is and on nothing
/// else outside the settings.
pub uninterp spec fn refusal_on(settings: Settings, word_bits: nat) -> Option<Seq<char>>;

/// The text of an error of the engine, as `to_string` gives it.
pub uninterp spec fn text_of(error: regex::Error) -> Seq<char>;

/// What the engine answers to `settings` on this machine: nothing if it
/// accepts the pattern, else its diagnostic.
pub open spec fn refusal(settings: Settings) -> Option<Seq<char>> {
    refusal_on(settings, usize::BITS as nat)
}

/// The engine accepts the pattern of `settings`.
pub open spec fn accepted(settings: Settings) -> bool {
    refusal(settings).is_none()
}

/// The matches that a pattern built from `settings` has in `haystack`: the
/// successive leftmost matches, none overlapping another, in the order in
/// which `Regex::find_iter` yields them.
pub uninterp spec fn match_spans(settings: Settings, haystack: Seq<u8>) -> Seq<Span>;

/// The matches that an iterator over matches has yet to yield.
pub uninterp spec fn pending(matches: Matches<'_, '_>) -> Seq<Span>;

/// Compiles `pattern` with `RegexBuilder`: a new builder for the pattern, the
/// three flags set on it, then `build`.
///
/// The answer depends on the arguments and on the width of a machine word
/// alone. An accepted pattern gives a compiled pattern built from exactly the
/// arguments given; a refused one gives the error whose text is the
/// refusal.
#[verifier::external_body]
pub(crate) fn build_regex(
    pattern: &str,
    unicode: bool,
    dot_matches_new_line: bool,
    case_insensitive: bool,
) -> (built: Result<Regex, regex::Error>)
    ensures
        built.is_ok() == refusal_on(
            (Settings { pattern: pattern@, unicode, dot_matches_new_line, case_insensitive }),
            usize::BITS as nat,
        ).is_none(),
        built matches Ok(regex) ==> settings_of(regex) == (Settings {
            pattern: pattern@,
            unicode,
            dot_matches_new_line,
            case_insensitive,
        }),
        built matches Err(error) ==> refusal_on(
            (Settings { pattern: pattern@, unicode, dot_matches_new_line, case_insensitive }),
            usize::BITS as nat,
        ) == Some(text_of(error)),
{
    let mut builder = RegexBuilder::new(pattern);
    builder.unicode(unicode);
    builder.dot_matches_new_line(dot_matches_new_line);
    builder.case_insensitive(case_insensitive);
    builder.build()
}

/// `to_string` on `regex::Error`: the text of the error.
#[verifier::external_body]
pub(crate) fn error_text(error: &regex::Error) -> (text: String)
    ensures
        text@ == text_of(*error),
{
    error.to_string()
}

/// `Regex::is_match`: whether the pattern matches anywhere in the haystack,
/// which is to say whether a search for its matches finds one.
#[verifier::external_body]
pub(crate) fn is_match(regex: &Regex, haystack: &[u8]) -> (found: bool)
    ensures
        found == (match_spans(settings_of(*regex), haystack@).len() > 0),
{
    regex.is_match(haystack)
}

/// `Regex::find_iter`: an iterator that has all the matches of the pattern in
/// the haystack to yield. Each match lies inside the haystack with its start
/// at or before its end, and each begins where the one before it ends, or
/// later.
#[verifier::external_body]
pub(crate) fn find_iter<'r, 'h>(regex: &'r Regex, haystack: &'h [u8]) -> (matches: Matches<'r, 'h>)
    ensures
        pending(matches) == match_spans(settings_of(*regex), haystack@),
        in_order(pending(matches), haystack@.len() as int),
{
    regex.find_iter(haystack)
}

/// `Matches::next`: yields the first of the matches that are pending, as its
/// two offsets, and leaves the others pending; yields nothing once none is
/// left, and goes on yielding nothing.
#[verifier::external_body]
pub(crate) fn next_match(matches: &mut Matches<'_, '_>) -> (found: Option<Span>)
    ensures
        pending(*old(matches)).len() == 0 ==> found.is_none() && pending(*final(matches)).len()
            == 0,
        pending(*old(matches)).len() > 0 ==> found == Some(pending(*old(matches)).first())
            && pending(*final(matches)) == pending(*old(matches)).drop_first(),
{
    matches.next().map(|m| Span { start: m.start(), end: m.end() })
}

/// A pattern that the engine refused: the pattern as it was given, and what
/// the engine said of it.
#[derive(Debug)]
pub struct CompileError {
    pub pattern: String,
    pub diagnostic: String,
}

impl CompileError {
    /// The error for `pattern`, with the text of the engine's own error as
    /// its diagnostic.
    pub fn from_engine(pattern: &str, error: &regex::Error) -> (e: CompileError)
        ensures
            e.pattern@ == pattern@,
            e.diagnostic@ == text_of(*error),
    {
        CompileError { pattern: pattern.to_owned(), diagnostic: error_text(error) }
    }
}

/// The settings of a matcher for `pattern`: bytes are matched as they are,
/// with no Unicode reading of the pattern or of the buffer, and `.` matches
/// every byte, a line feed too.
pub open spec fn byte_settings(pattern: Seq<char>, case_insensitive: bool) -> Settings {
    Settings { pattern, unicode: false, dot_matches_new_line: true, case_insensitive }
}

/// A compiled pattern for searching raw bytes.
///
/// It is compiled once and serves every buffer. Its view is the settings it
/// was built from, which are byte settings always.
pub struct Matcher {
    regex: Regex,
    case_insensitive: bool,
}

impl View for Matcher {
    type V = Settings;

    closed spec fn view(&self) -> Settings {
        settings_of(self.regex)
    }
}

impl Matcher {
    #[verifier::type_invariant]
    spec fn in_byte_mode(self) -> bool {
        settings_of(self.regex) == byte_settings(
            settings_of(self.regex).pattern,
            self.case_insensitive,
        )
    }

    /// Whether the matcher disregards letter case. Whichever it does, it
    /// reads bytes as they are, and its `.` matches every byte.
    pub fn case_insensitive(&self) -> (yes: bool)
        ensures
            yes == self@.case_insensitive,
            self@ == byte_settings(self@.pattern, yes),
    {
        proof {
            use_type_invariant(self);
        }
        self.case_insensitive
    }

    /// Compiles `pattern` for searching raw bytes, with or without regard to
    /// letter case.
    ///
    /// A pattern that the engine accepts under the byte settings gives a
    /// matcher with those settings. Any other gives the error, with the
    /// pattern as it was given and the engine's diagnostic. Nothing else
    /// makes the compilation fail.
    pub fn compile(pattern: &str, case_insensitive: bool) -> (made: Result<Matcher, CompileError>)
        ensures
            made.is_ok() == accepted(byte_settings(pattern@, case_insensitive)),
            made matches Ok(matcher) ==> matcher@ == byte_settings(pattern@, case_insensitive),
            made matches Err(e) ==> e.pattern@ == pattern@ && refusal(
                byte_settings(pattern@, case_insensitive),
            ) == Some(e.diagnostic@),
    {
        match build_regex(pattern, false, true, case_insensitive) {
            Ok(regex) => Ok(Matcher { regex, case_insensitive }),
            Err(error) => Err(CompileError::from_engine(pattern, &error)),
        }
    }

    /// Whether the pattern matches anywhere in `buffer`.
    pub fn is_match(&self, buffer: &[u8]) -> (found: bool)
        ensures
            found == (match_spans(self@, buffer@).len() > 0),
    {
        is_match(&self.regex, buffer)
    }

    /// Starts a search for the matches of the pattern in `buffer`. They are
    /// found one by one, as the iterator is asked for them.
    pub(crate) fn find_iter<'r, 'h>(&'r self, buffer: &'h [u8]) -> (matches: Matches<'r, 'h>)
        ensures
            pending(matches) == match_spans(self@, buffer@),
            in_order(pending(matches), buffer@.len() as int),
    {
        find_iter(&self.regex, buffer)
    }
}

} // verus!
