//! What a search is asked to do.

use vstd::prelude::*;

verus! {

/// What is written for an input.
#[derive(Clone, Copy, Debug, PartialEq, Eq, Structural)]
pub enum Output {
    /// The name of the input, once, if the search finds anything in it.
    FileName,
    /// The bytes of each span found, one span to a line.
    Bytes,
    /// The offset at which each span found begins, in hexadecimal, one to a
    /// line.
    Offset,
}

/// The options of a search.
#[derive(Clone, Copy, Debug, PartialEq, Eq, Structural)]
pub struct Options {
    /// Letters match in either case.
    pub case_insensitive: bool,
    /// Report what lies between the matches, not the matches.
    pub inverse: bool,
    /// When names are written: name the inputs in which nothing was found.
    pub non_matching: bool,
    /// Leave one line feed at the end of an input out of the search.
    pub trim_ending_newline: bool,
    /// What to write.
    pub output: Output,
}

} // verus!
