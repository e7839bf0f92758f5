//! Regular expressions of the `fancy-regex` crate, held with their source text
//! so that what a search finds can be named by the pattern and the text.

use vstd::prelude::*;
pub use crate::compiled::{Pattern, regex_compiles, regex_search};
use crate::compiled::{compile, search};

verus! {

/// Why a regular expression could not be used.
#[derive(Debug)]
pub enum RegexFailure {
    /// The source text is not a pattern that `fancy-regex` compiles.
    Compile(fancy_regex::Error),
    /// The search gave up on a text.
    Search(fancy_regex::Error),
}

impl Pattern {
    /// Compiles `source`.
    pub fn new(source: &str) -> (r: Result<Pattern, RegexFailure>)
        ensures
            r is Ok <==> regex_compiles(source@),
            r matches Ok(p) ==> p@ == source@,
            r matches Err(e) ==> e is Compile,
    {
        match compile(source) {
            Ok(p) => Ok(p),
            Err(e) => Err(RegexFailure::Compile(e)),
        }
    }

    /// Whether the pattern matches somewhere in `text`.
    pub fn is_match(&self, text: &str) -> (r: Result<bool, RegexFailure>)
        ensures
            match r {
                Ok(found) => regex_search(self@, text@) == Some(found),
                Err(e) => regex_search(self@, text@) is None && e is Search,
            },
    {
        match search(self, text) {
            Ok(found) => Ok(found),
            Err(e) => Err(RegexFailure::Search(e)),
        }
    }
}

} // verus!
