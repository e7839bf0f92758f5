//! A regular expression of the `fancy-regex` crate held with the source text
//! it was compiled from, and the two calls into the crate that make and use it.

use vstd::prelude::*;
use fancy_regex::Regex;

verus! {

#[verifier::external_type_specification]
#[verifier::external_body]
pub struct ExRegex(fancy_regex::Regex);

#[verifier::external_type_specification]
#[verifier::external_body]
pub struct ExRegexError(fancy_regex::Error);

/// Whether `fancy_regex::Regex::new` accepts the source `pattern`.
pub uninterp spec fn regex_compiles(pattern: Seq<char>) -> bool;

/// What `fancy_regex::Regex::is_match` gives on `text` for the regex compiled
/// from `pattern`: `Some(found)`, or `None` where the search fails (its
/// backtracking limit is reached).
pub uninterp spec fn regex_search(pattern: Seq<char>, text: Seq<char>) -> Option<bool>;

/// A compiled regular expression together with its source text. Its fields
/// are private to this module, where only `compile` builds one, from the
/// source it compiles: the regex it holds is always the one `fancy-regex`
/// compiled from the source.
pub struct Pattern {
    source: String,
    compiled: Regex,
}

impl View for Pattern {
    type V = Seq<char>;

    /// The source text of the pattern.
    closed spec fn view(&self) -> Seq<char> {
        self.source@
    }
}

/// Calls `fancy_regex::Regex::new` on `source` and keeps the compiled regex
/// together with a copy of `source`. Trusted: it succeeds exactly when
/// `regex_compiles` holds of the source, and the pattern it gives back has
/// that source; what the compiled regex does is named by `regex_search` over
/// the same source.
#[verifier::external_body]
pub(crate) fn compile(source: &str) -> (r: Result<Pattern, fancy_regex::Error>)
    ensures
        r is Ok <==> regex_compiles(source@),
        r matches Ok(p) ==> p@ == source@,
{
    match Regex::new(source) {
        Ok(compiled) => Ok(Pattern { source: source.to_owned(), compiled }),
        Err(e) => Err(e),
    }
}

/// Calls `fancy_regex::Regex::is_match` on the regex of `pattern`, which
/// `compile`, the only place that makes a `Pattern`, compiled from the
/// pattern's source. Trusted: the answer, and whether there is one, is
/// `regex_search` of the source and the text; it depends on nothing else.
#[verifier::external_body]
pub(crate) fn search(pattern: &Pattern, text: &str) -> (r: Result<bool, fancy_regex::Error>)
    ensures
        match r {
            Ok(found) => regex_search(pattern@, text@) == Some(found),
            Err(_) => regex_search(pattern@, text@) is None,
        },
{
    pattern.compiled.is_match(text)
}

} // verus!
