//! Fuzzy matching with `nucleo_matcher`.
//!
//! A query is parsed once into a pattern; the pattern then scores texts and
//! gives the positions of the characters it matched. The scores and the
//! positions are those of `nucleo_matcher`'s algorithm, named here and not
//! written out: the library only relies on their being functions of the
//! query and the text.

use vstd::prelude::*;
use nucleo_matcher::pattern::{CaseMatching, Normalization, Pattern};
use nucleo_matcher::{Matcher, Utf32Str};

verus! {

#[verifier::external_type_specification]
#[verifier::external_body]
pub struct ExMatcher(Matcher);

#[verifier::external_type_specification]
#[verifier::external_body]
pub struct ExPattern(Pattern);

/// The score of `text` against the query, as `Pattern::score` gives it for
/// a pattern parsed from `query` ignoring case with smart normalization:
/// `None` when the text does not match.
pub uninterp spec fn nucleo_score(query: Seq<char>, text: Seq<char>) -> Option<u32>;

/// The character positions in `text` that `Pattern::indices` appends for a
/// pattern parsed from `query`, in the order it appends them.
pub uninterp spec fn nucleo_indices(query: Seq<char>, text: Seq<char>) -> Seq<u32>;

/// The matcher whose scratch memory the scoring uses, with the default
/// configuration.
pub struct FuzzyMatcher {
    matcher: Matcher,
}

/// `Matcher::default`: a matcher with the default configuration.
#[verifier::external_body]
fn default_matcher() -> (m: Matcher) {
    Matcher::default()
}

impl FuzzyMatcher {
    /// A matcher with the default configuration.
    pub fn new() -> (r: Self) {
        FuzzyMatcher { matcher: default_matcher() }
    }
}

/// A search query together with the pattern parsed from it.
///
/// The two fields are only ever set together, by `FuzzyPattern::new`, so
/// the pattern is always the one parsed from the query.
pub struct FuzzyPattern {
    query: String,
    pattern: Pattern,
}

/// `Pattern::parse` with case ignored and smart normalization.
#[verifier::external_body]
fn parse_pattern(query: &str) -> (p: Pattern) {
    Pattern::parse(query, CaseMatching::Ignore, Normalization::Smart)
}

/// `Pattern::score` on `text`, for the pattern of `p`.
///
/// Since `p`'s pattern was parsed from its query, the result is the named
/// `nucleo_score` of the query and the text. As the crate's source shows, a
/// pattern without words (from an empty query) scores every text `Some(0)`.
#[verifier::external_body]
fn pattern_score(p: &FuzzyPattern, matcher: &mut Matcher, text: &str) -> (r: Option<u32>)
    ensures
        r == nucleo_score(p@, text@),
        p@.len() == 0 ==> r == Some(0u32),
{
    let mut buf = Vec::new();
    p.pattern.score(Utf32Str::new(text, &mut buf), matcher)
}

/// `Pattern::indices` on `text`, for the pattern of `p`, into an empty
/// vector: the positions the pattern matched, as the named
/// `nucleo_indices`. A pattern without words appends none.
#[verifier::external_body]
fn pattern_indices(p: &FuzzyPattern, matcher: &mut Matcher, text: &str) -> (r: Vec<u32>)
    ensures
        r@ == nucleo_indices(p@, text@),
        p@.len() == 0 ==> r@.len() == 0,
{
    let mut buf = Vec::new();
    let mut indices = Vec::new();
    let _ = p.pattern.indices(Utf32Str::new(text, &mut buf), matcher, &mut indices);
    indices
}

impl View for FuzzyPattern {
    type V = Seq<char>;

    /// The query the pattern was parsed from.
    closed spec fn view(&self) -> Seq<char> {
        self.query@
    }
}

impl FuzzyPattern {
    /// Parses `query` into a pattern (words separated by spaces, case ignored).
    pub fn new(query: &str) -> (r: Self)
        ensures
            r@ == query@,
    {
        FuzzyPattern { query: query.to_owned(), pattern: parse_pattern(query) }
    }

    /// The query the pattern was parsed from.
    pub fn query(&self) -> (r: &str)
        ensures
            r@ == self@,
    {
        self.query.as_str()
    }

    /// The score of `text`, or `None` when it does not match.
    pub fn score(&self, matcher: &mut FuzzyMatcher, text: &str) -> (r: Option<u32>)
        ensures
            r == nucleo_score(self@, text@),
            self@.len() == 0 ==> r == Some(0u32),
    {
        pattern_score(self, &mut matcher.matcher, text)
    }

    /// The positions of the characters of `text` that the pattern matched,
    /// as `Pattern::indices` appends them (unsorted, possibly repeated).
    pub fn indices(&self, matcher: &mut FuzzyMatcher, text: &str) -> (r: Vec<u32>)
        ensures
            r@ == nucleo_indices(self@, text@),
            self@.len() == 0 ==> r@.len() == 0,
    {
        pattern_indices(self, &mut matcher.matcher, text)
    }
}

} // verus!
