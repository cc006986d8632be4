//! Compiled patterns, and what the engines ask of the regex engine.
//!
//! Verus sees nothing of how a pattern matches. Each question that the
//! engines put to the regex engine has a name here, a function of the
//! pattern's source text and of the text searched, and the rest of the
//! library is proved over those names.

use vstd::prelude::*;

verus! {

/// `regex::Regex`, a compiled regular expression, carried as it is.
#[verifier::external_type_specification]
#[verifier::external_body]
pub struct ExRegex(regex::Regex);

/// `regex::Error`, what `Regex::new` fails with.
#[verifier::external_type_specification]
#[verifier::external_body]
pub struct ExRegexError(regex::Error);

/// The source text that a compiled regex was built from: what
/// `Regex::as_str` returns.
pub uninterp spec fn regex_source(re: regex::Regex) -> Seq<char>;

/// Whether `re` is a regex as `Regex::new` builds it, with no option of a
/// builder changed: only of such a regex do the source text and the text
/// searched decide every answer.
pub uninterp spec fn built_by_new(re: regex::Regex) -> bool;

/// Whether `source` compiles: whether `Regex::new` returns `Ok` on it.
pub uninterp spec fn pattern_is_valid(source: Seq<char>) -> bool;

/// Whether the pattern `source` has a match anywhere in `text`: what
/// `Regex::is_match` returns.
pub uninterp spec fn matches_in(source: Seq<char>, text: Seq<char>) -> bool;

/// The number of non-overlapping matches of the pattern `source` in `text`:
/// how many items `Regex::find_iter` yields.
pub uninterp spec fn match_count(source: Seq<char>, text: Seq<char>) -> nat;

/// `text` with every non-overlapping match of the pattern `source` replaced
/// by the expansion of `template`: what `Regex::replace_all` returns.
pub uninterp spec fn replaced_text(
    source: Seq<char>,
    text: Seq<char>,
    template: Seq<char>,
) -> Seq<char>;

/// Calls `Regex::new`. It fails on a source that is no valid pattern, or
/// whose compiled form would pass the default size limit; both depend on
/// the source alone. A regex that it returns keeps its source text.
#[verifier::external_body]
fn compile(source: &str) -> (result: Result<regex::Regex, regex::Error>)
    ensures
        result is Ok <==> pattern_is_valid(source@),
        result matches Ok(re) ==> built_by_new(re) && regex_source(re) == source@,
{
    regex::Regex::new(source)
}

/// Calls `Regex::as_str`, which returns the source text of the regex.
#[verifier::external_body]
fn regex_as_str(re: &regex::Regex) -> (source: &str)
    ensures
        source@ == regex_source(*re),
{
    re.as_str()
}

/// Calls `Regex::is_match`: whether the regex has a match anywhere in
/// `text`, which its source and `text` decide.
#[verifier::external_body]
fn regex_is_match(re: &regex::Regex, text: &str) -> (found: bool)
    requires
        built_by_new(*re),
    ensures
        found == matches_in(regex_source(*re), text@),
{
    re.is_match(text)
}

/// Calls `Regex::find_iter`, and counts the matches that it yields, which
/// the regex's source and `text` decide.
#[verifier::external_body]
fn regex_count(re: &regex::Regex, text: &str) -> (count: usize)
    requires
        built_by_new(*re),
    ensures
        count == match_count(regex_source(*re), text@),
{
    re.find_iter(text).count()
}

/// Calls `Regex::replace_all`, with a string as the replacement. Where the
/// regex has no match in `text`, the crate returns `text` unchanged.
#[verifier::external_body]
fn regex_replace_all(re: &regex::Regex, text: &str, template: &str) -> (replaced: String)
    requires
        built_by_new(*re),
    ensures
        replaced@ == replaced_text(regex_source(*re), text@, template@),
        !matches_in(regex_source(*re), text@) ==> replaced@ == text@,
{
    re.replace_all(text, template).into_owned()
}

/// `text` after substitution: `text` itself where the pattern `source` has no
/// match in it, else `text` with every match replaced by the expansion of
/// `template`.
pub open spec fn substituted(source: Seq<char>, text: Seq<char>, template: Seq<char>) -> Seq<char> {
    if matches_in(source, text) {
        replaced_text(source, text, template)
    } else {
        text
    }
}

/// A compiled pattern. Its view is the source text it was compiled from.
pub struct Pattern {
    re: regex::Regex,
}

impl Pattern {
    #[verifier::type_invariant]
    spec fn compiled_plainly(self) -> bool {
        built_by_new(self.re)
    }
}

impl View for Pattern {
    type V = Seq<char>;

    closed spec fn view(&self) -> Seq<char> {
        regex_source(self.re)
    }
}

impl Pattern {
    /// Compiles `source`, or returns `None` where it is no valid pattern.
    pub fn new(source: &str) -> (result: Option<Pattern>)
        ensures
            result is Some <==> pattern_is_valid(source@),
            result matches Some(p) ==> p@ == source@,
    {
        match compile(source) {
            Ok(re) => Some(Pattern { re }),
            Err(_) => None,
        }
    }

    /// The source text of the pattern.
    pub fn as_str(&self) -> (source: &str)
        ensures
            source@ == self@,
    {
        regex_as_str(&self.re)
    }

    /// Whether the pattern has a match anywhere in `text`.
    pub fn is_match(&self, text: &str) -> (found: bool)
        ensures
            found == matches_in(self@, text@),
    {
        proof {
            use_type_invariant(self);
        }
        regex_is_match(&self.re, text)
    }

    /// The number of non-overlapping matches in `text`.
    pub fn count_matches(&self, text: &str) -> (count: usize)
        ensures
            count == match_count(self@, text@),
    {
        proof {
            use_type_invariant(self);
        }
        regex_count(&self.re, text)
    }

    /// `text` with every match replaced by the expansion of `template`.
    pub fn replace_all(&self, text: &str, template: &str) -> (replaced: String)
        ensures
            replaced@ == substituted(self@, text@, template@),
    {
        proof {
            use_type_invariant(self);
        }
        regex_replace_all(&self.re, text, template)
    }
}

} // verus!
