//! What this crate has from the `regex` crate: whether a source compiles,
//! what a compiled source accepts, and the capture groups of a match. None of
//! it is proved here; the contracts below say what is taken on trust.
//!
//! A `Matcher` is made by `Matcher::build` and by nothing else, and nothing
//! changes one. That is why what a matcher accepts can be named over the
//! source that it remembers.

use vstd::prelude::*;

verus! {

/// `regex::Regex`, a compiled regular expression; nothing of its inside is
/// known here.
#[verifier::external_type_specification]
#[verifier::external_body]
pub struct ExRegex(regex::Regex);

/// `regex::Error`, what `regex` reports of a source that it cannot compile;
/// nothing of its inside is known here.
#[verifier::external_type_specification]
#[verifier::external_body]
pub struct ExRegexError(regex::Error);

/// Whether `regex` compiles `source`, with or without regard to case.
pub uninterp spec fn regex_compiles(source: Seq<char>, nocase: bool) -> bool;

/// Whether the regex compiled from `source` finds a match somewhere in
/// `text`.
pub uninterp spec fn regex_accepts(source: Seq<char>, nocase: bool, text: Seq<char>) -> bool;

/// The capture groups of the first match in `text` of the regex compiled
/// from `source`, the whole match first; a group that took no part in the
/// match is `None`. There are no groups at all where there is no match.
pub uninterp spec fn regex_captures(source: Seq<char>, nocase: bool, text: Seq<char>) -> Option<
    Seq<Option<Seq<char>>>,
>;

/// The texts of a list of capture groups.
pub open spec fn group_texts(groups: Option<Vec<Option<String>>>) -> Option<
    Seq<Option<Seq<char>>>,
> {
    match groups {
        Some(v) => Some(
            Seq::new(
                v@.len(),
                |i: int|
                    match v@[i] {
                        Some(s) => Some(s@),
                        None => None,
                    },
            ),
        ),
        None => None,
    }
}

/// A compiled regex together with the source and the case flag that it was
/// compiled from. Only `Matcher::build` makes one, so the three belong
/// together.
pub struct Matcher {
    regex: regex::Regex,
    source: String,
    nocase: bool,
}

impl Matcher {
    /// The source that the regex was compiled from.
    pub closed spec fn source(&self) -> Seq<char> {
        self.source@
    }

    /// Whether the regex disregards case.
    pub closed spec fn nocase(&self) -> bool {
        self.nocase
    }

    /// Runs `regex::RegexBuilder::new(source).case_insensitive(nocase).build()`.
    /// The contract names when that succeeds, and says that the matcher
    /// remembers what it was built from. The builder reports a source that it
    /// cannot compile as an error; it does not panic.
    #[verifier::external_body]
    pub(crate) fn build(source: &str, nocase: bool) -> (r: Result<Matcher, regex::Error>)
        ensures
            r is Ok <==> regex_compiles(source@, nocase),
            r is Ok ==> r->Ok_0.source() == source@ && r->Ok_0.nocase() == nocase,
    {
        regex::RegexBuilder::new(source).case_insensitive(nocase).build().map(
            |regex| Matcher { regex, source: source.to_string(), nocase },
        )
    }

    /// Runs `regex::Regex::is_match` on the compiled regex. The contract
    /// gives the answer a name over the source that the matcher was built
    /// from; it rests on `build` being the only maker of a `Matcher`.
    #[verifier::external_body]
    pub(crate) fn is_match(&self, text: &str) -> (b: bool)
        ensures
            b == regex_accepts(self.source(), self.nocase(), text@),
    {
        self.regex.is_match(text)
    }

    /// Runs `regex::Regex::captures` on the compiled regex and copies the
    /// groups out, each as a string of its own. The contract gives the
    /// outcome a name over the source that the matcher was built from, on the
    /// same ground as that of `is_match`.
    #[verifier::external_body]
    pub(crate) fn captures(&self, text: &str) -> (r: Option<Vec<Option<String>>>)
        ensures
            group_texts(r) == regex_captures(self.source(), self.nocase(), text@),
    {
        self.regex.captures(text).map(
            |caps| caps.iter().map(|m| m.map(|m| m.as_str().to_string())).collect(),
        )
    }

    /// A copy of the source that the regex was compiled from.
    pub fn source_string(&self) -> (s: String)
        ensures
            s@ == self.source(),
    {
        self.source.clone()
    }

    /// Whether `text` holds a match of the regex.
    pub fn test(&self, text: &str) -> (b: bool)
        ensures
            b == regex_accepts(self.source(), self.nocase(), text@),
    {
        self.is_match(text)
    }
}

} // verus!
