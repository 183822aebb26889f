//! Regular expressions over page text, by the `regex` crate.
//!
//! What the engine matches is not restated here. The results of its three
//! entry points are given names, and the contracts of this library speak of
//! those names: the same pattern and text always give the same result.

use vstd::prelude::*;
use vstd::string::StrSliceExecFns;

verus! {

/// The compiled expression type of the `regex` crate, opaque to the
/// verifier.
#[verifier::external_type_specification]
#[verifier::external_body]
pub struct ExRegex(regex::Regex);

/// The length up to which a pattern is handed to the engine.
pub const MAX_PATTERN_LENGTH: usize = 1024;

/// Whether `regex::Regex::new` accepts `pattern`. The engine refuses a
/// pattern whose compiled form is over its size limit, and it measures that
/// form in the machine's own units: of a pattern near the limit this speaks
/// for the build at hand.
pub uninterp spec fn regex_compiles(pattern: Seq<char>) -> bool;

/// Whether `pattern` can be compiled: it is no longer than the limit and
/// the engine accepts it.
pub open spec fn pattern_accepted(pattern: Seq<char>) -> bool {
    pattern.len() <= MAX_PATTERN_LENGTH && regex_compiles(pattern)
}

/// What `regex::Regex::captures_iter` yields for `pattern` on `text`: one
/// item for each non-overlapping match, from the left, each item holding the
/// capture groups by number, group 0 (the whole match) first. A group that
/// took no part in the match is `None`.
pub uninterp spec fn regex_captures(pattern: Seq<char>, text: Seq<char>) -> Seq<
    Seq<Option<Seq<char>>>,
>;

/// What `regex::Regex::captures` followed by `Captures::at(group)` yields
/// for `pattern` on `text`: `None` where the pattern matches nowhere, else
/// the text of that group in the first match, or `Some(None)` where the
/// group does not exist or took no part in the match.
pub uninterp spec fn regex_first_capture(pattern: Seq<char>, text: Seq<char>, group: nat) -> Option<
    Option<Seq<char>>,
>;

/// A regular expression that the engine has accepted.
pub struct Pattern {
    source: String,
    compiled: regex::Regex,
}

impl Pattern {
    /// The text that the pattern was compiled from.
    pub closed spec fn source(&self) -> Seq<char> {
        self.source@
    }

    /// Calls `regex::Regex::new`. The engine builds and drops its syntax
    /// tree level by level, and a pattern nests no deeper than it is long,
    /// so the bound on the length keeps that shallow. Assumed: the call
    /// succeeds exactly on the patterns for which [`regex_compiles`] holds,
    /// and the value returned keeps the pattern's text beside the compiled
    /// expression.
    #[verifier::external_body]
    fn compile(source: &str) -> (pattern: Option<Pattern>)
        requires
            source@.len() <= MAX_PATTERN_LENGTH,
        ensures
            pattern is Some <==> regex_compiles(source@),
            pattern matches Some(p) ==> p.source() == source@,
    {
        regex::Regex::new(source).ok().map(
            |compiled| Pattern { source: source.to_string(), compiled },
        )
    }

    /// Calls `regex::Regex::captures_iter` and copies out the groups of
    /// every match. Assumed: the result is [`regex_captures`] of the
    /// pattern's text and `text`.
    #[verifier::external_body]
    pub(crate) fn captures_iter(&self, text: &str) -> (matches: Vec<Vec<Option<String>>>)
        ensures
            matches.deep_view() == regex_captures(self.source(), text@),
    {
        self.compiled.captures_iter(text).map(
            |caps| caps.iter().map(|group| group.map(String::from)).collect(),
        ).collect()
    }

    /// Calls `regex::Regex::captures` and, on a match, `Captures::at`.
    /// Assumed: the result is [`regex_first_capture`] of the pattern's text,
    /// `text` and `group`. The bound keeps the crate's arithmetic on the
    /// group's number within the machine word.
    #[verifier::external_body]
    pub(crate) fn first_capture(&self, text: &str, group: usize) -> (capture: Option<
        Option<String>,
    >)
        requires
            group <= 0x7fff_ffff,
        ensures
            capture.deep_view() == regex_first_capture(self.source(), text@, group as nat),
    {
        self.compiled.captures(text).map(|caps| caps.at(group).map(String::from))
    }

    /// Compiles `source`. Returns `None` exactly where the pattern is
    /// longer than the limit or the engine rejects it.
    pub fn new(source: &str) -> (pattern: Option<Pattern>)
        ensures
            pattern is Some <==> pattern_accepted(source@),
            pattern matches Some(p) ==> p.source() == source@,
            source@.len() > MAX_PATTERN_LENGTH ==> pattern is None,
    {
        if source.unicode_len() > MAX_PATTERN_LENGTH {
            return None;
        }
        Pattern::compile(source)
    }

    /// The text that the pattern was compiled from.
    pub fn as_str(&self) -> (source: &String)
        ensures
            source@ == self.source(),
    {
        &self.source
    }
}

} // verus!
