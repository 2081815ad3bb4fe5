//! The shape of one wordlist line, as a regular expression, and the calls into
//! the `regex` crate that compile it and search with it.
//!
//! Nothing here is proved about the regex engine. Verus is told three things
//! about it, each stated where the call is made: whether a pattern compiles
//! depends on the pattern alone; an expression that `Regex::new` compiled is
//! settled by its pattern; and what such an expression captures depends on
//! the pattern and the haystack alone.

use crate::kinds::GenerationError;
use regex::Regex;
use vstd::prelude::*;

verus! {

/// `regex::Regex`, a compiled expression. Verus sees nothing inside it.
#[verifier::external_type_specification]
#[verifier::external_body]
pub struct ExRegex(Regex);

/// `regex::Error`, why a pattern was turned down. It is only ever dropped.
#[verifier::external_type_specification]
#[verifier::external_body]
pub struct ExRegexError(regex::Error);

/// Whether `Regex::new` takes `pattern`.
pub uninterp spec fn regex_accepts(pattern: Seq<char>) -> bool;

/// The pattern that `Regex::new` compiled `re` from. `None` for an expression
/// that was built in another way, with switches that its pattern does not
/// show.
pub uninterp spec fn regex_source(re: Regex) -> Option<Seq<char>>;

/// What the first match of `pattern`, compiled by `Regex::new`, captures in
/// `haystack` in its groups 1 and 2; `None` where nothing matches or one of
/// the two groups took no part.
pub uninterp spec fn regex_capture_pair(pattern: Seq<char>, haystack: Seq<char>) -> Option<
    (Seq<char>, Seq<char>),
>;

/// `Regex::new`: compiles `pattern`. Assumed: whether it succeeds is a matter
/// of the pattern alone, and the expression it returns is the one of that
/// pattern.
#[verifier::external_body]
fn compile(pattern: &str) -> (r: Result<Regex, regex::Error>)
    ensures
        r is Ok <==> regex_accepts(pattern@),
        r matches Ok(re) ==> regex_source(re) == Some(pattern@),
{
    Regex::new(pattern)
}

/// `Regex::captures`, followed by `Captures::get` for groups 1 and 2 and
/// `Match::as_str` on each. Assumed, of an expression that `Regex::new`
/// compiled: the two substrings are a matter of its pattern and the haystack
/// alone.
#[verifier::external_body]
fn capture_pair<'h>(re: &Regex, haystack: &'h str) -> (r: Option<(&'h str, &'h str)>)
    requires
        regex_source(*re) is Some,
    ensures
        pair_text(r) == regex_capture_pair(regex_source(*re).unwrap(), haystack@),
{
    let found = re.captures(haystack)?;
    Some((found.get(1)?.as_str(), found.get(2)?.as_str()))
}

/// What a captured pair holds.
pub open spec fn pair_text(pair: Option<(&str, &str)>) -> Option<(Seq<char>, Seq<char>)> {
    match pair {
        Some((code, word)) => Some((code@, word@)),
        None => None,
    }
}

/// One wordlist entry: a run of digits, a tab, a run of non-whitespace
/// characters. The first run is the roll code, the second the word.
pub const ENTRY_PATTERN: &'static str = "(\\d+)\\t(\\S+)";

/// The code and the word of the first entry found in `line`, if there is one.
/// The search is not anchored: text before and after the entry is ignored.
pub open spec fn line_entry(line: Seq<char>) -> Option<(Seq<char>, Seq<char>)> {
    regex_capture_pair(ENTRY_PATTERN@, line)
}

/// A line pattern, compiled once and used for every line of a wordlist.
pub struct LinePattern {
    re: Regex,
}

impl LinePattern {
    #[verifier::type_invariant]
    spec fn compiled_from_pattern(&self) -> bool {
        regex_source(self.re) is Some
    }

    /// The pattern that was compiled.
    pub closed spec fn source(&self) -> Seq<char> {
        regex_source(self.re).unwrap()
    }

    /// Compiles `pattern`. It fails exactly when the regex engine turns the
    /// pattern down.
    pub fn compile(pattern: &str) -> (r: Result<LinePattern, GenerationError>)
        ensures
            match r {
                Ok(compiled) => regex_accepts(pattern@) && compiled.source() == pattern@,
                Err(e) => e == GenerationError::PatternFailure && !regex_accepts(pattern@),
            },
    {
        match compile(pattern) {
            Ok(re) => Ok(LinePattern { re }),
            Err(_) => Err(GenerationError::PatternFailure),
        }
    }

    /// Compiles the pattern of a wordlist entry.
    pub fn entry() -> (r: Result<LinePattern, GenerationError>)
        ensures
            match r {
                Ok(compiled) => regex_accepts(ENTRY_PATTERN@) && compiled.source()
                    == ENTRY_PATTERN@,
                Err(e) => e == GenerationError::PatternFailure && !regex_accepts(ENTRY_PATTERN@),
            },
    {
        LinePattern::compile(ENTRY_PATTERN)
    }
}

/// Looks for the first match of `pattern` in `line` and hands out what its
/// first two groups captured: with the entry pattern, the roll code and the
/// word. A line without a match gives `None`; that is no error.
pub fn parse_wordlist_line<'a>(pattern: &LinePattern, line: &'a str) -> (r: Option<
    (&'a str, &'a str),
>)
    ensures
        pair_text(r) == regex_capture_pair(pattern.source(), line@),
{
    proof {
        use_type_invariant(pattern);
    }
    capture_pair(&pattern.re, line)
}

} // verus!
