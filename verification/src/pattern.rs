//! Searches with regular expressions, done by the `regex` crate.
//!
//! What an expression matches is not restated here: each kind of search has a
//! name for its result, and the contracts of the library speak of those names.
//! An expression is compiled for every search, since the texts searched here
//! are a few dozen short lines and only a pattern's text can stand in a
//! contract.

use regex::Regex;
use vstd::prelude::*;

verus! {

/// The error of the `regex` crate for an expression that it does not accept.
#[verifier::external_type_specification]
#[verifier::external_body]
pub struct ExRegexError(regex::Error);

/// Whether `Regex::new` accepts `pattern`: it returns an expression for it
/// and no error. The default configuration is used, whose size limit is fixed,
/// so that the pattern alone decides.
pub uninterp spec fn regex_accepts(pattern: Seq<char>) -> bool;

/// Whether the expression `pattern` matches somewhere in `text`: what
/// `Regex::is_match` returns.
pub uninterp spec fn regex_is_match(pattern: Seq<char>, text: Seq<char>) -> bool;

/// The first match of `pattern` in `text`, as `Regex::captures` finds it:
/// `None` without a match, else what the capture group `group` matched, which
/// is `None` for a group that the expression lacks or that took no part.
pub uninterp spec fn regex_captures(pattern: Seq<char>, text: Seq<char>, group: int) -> Option<
    Option<Seq<char>>,
>;

/// The successive matches of `pattern` in `text` that do not overlap, as
/// `Regex::captures_iter` yields them: for each match what the capture group
/// `group` matched, or `None` for a group that the expression lacks or that
/// took no part.
pub uninterp spec fn regex_captures_iter(pattern: Seq<char>, text: Seq<char>, group: int) -> Seq<
    Option<Seq<char>>,
>;

/// What a capture group matched, as a sequence of characters.
pub open spec fn group_text(group: Option<String>) -> Option<Seq<char>> {
    match group {
        Some(s) => Some(s@),
        None => None,
    }
}

/// The capture group of a first match, as sequences of characters.
pub open spec fn capture_text(found: Option<Option<String>>) -> Option<Option<Seq<char>>> {
    match found {
        Some(group) => Some(group_text(group)),
        None => None,
    }
}

/// The capture group of each match, as sequences of characters.
pub open spec fn capture_texts(found: Seq<Option<String>>) -> Seq<Option<Seq<char>>> {
    Seq::new(found.len(), |i: int| group_text(found[i]))
}

/// Compiles `pattern` with `Regex::new` and asks `Regex::is_match` whether it
/// matches in `text`. The error is that of `Regex::new`, and comes exactly
/// for a pattern that it does not accept. An answer is the one named
/// `regex_is_match`.
#[verifier::external_body]
fn regex_search(pattern: &str, text: &str) -> (r: Result<bool, regex::Error>)
    ensures
        r is Ok <==> regex_accepts(pattern@),
        r matches Ok(found) ==> found == regex_is_match(pattern@, text@),
{
    Ok(Regex::new(pattern)?.is_match(text))
}

/// Compiles `pattern` with `Regex::new`, searches `text` with
/// `Regex::captures` and reads one group of the match with `Captures::get`
/// and `Match::as_str`. The error is that of `Regex::new`, and comes exactly
/// for a pattern that it does not accept. An answer is the one named
/// `regex_captures`.
#[verifier::external_body]
fn regex_first(pattern: &str, text: &str, group: usize) -> (r: Result<
    Option<Option<String>>,
    regex::Error,
>)
    ensures
        r is Ok <==> regex_accepts(pattern@),
        r matches Ok(found) ==> capture_text(found) == regex_captures(
            pattern@,
            text@,
            group as int,
        ),
{
    let re = Regex::new(pattern)?;
    Ok(re.captures(text).map(|found| found.get(group).map(|m| m.as_str().to_string())))
}

/// Compiles `pattern` with `Regex::new`, walks the matches in `text` with
/// `Regex::captures_iter` and reads one group of each with `Captures::get`
/// and `Match::as_str`. The error is that of `Regex::new`, and comes exactly
/// for a pattern that it does not accept. An answer is the one named
/// `regex_captures_iter`.
#[verifier::external_body]
fn regex_all(pattern: &str, text: &str, group: usize) -> (r: Result<
    Vec<Option<String>>,
    regex::Error,
>)
    ensures
        r is Ok <==> regex_accepts(pattern@),
        r matches Ok(found) ==> capture_texts(found@) == regex_captures_iter(
            pattern@,
            text@,
            group as int,
        ),
{
    let re = Regex::new(pattern)?;
    Ok(
        re.captures_iter(text).map(
            |found| found.get(group).map(|m| m.as_str().to_string()),
        ).collect(),
    )
}

/// A pattern that the expression engine did not accept.
#[derive(Debug, Clone, Copy, PartialEq, Eq)]
pub struct PatternError;

/// What a search handed back, in the library's terms: an answer passes as it
/// is, and any error of the expression engine becomes the one error of this
/// library.
pub fn accepted<T>(outcome: Result<T, regex::Error>) -> (r: Result<T, PatternError>)
    ensures
        match outcome {
            Ok(answer) => r == Ok::<T, PatternError>(answer),
            Err(_) => r == Err::<T, PatternError>(PatternError),
        },
{
    match outcome {
        Ok(answer) => Ok(answer),
        Err(_) => Err(PatternError),
    }
}

/// Whether `pattern` matches somewhere in `text`. There is an answer exactly
/// for a pattern that the expression engine accepts.
pub fn is_match(pattern: &str, text: &str) -> (r: Result<bool, PatternError>)
    ensures
        r is Ok <==> regex_accepts(pattern@),
        r matches Ok(found) ==> found == regex_is_match(pattern@, text@),
{
    accepted(regex_search(pattern, text))
}

/// What the capture group `group` holds in the first match of `pattern` in
/// `text`. There is an answer exactly for a pattern that the expression
/// engine accepts.
pub fn first_capture(pattern: &str, text: &str, group: usize) -> (r: Result<
    Option<Option<String>>,
    PatternError,
>)
    ensures
        r is Ok <==> regex_accepts(pattern@),
        r matches Ok(found) ==> capture_text(found) == regex_captures(
            pattern@,
            text@,
            group as int,
        ),
{
    accepted(regex_first(pattern, text, group))
}

/// What the capture group `group` holds in each match of `pattern` in `text`.
/// There is an answer exactly for a pattern that the expression engine
/// accepts.
pub fn all_captures(pattern: &str, text: &str, group: usize) -> (r: Result<
    Vec<Option<String>>,
    PatternError,
>)
    ensures
        r is Ok <==> regex_accepts(pattern@),
        r matches Ok(found) ==> capture_texts(found@) == regex_captures_iter(
            pattern@,
            text@,
            group as int,
        ),
{
    accepted(regex_all(pattern, text, group))
}

} // verus!
