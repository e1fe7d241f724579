//! Matching a line against a regular expression.
//!
//! The matching itself is done by the `regex` crate and is not verified
//! here. What a pattern captures in a text is a function of the two alone;
//! this module gives that function a name, so that the contracts of the
//! reader can say exactly which captures they work on.

use vstd::prelude::*;

verus! {

/// `regex::Error`, what `regex::Regex::new` hands back for a pattern that it
/// refuses. Nothing is known of what it holds.
#[verifier::external_type_specification]
#[verifier::external_body]
pub struct ExRegexError(regex::Error);

/// The capture groups of the leftmost match of `pattern` in `text`, or `None`
/// where `pattern` matches nowhere in `text`. Group 0 is the whole match; a
/// group that took no part in the match is `None`.
pub uninterp spec fn captures_of(pattern: Seq<char>, text: Seq<char>) -> Option<
    Seq<Option<Seq<char>>>,
>;

/// The capture groups of every match of `pattern` in `text`, for the
/// successive matches that do not overlap, from left to right.
pub uninterp spec fn all_captures_of(pattern: Seq<char>, text: Seq<char>) -> Seq<
    Seq<Option<Seq<char>>>,
>;

/// Why a description could not be read.
#[derive(Clone, Copy, Debug, PartialEq, Eq)]
pub enum ParseError {
    /// A pattern was refused when it was compiled.
    PatternRejected,
}

/// Compiles `pattern` with `regex::Regex::new` and searches `text` with
/// `Regex::captures`.
///
/// Trusted: where the pattern compiles, the groups handed back are those of
/// the leftmost match, named [`captures_of`]. Nothing is claimed about which
/// patterns compile.
#[verifier::external_body]
fn first_match(pattern: &str, text: &str) -> (r: Result<
    Option<Vec<Option<String>>>,
    regex::Error,
>)
    ensures
        r matches Ok(found) ==> found.deep_view() == captures_of(pattern@, text@),
{
    let re = regex::Regex::new(pattern)?;
    Ok(re.captures(text).map(|c| c.iter().map(|g| g.map(|m| m.as_str().to_string())).collect()))
}

/// Compiles `pattern` with `regex::Regex::new` and walks `text` with
/// `Regex::captures_iter`.
///
/// Trusted: where the pattern compiles, the groups handed back are those of
/// the successive matches, named [`all_captures_of`]. Nothing is claimed
/// about which patterns compile.
#[verifier::external_body]
fn all_matches(pattern: &str, text: &str) -> (r: Result<Vec<Vec<Option<String>>>, regex::Error>)
    ensures
        r matches Ok(found) ==> found.deep_view() == all_captures_of(pattern@, text@),
{
    let re = regex::Regex::new(pattern)?;
    Ok(
        re.captures_iter(text).map(
            |c| c.iter().map(|g| g.map(|m| m.as_str().to_string())).collect(),
        ).collect(),
    )
}

/// The capture groups of the leftmost match of `pattern` in `text`.
pub fn capture_groups(pattern: &str, text: &str) -> (r: Result<
    Option<Vec<Option<String>>>,
    ParseError,
>)
    ensures
        r matches Ok(found) ==> found.deep_view() == captures_of(pattern@, text@),
{
    // What the matcher hands back is handed on, but for its own error,
    // which is replaced by the reader's.
    let outcome = first_match(pattern, text);
    found_or_rejected(outcome)
}

/// The capture groups of every match of `pattern` in `text`.
pub fn capture_all_groups(pattern: &str, text: &str) -> (r: Result<
    Vec<Vec<Option<String>>>,
    ParseError,
>)
    ensures
        r matches Ok(found) ==> found.deep_view() == all_captures_of(pattern@, text@),
{
    // What the matcher hands back is handed on, but for its own error,
    // which is replaced by the reader's.
    let outcome = all_matches(pattern, text);
    found_or_rejected(outcome)
}

/// What the reader hands on for what the matcher handed back: what was found
/// as it is, and [`ParseError::PatternRejected`] in place of the matcher's own
/// error.
pub fn found_or_rejected<T>(outcome: Result<T, regex::Error>) -> (r: Result<T, ParseError>)
    ensures
        match outcome {
            Ok(found) => r == Ok::<T, ParseError>(found),
            Err(_) => r == Err::<T, ParseError>(ParseError::PatternRejected),
        },
{
    match outcome {
        Ok(found) => Ok(found),
        Err(_) => Err(ParseError::PatternRejected),
    }
}

} // verus!
