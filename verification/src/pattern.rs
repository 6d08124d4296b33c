//! Regular expressions.

use crate::text::option_view;
use regex::Regex;
use vstd::prelude::*;

verus! {

/// A compiled expression of the `regex` crate.
#[verifier::external_type_specification]
#[verifier::external_body]
pub struct ExRegex(Regex);

/// What `Regex::new` makes of a pattern: the compiled expression, or the message of the error.
pub uninterp spec fn compiled(pattern: Seq<char>) -> Result<Regex, Seq<char>>;

/// Whether `Regex::is_match` finds a match in a text.
pub uninterp spec fn matches_in(regex: Regex, text: Seq<char>) -> bool;

/// The text of a group in the match that `Regex::captures` finds; nothing where there is no match,
/// no such group, or the group takes no part in the match.
pub uninterp spec fn group_text(regex: Regex, text: Seq<char>, group: usize) -> Option<Seq<char>>;

/// `Regex::new`, the error as its message. What it returns depends on the pattern alone.
#[verifier::external_body]
pub(crate) fn compile(pattern: &str) -> (result: Result<Regex, String>)
    ensures
        match result {
            Ok(regex) => compiled(pattern@) == Ok::<Regex, Seq<char>>(regex),
            Err(message) => compiled(pattern@) == Err::<Regex, Seq<char>>(message@),
        },
{
    Regex::new(pattern).map_err(|e| e.to_string())
}

/// `Regex::is_match`. Its answer depends on the expression and the text alone.
#[verifier::external_body]
pub(crate) fn is_match(regex: &Regex, text: &str) -> (result: bool)
    ensures
        result == matches_in(*regex, text@),
{
    regex.is_match(text)
}

/// `Regex::captures`, one group of it. What it returns depends on the expression, the text and the
/// number of the group alone.
#[verifier::external_body]
pub(crate) fn captured_group(regex: &Regex, text: &str, group: usize) -> (result: Option<String>)
    ensures
        option_view(result) == group_text(*regex, text@, group),
{
    regex.captures(text)?.get(group).map(|m| m.as_str().to_string())
}

}
