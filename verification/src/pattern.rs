//! Regular expressions: compiled once, then matched against text.
//!
//! What an expression matches is not restated here: the results of matching
//! are named, as functions of the pattern text and of the text searched. That
//! holds of expressions compiled by [`compile`], with the default options, and
//! this library makes no others.

use crate::text::{optional_text, optional_texts};
use regex::Regex;
use vstd::prelude::*;

verus! {

/// `regex::Regex`, a compiled regular expression; nothing of its inside is
/// known here.
#[verifier::external_type_specification]
#[verifier::external_body]
pub struct ExRegex(Regex);

/// Whether `pattern` is a regular expression that compiles within the default
/// size limit.
pub uninterp spec fn compiles(pattern: Seq<char>) -> bool;

/// The pattern text that a compiled expression was made from, as
/// `Regex::as_str` reports it.
pub uninterp spec fn pattern_of(re: Regex) -> Seq<char>;

/// Group `group` of the leftmost match of `pattern` in `hay`; `None` where
/// nothing matches or the group took no part in the match.
pub uninterp spec fn first_capture(pattern: Seq<char>, hay: Seq<char>, group: usize) -> Option<
    Seq<char>,
>;

/// Group `group` of each successive non-overlapping match of `pattern` in
/// `hay`, in order of appearance; `None` for a match the group took no part in.
pub uninterp spec fn all_captures(pattern: Seq<char>, hay: Seq<char>, group: usize) -> Seq<
    Option<Seq<char>>,
>;

/// `Regex::new`: compiles `pattern`; an invalid or oversized pattern gives
/// `None`. The compiled expression remembers its pattern text.
#[verifier::external_body]
pub(crate) fn compile(pattern: &str) -> (r: Option<Regex>)
    ensures
        r is Some <==> compiles(pattern@),
        r matches Some(re) ==> pattern_of(re) == pattern@,
{
    Regex::new(pattern).ok()
}

/// `Regex::captures` and `Captures::get`: the text of one group of the
/// leftmost match in `hay`.
#[verifier::external_body]
pub(crate) fn capture_first(re: &Regex, hay: &str, group: usize) -> (r: Option<String>)
    ensures
        optional_text(r) == first_capture(pattern_of(*re), hay@, group),
{
    re.captures(hay).and_then(|c| c.get(group)).map(|m| m.as_str().to_string())
}

/// `Regex::captures_iter` and `Captures::get`: the text of one group of every
/// match in `hay`, in order.
#[verifier::external_body]
pub(crate) fn capture_all(re: &Regex, hay: &str, group: usize) -> (r: Vec<Option<String>>)
    ensures
        optional_texts(r@) == all_captures(pattern_of(*re), hay@, group),
{
    re.captures_iter(hay).map(|c| c.get(group).map(|m| m.as_str().to_string())).collect()
}

} // verus!
