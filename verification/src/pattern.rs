//! Regular expressions, as far as the annotation grammar needs them.
//!
//! Matching is done by the `regex` crate. What it answers is a function of
//! the pattern and the text alone, so the answers are given names here and
//! the rest of the library is stated over those names.

use crate::text::text_of;
use vstd::prelude::*;

verus! {

/// Whether `regex::Regex::new` accepts `pattern` under its default limits.
pub uninterp spec fn pattern_compiles(pattern: Seq<char>) -> bool;

/// What `regex::Regex::captures` finds for `pattern` in `text`: `None` where
/// the pattern matches nowhere, else the text of every capture group of the
/// leftmost match, group 0 (the whole match) first, with `None` for a group
/// that took no part in the match.
pub uninterp spec fn captured_groups(pattern: Seq<char>, text: Seq<char>) -> Option<
    Seq<Option<Seq<char>>>,
>;

/// The capture groups of one match, as plain values.
pub open spec fn groups_view(groups: Vec<Option<String>>) -> Seq<Option<Seq<char>>> {
    Seq::new(
        groups.len() as nat,
        |i: int| text_of(groups[i]),
    )
}

/// The outcome of one search, as plain values.
pub open spec fn found_view(found: Option<Vec<Option<String>>>) -> Option<Seq<Option<Seq<char>>>> {
    match found {
        Some(groups) => Some(groups_view(groups)),
        None => None,
    }
}

/// The text of capture group `index` in the outcome of a search, where the
/// search matched and that group took part.
pub open spec fn group_text(found: Option<Seq<Option<Seq<char>>>>, index: int) -> Option<
    Seq<char>,
> {
    match found {
        Some(groups) => if 0 <= index < groups.len() {
            groups[index]
        } else {
            None
        },
        None => None,
    }
}

/// Calls `regex::Regex::new` and says whether it accepted the pattern.
#[verifier::external_body]
pub(crate) fn compiles(pattern: &str) -> (ok: bool)
    ensures
        ok == pattern_compiles(pattern@),
{
    regex::Regex::new(pattern).is_ok()
}

/// Compiles `pattern` and calls `regex::Regex::captures` on `text`. The
/// outer `None` stands for a pattern that does not compile; otherwise the
/// result is the crate's answer, each group turned into an owned string.
#[verifier::external_body]
pub(crate) fn search(pattern: &str, text: &str) -> (r: Option<Option<Vec<Option<String>>>>)
    ensures
        r is Some == pattern_compiles(pattern@),
        r matches Some(found) ==> found_view(found) == captured_groups(pattern@, text@),
{
    match regex::Regex::new(pattern) {
        Ok(re) => Some(
            re.captures(text).map(
                |c| c.iter().map(|g| g.map(|m| m.as_str().to_string())).collect(),
            ),
        ),
        Err(_) => None,
    }
}

/// Picks capture group `index` out of the outcome of a search.
pub fn take_group(found: &Option<Vec<Option<String>>>, index: usize) -> (r: Option<String>)
    ensures
        text_of(r) == group_text(found_view(*found), index as int),
{
    match found {
        Some(groups) => {
            if index < groups.len() {
                match &groups[index] {
                    Some(s) => Some(s.clone()),
                    None => None,
                }
            } else {
                None
            }
        },
        None => None,
    }
}

} // verus!
