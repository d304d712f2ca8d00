//! Regular expressions, as the `regex` crate matches them.
//!
//! What a pattern matches is not stated here: it is named. `first_captures`
//! and `all_captures` stand for what the crate finds, and the contracts of the
//! functions that search speak of those names.

use vstd::prelude::*;

verus! {

/// The groups of one match: for each group of the pattern, the whole match
/// first, the text it matched, or nothing where it took no part in the match.
pub type Groups = Vec<Option<String>>;

/// The view of one group.
pub open spec fn group_view(group: Option<String>) -> Option<Seq<char>> {
    match group {
        Some(text) => Some(text@),
        None => None,
    }
}

/// The views of the groups of one match.
pub open spec fn groups_view(groups: Groups) -> Seq<Option<Seq<char>>> {
    groups@.map_values(|g: Option<String>| group_view(g))
}

/// The views of the groups of each match.
pub open spec fn matches_view(found: Seq<Groups>) -> Seq<Seq<Option<Seq<char>>>> {
    found.map_values(|g: Groups| groups_view(g))
}

/// The groups of the leftmost match of the regular expression `pattern` in
/// `text`; nothing where there is no match, or where `pattern` is no regular
/// expression.
pub uninterp spec fn first_captures(pattern: Seq<char>, text: Seq<char>) -> Option<
    Seq<Option<Seq<char>>>,
>;

/// The groups of each of the successive non-overlapping matches of the regular
/// expression `pattern` in `text`, in order; none where `pattern` is no regular
/// expression.
pub uninterp spec fn all_captures(pattern: Seq<char>, text: Seq<char>) -> Seq<
    Seq<Option<Seq<char>>>,
>;

/// Compiles `pattern` with `regex::Regex::new` and searches `text` with
/// `Regex::captures`. The groups are handed out as owned strings, the whole
/// match at index 0. A pattern that does not compile matches nothing.
#[verifier::external_body]
pub(crate) fn captures(pattern: &str, text: &str) -> (found: Option<Groups>)
    ensures
        match found {
            Some(groups) => first_captures(pattern@, text@) == Some(groups_view(groups)),
            None => first_captures(pattern@, text@) is None,
        },
{
    match regex::Regex::new(pattern) {
        Ok(re) => re.captures(text).map(
            |caps| caps.iter().map(|m| m.map(|m| m.as_str().to_string())).collect(),
        ),
        Err(_) => None,
    }
}

/// Compiles `pattern` with `regex::Regex::new` and walks `text` with
/// `Regex::captures_iter`. The groups of each match are handed out as owned
/// strings, the whole match at index 0. A pattern that does not compile matches
/// nothing.
#[verifier::external_body]
pub(crate) fn captures_iter(pattern: &str, text: &str) -> (found: Vec<Groups>)
    ensures
        matches_view(found@) == all_captures(pattern@, text@),
{
    match regex::Regex::new(pattern) {
        Ok(re) => re.captures_iter(text).map(
            |caps| caps.iter().map(|m| m.map(|m| m.as_str().to_string())).collect(),
        ).collect(),
        Err(_) => Vec::new(),
    }
}

/// The text of group `index`, where the match has such a group and it took part.
pub open spec fn group_text(groups: Seq<Option<Seq<char>>>, index: int) -> Option<Seq<char>> {
    if 0 <= index < groups.len() {
        groups[index]
    } else {
        None
    }
}

/// The text of group `index` of a match, where the match has such a group and it
/// took part.
pub fn group<'a>(groups: &'a Groups, index: usize) -> (r: Option<&'a str>)
    ensures
        match r {
            Some(text) => group_text(groups_view(*groups), index as int) == Some(text@),
            None => group_text(groups_view(*groups), index as int) is None,
        },
{
    if index < groups.len() {
        match &groups[index] {
            Some(text) => Some(text.as_str()),
            None => None,
        }
    } else {
        None
    }
}

} // verus!
