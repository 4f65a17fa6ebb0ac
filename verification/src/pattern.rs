//! Regular expressions, as the `regex` crate matches them.

use vstd::prelude::*;

verus! {

/// `regex::Regex`, a compiled pattern.
#[verifier::external_type_specification]
#[verifier::external_body]
pub struct ExRegex(regex::Regex);

/// The pattern that a `regex::Regex` was compiled from, which is what its
/// `as_str` returns.
pub uninterp spec fn regex_source(re: regex::Regex) -> Seq<char>;

/// Whether `regex` compiles a pattern.
pub uninterp spec fn regex_compiles(pattern: Seq<char>) -> bool;

/// The groups of the leftmost match of a pattern in a text, the whole match
/// first, if there is a match. A group that took no part in it is `None`.
pub uninterp spec fn regex_groups(pattern: Seq<char>, text: Seq<char>) -> Option<
    Seq<Option<Seq<char>>>,
>;

/// `regex::Regex::new`: whether a pattern compiles depends on the pattern
/// alone, and what it compiles to is that pattern.
#[verifier::external_body]
pub(crate) fn compile(pattern: &str) -> (r: Option<regex::Regex>)
    ensures
        match r {
            Some(re) => regex_compiles(pattern@) && regex_source(re) == pattern@,
            None => !regex_compiles(pattern@),
        },
{
    regex::Regex::new(pattern).ok()
}

/// The views of a list of groups.
pub open spec fn group_texts(groups: Seq<Option<String>>) -> Seq<Option<Seq<char>>> {
    groups.map_values(
        |group: Option<String>|
            match group {
                Some(s) => Some(s@),
                None => None,
            },
    )
}

/// `regex::Regex::captures`: the groups of the match depend on the pattern and
/// the text alone.
#[verifier::external_body]
pub(crate) fn captures(re: &regex::Regex, text: &str) -> (r: Option<Vec<Option<String>>>)
    ensures
        match r {
            Some(groups) => regex_groups(regex_source(*re), text@) == Some(group_texts(groups@)),
            None => regex_groups(regex_source(*re), text@) is None,
        },
{
    let found = re.captures(text)?;
    Some(found.iter().map(|group| group.map(|m| m.as_str().to_string())).collect())
}

/// Group `n` of a match.
pub(crate) fn group(groups: &Vec<Option<String>>, n: usize) -> (r: Option<String>)
    ensures
        match r {
            Some(s) => n < groups.len() && group_texts(groups@)[n as int] == Some(s@),
            None => n < groups.len() ==> group_texts(groups@)[n as int] is None,
        },
{
    if n < groups.len() {
        match &groups[n] {
            Some(s) => Some(s.clone()),
            None => None,
        }
    } else {
        None
    }
}

} // verus!
