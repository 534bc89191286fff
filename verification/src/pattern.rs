//! Regular-expression matching, through the `regex` crate.
use vstd::prelude::*;

verus! {

/// Groups 1 and 2 of the leftmost-first match of `pattern` in `text`
/// (`None` when there is no match), as the `regex` crate computes them.
pub uninterp spec fn regex_groups_of(pattern: Seq<char>, text: Seq<char>) -> Option<(Option<Seq<char>>, Option<Seq<char>>)>;

/// The view of an optional string.
pub open spec fn opt_view(o: Option<String>) -> Option<Seq<char>> {
    match o {
        None => None,
        Some(s) => Some(s@),
    }
}

/// The view of the groups of a match.
pub open spec fn groups_view(g: Option<(Option<String>, Option<String>)>) -> Option<(Option<Seq<char>>, Option<Seq<char>>)> {
    match g {
        None => None,
        Some((a, b)) => Some((opt_view(a), opt_view(b))),
    }
}

/// Compiles `pattern` with `regex::Regex::new` and looks for its first match
/// in `text` with `Regex::captures`; gives groups 1 and 2 of that match
/// (`Captures::get`), each `None` where the group did not take part.
/// The contract claims only that the result is a function of the pattern and
/// the text, named `regex_groups_of`; a pattern that does not compile is
/// treated as matching nothing (the library's patterns are constants that
/// compile).
#[verifier::external_body]
pub(crate) fn regex_groups(pattern: &str, text: &str) -> (r: Option<(Option<String>, Option<String>)>)
    ensures
        groups_view(r) == regex_groups_of(pattern@, text@),
{
    let re = match regex::Regex::new(pattern) {
        Ok(re) => re,
        Err(_) => return None,
    };
    let caps = re.captures(text)?;
    let g1 = match caps.get(1) { Some(m) => Some(m.as_str().to_string()), None => None };
    let g2 = match caps.get(2) { Some(m) => Some(m.as_str().to_string()), None => None };
    Some((g1, g2))
}

} // verus!
