//! Regular expressions, as the crate `regex` matches them. What is here is
//! believed, not proved.

use vstd::prelude::*;

verus! {

/// What the crate `regex` finds of the pattern `pattern` in `text`: for
/// each match, from the left, its capture groups in the order of the
/// pattern, the whole match first; each group is what it matched, or `None`
/// where it took no part in the match. `None` as a whole where `pattern` is
/// no regular expression that the crate accepts.
pub uninterp spec fn groups_of(pattern: Seq<char>, text: Seq<char>) -> Option<
    Seq<Seq<Option<Seq<char>>>>,
>;

/// The views of a list of optional strings.
pub open spec fn opt_texts(groups: Seq<Option<String>>) -> Seq<Option<Seq<char>>> {
    groups.map_values(
        |g: Option<String>|
            match g {
                Some(s) => Some(s@),
                None => None,
            },
    )
}

/// The views of the groups of a list of matches.
pub open spec fn match_views(matches: Seq<Vec<Option<String>>>) -> Seq<Seq<Option<Seq<char>>>> {
    matches.map_values(|m: Vec<Option<String>>| opt_texts(m@))
}

/// `regex::Regex::new` and, on what it gives, `Regex::captures_iter`, each
/// match handed out as the groups that `Captures::iter` yields. The result
/// is a function of the pattern and the text alone; nothing more is claimed
/// of it. A pattern that does not compile gives `None`.
#[verifier::external_body]
pub(crate) fn groups(pattern: &str, text: &str) -> (r: Option<Vec<Vec<Option<String>>>>)
    ensures
        (match r {
            Some(matches) => Some(match_views(matches@)),
            None => None,
        }) == groups_of(pattern@, text@),
{
    match regex::Regex::new(pattern) {
        Ok(re) => Some(
            re.captures_iter(text).map(
                |c| c.iter().map(|g| g.map(|m| m.as_str().to_string())).collect(),
            ).collect(),
        ),
        Err(_) => None,
    }
}

} // verus!
