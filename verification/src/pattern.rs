//! Regular expressions, as the `regex` crate runs them.

use vstd::prelude::*;

verus! {

/// The view of the captures of one match: for each group its text, if the
/// group took part.
pub open spec fn groups_view(c: Seq<Option<String>>) -> Seq<Option<Seq<char>>> {
    c.map_values(
        |g: Option<String>|
            match g {
                Some(s) => Some(s@),
                None => None,
            },
    )
}

/// The view of the captures of a sequence of matches.
pub open spec fn captures_view(c: Seq<Vec<Option<String>>>) -> Seq<Seq<Option<Seq<char>>>> {
    c.map_values(|g: Vec<Option<String>>| groups_view(g@))
}

/// What the pattern captures in the text: for each of the successive matches
/// that do not overlap, the text of the whole match and of each group. `None`
/// where the pattern is no regular expression.
pub uninterp spec fn regex_captures(pattern: Seq<char>, text: Seq<char>) -> Option<
    Seq<Seq<Option<Seq<char>>>>,
>;

/// `regex::Regex::new` and `Regex::captures_iter`: the captures of the pattern
/// in the text. The result depends on the two arguments alone.
#[verifier::external_body]
pub(crate) fn find_captures(pattern: &str, text: &str) -> (r: Option<Vec<Vec<Option<String>>>>)
    ensures
        match r {
            Some(c) => regex_captures(pattern@, text@) == Some(captures_view(c@)),
            None => regex_captures(pattern@, text@) is None,
        },
{
    let re = regex::Regex::new(pattern).ok()?;
    Some(
        re.captures_iter(text)
            .map(|c| c.iter().map(|m| m.map(|m| m.as_str().to_string())).collect())
            .collect(),
    )
}

/// The text with every match of the pattern replaced. `None` where the pattern
/// is no regular expression.
pub uninterp spec fn regex_replaced(pattern: Seq<char>, text: Seq<char>, with: Seq<char>) -> Option<
    Seq<char>,
>;

/// `regex::Regex::new` and `Regex::replace_all`: the text with every match of
/// the pattern replaced. The result depends on the three arguments alone.
#[verifier::external_body]
pub(crate) fn replace_matches(pattern: &str, text: &str, with: &str) -> (r: Option<String>)
    ensures
        match r {
            Some(s) => regex_replaced(pattern@, text@, with@) == Some(s@),
            None => regex_replaced(pattern@, text@, with@) is None,
        },
{
    let re = regex::Regex::new(pattern).ok()?;
    Some(re.replace_all(text, with).to_string())
}

/// The text of group `i` of one match, if there is one.
pub open spec fn group(c: Seq<Option<Seq<char>>>, i: int) -> Option<Seq<char>> {
    if 0 <= i < c.len() {
        c[i]
    } else {
        None
    }
}

/// The text of group `i` of one match, or `default` where it took no part.
pub open spec fn group_or(c: Seq<Option<Seq<char>>>, i: int, default: Seq<char>) -> Seq<char> {
    match group(c, i) {
        Some(s) => s,
        None => default,
    }
}

/// The text of group `i` of one match.
pub fn group_text(c: &Vec<Option<String>>, i: usize) -> (r: Option<&String>)
    ensures
        match r {
            Some(s) => group(groups_view(c@), i as int) == Some(s@),
            None => group(groups_view(c@), i as int) is None,
        },
{
    if i < c.len() {
        match &c[i] {
            Some(s) => Some(s),
            None => None,
        }
    } else {
        None
    }
}

/// The text of group `i` of one match, or `default`.
pub fn group_text_or<'a>(c: &'a Vec<Option<String>>, i: usize, default: &'a str) -> (r: &'a str)
    ensures
        r@ == group_or(groups_view(c@), i as int, default@),
{
    match group_text(c, i) {
        Some(s) => s.as_str(),
        None => default,
    }
}

} // verus!
