//! Regular-expression matching, done by the `regex` crate.

use vstd::prelude::*;

verus! {

/// What the `regex` crate gives for `pattern` on `text`: nothing when the
/// pattern does not compile or does not match; otherwise the text of
/// each capture group of the leftmost-first match, in the order of the
/// groups' opening parentheses, group 0 being the whole match, a group
/// that took no part in the match being nothing.
pub uninterp spec fn regex_captures_of(pattern: Seq<char>, text: Seq<char>) -> Option<
    Seq<Option<Seq<char>>>,
>;

/// The model of the groups of a match.
pub open spec fn groups_seq(v: Seq<Option<String>>) -> Seq<Option<Seq<char>>> {
    v.map_values(|m: Option<String>| crate::message::opt_view(m))
}

/// The model of what `regex_captures` hands back.
pub open spec fn groups_view(g: Option<Vec<Option<String>>>) -> Option<Seq<Option<Seq<char>>>> {
    match g {
        Some(v) => Some(groups_seq(v@)),
        None => None,
    }
}

/// Compiles `pattern` with `regex::Regex::new` and runs
/// `regex::Regex::captures` on `text`, handing back the text of every
/// group (`Captures::iter`, `Match::as_str`). The contract claims only
/// that the outcome is a function of the pattern and the text, named
/// `regex_captures_of`, and, as the crate documents for `Captures::iter`,
/// that a match has group 0, which took part.
#[verifier::external_body]
pub(crate) fn regex_captures(pattern: &str, text: &str) -> (res: Option<Vec<Option<String>>>)
    ensures
        groups_view(res) == regex_captures_of(pattern@, text@),
        res matches Some(g) ==> g@.len() > 0 && g@[0] is Some,
{
    let re = match regex::Regex::new(pattern) {
        Ok(re) => re,
        Err(_) => return None,
    };
    let caps = re.captures(text)?;
    let mut groups = Vec::new();
    for m in caps.iter() {
        groups.push(m.map(|m| m.as_str().to_string()));
    }
    Some(groups)
}

/// Group `i` of a match, when the match has such a group and it took part.
pub open spec fn group(g: Seq<Option<Seq<char>>>, i: int) -> Option<Seq<char>> {
    if 0 <= i < g.len() {
        g[i]
    } else {
        None
    }
}

/// Group `i` of a match, when the match has such a group and it took part.
pub fn get_group(g: &Vec<Option<String>>, i: usize) -> (res: Option<String>)
    ensures
        crate::message::opt_view(res) == group(groups_seq(g@), i as int),
{
    if i < g.len() {
        match &g[i] {
            Some(s) => Some(s.clone()),
            None => None,
        }
    } else {
        None
    }
}

} // verus!
