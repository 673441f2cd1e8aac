//! Regular expressions, as the regex crate matches them.

use crate::texte::vue_opt;
use vstd::prelude::*;

verus! {

/// What the regular expression `motif` captures in `texte`: nothing if the
/// expression does not compile or matches nowhere, else the groups of the
/// leftmost match in the order of their opening brackets, the whole match
/// first. A group that took no part in the match is empty.
pub uninterp spec fn captures_de(motif: Seq<char>, texte: Seq<char>) -> Option<
    Seq<Option<Seq<char>>>,
>;

/// Capture groups as sequences of characters.
pub open spec fn vue_groupes(groupes: Seq<Option<String>>) -> Seq<Option<Seq<char>>> {
    groupes.map_values(|g: Option<String>| vue_opt(g))
}

/// What a search for captures gave, as sequences of characters.
pub open spec fn vue_captures(r: Option<Vec<Option<String>>>) -> Option<Seq<Option<Seq<char>>>> {
    match r {
        Some(v) => Some(vue_groupes(v@)),
        None => None,
    }
}

/// `regex::Regex::new` on `motif`, then `Regex::captures` on `texte`; the
/// groups are copied out with `Captures::iter` and `Match::as_str`. The same
/// expression and the same text always give the same groups: that is all that
/// is claimed here.
#[verifier::external_body]
pub(crate) fn captures(motif: &str, texte: &str) -> (r: Option<Vec<Option<String>>>)
    ensures
        vue_captures(r) == captures_de(motif@, texte@),
{
    let re = regex::Regex::new(motif).ok()?;
    let caps = re.captures(texte)?;
    Some(caps.iter().map(|g| g.map(|m| m.as_str().to_owned())).collect())
}

/// The text of group `i` of `groupes`, if the group is there and took part in
/// the match.
pub open spec fn groupe(groupes: Seq<Option<Seq<char>>>, i: int) -> Option<Seq<char>> {
    if 0 <= i < groupes.len() {
        groupes[i]
    } else {
        None
    }
}

/// The text of group `i`, if the group is there and took part in the match.
pub fn groupe_de(groupes: &Vec<Option<String>>, i: usize) -> (r: Option<&str>)
    ensures
        match r {
            Some(s) => groupe(vue_groupes(groupes@), i as int) == Some(s@),
            None => groupe(vue_groupes(groupes@), i as int) is None,
        },
{
    if i < groupes.len() {
        match &groupes[i] {
            Some(s) => Some(s.as_str()),
            None => None,
        }
    } else {
        None
    }
}

/// Whether the regular expression `motif` matches somewhere in `texte`.
pub open spec fn correspond(motif: Seq<char>, texte: Seq<char>) -> bool {
    captures_de(motif, texte) is Some
}

/// Whether the regular expression `motif` matches somewhere in `texte`.
pub fn is_match(motif: &str, texte: &str) -> (b: bool)
    ensures
        b == correspond(motif@, texte@),
{
    captures(motif, texte).is_some()
}

} // verus!
