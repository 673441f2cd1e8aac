//! The alphabetical order of members.

use crate::groupes::membres::Membre;
use crate::texte::ordre_octets;
use crate::texte::ordre_textes;
use std::cmp::Ordering;
use vstd::prelude::*;
use vstd::utf8::encode_utf8;

verus! {

/// How the member `a` stands to the member `b` in the order of names: by
/// name, and for the same name by first name; -1 for before, 0 for the same,
/// 1 for after.
pub open spec fn ordre_noms(a: Membre, b: Membre) -> int {
    if ordre_octets(encode_utf8(a.nom@), encode_utf8(b.nom@)) != 0 {
        ordre_octets(encode_utf8(a.nom@), encode_utf8(b.nom@))
    } else {
        ordre_octets(encode_utf8(a.prenom@), encode_utf8(b.prenom@))
    }
}

impl Membre {
    /// How the member stands to `other` in the order of names: by name, and
    /// for the same name by first name.
    pub fn cmp_nom(&self, other: &Self) -> (c: Ordering)
        ensures
            c == if ordre_noms(*self, *other) < 0 {
                Ordering::Less
            } else if ordre_noms(*self, *other) == 0 {
                Ordering::Equal
            } else {
                Ordering::Greater
            },
    {
        let n = ordre_textes(self.nom.as_str(), other.nom.as_str());
        let r = if n != 0 {
            n
        } else {
            ordre_textes(self.prenom.as_str(), other.prenom.as_str())
        };
        if r < 0 {
            Ordering::Less
        } else if r == 0 {
            Ordering::Equal
        } else {
            Ordering::Greater
        }
    }
}

/// Whether the member `a` comes behind the member `b` in the order of names.
pub fn plus_grand(a: &Membre, b: &Membre) -> (r: bool)
    ensures
        r == (ordre_noms(*a, *b) > 0),
{
    match a.cmp_nom(b) {
        Ordering::Greater => true,
        _ => false,
    }
}

} // verus!
