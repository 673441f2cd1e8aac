//! Canadian phone numbers.

use crate::data::{ParsingError, ParsingResult};
use crate::motif::{captures, captures_de, groupe, groupe_de, vue_groupes};
use crate::texte::{
    ajoute_octets, ecrit_ascii, est_ascii, octets_ascii, octets_de, pousse_car, texte_ascii,
};
use vstd::slice::slice_subrange;
use vstd::prelude::*;

verus! {

/// Whether `b` is one of the ASCII digits.
pub open spec fn est_chiffre(b: u8) -> bool {
    0x30 <= b <= 0x39
}

/// A phone number as it may be written: a country digit if need be, the area
/// code in group 2, with or without brackets, the exchange in group 3 and the
/// line number in group 4.
pub const TEL_RE: &'static str =
    r"^\s*(?:\+?(?<pays>\d)\s*-?\s*)?(?<reg>(?:\d{3})|(?:\(\s*\d{3}\s*\)))\s*-?\s*(?<a>\d{3})\s*-?\s*(?<b>\d{4})\s*$";

/// Whether `octets` start with ten ASCII digits.
pub open spec fn dix_chiffres(octets: Seq<u8>) -> bool {
    octets.len() >= 10 && forall|i: int| 0 <= i < 10 ==> est_chiffre(#[trigger] octets[i])
}

/// The ten digits that the groups found in a phone number stand for: the area
/// code without its brackets, the exchange and the line number. Nothing if a
/// group is missing or if what they hold is not ten ASCII digits.
pub open spec fn chiffres_lus(groupes: Seq<Option<Seq<char>>>) -> Option<Seq<u8>> {
    match (groupe(groupes, 2), groupe(groupes, 3), groupe(groupes, 4)) {
        (Some(reg), Some(a), Some(b)) => {
            if est_ascii(reg) && est_ascii(a) && est_ascii(b) && (reg.len() == 3 || reg.len()
                >= 4) {
                let region = if reg.len() == 3 {
                    reg
                } else {
                    reg.subrange(1, 4)
                };
                let tout = octets_de(region) + octets_de(a) + octets_de(b);
                if dix_chiffres(tout) {
                    Some(tout.take(10))
                } else {
                    None
                }
            } else {
                None
            }
        },
        _ => None,
    }
}

/// A ten-digit phone number: area code, exchange and line number.
#[derive(Debug, Eq, Clone, Copy, Hash)]
pub struct Tel([u8; 10]);

impl PartialEq for Tel {
    fn eq(&self, other: &Self) -> (r: bool) {
        let mut i: usize = 0;
        while i < 10
            invariant
                i <= 10,
                forall|j: int| 0 <= j < i ==> self.0[j] == other.0[j],
            decreases 10 - i,
        {
            if self.0[i] != other.0[i] {
                return false;
            }
            i += 1;
        }
        assert(self.0@ =~= other.0@);
        true
    }
}

impl vstd::std_specs::cmp::PartialEqSpecImpl for Tel {
    open spec fn obeys_eq_spec() -> bool {
        true
    }

    open spec fn eq_spec(&self, other: &Self) -> bool {
        self.chiffres() == other.chiffres()
    }
}

impl Tel {
    /// The ten digits, as ASCII bytes.
    pub closed spec fn chiffres(&self) -> Seq<u8> {
        self.0@
    }

    #[verifier::type_invariant]
    spec fn inv(self) -> bool {
        forall|i: int| 0 <= i < 10 ==> est_chiffre(#[trigger] self.0@[i])
    }

    /// The number made of `chiffres`, if each of them is an ASCII digit.
    pub fn try_new(chiffres: [u8; 10]) -> (r: Option<Tel>)
        ensures
            r is Some <==> forall|i: int| 0 <= i < 10 ==> est_chiffre(#[trigger] chiffres@[i]),
            r matches Some(t) ==> t.chiffres() == chiffres@,
    {
        let mut i: usize = 0;
        while i < 10
            invariant
                i <= 10,
                forall|j: int| 0 <= j < i ==> est_chiffre(#[trigger] chiffres@[j]),
            decreases 10 - i,
        {
            if chiffres[i] < 0x30 || chiffres[i] > 0x39 {
                return None;
            }
            i += 1;
        }
        Some(Tel(chiffres))
    }

    /// The number that the groups found by [`TEL_RE`] stand for.
    pub fn des_groupes(groupes: &Vec<Option<String>>) -> (r: ParsingResult<Tel>)
        ensures
            match r {
                Ok(t) => chiffres_lus(vue_groupes(groupes@)) == Some(t.chiffres()),
                Err(e) => chiffres_lus(vue_groupes(groupes@)) is None && e.msg() == Some(
                    "Numéro de téléphone invalide"@,
                ) && e.at() is None && e.src() is None,
            },
    {
        let reg = match groupe_de(groupes, 2) {
            Some(g) => g,
            None => return Err(ParsingError::from_msg("Numéro de téléphone invalide")),
        };
        let a = match groupe_de(groupes, 3) {
            Some(g) => g,
            None => return Err(ParsingError::from_msg("Numéro de téléphone invalide")),
        };
        let b = match groupe_de(groupes, 4) {
            Some(g) => g,
            None => return Err(ParsingError::from_msg("Numéro de téléphone invalide")),
        };
        let (oreg, oa, ob) = match (octets_ascii(reg), octets_ascii(a), octets_ascii(b)) {
            (Some(x), Some(y), Some(z)) => (x, y, z),
            _ => return Err(ParsingError::from_msg("Numéro de téléphone invalide")),
        };
        let mut tout: Vec<u8> = Vec::new();
        if oreg.len() == 3 {
            ajoute_octets(&mut tout, oreg);
        } else if oreg.len() >= 4 {
            ajoute_octets(&mut tout, slice_subrange(oreg, 1, 4));
            assert(oreg@.subrange(1, 4) =~= octets_de(reg@.subrange(1, 4)));
        } else {
            return Err(ParsingError::from_msg("Numéro de téléphone invalide"));
        }
        ajoute_octets(&mut tout, oa);
        ajoute_octets(&mut tout, ob);
        let ghost region = if reg@.len() == 3 {
            reg@
        } else {
            reg@.subrange(1, 4)
        };
        assert(tout@ =~= octets_de(region) + octets_de(a@) + octets_de(b@));
        if tout.len() < 10 {
            return Err(ParsingError::from_msg("Numéro de téléphone invalide"));
        }
        let mut arr: [u8; 10] = [0u8; 10];
        let mut i: usize = 0;
        while i < 10
            invariant
                i <= 10,
                tout@.len() >= 10,
                forall|j: int| 0 <= j < i ==> arr@[j] == tout@[j],
            decreases 10 - i,
        {
            arr[i] = tout[i];
            i += 1;
        }
        assert(arr@ =~= tout@.take(10));
        let ghost g = vue_groupes(groupes@);
        assert(groupe(g, 2) == Some(reg@) && groupe(g, 3) == Some(a@) && groupe(g, 4) == Some(b@));
        match Tel::try_new(arr) {
            Some(t) => {
                assert forall|i: int| 0 <= i < 10 implies est_chiffre(#[trigger] tout@[i]) by {
                    assert(est_chiffre(arr@[i]));
                }
                assert(dix_chiffres(tout@));
                Ok(t)
            },
            None => {
                proof {
                    if forall|i: int| 0 <= i < 10 ==> est_chiffre(#[trigger] tout@[i]) {
                        assert forall|i: int| 0 <= i < 10 implies est_chiffre(
                            #[trigger] arr@[i],
                        ) by {
                            assert(est_chiffre(tout@[i]));
                        }
                    }
                    assert(!dix_chiffres(tout@));
                }
                Err(ParsingError::from_msg("Numéro de téléphone invalide"))
            },
        }
    }

    /// Reads a Canadian phone number.
    pub fn parse(orig: &str) -> (r: ParsingResult<Tel>)
        ensures
            match r {
                Ok(t) => captures_de(TEL_RE@, orig@) matches Some(g) && chiffres_lus(g) == Some(
                    t.chiffres(),
                ),
                Err(e) => (match captures_de(TEL_RE@, orig@) {
                    Some(g) => chiffres_lus(g) is None,
                    None => true,
                }) && e.msg() == Some("Numéro de téléphone invalide"@) && e.at() is None
                    && e.src() is None,
            },
    {
        match captures(TEL_RE, orig) {
            None => Err(ParsingError::from_msg("Numéro de téléphone invalide")),
            Some(c) => Tel::des_groupes(&c),
        }
    }

    /// The digits of the number that the text `t` reads as, if it reads as one.
    pub open spec fn lu(t: Seq<char>) -> Option<Seq<u8>> {
        match captures_de(TEL_RE@, t) {
            Some(g) => chiffres_lus(g),
            None => None,
        }
    }

    /// Reads a Canadian phone number, as [`Self::parse`] does.
    pub fn from_str(s: &str) -> (r: ParsingResult<Tel>)
        ensures
            match r {
                Ok(t) => Tel::lu(s@) == Some(t.chiffres()),
                Err(_) => Tel::lu(s@) is None,
            },
    {
        Tel::parse(s)
    }

    /// The ten digits, as ASCII bytes.
    pub fn octets(&self) -> (o: &[u8])
        ensures
            o@ == self.chiffres(),
    {
        self.0.as_slice()
    }

    /// The ten digits in a row.
    pub fn as_str(&self) -> (s: String)
        ensures
            s@ == texte_ascii(self.chiffres()),
    {
        proof {
            use_type_invariant(self);
        }
        let mut s = String::new();
        ecrit_ascii(&mut s, self.0.as_slice());
        s
    }

    /// The number in international form: "+1" and the ten digits.
    pub fn compact(&self) -> (s: String)
        ensures
            s@ == seq!['+', '1'] + texte_ascii(self.chiffres()),
    {
        proof {
            use_type_invariant(self);
        }
        let mut s = String::new();
        pousse_car(&mut s, '+');
        pousse_car(&mut s, '1');
        ecrit_ascii(&mut s, self.0.as_slice());
        assert(s@ =~= seq!['+', '1'] + texte_ascii(self.chiffres()));
        s
    }

    /// The number as it is shown: "+1 (418) 555-1234".
    pub open spec fn texte(&self) -> Seq<char> {
        seq!['+', '1', ' ', '('] + texte_ascii(self.chiffres().subrange(0, 3)) + seq![')', ' ']
            + texte_ascii(self.chiffres().subrange(3, 6)) + seq!['-'] + texte_ascii(
            self.chiffres().subrange(6, 10),
        )
    }

    /// The number as it is shown: "+1 (418) 555-1234".
    pub fn to_string(&self) -> (s: String)
        ensures
            s@ == self.texte(),
    {
        proof {
            use_type_invariant(self);
        }
        let mut s = String::new();
        pousse_car(&mut s, '+');
        pousse_car(&mut s, '1');
        pousse_car(&mut s, ' ');
        pousse_car(&mut s, '(');
        let t = self.0.as_slice();
        ecrit_ascii(&mut s, slice_subrange(t, 0, 3));
        pousse_car(&mut s, ')');
        pousse_car(&mut s, ' ');
        ecrit_ascii(&mut s, slice_subrange(t, 3, 6));
        pousse_car(&mut s, '-');
        ecrit_ascii(&mut s, slice_subrange(t, 6, 10));
        assert(s@ =~= seq!['+', '1', ' ', '('] + texte_ascii(self.chiffres().subrange(0, 3))
            + seq![')', ' '] + texte_ascii(self.chiffres().subrange(3, 6)) + seq!['-']
            + texte_ascii(self.chiffres().subrange(6, 10)));
        s
    }
}

impl Default for Tel {
    /// The number made of ten zeros.
    fn default() -> (t: Self)
        ensures
            t.chiffres() == Seq::new(10, |i: int| 0x30u8),
    {
        let t = Tel([0x30u8; 10]);
        assert(t.chiffres() =~= Seq::new(10, |i: int| 0x30u8));
        t
    }
}

} // verus!
