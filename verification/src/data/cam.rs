//! Health-insurance numbers and cards.

use crate::data::adresse::est_chiffre;
use crate::data::{Genre, ParsingError, ParsingResult};
use crate::motif::{captures, captures_de, groupe, groupe_de, vue_groupes};
use crate::texte::{
    ajoute_octets, analyse_entier, entier_borne, est_ascii, majuscules, octets_ascii, octets_de,
    rogne, to_uppercase, trim,
};
use crate::date::{an_possible, jours_du_mois, Date, DayInMonth, Mois};
use crate::texte::{
    decimal_signe, ecrit_ascii, ecrit_decimal_signe, pousse_car, rembourre, rembourre_droite,
    texte_ascii,
};
use vstd::string::StringExecFns;
use vstd::prelude::*;
use vstd::slice::slice_subrange;

verus! {

/// Whether `b` is an upper-case ASCII letter.
pub open spec fn est_majuscule(b: u8) -> bool {
    0x41 <= b <= 0x5a
}

/// Whether `octets` have the form of a health-insurance number: four
/// upper-case letters and eight digits.
pub open spec fn forme_nam(octets: Seq<u8>) -> bool {
    &&& octets.len() == 12
    &&& forall|i: int| 0 <= i < 4 ==> est_majuscule(#[trigger] octets[i])
    &&& forall|i: int| 4 <= i < 12 ==> est_chiffre(#[trigger] octets[i])
}

/// The number that the two ASCII digits at `i` and `i + 1` of `octets` write.
pub open spec fn deux_chiffres(octets: Seq<u8>, i: int) -> int {
    (octets[i] - 0x30) * 10 + (octets[i + 1] - 0x30)
}

/// The month of birth that the number `octets` encodes: the two digits at
/// position 6, less 50 for a woman.
pub open spec fn mois_code(octets: Seq<u8>) -> int {
    let m = deux_chiffres(octets, 6);
    if m > 50 {
        m - 50
    } else {
        m
    }
}

/// Whether the month and the day of birth that `octets` encode exist, the 29th
/// of February being accepted whatever the year.
pub open spec fn naissance_valide(octets: Seq<u8>) -> bool {
    &&& 1 <= mois_code(octets) <= 12
    &&& 1 <= deux_chiffres(octets, 8) <= jours_du_mois(2000, mois_code(octets))
}

/// A health-insurance number as it may be written, in three parts with white
/// space between them if need be: four letters in group 2, four digits in
/// group 3 and four more in group 4.
pub const NAM_RE: &'static str =
    r"(?P<nam>(?i)(?P<nama>[a-zA-Z]{4})\s*(?P<namb>[0-9]{4})\s*(?P<namc>[0-9]{4}))";

/// A health-insurance card as it may be written: the number as in [`NAM_RE`],
/// then the year in which the card runs out in group 7 and the month in group
/// 8.
pub const CAM_RE: &'static str =
    r"(?P<nam>(?i)(?P<nama>[a-zA-Z]{4})\s*(?P<namb>[0-9]{4})\s*(?P<namc>[0-9]{4}))\s*?(:?\s|-)\s*(?P<exp>(?P<expan>[0-9]{4})\s*/\s*(?P<expm>[0-9]{2}))";

/// The twelve bytes that the groups found in a health-insurance number stand
/// for: the letters put in upper case, then the digits. Nothing if a group is
/// missing or if the bytes do not have the form of a number.
pub open spec fn octets_nam(groupes: Seq<Option<Seq<char>>>) -> Option<Seq<u8>> {
    match (groupe(groupes, 2), groupe(groupes, 3), groupe(groupes, 4)) {
        (Some(a), Some(b), Some(c)) => {
            let ta = majuscules(a);
            if est_ascii(ta) && est_ascii(b) && est_ascii(c) && ta.len() + b.len() + c.len()
                >= 12 && forme_nam((octets_de(ta) + octets_de(b) + octets_de(c)).take(12)) {
                Some((octets_de(ta) + octets_de(b) + octets_de(c)).take(12))
            } else {
                None
            }
        },
        _ => None,
    }
}

/// What is wrong with the birth date in the number `octets`, if anything.
pub open spec fn defaut_naissance(octets: Seq<u8>) -> Option<Seq<char>> {
    if !(1 <= mois_code(octets) <= 12) {
        Some("NAM invalide (mois de naissance)"@)
    } else if !naissance_valide(octets) {
        Some("NAM invalide (jour de naissance)"@)
    } else {
        None
    }
}

/// Why the groups found in a health-insurance number give no number, if they
/// give none.
pub open spec fn defaut_nam(groupes: Seq<Option<Seq<char>>>) -> Option<Seq<char>> {
    match octets_nam(groupes) {
        None => Some("Format de NAM invalide"@),
        Some(o) => defaut_naissance(o),
    }
}

/// The year and the month in which a card runs out, as the groups found in
/// it give them: two whole numbers, if they are written there and the year is
/// one that a date can lie in.
pub open spec fn expiration_lue(groupes: Seq<Option<Seq<char>>>) -> Option<(int, int)> {
    match (groupe(groupes, 7), groupe(groupes, 8)) {
        (Some(an), Some(mois)) => match (
            entier_borne(an, -262143, 262142),
            entier_borne(mois, 0, 255),
        ) {
            (Some(a), Some(m)) => Some((a, m)),
            _ => None,
        },
        _ => None,
    }
}

/// Why the groups found in a health-insurance card give no card, if they give
/// none: the month in which the card runs out is looked at before the number.
pub open spec fn defaut_cam(groupes: Seq<Option<Seq<char>>>) -> Option<Seq<char>> {
    match expiration_lue(groupes) {
        None => Some("Format de NAM invalide"@),
        Some((an, mois)) => if !(1 <= mois <= 12) {
            Some("Mois d'expiration invalide"@)
        } else {
            defaut_nam(groupes)
        },
    }
}

/// A Quebec health-insurance number: three letters of the last name, one of
/// the first name, then the birth date and a sequence number in eight digits.
#[derive(Debug, Eq, Clone, Copy, Hash)]
pub struct NAM([u8; 12]);

impl PartialEq for NAM {
    fn eq(&self, other: &Self) -> (r: bool) {
        let mut i: usize = 0;
        while i < 12
            invariant
                i <= 12,
                forall|j: int| 0 <= j < i ==> self.0[j] == other.0[j],
            decreases 12 - i,
        {
            if self.0[i] != other.0[i] {
                return false;
            }
            i += 1;
        }
        assert(self.0@ =~= other.0@);
        true
    }
}

impl vstd::std_specs::cmp::PartialEqSpecImpl for NAM {
    open spec fn obeys_eq_spec() -> bool {
        true
    }

    open spec fn eq_spec(&self, other: &Self) -> bool {
        self.octets() == other.octets()
    }
}

impl NAM {
    /// The twelve characters of the number, as ASCII bytes.
    pub closed spec fn octets(&self) -> Seq<u8> {
        self.0@
    }

    #[verifier::type_invariant]
    spec fn inv(self) -> bool {
        forme_nam(self.0@)
    }

    /// The number spelled by `num`, if it has the form of one. Whether the
    /// birth date in it exists is not looked at: see [`Self::valid`].
    pub fn create(num: [u8; 12]) -> (r: Option<NAM>)
        ensures
            r is Some <==> forme_nam(num@),
            r matches Some(n) ==> n.octets() == num@,
    {
        let mut i: usize = 0;
        while i < 12
            invariant
                i <= 12,
                forall|j: int| 0 <= j < i && j < 4 ==> est_majuscule(#[trigger] num@[j]),
                forall|j: int| 4 <= j < i ==> est_chiffre(#[trigger] num@[j]),
            decreases 12 - i,
        {
            let c = num[i];
            if i < 4 {
                if c < 0x41 || c > 0x5a {
                    return None;
                }
            } else if c < 0x30 || c > 0x39 {
                return None;
            }
            i += 1;
        }
        Some(NAM(num))
    }

    fn forme(groupes: &Vec<Option<String>>) -> (r: Option<NAM>)
        ensures
            match r {
                Some(n) => octets_nam(vue_groupes(groupes@)) == Some(n.octets()),
                None => octets_nam(vue_groupes(groupes@)) is None,
            },
    {
        let (a, b, c) = match (groupe_de(groupes, 2), groupe_de(groupes, 3), groupe_de(groupes, 4)) {
            (Some(a), Some(b), Some(c)) => (a, b, c),
            _ => return None,
        };
        let ta = to_uppercase(a);
        let (oa, ob, oc) = match (octets_ascii(ta.as_str()), octets_ascii(b), octets_ascii(c)) {
            (Some(x), Some(y), Some(z)) => (x, y, z),
            _ => return None,
        };
        let mut tout: Vec<u8> = Vec::new();
        ajoute_octets(&mut tout, oa);
        ajoute_octets(&mut tout, ob);
        ajoute_octets(&mut tout, oc);
        assert(tout@ =~= octets_de(ta@) + octets_de(b@) + octets_de(c@));
        if tout.len() < 12 {
            return None;
        }
        let mut arr: [u8; 12] = [0u8; 12];
        let mut i: usize = 0;
        while i < 12
            invariant
                i <= 12,
                tout@.len() >= 12,
                forall|j: int| 0 <= j < i ==> arr@[j] == tout@[j],
            decreases 12 - i,
        {
            arr[i] = tout[i];
            i += 1;
        }
        assert(arr@ =~= tout@.take(12));
        NAM::create(arr)
    }

    /// The number that the groups found by [`NAM_RE`] stand for, if they give
    /// one and the birth date in it exists.
    pub fn des_groupes(groupes: &Vec<Option<String>>) -> (r: ParsingResult<NAM>)
        ensures
            match r {
                Ok(n) => octets_nam(vue_groupes(groupes@)) == Some(n.octets()) && naissance_valide(
                    n.octets(),
                ),
                Err(e) => e.msg() == defaut_nam(vue_groupes(groupes@)) && e.msg() is Some
                    && e.at() is None && e.src() is None,
            },
    {
        match NAM::forme(groupes) {
            None => Err(ParsingError::from_msg("Format de NAM invalide")),
            Some(n) => {
                if n.mois_naissance().is_none() {
                    Err(ParsingError::from_msg("NAM invalide (mois de naissance)"))
                } else if !n.valid() {
                    Err(ParsingError::from_msg("NAM invalide (jour de naissance)"))
                } else {
                    Ok(n)
                }
            },
        }
    }

    /// Reads a health-insurance number; white space around it does not count.
    pub fn parse(s: &str) -> (r: ParsingResult<NAM>)
        ensures
            match r {
                Ok(n) => captures_de(NAM_RE@, rogne(s@)) matches Some(g) && octets_nam(g) == Some(
                    n.octets(),
                ) && naissance_valide(n.octets()),
                Err(e) => e.msg() == (match captures_de(NAM_RE@, rogne(s@)) {
                    Some(g) => defaut_nam(g),
                    None => Some("Format de NAM invalide"@),
                }) && e.msg() is Some && e.at() is None && e.src() is None,
            },
    {
        match captures(NAM_RE, trim(s)) {
            Some(caps) => NAM::des_groupes(&caps),
            None => Err(ParsingError::from_msg("Format de NAM invalide")),
        }
    }

    fn nombre(&self, i: usize) -> (n: u8)
        requires
            4 <= i < 11,
        ensures
            n == deux_chiffres(self.octets(), i as int),
            n <= 99,
            forme_nam(self.octets()),
    {
        proof {
            use_type_invariant(self);
            assert(est_chiffre(self.0@[i as int]));
            assert(est_chiffre(self.0@[i + 1]));
        }
        (self.0[i] - 0x30) * 10 + (self.0[i + 1] - 0x30)
    }

    /// The twelve characters of the number in a row.
    pub fn as_str(&self) -> (s: String)
        ensures
            s@ == texte_ascii(self.octets()),
            forme_nam(self.octets()),
    {
        proof {
            use_type_invariant(self);
            assert forall|i: int| 0 <= i < 12 implies self.0@[i] < 128 by {
                if i < 4 {
                    assert(est_majuscule(self.0@[i]));
                } else {
                    assert(est_chiffre(self.0@[i]));
                }
            }
        }
        let mut s = String::new();
        ecrit_ascii(&mut s, self.0.as_slice());
        s
    }

    /// The three letters taken from the last name.
    pub fn nom(&self) -> (s: String)
        ensures
            s@ == texte_ascii(self.octets().subrange(0, 3)),
    {
        proof {
            use_type_invariant(self);
            assert forall|i: int| 0 <= i < 3 implies self.0@.subrange(0, 3)[i] < 128 by {
                assert(est_majuscule(self.0@[i]));
            }
        }
        let mut s = String::new();
        ecrit_ascii(&mut s, slice_subrange(self.0.as_slice(), 0, 3));
        s
    }

    /// The letter taken from the first name.
    pub fn prenom(&self) -> (s: String)
        ensures
            s@ == texte_ascii(self.octets().subrange(3, 4)),
    {
        proof {
            use_type_invariant(self);
            assert forall|i: int| 0 <= i < 1 implies self.0@.subrange(3, 4)[i] < 128 by {
                assert(est_majuscule(self.0@[3]));
            }
        }
        let mut s = String::new();
        ecrit_ascii(&mut s, slice_subrange(self.0.as_slice(), 3, 4));
        s
    }

    /// The last two digits of the year of birth.
    pub fn an_naissance(&self) -> (n: u8)
        ensures
            n == deux_chiffres(self.octets(), 4),
    {
        self.nombre(4)
    }

    /// The month of birth, if the number holds one.
    pub fn mois_naissance(&self) -> (r: Option<Mois>)
        ensures
            r is Some <==> 1 <= mois_code(self.octets()) <= 12,
            r matches Some(m) ==> m.numero() == mois_code(self.octets()),
    {
        let m: u8 = self.nombre(6);
        let m: u8 = if m > 50 {
            m - 50
        } else {
            m
        };
        Mois::try_from(m)
    }

    /// The gender that the number encodes: a month of birth raised by 50
    /// stands for a woman.
    pub fn genre(&self) -> (g: Genre)
        ensures
            g == if deux_chiffres(self.octets(), 6) > 50 {
                Genre::Femme
            } else {
                Genre::Homme
            },
    {
        let m: u8 = self.nombre(6);
        if m > 50 {
            Genre::Femme
        } else {
            Genre::Homme
        }
    }

    /// The day of the month of birth.
    pub fn jour_naissance(&self) -> (n: u8)
        ensures
            n == deux_chiffres(self.octets(), 8),
    {
        self.nombre(8)
    }

    /// Whether the month and the day of birth in the number exist.
    pub fn valid(&self) -> (b: bool)
        ensures
            b == naissance_valide(self.octets()),
    {
        match self.mois_naissance() {
            None => false,
            Some(mois) => {
                let njour: u32 = self.jour_naissance() as u32;
                !(njour == 0 || njour > mois.day_in_month())
            },
        }
    }
}

/// A health-insurance card: the number and the month in which the card runs
/// out.
#[derive(Debug, Eq, Clone, Copy, Hash)]
pub struct CAM {
    num: NAM,
    exp: (i32, u8),
}

impl PartialEq for CAM {
    fn eq(&self, other: &Self) -> (r: bool) {
        self.num == other.num && self.exp.0 == other.exp.0 && self.exp.1 == other.exp.1
    }
}

impl vstd::std_specs::cmp::PartialEqSpecImpl for CAM {
    open spec fn obeys_eq_spec() -> bool {
        true
    }

    open spec fn eq_spec(&self, other: &Self) -> bool {
        self.num().octets() == other.num().octets() && self.exp_an() == other.exp_an()
            && self.exp_mois() == other.exp_mois()
    }
}

impl CAM {
    /// The number on the card.
    pub closed spec fn num(&self) -> NAM {
        self.num
    }

    /// The year in which the card runs out.
    pub closed spec fn exp_an(&self) -> int {
        self.exp.0 as int
    }

    /// The month in which the card runs out, from 1 to 12.
    pub closed spec fn exp_mois(&self) -> int {
        self.exp.1 as int
    }

    #[verifier::type_invariant]
    spec fn inv(self) -> bool {
        an_possible(self.exp.0 as int) && 1 <= self.exp.1 <= 12
    }

    /// The card with number `num` that runs out in month `expm` of year
    /// `expan`, if that month exists.
    pub fn create(num: NAM, expan: i32, expm: u8) -> (r: Option<CAM>)
        ensures
            r is Some <==> an_possible(expan as int) && 1 <= expm <= 12,
            r matches Some(c) ==> c.num() == num && c.exp_an() == expan && c.exp_mois() == expm,
    {
        if -262143 <= expan && expan <= 262142 && 1 <= expm && expm <= 12 {
            Some(CAM { num, exp: (expan, expm) })
        } else {
            None
        }
    }

    /// The card that the groups found by [`CAM_RE`] stand for, if they give
    /// one, the card runs out in a month that exists, and the birth date in
    /// the number exists.
    pub fn des_groupes(groupes: &Vec<Option<String>>) -> (r: ParsingResult<CAM>)
        ensures
            match r {
                Ok(c) => {
                    &&& octets_nam(vue_groupes(groupes@)) == Some(c.num().octets())
                    &&& naissance_valide(c.num().octets())
                    &&& expiration_lue(vue_groupes(groupes@)) == Some((c.exp_an(), c.exp_mois()))
                    &&& defaut_cam(vue_groupes(groupes@)) is None
                },
                Err(e) => e.msg() == defaut_cam(vue_groupes(groupes@)) && e.msg() is Some
                    && e.at() is None && e.src() is None,
            },
    {
        let (an, mois) = match (groupe_de(groupes, 7), groupe_de(groupes, 8)) {
            (Some(a), Some(m)) => match (
                analyse_entier(a, -262143, 262142),
                analyse_entier(m, 0, 255),
            ) {
                (Some(a), Some(m)) => (a as i32, m as u8),
                _ => return Err(ParsingError::from_msg("Format de NAM invalide")),
            },
            _ => return Err(ParsingError::from_msg("Format de NAM invalide")),
        };
        if 0 == mois || mois > 12 {
            return Err(ParsingError::from_msg("Mois d'expiration invalide"));
        }
        match NAM::des_groupes(groupes) {
            Err(e) => Err(e),
            Ok(nam) => match CAM::create(nam, an, mois) {
                Some(c) => Ok(c),
                None => Err(ParsingError::from_msg("Format de NAM invalide")),
            },
        }
    }

    /// Why the text `t` does not read as a card; nothing if it does.
    pub open spec fn refus(t: Seq<char>) -> Option<Seq<char>> {
        match captures_de(CAM_RE@, rogne(t)) {
            Some(g) => defaut_cam(g),
            None => Some("Format de NAM invalide"@),
        }
    }

    /// Reads a health-insurance card; white space around it does not count.
    pub fn parse(s: &str) -> (r: ParsingResult<CAM>)
        ensures
            match r {
                Ok(c) => captures_de(CAM_RE@, rogne(s@)) matches Some(g) && octets_nam(g) == Some(
                    c.num().octets(),
                ) && naissance_valide(c.num().octets()) && expiration_lue(g) == Some(
                    (c.exp_an(), c.exp_mois()),
                ) && defaut_cam(g) is None,
                Err(e) => e.msg() == (match captures_de(CAM_RE@, rogne(s@)) {
                    Some(g) => defaut_cam(g),
                    None => Some("Format de NAM invalide"@),
                }) && e.msg() is Some && e.at() is None && e.src() is None,
            },
    {
        match captures(CAM_RE, trim(s)) {
            Some(caps) => CAM::des_groupes(&caps),
            None => Err(ParsingError::from_msg("Format de NAM invalide")),
        }
    }

    /// [`Self::parse`].
    pub fn from_str(s: &str) -> (r: ParsingResult<CAM>)
        ensures
            match r {
                Ok(c) => CAM::lue(s@) == Some(c.cle()),
                Err(_) => CAM::lue(s@) is None,
            },
            match r {
                Ok(c) => captures_de(CAM_RE@, rogne(s@)) matches Some(g) && octets_nam(g) == Some(
                    c.num().octets(),
                ) && naissance_valide(c.num().octets()) && expiration_lue(g) == Some(
                    (c.exp_an(), c.exp_mois()),
                ) && defaut_cam(g) is None,
                Err(e) => e.msg() == (match captures_de(CAM_RE@, rogne(s@)) {
                    Some(g) => defaut_cam(g),
                    None => Some("Format de NAM invalide"@),
                }) && e.msg() is Some && e.at() is None && e.src() is None,
            },
    {
        CAM::parse(s)
    }

    /// The card as it is shown: the number, then the last four digits of the
    /// year and the month in which it runs out, each filled up with zeros on
    /// the right to four and two characters.
    pub open spec fn texte(&self) -> Seq<char> {
        texte_ascii(self.num().octets()) + seq![' '] + rembourre(
            decimal_signe(
                if self.exp_an() >= 0 {
                    self.exp_an() % 10000
                } else {
                    -((-self.exp_an()) % 10000)
                },
            ),
            4,
        ) + seq!['/'] + rembourre(decimal_signe(self.exp_mois()), 2)
    }

    /// The card as it is shown.
    pub fn to_string(&self) -> (s: String)
        ensures
            s@ == self.texte(),
    {
        proof {
            use_type_invariant(self);
        }
        let mut s = self.num.as_str();
        pousse_car(&mut s, ' ');
        let mut an = String::new();
        ecrit_decimal_signe(&mut an, (self.exp.0 % 10000) as i64);
        rembourre_droite(&mut an, 4);
        s.append(an.as_str());
        pousse_car(&mut s, '/');
        let mut mois = String::new();
        ecrit_decimal_signe(&mut mois, self.exp.1 as i64);
        rembourre_droite(&mut mois, 2);
        s.append(mois.as_str());
        assert(s@ =~= self.texte());
        s
    }

    /// What two cards must share to be the same card: the number, and the year
    /// and the month in which they run out.
    pub open spec fn cle(&self) -> (Seq<u8>, int, int) {
        (self.num().octets(), self.exp_an(), self.exp_mois())
    }

    /// The card that the text `t` reads as, if it reads as one.
    pub open spec fn lue(t: Seq<char>) -> Option<(Seq<u8>, int, int)> {
        match captures_de(CAM_RE@, rogne(t)) {
            Some(g) => match (defaut_cam(g), octets_nam(g), expiration_lue(g)) {
                (None, Some(o), Some(e)) => Some((o, e.0, e.1)),
                _ => None,
            },
            None => None,
        }
    }

    /// The last day on which the card holds: the last day of the month in which
    /// it runs out.
    pub fn expiration(&self) -> (d: Date)
        ensures
            d.an() == self.exp_an(),
            d.mois() == self.exp_mois(),
            d.jour() == jours_du_mois(self.exp_an(), self.exp_mois()),
    {
        proof {
            use_type_invariant(self);
        }
        let mois = Mois::try_from(self.exp.1).unwrap();
        let jour = mois.days_in_month_year(self.exp.0);
        Date::from_ymd_opt(self.exp.0, self.exp.1 as u32, jour).unwrap()
    }

    /// Whether `at` comes before the day [`Self::expiration`].
    pub fn is_expired_at(&self, at: Date) -> (b: bool)
        ensures
            b == (at.an() < self.exp_an() || (at.an() == self.exp_an() && (at.mois()
                < self.exp_mois() || (at.mois() == self.exp_mois() && at.jour() < jours_du_mois(
                self.exp_an(),
                self.exp_mois(),
            ))))),
    {
        let fin = self.expiration();
        at.avant(&fin)
    }

    /// [`Self::is_expired_at`] for the date that the machine gives for today.
    pub fn is_expired(&self) -> (b: bool) {
        self.is_expired_at(Date::today())
    }

    /// The number on the card.
    pub fn numero(&self) -> (n: NAM)
        ensures
            n == self.num(),
    {
        self.num
    }

    /// The year in which the card runs out.
    pub fn exp_year(&self) -> (a: i32)
        ensures
            a == self.exp_an(),
            an_possible(a as int),
    {
        proof {
            use_type_invariant(self);
        }
        self.exp.0
    }

    /// The month in which the card runs out, from 1 to 12.
    pub fn exp_month(&self) -> (m: u8)
        ensures
            m == self.exp_mois(),
            1 <= m <= 12,
    {
        proof {
            use_type_invariant(self);
        }
        self.exp.1
    }
}

} // verus!
