//! Postal addresses and their parts.

use crate::data::{ParsingError, ParsingResult};
use crate::motif::{captures, captures_de, groupe, groupe_de, vue_groupes};
use crate::texte::{
    analyse_entier, decimal, decimal_signe, ecrit_ascii, ecrit_decimal, ecrit_decimal_signe,
    entier_borne, est_ascii, majuscules, octets_ascii, octets_de, opt_texte_egal, pousse_car,
    str_egal, texte_ascii, to_uppercase, vue_opt,
};
use vstd::prelude::*;
use vstd::string::StringExecFns;

verus! {

/// The name of a country.
#[derive(Debug, Eq, Hash)]
pub struct Pays {
    ptr: String,
}

impl Clone for Pays {
    fn clone(&self) -> (r: Self)
        ensures
            r == *self,
    {
        Pays { ptr: self.ptr.clone() }
    }
}

impl PartialEq for Pays {
    fn eq(&self, other: &Self) -> (r: bool) {
        self.ptr == other.ptr
    }
}

impl vstd::std_specs::cmp::PartialEqSpecImpl for Pays {
    open spec fn obeys_eq_spec() -> bool {
        true
    }

    open spec fn eq_spec(&self, other: &Self) -> bool {
        self.nom() == other.nom()
    }
}

impl Pays {
    /// The name, as a sequence of characters.
    pub closed spec fn nom(&self) -> Seq<char> {
        self.ptr@
    }

    /// The country named `value`.
    pub fn new(value: &str) -> (r: Self)
        ensures
            r.nom() == value@,
    {
        Pays { ptr: String::from_str(value) }
    }

    /// The name.
    pub fn as_str(&self) -> (s: &str)
        ensures
            s@ == self.nom(),
    {
        self.ptr.as_str()
    }
}

/// The name of a province.
#[derive(Debug, Eq, Hash)]
pub struct Province {
    ptr: String,
}

impl Clone for Province {
    fn clone(&self) -> (r: Self)
        ensures
            r == *self,
    {
        Province { ptr: self.ptr.clone() }
    }
}

impl PartialEq for Province {
    fn eq(&self, other: &Self) -> (r: bool) {
        self.ptr == other.ptr
    }
}

impl vstd::std_specs::cmp::PartialEqSpecImpl for Province {
    open spec fn obeys_eq_spec() -> bool {
        true
    }

    open spec fn eq_spec(&self, other: &Self) -> bool {
        self.nom() == other.nom()
    }
}

impl Province {
    /// The name, as a sequence of characters.
    pub closed spec fn nom(&self) -> Seq<char> {
        self.ptr@
    }

    /// The province named `value`.
    pub fn new(value: &str) -> (r: Self)
        ensures
            r.nom() == value@,
    {
        Province { ptr: String::from_str(value) }
    }

    /// The name.
    pub fn as_str(&self) -> (s: &str)
        ensures
            s@ == self.nom(),
    {
        self.ptr.as_str()
    }
}

/// The name of a town.
#[derive(Debug, Eq, Hash)]
pub struct Ville {
    ptr: String,
}

impl Clone for Ville {
    fn clone(&self) -> (r: Self)
        ensures
            r == *self,
    {
        Ville { ptr: self.ptr.clone() }
    }
}

impl PartialEq for Ville {
    fn eq(&self, other: &Self) -> (r: bool) {
        self.ptr == other.ptr
    }
}

impl vstd::std_specs::cmp::PartialEqSpecImpl for Ville {
    open spec fn obeys_eq_spec() -> bool {
        true
    }

    open spec fn eq_spec(&self, other: &Self) -> bool {
        self.nom() == other.nom()
    }
}

impl Ville {
    /// The name, as a sequence of characters.
    pub closed spec fn nom(&self) -> Seq<char> {
        self.ptr@
    }

    /// The town named `value`.
    pub fn new(value: &str) -> (r: Self)
        ensures
            r.nom() == value@,
    {
        Ville { ptr: String::from_str(value) }
    }

    /// The name.
    pub fn as_str(&self) -> (s: &str)
        ensures
            s@ == self.nom(),
    {
        self.ptr.as_str()
    }
}

/// Whether `b` is an ASCII letter, of either case.
pub open spec fn est_lettre(b: u8) -> bool {
    0x41 <= b <= 0x5a || 0x61 <= b <= 0x7a
}

/// Whether `b` is an ASCII digit.
pub open spec fn est_chiffre(b: u8) -> bool {
    0x30 <= b <= 0x39
}

/// The upper-case form of the ASCII letter `b`; any other byte is left alone.
pub open spec fn majuscule(b: u8) -> u8 {
    if 0x61 <= b <= 0x7a {
        (b - 0x20) as u8
    } else {
        b
    }
}

/// Whether the upper-case letter `b` is one that no Canadian postal code uses.
pub open spec fn lettre_inusitee(b: u8) -> bool {
    b == 0x44 || b == 0x46 || b == 0x49 || b == 0x4f || b == 0x51 || b == 0x55
}

/// Whether the upper-case letter `b` is one that no Canadian postal code
/// starts with.
pub open spec fn initiale_inusitee(b: u8) -> bool {
    b == 0x57 || b == 0x5a
}

/// Whether `octets` alternate letters and digits, starting with a letter.
pub open spec fn forme_code(octets: Seq<u8>) -> bool {
    &&& octets.len() == 6
    &&& forall|i: int| 0 <= i < 6 && i % 2 == 0 ==> est_lettre(#[trigger] octets[i])
    &&& forall|i: int| 0 <= i < 6 && i % 2 == 1 ==> est_chiffre(#[trigger] octets[i])
}

/// What is wrong with the code `octets` at position `i`, if anything: 1 where a
/// letter is missing, 2 for a letter that is never used, 3 for a first letter
/// that is never used, 4 where a digit is missing, 0 where all is well.
pub open spec fn defaut_code(octets: Seq<u8>, i: int) -> int {
    if i % 2 == 0 {
        if !est_lettre(octets[i]) {
            1
        } else if lettre_inusitee(majuscule(octets[i])) {
            2
        } else if i == 0 && initiale_inusitee(majuscule(octets[i])) {
            3
        } else {
            0
        }
    } else if !est_chiffre(octets[i]) {
        4
    } else {
        0
    }
}

/// The order in which the positions of a code are checked: the letters first,
/// then the digits.
pub open spec fn ordre_controle() -> Seq<int> {
    seq![0, 2, 4, 1, 3, 5]
}

/// The rank, in [`ordre_controle`], of the first position of `octets` at fault;
/// 6 if none is.
pub open spec fn premier_defaut(octets: Seq<u8>, depuis: int) -> int
    decreases 6 - depuis,
{
    if depuis >= 6 {
        6
    } else if defaut_code(octets, ordre_controle()[depuis]) != 0 {
        depuis
    } else {
        premier_defaut(octets, depuis + 1)
    }
}

/// The message that goes with a fault of kind `defaut` found at position `i`
/// on the byte `b`.
pub open spec fn message_defaut(defaut: int, i: int, b: u8) -> Seq<char> {
    if defaut == 1 {
        "Le "@ + decimal((i + 1) as nat) + "ième caractère du code doit être une lettre"@
    } else if defaut == 2 {
        seq!['\''] + seq![majuscule(b) as char]
            + "' n'est jamais utilisée dans un code postal canadien"@
    } else if defaut == 3 {
        seq!['\''] + seq![majuscule(b) as char]
            + "' n'est jamais utilisée comme premier caractère dans un code postal canadien"@
    } else {
        "Le "@ + decimal((i + 1) as nat) + "ème caractère doit être un chiffre"@
    }
}

/// Whether `octets` are a code as it is kept: letters and digits in turn, the
/// letters in upper case.
pub open spec fn code_garde(octets: Seq<u8>) -> bool {
    forme_code(octets) && forall|i: int| 0 <= i < 6 ==> majuscule(#[trigger] octets[i])
        == octets[i]
}

/// A postal code as it may be written, in two halves with white space around
/// them: the halves are groups 1 and 2.
pub const ZIP_RE: &'static str = r"^\s*([A-Za-z]\d[A-Za-z])\s*(\d[A-Za-z]\d)\s*$";

/// The six bytes that the groups found in a postal code stand for: the first
/// three of each half, put in upper case. Nothing if a half is missing or if
/// the bytes are not a code.
pub open spec fn code_lu(groupes: Seq<Option<Seq<char>>>) -> Option<Seq<u8>> {
    match (groupe(groupes, 1), groupe(groupes, 2)) {
        (Some(a), Some(b)) => {
            let ta = majuscules(a);
            let tb = majuscules(b);
            if est_ascii(ta) && est_ascii(tb) && ta.len() >= 3 && tb.len() >= 3 && code_garde(
                octets_de(ta).take(3) + octets_de(tb).take(3),
            ) {
                Some(octets_de(ta).take(3) + octets_de(tb).take(3))
            } else {
                None
            }
        },
        _ => None,
    }
}

/// A Canadian postal code: letter, digit, letter, digit, letter, digit, with
/// the letters in upper case.
#[derive(Debug, Eq, Clone, Copy, Hash)]
pub struct CodePostal([u8; 6]);

impl PartialEq for CodePostal {
    fn eq(&self, other: &Self) -> (r: bool) {
        let mut i: usize = 0;
        while i < 6
            invariant
                i <= 6,
                forall|j: int| 0 <= j < i ==> self.0[j] == other.0[j],
            decreases 6 - i,
        {
            if self.0[i] != other.0[i] {
                return false;
            }
            i += 1;
        }
        assert(self.0@ =~= other.0@);
        true
    }
}

impl vstd::std_specs::cmp::PartialEqSpecImpl for CodePostal {
    open spec fn obeys_eq_spec() -> bool {
        true
    }

    open spec fn eq_spec(&self, other: &Self) -> bool {
        self.octets() == other.octets()
    }
}

impl CodePostal {
    /// The six characters of the code, as ASCII bytes.
    pub closed spec fn octets(&self) -> Seq<u8> {
        self.0@
    }

    #[verifier::type_invariant]
    spec fn inv(self) -> bool {
        code_garde(self.0@)
    }

    /// The code spelled by `arr`, if it is one as it is kept: letters and digits
    /// in turn, the letters in upper case.
    pub fn create(arr: [u8; 6]) -> (r: Option<Self>)
        ensures
            r is Some <==> code_garde(arr@),
            r matches Some(cp) ==> cp.octets() == arr@,
    {
        let mut i: usize = 0;
        while i < 6
            invariant
                i <= 6,
                forall|j: int|
                    0 <= j < i ==> (if j % 2 == 0 {
                        est_lettre(#[trigger] arr@[j])
                    } else {
                        est_chiffre(arr@[j])
                    }) && majuscule(arr@[j]) == arr@[j],
            decreases 6 - i,
        {
            let c = arr[i];
            if i % 2 == 0 {
                if c < 0x41 || c > 0x5a {
                    assert(!est_lettre(arr@[i as int]) || majuscule(arr@[i as int]) != arr@[i as int]);
                    return None;
                }
            } else if c < 0x30 || c > 0x39 {
                assert(!est_chiffre(arr@[i as int]));
                return None;
            }
            i += 1;
        }
        Some(CodePostal(arr))
    }

    /// The code that the groups found by [`ZIP_RE`] stand for.
    pub fn des_groupes(groupes: &Vec<Option<String>>) -> (r: ParsingResult<Self>)
        ensures
            match r {
                Ok(cp) => code_lu(vue_groupes(groupes@)) == Some(cp.octets()),
                Err(e) => code_lu(vue_groupes(groupes@)) is None && e.msg() == Some(
                    "Format d'email invalide"@,
                ) && e.at() is None && e.src() is None,
            },
    {
        let (a, b) = match (groupe_de(groupes, 1), groupe_de(groupes, 2)) {
            (Some(a), Some(b)) => (a, b),
            _ => return Err(ParsingError::from_msg("Format d'email invalide")),
        };
        let ta = to_uppercase(a);
        let tb = to_uppercase(b);
        let (oa, ob) = match (octets_ascii(ta.as_str()), octets_ascii(tb.as_str())) {
            (Some(x), Some(y)) => (x, y),
            _ => return Err(ParsingError::from_msg("Format d'email invalide")),
        };
        if oa.len() < 3 || ob.len() < 3 {
            return Err(ParsingError::from_msg("Format d'email invalide"));
        }
        let arr: [u8; 6] = [oa[0], oa[1], oa[2], ob[0], ob[1], ob[2]];
        assert(arr@ =~= octets_de(ta@).take(3) + octets_de(tb@).take(3));
        match CodePostal::create(arr) {
            Some(cp) => Ok(cp),
            None => Err(ParsingError::from_msg("Format d'email invalide")),
        }
    }

    /// Reads a postal code.
    pub fn parse(s: &str) -> (r: ParsingResult<Self>)
        ensures
            match r {
                Ok(cp) => captures_de(ZIP_RE@, s@) matches Some(g) && code_lu(g) == Some(
                    cp.octets(),
                ),
                Err(e) => (match captures_de(ZIP_RE@, s@) {
                    Some(g) => code_lu(g) is None,
                    None => true,
                }) && e.msg() == Some("Format d'email invalide"@) && e.at() is None && e.src() is None,
            },
    {
        match captures(ZIP_RE, s) {
            None => Err(ParsingError::from_msg("Format d'email invalide")),
            Some(cap) => CodePostal::des_groupes(&cap),
        }
    }

    /// The code spelled by `arr`, its letters put in upper case, if it has the
    /// form of a code and uses no letter that Canadian codes avoid. Otherwise
    /// the first fault, the letters being looked at before the digits.
    pub fn try_new(arr: [u8; 6]) -> (r: Result<Self, ParsingError>)
        ensures
            r is Ok <==> premier_defaut(arr@, 0) == 6,
            r matches Ok(cp) ==> cp.octets() == Seq::new(6, |i: int| majuscule(arr@[i])),
            r matches Err(e) ==> ({
                let i = ordre_controle()[premier_defaut(arr@, 0)];
                &&& e.at() == Some(i as usize)
                &&& e.msg() == Some(message_defaut(defaut_code(arr@, i), i, arr@[i]))
                &&& e.src() is None
            }),
    {
        let ordre: [usize; 6] = [0, 2, 4, 1, 3, 5];
        let mut code = arr;
        let ghost depart = arr@;
        let mut k: usize = 0;
        while k < 6
            invariant
                k <= 6,
                depart == arr@,
                ordre@ == seq![0usize, 2, 4, 1, 3, 5],
                premier_defaut(depart, k as int) == premier_defaut(depart, 0),
                forall|j: int| 0 <= j < k ==> defaut_code(depart, ordre_controle()[j]) == 0,
                forall|j: int|
                    0 <= j < k ==> code@[ordre_controle()[j]] == majuscule(
                        depart[ordre_controle()[j]],
                    ),
                forall|j: int| k <= j < 6 ==> code@[ordre_controle()[j]] == depart[ordre_controle()[j]],
            decreases 6 - k,
        {
            let i = ordre[k];
            assert(i == ordre_controle()[k as int]);
            let c = code[i];
            let lettre = (0x41 <= c && c <= 0x5a) || (0x61 <= c && c <= 0x7a);
            let chiffre = 0x30 <= c && c <= 0x39;
            let maj: u8 = if 0x61 <= c && c <= 0x7a {
                c - 0x20
            } else {
                c
            };
            if i % 2 == 0 {
                if !lettre {
                    let mut m = String::from_str("Le ");
                    ecrit_decimal(&mut m, (i + 1) as u64);
                    m.append("ième caractère du code doit être une lettre");
                    assert(defaut_code(depart, i as int) == 1);
                    assert(premier_defaut(depart, k as int) == k);
                    return Err(ParsingError::from_msg_at(m.as_str(), i));
                } else if maj == 0x44 || maj == 0x46 || maj == 0x49 || maj == 0x4f || maj == 0x51
                    || maj == 0x55 {
                    let mut m = String::new();
                    pousse_car(&mut m, '\'');
                    pousse_car(&mut m, maj as char);
                    m.append("' n'est jamais utilisée dans un code postal canadien");
                    assert(m@ =~= message_defaut(2, i as int, c));
                    assert(defaut_code(depart, i as int) == 2);
                    assert(premier_defaut(depart, k as int) == k);
                    return Err(ParsingError::from_msg_at(m.as_str(), i));
                } else if i == 0 && (maj == 0x57 || maj == 0x5a) {
                    let mut m = String::new();
                    pousse_car(&mut m, '\'');
                    pousse_car(&mut m, maj as char);
                    m.append(
                        "' n'est jamais utilisée comme premier caractère dans un code postal canadien",
                    );
                    assert(m@ =~= message_defaut(3, i as int, c));
                    assert(defaut_code(depart, i as int) == 3);
                    assert(premier_defaut(depart, k as int) == k);
                    return Err(ParsingError::from_msg_at(m.as_str(), i));
                }
            } else if !chiffre {
                let mut m = String::from_str("Le ");
                ecrit_decimal(&mut m, (i + 1) as u64);
                m.append("ème caractère doit être un chiffre");
                assert(defaut_code(depart, i as int) == 4);
                assert(premier_defaut(depart, k as int) == k);
                return Err(ParsingError::from_msg_at(m.as_str(), i));
            }
            assert(defaut_code(depart, i as int) == 0);
            assert(premier_defaut(depart, k as int) == premier_defaut(depart, k + 1));
            code[i] = maj;
            k += 1;
        }
        assert(code@ =~= Seq::new(6, |i: int| majuscule(depart[i]))) by {
            assert forall|i: int| 0 <= i < 6 implies code@[i] == majuscule(depart[i]) by {
                let j = if i % 2 == 0 { i / 2 } else { 3 + i / 2 };
                assert(ordre_controle()[j] == i);
            }
        }
        assert(forme_code(code@)) by {
            assert forall|i: int| 0 <= i < 6 implies defaut_code(depart, i) == 0 by {
                let j = if i % 2 == 0 { i / 2 } else { 3 + i / 2 };
                assert(ordre_controle()[j] == i);
            }
        }
        Ok(CodePostal(code))
    }

    /// The six characters of the code, as ASCII bytes.
    pub fn octets_exec(&self) -> (o: &[u8])
        ensures
            o@ == self.octets(),
    {
        self.0.as_slice()
    }

    /// The six characters of the code in a row.
    pub fn as_str(&self) -> (s: String)
        ensures
            s@ == texte_ascii(self.octets()),
            forme_code(self.octets()),
            forall|i: int| 0 <= i < 6 ==> majuscule(#[trigger] self.octets()[i]) == self.octets()[i],
    {
        proof {
            use_type_invariant(self);
        }
        let mut s = String::new();
        ecrit_ascii(&mut s, self.0.as_slice());
        s
    }

    /// The code as it is shown, in two groups of three: "G1V 2M2".
    pub fn to_string(&self) -> (s: String)
        ensures
            s@ == texte_ascii(self.octets().subrange(0, 3)) + seq![' '] + texte_ascii(
                self.octets().subrange(3, 6),
            ),
    {
        proof {
            use_type_invariant(self);
        }
        let mut s = String::new();
        let t = self.0.as_slice();
        ecrit_ascii(&mut s, vstd::slice::slice_subrange(t, 0, 3));
        pousse_car(&mut s, ' ');
        ecrit_ascii(&mut s, vstd::slice::slice_subrange(t, 3, 6));
        assert(s@ =~= texte_ascii(self.octets().subrange(0, 3)) + seq![' '] + texte_ascii(
            self.octets().subrange(3, 6),
        ));
        s
    }
}

impl Default for CodePostal {
    /// The code "A0A 0A0".
    fn default() -> (cp: Self)
        ensures
            cp.octets() == seq![0x41u8, 0x30u8, 0x41u8, 0x30u8, 0x41u8, 0x30u8],
    {
        let cp = CodePostal([0x41u8, 0x30u8, 0x41u8, 0x30u8, 0x41u8, 0x30u8]);
        assert(cp.0@ =~= seq![0x41u8, 0x30u8, 0x41u8, 0x30u8, 0x41u8, 0x30u8]);
        cp
    }
}

/// What two addresses must share to be the same address.
pub struct CleAdresse {
    pub numero: Option<i32>,
    pub rue: Option<Seq<char>>,
    pub appartement: Option<i32>,
    pub code_postal: Option<Seq<u8>>,
    pub pays: Option<Seq<char>>,
    pub province: Option<Seq<char>>,
    pub ville: Option<Seq<char>>,
}

/// A postal address; any part of it may be missing.
#[derive(Debug)]
pub struct Adresse {
    pub numero: Option<i32>,
    pub rue: Option<String>,
    pub appartement: Option<i32>,
    pub code_postal: Option<CodePostal>,
    pub pays: Option<Pays>,
    pub province: Option<Province>,
    pub ville: Option<Ville>,
}

impl Default for Adresse {
    /// The address of which nothing is known.
    fn default() -> (a: Self)
        ensures
            a.numero is None,
            a.rue is None,
            a.appartement is None,
            a.code_postal is None,
            a.pays is None,
            a.province is None,
            a.ville is None,
    {
        Adresse {
            numero: None,
            rue: None,
            appartement: None,
            code_postal: None,
            pays: None,
            province: None,
            ville: None,
        }
    }
}

impl Clone for Adresse {
    fn clone(&self) -> (r: Self)
        ensures
            r == *self,
    {
        Adresse {
            numero: self.numero,
            rue: match &self.rue {
                Some(s) => Some(s.clone()),
                None => None,
            },
            appartement: self.appartement,
            code_postal: self.code_postal,
            pays: match &self.pays {
                Some(s) => Some(s.clone()),
                None => None,
            },
            province: match &self.province {
                Some(s) => Some(s.clone()),
                None => None,
            },
            ville: match &self.ville {
                Some(s) => Some(s.clone()),
                None => None,
            },
        }
    }
}

/// The state of an address being written out: the text so far, whether
/// nothing has been written yet, and whether the comma has been placed.
pub struct Ecriture {
    pub texte: Seq<char>,
    pub premier: bool,
    pub virgule: bool,
}

/// The state after `part` has been written behind `e`: a part that follows
/// something is set off by ", " the first time and by a space from then on.
pub open spec fn ecrit_part(e: Ecriture, part: Option<Seq<char>>) -> Ecriture {
    match part {
        None => e,
        Some(p) => if e.premier {
            Ecriture { texte: e.texte + p, premier: false, virgule: e.virgule }
        } else if e.virgule {
            Ecriture { texte: e.texte + seq![' '] + p, premier: false, virgule: true }
        } else {
            Ecriture { texte: e.texte + seq![',', ' '] + p, premier: false, virgule: true }
        },
    }
}

fn ajoute_part(s: &mut String, premier: &mut bool, virgule: &mut bool, part: &str)
    ensures
        (Ecriture { texte: final(s)@, premier: *final(premier), virgule: *final(virgule) })
            == ecrit_part(
            (Ecriture { texte: old(s)@, premier: *old(premier), virgule: *old(virgule) }),
            Some(part@),
        ),
{
    if *premier {
        *premier = false;
    } else if *virgule {
        pousse_car(s, ' ');
    } else {
        pousse_car(s, ',');
        pousse_car(s, ' ');
        *virgule = true;
    }
    s.append(part);
    assert(s@ =~= ecrit_part(
        (Ecriture { texte: old(s)@, premier: *old(premier), virgule: *old(virgule) }),
        Some(part@),
    ).texte);
}

/// A street address as it may be written: the apartment and a dash if need
/// be, the street number, and the street. The apartment is group 1, the
/// number group 2 and the street group 3.
pub const ADRESSE_RUE_REGEX: &'static str =
    r"^\s*(?:(?P<app>\d+)\s*-\s*)?(?P<num>\d+)?(?:\s*,\s*|\s+)(?P<rue>.+?)\s*$";

/// A whole address as it may be written: number, street, apartment behind a
/// "#" if need be, town, province, country and postal code, in groups 1 to 7.
pub const ADRESSE_FULL_REGEX: &'static str =
    r"^\s*(?:\w\s*:\s*)?(?P<num>\d+),?\s*(?P<rue>[a-zA-Z0-9éÉàÀùÙÇçïÏôÔêÊèÈ\- .]+)(?:\s*#(?P<app>\d+))?\s+,?(?P<ville>[a-zA-Z0-9éÉàÀùÙÇçïÏôÔêÊèÈ\- .]+),\s*(?P<province>[a-zA-Z0-9éÉàÀùÙÇçïÏôÔêÊèÈ\- .]+)\s*,\s*(?P<pays>[a-zA-Z0-9éÉàÀùÙÇçïÏôÔêÊèÈ\- .]+)\s*,\s*(?P<codepostal>[a-zA-Z0-9 ]+)$";

/// The number that an optional group writes, if it writes one that fits in 32
/// bits.
pub open spec fn nombre_lu(g: Option<Seq<char>>) -> Option<i32> {
    match g {
        Some(t) => match entier_borne(t, -0x8000_0000, 0x7fff_ffff) {
            Some(v) => Some(v as i32),
            None => None,
        },
        None => None,
    }
}

/// The address of which nothing is known.
pub open spec fn cle_vide() -> CleAdresse {
    CleAdresse {
        numero: None,
        rue: None,
        appartement: None,
        code_postal: None,
        pays: None,
        province: None,
        ville: None,
    }
}

/// What the groups found in a street address give: number, street and
/// apartment, as far as they are there.
pub open spec fn rue_lue(groupes: Seq<Option<Seq<char>>>) -> CleAdresse {
    CleAdresse {
        numero: nombre_lu(groupe(groupes, 2)),
        rue: groupe(groupes, 3),
        appartement: nombre_lu(groupe(groupes, 1)),
        code_postal: None,
        pays: None,
        province: None,
        ville: None,
    }
}

/// Whether `t` reads as a postal code.
pub open spec fn est_code_postal(t: Seq<char>) -> bool {
    match captures_de(ZIP_RE@, t) {
        Some(g) => code_lu(g) is Some,
        None => false,
    }
}

/// What the groups found in a whole address give, if they give an address:
/// number, street, town, province and postal code must be there, the numbers
/// must fit in 32 bits and the postal code must read as one. The country is
/// taken from the street group, "CA" standing for "Canada". The postal code
/// is checked, not kept.
pub open spec fn adresse_lue(groupes: Seq<Option<Seq<char>>>) -> Option<CleAdresse> {
    match (
        groupe(groupes, 1),
        groupe(groupes, 2),
        groupe(groupes, 4),
        groupe(groupes, 5),
        groupe(groupes, 7),
    ) {
        (Some(num), Some(rue), Some(ville), Some(province), Some(cp)) => {
            if nombre_lu(Some(num)) is Some && (groupe(groupes, 3) is Some ==> nombre_lu(
                groupe(groupes, 3),
            ) is Some) && est_code_postal(cp) {
                Some(
                    CleAdresse {
                        numero: nombre_lu(Some(num)),
                        rue: Some(rue),
                        appartement: nombre_lu(groupe(groupes, 3)),
                        code_postal: None,
                        pays: Some(
                            if rue == "CA"@ {
                                "Canada"@
                            } else {
                                rue
                            },
                        ),
                        province: Some(province),
                        ville: Some(ville),
                    },
                )
            } else {
                None
            }
        },
        _ => None,
    }
}

fn lit_nombre(g: Option<&str>) -> (r: Option<i32>)
    ensures
        r == nombre_lu(
            match g {
                Some(s) => Some(s@),
                None => None,
            },
        ),
{
    match g {
        Some(s) => match analyse_entier(s, -0x8000_0000, 0x7fff_ffff) {
            Some(v) => Some(v as i32),
            None => None,
        },
        None => None,
    }
}

impl Adresse {
    /// The street address that the groups found by [`ADRESSE_RUE_REGEX`] stand
    /// for.
    pub fn des_groupes_rue(groupes: &Vec<Option<String>>) -> (adr: Self)
        ensures
            adr.cle() == rue_lue(vue_groupes(groupes@)),
    {
        let mut adr = Adresse::default();
        adr.numero = lit_nombre(groupe_de(groupes, 2));
        if let Some(rue) = groupe_de(groupes, 3) {
            adr.rue = Some(String::from_str(rue));
        }
        adr.appartement = lit_nombre(groupe_de(groupes, 1));
        adr
    }

    /// Reads a street address: number, street and apartment. A text that does
    /// not read as one gives the address of which nothing is known.
    pub fn from_num_rue(src: &str) -> (adr: Self)
        ensures
            adr.cle() == match captures_de(ADRESSE_RUE_REGEX@, src@) {
                Some(g) => rue_lue(g),
                None => cle_vide(),
            },
    {
        match captures(ADRESSE_RUE_REGEX, src) {
            Some(cap) => Adresse::des_groupes_rue(&cap),
            None => Adresse::default(),
        }
    }

    /// The address that the groups found by [`ADRESSE_FULL_REGEX`] stand for.
    pub fn des_groupes(groupes: &Vec<Option<String>>) -> (r: Result<Self, ()>)
        ensures
            match r {
                Ok(adr) => adresse_lue(vue_groupes(groupes@)) == Some(adr.cle()),
                Err(_) => adresse_lue(vue_groupes(groupes@)) is None,
            },
    {
        let (num, rue, ville, province, cp) = match (
            groupe_de(groupes, 1),
            groupe_de(groupes, 2),
            groupe_de(groupes, 4),
            groupe_de(groupes, 5),
            groupe_de(groupes, 7),
        ) {
            (Some(a), Some(b), Some(c), Some(d), Some(e)) => (a, b, c, d, e),
            _ => return Err(()),
        };
        let mut adr = Adresse::default();
        adr.numero = match lit_nombre(Some(num)) {
            Some(n) => Some(n),
            None => return Err(()),
        };
        adr.rue = Some(String::from_str(rue));
        if let Some(app) = groupe_de(groupes, 3) {
            adr.appartement = match lit_nombre(Some(app)) {
                Some(n) => Some(n),
                None => return Err(()),
            };
        }
        adr.ville = Some(Ville::new(ville));
        adr.province = Some(Province::new(province));
        adr.pays = Some(
            if str_egal(rue, "CA") {
                Pays::new("Canada")
            } else {
                Pays::new(rue)
            },
        );
        match CodePostal::parse(cp) {
            Ok(_) => Ok(adr),
            Err(_) => Err(()),
        }
    }

    /// Reads a whole address. A text that does not have the form of one gives
    /// the address of which nothing is known.
    pub fn from_full(full: &str) -> (r: Result<Self, ()>)
        ensures
            match r {
                Ok(adr) => Adresse::lue(full@) == Some(adr.cle()),
                Err(_) => Adresse::lue(full@) is None,
            },
            match captures_de(ADRESSE_FULL_REGEX@, full@) {
                None => r matches Ok(adr) && adr.cle() == cle_vide(),
                Some(g) => match r {
                    Ok(adr) => adresse_lue(g) == Some(adr.cle()),
                    Err(_) => adresse_lue(g) is None,
                },
            },
    {
        match captures(ADRESSE_FULL_REGEX, full) {
            Some(cap) => Adresse::des_groupes(&cap),
            None => Ok(Adresse::default()),
        }
    }

    /// The address that the text `t` reads as, if it reads as one.
    pub open spec fn lue(t: Seq<char>) -> Option<CleAdresse> {
        match captures_de(ADRESSE_FULL_REGEX@, t) {
            None => Some(cle_vide()),
            Some(g) => adresse_lue(g),
        }
    }

    /// What two addresses must share to be the same address: all their parts.
    pub open spec fn cle(&self) -> CleAdresse {
        CleAdresse {
            numero: self.numero,
            rue: vue_opt(self.rue),
            appartement: self.appartement,
            code_postal: match self.code_postal {
                Some(cp) => Some(cp.octets()),
                None => None,
            },
            pays: match self.pays {
                Some(p) => Some(p.nom()),
                None => None,
            },
            province: match self.province {
                Some(p) => Some(p.nom()),
                None => None,
            },
            ville: match self.ville {
                Some(v) => Some(v.nom()),
                None => None,
            },
        }
    }

    /// Whether both addresses have the same parts.
    pub fn equiv(&self, other: &Self) -> (b: bool)
        ensures
            b == (self.cle() == other.cle()),
    {
        let num = match (self.numero, other.numero) {
            (Some(a), Some(b)) => a == b,
            (None, None) => true,
            _ => false,
        };
        let app = match (self.appartement, other.appartement) {
            (Some(a), Some(b)) => a == b,
            (None, None) => true,
            _ => false,
        };
        let cp = match (&self.code_postal, &other.code_postal) {
            (Some(a), Some(b)) => *a == *b,
            (None, None) => true,
            _ => false,
        };
        let pays = match (&self.pays, &other.pays) {
            (Some(a), Some(b)) => *a == *b,
            (None, None) => true,
            _ => false,
        };
        let province = match (&self.province, &other.province) {
            (Some(a), Some(b)) => *a == *b,
            (None, None) => true,
            _ => false,
        };
        let ville = match (&self.ville, &other.ville) {
            (Some(a), Some(b)) => *a == *b,
            (None, None) => true,
            _ => false,
        };
        num && app && cp && pays && province && ville && opt_texte_egal(&self.rue, &other.rue)
    }

    /// The street part of the address: the street name, preceded by the street
    /// number if there is one, itself followed by " app. " and the apartment
    /// if there is one. Nothing if the street is unknown.
    pub open spec fn texte_rue(&self) -> Ecriture {
        match self.rue {
            None => Ecriture { texte: Seq::empty(), premier: true, virgule: false },
            Some(rue) => Ecriture {
                texte: (match self.numero {
                    None => Seq::<char>::empty(),
                    Some(num) => decimal_signe(num as int) + (match self.appartement {
                        None => Seq::<char>::empty(),
                        Some(app) => " app. "@ + decimal_signe(app as int),
                    }) + seq![' '],
                }) + rue@,
                premier: false,
                virgule: false,
            },
        }
    }

    /// The address in one line: the street part, then the town, the province,
    /// the country and the postal code, as far as they are known.
    pub open spec fn texte(&self) -> Seq<char> {
        let c = self.cle();
        ecrit_part(
            ecrit_part(ecrit_part(ecrit_part(self.texte_rue(), c.ville), c.province), c.pays),
            match c.code_postal {
                Some(o) => Some(texte_ascii(o)),
                None => None,
            },
        ).texte
    }

    /// The address in one line.
    pub fn full(&self) -> (s: String)
        ensures
            s@ == self.texte(),
    {
        let mut first = true;
        let mut virgule = false;
        let mut s = String::new();
        if let Some(rue) = &self.rue {
            if let Some(num) = self.numero {
                ecrit_decimal_signe(&mut s, num as i64);
                if let Some(app) = self.appartement {
                    s.append(" app. ");
                    ecrit_decimal_signe(&mut s, app as i64);
                }
                pousse_car(&mut s, ' ');
            }
            first = false;
            s.append(rue.as_str());
        }
        assert(s@ =~= self.texte_rue().texte);
        if let Some(ville) = &self.ville {
            ajoute_part(&mut s, &mut first, &mut virgule, ville.as_str());
        }
        if let Some(province) = &self.province {
            ajoute_part(&mut s, &mut first, &mut virgule, province.as_str());
        }
        if let Some(pays) = &self.pays {
            ajoute_part(&mut s, &mut first, &mut virgule, pays.as_str());
        }
        if let Some(cp) = &self.code_postal {
            let c = cp.as_str();
            ajoute_part(&mut s, &mut first, &mut virgule, c.as_str());
        }
        s
    }
}

} // verus!
