//! Members: the participants of the camp.

use crate::data::tel::Tel;
use crate::data::{Genre, ParsingError, ParsingResult, Taille};
use crate::date::Date;
use crate::groupes::comptes::CompteID;
use crate::groupes::fiche_sante::FicheSante;
use crate::groupes::graine::{
    fnv_texte, fnv_u32, hache_texte, hache_u32, FNV_BASE,
};
use crate::groupes::registre::{
    decale, distance, lemme_premier_rang, lemme_premier_rang_absent, lemme_premier_rang_present,
    premier_libre, premier_rang, rang_resolu, resolution, Etat, Registre,
};
use crate::groupes::{nombre_aleatoire, RegError};
use crate::texte::{ecrit_hex8, hex8, minuscules, pousse_car, str_egal, to_lowercase};
use vstd::string::StringExecFns;
use vstd::prelude::*;

verus! {

/// The identifier of a member: meaningless in itself, it only tells one
/// member from another within a session.
#[derive(Debug, Clone, Copy, PartialEq, Eq, Structural, PartialOrd, Ord, Hash)]
pub struct MembreID(pub u32);

impl Default for MembreID {
    /// The identifier zero, which the unassigned member bears.
    fn default() -> (id: Self)
        ensures
            id == MembreID(0),
    {
        MembreID(0)
    }
}

impl MembreID {
    /// The identifier as it is shown: "M" and the number in eight hexadecimal
    /// digits.
    pub fn to_string(&self) -> (s: String)
        ensures
            s@ == seq!['M'] + hex8(self.0),
    {
        let mut s = String::new();
        pousse_car(&mut s, 'M');
        ecrit_hex8(&mut s, self.0);
        s
    }
}

/// Something a member may be keen on.
#[derive(Debug, Clone, Copy, PartialEq, Eq, Structural, PartialOrd, Ord, Hash)]
pub enum Interet {
    Science,
    Sport,
    Art,
    Nature,
}

/// The interests of a member, the dearest first; any rank may be empty.
pub type Interets = [Option<Interet>; 4];

impl Interet {
    /// The name of the interest.
    pub open spec fn nom(self) -> Seq<char> {
        match self {
            Interet::Science => "Science"@,
            Interet::Art => "Art"@,
            Interet::Nature => "Nature"@,
            Interet::Sport => "Sport"@,
        }
    }

    /// The name of the interest.
    pub fn as_str(&self) -> (s: &'static str)
        ensures
            s@ == self.nom(),
    {
        match self {
            Self::Science => "Science",
            Self::Art => "Art",
            Self::Nature => "Nature",
            Self::Sport => "Sport",
        }
    }

    /// The name of the interest.
    pub fn to_string(&self) -> (s: String)
        ensures
            s@ == self.nom(),
    {
        String::from_str(self.as_str())
    }

    /// The interest that the lower-case name `m` stands for.
    pub open spec fn du_nom(m: Seq<char>) -> Option<Interet> {
        if m == "science"@ {
            Some(Interet::Science)
        } else if m == "art"@ {
            Some(Interet::Art)
        } else if m == "nature"@ {
            Some(Interet::Nature)
        } else if m == "sport"@ {
            Some(Interet::Sport)
        } else {
            None
        }
    }

    /// The interest that the text `t` names, whatever its case.
    pub open spec fn nomme(t: Seq<char>) -> Option<Interet> {
        Interet::du_nom(minuscules(t))
    }

    /// The interest that the lower-case name `m` stands for, if it is one.
    pub fn from_lower(m: &str) -> (r: Option<Interet>)
        ensures
            r == Interet::du_nom(m@),
    {
        if str_egal(m, "science") {
            Some(Interet::Science)
        } else if str_egal(m, "art") {
            Some(Interet::Art)
        } else if str_egal(m, "nature") {
            Some(Interet::Nature)
        } else if str_egal(m, "sport") {
            Some(Interet::Sport)
        } else {
            None
        }
    }

    /// Reads an interest from its name, whatever its case.
    pub fn from_str(s: &str) -> (r: ParsingResult<Interet>)
        ensures
            match r {
                Ok(i) => Interet::nomme(s@) == Some(i),
                Err(e) => Interet::nomme(s@) is None && e.msg() == Some("N'a pu lire l'intéret"@)
                    && e.at() is None && e.src() is None,
            },
    {
        let m = to_lowercase(s);
        match Interet::from_lower(m.as_str()) {
            Some(i) => Ok(i),
            None => Err(ParsingError::from_msg("N'a pu lire l'intéret")),
        }
    }

    /// The interests in the order in which they are declared: the order in
    /// which they are tried when a profile is looked for.
    pub open spec fn tous() -> Seq<Interet> {
        seq![Interet::Science, Interet::Sport, Interet::Art, Interet::Nature]
    }

    /// The interests in the order in which they are declared.
    pub fn iter() -> (v: [Interet; 4])
        ensures
            v@ == Interet::tous(),
    {
        let v = [Interet::Science, Interet::Sport, Interet::Art, Interet::Nature];
        assert(v@ =~= Interet::tous());
        v
    }
}

/// Someone to call in an emergency.
#[derive(Debug, Clone)]
pub struct Contact {
    pub nom: String,
    pub tel: Option<Tel>,
    pub lien: Option<String>,
}

/// With whom a member may leave the camp, and the password asked of them.
#[derive(Debug, Clone)]
pub struct Quitte {
    pub avec: Vec<String>,
    pub mdp: Option<String>,
}

/// What is known of a member at the pool; each answer may be missing.
#[derive(Debug, Clone, Copy)]
pub struct Piscine {
    pub partage: Option<bool>,
    pub vfi: Option<bool>,
    pub tete_sous_eau: Option<bool>,
}

/// What two members must share to be the same child: name, first name, birth
/// date and account.
pub struct CleMembre {
    pub nom: Seq<char>,
    pub prenom: Seq<char>,
    /// Year, month and day of birth.
    pub naissance: (int, int, int),
    pub compte: Option<CompteID>,
}

/// A participant of the camp.
#[derive(Debug, Clone)]
pub struct Membre {
    pub id: MembreID,
    pub nom: String,
    pub prenom: String,
    pub naissance: Date,
    pub genre: Option<Genre>,
    pub fiche_sante: Box<FicheSante>,
    pub interets: Interets,
    pub contacts: [Option<Contact>; 2],
    pub accompagnement: Option<bool>,
    pub quitte: Quitte,
    pub piscine: Piscine,
    pub auth_photo: Option<bool>,
    pub taille: Option<Taille>,
    pub commentaire: Option<String>,
    pub compte: Option<CompteID>,
}

impl PartialEq for Membre {
    /// Two records are the same record if they bear the same identifier.
    fn eq(&self, other: &Self) -> (r: bool) {
        self.id == other.id
    }
}

impl vstd::std_specs::cmp::PartialEqSpecImpl for Membre {
    open spec fn obeys_eq_spec() -> bool {
        true
    }

    open spec fn eq_spec(&self, other: &Self) -> bool {
        self.id == other.id
    }
}

impl Default for Membre {
    /// The unassigned member: identifier zero, no name, born on the first of
    /// January 1970, and nothing else known.
    fn default() -> (m: Self)
        ensures
            m.id == MembreID(0),
            m.nom@.len() == 0,
            m.prenom@.len() == 0,
            m.naissance.an() == 1970,
            m.naissance.mois() == 1,
            m.naissance.jour() == 1,
            m.interets@ == seq![None::<Interet>, None, None, None],
            m.compte is None,
            m.genre is None,
            m.taille is None,
            m.vierge(),
    {
        proof {
            reveal(Membre::vierge);
        }
        let interets: Interets = [None, None, None, None];
        assert(interets@ =~= seq![None::<Interet>, None, None, None]);
        Membre {
            id: MembreID(0),
            nom: String::new(),
            prenom: String::new(),
            naissance: Date::default(),
            genre: None,
            fiche_sante: Box::new(FicheSante::default()),
            interets,
            contacts: [None, None],
            accompagnement: None,
            quitte: Quitte { avec: Vec::new(), mdp: None },
            piscine: Piscine { partage: None, vfi: None, tete_sous_eau: None },
            auth_photo: None,
            taille: None,
            commentaire: None,
            compte: None,
        }
    }
}

impl Membre {
    /// Whether nothing is known of the member but who it is: no gender, size,
    /// interest, contact or remark, no answer to any question, and an empty
    /// health file.
    #[verifier::opaque]
    pub open spec fn vierge(&self) -> bool {
        &&& self.genre is None
        &&& self.taille is None
        &&& self.interets@ == seq![None::<Interet>, None, None, None]
        &&& self.contacts@[0] is None
        &&& self.contacts@[1] is None
        &&& self.accompagnement is None
        &&& self.auth_photo is None
        &&& self.commentaire is None
        &&& self.quitte.avec@.len() == 0
        &&& self.quitte.mdp is None
        &&& self.piscine.partage is None
        &&& self.piscine.vfi is None
        &&& self.piscine.tete_sous_eau is None
        &&& self.fiche_sante.allergies@.len() == 0
        &&& self.fiche_sante.maladies@.len() == 0
        &&& self.fiche_sante.auth_soins is None
        &&& self.fiche_sante.probleme_comportement is None
        &&& self.fiche_sante.cam is None
        &&& self.fiche_sante.prise_med is None
        &&& self.fiche_sante.auth_medicaments.sirop_toux is None
        &&& self.fiche_sante.auth_medicaments.anti_emetique is None
        &&& self.fiche_sante.auth_medicaments.ibuprofene is None
        &&& self.fiche_sante.auth_medicaments.anti_inflamatoire is None
        &&& self.fiche_sante.auth_medicaments.anti_biotique is None
        &&& self.fiche_sante.auth_medicaments.acetaminophene is None
    }

    /// What makes the member the child it is.
    pub open spec fn cle(&self) -> CleMembre {
        CleMembre {
            nom: self.nom@,
            prenom: self.prenom@,
            naissance: (self.naissance.an(), self.naissance.mois(), self.naissance.jour()),
            compte: self.compte,
        }
    }

    /// The same member under the identifier `id`.
    pub open spec fn avec_id(self, id: MembreID) -> Membre {
        Membre { id, ..self }
    }

    /// The hash of name, first name and birth date, from which the identifier
    /// of the member is drawn.
    pub open spec fn graine(cle: CleMembre) -> u32 {
        fnv_u32(
            fnv_u32(
                fnv_u32(
                    fnv_texte(fnv_texte(FNV_BASE, cle.nom), cle.prenom),
                    cle.naissance.0 as i32 as u32,
                ),
                cle.naissance.1 as u32,
            ),
            cle.naissance.2 as u32,
        )
    }

    /// A member with the given identifier, name, first name and birth date,
    /// and nothing else known.
    pub fn new(mid: MembreID, nom: String, prenom: String, naissance: Date) -> (m: Self)
        ensures
            m.id == mid,
            m.nom == nom,
            m.prenom == prenom,
            m.naissance == naissance,
            m.interets@ == seq![None::<Interet>, None, None, None],
            m.compte is None,
    {
        let mut m = Membre::default();
        m.id = mid;
        m.nom = nom;
        m.prenom = prenom;
        m.naissance = naissance;
        m
    }

    /// Whether both are the same child: same name, first name, birth date and
    /// account.
    pub fn equiv(&self, other: &Self) -> (b: bool)
        ensures
            b == (self.cle() == other.cle()),
    {
        let compte = match (self.compte, other.compte) {
            (Some(a), Some(b)) => a == b,
            (None, None) => true,
            _ => false,
        };
        self.nom == other.nom && self.prenom == other.prenom && self.naissance.year()
            == other.naissance.year() && self.naissance.month() == other.naissance.month()
            && self.naissance.day() == other.naissance.day() && compte
    }

    /// The number from which the identifier of the member is drawn; it depends
    /// on name, first name and birth date alone.
    pub fn get_id_seed(&self) -> (g: u32)
        ensures
            g == Membre::graine(self.cle()),
    {
        let h = hache_texte(FNV_BASE, self.nom.as_str());
        let h = hache_texte(h, self.prenom.as_str());
        let h = hache_u32(h, self.naissance.year() as u32);
        let h = hache_u32(h, self.naissance.month());
        hache_u32(h, self.naissance.day())
    }
}

/// The registry of members: each under its identifier, in the order in
/// which they came in.
pub struct MembreReg {
    reg: Registre<Membre>,
}

impl MembreReg {
    /// The store behind the registry.
    pub closed spec fn registre(&self) -> Registre<Membre> {
        self.reg
    }

    /// The identifiers are all different, and each has its member.
    pub open spec fn wf(&self) -> bool {
        self.registre().wf()
    }

    /// Whether a member stands under `id`.
    pub open spec fn contient(&self, id: MembreID) -> bool {
        self.registre().contient(id.0)
    }

    /// The member under `id`.
    pub open spec fn item(&self, id: MembreID) -> Membre {
        self.registre().item(id.0)
    }

    /// The identifiers and the keys of the members, in the order in which they
    /// came in: what the merge of a new record goes by.
    pub open spec fn etat(&self) -> Etat<CleMembre> {
        Etat {
            ids: self.registre().cles(),
            cles: self.registre().items().map_values(|x: Membre| x.cle()),
        }
    }

    /// Whether every record stands under its own identifier.
    pub open spec fn coherent(&self) -> bool {
        forall|i: int|
            0 <= i < self.registre().items().len() ==> (#[trigger] self.registre().items()[i]).id.0
                == self.registre().cles()[i]
    }

    /// The empty registry.
    pub fn new() -> (r: Self)
        ensures
            r.wf(),
            r.registre().cles() == Seq::<u32>::empty(),
            r.registre().items() == Seq::<Membre>::empty(),
    {
        MembreReg { reg: Registre::new() }
    }

    /// A free identifier, found from a random starting point.
    pub fn get_new_id(&self) -> (id: MembreID)
        requires
            self.wf(),
            self.registre().cles().len() < 0x1_0000_0000,
        ensures
            !self.contient(id),
    {
        self.get_new_id_from_seed(nombre_aleatoire())
    }

    /// The first free identifier from `seed` on: `seed` itself if it is free,
    /// else the next free one, wrapping around after the largest.
    pub fn get_new_id_from_seed(&self, seed: u32) -> (id: MembreID)
        requires
            self.wf(),
            self.registre().cles().len() < 0x1_0000_0000,
        ensures
            id.0 == premier_libre(self.registre().cles().to_set(), seed),
            !self.contient(id),
            forall|j: int|
                0 <= j < distance(seed, id.0) ==> self.contient(MembreID(#[trigger] decale(seed, j))),
    {
        MembreID(self.reg.premiere_cle_libre(seed))
    }

    /// Whether a member stands under `mid`.
    pub fn contains(&self, mid: MembreID) -> (b: bool)
        requires
            self.wf(),
        ensures
            b == self.contient(mid),
    {
        self.reg.contains(mid.0)
    }

    /// Enters `membre` under its own identifier, behind all others, unless that
    /// identifier is taken: then nothing changes.
    pub fn add(&mut self, membre: Membre) -> (r: Result<(), RegError<MembreID>>)
        requires
            old(self).wf(),
        ensures
            final(self).wf(),
            r is Err <==> old(self).contient(membre.id),
            match r {
                Ok(_) => final(self).registre().cles() == old(self).registre().cles().push(
                    membre.id.0,
                ) && final(self).registre().items() == old(self).registre().items().push(membre),
                Err(e) => e == RegError::KeyAlreadyInReg(membre.id) && *final(self) == *old(self),
            },
    {
        let id = membre.id;
        match self.reg.add(id.0, membre) {
            Ok(_) => Ok(()),
            Err(_) => Err(RegError::KeyAlreadyInReg(id)),
        }
    }

    /// Takes the member under `mid` out of the registry and returns it.
    pub fn remove(&mut self, mid: MembreID) -> (r: Result<Membre, RegError<MembreID>>)
        requires
            old(self).wf(),
        ensures
            final(self).wf(),
            r is Ok <==> old(self).contient(mid),
            match r {
                Ok(x) => {
                    &&& x == old(self).item(mid)
                    &&& final(self).registre().cles() == old(self).registre().cles().remove(
                        old(self).registre().rang(mid.0),
                    )
                    &&& final(self).registre().items() == old(self).registre().items().remove(
                        old(self).registre().rang(mid.0),
                    )
                    &&& !final(self).contient(mid)
                },
                Err(e) => e == RegError::NoSuchItem(mid) && *final(self) == *old(self),
            },
    {
        match self.reg.remove(mid.0) {
            Option::None => Err(RegError::NoSuchItem(mid)),
            Option::Some(x) => Ok(x),
        }
    }

    /// The member under `mid`.
    pub fn get(&self, mid: MembreID) -> (r: Result<&Membre, RegError<MembreID>>)
        requires
            self.wf(),
        ensures
            r is Ok <==> self.contient(mid),
            match r {
                Ok(x) => *x == self.item(mid),
                Err(e) => e == RegError::NoSuchItem(mid),
            },
    {
        match self.reg.get(mid.0) {
            Option::None => Err(RegError::NoSuchItem(mid)),
            Option::Some(x) => Ok(x),
        }
    }

    /// The member under `mid`, to be changed in place. The identifiers and
    /// all other members stay as they are.
    pub fn get_mut(&mut self, mid: MembreID) -> (r: Result<&mut Membre, RegError<MembreID>>)
        requires
            old(self).wf(),
        ensures
            final(self).wf(),
            final(self).registre().cles() == old(self).registre().cles(),
            r is Ok <==> old(self).contient(mid),
            match r {
                Ok(x) => *x == old(self).item(mid) && final(self).registre().items() == old(
                    self,
                ).registre().items().update(old(self).registre().rang(mid.0), *final(x)),
                Err(e) => e == RegError::NoSuchItem(mid) && final(self).registre().items()
                    == old(self).registre().items(),
            },
    {
        match self.reg.get_mut(mid.0) {
            Option::None => Err(RegError::NoSuchItem(mid)),
            Option::Some(x) => Ok(x),
        }
    }

    /// The number of members in the registry.
    pub fn len(&self) -> (n: usize)
        requires
            self.wf(),
        ensures
            n == self.registre().cles().len(),
    {
        self.reg.len()
    }

    /// A walk over the members, oldest first.
    pub fn membres(&self) -> (it: MembreIter<'_>)
        requires
            self.wf(),
        ensures
            it.restants() == self.registre().items(),
    {
        MembreIter { reg: &self.reg, pos: 0 }
    }

    /// The identifiers of the members, oldest first.
    pub fn ids(&self) -> (v: Vec<MembreID>)
        requires
            self.wf(),
        ensures
            v@.len() == self.registre().cles().len(),
            forall|i: int| 0 <= i < v@.len() ==> (#[trigger] v@[i]).0 == self.registre().cles()[i],
    {
        let mut v: Vec<MembreID> = Vec::new();
        let n = self.reg.len();
        let mut i: usize = 0;
        while i < n
            invariant
                self.wf(),
                n == self.registre().cles().len(),
                i <= n,
                v@.len() == i,
                forall|j: int| 0 <= j < i ==> (#[trigger] v@[j]).0 == self.registre().cles()[j],
            decreases n - i,
        {
            v.push(MembreID(self.reg.cle_a(i)));
            i += 1;
        }
        v
    }

    /// The first member of the registry that is the same as `cand` by its key,
    /// if there is one.
    pub fn cherche_equivalent(&self, cand: &Membre) -> (r: Option<MembreID>)
        requires
            self.wf(),
        ensures
            r == match premier_rang(self.etat().cles, cand.cle()) {
                Some(i) => Some(MembreID(self.etat().ids[i])),
                None => None,
            },
    {
        let mut i: usize = 0;
        let n = self.reg.len();
        while i < n
            invariant
                self.wf(),
                n == self.registre().cles().len(),
                i <= n,
                forall|j: int| 0 <= j < i ==> self.etat().cles[j] != cand.cle(),
            decreases n - i,
        {
            if self.reg.item_a(i).equiv(cand) {
                proof {
                    lemme_premier_rang(self.etat().cles, cand.cle(), i as int);
                }
                return Some(MembreID(self.reg.cle_a(i)));
            }
            i += 1;
        }
        proof {
            lemme_premier_rang_absent(self.etat().cles, cand.cle());
        }
        None
    }

    /// Merges the freshly read `cand` into the registry. If a member with the
    /// same key is there, the registry stays as it is and the identifier of the
    /// first such member comes back. Otherwise `cand` enters the registry under
    /// the first free identifier from its own on, which comes back.
    pub fn resoudre(&mut self, cand: Membre) -> (id: MembreID)
        requires
            old(self).wf(),
            old(self).registre().cles().len() < 0x1_0000_0000,
        ensures
            final(self).wf(),
            final(self).etat() == resolution(old(self).etat(), cand.id.0, cand.cle()).0,
            id.0 == resolution(old(self).etat(), cand.id.0, cand.cle()).1,
            final(self).contient(id),
            final(self).item(id).cle() == cand.cle(),
            final(self).registre().rang(id.0) == rang_resolu(old(self).etat(), cand.cle()),
            old(self).coherent() ==> final(self).coherent(),
            old(self).coherent() ==> final(self).item(id).id == id,
            match premier_rang(old(self).etat().cles, cand.cle()) {
                Some(i) => *final(self) == *old(self),
                None => {
                    &&& !old(self).contient(id)
                    &&& final(self).registre().cles() == old(self).registre().cles().push(id.0)
                    &&& final(self).registre().items() == old(self).registre().items().push(
                        cand.avec_id(id),
                    )
                },
            },
    {
        match self.cherche_equivalent(&cand) {
            Some(id) => {
                proof {
                    let i = premier_rang(self.etat().cles, cand.cle())->0;
                    lemme_premier_rang_present(self.etat().cles, cand.cle());
                    assert(self.registre().cles()[i] == id.0);
                    assert(self.registre().rang(id.0) == i);
                }
                id
            },
            None => {
                let id = self.get_new_id_from_seed(cand.id.0);
                let mut cand = cand;
                cand.id = id;
                let ghost avant = self.etat();
                let r = self.reg.add(id.0, cand);
                proof {
                    assert(self.etat().cles =~= avant.cles.push(cand.cle()));
                    let n = old(self).registre().cles().len() as int;
                    assert(self.registre().cles()[n] == id.0);
                    assert(self.registre().rang(id.0) == n);
                }
                id
            },
        }
    }
}

impl Default for MembreReg {
    /// The empty registry.
    fn default() -> (r: Self)
        ensures
            r.wf(),
            r.registre().cles() == Seq::<u32>::empty(),
    {
        MembreReg::new()
    }
}

/// A walk over the members of a registry, oldest first.
pub struct MembreIter<'a> {
    reg: &'a Registre<Membre>,
    pos: usize,
}

impl<'a> MembreIter<'a> {
    /// The members that the walk has yet to show, next one first.
    pub closed spec fn restants(&self) -> Seq<Membre> {
        self.reg.items().subrange(self.pos as int, self.reg.items().len() as int)
    }

    #[verifier::type_invariant]
    spec fn inv(self) -> bool {
        self.reg.wf() && self.pos <= self.reg.items().len()
    }

    /// The next member, if any is left.
    pub fn next(&mut self) -> (r: Option<&'a Membre>)
        ensures
            match r {
                Some(x) => old(self).restants().len() > 0 && *x == old(self).restants()[0]
                    && final(self).restants() == old(self).restants().drop_first(),
                None => old(self).restants().len() == 0 && final(self).restants() == old(
                    self,
                ).restants(),
            },
    {
        proof {
            use_type_invariant(&*self);
        }
        if self.pos < self.reg.len() {
            let x = self.reg.item_a(self.pos);
            self.pos += 1;
            assert(self.restants() =~= old(self).restants().drop_first());
            Some(x)
        } else {
            None
        }
    }
}

/// Who a member is, and the account it belongs to, do not count for it to be
/// one of whom nothing else is known.
pub proof fn lemme_vierge(a: Membre, b: Membre)
    requires
        a.vierge(),
        b == (Membre {
            id: b.id,
            nom: b.nom,
            prenom: b.prenom,
            naissance: b.naissance,
            compte: b.compte,
            ..a
        }),
    ensures
        b.vierge(),
{
    reveal(Membre::vierge);
}

} // verus!
