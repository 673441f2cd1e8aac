//! Accounts: who answers for the members.

use crate::data::adresse::{Adresse, CleAdresse};
use crate::data::email::Email;
use crate::data::tel::Tel;
use crate::groupes::ensemble::Ensemble;
use crate::groupes::graine::{
    fnv, fnv_octet, fnv_opt_texte, fnv_opt_u32, fnv_texte, hache_octet, hache_octets,
    hache_opt_texte, hache_opt_u32, hache_texte, FNV_BASE,
};
use crate::groupes::membres::{Membre, MembreID};
use crate::groupes::registre::{
    decale, distance, lemme_premier_rang, lemme_premier_rang_absent, lemme_premier_rang_present,
    premier_libre, premier_rang, rang_resolu, resolution, Etat, Registre,
};
use crate::groupes::{nombre_aleatoire, RegError};
use crate::texte::{ecrit_hex8, hex8, pousse_car, str_egal};
use vstd::prelude::*;

verus! {

/// The identifier of an account: meaningless in itself, it only tells one
/// account from another within a session.
#[derive(Debug, Clone, Copy, PartialEq, Eq, Structural, PartialOrd, Ord, Hash)]
pub struct CompteID(pub u32);

impl Default for CompteID {
    /// The identifier zero, which the unassigned account bears.
    fn default() -> (id: Self)
        ensures
            id == CompteID(0),
    {
        CompteID(0)
    }
}

impl CompteID {
    /// The identifier as it is shown: "C" and the number in eight hexadecimal
    /// digits.
    pub fn to_string(&self) -> (s: String)
        ensures
            s@ == seq!['C'] + hex8(self.0),
    {
        let mut s = String::new();
        pousse_car(&mut s, 'C');
        ecrit_hex8(&mut s, self.0);
        s
    }
}

/// What two accounts must share to be the same account: the name of who
/// answers for it, e-mail address, phone number and postal address.
pub struct CleCompte {
    pub mandataire: Seq<char>,
    pub email: Option<(Seq<char>, int)>,
    pub tel: Option<Seq<u8>>,
    pub adresse: Option<CleAdresse>,
}

/// The account of the person who answers for one or more members.
#[derive(Debug, Clone)]
pub struct Compte {
    pub id: CompteID,
    pub mandataire: String,
    pub email: Option<Email>,
    pub tel: Option<Tel>,
    pub adresse: Option<Adresse>,
    pub membres: Ensemble,
}

/// Why a member could not be tied to an account, or untied from it; each
/// variant names the member.
#[derive(Debug, Clone, Copy)]
pub enum CompteErr {
    /// The account holds the member already.
    MembreDejaExistant(MembreID),
    /// The account does not hold the member.
    MembreInexistant(MembreID),
    /// The member belongs to another account.
    MembreDejaDansUnCompte(MembreID),
    /// The member belongs to no account.
    MembreSansCompte(MembreID),
}

impl Default for Compte {
    /// The unassigned account: identifier zero, no name, no member.
    fn default() -> (c: Self)
        ensures
            c.id == CompteID(0),
            c.mandataire@.len() == 0,
            c.email is None,
            c.tel is None,
            c.adresse is None,
            c.membres.vue().len() == 0,
    {
        Compte {
            id: CompteID(0),
            mandataire: String::new(),
            email: None,
            tel: None,
            adresse: None,
            membres: Ensemble::new(),
        }
    }
}

impl Compte {
    /// What makes the account the account it is.
    pub open spec fn cle(&self) -> CleCompte {
        CleCompte {
            mandataire: self.mandataire@,
            email: match self.email {
                Some(e) => Some(e.cle()),
                None => None,
            },
            tel: match self.tel {
                Some(t) => Some(t.chiffres()),
                None => None,
            },
            adresse: match self.adresse {
                Some(a) => Some(a.cle()),
                None => None,
            },
        }
    }

    /// The same account under the identifier `id`.
    pub open spec fn avec_id(self, id: CompteID) -> Compte {
        Compte { id, ..self }
    }

    /// The hash of the key of an account, from which its identifier is drawn.
    pub open spec fn graine(cle: CleCompte) -> u32 {
        let h = fnv_texte(FNV_BASE, cle.mandataire);
        let h = match cle.email {
            None => fnv_octet(h, 0),
            Some(e) => fnv_texte(fnv_octet(h, 1), e.0),
        };
        let h = match cle.tel {
            None => fnv_octet(h, 0),
            Some(t) => fnv(fnv_octet(h, 1), t),
        };
        match cle.adresse {
            None => fnv_octet(h, 0),
            Some(a) => Compte::graine_adresse(fnv_octet(h, 1), a),
        }
    }

    /// The hash `h` after the parts of an address.
    pub open spec fn graine_adresse(h: u32, a: CleAdresse) -> u32 {
        let h = fnv_opt_u32(h, match a.numero {
            Some(n) => Some(n as u32),
            None => None,
        });
        let h = fnv_opt_texte(h, a.rue);
        let h = fnv_opt_u32(h, match a.appartement {
            Some(n) => Some(n as u32),
            None => None,
        });
        let h = match a.code_postal {
            None => fnv_octet(h, 0),
            Some(o) => fnv(fnv_octet(h, 1), o),
        };
        let h = fnv_opt_texte(h, a.pays);
        let h = fnv_opt_texte(h, a.province);
        fnv_opt_texte(h, a.ville)
    }

    /// An account with the given identifier and name, and nothing else known.
    pub fn new(id: CompteID, mandataire: String) -> (c: Self)
        ensures
            c.id == id,
            c.mandataire == mandataire,
            c.email is None,
            c.tel is None,
            c.adresse is None,
            c.membres.vue().len() == 0,
    {
        Compte { id, mandataire, email: None, tel: None, adresse: None, membres: Ensemble::new() }
    }

    /// Whether the account answers for the member `mid`.
    pub fn contains_membre(&self, mid: MembreID) -> (b: bool)
        ensures
            b == self.membres.vue().contains(mid),
    {
        self.membres.contains(mid)
    }

    /// Ties `membre` to the account. A member of another account is refused,
    /// and so is one that the account holds already; nothing changes then.
    pub fn add_membre(&mut self, membre: &mut Membre) -> (r: Result<(), CompteErr>)
        ensures
            match r {
                Ok(_) => {
                    &&& old(membre).compte is None || old(membre).compte == Some(old(self).id)
                    &&& !old(self).membres.vue().contains(old(membre).id)
                    &&& final(self).membres.vue() == old(self).membres.vue().push(old(membre).id)
                    &&& *final(self) == (Compte { membres: final(self).membres, ..*old(self) })
                    &&& *final(membre) == (Membre { compte: Some(old(self).id), ..*old(membre) })
                },
                Err(e) => {
                    &&& *final(self) == *old(self)
                    &&& *final(membre) == *old(membre)
                    &&& e == if old(membre).compte is Some && old(membre).compte != Some(
                        old(self).id,
                    ) {
                        CompteErr::MembreDejaDansUnCompte(old(membre).id)
                    } else {
                        CompteErr::MembreDejaExistant(old(membre).id)
                    }
                    &&& e is MembreDejaExistant ==> old(self).membres.vue().contains(
                        old(membre).id,
                    )
                },
            },
    {
        if let Some(cid) = membre.compte {
            if cid != self.id {
                return Err(CompteErr::MembreDejaDansUnCompte(membre.id));
            }
        }
        if self.membres.insert(membre.id) {
            membre.compte = Some(self.id);
            Ok(())
        } else {
            Err(CompteErr::MembreDejaExistant(membre.id))
        }
    }

    /// Unties `membre` from the account. A member without account is refused,
    /// and so is one that the account does not hold; nothing changes then.
    pub fn remove_membre(&mut self, membre: &mut Membre) -> (r: Result<(), CompteErr>)
        ensures
            match r {
                Ok(_) => {
                    &&& old(membre).compte is Some
                    &&& old(self).membres.vue().contains(old(membre).id)
                    &&& final(self).membres.vue() == old(self).membres.vue().remove(
                        old(self).membres.vue().index_of(old(membre).id),
                    )
                    &&& *final(self) == (Compte { membres: final(self).membres, ..*old(self) })
                    &&& *final(membre) == (Membre { compte: None, ..*old(membre) })
                },
                Err(e) => {
                    &&& *final(self) == *old(self)
                    &&& *final(membre) == *old(membre)
                    &&& e == if old(membre).compte is None {
                        CompteErr::MembreSansCompte(old(membre).id)
                    } else {
                        CompteErr::MembreInexistant(old(membre).id)
                    }
                    &&& e is MembreInexistant ==> !old(self).membres.vue().contains(
                        old(membre).id,
                    )
                },
            },
    {
        if membre.compte.is_none() {
            Err(CompteErr::MembreSansCompte(membre.id))
        } else if self.membres.remove(membre.id) {
            membre.compte = None;
            Ok(())
        } else {
            Err(CompteErr::MembreInexistant(membre.id))
        }
    }

    /// Whether both are the same account: same name, e-mail address, phone
    /// number and postal address.
    pub fn equiv(&self, other: &Self) -> (b: bool)
        ensures
            b == (self.cle() == other.cle()),
    {
        let email = match (&self.email, &other.email) {
            (Some(a), Some(b)) => *a == *b,
            (None, None) => true,
            _ => false,
        };
        let tel = match (&self.tel, &other.tel) {
            (Some(a), Some(b)) => *a == *b,
            (None, None) => true,
            _ => false,
        };
        let adresse = match (&self.adresse, &other.adresse) {
            (Some(a), Some(b)) => a.equiv(b),
            (None, None) => true,
            _ => false,
        };
        self.mandataire == other.mandataire && email && tel && adresse
    }

    /// The number from which the identifier of the account is drawn; it
    /// depends on the key of the account alone.
    pub fn get_id_seed(&self) -> (g: u32)
        ensures
            g == Compte::graine(self.cle()),
    {
        let h = hache_texte(FNV_BASE, self.mandataire.as_str());
        let h = match &self.email {
            None => hache_octet(h, 0),
            Some(e) => hache_texte(hache_octet(h, 1), e.as_str()),
        };
        let h = match &self.tel {
            None => hache_octet(h, 0),
            Some(t) => hache_octets(hache_octet(h, 1), t.octets()),
        };
        match &self.adresse {
            None => hache_octet(h, 0),
            Some(a) => {
                let h = hache_octet(h, 1);
                let h = hache_opt_u32(h, match a.numero {
                    Some(n) => Some(n as u32),
                    None => None,
                });
                let h = hache_opt_texte(h, &a.rue);
                let h = hache_opt_u32(h, match a.appartement {
                    Some(n) => Some(n as u32),
                    None => None,
                });
                let h = match &a.code_postal {
                    None => hache_octet(h, 0),
                    Some(cp) => hache_octets(hache_octet(h, 1), cp.octets_exec()),
                };
                let h = match &a.pays {
                    None => hache_octet(h, 0),
                    Some(p) => hache_texte(hache_octet(h, 1), p.as_str()),
                };
                let h = match &a.province {
                    None => hache_octet(h, 0),
                    Some(p) => hache_texte(hache_octet(h, 1), p.as_str()),
                };
                match &a.ville {
                    None => hache_octet(h, 0),
                    Some(p) => hache_texte(hache_octet(h, 1), p.as_str()),
                }
            },
        }
    }
}

/// Whether an account is that of the person named `nom`, as a test on
/// accounts.
pub open spec fn nomme(nom: Seq<char>) -> spec_fn(Compte) -> bool {
    |c: Compte| c.mandataire@ == nom
}

/// The registry of accounts: each under its identifier, in the order in
/// which they came in.
pub struct CompteReg {
    reg: Registre<Compte>,
}

impl CompteReg {
    /// The store behind the registry.
    pub closed spec fn registre(&self) -> Registre<Compte> {
        self.reg
    }

    /// The identifiers are all different, and each has its account.
    pub open spec fn wf(&self) -> bool {
        self.registre().wf()
    }

    /// Whether an account stands under `id`.
    pub open spec fn contient(&self, id: CompteID) -> bool {
        self.registre().contient(id.0)
    }

    /// The account under `id`.
    pub open spec fn item(&self, id: CompteID) -> Compte {
        self.registre().item(id.0)
    }

    /// The identifiers and the keys of the accounts, in the order in which they
    /// came in: what the merge of a new record goes by.
    pub open spec fn etat(&self) -> Etat<CleCompte> {
        Etat {
            ids: self.registre().cles(),
            cles: self.registre().items().map_values(|x: Compte| x.cle()),
        }
    }

    /// Whether every record stands under its own identifier.
    pub open spec fn coherent(&self) -> bool {
        forall|i: int|
            0 <= i < self.registre().items().len() ==> (#[trigger] self.registre().items()[i]).id.0
                == self.registre().cles()[i]
    }

    /// The empty registry.
    pub fn new() -> (r: Self)
        ensures
            r.wf(),
            r.registre().cles() == Seq::<u32>::empty(),
            r.registre().items() == Seq::<Compte>::empty(),
    {
        CompteReg { reg: Registre::new() }
    }

    /// A free identifier, found from a random starting point.
    pub fn get_new_id(&self) -> (id: CompteID)
        requires
            self.wf(),
            self.registre().cles().len() < 0x1_0000_0000,
        ensures
            !self.contient(id),
    {
        self.get_new_id_from_seed(nombre_aleatoire())
    }

    /// The first free identifier from `seed` on: `seed` itself if it is free,
    /// else the next free one, wrapping around after the largest.
    pub fn get_new_id_from_seed(&self, seed: u32) -> (id: CompteID)
        requires
            self.wf(),
            self.registre().cles().len() < 0x1_0000_0000,
        ensures
            id.0 == premier_libre(self.registre().cles().to_set(), seed),
            !self.contient(id),
            forall|j: int|
                0 <= j < distance(seed, id.0) ==> self.contient(CompteID(#[trigger] decale(seed, j))),
    {
        CompteID(self.reg.premiere_cle_libre(seed))
    }

    /// Whether an account stands under `cid`.
    pub fn contains(&self, cid: CompteID) -> (b: bool)
        requires
            self.wf(),
        ensures
            b == self.contient(cid),
    {
        self.reg.contains(cid.0)
    }

    /// Enters `compte` under its own identifier, behind all others, unless that
    /// identifier is taken: then nothing changes.
    pub fn add(&mut self, compte: Compte) -> (r: Result<(), RegError<CompteID>>)
        requires
            old(self).wf(),
        ensures
            final(self).wf(),
            r is Err <==> old(self).contient(compte.id),
            match r {
                Ok(_) => final(self).registre().cles() == old(self).registre().cles().push(
                    compte.id.0,
                ) && final(self).registre().items() == old(self).registre().items().push(compte),
                Err(e) => e == RegError::KeyAlreadyInReg(compte.id) && *final(self) == *old(self),
            },
    {
        let id = compte.id;
        match self.reg.add(id.0, compte) {
            Ok(_) => Ok(()),
            Err(_) => Err(RegError::KeyAlreadyInReg(id)),
        }
    }

    /// Takes the account under `cid` out of the registry and returns it.
    pub fn remove(&mut self, cid: CompteID) -> (r: Result<Compte, RegError<CompteID>>)
        requires
            old(self).wf(),
        ensures
            final(self).wf(),
            r is Ok <==> old(self).contient(cid),
            match r {
                Ok(x) => {
                    &&& x == old(self).item(cid)
                    &&& final(self).registre().cles() == old(self).registre().cles().remove(
                        old(self).registre().rang(cid.0),
                    )
                    &&& final(self).registre().items() == old(self).registre().items().remove(
                        old(self).registre().rang(cid.0),
                    )
                    &&& !final(self).contient(cid)
                },
                Err(e) => e == RegError::NoSuchItem(cid) && *final(self) == *old(self),
            },
    {
        match self.reg.remove(cid.0) {
            Option::None => Err(RegError::NoSuchItem(cid)),
            Option::Some(x) => Ok(x),
        }
    }

    /// The account under `cid`.
    pub fn get(&self, cid: CompteID) -> (r: Result<&Compte, RegError<CompteID>>)
        requires
            self.wf(),
        ensures
            r is Ok <==> self.contient(cid),
            match r {
                Ok(x) => *x == self.item(cid),
                Err(e) => e == RegError::NoSuchItem(cid),
            },
    {
        match self.reg.get(cid.0) {
            Option::None => Err(RegError::NoSuchItem(cid)),
            Option::Some(x) => Ok(x),
        }
    }

    /// The account under `cid`, to be changed in place. The identifiers and
    /// all other accounts stay as they are.
    pub fn get_mut(&mut self, cid: CompteID) -> (r: Result<&mut Compte, RegError<CompteID>>)
        requires
            old(self).wf(),
        ensures
            final(self).wf(),
            final(self).registre().cles() == old(self).registre().cles(),
            r is Ok <==> old(self).contient(cid),
            match r {
                Ok(x) => *x == old(self).item(cid) && final(self).registre().items() == old(
                    self,
                ).registre().items().update(old(self).registre().rang(cid.0), *final(x)),
                Err(e) => e == RegError::NoSuchItem(cid) && final(self).registre().items()
                    == old(self).registre().items(),
            },
    {
        match self.reg.get_mut(cid.0) {
            Option::None => Err(RegError::NoSuchItem(cid)),
            Option::Some(x) => Ok(x),
        }
    }

    /// The number of accounts in the registry.
    pub fn len(&self) -> (n: usize)
        requires
            self.wf(),
        ensures
            n == self.registre().cles().len(),
    {
        self.reg.len()
    }

    /// A walk over the accounts, oldest first.
    pub fn comptes(&self) -> (it: CompteIter<'_>)
        requires
            self.wf(),
        ensures
            it.restants() == self.registre().items(),
    {
        CompteIter { reg: &self.reg, pos: 0 }
    }

    /// The accounts of the person named `nom`, oldest first.
    pub fn search_by_name<'a>(&'a self, nom: &str) -> (v: Vec<&'a Compte>)
        requires
            self.wf(),
        ensures
            v@.map_values(|c: &Compte| *c) == self.registre().items().filter(nomme(nom@)),
    {
        let mut v: Vec<&'a Compte> = Vec::new();
        let n = self.reg.len();
        let mut i: usize = 0;
        proof {
            broadcast use vstd::seq_lib::group_filter_ensures;

            assert(self.registre().items().take(0).filter(nomme(nom@)).len() == 0);
            assert(v@.map_values(|c: &Compte| *c) =~= self.registre().items().take(0).filter(
                nomme(nom@),
            ));
        }
        while i < n
            invariant
                self.wf(),
                n == self.registre().items().len(),
                i <= n,
                v@.map_values(|c: &Compte| *c) == self.registre().items().take(i as int).filter(
                    nomme(nom@),
                ),
            decreases n - i,
        {
            let c = self.reg.item_a(i);
            let ghost avant = v@.map_values(|c: &Compte| *c);
            proof {
                let items = self.registre().items();
                assert(items.take(i + 1) =~= items.take(i as int).push(*c));
                items.take(i as int).lemma_filter_push(*c, nomme(nom@));
            }
            if str_egal(c.mandataire.as_str(), nom) {
                v.push(c);
                assert(v@.map_values(|c: &Compte| *c) =~= avant.push(*c));
            }
            i += 1;
        }
        assert(self.registre().items().take(n as int) =~= self.registre().items());
        v
    }

    /// The identifiers of the accounts, oldest first.
    pub fn ids(&self) -> (v: Vec<CompteID>)
        requires
            self.wf(),
        ensures
            v@.len() == self.registre().cles().len(),
            forall|i: int| 0 <= i < v@.len() ==> (#[trigger] v@[i]).0 == self.registre().cles()[i],
    {
        let mut v: Vec<CompteID> = Vec::new();
        let n = self.reg.len();
        let mut i: usize = 0;
        while i < n
            invariant
                self.wf(),
                n == self.registre().cles().len(),
                i <= n,
                v@.len() == i,
                forall|j: int| 0 <= j < i ==> (#[trigger] v@[j]).0 == self.registre().cles()[j],
            decreases n - i,
        {
            v.push(CompteID(self.reg.cle_a(i)));
            i += 1;
        }
        v
    }

    /// The first account of the registry that is the same as `cand` by its key,
    /// if there is one.
    pub fn cherche_equivalent(&self, cand: &Compte) -> (r: Option<CompteID>)
        requires
            self.wf(),
        ensures
            r == match premier_rang(self.etat().cles, cand.cle()) {
                Some(i) => Some(CompteID(self.etat().ids[i])),
                None => None,
            },
    {
        let mut i: usize = 0;
        let n = self.reg.len();
        while i < n
            invariant
                self.wf(),
                n == self.registre().cles().len(),
                i <= n,
                forall|j: int| 0 <= j < i ==> self.etat().cles[j] != cand.cle(),
            decreases n - i,
        {
            if self.reg.item_a(i).equiv(cand) {
                proof {
                    lemme_premier_rang(self.etat().cles, cand.cle(), i as int);
                }
                return Some(CompteID(self.reg.cle_a(i)));
            }
            i += 1;
        }
        proof {
            lemme_premier_rang_absent(self.etat().cles, cand.cle());
        }
        None
    }

    /// Merges the freshly read `cand` into the registry. If an account with the
    /// same key is there, the registry stays as it is and the identifier of the
    /// first such account comes back. Otherwise `cand` enters the registry under
    /// the first free identifier from its own on, which comes back.
    pub fn resoudre(&mut self, cand: Compte) -> (id: CompteID)
        requires
            old(self).wf(),
            old(self).registre().cles().len() < 0x1_0000_0000,
        ensures
            final(self).wf(),
            final(self).etat() == resolution(old(self).etat(), cand.id.0, cand.cle()).0,
            id.0 == resolution(old(self).etat(), cand.id.0, cand.cle()).1,
            final(self).contient(id),
            final(self).item(id).cle() == cand.cle(),
            final(self).registre().rang(id.0) == rang_resolu(old(self).etat(), cand.cle()),
            old(self).coherent() ==> final(self).coherent(),
            old(self).coherent() ==> final(self).item(id).id == id,
            match premier_rang(old(self).etat().cles, cand.cle()) {
                Some(i) => *final(self) == *old(self),
                None => {
                    &&& !old(self).contient(id)
                    &&& final(self).registre().cles() == old(self).registre().cles().push(id.0)
                    &&& final(self).registre().items() == old(self).registre().items().push(
                        cand.avec_id(id),
                    )
                },
            },
    {
        match self.cherche_equivalent(&cand) {
            Some(id) => {
                proof {
                    let i = premier_rang(self.etat().cles, cand.cle())->0;
                    lemme_premier_rang_present(self.etat().cles, cand.cle());
                    assert(self.registre().cles()[i] == id.0);
                    assert(self.registre().rang(id.0) == i);
                }
                id
            },
            None => {
                let id = self.get_new_id_from_seed(cand.id.0);
                let mut cand = cand;
                cand.id = id;
                let ghost avant = self.etat();
                let r = self.reg.add(id.0, cand);
                proof {
                    assert(self.etat().cles =~= avant.cles.push(cand.cle()));
                    let n = old(self).registre().cles().len() as int;
                    assert(self.registre().cles()[n] == id.0);
                    assert(self.registre().rang(id.0) == n);
                }
                id
            },
        }
    }
}

impl Default for CompteReg {
    /// The empty registry.
    fn default() -> (r: Self)
        ensures
            r.wf(),
            r.registre().cles() == Seq::<u32>::empty(),
    {
        CompteReg::new()
    }
}

/// A walk over the accounts of a registry, oldest first.
pub struct CompteIter<'a> {
    reg: &'a Registre<Compte>,
    pos: usize,
}

impl<'a> CompteIter<'a> {
    /// The accounts that the walk has yet to show, next one first.
    pub closed spec fn restants(&self) -> Seq<Compte> {
        self.reg.items().subrange(self.pos as int, self.reg.items().len() as int)
    }

    #[verifier::type_invariant]
    spec fn inv(self) -> bool {
        self.reg.wf() && self.pos <= self.reg.items().len()
    }

    /// The next account, if any is left.
    pub fn next(&mut self) -> (r: Option<&'a Compte>)
        ensures
            match r {
                Some(x) => old(self).restants().len() > 0 && *x == old(self).restants()[0]
                    && final(self).restants() == old(self).restants().drop_first(),
                None => old(self).restants().len() == 0 && final(self).restants() == old(
                    self,
                ).restants(),
            },
    {
        proof {
            use_type_invariant(&*self);
        }
        if self.pos < self.reg.len() {
            let x = self.reg.item_a(self.pos);
            self.pos += 1;
            assert(self.restants() =~= old(self).restants().drop_first());
            Some(x)
        } else {
            None
        }
    }
}

} // verus!
