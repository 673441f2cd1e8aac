//! Groups: the cohorts that members sign up for.

use crate::groupes::ensemble::Ensemble;
use crate::groupes::graine::{fnv_opt_texte, hache_opt_texte, FNV_BASE};
use crate::groupes::membres::MembreID;
use crate::groupes::registre::{
    decale, distance, lemme_premier_rang, lemme_premier_rang_absent, lemme_premier_rang_present,
    premier_libre, premier_rang, rang_resolu, resolution, Etat, Registre,
};
use crate::groupes::sous_groupes::SousGroupe;
use crate::groupes::{nombre_aleatoire, RegError};
use crate::print::typst::PresenceSDJInfo;
use crate::texte::{
    decimal, ecrit_decimal, ecrit_hex8, hex8, opt_texte_egal, pousse_car, print_option,
    texte_option, vue_opt,
};
use vstd::prelude::*;
use vstd::string::StringExecFns;

verus! {

/// The identifier of a group: meaningless in itself, it only tells one
/// group from another within a session.
#[derive(Debug, Clone, Copy, PartialEq, Eq, Structural, PartialOrd, Ord, Hash)]
pub struct GroupeID(pub u32);

impl Default for GroupeID {
    /// The identifier zero, which the unassigned group bears.
    fn default() -> (id: Self)
        ensures
            id == GroupeID(0),
    {
        GroupeID(0)
    }
}

impl GroupeID {
    /// The identifier as it is shown: "G" and the number in eight hexadecimal
    /// digits.
    pub fn to_string(&self) -> (s: String)
        ensures
            s@ == seq!['G'] + hex8(self.0),
    {
        let mut s = String::new();
        pousse_car(&mut s, 'G');
        ecrit_hex8(&mut s, self.0);
        s
    }
}

/// What two groups must share to be the same group: season, category, what
/// tells it from its like, week, activity and site.
pub struct CleGroupe {
    pub saison: Option<Seq<char>>,
    pub category: Option<Seq<char>>,
    pub discriminant: Option<Seq<char>>,
    pub semaine: Option<Seq<char>>,
    pub activite: Option<Seq<char>>,
    pub site: Option<Seq<char>>,
}

/// A cohort that members sign up for.
#[derive(Debug, Clone)]
pub struct Groupe {
    pub id: GroupeID,
    pub saison: Option<String>,
    pub site: Option<String>,
    pub category: Option<String>,
    pub discriminant: Option<String>,
    pub semaine: Option<String>,
    pub activite: Option<String>,
    pub participants: Ensemble,
    pub sous_groupe: Vec<SousGroupe>,
    pub capacite: Option<usize>,
    pub age_min: Option<u32>,
    pub age_max: Option<u32>,
}

impl PartialEq for Groupe {
    /// Two records are the same record if they bear the same identifier.
    fn eq(&self, other: &Self) -> (r: bool) {
        self.id == other.id
    }
}

impl vstd::std_specs::cmp::PartialEqSpecImpl for Groupe {
    open spec fn obeys_eq_spec() -> bool {
        true
    }

    open spec fn eq_spec(&self, other: &Self) -> bool {
        self.id == other.id
    }
}

impl Default for Groupe {
    /// The unassigned group: identifier zero, and nothing known.
    fn default() -> (g: Self)
        ensures
            g.id == GroupeID(0),
            g.saison is None,
            g.site is None,
            g.category is None,
            g.discriminant is None,
            g.semaine is None,
            g.activite is None,
            g.participants.vue().len() == 0,
            g.sous_groupe@.len() == 0,
            g.capacite is None,
            g.age_min is None,
            g.age_max is None,
    {
        Groupe {
            id: GroupeID(0),
            saison: None,
            site: None,
            category: None,
            discriminant: None,
            semaine: None,
            activite: None,
            participants: Ensemble::new(),
            sous_groupe: Vec::new(),
            capacite: None,
            age_min: None,
            age_max: None,
        }
    }
}

fn opt_str(o: &Option<String>) -> (r: Option<&str>)
    ensures
        match r {
            Some(s) => vue_opt(*o) == Some(s@),
            None => o is None,
        },
{
    match o {
        Some(s) => Some(s.as_str()),
        None => None,
    }
}

/// The category that goes with an age range: the three age classes of the
/// camp have a name, any other range is written out.
pub open spec fn categorie(min: Option<u32>, max: Option<u32>) -> Seq<char> {
    match (min, max) {
        (Some(mn), Some(mx)) => if mn == 5 && mx == 6 {
            "Crocus"@
        } else if mn == 7 && mx == 8 {
            "Balaous"@
        } else if mn == 9 && mx == 12 {
            "Basaltes"@
        } else {
            decimal(mn as nat) + seq!['-'] + decimal(mx as nat) + " ans"@
        },
        (Some(mn), None) => seq!['>'] + decimal(mn as nat) + " ans"@,
        (None, Some(mx)) => seq!['<'] + decimal(mx as nat) + " ans"@,
        (None, None) => "Tous âge"@,
    }
}

impl Groupe {
    /// What makes the group the group it is.
    pub open spec fn cle(&self) -> CleGroupe {
        CleGroupe {
            saison: vue_opt(self.saison),
            category: vue_opt(self.category),
            discriminant: vue_opt(self.discriminant),
            semaine: vue_opt(self.semaine),
            activite: vue_opt(self.activite),
            site: vue_opt(self.site),
        }
    }

    /// The same group under the identifier `id`.
    pub open spec fn avec_id(self, id: GroupeID) -> Groupe {
        Groupe { id, ..self }
    }

    /// The hash of season, category, discriminant, week and activity, from
    /// which the identifier of the group is drawn.
    pub open spec fn graine(cle: CleGroupe) -> u32 {
        fnv_opt_texte(
            fnv_opt_texte(
                fnv_opt_texte(
                    fnv_opt_texte(fnv_opt_texte(FNV_BASE, cle.saison), cle.category),
                    cle.discriminant,
                ),
                cle.semaine,
            ),
            cle.activite,
        )
    }

    /// A group with the given identifier, and nothing else known.
    pub fn new(gid: GroupeID) -> (g: Self)
        ensures
            g.id == gid,
            g.saison is None,
            g.site is None,
            g.category is None,
            g.discriminant is None,
            g.semaine is None,
            g.activite is None,
            g.participants.vue().len() == 0,
            g.sous_groupe@.len() == 0,
            g.capacite is None,
            g.age_min is None,
            g.age_max is None,
    {
        let mut g = Groupe::default();
        g.id = gid;
        g
    }

    /// The season, if it is known.
    pub fn get_saison(&self) -> (r: Option<&str>)
        ensures
            match r {
                Some(s) => vue_opt(self.saison) == Some(s@),
                None => self.saison is None,
            },
    {
        opt_str(&self.saison)
    }

    /// The site, if it is known.
    pub fn get_site(&self) -> (r: Option<&str>)
        ensures
            match r {
                Some(s) => vue_opt(self.site) == Some(s@),
                None => self.site is None,
            },
    {
        opt_str(&self.site)
    }

    /// The category, if it is known.
    pub fn get_category(&self) -> (r: Option<&str>)
        ensures
            match r {
                Some(s) => vue_opt(self.category) == Some(s@),
                None => self.category is None,
            },
    {
        opt_str(&self.category)
    }

    /// What tells the group from its like, if it is known.
    pub fn get_discriminant(&self) -> (r: Option<&str>)
        ensures
            match r {
                Some(s) => vue_opt(self.discriminant) == Some(s@),
                None => self.discriminant is None,
            },
    {
        opt_str(&self.discriminant)
    }

    /// The week, if it is known.
    pub fn get_semaine(&self) -> (r: Option<&str>)
        ensures
            match r {
                Some(s) => vue_opt(self.semaine) == Some(s@),
                None => self.semaine is None,
            },
    {
        opt_str(&self.semaine)
    }

    /// Whether the member `mid` has signed up for the group.
    pub fn has_participant(&self, mid: MembreID) -> (b: bool)
        ensures
            b == self.participants.vue().contains(mid),
    {
        self.participants.contains(mid)
    }

    /// Signs the member `mid` up, unless it is signed up already; says whether
    /// it was added.
    pub fn add_participant(&mut self, mid: MembreID) -> (b: bool)
        ensures
            b == !old(self).participants.vue().contains(mid),
            final(self).participants.vue() == if b {
                old(self).participants.vue().push(mid)
            } else {
                old(self).participants.vue()
            },
            final(self).participants.vue().contains(mid),
            *final(self) == (Groupe { participants: final(self).participants, ..*old(self) }),
    {
        let b = self.participants.insert(mid);
        proof {
            if b {
                assert(self.participants.vue()[old(self).participants.vue().len() as int] == mid);
            }
        }
        b
    }

    /// Takes the member `mid` off the group, if it is signed up; says whether
    /// it was.
    pub fn remove_participant(&mut self, mid: MembreID) -> (b: bool)
        ensures
            b == old(self).participants.vue().contains(mid),
            final(self).participants.vue() == if b {
                old(self).participants.vue().remove(old(self).participants.vue().index_of(mid))
            } else {
                old(self).participants.vue()
            },
            !final(self).participants.vue().contains(mid),
            *final(self) == (Groupe { participants: final(self).participants, ..*old(self) }),
    {
        self.participants.remove(mid)
    }

    /// Whether both are the same group: same season, category, discriminant,
    /// week, activity and site.
    pub fn equiv(&self, other: &Self) -> (b: bool)
        ensures
            b == (self.cle() == other.cle()),
    {
        opt_texte_egal(&self.saison, &other.saison) && opt_texte_egal(
            &self.category,
            &other.category,
        ) && opt_texte_egal(&self.discriminant, &other.discriminant) && opt_texte_egal(
            &self.semaine,
            &other.semaine,
        ) && opt_texte_egal(&self.activite, &other.activite) && opt_texte_egal(
            &self.site,
            &other.site,
        )
    }

    /// The number from which the identifier of the group is drawn; it depends
    /// on season, category, discriminant, week and activity alone.
    pub fn get_id_seed(&self) -> (g: u32)
        ensures
            g == Groupe::graine(self.cle()),
    {
        let h = hache_opt_texte(FNV_BASE, &self.saison);
        let h = hache_opt_texte(h, &self.category);
        let h = hache_opt_texte(h, &self.discriminant);
        let h = hache_opt_texte(h, &self.semaine);
        hache_opt_texte(h, &self.activite)
    }

    /// The group in one line, every part in its place, "NONE" standing for a
    /// part that is not known.
    pub open spec fn texte(&self) -> Seq<char> {
        texte_option(vue_opt(self.saison)) + ": "@ + texte_option(vue_opt(self.activite)) + " | "@
            + texte_option(vue_opt(self.site)) + " | "@ + texte_option(vue_opt(self.category))
            + " | Sem. "@ + texte_option(vue_opt(self.semaine)) + " - "@ + texte_option(
            vue_opt(self.discriminant),
        )
    }

    /// The group in one line: "season: activity | site | category | Sem. week -
    /// discriminant".
    pub fn desc(&self) -> (s: String)
        ensures
            s@ == self.texte(),
    {
        let mut s = print_option(&self.saison);
        s.append(": ");
        s.append(print_option(&self.activite).as_str());
        s.append(" | ");
        s.append(print_option(&self.site).as_str());
        s.append(" | ");
        s.append(print_option(&self.category).as_str());
        s.append(" | Sem. ");
        s.append(print_option(&self.semaine).as_str());
        s.append(" - ");
        s.append(print_option(&self.discriminant).as_str());
        assert(s@ =~= self.texte());
        s
    }

    /// The parts that the short form of the group is made of, in their order:
    /// season, activity, site, category, and "Sem. " with the discriminant.
    pub open spec fn parts_courtes(&self) -> Seq<Option<Seq<char>>> {
        seq![
            vue_opt(self.saison),
            vue_opt(self.activite),
            vue_opt(self.site),
            vue_opt(self.category),
            match self.discriminant {
                Some(d) => Some("Sem. "@ + d@),
                None => None,
            },
        ]
    }

    /// The short form of the group: the known parts of [`Self::parts_courtes`]
    /// joined by " | ", then " - " and the discriminant if there is one.
    pub open spec fn texte_court(&self) -> Seq<char> {
        joint(self.parts_courtes(), false).0 + (match self.discriminant {
            Some(d) => " - "@ + d@,
            None => Seq::<char>::empty(),
        })
    }

    /// The group in short: only what is known of it.
    pub fn short_desc(&self) -> (s: String)
        ensures
            s@ == self.texte_court(),
    {
        let mut s = String::new();
        let mut suite = false;
        let ghost parts = self.parts_courtes();
        proof {
            reveal_with_fuel(joint, 6);
        }
        assert(parts.take(0) =~= Seq::<Option<Seq<char>>>::empty());
        if let Some(t) = &self.saison {
            ajoute_joint(&mut s, &mut suite, t.as_str());
        }
        assert(parts.take(1).drop_last() =~= parts.take(0));
        assert((s@, suite) == joint(parts.take(1), false));
        if let Some(t) = &self.activite {
            ajoute_joint(&mut s, &mut suite, t.as_str());
        }
        assert(parts.take(2).drop_last() =~= parts.take(1));
        assert((s@, suite) == joint(parts.take(2), false));
        if let Some(t) = &self.site {
            ajoute_joint(&mut s, &mut suite, t.as_str());
        }
        assert(parts.take(3).drop_last() =~= parts.take(2));
        assert((s@, suite) == joint(parts.take(3), false));
        if let Some(t) = &self.category {
            ajoute_joint(&mut s, &mut suite, t.as_str());
        }
        assert(parts.take(4).drop_last() =~= parts.take(3));
        assert((s@, suite) == joint(parts.take(4), false));
        if let Some(t) = &self.discriminant {
            let mut sem = String::from_str("Sem. ");
            sem.append(t.as_str());
            ajoute_joint(&mut s, &mut suite, sem.as_str());
        }
        assert(parts.take(5).drop_last() =~= parts.take(4));
        assert(parts.take(5) =~= parts);
        assert((s@, suite) == joint(parts, false));
        if let Some(disc) = &self.discriminant {
            s.append(" - ");
            s.append(disc.as_str());
        }
        assert(s@ =~= self.texte_court());
        s
    }

    /// The number of places of the group: its capacity if it is known, else
    /// the number of members signed up.
    pub open spec fn places(&self) -> nat {
        match self.capacite {
            None => self.participants.vue().len(),
            Some(c) => c as nat,
        }
    }

    /// The number of places of the group: its capacity if it is known, else
    /// the number of members signed up.
    pub fn estime_cap(&self) -> (n: usize)
        ensures
            n == self.places(),
    {
        match &self.capacite {
            None => self.participants.len(),
            Some(c) => *c,
        }
    }

    /// Season, site and week of the group: what the attendance sheets of the
    /// day care are made by.
    pub fn get_sdj_info<'a>(&'a self) -> (info: PresenceSDJInfo<'a>)
        ensures
            info.cle() == (vue_opt(self.site), vue_opt(self.semaine), vue_opt(self.saison)),
    {
        PresenceSDJInfo {
            saison: opt_str(&self.saison),
            site: opt_str(&self.site),
            semaine: opt_str(&self.semaine),
        }
    }

    /// The category that goes with an age range.
    pub fn guess_category(min: Option<u32>, max: Option<u32>) -> (s: String)
        ensures
            s@ == categorie(min, max),
    {
        match (min, max) {
            (Some(5), Some(6)) => String::from_str("Crocus"),
            (Some(7), Some(8)) => String::from_str("Balaous"),
            (Some(9), Some(12)) => String::from_str("Basaltes"),
            (Some(mn), Some(mx)) => {
                let mut s = String::new();
                ecrit_decimal(&mut s, mn as u64);
                pousse_car(&mut s, '-');
                ecrit_decimal(&mut s, mx as u64);
                s.append(" ans");
                assert(s@ =~= categorie(min, max));
                s
            },
            (Some(mn), None) => {
                let mut s = String::new();
                pousse_car(&mut s, '>');
                ecrit_decimal(&mut s, mn as u64);
                s.append(" ans");
                assert(s@ =~= categorie(min, max));
                s
            },
            (None, Some(mx)) => {
                let mut s = String::new();
                pousse_car(&mut s, '<');
                ecrit_decimal(&mut s, mx as u64);
                s.append(" ans");
                assert(s@ =~= categorie(min, max));
                s
            },
            (None, None) => String::from_str("Tous âge"),
        }
    }

    /// The first sub-group of the group that holds the member `mid`, if any
    /// does.
    pub fn get_sous_groupe_for(&self, mid: MembreID) -> (r: Option<&SousGroupe>)
        ensures
            match r {
                Some(sg) => exists|i: int|
                    0 <= i < self.sous_groupe@.len() && *sg == self.sous_groupe@[i]
                        && sg.participants.vue().contains(mid) && forall|j: int|
                        0 <= j < i ==> !(#[trigger] self.sous_groupe@[j]).participants.vue().contains(
                            mid,
                        ),
                None => forall|j: int|
                    0 <= j < self.sous_groupe@.len() ==> !(#[trigger] self.sous_groupe@[j]).participants.vue().contains(
                        mid,
                    ),
            },
    {
        let mut i: usize = 0;
        while i < self.sous_groupe.len()
            invariant
                i <= self.sous_groupe@.len(),
                forall|j: int|
                    0 <= j < i ==> !(#[trigger] self.sous_groupe@[j]).participants.vue().contains(
                        mid,
                    ),
            decreases self.sous_groupe@.len() - i,
        {
            if self.sous_groupe[i].participants.contains(mid) {
                return Some(&self.sous_groupe[i]);
            }
            i += 1;
        }
        None
    }
}

/// The known parts of `parts` joined by " | ", and whether any was known;
/// `suite` says whether something stands before them already.
pub open spec fn joint(parts: Seq<Option<Seq<char>>>, suite: bool) -> (Seq<char>, bool)
    decreases parts.len(),
{
    if parts.len() == 0 {
        (Seq::<char>::empty(), suite)
    } else {
        let (t, s) = joint(parts.drop_last(), suite);
        match parts.last() {
            None => (t, s),
            Some(p) => if s {
                (t + " | "@ + p, true)
            } else {
                (t + p, true)
            },
        }
    }
}

pub(crate) fn ajoute_joint(s: &mut String, suite: &mut bool, part: &str)
    ensures
        final(s)@ == if *old(suite) {
            old(s)@ + " | "@ + part@
        } else {
            old(s)@ + part@
        },
        *final(suite),
{
    if *suite {
        s.append(" | ");
    }
    s.append(part);
    *suite = true;
}

/// The registry of groups: each under its identifier, in the order in
/// which they came in.
pub struct GroupeReg {
    reg: Registre<Groupe>,
}

impl GroupeReg {
    /// The store behind the registry.
    pub closed spec fn registre(&self) -> Registre<Groupe> {
        self.reg
    }

    /// The identifiers are all different, and each has its group.
    pub open spec fn wf(&self) -> bool {
        self.registre().wf()
    }

    /// Whether a group stands under `id`.
    pub open spec fn contient(&self, id: GroupeID) -> bool {
        self.registre().contient(id.0)
    }

    /// The group under `id`.
    pub open spec fn item(&self, id: GroupeID) -> Groupe {
        self.registre().item(id.0)
    }

    /// The identifiers and the keys of the groups, in the order in which they
    /// came in: what the merge of a new record goes by.
    pub open spec fn etat(&self) -> Etat<CleGroupe> {
        Etat {
            ids: self.registre().cles(),
            cles: self.registre().items().map_values(|x: Groupe| x.cle()),
        }
    }

    /// The empty registry.
    pub fn new() -> (r: Self)
        ensures
            r.wf(),
            r.registre().cles() == Seq::<u32>::empty(),
            r.registre().items() == Seq::<Groupe>::empty(),
    {
        GroupeReg { reg: Registre::new() }
    }

    /// A free identifier, found from a random starting point.
    pub fn get_new_id(&self) -> (id: GroupeID)
        requires
            self.wf(),
            self.registre().cles().len() < 0x1_0000_0000,
        ensures
            !self.contient(id),
    {
        self.get_new_id_from_seed(nombre_aleatoire())
    }

    /// The first free identifier from `seed` on: `seed` itself if it is free,
    /// else the next free one, wrapping around after the largest.
    pub fn get_new_id_from_seed(&self, seed: u32) -> (id: GroupeID)
        requires
            self.wf(),
            self.registre().cles().len() < 0x1_0000_0000,
        ensures
            id.0 == premier_libre(self.registre().cles().to_set(), seed),
            !self.contient(id),
            forall|j: int|
                0 <= j < distance(seed, id.0) ==> self.contient(GroupeID(#[trigger] decale(seed, j))),
    {
        GroupeID(self.reg.premiere_cle_libre(seed))
    }

    /// Whether a group stands under `gid`.
    pub fn contains(&self, gid: GroupeID) -> (b: bool)
        requires
            self.wf(),
        ensures
            b == self.contient(gid),
    {
        self.reg.contains(gid.0)
    }

    /// Enters `groupe` under its own identifier, behind all others, unless that
    /// identifier is taken: then nothing changes.
    pub fn add(&mut self, groupe: Groupe) -> (r: Result<(), RegError<GroupeID>>)
        requires
            old(self).wf(),
        ensures
            final(self).wf(),
            r is Err <==> old(self).contient(groupe.id),
            match r {
                Ok(_) => final(self).registre().cles() == old(self).registre().cles().push(
                    groupe.id.0,
                ) && final(self).registre().items() == old(self).registre().items().push(groupe),
                Err(e) => e == RegError::KeyAlreadyInReg(groupe.id) && *final(self) == *old(self),
            },
    {
        let id = groupe.id;
        match self.reg.add(id.0, groupe) {
            Ok(_) => Ok(()),
            Err(_) => Err(RegError::KeyAlreadyInReg(id)),
        }
    }

    /// Takes the group under `gid` out of the registry and returns it.
    pub fn remove(&mut self, gid: GroupeID) -> (r: Result<Groupe, RegError<GroupeID>>)
        requires
            old(self).wf(),
        ensures
            final(self).wf(),
            r is Ok <==> old(self).contient(gid),
            match r {
                Ok(x) => {
                    &&& x == old(self).item(gid)
                    &&& final(self).registre().cles() == old(self).registre().cles().remove(
                        old(self).registre().rang(gid.0),
                    )
                    &&& final(self).registre().items() == old(self).registre().items().remove(
                        old(self).registre().rang(gid.0),
                    )
                    &&& !final(self).contient(gid)
                },
                Err(e) => e == RegError::NoSuchItem(gid) && *final(self) == *old(self),
            },
    {
        match self.reg.remove(gid.0) {
            Option::None => Err(RegError::NoSuchItem(gid)),
            Option::Some(x) => Ok(x),
        }
    }

    /// The group under `gid`.
    pub fn get(&self, gid: GroupeID) -> (r: Result<&Groupe, RegError<GroupeID>>)
        requires
            self.wf(),
        ensures
            r is Ok <==> self.contient(gid),
            match r {
                Ok(x) => *x == self.item(gid),
                Err(e) => e == RegError::NoSuchItem(gid),
            },
    {
        match self.reg.get(gid.0) {
            Option::None => Err(RegError::NoSuchItem(gid)),
            Option::Some(x) => Ok(x),
        }
    }

    /// The group under `gid`, to be changed in place. The identifiers and
    /// all other groups stay as they are.
    pub fn get_mut(&mut self, gid: GroupeID) -> (r: Result<&mut Groupe, RegError<GroupeID>>)
        requires
            old(self).wf(),
        ensures
            final(self).wf(),
            final(self).registre().cles() == old(self).registre().cles(),
            r is Ok <==> old(self).contient(gid),
            match r {
                Ok(x) => *x == old(self).item(gid) && final(self).registre().items() == old(
                    self,
                ).registre().items().update(old(self).registre().rang(gid.0), *final(x)),
                Err(e) => e == RegError::NoSuchItem(gid) && final(self).registre().items()
                    == old(self).registre().items(),
            },
    {
        match self.reg.get_mut(gid.0) {
            Option::None => Err(RegError::NoSuchItem(gid)),
            Option::Some(x) => Ok(x),
        }
    }

    /// The number of groups in the registry.
    pub fn len(&self) -> (n: usize)
        requires
            self.wf(),
        ensures
            n == self.registre().cles().len(),
    {
        self.reg.len()
    }

    /// A walk over the groups, oldest first.
    pub fn groupes(&self) -> (it: GroupeIter<'_>)
        requires
            self.wf(),
        ensures
            it.restants() == self.registre().items(),
    {
        GroupeIter { reg: &self.reg, pos: 0 }
    }

    /// The identifiers of the groups, oldest first.
    pub fn ids(&self) -> (v: Vec<GroupeID>)
        requires
            self.wf(),
        ensures
            v@.len() == self.registre().cles().len(),
            forall|i: int| 0 <= i < v@.len() ==> (#[trigger] v@[i]).0 == self.registre().cles()[i],
    {
        let mut v: Vec<GroupeID> = Vec::new();
        let n = self.reg.len();
        let mut i: usize = 0;
        while i < n
            invariant
                self.wf(),
                n == self.registre().cles().len(),
                i <= n,
                v@.len() == i,
                forall|j: int| 0 <= j < i ==> (#[trigger] v@[j]).0 == self.registre().cles()[j],
            decreases n - i,
        {
            v.push(GroupeID(self.reg.cle_a(i)));
            i += 1;
        }
        v
    }

    /// The first group of the registry that is the same as `cand` by its key,
    /// if there is one.
    pub fn cherche_equivalent(&self, cand: &Groupe) -> (r: Option<GroupeID>)
        requires
            self.wf(),
        ensures
            r == match premier_rang(self.etat().cles, cand.cle()) {
                Some(i) => Some(GroupeID(self.etat().ids[i])),
                None => None,
            },
    {
        let mut i: usize = 0;
        let n = self.reg.len();
        while i < n
            invariant
                self.wf(),
                n == self.registre().cles().len(),
                i <= n,
                forall|j: int| 0 <= j < i ==> self.etat().cles[j] != cand.cle(),
            decreases n - i,
        {
            if self.reg.item_a(i).equiv(cand) {
                proof {
                    lemme_premier_rang(self.etat().cles, cand.cle(), i as int);
                }
                return Some(GroupeID(self.reg.cle_a(i)));
            }
            i += 1;
        }
        proof {
            lemme_premier_rang_absent(self.etat().cles, cand.cle());
        }
        None
    }

    /// Merges the freshly read `cand` into the registry. If a group with the
    /// same key is there, the registry stays as it is and the identifier of the
    /// first such group comes back. Otherwise `cand` enters the registry under
    /// the first free identifier from its own on, which comes back.
    pub fn resoudre(&mut self, cand: Groupe) -> (id: GroupeID)
        requires
            old(self).wf(),
            old(self).registre().cles().len() < 0x1_0000_0000,
        ensures
            final(self).wf(),
            final(self).etat() == resolution(old(self).etat(), cand.id.0, cand.cle()).0,
            id.0 == resolution(old(self).etat(), cand.id.0, cand.cle()).1,
            final(self).contient(id),
            final(self).item(id).cle() == cand.cle(),
            final(self).registre().rang(id.0) == rang_resolu(old(self).etat(), cand.cle()),
            match premier_rang(old(self).etat().cles, cand.cle()) {
                Some(i) => *final(self) == *old(self),
                None => {
                    &&& !old(self).contient(id)
                    &&& final(self).registre().cles() == old(self).registre().cles().push(id.0)
                    &&& final(self).registre().items() == old(self).registre().items().push(
                        cand.avec_id(id),
                    )
                },
            },
    {
        match self.cherche_equivalent(&cand) {
            Some(id) => {
                proof {
                    let i = premier_rang(self.etat().cles, cand.cle())->0;
                    lemme_premier_rang_present(self.etat().cles, cand.cle());
                    assert(self.registre().cles()[i] == id.0);
                    assert(self.registre().rang(id.0) == i);
                }
                id
            },
            None => {
                let id = self.get_new_id_from_seed(cand.id.0);
                let mut cand = cand;
                cand.id = id;
                let ghost avant = self.etat();
                let r = self.reg.add(id.0, cand);
                proof {
                    assert(self.etat().cles =~= avant.cles.push(cand.cle()));
                    let n = old(self).registre().cles().len() as int;
                    assert(self.registre().cles()[n] == id.0);
                    assert(self.registre().rang(id.0) == n);
                }
                id
            },
        }
    }
}

impl Default for GroupeReg {
    /// The empty registry.
    fn default() -> (r: Self)
        ensures
            r.wf(),
            r.registre().cles() == Seq::<u32>::empty(),
    {
        GroupeReg::new()
    }
}

/// A walk over the groups of a registry, oldest first.
pub struct GroupeIter<'a> {
    reg: &'a Registre<Groupe>,
    pos: usize,
}

impl<'a> GroupeIter<'a> {
    /// The groups that the walk has yet to show, next one first.
    pub closed spec fn restants(&self) -> Seq<Groupe> {
        self.reg.items().subrange(self.pos as int, self.reg.items().len() as int)
    }

    #[verifier::type_invariant]
    spec fn inv(self) -> bool {
        self.reg.wf() && self.pos <= self.reg.items().len()
    }

    /// The next group, if any is left.
    pub fn next(&mut self) -> (r: Option<&'a Groupe>)
        ensures
            match r {
                Some(x) => old(self).restants().len() > 0 && *x == old(self).restants()[0]
                    && final(self).restants() == old(self).restants().drop_first(),
                None => old(self).restants().len() == 0 && final(self).restants() == old(
                    self,
                ).restants(),
            },
    {
        proof {
            use_type_invariant(&*self);
        }
        if self.pos < self.reg.len() {
            let x = self.reg.item_a(self.pos);
            self.pos += 1;
            assert(self.restants() =~= old(self).restants().drop_first());
            Some(x)
        } else {
            None
        }
    }
}

} // verus!
