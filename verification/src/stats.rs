//! Counting the clothing sizes of the members.

use crate::data::Taille;
use crate::groupes::ensemble::Ensemble;
use crate::groupes::groupes::{Groupe, GroupeReg};
use crate::groupes::membres::{MembreID, MembreReg};
use crate::groupes::registre::{lemme_premier_rang, lemme_premier_rang_absent, premier_rang};
use crate::groupes::sous_groupes::inscrits;
use crate::texte::str_egal;
use vstd::prelude::*;
use vstd::string::StringExecFns;

verus! {

/// The sum of the numbers of `comptes`.
pub open spec fn somme(comptes: Seq<usize>) -> nat
    decreases comptes.len(),
{
    if comptes.len() == 0 {
        0
    } else {
        somme(comptes.drop_last()) + comptes.last() as nat
    }
}

/// How many members were counted, and how many of them wear each size.
#[derive(Debug, Clone, Copy)]
pub struct ChandailCalcul {
    capacite: usize,
    comptes: [usize; 6],
}

impl ChandailCalcul {
    /// The number of members counted.
    pub closed spec fn capacite(&self) -> nat {
        self.capacite as nat
    }

    /// The number of members counted for each size, in the order of
    /// [`Taille::toutes`].
    pub closed spec fn comptes(&self) -> Seq<usize> {
        self.comptes@
    }

    #[verifier::type_invariant]
    spec fn inv(self) -> bool {
        somme(self.comptes@) <= self.capacite
    }

    /// Nobody counted yet.
    pub fn new() -> (c: Self)
        ensures
            c.capacite() == 0,
            c.comptes() == seq![0usize, 0, 0, 0, 0, 0],
    {
        let comptes = [0usize; 6];
        assert(comptes@ =~= seq![0usize, 0, 0, 0, 0, 0]);
        proof {
            reveal_with_fuel(somme, 7);
        }
        Self { capacite: 0, comptes }
    }

    /// The number of members whose size is known.
    pub fn total(&self) -> (tot: usize)
        ensures
            tot == somme(self.comptes()),
            tot <= self.capacite(),
    {
        proof {
            use_type_invariant(self);
        }
        let mut tot: usize = 0;
        let mut i: usize = 0;
        while i < 6
            invariant
                i <= 6,
                tot == somme(self.comptes@.take(i as int)),
                somme(self.comptes@) <= self.capacite,
            decreases 6 - i,
        {
            proof {
                assert(self.comptes@.take(i + 1).drop_last() =~= self.comptes@.take(i as int));
                lemme_somme_croit(self.comptes@, i + 1);
            }
            tot += self.comptes[i];
            i += 1;
        }
        assert(self.comptes@.take(6) =~= self.comptes@);
        tot
    }

    /// The number of members counted.
    pub fn nombre(&self) -> (n: usize)
        ensures
            n == self.capacite(),
    {
        self.capacite
    }

    /// The number of members counted who wear the size `t`.
    pub fn compte(&self, t: Taille) -> (n: usize)
        ensures
            n == self.comptes()[Taille::toutes().index_of(t)],
            self.comptes().len() == 6,
    {
        let i = t.rang();
        proof {
            let s = Taille::toutes();
            let j = s.index_of(t);
            assert(s[i as int] == t);
            assert(0 <= j < 6 && s[j] == t);
            assert(j == i);
        }
        self.comptes[i]
    }

    /// Counts one more member, of size `taille` if it is known.
    pub fn ajoute(&mut self, taille: Option<Taille>)
        requires
            old(self).capacite() < usize::MAX,
        ensures
            final(self).capacite() == old(self).capacite() + 1,
            final(self).comptes() == match taille {
                Some(t) => old(self).comptes().update(
                    Taille::toutes().index_of(t),
                    (old(self).comptes()[Taille::toutes().index_of(t)] + 1) as usize,
                ),
                None => old(self).comptes(),
            },
    {
        proof {
            use_type_invariant(&*self);
        }
        let mut comptes = self.comptes;
        if let Some(t) = taille {
            let i = t.rang();
            proof {
                let s = Taille::toutes();
                let j = s.index_of(t);
                assert(s[i as int] == t);
                assert(0 <= j < 6 && s[j] == t);
                assert(j == i);
                lemme_somme_majore(comptes@, i as int);
                lemme_somme_update(comptes@, i as int, (comptes@[i as int] + 1) as usize);
            }
            comptes[i] = comptes[i] + 1;
        }
        *self = ChandailCalcul { capacite: self.capacite + 1, comptes };
    }
}

/// A part of the numbers never sums to more than all of them.
pub proof fn lemme_somme_croit(comptes: Seq<usize>, k: int)
    requires
        0 <= k <= comptes.len(),
    ensures
        somme(comptes.take(k)) <= somme(comptes),
    decreases comptes.len() - k,
{
    if k < comptes.len() {
        lemme_somme_croit(comptes, k + 1);
        assert(comptes.take(k + 1).drop_last() =~= comptes.take(k));
    } else {
        assert(comptes.take(k) =~= comptes);
    }
}

/// No number is larger than the sum.
pub proof fn lemme_somme_majore(comptes: Seq<usize>, i: int)
    requires
        0 <= i < comptes.len(),
    ensures
        comptes[i] <= somme(comptes),
    decreases comptes.len(),
{
    if i < comptes.len() - 1 {
        lemme_somme_majore(comptes.drop_last(), i);
    }
}

/// Changing one number changes the sum by as much.
pub proof fn lemme_somme_update(comptes: Seq<usize>, i: int, v: usize)
    requires
        0 <= i < comptes.len(),
    ensures
        somme(comptes.update(i, v)) == somme(comptes) - comptes[i] + v,
    decreases comptes.len(),
{
    if i < comptes.len() - 1 {
        lemme_somme_update(comptes.drop_last(), i, v);
        assert(comptes.update(i, v).drop_last() =~= comptes.drop_last().update(i, v));
    } else {
        assert(comptes.update(i, v).drop_last() =~= comptes.drop_last());
    }
}

/// The numbers by size `comptes` with one more member of size `taille`
/// counted: one more of that size, if it is known.
pub open spec fn compte_plus(comptes: Seq<usize>, taille: Option<Taille>) -> Seq<usize> {
    match taille {
        Some(t) => comptes.update(
            Taille::toutes().index_of(t),
            (comptes[Taille::toutes().index_of(t)] + 1) as usize,
        ),
        None => comptes,
    }
}

/// The numbers by size and the members seen once the members `participants`
/// are gone through, starting from `depart`: whoever was not seen yet is
/// counted with the size that the registry has for it, and is seen from then
/// on.
pub open spec fn decompte(
    depart: (Seq<usize>, Seq<MembreID>),
    participants: Seq<MembreID>,
    membres: MembreReg,
) -> (Seq<usize>, Seq<MembreID>)
    decreases participants.len(),
{
    if participants.len() == 0 {
        depart
    } else {
        let (comptes, vus) = decompte(depart, participants.drop_last(), membres);
        let p = participants.last();
        if vus.contains(p) {
            (comptes, vus)
        } else {
            (compte_plus(comptes, membres.item(p).taille), vus.push(p))
        }
    }
}

/// Counts the participants of `grp` that `tried` does not hold yet, and adds
/// them to `tried`, behind those it holds. If the registry lacks a
/// participant, nothing is counted and the first one that is missing comes
/// back.
pub fn update_calcul_chandail(
    cc: &mut ChandailCalcul,
    grp: &Groupe,
    membres: &MembreReg,
    tried: &mut Ensemble,
) -> (r: Result<(), MembreID>)
    requires
        membres.wf(),
        old(cc).capacite() + grp.participants.vue().len() <= usize::MAX,
    ensures
        match r {
            Err(id) => {
                &&& *final(cc) == *old(cc)
                &&& *final(tried) == *old(tried)
                &&& premier_rang(inscrits(grp.participants.vue(), *membres), false) matches Some(i)
                &&& id == grp.participants.vue()[i]
            },
            Ok(_) => {
                &&& premier_rang(inscrits(grp.participants.vue(), *membres), false) is None
                &&& final(cc).capacite() - old(cc).capacite() == final(tried).vue().len() - old(
                    tried,
                ).vue().len()
                &&& old(tried).vue().len() <= final(tried).vue().len()
                &&& final(tried).vue().take(old(tried).vue().len() as int) == old(tried).vue()
                &&& forall|j: int|
                    0 <= j < grp.participants.vue().len() ==> final(tried).vue().contains(
                        #[trigger] grp.participants.vue()[j],
                    )
                &&& (final(cc).comptes(), final(tried).vue()) == decompte(
                    (old(cc).comptes(), old(tried).vue()),
                    grp.participants.vue(),
                    *membres,
                )
                &&& final(cc).capacite() <= old(cc).capacite() + grp.participants.vue().len()
            },
        },
{
    let n = grp.participants.len();
    let mut i: usize = 0;
    while i < n
        invariant
            i <= n,
            n == grp.participants.vue().len(),
            membres.wf(),
            forall|j: int| 0 <= j < i ==> membres.contient(grp.participants.vue()[j]),
        decreases n - i,
    {
        let id = grp.participants.get(i);
        if !membres.contains(id) {
            proof {
                lemme_premier_rang(inscrits(grp.participants.vue(), *membres), false, i as int);
            }
            return Err(id);
        }
        i += 1;
    }
    proof {
        lemme_premier_rang_absent(inscrits(grp.participants.vue(), *membres), false);
    }
    let mut k: usize = 0;
    assert(tried.vue().take(old(tried).vue().len() as int) =~= old(tried).vue());
    assert(grp.participants.vue().take(0) =~= Seq::<MembreID>::empty());
    while k < n
        invariant
            k <= n,
            n == grp.participants.vue().len(),
            membres.wf(),
            forall|j: int| 0 <= j < n ==> membres.contient(grp.participants.vue()[j]),
            old(cc).capacite() + n <= usize::MAX,
            cc.capacite() <= old(cc).capacite() + k,
            old(tried).vue().len() <= tried.vue().len(),
            cc.capacite() - old(cc).capacite() == tried.vue().len() - old(tried).vue().len(),
            tried.vue().take(old(tried).vue().len() as int) == old(tried).vue(),
            forall|j: int| 0 <= j < k ==> tried.vue().contains(#[trigger] grp.participants.vue()[j]),
            (cc.comptes(), tried.vue()) == decompte(
                (old(cc).comptes(), old(tried).vue()),
                grp.participants.vue().take(k as int),
                *membres,
            ),
        decreases n - k,
    {
        let p = grp.participants.get(k);
        let ghost avant = tried.vue();
        proof {
            let ps = grp.participants.vue();
            assert(ps.take(k + 1).drop_last() =~= ps.take(k as int));
            assert(ps.take(k + 1).last() == p);
        }
        if !tried.contains(p) {
            let participant = membres.get(p).unwrap();
            cc.ajoute(participant.taille);
            tried.insert(p);
            proof {
                assert(tried.vue()[avant.len() as int] == p);
                assert(tried.vue().take(old(tried).vue().len() as int) =~= avant.take(
                    old(tried).vue().len() as int,
                ));
                assert forall|j: int| 0 <= j < k implies tried.vue().contains(
                    #[trigger] grp.participants.vue()[j],
                ) by {
                    let x = grp.participants.vue()[j];
                    let a = choose|a: int| 0 <= a < avant.len() && avant[a] == x;
                    assert(tried.vue()[a] == x);
                }
            }
        }
        k += 1;
    }
    assert(grp.participants.vue().take(n as int) =~= grp.participants.vue());
    Ok(())
}

/// The name of the category of a group, "None" standing for a category that
/// is not known.
pub open spec fn nom_categorie(g: Groupe) -> Seq<char> {
    match g.category {
        Some(c) => c@,
        None => "None"@,
    }
}

/// A count of members by category: the names of the categories, and for each
/// the number of members counted and the numbers by size; beside them the
/// members seen, each of which is counted once, with the first category that
/// it was met in.
pub struct Decompte {
    pub categories: Seq<Seq<char>>,
    pub nombres: Seq<nat>,
    pub comptes: Seq<Seq<usize>>,
    pub vus: Seq<MembreID>,
}

/// The count `d` with the participants of the group `g` gone through. The
/// category of the group comes behind the others if it is new; the
/// participants that were not seen yet are counted with it.
pub open spec fn groupe_compte(d: Decompte, g: Groupe, membres: MembreReg) -> Decompte {
    let cat = nom_categorie(g);
    let d1 = if d.categories.contains(cat) {
        d
    } else {
        Decompte {
            categories: d.categories.push(cat),
            nombres: d.nombres.push(0),
            comptes: d.comptes.push(seq![0usize, 0, 0, 0, 0, 0]),
            vus: d.vus,
        }
    };
    let i = d1.categories.index_of(cat);
    let (c, vus) = decompte((d1.comptes[i], d1.vus), g.participants.vue(), membres);
    Decompte {
        categories: d1.categories,
        nombres: d1.nombres.update(i, (d1.nombres[i] + vus.len() - d1.vus.len()) as nat),
        comptes: d1.comptes.update(i, c),
        vus,
    }
}

/// The count of the members of the groups `gs`, gone through in their order.
pub open spec fn decompte_groupes(gs: Seq<Groupe>, membres: MembreReg) -> Decompte
    decreases gs.len(),
{
    if gs.len() == 0 {
        Decompte {
            categories: Seq::empty(),
            nombres: Seq::empty(),
            comptes: Seq::empty(),
            vus: Seq::empty(),
        }
    } else {
        groupe_compte(decompte_groupes(gs.drop_last(), membres), gs.last(), membres)
    }
}

/// The first participant of the groups `gs`, gone through in their order, that
/// the registry lacks.
pub open spec fn premier_absent(gs: Seq<Groupe>, membres: MembreReg) -> Option<MembreID>
    decreases gs.len(),
{
    if gs.len() == 0 {
        None
    } else {
        match premier_absent(gs.drop_last(), membres) {
            Some(id) => Some(id),
            None => match premier_rang(inscrits(gs.last().participants.vue(), membres), false) {
                Some(i) => Some(gs.last().participants.vue()[i]),
                None => None,
            },
        }
    }
}

/// The first participant that is missing among the first groups is the first
/// that is missing among all of them.
pub proof fn lemme_absent_reste(gs: Seq<Groupe>, membres: MembreReg, k: int)
    requires
        0 <= k <= gs.len(),
        premier_absent(gs.take(k), membres) is Some,
    ensures
        premier_absent(gs, membres) == premier_absent(gs.take(k), membres),
    decreases gs.len() - k,
{
    if k < gs.len() {
        assert(gs.take(k + 1).drop_last() =~= gs.take(k));
        lemme_absent_reste(gs, membres, k + 1);
    } else {
        assert(gs.take(k) =~= gs);
    }
}

/// The number of sign-ups in the groups `gs`: their participants, each
/// counted for every group it is in.
pub open spec fn nb_inscriptions(gs: Seq<Groupe>) -> nat
    decreases gs.len(),
{
    if gs.len() == 0 {
        0
    } else {
        nb_inscriptions(gs.drop_last()) + gs.last().participants.vue().len()
    }
}

/// The first groups have no more sign-ups than all of them.
pub proof fn lemme_inscriptions_croit(gs: Seq<Groupe>, k: int)
    requires
        0 <= k <= gs.len(),
    ensures
        nb_inscriptions(gs.take(k)) <= nb_inscriptions(gs),
    decreases gs.len() - k,
{
    if k < gs.len() {
        lemme_inscriptions_croit(gs, k + 1);
        assert(gs.take(k + 1).drop_last() =~= gs.take(k));
    } else {
        assert(gs.take(k) =~= gs);
    }
}

/// The names of the categories of a count.
pub open spec fn noms_comptes(v: Seq<(String, ChandailCalcul)>) -> Seq<Seq<char>> {
    v.map_values(|x: (String, ChandailCalcul)| x.0@)
}

/// The numbers of members counted in each category of a count.
pub open spec fn nombres_comptes(v: Seq<(String, ChandailCalcul)>) -> Seq<nat> {
    v.map_values(|x: (String, ChandailCalcul)| x.1.capacite())
}

/// The numbers by size in each category of a count.
pub open spec fn tailles_comptes(v: Seq<(String, ChandailCalcul)>) -> Seq<Seq<usize>> {
    v.map_values(|x: (String, ChandailCalcul)| x.1.comptes())
}

fn rang_categorie(v: &Vec<(String, ChandailCalcul)>, cat: &str) -> (r: Option<usize>)
    requires
        noms_comptes(v@).no_duplicates(),
    ensures
        match r {
            Some(i) => noms_comptes(v@).contains(cat@) && i == noms_comptes(v@).index_of(cat@),
            None => !noms_comptes(v@).contains(cat@),
        },
{
    let mut i: usize = 0;
    while i < v.len()
        invariant
            i <= v@.len(),
            noms_comptes(v@).no_duplicates(),
            forall|j: int| 0 <= j < i ==> noms_comptes(v@)[j] != cat@,
        decreases v@.len() - i,
    {
        if str_egal(v[i].0.as_str(), cat) {
            proof {
                let noms = noms_comptes(v@);
                assert(noms[i as int] == cat@);
                let j = noms.index_of(cat@);
                assert(0 <= j < noms.len() && noms[j] == cat@);
                assert(j == i);
            }
            return Some(i);
        }
        i += 1;
    }
    None
}

/// Counts the members of the groups of the registry by category: the
/// categories in the order in which they are first met, none twice, and for
/// each the members of its groups, every member counted once, with the first
/// category that it is met in. Fails on the first participant that the
/// registry of members lacks.
pub fn compte_par_categorie(groupes: &GroupeReg, membres: &MembreReg) -> (r: Result<
    Vec<(String, ChandailCalcul)>,
    MembreID,
>)
    requires
        groupes.wf(),
        membres.wf(),
        nb_inscriptions(groupes.registre().items()) <= usize::MAX,
    ensures
        match r {
            Ok(v) => {
                let d = decompte_groupes(groupes.registre().items(), *membres);
                &&& premier_absent(groupes.registre().items(), *membres) is None
                &&& noms_comptes(v@) == d.categories
                &&& nombres_comptes(v@) == d.nombres
                &&& tailles_comptes(v@) == d.comptes
                &&& noms_comptes(v@).no_duplicates()
            },
            Err(id) => premier_absent(groupes.registre().items(), *membres) == Some(id),
        },
{
    let ghost gs = groupes.registre().items();
    let mut v: Vec<(String, ChandailCalcul)> = Vec::new();
    let mut tried = Ensemble::new();
    let mut it = groupes.groupes();
    let n = groupes.len();
    let mut k: usize = 0;
    proof {
        assert(gs.take(0) =~= Seq::<Groupe>::empty());
        assert(gs.skip(0) =~= gs);
        assert(noms_comptes(v@) =~= Seq::<Seq<char>>::empty());
        assert(nombres_comptes(v@) =~= Seq::<nat>::empty());
        assert(tailles_comptes(v@) =~= Seq::<Seq<usize>>::empty());
    }
    while k < n
        invariant
            k <= n,
            n == gs.len(),
            gs == groupes.registre().items(),
            membres.wf(),
            nb_inscriptions(gs) <= usize::MAX,
            it.restants() == gs.skip(k as int),
            premier_absent(gs.take(k as int), *membres) is None,
            noms_comptes(v@) == decompte_groupes(gs.take(k as int), *membres).categories,
            nombres_comptes(v@) == decompte_groupes(gs.take(k as int), *membres).nombres,
            tailles_comptes(v@) == decompte_groupes(gs.take(k as int), *membres).comptes,
            tried.vue() == decompte_groupes(gs.take(k as int), *membres).vus,
            noms_comptes(v@).no_duplicates(),
            forall|i: int|
                0 <= i < v@.len() ==> (#[trigger] v@[i]).1.capacite() <= nb_inscriptions(
                    gs.take(k as int),
                ),
        decreases n - k,
    {
        proof {
            assert(gs.skip(k as int).len() > 0);
            assert(gs.skip(k as int)[0] == gs[k as int]);
            assert(gs.skip(k as int).drop_first() =~= gs.skip(k + 1));
            assert(gs.take(k + 1).drop_last() =~= gs.take(k as int));
            assert(gs.take(k + 1).last() == gs[k as int]);
            lemme_inscriptions_croit(gs, k + 1);
        }
        if let Some(g) = it.next() {
            let cat: String = match &g.category {
                Some(c) => c.clone(),
                None => String::from_str("None"),
            };
            assert(cat@ == nom_categorie(*g));
            let ghost d = decompte_groupes(gs.take(k as int), *membres);
            let i = match rang_categorie(&v, cat.as_str()) {
                Some(i) => i,
                None => {
                    let ghost avant = v@;
                    let nouveau = ChandailCalcul::new();
                    v.push((cat.clone(), nouveau));
                    proof {
                        assert(noms_comptes(v@) =~= noms_comptes(avant).push(cat@));
                        assert(nombres_comptes(v@) =~= nombres_comptes(avant).push(0));
                        assert(tailles_comptes(v@) =~= tailles_comptes(avant).push(
                            seq![0usize, 0, 0, 0, 0, 0],
                        ));
                        assert(noms_comptes(v@)[avant.len() as int] == cat@);
                        let j = noms_comptes(v@).index_of(cat@);
                        assert(0 <= j < noms_comptes(v@).len() && noms_comptes(v@)[j] == cat@);
                    }
                    v.len() - 1
                },
            };
            let ghost v1 = v@;
            let ghost vus1 = tried.vue();
            let mut cc = v[i].1;
            assert(cc == v1[i as int].1);
            match update_calcul_chandail(&mut cc, g, membres, &mut tried) {
                Err(id) => {
                    proof {
                        lemme_absent_reste(gs, *membres, k + 1);
                    }
                    return Err(id);
                },
                Ok(_) => {},
            }
            let nom = v[i].0.clone();
            v.set(i, (nom, cc));
            proof {
                assert(noms_comptes(v@) =~= noms_comptes(v1));
                assert(nombres_comptes(v@) =~= nombres_comptes(v1).update(
                    i as int,
                    cc.capacite(),
                ));
                assert(tailles_comptes(v@) =~= tailles_comptes(v1).update(i as int, cc.comptes()));
            }
        }
        k += 1;
    }
    assert(gs.take(n as int) =~= gs);
    Ok(v)
}

} // verus!
