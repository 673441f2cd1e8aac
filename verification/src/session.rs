//! What a session of the program holds and shows.

use crate::groupes::comptes::{Compte, CompteID, CompteReg};
use crate::groupes::ensemble::Ensemble;
use crate::groupes::groupes::{Groupe, GroupeID, GroupeReg};
use crate::groupes::membres::{Membre, MembreID, MembreReg};
use crate::print::typst::{ajoute_tous, vue_opt_str, PresenceSDJInfo};
use crate::texte::{decimal, ecrit_decimal, hex8, pousse_car, str_egal, vue_opt};
use vstd::prelude::*;
use vstd::string::StringExecFns;

verus! {

/// The three registries of a session.
pub struct Registres {
    pub groupes: GroupeReg,
    pub comptes: CompteReg,
    pub membres: MembreReg,
}

impl Registres {
    /// The registries as a session starts with them: each holds the one
    /// record that stands for "none", under the identifier zero.
    pub fn new() -> (r: Self)
        ensures
            r.groupes.wf(),
            r.comptes.wf(),
            r.membres.wf(),
            r.groupes.registre().cles() == seq![0u32],
            r.comptes.registre().cles() == seq![0u32],
            r.membres.registre().cles() == seq![0u32],
            r.groupes.item(GroupeID(0)).id == GroupeID(0),
            r.comptes.item(CompteID(0)).id == CompteID(0),
            r.membres.item(MembreID(0)).id == MembreID(0),
            r.comptes.coherent(),
            r.membres.coherent(),
    {
        let mut groupes = GroupeReg::new();
        let mut comptes = CompteReg::new();
        let mut membres = MembreReg::new();
        let _g = groupes.add(Groupe::default());
        let _c = comptes.add(Compte::default());
        let _m = membres.add(Membre::default());
        proof {
            assert(groupes.registre().cles() =~= seq![0u32]);
            assert(comptes.registre().cles() =~= seq![0u32]);
            assert(membres.registre().cles() =~= seq![0u32]);
            assert(groupes.registre().cles()[0] == 0u32);
            assert(comptes.registre().cles()[0] == 0u32);
            assert(membres.registre().cles()[0] == 0u32);
            assert(groupes.registre().rang(0) == 0);
            assert(comptes.registre().rang(0) == 0);
            assert(membres.registre().rang(0) == 0);
        }
        Registres { groupes, comptes, membres }
    }
}

/// The group in one line, as the list of groups shows it: identifier,
/// description, and the number of participants over the number of places, a
/// dash standing for a number of places that is not known.
pub open spec fn ligne_groupe(g: Groupe) -> Seq<char> {
    seq!['G'] + hex8(g.id.0) + ": "@ + g.texte() + " --- inscriptions: "@ + decimal(
        g.participants.vue().len(),
    ) + seq!['/'] + (match g.capacite {
        None => seq!['-'],
        Some(c) => decimal(c as nat),
    })
}

/// Writes the group in one line, as the list of groups shows it.
pub fn decrit_groupe(groupe: &Groupe) -> (s: String)
    ensures
        s@ == ligne_groupe(*groupe),
{
    let mut s = groupe.id.to_string();
    s.append(": ");
    let desc = groupe.desc();
    let ghost texte = desc@;
    s.append(desc.as_str());
    assert(s@ =~= seq!['G'] + hex8(groupe.id.0) + ": "@ + texte);
    let mut fin = String::from_str(" --- inscriptions: ");
    ecrit_decimal(&mut fin, groupe.participants.len() as u64);
    pousse_car(&mut fin, '/');
    match groupe.capacite {
        None => pousse_car(&mut fin, '-'),
        Some(c) => ecrit_decimal(&mut fin, c as u64),
    }
    assert(fin@ =~= " --- inscriptions: "@ + decimal(groupe.participants.vue().len()) + seq!['/']
        + (match groupe.capacite {
        None => seq!['-'],
        Some(c) => decimal(c as nat),
    }));
    s.append(fin.as_str());
    assert(s@ =~= seq!['G'] + hex8(groupe.id.0) + ": "@ + texte + " --- inscriptions: "@ + decimal(
        groupe.participants.vue().len(),
    ) + seq!['/'] + (match groupe.capacite {
        None => seq!['-'],
        Some(c) => decimal(c as nat),
    }));
    s
}

/// Season, site and week of a group.
pub open spec fn service(g: Groupe) -> (Option<Seq<char>>, Option<Seq<char>>, Option<Seq<char>>) {
    (vue_opt(g.site), vue_opt(g.semaine), vue_opt(g.saison))
}

/// The seasons, sites and weeks of the groups `gs`, each once, in the order in
/// which they are met; the group `nul` does not count.
pub open spec fn services(gs: Seq<Groupe>, nul: GroupeID) -> Seq<
    (Option<Seq<char>>, Option<Seq<char>>, Option<Seq<char>>),
>
    decreases gs.len(),
{
    if gs.len() == 0 {
        Seq::empty()
    } else {
        let avant = services(gs.drop_last(), nul);
        if gs.last().id == nul || avant.contains(service(gs.last())) {
            avant
        } else {
            avant.push(service(gs.last()))
        }
    }
}

/// What each of `infos` holds.
pub open spec fn cles_infos(infos: Seq<PresenceSDJInfo>) -> Seq<
    (Option<Seq<char>>, Option<Seq<char>>, Option<Seq<char>>),
> {
    infos.map_values(|i: PresenceSDJInfo| i.cle())
}

fn opt_str_egal(a: Option<&str>, b: Option<&str>) -> (r: bool)
    ensures
        r == (vue_opt_str(a) == vue_opt_str(b)),
{
    match (a, b) {
        (Some(x), Some(y)) => str_egal(x, y),
        (None, None) => true,
        _ => false,
    }
}

fn info_connue(infos: &Vec<PresenceSDJInfo>, info: &PresenceSDJInfo) -> (r: bool)
    ensures
        r == cles_infos(infos@).contains(info.cle()),
{
    let mut i: usize = 0;
    while i < infos.len()
        invariant
            i <= infos@.len(),
            forall|j: int| 0 <= j < i ==> cles_infos(infos@)[j] != info.cle(),
        decreases infos@.len() - i,
    {
        let x = &infos[i];
        if opt_str_egal(x.site, info.site) && opt_str_egal(x.semaine, info.semaine)
            && opt_str_egal(x.saison, info.saison) {
            assert(cles_infos(infos@)[i as int] == info.cle());
            return true;
        }
        i += 1;
    }
    false
}

/// The seasons, sites and weeks for which an attendance sheet of the day care
/// is due: those of the groups of the registry, each once; the group `nul`
/// does not count.
pub fn infos_sdj<'a>(groupes: &'a GroupeReg, nul: GroupeID) -> (r: Vec<PresenceSDJInfo<'a>>)
    requires
        groupes.wf(),
    ensures
        cles_infos(r@) == services(groupes.registre().items(), nul),
{
    let mut r: Vec<PresenceSDJInfo<'a>> = Vec::new();
    let ghost gs = groupes.registre().items();
    let mut it = groupes.groupes();
    let n = groupes.len();
    let mut k: usize = 0;
    assert(gs.take(0) =~= Seq::<Groupe>::empty());
    assert(gs.skip(0) =~= gs);
    assert(cles_infos(r@) =~= services(gs.take(0), nul));
    while k < n
        invariant
            k <= n,
            n == gs.len(),
            it.restants() == gs.skip(k as int),
            cles_infos(r@) == services(gs.take(k as int), nul),
        decreases n - k,
    {
        proof {
            assert(gs.skip(k as int).len() > 0);
            assert(gs.skip(k as int)[0] == gs[k as int]);
            assert(gs.skip(k as int).drop_first() =~= gs.skip(k + 1));
            assert(gs.take(k + 1).drop_last() =~= gs.take(k as int));
            assert(gs.take(k + 1).last() == gs[k as int]);
        }
        if let Some(g) = it.next() {
            if g.id != nul {
                let gi = g.get_sdj_info();
                assert(gi.cle() == service(*g));
                if !info_connue(&r, &gi) {
                    let ghost avant = cles_infos(r@);
                    r.push(gi);
                    assert(cles_infos(r@) =~= avant.push(gi.cle()));
                }
            }
        }
        k += 1;
    }
    assert(gs.take(n as int) =~= gs);
    r
}

/// The site of a group, "None" standing for a site that is not known.
pub open spec fn site_de(g: Groupe) -> Seq<char> {
    match g.site {
        Some(s) => s@,
        None => "None"@,
    }
}

/// The sites of the groups `gs`, each once, in the order in which they are
/// met.
pub open spec fn sites(gs: Seq<Groupe>) -> Seq<Seq<char>>
    decreases gs.len(),
{
    if gs.len() == 0 {
        Seq::empty()
    } else {
        let avant = sites(gs.drop_last());
        if avant.contains(site_de(gs.last())) {
            avant
        } else {
            avant.push(site_de(gs.last()))
        }
    }
}

/// The participants of the groups of `gs` at the site `site`, each once, in
/// the order in which they are met.
pub open spec fn inscrits_site(gs: Seq<Groupe>, site: Seq<char>) -> Seq<MembreID>
    decreases gs.len(),
{
    if gs.len() == 0 {
        Seq::empty()
    } else if site_de(gs.last()) == site {
        ajoute_tous(inscrits_site(gs.drop_last(), site), gs.last().participants.vue())
    } else {
        inscrits_site(gs.drop_last(), site)
    }
}

/// The sites of the groups of the registry, each once.
pub fn liste_sites(groupes: &GroupeReg) -> (r: Vec<String>)
    requires
        groupes.wf(),
    ensures
        crate::texte::vues(r@) == sites(groupes.registre().items()),
{
    let mut r: Vec<String> = Vec::new();
    let ghost gs = groupes.registre().items();
    let mut it = groupes.groupes();
    let n = groupes.len();
    let mut k: usize = 0;
    assert(gs.take(0) =~= Seq::<Groupe>::empty());
    assert(gs.skip(0) =~= gs);
    assert(crate::texte::vues(r@) =~= sites(gs.take(0)));
    while k < n
        invariant
            k <= n,
            n == gs.len(),
            it.restants() == gs.skip(k as int),
            crate::texte::vues(r@) == sites(gs.take(k as int)),
        decreases n - k,
    {
        proof {
            assert(gs.skip(k as int).len() > 0);
            assert(gs.skip(k as int)[0] == gs[k as int]);
            assert(gs.skip(k as int).drop_first() =~= gs.skip(k + 1));
            assert(gs.take(k + 1).drop_last() =~= gs.take(k as int));
            assert(gs.take(k + 1).last() == gs[k as int]);
        }
        if let Some(g) = it.next() {
            let site: String = match &g.site {
                Some(s) => s.clone(),
                None => String::from_str("None"),
            };
            assert(site@ == site_de(*g));
            if !texte_connu(&r, site.as_str()) {
                let ghost avant = crate::texte::vues(r@);
                let ghost v = site@;
                r.push(site);
                assert(crate::texte::vues(r@) =~= avant.push(v));
            }
        }
        k += 1;
    }
    assert(gs.take(n as int) =~= gs);
    r
}

fn texte_connu(liste: &Vec<String>, t: &str) -> (r: bool)
    ensures
        r == crate::texte::vues(liste@).contains(t@),
{
    let mut i: usize = 0;
    while i < liste.len()
        invariant
            i <= liste@.len(),
            forall|j: int| 0 <= j < i ==> crate::texte::vues(liste@)[j] != t@,
        decreases liste@.len() - i,
    {
        if str_egal(liste[i].as_str(), t) {
            assert(crate::texte::vues(liste@)[i as int] == t@);
            return true;
        }
        i += 1;
    }
    false
}

/// The participants of the groups of the registry at the site `site`, each
/// once.
pub fn membres_du_site(groupes: &GroupeReg, site: &str) -> (r: Ensemble)
    requires
        groupes.wf(),
    ensures
        r.vue() == inscrits_site(groupes.registre().items(), site@),
{
    let mut r = Ensemble::new();
    let ghost gs = groupes.registre().items();
    let mut it = groupes.groupes();
    let n = groupes.len();
    let mut k: usize = 0;
    assert(gs.take(0) =~= Seq::<Groupe>::empty());
    assert(gs.skip(0) =~= gs);
    while k < n
        invariant
            k <= n,
            n == gs.len(),
            it.restants() == gs.skip(k as int),
            r.vue() == inscrits_site(gs.take(k as int), site@),
        decreases n - k,
    {
        proof {
            assert(gs.skip(k as int).len() > 0);
            assert(gs.skip(k as int)[0] == gs[k as int]);
            assert(gs.skip(k as int).drop_first() =~= gs.skip(k + 1));
            assert(gs.take(k + 1).drop_last() =~= gs.take(k as int));
            assert(gs.take(k + 1).last() == gs[k as int]);
        }
        if let Some(g) = it.next() {
            let ici = match &g.site {
                Some(s) => str_egal(s.as_str(), site),
                None => str_egal("None", site),
            };
            if ici {
                ajoute_participants(&mut r, &g.participants);
            }
        }
        k += 1;
    }
    assert(gs.take(n as int) =~= gs);
    r
}

fn ajoute_participants(vus: &mut Ensemble, ids: &Ensemble)
    ensures
        final(vus).vue() == ajoute_tous(old(vus).vue(), ids.vue()),
{
    let n = ids.len();
    let mut k: usize = 0;
    let ghost tous = ids.vue();
    assert(tous.take(0) =~= Seq::<MembreID>::empty());
    while k < n
        invariant
            k <= n,
            n == ids.vue().len(),
            tous == ids.vue(),
            vus.vue() == ajoute_tous(old(vus).vue(), tous.take(k as int)),
        decreases n - k,
    {
        let p = ids.get(k);
        proof {
            assert(tous.take(k + 1).drop_last() =~= tous.take(k as int));
            assert(tous.take(k + 1).last() == p);
        }
        vus.insert(p);
        k += 1;
    }
    assert(tous.take(n as int) =~= tous);
}

} // verus!
