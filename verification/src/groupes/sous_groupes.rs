//! The split of the members of a group into sub-groups.
//!
//! A sub-group is formed from the members that are still free. Their
//! interests are weighed; if one interest outweighs the rest, it becomes the
//! profile of the sub-group, and the members who rank it first or second are
//! taken, those who rank it first before the others. Without a profile the
//! oldest members are taken. Ties go to the smaller identifier, so that the
//! outcome never depends on chance.

use crate::date::Date;
use crate::groupes::ensemble::Ensemble;
use crate::groupes::groupes::{Groupe, GroupeID};
use crate::groupes::membres::{Interet, Interets, Membre, MembreID, MembreReg};
use crate::groupes::registre::{
    est_premier_rang, lemme_premier_rang, lemme_premier_rang_absent, premier_rang,
};
use crate::texte::{decimal, ecrit_decimal, minuscules, str_egal, to_lowercase};
use vstd::prelude::*;
use vstd::string::StringExecFns;

verus! {

/// What the split looks at in a member: the identifier under which the
/// registry holds it, the birth date and the interests.
#[derive(Debug, Clone, Copy)]
pub struct Candidat {
    pub id: MembreID,
    pub naissance: Date,
    pub interets: Interets,
}

/// The points that an interest earns by standing at rank `rang` of a member's
/// list, rank 0 being the dearest.
pub open spec fn points_rang(rang: int) -> nat {
    if rang < 1 {
        8
    } else if rang == 1 {
        4
    } else if rang == 2 {
        2
    } else {
        0
    }
}

/// The points that an interest earns by standing at rank `rank` of a member's
/// list, rank 0 being the dearest.
pub fn rank_points(rank: usize) -> (p: u32)
    ensures
        p == points_rang(rank as int),
{
    if rank < 1 {
        8
    } else if rank == 1 {
        4
    } else if rank == 2 {
        2
    } else {
        0
    }
}

/// The points that `c` gives to the interest `it`: those of each rank at which
/// `it` stands in the list of `c`.
pub open spec fn points_candidat(c: Candidat, it: Interet) -> nat {
    (if c.interets@[0] == Some(it) {
        points_rang(0)
    } else {
        0
    }) + (if c.interets@[1] == Some(it) {
        points_rang(1)
    } else {
        0
    }) + (if c.interets@[2] == Some(it) {
        points_rang(2)
    } else {
        0
    }) + (if c.interets@[3] == Some(it) {
        points_rang(3)
    } else {
        0
    })
}

/// The points that the members `cands` give to the interest `it`, all told.
pub open spec fn points(cands: Seq<Candidat>, it: Interet) -> nat
    decreases cands.len(),
{
    if cands.len() == 0 {
        0
    } else {
        points(cands.drop_last(), it) + points_candidat(cands.last(), it)
    }
}

/// The points that the members `cands` give to all interests together.
pub open spec fn total_points(cands: Seq<Candidat>) -> nat {
    points(cands, Interet::Science) + points(cands, Interet::Sport) + points(cands, Interet::Art)
        + points(cands, Interet::Nature)
}

/// Whether `it` holds more than 40 % of the points that `cands` give.
pub open spec fn domine(cands: Seq<Candidat>, it: Interet) -> bool {
    5 * points(cands, it) > 2 * total_points(cands)
}

/// The profile of the members `cands`: the first interest, in the order in
/// which the interests are declared, that holds more than 40 % of the points;
/// none if no interest does.
pub open spec fn profil(cands: Seq<Candidat>) -> Option<Interet> {
    if domine(cands, Interet::Science) {
        Some(Interet::Science)
    } else if domine(cands, Interet::Sport) {
        Some(Interet::Sport)
    } else if domine(cands, Interet::Art) {
        Some(Interet::Art)
    } else if domine(cands, Interet::Nature) {
        Some(Interet::Nature)
    } else {
        None
    }
}

fn points_de(c: &Candidat, it: Interet) -> (p: u128)
    ensures
        p == points_candidat(*c, it),
        p <= 14,
{
    let mut p: u128 = 0;
    let mut rang: usize = 0;
    while rang < 4
        invariant
            rang <= 4,
            p == (if 0 < rang && c.interets@[0] == Some(it) {
                points_rang(0)
            } else {
                0
            }) + (if 1 < rang && c.interets@[1] == Some(it) {
                points_rang(1)
            } else {
                0
            }) + (if 2 < rang && c.interets@[2] == Some(it) {
                points_rang(2)
            } else {
                0
            }) + (if 3 < rang && c.interets@[3] == Some(it) {
                points_rang(3)
            } else {
                0
            }),
        decreases 4 - rang,
    {
        if let Some(x) = c.interets[rang] {
            if x == it {
                p = p + rank_points(rang) as u128;
            }
        }
        rang += 1;
    }
    p
}

fn compte_points(cands: &Vec<Candidat>, it: Interet) -> (p: u128)
    ensures
        p == points(cands@, it),
        p <= 14 * cands@.len(),
{
    let mut p: u128 = 0;
    let mut i: usize = 0;
    while i < cands.len()
        invariant
            i <= cands@.len(),
            p == points(cands@.take(i as int), it),
            p <= 14 * i,
        decreases cands@.len() - i,
    {
        assert(cands@.take(i + 1).drop_last() =~= cands@.take(i as int));
        p = p + points_de(&cands[i], it);
        i += 1;
    }
    assert(cands@.take(i as int) =~= cands@);
    p
}

/// The profile of the members `cands`, see [`profil`].
pub fn trouve_profil(cands: &Vec<Candidat>) -> (p: Option<Interet>)
    ensures
        p == profil(cands@),
{
    let n: usize = cands.len();
    assert(n <= 0xFFFF_FFFF_FFFF_FFFF);
    let science = compte_points(cands, Interet::Science);
    let sport = compte_points(cands, Interet::Sport);
    let art = compte_points(cands, Interet::Art);
    let nature = compte_points(cands, Interet::Nature);
    let total: u128 = science + sport + art + nature;
    if 5 * science > 2 * total {
        Some(Interet::Science)
    } else if 5 * sport > 2 * total {
        Some(Interet::Sport)
    } else if 5 * art > 2 * total {
        Some(Interet::Art)
    } else if 5 * nature > 2 * total {
        Some(Interet::Nature)
    } else {
        None
    }
}

/// What members are sorted by: a weight, and the identifier to settle ties.
pub type CleTri = (i64, u32);

/// Whether the key `a` comes before the key `b` or is the same: the smaller
/// weight first, and among equal weights the smaller identifier.
pub open spec fn ordre(a: CleTri, b: CleTri) -> bool {
    a.0 < b.0 || (a.0 == b.0 && a.1 <= b.1)
}

/// [`ordre`], as a relation that a sequence can be sorted by.
pub open spec fn ordre_cles() -> spec_fn(CleTri, CleTri) -> bool {
    |a: CleTri, b: CleTri| ordre(a, b)
}

/// The keys are totally ordered: any two compare, and only equal keys compare
/// both ways.
pub proof fn lemme_ordre_total()
    ensures
        vstd::relations::total_ordering(ordre_cles()),
{
    let r = ordre_cles();
    assert(vstd::relations::reflexive(r));
    assert(vstd::relations::antisymmetric(r)) by {
        assert forall|x: CleTri, y: CleTri| #[trigger] r(x, y) && #[trigger] r(y, x) implies x
            == y by {
            assert(x.0 == y.0 && x.1 == y.1);
        }
    }
    assert(vstd::relations::transitive(r));
    assert(vstd::relations::strongly_connected(r));
}

fn avant_ou_egal(a: CleTri, b: CleTri) -> (r: bool)
    ensures
        r == ordre(a, b),
{
    a.0 < b.0 || (a.0 == b.0 && a.1 <= b.1)
}

/// Sorts keys: smaller weights first, ties by identifier.
pub fn trie(v: &Vec<CleTri>) -> (r: Vec<CleTri>)
    ensures
        r@ == v@.sort_by(ordre_cles()),
        r@.to_multiset() == v@.to_multiset(),
        vstd::relations::sorted_by(r@, ordre_cles()),
{
    let mut r: Vec<CleTri> = Vec::new();
    let mut i: usize = 0;
    assert(r@ =~= v@.take(0));
    while i < v.len()
        invariant
            i <= v@.len(),
            r@.to_multiset() == v@.take(i as int).to_multiset(),
            vstd::relations::sorted_by(r@, ordre_cles()),
        decreases v@.len() - i,
    {
        let x = v[i];
        let mut pos: usize = 0;
        while pos < r.len() && avant_ou_egal(r[pos], x)
            invariant
                pos <= r@.len(),
                forall|j: int| 0 <= j < pos ==> ordre(#[trigger] r@[j], x),
            decreases r@.len() - pos,
        {
            pos += 1;
        }
        let ghost avant = r@;
        r.insert(pos, x);
        proof {
            vstd::seq_lib::to_multiset_insert(avant, pos as int, x);
            assert(v@.take(i + 1) =~= v@.take(i as int).push(x));
            vstd::seq_lib::to_multiset_build(v@.take(i as int), x);
            let leq = ordre_cles();
            assert forall|a: int, b: int| 0 <= a < b < r@.len() implies #[trigger] leq(
                r@[a],
                r@[b],
            ) by {
                if b < pos {
                    assert(leq(avant[a], avant[b]));
                } else if b == pos {
                    assert(ordre(avant[a], x));
                } else if a < pos {
                    assert(leq(avant[a], avant[b - 1]));
                } else if a == pos {
                    // every key from `pos` on comes behind `x`
                    assert(!ordre(avant[pos as int], x));
                    assert(leq(avant[pos as int], avant[b - 1]) || pos as int == b - 1);
                } else {
                    assert(leq(avant[a - 1], avant[b - 1]));
                }
            }
        }
        i += 1;
    }
    proof {
        assert(v@.take(i as int) =~= v@);
        lemme_ordre_total();
        v@.lemma_sort_by_ensures(ordre_cles());
        vstd::seq_lib::lemma_sorted_unique(r@, v@.sort_by(ordre_cles()), ordre_cles());
    }
    r
}

/// Whether `c` may join a sub-group of profile `p`: anyone may join one
/// without profile; one with a profile takes those who rank it first or
/// second.
pub open spec fn retenu(c: Candidat, p: Option<Interet>) -> bool {
    match p {
        None => true,
        Some(it) => c.interets@[0] == Some(it) || c.interets@[1] == Some(it),
    }
}

/// [`retenu`] for a given profile, as a test on members.
pub open spec fn filtre(p: Option<Interet>) -> spec_fn(Candidat) -> bool {
    |c: Candidat| retenu(c, p)
}

/// The weight by which `c` is ranked for a sub-group of profile `p`: without
/// profile the rank of the birth date, the oldest first; with a profile the
/// rank at which `c` holds it.
pub open spec fn poids(c: Candidat, p: Option<Interet>) -> i64 {
    match p {
        None => c.naissance.rang() as i64,
        Some(it) => if c.interets@[0] == Some(it) {
            0
        } else {
            1
        },
    }
}

/// The key by which `c` is ranked for a sub-group of profile `p`.
pub open spec fn cle_tri(c: Candidat, p: Option<Interet>) -> CleTri {
    (poids(c, p), c.id.0)
}

/// [`cle_tri`] for a given profile, as a function of the member.
pub open spec fn cles_tri(p: Option<Interet>) -> spec_fn(Candidat) -> CleTri {
    |c: Candidat| cle_tri(c, p)
}

/// The identifier that a key belongs to.
pub open spec fn id_de_cle() -> spec_fn(CleTri) -> MembreID {
    |k: CleTri| MembreID(k.1)
}

/// The identifier of a member.
pub open spec fn id_de() -> spec_fn(Candidat) -> MembreID {
    |c: Candidat| c.id
}

/// The identifiers of `cands`, in the same order.
pub open spec fn ids(cands: Seq<Candidat>) -> Seq<MembreID> {
    cands.map_values(id_de())
}

/// The keys of the members of `cands` that may join a sub-group of profile
/// `p`, best ranked first.
pub open spec fn classement(cands: Seq<Candidat>, p: Option<Interet>) -> Seq<CleTri> {
    cands.filter(filtre(p)).map_values(cles_tri(p)).sort_by(ordre_cles())
}

/// The smaller of two sizes.
pub open spec fn plus_petit(a: int, b: int) -> int {
    if a <= b {
        a
    } else {
        b
    }
}

/// The members taken from `cands` for a sub-group of at most `n`: the best
/// ranked for the profile of `cands`.
pub open spec fn choisis(cands: Seq<Candidat>, n: nat) -> Seq<MembreID> {
    let c = classement(cands, profil(cands));
    c.take(plus_petit(n as int, c.len() as int)).map_values(id_de_cle())
}

/// Whether the member has not been taken, as a test on members.
pub open spec fn libre(pris: Seq<MembreID>) -> spec_fn(Candidat) -> bool {
    |c: Candidat| !pris.contains(c.id)
}

/// Whether the member has been taken, as a test on members.
pub open spec fn occupe(pris: Seq<MembreID>) -> spec_fn(Candidat) -> bool {
    |c: Candidat| pris.contains(c.id)
}

/// The members of `cands` that are left when those of `pris` have been taken,
/// in the same order.
pub open spec fn reste(cands: Seq<Candidat>, pris: Seq<MembreID>) -> Seq<Candidat> {
    cands.filter(libre(pris))
}

/// A test on members keeps some of them, in their order, and so keeps their
/// identifiers distinct.
pub proof fn lemme_filtre_ids(cands: Seq<Candidat>, pred: spec_fn(Candidat) -> bool)
    requires
        ids(cands).no_duplicates(),
    ensures
        ids(cands.filter(pred)).no_duplicates(),
        forall|i: int|
            0 <= i < cands.filter(pred).len() ==> cands.contains(#[trigger] cands.filter(pred)[i])
                && pred(cands.filter(pred)[i]),
    decreases cands.len(),
{
    broadcast use vstd::seq_lib::group_filter_ensures;

    let f = cands.filter(pred);
    assert forall|i: int| 0 <= i < f.len() implies cands.contains(#[trigger] f[i]) && pred(
        f[i],
    ) by {
        assert(f.contains(f[i]));
        cands.lemma_filter_contains_rev(pred, f[i]);
    }
    if cands.len() > 0 {
        let t = cands.drop_last();
        let x = cands.last();
        assert(cands =~= t.push(x));
        assert(ids(t) =~= ids(cands).drop_last());
        assert(ids(t).no_duplicates()) by {
            assert forall|a: int, b: int|
                0 <= a < ids(t).len() && 0 <= b < ids(t).len() && a != b implies ids(t)[a] != ids(
                t,
            )[b] by {
                assert(ids(cands)[a] != ids(cands)[b]);
            }
        }
        lemme_filtre_ids(t, pred);
        t.lemma_filter_push(x, pred);
        let ft = t.filter(pred);
        if pred(x) {
            assert(f =~= ft.push(x));
            assert forall|a: int, b: int|
                0 <= a < ids(f).len() && 0 <= b < ids(f).len() && a != b implies ids(f)[a] != ids(
                f,
            )[b] by {
                if a < ft.len() && b < ft.len() {
                    assert(ids(ft)[a] != ids(ft)[b]);
                } else {
                    let c = if a < ft.len() { a } else { b };
                    assert(t.contains(ft[c]));
                    let k = choose|k: int| 0 <= k < t.len() && t[k] == ft[c];
                    assert(ids(cands)[k] != ids(cands)[cands.len() - 1]);
                }
            }
        } else {
            assert(f =~= ft);
        }
    } else {
        assert(f.len() == 0);
    }
}

/// A test and its contrary share out the members between them.
pub proof fn lemme_filtre_partage(
    cands: Seq<Candidat>,
    oui: spec_fn(Candidat) -> bool,
    non: spec_fn(Candidat) -> bool,
)
    requires
        forall|c: Candidat| #[trigger] oui(c) == !non(c),
    ensures
        cands.filter(oui).len() + cands.filter(non).len() == cands.len(),
    decreases cands.len(),
{
    if cands.len() > 0 {
        let t = cands.drop_last();
        let x = cands.last();
        assert(cands =~= t.push(x));
        lemme_filtre_partage(t, oui, non);
        t.lemma_filter_push(x, oui);
        t.lemma_filter_push(x, non);
    } else {
        broadcast use vstd::seq_lib::group_filter_ensures;

        assert(cands.filter(oui).len() == 0);
        assert(cands.filter(non).len() == 0);
    }
}

/// Taking members away leaves as many as were there, less those taken.
pub proof fn lemme_reste(cands: Seq<Candidat>, pris: Seq<MembreID>)
    requires
        ids(cands).no_duplicates(),
        pris.no_duplicates(),
        forall|i: int| 0 <= i < pris.len() ==> ids(cands).contains(#[trigger] pris[i]),
    ensures
        reste(cands, pris).len() + pris.len() == cands.len(),
        ids(reste(cands, pris)).no_duplicates(),
        forall|i: int|
            0 <= i < reste(cands, pris).len() ==> cands.contains(#[trigger] reste(cands, pris)[i])
                && !pris.contains(reste(cands, pris)[i].id),
{
    lemme_filtre_ids(cands, libre(pris));
    lemme_filtre_ids(cands, occupe(pris));
    lemme_filtre_partage(cands, occupe(pris), libre(pris));
    let o = cands.filter(occupe(pris));
    assert(ids(o).to_set() =~= pris.to_set()) by {
        assert forall|x: MembreID| ids(o).to_set().contains(x) implies pris.to_set().contains(
            x,
        ) by {
            let i = choose|i: int| 0 <= i < ids(o).len() && ids(o)[i] == x;
            assert(occupe(pris)(o[i]));
        }
        assert forall|x: MembreID| pris.to_set().contains(x) implies ids(o).to_set().contains(
            x,
        ) by {
            let k = choose|k: int| 0 <= k < ids(cands).len() && ids(cands)[k] == x;
            assert(occupe(pris)(cands[k]));
            cands.lemma_filter_contains(occupe(pris), k);
            let j = choose|j: int| 0 <= j < o.len() && o[j] == cands[k];
            assert(ids(o)[j] == x);
        }
    }
    ids(o).unique_seq_to_set();
    pris.unique_seq_to_set();
}

/// Whether `k` is the key of a member of `cands` that may join a sub-group of
/// profile `p`.
pub open spec fn provient(cands: Seq<Candidat>, p: Option<Interet>, k: CleTri) -> bool {
    exists|j: int| 0 <= j < cands.len() && retenu(cands[j], p) && cle_tri(cands[j], p) == k
}

/// What the ranking of members with distinct identifiers holds: keys with
/// distinct identifiers, each the key of a member that may join.
pub proof fn lemme_classement(cands: Seq<Candidat>, p: Option<Interet>)
    requires
        ids(cands).no_duplicates(),
    ensures
        classement(cands, p).len() <= cands.len(),
        classement(cands, p).map_values(id_de_cle()).no_duplicates(),
        forall|i: int|
            0 <= i < classement(cands, p).len() ==> ids(cands).contains(
                MembreID(#[trigger] classement(cands, p)[i].1),
            ),
        forall|i: int|
            0 <= i < classement(cands, p).len() ==> provient(
                cands,
                p,
                #[trigger] classement(cands, p)[i],
            ),
{
    broadcast use vstd::seq_lib::group_to_multiset_ensures;

    let f = cands.filter(filtre(p));
    let m = f.map_values(cles_tri(p));
    let cl = classement(cands, p);
    lemme_filtre_ids(cands, filtre(p));
    cands.lemma_filter_len(filtre(p));
    lemme_ordre_total();
    m.lemma_sort_by_ensures(ordre_cles());
    assert(cl.len() == m.len()) by {
        assert(cl.to_multiset().len() == m.to_multiset().len());
    }
    assert(m.no_duplicates()) by {
        assert forall|a: int, b: int| 0 <= a < m.len() && 0 <= b < m.len() && a != b implies m[a]
            != m[b] by {
            assert(ids(f)[a] != ids(f)[b]);
        }
    }
    m.lemma_multiset_has_no_duplicates();
    cl.lemma_multiset_has_no_duplicates_conv();
    assert forall|i: int| 0 <= i < cl.len() implies provient(cands, p, #[trigger] cl[i]) by {
        assert(cl.contains(cl[i]));
        assert(m.contains(cl[i]));
        let j = choose|j: int| 0 <= j < m.len() && m[j] == cl[i];
        assert(cands.contains(f[j]) && filtre(p)(f[j]));
        let k = choose|k: int| 0 <= k < cands.len() && cands[k] == f[j];
        assert(cle_tri(cands[k], p) == cl[i]);
    }
    assert forall|i: int| 0 <= i < cl.len() implies ids(cands).contains(
        MembreID(#[trigger] cl[i].1),
    ) by {
        assert(provient(cands, p, cl[i]));
        let k = choose|k: int|
            0 <= k < cands.len() && retenu(cands[k], p) && cle_tri(cands[k], p) == cl[i];
        assert(ids(cands)[k] == MembreID(cl[i].1));
    }
    let ci = cl.map_values(id_de_cle());
    assert forall|a: int, b: int| 0 <= a < ci.len() && 0 <= b < ci.len() && a != b implies ci[a]
        != ci[b] by {
        assert(cl[a] != cl[b]);
        assert(cl.contains(cl[a]));
        assert(cl.contains(cl[b]));
        assert(m.contains(cl[a]));
        assert(m.contains(cl[b]));
        let ja = choose|j: int| 0 <= j < m.len() && m[j] == cl[a];
        let jb = choose|j: int| 0 <= j < m.len() && m[j] == cl[b];
        assert(ids(f)[ja] != ids(f)[jb]);
    }
}

/// A part of a group, formed for the sake of supervision: the members in it,
/// the interest that brings them together if there is one, and its number
/// within the group.
#[derive(Debug, Clone)]
pub struct SousGroupe {
    pub profil: Option<Interet>,
    pub disc: u32,
    pub participants: Ensemble,
    pub groupe: GroupeID,
    pub animateur: Option<String>,
}

impl Default for SousGroupe {
    /// The empty sub-group, without profile, number, group or instructor.
    fn default() -> (sg: Self)
        ensures
            sg.profil is None,
            sg.disc == 0,
            sg.participants.vue().len() == 0,
            sg.groupe == GroupeID(0),
            sg.animateur is None,
    {
        SousGroupe {
            profil: None,
            disc: 0,
            participants: Ensemble::new(),
            groupe: GroupeID(0),
            animateur: None,
        }
    }
}

impl SousGroupe {
    /// Whether the member `id` is in the sub-group.
    pub fn contains(&self, id: MembreID) -> (b: bool)
        ensures
            b == self.participants.vue().contains(id),
    {
        self.participants.contains(id)
    }
}

fn est_retenu(c: &Candidat, p: Option<Interet>) -> (b: bool)
    ensures
        b == retenu(*c, p),
{
    match p {
        None => true,
        Some(it) => {
            let premier = match c.interets[0] {
                Some(x) => x == it,
                None => false,
            };
            let second = match c.interets[1] {
                Some(x) => x == it,
                None => false,
            };
            premier || second
        },
    }
}

fn cle_de(c: &Candidat, p: Option<Interet>) -> (k: CleTri)
    ensures
        k == cle_tri(*c, p),
{
    let poids: i64 = match p {
        None => c.naissance.ordinal(),
        Some(it) => {
            let premier = match c.interets[0] {
                Some(x) => x == it,
                None => false,
            };
            if premier {
                0
            } else {
                1
            }
        },
    };
    (poids, c.id.0)
}

fn classe(cands: &Vec<Candidat>, p: Option<Interet>) -> (r: Vec<CleTri>)
    ensures
        r@ == classement(cands@, p),
{
    let mut cles: Vec<CleTri> = Vec::new();
    let mut i: usize = 0;
    proof {
        broadcast use vstd::seq_lib::group_filter_ensures;

        assert(cands@.take(0).filter(filtre(p)).len() == 0);
        assert(cles@ =~= cands@.take(0).filter(filtre(p)).map_values(cles_tri(p)));
    }
    while i < cands.len()
        invariant
            i <= cands@.len(),
            cles@ == cands@.take(i as int).filter(filtre(p)).map_values(cles_tri(p)),
        decreases cands@.len() - i,
    {
        let c = &cands[i];
        proof {
            assert(cands@.take(i + 1) =~= cands@.take(i as int).push(*c));
            cands@.take(i as int).lemma_filter_push(*c, filtre(p));
        }
        if est_retenu(c, p) {
            cles.push(cle_de(c, p));
            assert(cles@ =~= cands@.take(i + 1).filter(filtre(p)).map_values(cles_tri(p)));
        }
        i += 1;
    }
    assert(cands@.take(i as int) =~= cands@);
    trie(&cles)
}

/// The members of `cands` that are not in `pris`, in the same order.
fn retire(cands: &Vec<Candidat>, pris: &Ensemble) -> (r: Vec<Candidat>)
    ensures
        r@ == reste(cands@, pris.vue()),
{
    let mut r: Vec<Candidat> = Vec::new();
    let mut i: usize = 0;
    proof {
        broadcast use vstd::seq_lib::group_filter_ensures;

        assert(cands@.take(0).filter(libre(pris.vue())).len() == 0);
        assert(r@ =~= cands@.take(0).filter(libre(pris.vue())));
    }
    while i < cands.len()
        invariant
            i <= cands@.len(),
            r@ == cands@.take(i as int).filter(libre(pris.vue())),
        decreases cands@.len() - i,
    {
        let c = cands[i];
        proof {
            assert(cands@.take(i + 1) =~= cands@.take(i as int).push(c));
            cands@.take(i as int).lemma_filter_push(c, libre(pris.vue()));
        }
        if !pris.contains(c.id) {
            r.push(c);
        }
        i += 1;
    }
    assert(cands@.take(i as int) =~= cands@);
    r
}

/// Forms one sub-group of at most `nb_participants` from the members
/// `membres`: its profile is theirs, and it takes the best ranked for that
/// profile. Number, group and instructor are left to be filled in.
pub fn mk_sous_groupe(membres: &Vec<Candidat>, nb_participants: usize) -> (sg: SousGroupe)
    requires
        ids(membres@).no_duplicates(),
    ensures
        sg.profil == profil(membres@),
        sg.participants.vue() == choisis(membres@, nb_participants as nat),
        sg.disc == 0,
        sg.groupe == GroupeID(0),
        sg.animateur is None,
{
    let profil = trouve_profil(membres);
    let cl = classe(membres, profil);
    let k: usize = if nb_participants <= cl.len() {
        nb_participants
    } else {
        cl.len()
    };
    let mut part: Vec<MembreID> = Vec::new();
    let mut j: usize = 0;
    while j < k
        invariant
            j <= k <= cl@.len(),
            part@ == cl@.take(j as int).map_values(id_de_cle()),
        decreases k - j,
    {
        part.push(MembreID(cl[j].1));
        assert(part@ =~= cl@.take(j + 1).map_values(id_de_cle()));
        j += 1;
    }
    proof {
        lemme_classement(membres@, profil);
        let tous = cl@.map_values(id_de_cle());
        assert forall|a: int, b: int|
            0 <= a < part@.len() && 0 <= b < part@.len() && a != b implies part@[a] != part@[b] by {
            assert(part@[a] == tous[a] && part@[b] == tous[b]);
        }
    }
    SousGroupe {
        profil,
        disc: 0,
        participants: Ensemble::depuis_vec(part),
        groupe: GroupeID(0),
        animateur: None,
    }
}

/// A sub-group as the split plans it: its profile and its members.
pub struct Part {
    pub profil: Option<Interet>,
    pub membres: Seq<MembreID>,
}

/// Where a split stands: the sub-groups planned so far, and the members that
/// are still free.
pub struct Plan {
    pub parts: Seq<Part>,
    pub reste: Seq<Candidat>,
}

/// The size that sub-groups aim at when `n` members are split into `nb`:
/// `n / nb`, rounded up.
pub open spec fn taille_cible(n: nat, nb: nat) -> nat {
    if nb == 0 {
        0
    } else if n % nb == 0 {
        n / nb
    } else {
        n / nb + 1
    }
}

/// The first step of a split: `nb` sub-groups of at most `taille` are formed
/// one after the other, each from the members that the ones before it left.
pub open spec fn formation(cands: Seq<Candidat>, taille: nat, nb: nat) -> Plan
    decreases nb,
{
    if nb == 0 {
        Plan { parts: Seq::empty(), reste: cands }
    } else {
        let avant = formation(cands, taille, (nb - 1) as nat);
        let pris = choisis(avant.reste, taille);
        Plan {
            parts: avant.parts.push(Part { profil: profil(avant.reste), membres: pris }),
            reste: reste(avant.reste, pris),
        }
    }
}

/// A sub-group filled up from the free members: as long as it is smaller than
/// `taille` and a member is free, the last free member joins it. Gives the
/// members of the sub-group and the members still free.
pub open spec fn complete(membres: Seq<MembreID>, libres: Seq<Candidat>, taille: nat) -> (
    Seq<MembreID>,
    Seq<Candidat>,
)
    decreases libres.len(),
{
    if membres.len() < taille && libres.len() > 0 {
        complete(membres.push(libres.last().id), libres.drop_last(), taille)
    } else {
        (membres, libres)
    }
}

/// The second step of a split: the sub-groups `parts` are filled up in their
/// order from the free members `libres`.
pub open spec fn distribution(parts: Seq<Part>, libres: Seq<Candidat>, taille: nat) -> Plan
    decreases parts.len(),
{
    if parts.len() == 0 {
        Plan { parts: Seq::empty(), reste: libres }
    } else {
        let avant = distribution(parts.drop_last(), libres, taille);
        let (m, r) = complete(parts.last().membres, avant.reste, taille);
        Plan { parts: avant.parts.push(Part { profil: parts.last().profil, membres: m }), reste: r }
    }
}

/// The split of the members `cands` into `nb` sub-groups: both steps, for the
/// size that `nb` sub-groups aim at.
pub open spec fn repartition(cands: Seq<Candidat>, nb: nat) -> Plan {
    let taille = taille_cible(cands.len(), nb);
    let f = formation(cands, taille, nb);
    distribution(f.parts, f.reste, taille)
}

/// The number of members in the sub-groups `parts`, all told.
pub open spec fn somme_tailles(parts: Seq<Part>) -> nat
    decreases parts.len(),
{
    if parts.len() == 0 {
        0
    } else {
        somme_tailles(parts.drop_last()) + parts.last().membres.len()
    }
}

/// Whether the sub-groups `parts` are sound beside the free members `libres`:
/// no member occurs twice in a sub-group or among the free, no sub-group holds
/// a free member, and none is larger than `taille`.
pub open spec fn plan_sain(parts: Seq<Part>, libres: Seq<Candidat>, taille: nat) -> bool {
    &&& ids(libres).no_duplicates()
    &&& forall|i: int| 0 <= i < parts.len() ==> (#[trigger] parts[i]).membres.no_duplicates()
    &&& forall|i: int| 0 <= i < parts.len() ==> (#[trigger] parts[i]).membres.len() <= taille
    &&& forall|i: int, j: int|
        0 <= i < parts.len() && 0 <= j < libres.len() ==> !(#[trigger] parts[i]).membres.contains(
            (#[trigger] libres[j]).id,
        )
}

/// The first step places every member in one sub-group or leaves it free, and
/// leaves a sound plan.
pub proof fn lemme_formation(cands: Seq<Candidat>, taille: nat, nb: nat)
    requires
        ids(cands).no_duplicates(),
    ensures
        formation(cands, taille, nb).parts.len() == nb,
        plan_sain(formation(cands, taille, nb).parts, formation(cands, taille, nb).reste, taille),
        somme_tailles(formation(cands, taille, nb).parts) + formation(cands, taille, nb).reste.len()
            == cands.len(),
        forall|j: int|
            0 <= j < formation(cands, taille, nb).reste.len() ==> cands.contains(
                #[trigger] formation(cands, taille, nb).reste[j],
            ),
    decreases nb,
{
    if nb == 0 {
    } else {
        lemme_formation(cands, taille, (nb - 1) as nat);
        let avant = formation(cands, taille, (nb - 1) as nat);
        let p = profil(avant.reste);
        let cl = classement(avant.reste, p);
        let k = plus_petit(taille as int, cl.len() as int);
        let pris = choisis(avant.reste, taille);
        let apres = formation(cands, taille, nb);
        lemme_classement(avant.reste, p);
        let tous = cl.map_values(id_de_cle());
        assert(pris =~= tous.take(k));
        assert(pris.no_duplicates()) by {
            assert forall|a: int, b: int|
                0 <= a < pris.len() && 0 <= b < pris.len() && a != b implies pris[a] != pris[b] by {
                assert(pris[a] == tous[a] && pris[b] == tous[b]);
            }
        }
        assert forall|i: int| 0 <= i < pris.len() implies ids(avant.reste).contains(
            #[trigger] pris[i],
        ) by {
            assert(pris[i] == MembreID(cl[i].1));
        }
        lemme_reste(avant.reste, pris);
        assert(apres.parts.drop_last() =~= avant.parts);
        assert forall|j: int| 0 <= j < apres.reste.len() implies cands.contains(
            #[trigger] apres.reste[j],
        ) by {
            assert(avant.reste.contains(apres.reste[j]));
            let a = choose|a: int| 0 <= a < avant.reste.len() && avant.reste[a] == apres.reste[j];
            assert(cands.contains(avant.reste[a]));
        }
        assert forall|i: int, j: int|
            0 <= i < apres.parts.len() && 0 <= j < apres.reste.len() implies !(
            #[trigger] apres.parts[i]).membres.contains((#[trigger] apres.reste[j]).id) by {
            if i < nb - 1 {
                assert(avant.reste.contains(apres.reste[j]));
                let a = choose|a: int|
                    0 <= a < avant.reste.len() && avant.reste[a] == apres.reste[j];
                assert(!avant.parts[i].membres.contains(avant.reste[a].id));
            }
        }
    }
}

/// Filling a sub-group up moves free members into it, one for one, until it
/// is full or nobody is free.
pub proof fn lemme_complete(membres: Seq<MembreID>, libres: Seq<Candidat>, taille: nat)
    requires
        membres.no_duplicates(),
        ids(libres).no_duplicates(),
        membres.len() <= taille,
        forall|j: int| 0 <= j < libres.len() ==> !membres.contains((#[trigger] libres[j]).id),
    ensures
        complete(membres, libres, taille).0.no_duplicates(),
        complete(membres, libres, taille).0.len() <= taille,
        complete(membres, libres, taille).0.len() + complete(membres, libres, taille).1.len()
            == membres.len() + libres.len(),
        complete(membres, libres, taille).1 == libres.take(
            complete(membres, libres, taille).1.len() as int,
        ),
        complete(membres, libres, taille).0.len() == taille || complete(
            membres,
            libres,
            taille,
        ).1.len() == 0,
    decreases libres.len(),
{
    if membres.len() < taille && libres.len() > 0 {
        let x = libres.last();
        let m2 = membres.push(x.id);
        let l2 = libres.drop_last();
        assert(m2.no_duplicates()) by {
            assert forall|a: int, b: int|
                0 <= a < m2.len() && 0 <= b < m2.len() && a != b implies m2[a] != m2[b] by {
                if a == membres.len() {
                    assert(membres.contains(membres[b]));
                } else if b == membres.len() {
                    assert(membres.contains(membres[a]));
                }
            }
        }
        assert(ids(l2) =~= ids(libres).drop_last());
        assert(ids(l2).no_duplicates()) by {
            assert forall|a: int, b: int|
                0 <= a < ids(l2).len() && 0 <= b < ids(l2).len() && a != b implies ids(l2)[a]
                != ids(l2)[b] by {
                assert(ids(libres)[a] != ids(libres)[b]);
            }
        }
        assert forall|j: int| 0 <= j < l2.len() implies !m2.contains((#[trigger] l2[j]).id) by {
            assert(!membres.contains(libres[j].id));
            assert(ids(libres)[j] != ids(libres)[libres.len() - 1]);
            if m2.contains(l2[j].id) {
                let a = choose|a: int| 0 <= a < m2.len() && m2[a] == l2[j].id;
                if a < membres.len() {
                    assert(membres.contains(membres[a]));
                }
            }
        }
        lemme_complete(m2, l2, taille);
        let r = complete(membres, libres, taille).1;
        assert(r =~= libres.take(r.len() as int)) by {
            assert(r == l2.take(r.len() as int));
        }
    } else {
        assert(libres =~= libres.take(libres.len() as int));
    }
}

/// The second step keeps the plan sound, moves free members into sub-groups
/// one for one, and leaves a member free only if every sub-group is full.
pub proof fn lemme_distribution(parts: Seq<Part>, libres: Seq<Candidat>, taille: nat)
    requires
        plan_sain(parts, libres, taille),
    ensures
        distribution(parts, libres, taille).parts.len() == parts.len(),
        forall|i: int|
            0 <= i < parts.len() ==> (#[trigger] distribution(parts, libres, taille).parts[i]).profil
                == parts[i].profil,
        forall|i: int|
            0 <= i < parts.len() ==> (#[trigger] distribution(
                parts,
                libres,
                taille,
            ).parts[i]).membres.no_duplicates(),
        forall|i: int|
            0 <= i < parts.len() ==> (#[trigger] distribution(
                parts,
                libres,
                taille,
            ).parts[i]).membres.len() <= taille,
        somme_tailles(distribution(parts, libres, taille).parts) + distribution(
            parts,
            libres,
            taille,
        ).reste.len() == somme_tailles(parts) + libres.len(),
        distribution(parts, libres, taille).reste == libres.take(
            distribution(parts, libres, taille).reste.len() as int,
        ),
        distribution(parts, libres, taille).reste.len() <= libres.len(),
        distribution(parts, libres, taille).reste.len() > 0 ==> forall|i: int|
            0 <= i < parts.len() ==> (#[trigger] distribution(
                parts,
                libres,
                taille,
            ).parts[i]).membres.len() == taille,
    decreases parts.len(),
{
    if parts.len() > 0 {
        let debut = parts.drop_last();
        assert(plan_sain(debut, libres, taille)) by {
            assert forall|i: int| 0 <= i < debut.len() implies (#[trigger] debut[i])
                == parts[i] by {}
        }
        lemme_distribution(debut, libres, taille);
        let avant = distribution(debut, libres, taille);
        let x = parts.last();
        assert(ids(avant.reste) =~= ids(libres).take(avant.reste.len() as int));
        assert(ids(avant.reste).no_duplicates()) by {
            assert forall|a: int, b: int|
                0 <= a < ids(avant.reste).len() && 0 <= b < ids(avant.reste).len() && a
                    != b implies ids(avant.reste)[a] != ids(avant.reste)[b] by {
                assert(ids(libres)[a] != ids(libres)[b]);
            }
        }
        assert forall|j: int| 0 <= j < avant.reste.len() implies !x.membres.contains(
            (#[trigger] avant.reste[j]).id,
        ) by {
            assert(avant.reste[j] == libres[j]);
            assert(!parts[parts.len() - 1].membres.contains(libres[j].id));
        }
        assert(x == parts[parts.len() - 1]);
        lemme_complete(x.membres, avant.reste, taille);
        let (m, r) = complete(x.membres, avant.reste, taille);
        let apres = distribution(parts, libres, taille);
        assert(apres.parts.drop_last() =~= avant.parts);
        assert(apres.reste =~= libres.take(apres.reste.len() as int));
        assert forall|i: int| 0 <= i < parts.len() implies (#[trigger] apres.parts[i]).profil
            == parts[i].profil by {
            if i < parts.len() - 1 {
                assert(apres.parts[i] == avant.parts[i]);
                assert(debut[i] == parts[i]);
            }
        }
        assert forall|i: int| 0 <= i < parts.len() implies (
        #[trigger] apres.parts[i]).membres.no_duplicates() && apres.parts[i].membres.len()
            <= taille by {
            if i < parts.len() - 1 {
                assert(apres.parts[i] == avant.parts[i]);
            }
        }
        if apres.reste.len() > 0 {
            assert forall|i: int| 0 <= i < parts.len() implies (
            #[trigger] apres.parts[i]).membres.len() == taille by {
                if i < parts.len() - 1 {
                    assert(apres.parts[i] == avant.parts[i]);
                }
            }
        }
    } else {
        assert(libres =~= libres.take(libres.len() as int));
    }
}

/// Sub-groups that are all of size `taille` hold `taille` members each.
pub proof fn lemme_somme_pleine(parts: Seq<Part>, taille: nat)
    requires
        forall|i: int| 0 <= i < parts.len() ==> (#[trigger] parts[i]).membres.len() == taille,
    ensures
        somme_tailles(parts) == parts.len() * taille,
    decreases parts.len(),
{
    if parts.len() > 0 {
        let debut = parts.drop_last();
        assert forall|i: int| 0 <= i < debut.len() implies (#[trigger] debut[i]).membres.len()
            == taille by {
            assert(debut[i] == parts[i]);
        }
        lemme_somme_pleine(debut, taille);
        assert(parts.last() == parts[parts.len() - 1]);
        assert(parts.len() * taille == debut.len() * taille + taille) by (nonlinear_arith)
            requires
                parts.len() == debut.len() + 1,
        ;
    } else {
        assert(parts.len() * taille == 0) by (nonlinear_arith)
            requires
                parts.len() == 0,
        ;
    }
}

/// `nb` sub-groups of the size they aim at have room for all `n` members.
pub proof fn lemme_taille_suffit(n: nat, nb: nat)
    requires
        nb > 0,
    ensures
        nb * taille_cible(n, nb) >= n,
{
    vstd::arithmetic::div_mod::lemma_fundamental_div_mod(n as int, nb as int);
    let q = (n / nb) as int;
    let r = (n % nb) as int;
    assert(n == nb * q + r);
    if r != 0 {
        assert(nb * (q + 1) == nb * q + nb) by (nonlinear_arith);
    }
}

/// A split of members with distinct identifiers into one sub-group or more
/// places every member: nobody is left free, no sub-group is larger than the
/// size aimed at, and the sub-groups hold as many members as there were.
pub proof fn lemme_repartition(cands: Seq<Candidat>, nb: nat)
    requires
        ids(cands).no_duplicates(),
        nb > 0,
    ensures
        repartition(cands, nb).reste.len() == 0,
        repartition(cands, nb).parts.len() == nb,
        somme_tailles(repartition(cands, nb).parts) == cands.len(),
        forall|i: int|
            0 <= i < nb ==> (#[trigger] repartition(cands, nb).parts[i]).membres.len()
                <= taille_cible(cands.len(), nb),
        forall|i: int|
            0 <= i < nb ==> (#[trigger] repartition(cands, nb).parts[i]).membres.no_duplicates(),
{
    let taille = taille_cible(cands.len(), nb);
    lemme_formation(cands, taille, nb);
    let f = formation(cands, taille, nb);
    lemme_distribution(f.parts, f.reste, taille);
    let d = repartition(cands, nb);
    if d.reste.len() > 0 {
        lemme_somme_pleine(d.parts, taille);
        lemme_taille_suffit(cands.len(), nb);
    }
}

/// Why a group could not be split.
#[derive(Debug, Clone, Copy, PartialEq, Eq, Structural)]
pub enum SousGroupeErr {
    /// The registry of members holds nobody under the identifier of this
    /// participant.
    MembreInexistant(MembreID),
    /// That many members found no place in any sub-group.
    CandidatsRestants(usize),
}

/// What the split looks at in the member `m` held under `id`.
pub open spec fn candidat_de(id: MembreID, m: Membre) -> Candidat {
    Candidat { id, naissance: m.naissance, interets: m.interets }
}

/// The members `participants` as the split sees them, each looked up in
/// `membres`.
pub open spec fn candidats(participants: Seq<MembreID>, membres: MembreReg) -> Seq<Candidat> {
    Seq::new(participants.len(), |i: int| candidat_de(participants[i], membres.item(participants[i])))
}

/// For each of `participants`, whether `membres` holds it.
pub open spec fn inscrits(participants: Seq<MembreID>, membres: MembreReg) -> Seq<bool> {
    Seq::new(participants.len(), |i: int| membres.contient(participants[i]))
}

/// The number that the sub-group at position `i` bears: positions count from
/// zero, numbers from one.
pub open spec fn numero(i: int) -> u32 {
    ((i + 1) % 0x1_0000_0000) as u32
}

/// Whether the sub-groups `sgs` are those that `parts` plans for the group
/// `gid`: the same profiles and members, numbered from one, without
/// instructor.
pub open spec fn conforme(sgs: Seq<SousGroupe>, parts: Seq<Part>, gid: GroupeID) -> bool {
    &&& sgs.len() == parts.len()
    &&& forall|i: int|
        0 <= i < sgs.len() ==> {
            &&& (#[trigger] sgs[i]).profil == parts[i].profil
            &&& sgs[i].participants.vue() == parts[i].membres
            &&& sgs[i].disc == numero(i)
            &&& sgs[i].groupe == gid
            &&& sgs[i].animateur is None
        }
}

/// The number of members in the sub-groups `sgs`, all told.
pub open spec fn effectif(sgs: Seq<SousGroupe>) -> nat
    decreases sgs.len(),
{
    if sgs.len() == 0 {
        0
    } else {
        effectif(sgs.drop_last()) + sgs.last().participants.vue().len()
    }
}

/// Sub-groups that follow a plan hold as many members as the plan says.
pub proof fn lemme_effectif(sgs: Seq<SousGroupe>, parts: Seq<Part>, gid: GroupeID)
    requires
        conforme(sgs, parts, gid),
    ensures
        effectif(sgs) == somme_tailles(parts),
    decreases sgs.len(),
{
    if sgs.len() > 0 {
        assert(conforme(sgs.drop_last(), parts.drop_last(), gid)) by {
            assert forall|i: int| 0 <= i < sgs.len() - 1 implies (#[trigger] sgs.drop_last()[i])
                == sgs[i] by {}
        }
        lemme_effectif(sgs.drop_last(), parts.drop_last(), gid);
        assert(sgs.last() == sgs[sgs.len() - 1]);
    }
}

/// The participants of a group as the split sees them, or the first of them
/// that the registry does not hold.
fn resout(participants: &Ensemble, membres: &MembreReg) -> (r: Result<Vec<Candidat>, MembreID>)
    requires
        membres.wf(),
    ensures
        participants.vue().no_duplicates(),
        match r {
            Ok(c) => premier_rang(inscrits(participants.vue(), *membres), false) is None && c@
                == candidats(participants.vue(), *membres) && ids(c@) == participants.vue(),
            Err(id) => match premier_rang(inscrits(participants.vue(), *membres), false) {
                Some(i) => id == participants.vue()[i],
                None => false,
            },
        },
{
    let mut c: Vec<Candidat> = Vec::new();
    let n = participants.len();
    let mut i: usize = 0;
    while i < n
        invariant
            membres.wf(),
            n == participants.vue().len(),
            participants.vue().no_duplicates(),
            i <= n,
            c@.len() == i,
            forall|j: int| 0 <= j < i ==> membres.contient(participants.vue()[j]),
            forall|j: int|
                0 <= j < i ==> #[trigger] c@[j] == candidat_de(
                    participants.vue()[j],
                    membres.item(participants.vue()[j]),
                ),
        decreases n - i,
    {
        let id = participants.get(i);
        match membres.get(id) {
            Ok(m) => {
                c.push(Candidat { id, naissance: m.naissance, interets: m.interets });
            },
            Err(_) => {
                proof {
                    let ins = inscrits(participants.vue(), *membres);
                    assert(est_premier_rang(ins, false, i as int));
                    lemme_premier_rang(ins, false, i as int);
                }
                return Err(id);
            },
        }
        i += 1;
    }
    proof {
        lemme_premier_rang_absent(inscrits(participants.vue(), *membres), false);
        assert(c@ =~= candidats(participants.vue(), *membres));
        assert(ids(c@) =~= participants.vue());
    }
    Ok(c)
}

/// The sub-group of plan `sg` filled up from the free members `libres`, which
/// shrink by those that join.
fn comble(sg: &SousGroupe, libres: &mut Vec<Candidat>, taille: usize) -> (r: SousGroupe)
    requires
        ids(old(libres)@).no_duplicates(),
        sg.participants.vue().len() <= taille,
        forall|j: int|
            0 <= j < old(libres)@.len() ==> !sg.participants.vue().contains(
                (#[trigger] old(libres)@[j]).id,
            ),
    ensures
        (r.participants.vue(), final(libres)@) == complete(
            sg.participants.vue(),
            old(libres)@,
            taille as nat,
        ),
        r.profil == sg.profil,
        r.disc == sg.disc,
        r.groupe == sg.groupe,
        r.animateur is None,
{
    let mut part = sg.participants.to_vec();
    proof {
        lemme_complete(sg.participants.vue(), libres@, taille as nat);
    }
    while part.len() < taille && libres.len() > 0
        invariant
            complete(part@, libres@, taille as nat) == complete(
                sg.participants.vue(),
                old(libres)@,
                taille as nat,
            ),
        decreases libres@.len(),
    {
        let c = libres.pop().unwrap();
        part.push(c.id);
    }
    SousGroupe {
        profil: sg.profil,
        disc: sg.disc,
        participants: Ensemble::depuis_vec(part),
        groupe: sg.groupe,
        animateur: None,
    }
}

impl Groupe {
    /// Splits the participants of the group into `nb_sg` sub-groups, which
    /// take the place of those that the group had.
    ///
    /// With `nb_sg` zero the group is left without sub-groups. Otherwise every
    /// participant is looked up in `membres`; if one is missing, the split is
    /// given up and the group stays exactly as it was. The sub-groups are
    /// formed one after the other from the members still free, then filled up
    /// in their order with those that no sub-group took; see [`repartition`].
    /// Every participant finds a place, no sub-group is larger than
    /// `participants / nb_sg` rounded up, and together the sub-groups hold as
    /// many members as the group has participants.
    pub fn mk_sous_groupes(&mut self, nb_sg: usize, membres: &MembreReg) -> (r: Result<
        (),
        SousGroupeErr,
    >)
        requires
            membres.wf(),
        ensures
            *final(self) == (Groupe { sous_groupe: final(self).sous_groupe, ..*old(self) }),
            r is Err <==> nb_sg > 0 && premier_rang(
                inscrits(old(self).participants.vue(), *membres),
                false,
            ) is Some,
            match r {
                Err(e) => {
                    &&& *final(self) == *old(self)
                    &&& e == SousGroupeErr::MembreInexistant(
                        old(self).participants.vue()[premier_rang(
                            inscrits(old(self).participants.vue(), *membres),
                            false,
                        )->0],
                    )
                },
                Ok(_) => if nb_sg == 0 {
                    final(self).sous_groupe@.len() == 0
                } else {
                    let cands = candidats(old(self).participants.vue(), *membres);
                    let plan = repartition(cands, nb_sg as nat);
                    &&& plan.reste.len() == 0
                    &&& conforme(final(self).sous_groupe@, plan.parts, old(self).id)
                    &&& final(self).sous_groupe@.len() == nb_sg
                    &&& forall|i: int|
                        0 <= i < nb_sg ==> (
                        #[trigger] final(self).sous_groupe@[i]).participants.vue().len()
                            <= taille_cible(old(self).participants.vue().len(), nb_sg as nat)
                    &&& effectif(final(self).sous_groupe@) == old(self).participants.vue().len()
                },
            },
    {
        if nb_sg == 0 {
            self.sous_groupe = Vec::new();
            return Ok(());
        }
        let mut libres = match resout(&self.participants, membres) {
            Ok(c) => c,
            Err(id) => {
                return Err(SousGroupeErr::MembreInexistant(id));
            },
        };
        let ghost cands = libres@;
        let n = libres.len();
        let taille: usize = if n % nb_sg == 0 {
            n / nb_sg
        } else {
            proof {
                // A remainder needs a divisor of two or more, so that the
                // quotient is at most half of `n`.
                vstd::arithmetic::div_mod::lemma_div_is_ordered_by_denominator(
                    n as int,
                    2,
                    nb_sg as int,
                );
            }
            n / nb_sg + 1
        };
        assert(taille == taille_cible(cands.len(), nb_sg as nat));
        let mut formes: Vec<SousGroupe> = Vec::new();
        let mut disc: usize = 0;
        while disc < nb_sg
            invariant
                disc <= nb_sg,
                ids(cands).no_duplicates(),
                formes@.len() == disc,
                libres@ == formation(cands, taille as nat, disc as nat).reste,
                conforme(formes@, formation(cands, taille as nat, disc as nat).parts, self.id),
            decreases nb_sg - disc,
        {
            proof {
                lemme_formation(cands, taille as nat, disc as nat);
            }
            let mut sg = mk_sous_groupe(&libres, taille);
            sg.groupe = self.id;
            let suivant: u64 = (disc + 1) as u64;
            let d: u32 = #[verifier::truncate]
            (suivant as u32);
            assert(d == (suivant % 0x1_0000_0000) as u32) by (bit_vector)
                requires
                    d == suivant as u32,
            ;
            sg.disc = d;
            libres = retire(&libres, &sg.participants);
            formes.push(sg);
            proof {
                let avant = formation(cands, taille as nat, disc as nat);
                let apres = formation(cands, taille as nat, (disc + 1) as nat);
                assert(apres.parts.drop_last() =~= avant.parts);
            }
            disc += 1;
        }
        let ghost plan1 = formation(cands, taille as nat, nb_sg as nat);
        proof {
            lemme_formation(cands, taille as nat, nb_sg as nat);
        }
        let mut finis: Vec<SousGroupe> = Vec::new();
        let mut k: usize = 0;
        while k < nb_sg
            invariant
                k <= nb_sg,
                formes@.len() == nb_sg,
                plan1.parts.len() == nb_sg,
                plan_sain(plan1.parts, plan1.reste, taille as nat),
                conforme(formes@, plan1.parts, self.id),
                finis@.len() == k,
                libres@ == distribution(plan1.parts.take(k as int), plan1.reste, taille as nat).reste,
                conforme(
                    finis@,
                    distribution(plan1.parts.take(k as int), plan1.reste, taille as nat).parts,
                    self.id,
                ),
            decreases nb_sg - k,
        {
            proof {
                let debut = plan1.parts.take(k as int);
                assert(plan_sain(debut, plan1.reste, taille as nat)) by {
                    assert forall|i: int| 0 <= i < debut.len() implies (#[trigger] debut[i])
                        == plan1.parts[i] by {}
                }
                lemme_distribution(debut, plan1.reste, taille as nat);
                let avant = distribution(debut, plan1.reste, taille as nat);
                assert(ids(avant.reste) =~= ids(plan1.reste).take(avant.reste.len() as int));
                assert(ids(avant.reste).no_duplicates()) by {
                    assert forall|a: int, b: int|
                        0 <= a < ids(avant.reste).len() && 0 <= b < ids(avant.reste).len() && a
                            != b implies ids(avant.reste)[a] != ids(avant.reste)[b] by {
                        assert(ids(plan1.reste)[a] != ids(plan1.reste)[b]);
                    }
                }
                assert forall|j: int| 0 <= j < avant.reste.len() implies !plan1.parts[k as int].membres.contains(
                    (#[trigger] avant.reste[j]).id,
                ) by {
                    assert(avant.reste[j] == plan1.reste[j]);
                }
                assert(plan1.parts.take(k + 1).drop_last() =~= debut);
                assert(plan1.parts.take(k + 1).last() == plan1.parts[k as int]);
            }
            let sg = comble(&formes[k], &mut libres, taille);
            finis.push(sg);
            proof {
                let avant = distribution(plan1.parts.take(k as int), plan1.reste, taille as nat);
                let apres = distribution(plan1.parts.take(k + 1), plan1.reste, taille as nat);
                assert(apres.parts.drop_last() =~= avant.parts);
            }
            k += 1;
        }
        proof {
            assert(plan1.parts.take(nb_sg as int) =~= plan1.parts);
            lemme_repartition(cands, nb_sg as nat);
            lemme_effectif(finis@, repartition(cands, nb_sg as nat).parts, self.id);
        }
        if libres.len() > 0 {
            return Err(SousGroupeErr::CandidatsRestants(libres.len()));
        }
        self.sous_groupe = finis;
        Ok(())
    }
}

/// The points of members taken apart: those of one member, and those of the
/// others.
pub proof fn lemme_points_sans(cands: Seq<Candidat>, i: int, it: Interet)
    requires
        0 <= i < cands.len(),
    ensures
        points(cands, it) == points(cands.remove(i), it) + points_candidat(cands[i], it),
    decreases cands.len(),
{
    if i == cands.len() - 1 {
        assert(cands.remove(i) =~= cands.drop_last());
    } else {
        lemme_points_sans(cands.drop_last(), i, it);
        assert(cands.remove(i).drop_last() =~= cands.drop_last().remove(i));
        assert(cands.remove(i).last() == cands.last());
    }
}

/// The points of an interest do not depend on the order of the members.
pub proof fn lemme_points_ordre(a: Seq<Candidat>, b: Seq<Candidat>, it: Interet)
    requires
        a.to_multiset() == b.to_multiset(),
    ensures
        points(a, it) == points(b, it),
    decreases a.len(),
{
    broadcast use vstd::seq_lib::group_to_multiset_ensures;

    assert(a.len() == b.len()) by {
        vstd::seq_lib::to_multiset_len(a);
        vstd::seq_lib::to_multiset_len(b);
    }
    if a.len() > 0 {
        let x = a.last();
        assert(a.to_multiset().contains(x)) by {
            assert(a.contains(x)) by {
                assert(a[a.len() - 1] == x);
            }
        }
        assert(b.contains(x));
        let i = choose|i: int| 0 <= i < b.len() && b[i] == x;
        assert(a.drop_last() =~= a.remove(a.len() - 1));
        assert(a.drop_last().to_multiset() =~= a.to_multiset().remove(x));
        assert(b.remove(i).to_multiset() =~= b.to_multiset().remove(x));
        lemme_points_ordre(a.drop_last(), b.remove(i), it);
        lemme_points_sans(b, i, it);
    }
}

/// The profile of members does not depend on the order in which they come:
/// the same members in another order have the same profile. In particular,
/// where an interest holds more than 40 % of the points and none declared
/// before it does, that interest is the profile, whatever the order.
pub proof fn loi_profil_ordre(a: Seq<Candidat>, b: Seq<Candidat>)
    requires
        a.to_multiset() == b.to_multiset(),
    ensures
        profil(a) == profil(b),
        forall|it: Interet| domine(a, it) == domine(b, it),
{
    lemme_points_ordre(a, b, Interet::Science);
    lemme_points_ordre(a, b, Interet::Sport);
    lemme_points_ordre(a, b, Interet::Art);
    lemme_points_ordre(a, b, Interet::Nature);
    assert forall|it: Interet| domine(a, it) == domine(b, it) by {
        lemme_points_ordre(a, b, it);
    }
}

/// An interest that holds more than 40 % of the points, while none declared
/// before it does, is the profile.
pub proof fn loi_profil_premier(cands: Seq<Candidat>, it: Interet)
    requires
        domine(cands, it),
        forall|j: int|
            0 <= j < Interet::tous().len() && Interet::tous()[j] != it && j < Interet::tous().index_of(
                it,
            ) ==> !domine(cands, #[trigger] Interet::tous()[j]),
    ensures
        profil(cands) == Some(it),
{
    let t = Interet::tous();
    assert(t[0] == Interet::Science && t[1] == Interet::Sport && t[2] == Interet::Art && t[3]
        == Interet::Nature);
    let k: int = match it {
        Interet::Science => 0,
        Interet::Sport => 1,
        Interet::Art => 2,
        Interet::Nature => 3,
    };
    assert(t[k] == it);
    let i = t.index_of(it);
    assert(0 <= i < t.len() && t[i] == it);
    assert(i == k);
}

/// What to do about the number of sub-groups of a group.
#[derive(Debug, Clone)]
pub enum NbSousGroupes {
    /// The number is known: this many sub-groups, or no split at all.
    Connu(Option<usize>),
    /// The number must be asked for, with this question.
    Demander(String),
}

/// `n / par`, rounded up.
pub open spec fn arrondi_haut(n: nat, par: nat) -> nat {
    if n % par == 0 {
        n / par
    } else {
        n / par + 1
    }
}

/// The number of members that a sub-group of the category named `cat`, in
/// lower case, takes; nothing for a category that has no rule.
pub open spec fn par_sous_groupe(cat: Option<Seq<char>>) -> Option<nat> {
    match cat {
        Some(c) => if c == "crocus"@ {
            Some(10)
        } else if c == "balaous"@ {
            Some(12)
        } else if c == "basaltes"@ {
            Some(15)
        } else if c == "12-15 ans"@ {
            Some(15)
        } else {
            None
        },
        None => None,
    }
}

/// The number of members that a sub-group of the category named `cat`, in
/// lower case, takes, if there is a rule for that category.
pub fn membres_par_sous_groupe(cat: &str) -> (r: Option<usize>)
    ensures
        match r {
            Some(n) => par_sous_groupe(Some(cat@)) == Some(n as nat),
            None => par_sous_groupe(Some(cat@)) is None,
        },
{
    if str_egal(cat, "crocus") {
        Some(10)
    } else if str_egal(cat, "balaous") {
        Some(12)
    } else if str_egal(cat, "basaltes") {
        Some(15)
    } else if str_egal(cat, "12-15 ans") {
        Some(15)
    } else {
        None
    }
}

/// The category of `grp` in lower case, if it has one.
pub open spec fn categorie_basse(grp: Groupe) -> Option<Seq<char>> {
    match grp.category {
        Some(c) => Some(minuscules(c@)),
        None => None,
    }
}

/// The question to ask when the number of sub-groups of `grp` is not known.
pub open spec fn question(grp: Groupe) -> Seq<char> {
    "Combien de sous groupe pour le groupe ["@ + grp.texte_court() + "]? "@ + (match grp.capacite {
        Some(cap) => "(capacité de "@ + decimal(cap as nat) + "): "@,
        None => Seq::empty(),
    })
}

fn divise_haut(n: usize, par: usize) -> (r: usize)
    requires
        par >= 2,
    ensures
        r == arrondi_haut(n as nat, par as nat),
{
    if n % par == 0 {
        n / par
    } else {
        proof {
            vstd::arithmetic::div_mod::lemma_div_is_ordered_by_denominator(
                n as int,
                2,
                par as int,
            );
        }
        n / par + 1
    }
}

/// The number of sub-groups that suits a group: none for a group without
/// places; for the categories that have a rule, the places shared out by ten,
/// twelve or fifteen, rounded up; for any other, a question to ask.
pub fn guess_nb_sous_groupes(grp: &Groupe) -> (r: NbSousGroupes)
    ensures
        match r {
            NbSousGroupes::Connu(None) => grp.places() == 0,
            NbSousGroupes::Connu(Some(n)) => {
                &&& grp.places() > 0
                &&& par_sous_groupe(categorie_basse(*grp)) matches Some(par)
                &&& n == arrondi_haut(grp.places(), par)
            },
            NbSousGroupes::Demander(q) => grp.places() > 0 && par_sous_groupe(
                categorie_basse(*grp),
            ) is None && q@ == question(*grp),
        },
{
    let i = grp.estime_cap();
    if i == 0 {
        return NbSousGroupes::Connu(None);
    }
    let par: Option<usize> = match &grp.category {
        Some(c) => {
            let cat = to_lowercase(c.as_str());
            membres_par_sous_groupe(cat.as_str())
        },
        None => None,
    };
    match par {
        Some(p) => NbSousGroupes::Connu(Some(divise_haut(i, p))),
        None => {
            let mut q = String::from_str("Combien de sous groupe pour le groupe [");
            q.append(grp.short_desc().as_str());
            q.append("]? ");
            if let Some(cap) = &grp.capacite {
                q.append("(capacité de ");
                ecrit_decimal(&mut q, *cap as u64);
                q.append("): ");
            }
            assert(q@ =~= question(*grp));
            NbSousGroupes::Demander(q)
        },
    }
}

/// One more for a key of weight zero.
pub open spec fn compte_leger() -> spec_fn(nat, CleTri) -> nat {
    |n: nat, k: CleTri|
        if k.0 == 0 {
            n + 1
        } else {
            n
        }
}

/// The number of keys of weight zero among `cles`.
pub open spec fn nb_legers(cles: Seq<CleTri>) -> nat {
    cles.fold_left(0nat, compte_leger())
}

/// The number of members of `cands` that hold the interest `p` dearest.
pub open spec fn nb_premiers(cands: Seq<Candidat>, p: Interet) -> nat
    decreases cands.len(),
{
    if cands.len() == 0 {
        0
    } else {
        nb_premiers(cands.drop_last(), p) + (if cands.last().interets@[0] == Some(p) {
            1nat
        } else {
            0nat
        })
    }
}

/// The keys of the members that may join a sub-group of profile `p`, in the
/// order of the members.
pub open spec fn cles_retenues(cands: Seq<Candidat>, p: Option<Interet>) -> Seq<CleTri> {
    cands.filter(filtre(p)).map_values(cles_tri(p))
}

/// Among the keys for a profile, those of weight zero are as many as the
/// members who hold the profile dearest.
pub proof fn lemme_legers(cands: Seq<Candidat>, p: Interet)
    ensures
        nb_legers(cles_retenues(cands, Some(p))) == nb_premiers(cands, p),
    decreases cands.len(),
{
    broadcast use vstd::seq_lib::group_filter_ensures;

    let pr = Some(p);
    if cands.len() == 0 {
        assert(cands.filter(filtre(pr)) =~= Seq::<Candidat>::empty());
        assert(cles_retenues(cands, pr) =~= Seq::<CleTri>::empty());
    } else {
        let avant = cands.drop_last();
        let c = cands.last();
        lemme_legers(avant, p);
        assert(cands =~= avant.push(c));
        avant.lemma_filter_push(c, filtre(pr));
        let fa = avant.filter(filtre(pr));
        if retenu(c, pr) {
            assert(cands.filter(filtre(pr)) == fa.push(c));
            assert(cles_retenues(cands, pr) =~= cles_retenues(avant, pr).push(cle_tri(c, pr)));
            assert(cles_retenues(cands, pr).drop_last() =~= cles_retenues(avant, pr));
        } else {
            assert(cands.filter(filtre(pr)) == fa);
        }
    }
}

/// No more keys of weight zero than keys.
pub proof fn lemme_legers_borne(cles: Seq<CleTri>)
    ensures
        nb_legers(cles) <= cles.len(),
    decreases cles.len(),
{
    if cles.len() > 0 {
        lemme_legers_borne(cles.drop_last());
    }
}

/// In sorted keys, the keys of weight zero all come before the first key of
/// another weight.
pub proof fn lemme_legers_devant(cles: Seq<CleTri>, i: int)
    requires
        vstd::relations::sorted_by(cles, ordre_cles()),
        forall|j: int| 0 <= j < cles.len() ==> (#[trigger] cles[j]).0 >= 0,
        0 <= i < cles.len(),
        cles[i].0 != 0,
    ensures
        nb_legers(cles) <= i,
    decreases cles.len(),
{
    let avant = cles.drop_last();
    if i == cles.len() - 1 {
        lemme_legers_borne(avant);
    } else {
        assert(ordre_cles()(cles[i], cles[cles.len() - 1]));
        assert(vstd::relations::sorted_by(avant, ordre_cles())) by {
            assert forall|a: int, b: int| 0 <= a < b < avant.len() implies #[trigger] ordre_cles()(
                avant[a],
                avant[b],
            ) by {
                assert(ordre_cles()(cles[a], cles[b]));
            }
        }
        lemme_legers_devant(avant, i);
    }
}

/// Where a profile is found and at least `n` members hold it dearest, the `n`
/// members taken for the sub-group all hold it dearest: those who hold it
/// second come in only when the others are all taken.
pub proof fn loi_premiers_choisis(cands: Seq<Candidat>, n: nat, p: Interet)
    requires
        profil(cands) == Some(p),
        nb_premiers(cands, p) >= n,
    ensures
        choisis(cands, n).len() == n,
        forall|i: int|
            0 <= i < n ==> exists|j: int|
                0 <= j < cands.len() && (#[trigger] cands[j]).id == #[trigger] choisis(cands, n)[i]
                    && cands[j].interets@[0] == Some(p),
{
    broadcast use vstd::seq_lib::group_filter_ensures;

    let pr = Some(p);
    let f = cands.filter(filtre(pr));
    let m = cles_retenues(cands, pr);
    let k = classement(cands, pr);
    lemme_ordre_total();
    m.lemma_sort_by_ensures(ordre_cles());
    assert(vstd::seq_lib::commutative_foldl(compte_leger()));
    vstd::seq_lib::lemma_fold_left_permutation(m, k, compte_leger(), 0nat);
    lemme_legers(cands, p);
    lemme_legers_borne(k);
    assert forall|j: int| 0 <= j < k.len() implies exists|a: int|
        0 <= a < f.len() && #[trigger] k[j] == cle_tri(#[trigger] f[a], pr) by {
        assert(k.contains(k[j]));
        assert(m.contains(k[j]));
        let a = choose|a: int| 0 <= a < m.len() && m[a] == k[j];
        assert(m[a] == cle_tri(f[a], pr));
    }
    assert forall|j: int| 0 <= j < k.len() implies (#[trigger] k[j]).0 >= 0 by {
        let a = choose|a: int| 0 <= a < f.len() && k[j] == cle_tri(f[a], pr);
    }
    assert forall|i: int| 0 <= i < n implies exists|j: int|
        0 <= j < cands.len() && (#[trigger] cands[j]).id == #[trigger] choisis(cands, n)[i]
            && cands[j].interets@[0] == Some(p) by {
        if k[i].0 != 0 {
            lemme_legers_devant(k, i);
        }
        let a = choose|a: int| 0 <= a < f.len() && k[i] == cle_tri(f[a], pr);
        assert(f.contains(f[a]));
        cands.lemma_filter_contains_rev(filtre(pr), f[a]);
        let j = choose|j: int| 0 <= j < cands.len() && cands[j] == f[a];
        assert(cands[j].id == choisis(cands, n)[i]);
    }
}

} // verus!
