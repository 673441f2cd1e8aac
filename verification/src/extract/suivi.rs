//! Who belongs where during a reading: beside the identifiers and keys of the
//! three registries, the participants of each group and the members of each
//! account, step by step.

use crate::extract::excel::{
    applique, avec_compte, etats, ids_ligne, lecture, lemme_lecture_groupe, lemme_pas_prefixe,
    lemme_pas_repete, ligne_appliquee, pas_applique, prefixes, reguliers, Etats, Pas,
};
use crate::extract::Feuille;
use crate::groupes::comptes::{CleCompte, Compte, CompteReg};
use crate::groupes::groupes::{CleGroupe, Groupe, GroupeReg};
use crate::groupes::membres::{CleMembre, Membre, MembreID, MembreReg};
use crate::groupes::registre::{
    lemme_rang_resolu, lemme_resolution_stable, premier_rang, rang_resolu, resolution, Etat,
};
use vstd::prelude::*;

verus! {

/// The members `s` with `x` signed up: added at the end, unless it is there.
pub open spec fn ajoute_un(s: Seq<MembreID>, x: MembreID) -> Seq<MembreID> {
    if s.contains(x) {
        s
    } else {
        s.push(x)
    }
}

/// The lists `m`, one for each record of `e`, once a record with key `k` is
/// merged into `e`: a new record comes with an empty list.
pub open spec fn etendu<K>(m: Seq<Seq<MembreID>>, e: Etat<K>, k: K) -> Seq<Seq<MembreID>> {
    if premier_rang(e.cles, k) is None {
        m.push(Seq::empty())
    } else {
        m
    }
}

/// The members of each account after a line is merged into the accounts `ec`
/// and the members `em`: the account of the line takes in its member.
pub open spec fn membres_apres(
    m: Seq<Seq<MembreID>>,
    ec: Etat<CleCompte>,
    em: Etat<CleMembre>,
    ligne: Option<(CleCompte, Option<CleMembre>)>,
) -> Seq<Seq<MembreID>> {
    match ligne {
        None => m,
        Some((kc, None)) => etendu(m, ec, kc),
        Some((kc, Some(km))) => {
            let m1 = etendu(m, ec, kc);
            let r = rang_resolu(ec, kc);
            m1.update(r, ajoute_un(m1[r], ids_ligne(ec, em, kc, km).1))
        },
    }
}

/// The participants of the group of a sheet after a line of it is merged
/// into the accounts `ec` and the members `em`: the member of the line signs
/// up.
pub open spec fn participants_apres(
    p: Seq<MembreID>,
    ec: Etat<CleCompte>,
    em: Etat<CleMembre>,
    ligne: Option<(CleCompte, Option<CleMembre>)>,
) -> Seq<MembreID> {
    match ligne {
        Some((kc, Some(km))) => ajoute_un(p, ids_ligne(ec, em, kc, km).1),
        _ => p,
    }
}

/// What a reading keeps track of: the identifiers and keys of the three
/// registries, the participants of each group and the members of each
/// account, both in the order of the registry, and the position of the group
/// whose sheet is being read (nothing in the registry before the first
/// sheet).
pub struct Suivi {
    pub e: Etats,
    pub participants: Seq<Seq<MembreID>>,
    pub membres: Seq<Seq<MembreID>>,
    pub courant: int,
}

/// What is kept track of after one step. A group is merged into the groups
/// and becomes the one whose sheet is read. A line is merged into the accounts
/// and the members; its member, if it describes one, is taken in by its
/// account and signs up for the group whose sheet is read.
#[verifier::opaque]
pub open spec fn pas_suivi(s: Suivi, p: Pas) -> Suivi {
    match p {
        Pas::Groupe(k) => Suivi {
            e: pas_applique(s.e, p),
            participants: etendu(s.participants, s.e.groupes, k),
            membres: s.membres,
            courant: rang_resolu(s.e.groupes, k),
        },
        Pas::Ligne(l) => Suivi {
            e: pas_applique(s.e, p),
            participants: if 0 <= s.courant < s.participants.len() {
                s.participants.update(
                    s.courant,
                    participants_apres(s.participants[s.courant], s.e.comptes, s.e.membres, l),
                )
            } else {
                s.participants
            },
            membres: membres_apres(s.membres, s.e.comptes, s.e.membres, l),
            courant: s.courant,
        },
    }
}

/// What is kept track of after the steps `pas`, one after the other.
pub open spec fn suit(s: Suivi, pas: Seq<Pas>) -> Suivi
    decreases pas.len(),
{
    if pas.len() == 0 {
        s
    } else {
        pas_suivi(suit(s, pas.drop_last()), pas.last())
    }
}

/// The participants of each group of the registry, in its order.
pub open spec fn participants_de(groupes: GroupeReg) -> Seq<Seq<MembreID>> {
    groupes.registre().items().map_values(|g: Groupe| g.participants.vue())
}

/// The members of each account of the registry, in its order.
pub open spec fn membres_de(comptes: CompteReg) -> Seq<Seq<MembreID>> {
    comptes.registre().items().map_values(|c: Compte| c.membres.vue())
}

/// What there is to keep track of in the three registries while the sheet of
/// the group at position `courant` is read.
pub open spec fn suivi_de(
    groupes: GroupeReg,
    comptes: CompteReg,
    membres: MembreReg,
    courant: int,
) -> Suivi {
    Suivi {
        e: etats(groupes, comptes, membres),
        participants: participants_de(groupes),
        membres: membres_de(comptes),
        courant,
    }
}

/// Whether the three registries are as `s` says: the identifiers and keys of
/// their records and the participants of each group; and, if `coherents`, the
/// members of each account, every account and every member standing under its
/// own identifier.
pub open spec fn suivent(
    groupes: GroupeReg,
    comptes: CompteReg,
    membres: MembreReg,
    s: Suivi,
    coherents: bool,
) -> bool {
    &&& etats(groupes, comptes, membres) == s.e
    &&& participants_de(groupes) == s.participants
    &&& coherents ==> membres_de(comptes) == s.membres && comptes.coherent()
        && membres.coherent()
}

/// Whether the registry `b` holds the groups of `a` at their places, each as
/// it was but for its participants.
pub open spec fn groupes_gardes(a: GroupeReg, b: GroupeReg) -> bool {
    &&& a.registre().items().len() <= b.registre().items().len()
    &&& forall|i: int|
        0 <= i < a.registre().items().len() ==> #[trigger] b.registre().items()[i] == (Groupe {
            participants: b.registre().items()[i].participants,
            ..a.registre().items()[i]
        })
}

/// Whether the registry `b` holds the accounts of `a` at their places, each as
/// it was but for its members.
pub open spec fn comptes_gardes(a: CompteReg, b: CompteReg) -> bool {
    &&& a.registre().items().len() <= b.registre().items().len()
    &&& forall|i: int|
        0 <= i < a.registre().items().len() ==> #[trigger] b.registre().items()[i] == (Compte {
            membres: b.registre().items()[i].membres,
            ..a.registre().items()[i]
        })
}

/// Whether the registry `b` holds the members of `a` at their places, each as
/// it was.
pub open spec fn membres_gardes(a: MembreReg, b: MembreReg) -> bool {
    &&& a.registre().items().len() <= b.registre().items().len()
    &&& forall|i: int|
        0 <= i < a.registre().items().len() ==> #[trigger] b.registre().items()[i]
            == a.registre().items()[i]
}

/// Whether the registries `g1`, `c1`, `m1` hold the records of `g0`, `c0`,
/// `m0` at their places: the members as they were, the groups but for their
/// participants and the accounts but for their members.
pub open spec fn gardes(
    g0: GroupeReg,
    c0: CompteReg,
    m0: MembreReg,
    g1: GroupeReg,
    c1: CompteReg,
    m1: MembreReg,
) -> bool {
    groupes_gardes(g0, g1) && comptes_gardes(c0, c1) && membres_gardes(m0, m1)
}

/// What is kept is kept for good.
pub proof fn lemme_gardes_suite(
    g0: GroupeReg,
    c0: CompteReg,
    m0: MembreReg,
    g1: GroupeReg,
    c1: CompteReg,
    m1: MembreReg,
    g2: GroupeReg,
    c2: CompteReg,
    m2: MembreReg,
)
    requires
        gardes(g0, c0, m0, g1, c1, m1),
        gardes(g1, c1, m1, g2, c2, m2),
    ensures
        gardes(g0, c0, m0, g2, c2, m2),
{
    let (ga, gb, gc) = (g0.registre().items(), g1.registre().items(), g2.registre().items());
    let (ca, cb, cc) = (c0.registre().items(), c1.registre().items(), c2.registre().items());
    let (ma, mb, mc) = (m0.registre().items(), m1.registre().items(), m2.registre().items());
    assert forall|i: int| 0 <= i < ga.len() implies #[trigger] gc[i] == (Groupe {
        participants: gc[i].participants,
        ..ga[i]
    }) by {
        assert(gb[i] == (Groupe { participants: gb[i].participants, ..ga[i] }));
    }
    assert forall|i: int| 0 <= i < ca.len() implies #[trigger] cc[i] == (Compte {
        membres: cc[i].membres,
        ..ca[i]
    }) by {
        assert(cb[i] == (Compte { membres: cb[i].membres, ..ca[i] }));
    }
    assert forall|i: int| 0 <= i < ma.len() implies #[trigger] mc[i] == ma[i] by {
        assert(mb[i] == ma[i]);
    }
}

/// The identifiers and keys that are kept track of are those of the merge.
pub proof fn lemme_suit_etats(s: Suivi, pas: Seq<Pas>)
    ensures
        suit(s, pas).e == applique(s.e, pas),
    decreases pas.len(),
{
    reveal(pas_suivi);
    if pas.len() > 0 {
        lemme_suit_etats(s, pas.drop_last());
    }
}

/// Steps in a row amount to the first ones, then the others.
pub proof fn lemme_suit_suite(s: Suivi, a: Seq<Pas>, b: Seq<Pas>)
    ensures
        suit(s, a + b) == suit(suit(s, a), b),
    decreases b.len(),
{
    if b.len() == 0 {
        assert(a + b =~= a);
    } else {
        lemme_suit_suite(s, a, b.drop_last());
        assert((a + b).drop_last() =~= a + b.drop_last());
        assert((a + b).last() == b.last());
    }
}

/// One step alone.
pub proof fn lemme_suit_un(s: Suivi, p: Pas)
    ensures
        suit(s, seq![p]) == pas_suivi(s, p),
{
    assert(seq![p].drop_last() =~= Seq::<Pas>::empty());
    assert(suit(s, Seq::<Pas>::empty()) == s);
}

/// Steps that begin with a group do not depend on the group whose sheet was
/// read before.
pub proof fn lemme_suit_courant(s: Suivi, c: int, pas: Seq<Pas>)
    requires
        pas.len() > 0,
        pas[0] is Groupe,
    ensures
        suit(Suivi { courant: c, ..s }, pas) == suit(s, pas),
    decreases pas.len(),
{
    reveal(pas_suivi);
    if pas.len() > 1 {
        assert(pas.drop_last()[0] == pas[0]);
        lemme_suit_courant(s, c, pas.drop_last());
    } else {
        assert(pas.drop_last() =~= Seq::<Pas>::empty());
        assert(suit(s, Seq::<Pas>::empty()) == s);
        assert(suit(Suivi { courant: c, ..s }, Seq::<Pas>::empty()) == (Suivi { courant: c, ..s }));
    }
}

/// What a line changes, part by part.
pub proof fn lemme_pas_ligne(s: Suivi, l: Option<(CleCompte, Option<CleMembre>)>)
    requires
        0 <= s.courant < s.participants.len(),
    ensures
        ({
            let t = pas_suivi(s, Pas::Ligne(l));
            &&& t.e == pas_applique(s.e, Pas::Ligne(l))
            &&& t.e.groupes == s.e.groupes
            &&& (t.e.comptes, t.e.membres) == ligne_appliquee(s.e.comptes, s.e.membres, l)
            &&& t.participants == s.participants.update(
                s.courant,
                participants_apres(s.participants[s.courant], s.e.comptes, s.e.membres, l),
            )
            &&& t.membres == membres_apres(s.membres, s.e.comptes, s.e.membres, l)
            &&& t.courant == s.courant
        }),
{
    reveal(pas_suivi);
    reveal(pas_applique);
}

/// What the group of a sheet changes, part by part.
pub proof fn lemme_pas_groupe(s: Suivi, k: CleGroupe)
    ensures
        ({
            let t = pas_suivi(s, Pas::Groupe(k));
            &&& t.e == pas_applique(s.e, Pas::Groupe(k))
            &&& t.e.groupes == resolution(s.e.groupes, Groupe::graine(k), k).0
            &&& t.e.comptes == s.e.comptes
            &&& t.e.membres == s.e.membres
            &&& t.participants == etendu(s.participants, s.e.groupes, k)
            &&& t.membres == s.membres
            &&& t.courant == rang_resolu(s.e.groupes, k)
        }),
{
    reveal(pas_suivi);
    reveal(pas_applique);
}

/// Records, participants and the group whose sheet is read do not depend on
/// the members that the accounts had.
pub proof fn lemme_suit_sans_membres(s: Suivi, m: Seq<Seq<MembreID>>, pas: Seq<Pas>)
    ensures
        suit((Suivi { membres: m, ..s }), pas).e == suit(s, pas).e,
        suit((Suivi { membres: m, ..s }), pas).participants == suit(s, pas).participants,
        suit((Suivi { membres: m, ..s }), pas).courant == suit(s, pas).courant,
    decreases pas.len(),
{
    reveal(pas_suivi);
    if pas.len() > 0 {
        lemme_suit_sans_membres(s, m, pas.drop_last());
    }
}

/// Whether what is kept track of hangs together: every identifier has its
/// key, every group its participants and every account its members, and the
/// group whose sheet is read, if there is one, is in the registry.
pub open spec fn sain(s: Suivi) -> bool {
    &&& reguliers(s.e)
    &&& s.participants.len() == s.e.groupes.ids.len()
    &&& s.membres.len() == s.e.comptes.ids.len()
    &&& -1 <= s.courant < s.participants.len()
}

/// Whether every list of `a` is found again in `b`, at its place and with all
/// its members.
pub open spec fn contenues(a: Seq<Seq<MembreID>>, b: Seq<Seq<MembreID>>) -> bool {
    &&& a.len() <= b.len()
    &&& forall|i: int, x: MembreID|
        0 <= i < a.len() && #[trigger] a[i].contains(x) ==> b[i].contains(x)
}

/// Whether `b` keeps all that `a` holds: the records at their places, the
/// participants of each group and the members of each account.
pub open spec fn garde(a: Suivi, b: Suivi) -> bool {
    &&& prefixes(a.e, b.e)
    &&& contenues(a.participants, b.participants)
    &&& contenues(a.membres, b.membres)
}

/// Who signs up is there afterwards, and so is whoever was there.
pub proof fn lemme_ajoute_un(s: Seq<MembreID>, x: MembreID)
    ensures
        ajoute_un(s, x).contains(x),
        forall|y: MembreID| s.contains(y) ==> ajoute_un(s, x).contains(y),
        s.contains(x) ==> ajoute_un(s, x) == s,
{
    if !s.contains(x) {
        assert(s.push(x)[s.len() as int] == x);
        assert forall|y: MembreID| s.contains(y) implies s.push(x).contains(y) by {
            let i = choose|i: int| 0 <= i < s.len() && s[i] == y;
            assert(s.push(x)[i] == y);
        }
    }
}

/// A line whose member signs up leaves the member with its account and with
/// the group whose sheet is read, and the account under its identifier.
pub proof fn lemme_pas_inscrit(s: Suivi, kc: CleCompte, km: CleMembre)
    requires
        sain(s),
    ensures
        ({
            let t = pas_suivi(s, Pas::Ligne(Some((kc, Some(km)))));
            let (cid, mid) = ids_ligne(s.e.comptes, s.e.membres, kc, km);
            let rc = rang_resolu(s.e.comptes, kc);
            &&& 0 <= rc < t.membres.len()
            &&& t.membres[rc].contains(mid)
            &&& t.e.comptes.ids[rc] == cid.0
            &&& 0 <= s.courant ==> t.participants[s.courant].contains(mid)
            &&& t.courant == s.courant
        }),
{
    reveal(pas_suivi);
    reveal(pas_applique);
    let (cid, mid) = ids_ligne(s.e.comptes, s.e.membres, kc, km);
    let ec1 = resolution(s.e.comptes, Compte::graine(kc), kc).0;
    lemme_rang_resolu(s.e.comptes, Compte::graine(kc), kc, ec1);
    let m1 = etendu(s.membres, s.e.comptes, kc);
    let rc = rang_resolu(s.e.comptes, kc);
    lemme_ajoute_un(m1[rc], mid);
    if 0 <= s.courant {
        lemme_ajoute_un(s.participants[s.courant], mid);
    }
}

/// A step keeps what hangs together so, and forgets nothing.
pub proof fn lemme_pas_garde(s: Suivi, p: Pas)
    requires
        sain(s),
    ensures
        sain(pas_suivi(s, p)),
        garde(s, pas_suivi(s, p)),
{
    reveal(pas_suivi);
    reveal(pas_applique);
    lemme_pas_prefixe(s.e, p);
    let t = pas_suivi(s, p);
    match p {
        Pas::Groupe(k) => {
            let eg1 = resolution(s.e.groupes, Groupe::graine(k), k).0;
            lemme_rang_resolu(s.e.groupes, Groupe::graine(k), k, eg1);
        },
        Pas::Ligne(None) => {},
        Pas::Ligne(Some((kc, None))) => {},
        Pas::Ligne(Some((kc, Some(km)))) => {
            let mid = ids_ligne(s.e.comptes, s.e.membres, kc, km).1;
            let ec1 = resolution(s.e.comptes, Compte::graine(kc), kc).0;
            lemme_rang_resolu(s.e.comptes, Compte::graine(kc), kc, ec1);
            let m1 = etendu(s.membres, s.e.comptes, kc);
            let rc = rang_resolu(s.e.comptes, kc);
            lemme_ajoute_un(m1[rc], mid);
            if 0 <= s.courant {
                lemme_ajoute_un(s.participants[s.courant], mid);
            }
        },
    }
    assert(contenues(s.participants, t.participants));
    assert(contenues(s.membres, t.membres));
}

/// What is kept is kept for good.
pub proof fn lemme_garde_suite(a: Suivi, b: Suivi, c: Suivi)
    requires
        garde(a, b),
        garde(b, c),
    ensures
        garde(a, c),
{
}

/// Steps keep what hangs together so, and forget nothing.
pub proof fn lemme_suit_garde(s: Suivi, pas: Seq<Pas>)
    requires
        sain(s),
    ensures
        sain(suit(s, pas)),
        garde(s, suit(s, pas)),
    decreases pas.len(),
{
    if pas.len() > 0 {
        let a = suit(s, pas.drop_last());
        lemme_suit_garde(s, pas.drop_last());
        lemme_pas_garde(a, pas.last());
        lemme_garde_suite(s, a, pas_suivi(a, pas.last()));
    }
}

/// Every line that describes a member leaves its mark: after the reading, the
/// member that line `j` resolved to is a member of the account that the line
/// resolved to, and a participant of the group whose sheet the line stands on.
pub proof fn loi_inscription(s: Suivi, pas: Seq<Pas>, j: int, kc: CleCompte, km: CleMembre)
    requires
        sain(s),
        0 <= j < pas.len(),
        pas[j] == Pas::Ligne(Some((kc, Some(km)))),
    ensures
        ({
            let a = suit(s, pas.take(j));
            let f = suit(s, pas);
            let (cid, mid) = ids_ligne(a.e.comptes, a.e.membres, kc, km);
            let rc = rang_resolu(a.e.comptes, kc);
            &&& 0 <= rc < f.membres.len()
            &&& f.e.comptes.ids[rc] == cid.0
            &&& f.membres[rc].contains(mid)
            &&& 0 <= a.courant ==> a.courant < f.participants.len()
                && f.participants[a.courant].contains(mid)
        }),
{
    let a = suit(s, pas.take(j));
    let b = suit(s, pas.take(j + 1));
    let f = suit(s, pas);
    assert(pas.take(j + 1).drop_last() =~= pas.take(j));
    assert(pas.take(j + 1).last() == pas[j]);
    assert(b == pas_suivi(a, pas[j]));
    lemme_suit_garde(s, pas.take(j));
    lemme_pas_inscrit(a, kc, km);
    lemme_pas_garde(a, pas[j]);
    lemme_suit_suite(s, pas.take(j + 1), pas.skip(j + 1));
    assert(pas.take(j + 1) + pas.skip(j + 1) =~= pas);
    lemme_suit_garde(b, pas.skip(j + 1));
    let (cid, mid) = ids_ligne(a.e.comptes, a.e.membres, kc, km);
    let rc = rang_resolu(a.e.comptes, kc);
    assert(b.membres[rc].contains(mid));
    assert(f.e.comptes.ids[rc] == b.e.comptes.ids[rc]);
}

/// A step that was taken on the way to `f` changes nothing when it is taken
/// again from `f`: every record is found where it stands, and whoever signs up
/// is there.
pub proof fn lemme_pas_relu(s: Suivi, p: Pas, f: Suivi, c: int)
    requires
        sain(s),
        garde(pas_suivi(s, p), f),
        p is Ligne ==> c == s.courant,
        f.participants.len() == f.e.groupes.ids.len(),
    ensures
        pas_suivi((Suivi { courant: c, ..f }), p) == (Suivi {
            courant: pas_suivi(s, p).courant,
            ..f
        }),
{
    reveal(pas_suivi);
    reveal(pas_applique);
    let t = pas_suivi(s, p);
    let g = Suivi { courant: c, ..f };
    lemme_pas_repete(s.e, p, f.e);
    lemme_pas_garde(s, p);
    match p {
        Pas::Groupe(k) => {
            lemme_rang_resolu(s.e.groupes, Groupe::graine(k), k, f.e.groupes);
        },
        Pas::Ligne(None) => {
            if 0 <= c < f.participants.len() {
                assert(f.participants.update(c, f.participants[c]) =~= f.participants);
            }
        },
        Pas::Ligne(Some((kc, None))) => {
            lemme_rang_resolu(s.e.comptes, Compte::graine(kc), kc, f.e.comptes);
            if 0 <= c < f.participants.len() {
                assert(f.participants.update(c, f.participants[c]) =~= f.participants);
            }
        },
        Pas::Ligne(Some((kc, Some(km)))) => {
            let (cid, mid) = ids_ligne(s.e.comptes, s.e.membres, kc, km);
            let k = avec_compte(km, cid.0);
            lemme_pas_inscrit(s, kc, km);
            lemme_rang_resolu(s.e.comptes, Compte::graine(kc), kc, f.e.comptes);
            lemme_resolution_stable(s.e.comptes, Compte::graine(kc), kc, f.e.comptes);
            lemme_resolution_stable(s.e.membres, Membre::graine(k), k, f.e.membres);
            let rc = rang_resolu(s.e.comptes, kc);
            assert(ids_ligne(f.e.comptes, f.e.membres, kc, km) == (cid, mid));
            assert(f.membres[rc].contains(mid));
            lemme_ajoute_un(f.membres[rc], mid);
            assert(f.membres.update(rc, f.membres[rc]) =~= f.membres);
            if 0 <= c < f.participants.len() {
                assert(f.participants[c].contains(mid));
                lemme_ajoute_un(f.participants[c], mid);
                assert(f.participants.update(c, f.participants[c]) =~= f.participants);
            }
        },
    }
}

/// The first `j` steps, taken again after all of them, change nothing but the
/// group whose sheet is read.
proof fn lemme_relecture_liens(s: Suivi, pas: Seq<Pas>, j: int)
    requires
        sain(s),
        1 <= j <= pas.len(),
        pas[0] is Groupe,
    ensures
        suit(suit(s, pas), pas.take(j)) == (Suivi {
            courant: suit(s, pas.take(j)).courant,
            ..suit(s, pas)
        }),
    decreases j,
{
    let f = suit(s, pas);
    let a = suit(s, pas.take(j - 1));
    let p = pas[j - 1];
    assert(pas.take(j).drop_last() =~= pas.take(j - 1));
    assert(pas.take(j).last() == p);
    lemme_suit_garde(s, pas.take(j - 1));
    lemme_suit_garde(s, pas);
    lemme_suit_suite(s, pas.take(j), pas.skip(j));
    assert(pas.take(j) + pas.skip(j) =~= pas);
    lemme_pas_garde(a, p);
    lemme_suit_garde(pas_suivi(a, p), pas.skip(j));
    if j == 1 {
        assert(pas.take(0) =~= Seq::<Pas>::empty());
        assert(suit(f, pas.take(0)) == f);
        assert(a == s);
        lemme_pas_relu(a, p, f, f.courant);
        assert((Suivi { courant: f.courant, ..f }) == f);
    } else {
        lemme_relecture_liens(s, pas, j - 1);
        lemme_pas_relu(a, p, f, a.courant);
    }
}

/// Reading the same sheets a second time leaves every group with the
/// participants and every account with the members that it had after the
/// first reading, and every record under its identifier.
pub proof fn loi_relecture_liens(s: Suivi, pas: Seq<Pas>)
    requires
        sain(s),
        pas.len() > 0 ==> pas[0] is Groupe,
    ensures
        suit(suit(s, pas), pas).e == suit(s, pas).e,
        suit(suit(s, pas), pas).participants == suit(s, pas).participants,
        suit(suit(s, pas), pas).membres == suit(s, pas).membres,
{
    if pas.len() > 0 {
        lemme_relecture_liens(s, pas, pas.len() as int);
        assert(pas.take(pas.len() as int) =~= pas);
    }
}

/// What there is to keep track of in sound registries hangs together.
pub proof fn lemme_suivi_sain(groupes: GroupeReg, comptes: CompteReg, membres: MembreReg)
    requires
        groupes.wf(),
        comptes.wf(),
        membres.wf(),
    ensures
        sain(suivi_de(groupes, comptes, membres, -1)),
{
}

/// Reading the same sheets a second time adds nobody anywhere. If the
/// registries `g1`, `c1`, `m1` are what a reading of `feuilles` leaves of
/// `g0`, `c0`, `m0`, and `g2`, `c2`, `m2` what a second reading of the same
/// sheets leaves of them, then every group has the same participants, every
/// account the same members and every record the same identifier and key
/// after the second reading as after the first.
pub proof fn loi_relecture_inscrits(
    g0: GroupeReg,
    c0: CompteReg,
    m0: MembreReg,
    g1: GroupeReg,
    c1: CompteReg,
    m1: MembreReg,
    g2: GroupeReg,
    c2: CompteReg,
    m2: MembreReg,
    feuilles: Seq<Feuille>,
    data_ln: int,
    ln_skip: int,
)
    requires
        g0.wf(),
        c0.wf(),
        m0.wf(),
        suivent(
            g1,
            c1,
            m1,
            suit(suivi_de(g0, c0, m0, -1), lecture(feuilles, data_ln, ln_skip)),
            true,
        ),
        suivent(
            g2,
            c2,
            m2,
            suit(suivi_de(g1, c1, m1, -1), lecture(feuilles, data_ln, ln_skip)),
            true,
        ),
    ensures
        participants_de(g2) == participants_de(g1),
        membres_de(c2) == membres_de(c1),
        etats(g2, c2, m2) == etats(g1, c1, m1),
{
    let pas = lecture(feuilles, data_ln, ln_skip);
    let s0 = suivi_de(g0, c0, m0, -1);
    let s1 = suit(s0, pas);
    lemme_suivi_sain(g0, c0, m0);
    lemme_lecture_groupe(feuilles, data_ln, ln_skip);
    assert(suivi_de(g1, c1, m1, -1) == (Suivi { courant: -1, ..s1 }));
    if pas.len() > 0 {
        lemme_suit_courant(s1, -1, pas);
        loi_relecture_liens(s0, pas);
    }
}

/// Whoever a line describes is signed up after the reading, whatever the
/// lines before it were like. If the registries `g1`, `c1`, `m1` are what the
/// steps `pas` leave of `g0`, `c0`, `m0`, and step `j` is a line that
/// describes the account `kc` and the member `km`, then the account stands
/// in `c1` under the identifier that the line resolved to and lists the
/// member, and the group whose sheet the line stands on lists it as a
/// participant.
pub proof fn loi_inscrits(
    g0: GroupeReg,
    c0: CompteReg,
    m0: MembreReg,
    g1: GroupeReg,
    c1: CompteReg,
    m1: MembreReg,
    pas: Seq<Pas>,
    j: int,
    kc: CleCompte,
    km: CleMembre,
)
    requires
        g0.wf(),
        c0.wf(),
        m0.wf(),
        suivent(g1, c1, m1, suit(suivi_de(g0, c0, m0, -1), pas), true),
        0 <= j < pas.len(),
        pas[j] == Pas::Ligne(Some((kc, Some(km)))),
    ensures
        ({
            let a = suit(suivi_de(g0, c0, m0, -1), pas.take(j));
            let (cid, mid) = ids_ligne(a.e.comptes, a.e.membres, kc, km);
            let rc = rang_resolu(a.e.comptes, kc);
            &&& 0 <= rc < c1.registre().items().len()
            &&& c1.registre().cles()[rc] == cid.0
            &&& c1.registre().items()[rc].membres.vue().contains(mid)
            &&& 0 <= a.courant ==> a.courant < g1.registre().items().len()
                && g1.registre().items()[a.courant].participants.vue().contains(mid)
        }),
{
    lemme_suivi_sain(g0, c0, m0);
    loi_inscription(suivi_de(g0, c0, m0, -1), pas, j, kc, km);
}

} // verus!
