//! Reading the sheet of the programme: one line for each group.

use crate::extract::excel::{
    cellule_a, colonne, entier_lu, into_int, lemme_erreurs_note, lit_texte, nb_erreurs, texte_a,
    titre_des_groupes, DataColConfig,
};
use crate::extract::{Cellule, ExtractError, Message, Plage, GROUPE_RE};
use crate::groupes::groupes::{categorie, CleGroupe, Groupe, GroupeID, GroupeReg};
use crate::groupes::registre::{
    importe, lemme_premier_rang_present, premier_rang, resolution, Etat,
};
use crate::motif::{captures, captures_de, groupe_de};
use crate::texte::{analyse_entier, texte_option};
use vstd::prelude::*;
use vstd::string::StringExecFns;

verus! {

/// In which column of the programme each piece of information stands, as far
/// as the sheet has a column for it.
#[derive(Debug, Clone, Copy, PartialEq, Eq, Structural, Hash)]
pub struct ProgLnConfig {
    pub programmation: Option<usize>,
    pub activite: Option<usize>,
    pub nom: Option<usize>,
    pub debut: Option<usize>,
    pub fin: Option<usize>,
    pub capacite: Option<usize>,
    pub age_min: Option<usize>,
    pub age_max: Option<usize>,
}

impl Default for ProgLnConfig {
    /// The columns of a programme as it usually comes.
    fn default() -> (c: Self)
        ensures
            c == (ProgLnConfig {
                programmation: Some(0),
                activite: Some(1),
                nom: Some(2),
                debut: Some(3),
                fin: Some(4),
                capacite: Some(11),
                age_min: Some(12),
                age_max: Some(15),
            }),
    {
        Self {
            programmation: Some(0),
            activite: Some(1),
            nom: Some(2),
            debut: Some(3),
            fin: Some(4),
            capacite: Some(11),
            age_min: Some(12),
            age_max: Some(15),
        }
    }
}

impl ProgLnConfig {
    /// The columns that the titles `cols` announce: each piece of information
    /// stands in the first column that bears its title.
    pub open spec fn lu(cols: Seq<Cellule>) -> ProgLnConfig {
        ProgLnConfig {
            programmation: colonne(cols, "Programmation"@),
            activite: colonne(cols, "Activité"@),
            nom: colonne(cols, "Groupe"@),
            debut: colonne(cols, "Début"@),
            fin: colonne(cols, "Fin"@),
            capacite: colonne(cols, "Nombre de place max"@),
            age_min: colonne(cols, "Restriction âge min."@),
            age_max: colonne(cols, "Restriction âge max."@),
        }
    }

    /// The columns that the line of titles `range` announces.
    pub fn guess(range: &Vec<Cellule>) -> (r: Self)
        ensures
            r == ProgLnConfig::lu(range@),
    {
        Self {
            programmation: Self::search(range, "Programmation"),
            activite: Self::search(range, "Activité"),
            nom: Self::search(range, "Groupe"),
            debut: Self::search(range, "Début"),
            fin: Self::search(range, "Fin"),
            capacite: Self::search(range, "Nombre de place max"),
            age_min: Self::search(range, "Restriction âge min."),
            age_max: Self::search(range, "Restriction âge max."),
        }
    }

    /// The first column of `cols` that holds the title `trgt`, if any does.
    pub fn search(cols: &Vec<Cellule>, trgt: &str) -> (r: Option<usize>)
        ensures
            r == colonne(cols@, trgt@),
    {
        DataColConfig::search(cols, trgt)
    }
}

/// What a line of the programme says of its group.
pub struct GroupeProg {
    pub cle: CleGroupe,
    pub age_min: Option<u32>,
    pub age_max: Option<u32>,
    pub capacite: Option<usize>,
}

/// The number of places that the cell `c` gives: the whole number in it, if
/// there is one and it is a size.
pub open spec fn capacite_lue(c: Cellule) -> Option<usize> {
    match entier_lu(c) {
        Some(n) => if 0 <= n <= usize::MAX {
            Some(n as usize)
        } else {
            None
        },
        None => None,
    }
}

/// What the line `ws` of the programme says of its group, or nothing if the
/// line names no group. A name of the usual form gives activity, site, week,
/// ages and, from the ages, the category.
#[verifier::opaque]
pub open spec fn groupe_prog_lu(ws: Seq<Cellule>, config: ProgLnConfig) -> Option<GroupeProg> {
    match texte_a(ws, config.nom) {
        None => None,
        Some(desc) => {
            let saison = texte_a(ws, config.programmation);
            let capacite = match config.capacite {
                Some(pos) => capacite_lue(cellule_a(ws, pos as int)),
                None => None,
            };
            match captures_de(GROUPE_RE@, desc) {
                None => Some(
                    GroupeProg {
                        cle: CleGroupe {
                            saison,
                            category: None,
                            discriminant: None,
                            semaine: None,
                            activite: None,
                            site: None,
                        },
                        age_min: None,
                        age_max: None,
                        capacite,
                    },
                ),
                Some(g) => match titre_des_groupes(g) {
                    None => None,
                    Some(t) => Some(
                        GroupeProg {
                            cle: CleGroupe {
                                saison,
                                category: Some(categorie(Some(t.age_min), Some(t.age_max))),
                                discriminant: None,
                                semaine: Some(t.semaine),
                                activite: Some(t.activite),
                                site: Some(t.site),
                            },
                            age_min: Some(t.age_min),
                            age_max: Some(t.age_max),
                            capacite,
                        },
                    ),
                },
            }
        },
    }
}

/// Reads the group that a line of the programme describes. Its identifier is
/// the number drawn from its key; it has no participant yet.
pub fn extract_group_info_from_prog(ws: &Vec<Cellule>, config: &ProgLnConfig) -> (r: Result<
    Groupe,
    ExtractError,
>)
    ensures
        match r {
            Ok(g) => {
                &&& groupe_prog_lu(ws@, *config) == Some(
                    GroupeProg {
                        cle: g.cle(),
                        age_min: g.age_min,
                        age_max: g.age_max,
                        capacite: g.capacite,
                    },
                )
                &&& g.id == GroupeID(Groupe::graine(g.cle()))
                &&& g.participants.vue().len() == 0
                &&& g.sous_groupe@.len() == 0
            },
            Err(e) => e is InvalidFormat && groupe_prog_lu(ws@, *config) is None,
        },
{
    proof {
        reveal(groupe_prog_lu);
    }
    let mut g = Groupe::default();
    let grp_desc = match lit_texte(ws, config.nom) {
        None => return Err(ExtractError::InvalidFormat),
        Some(d) => d,
    };
    if let Some(cap) = captures(GROUPE_RE, grp_desc.as_str()) {
        let (activite, site, semaine, mn, mx) = match (
            groupe_de(&cap, 1),
            groupe_de(&cap, 2),
            groupe_de(&cap, 5),
            groupe_de(&cap, 3),
            groupe_de(&cap, 4),
        ) {
            (Some(a), Some(b), Some(c), Some(d), Some(e)) => (a, b, c, d, e),
            _ => return Err(ExtractError::InvalidFormat),
        };
        let (grage_min, grage_max) = match (
            analyse_entier(mn, 0, 0xffff_ffff),
            analyse_entier(mx, 0, 0xffff_ffff),
        ) {
            (Some(a), Some(b)) => (a as u32, b as u32),
            _ => return Err(ExtractError::InvalidFormat),
        };
        g.activite = Some(String::from_str(activite));
        g.site = Some(String::from_str(site));
        g.semaine = Some(String::from_str(semaine));
        g.age_min = Some(grage_min);
        g.age_max = Some(grage_max);
        g.category = Some(Groupe::guess_category(g.age_min, g.age_max));
    }
    g.saison = lit_texte(ws, config.programmation);
    g.capacite = match config.capacite {
        Some(pos) => if pos < ws.len() {
            match into_int(&ws[pos]) {
                Some(n) => if n >= 0 && n as u64 <= usize::MAX as u64 {
                    Some(n as usize)
                } else {
                    None
                },
                None => None,
            }
        } else {
            None
        },
        None => None,
    };
    g.id = GroupeID(g.get_id_seed());
    Ok(g)
}

/// The number of places of a group once a line of the programme has been
/// merged: the number that the line gives, or else the one known before.
pub open spec fn capacite_apres(avant: Option<usize>, lue: Option<usize>) -> Option<usize> {
    match lue {
        None => avant,
        Some(c) => Some(c),
    }
}

/// The number of places of each group of the registry, in its order.
pub open spec fn capacites_de(reg: GroupeReg) -> Seq<Option<usize>> {
    reg.registre().items().map_values(|g: Groupe| g.capacite)
}

/// The numbers of places `caps` of the groups of `e` once a group with key `k`
/// and `lue` places is merged: a group that is there takes over the number
/// read, if there is one; a new group comes with what was read.
pub open spec fn capacites_apres(
    caps: Seq<Option<usize>>,
    e: Etat<CleGroupe>,
    k: CleGroupe,
    lue: Option<usize>,
) -> Seq<Option<usize>> {
    match premier_rang(e.cles, k) {
        Some(i) => caps.update(i, capacite_apres(caps[i], lue)),
        None => caps.push(lue),
    }
}

/// Merges the group `grp`, freshly read from the programme, into the registry.
/// A group that the registry holds already takes over the number of places
/// that the line gives, if it gives one.
pub fn importe_groupe_prog(reg: &mut GroupeReg, grp: Groupe) -> (gid: GroupeID)
    requires
        old(reg).wf(),
        old(reg).registre().cles().len() < 0x1_0000_0000,
    ensures
        final(reg).wf(),
        final(reg).contient(gid),
        final(reg).registre().cles().len() <= old(reg).registre().cles().len() + 1,
        final(reg).etat() == resolution(old(reg).etat(), grp.id.0, grp.cle()).0,
        gid.0 == resolution(old(reg).etat(), grp.id.0, grp.cle()).1,
        final(reg).item(gid).capacite == if old(reg).etat().cles.contains(grp.cle()) {
            capacite_apres(old(reg).item(gid).capacite, grp.capacite)
        } else {
            grp.capacite
        },
        capacites_de(*final(reg)) == capacites_apres(
            capacites_de(*old(reg)),
            old(reg).etat(),
            grp.cle(),
            grp.capacite,
        ),
{
    let cap = grp.capacite;
    let existe = reg.cherche_equivalent(&grp).is_some();
    proof {
        if old(reg).etat().cles.contains(grp.cle()) {
            lemme_premier_rang_present(old(reg).etat().cles, grp.cle());
        }
    }
    let gid = reg.resoudre(grp);
    if existe {
        let ghost e = reg.etat();
        let groupe = reg.get_mut(gid).unwrap();
        groupe.capacite = match cap {
            None => groupe.capacite,
            Some(cap) => Some(cap),
        };
        assert(reg.etat().cles =~= e.cles);
    }
    assert(capacites_de(*reg) =~= capacites_apres(
        capacites_de(*old(reg)),
        old(reg).etat(),
        grp.cle(),
        grp.capacite,
    ));
    gid
}

/// The groups that the lines of the programme `lignes` describe, up to, but
/// without, line `fin`: for each the number from which its identifier is drawn
/// and its key. The first line holds the titles.
pub open spec fn groupes_du_programme(lignes: Seq<Vec<Cellule>>, fin: int) -> Seq<
    (u32, CleGroupe),
>
    decreases fin,
{
    if fin <= 1 || fin > lignes.len() {
        Seq::empty()
    } else {
        let avant = groupes_du_programme(lignes, fin - 1);
        match groupe_prog_lu(lignes[fin - 1]@, ProgLnConfig::lu(lignes[0]@)) {
            Some(g) => avant.push((Groupe::graine(g.cle), g.cle)),
            None => avant,
        }
    }
}

/// The numbers of places of the groups once the lines of the programme
/// `lignes` up to, but without, line `fin` are merged into groups that go by
/// `e0` and have the numbers of places `caps0`.
pub open spec fn capacites_du_programme(
    caps0: Seq<Option<usize>>,
    e0: Etat<CleGroupe>,
    lignes: Seq<Vec<Cellule>>,
    fin: int,
) -> Seq<Option<usize>>
    decreases fin,
{
    if fin <= 1 || fin > lignes.len() {
        caps0
    } else {
        let avant = capacites_du_programme(caps0, e0, lignes, fin - 1);
        match groupe_prog_lu(lignes[fin - 1]@, ProgLnConfig::lu(lignes[0]@)) {
            Some(g) => capacites_apres(
                avant,
                importe(e0, groupes_du_programme(lignes, fin - 1)),
                g.cle,
                g.capacite,
            ),
            None => avant,
        }
    }
}

/// The group with key `k` in one line, "NONE" standing for a part that is not
/// known.
pub open spec fn ligne_cle(k: CleGroupe) -> Seq<char> {
    texte_option(k.saison) + ": "@ + texte_option(k.activite) + " | "@ + texte_option(k.site)
        + " | "@ + texte_option(k.category) + " | Sem. "@ + texte_option(k.semaine) + " - "@
        + texte_option(k.discriminant)
}

/// What the journal says of a group that is read: "LECTURE" and the group in
/// one line.
pub open spec fn annonce(k: CleGroupe) -> Seq<char> {
    "LECTURE "@ + ligne_cle(k)
}

/// The message that tells that `grp` is read.
pub(crate) fn annonce_groupe(grp: &Groupe) -> (m: Message)
    ensures
        m is Info,
        m.texte() == annonce(grp.cle()),
{
    let mut t = String::from_str("LECTURE ");
    t.append(grp.desc().as_str());
    assert(grp.texte() == ligne_cle(grp.cle()));
    Message::Info(t)
}

/// What the journal says of the programme `lignes` up to, but without, line
/// `fin`: the groups that are read, in the order of the lines.
pub open spec fn annonces(lignes: Seq<Vec<Cellule>>, fin: int) -> Seq<Seq<char>>
    decreases fin,
{
    if fin <= 1 || fin > lignes.len() {
        Seq::empty()
    } else {
        let avant = annonces(lignes, fin - 1);
        match groupe_prog_lu(lignes[fin - 1]@, ProgLnConfig::lu(lignes[0]@)) {
            Some(g) => avant.push(annonce(g.cle)),
            None => avant,
        }
    }
}

/// What each message of the journal says.
pub open spec fn textes(journal: Seq<Message>) -> Seq<Seq<char>> {
    journal.map_values(|m: Message| m.texte())
}

/// Merges the groups that the programme `ws` describes into the registry: one
/// group for each line behind the line of titles. A group that the registry
/// holds already, by its key, is not entered again. A line that names no group
/// is skipped. Gives the journal of what was read.
pub fn fill_groupe_reg_from_prog(ws: &Plage, reg: &mut GroupeReg) -> (journal: Vec<Message>)
    requires
        old(reg).wf(),
        old(reg).registre().cles().len() + ws.lignes().len() < 0x1_0000_0000,
    ensures
        final(reg).wf(),
        final(reg).etat() == importe(
            old(reg).etat(),
            groupes_du_programme(ws.lignes(), ws.lignes().len() as int),
        ),
        capacites_de(*final(reg)) == capacites_du_programme(
            capacites_de(*old(reg)),
            old(reg).etat(),
            ws.lignes(),
            ws.lignes().len() as int,
        ),
        textes(journal@) == annonces(ws.lignes(), ws.lignes().len() as int),
        nb_erreurs(journal@) == 0,
{
    let mut journal: Vec<Message> = Vec::new();
    let (h, _) = ws.get_size();
    assert(textes(journal@) =~= Seq::<Seq<char>>::empty());
    if h == 0 {
        return journal;
    }
    let config = ProgLnConfig::guess(ws.ligne(0));
    let mut i: usize = 1;
    while i < h
        invariant
            1 <= i <= h || (h == 1 && i == 1),
            h == ws.lignes().len(),
            h >= 1,
            config == ProgLnConfig::lu(ws.lignes()[0]@),
            reg.wf(),
            reg.registre().cles().len() + (h - i) < 0x1_0000_0000,
            reg.etat() == importe(old(reg).etat(), groupes_du_programme(ws.lignes(), i as int)),
            capacites_de(*reg) == capacites_du_programme(
                capacites_de(*old(reg)),
                old(reg).etat(),
                ws.lignes(),
                i as int,
            ),
            textes(journal@) == annonces(ws.lignes(), i as int),
            nb_erreurs(journal@) == 0,
        decreases h - i,
    {
        let row = ws.ligne(i);
        let ghost avant = groupes_du_programme(ws.lignes(), i as int);
        match extract_group_info_from_prog(row, &config) {
            Ok(grp) => {
                let ghost j0 = journal@;
                let m = annonce_groupe(&grp);
                proof {
                    lemme_erreurs_note(j0, m);
                    assert(textes(j0.push(m)) =~= textes(j0).push(annonce(grp.cle())));
                }
                journal.push(m);
                let ghost k = grp.cle();
                let _gid = importe_groupe_prog(reg, grp);
                proof {
                    let apres = groupes_du_programme(ws.lignes(), i + 1);
                    assert(apres == avant.push((Groupe::graine(k), k)));
                    assert(apres.drop_last() =~= avant);
                }
            },
            Err(_) => {},
        }
        i += 1;
    }
    journal
}

} // verus!
