//! Reading the sheets of attendance: one sheet for each group, one line for
//! each member.

use crate::data::adresse::Adresse;
use crate::data::email::Email;
use crate::data::cam::CAM;
use crate::data::tel::Tel;
use crate::data::{texte_erreur, BoolJustifie, Genre, Taille};
use crate::extract::Message;
use crate::groupes::fiche_sante::{
    ALL_ALIMENTAIRE, ALL_ANIMAUX, ALL_INSECTES, ALL_PENICILINE, MAL_ASTHME, MAL_DIABETE,
    MAL_EMOPHILIE, MAL_EPILEPSIE,
};
use crate::groupes::fiche_sante::{FicheSante, Medicaments};
use crate::groupes::membres::{lemme_vierge, Contact, Interet, Interets, Piscine, Quitte};
use crate::date::{date_valide, Date};
use crate::extract::{
    notes, Cellule, ExtractError, Plage, BOOL_W_COMMENT_DATA_RE, DATE_NAISSANCE_RE,
    FALSE_DATA_RE, GROUPE_PROG_RE, GROUPE_RE, TRUE_DATA_RE,
};
use crate::config::Config;
use crate::extract::prog::{annonce, annonce_groupe};
use crate::extract::Feuille;
use crate::groupes::comptes::{CleCompte, Compte, CompteID, CompteReg};
use crate::groupes::groupes::{categorie, CleGroupe, Groupe, GroupeID, GroupeReg};
use crate::groupes::membres::{CleMembre, Membre, MembreID, MembreReg};
use crate::groupes::registre::{
    lemme_resolution_prefixe, lemme_resolution_stable, prefixe, resolution, Etat,
};
use crate::groupes::registre::{
    lemme_premier_rang, lemme_premier_rang_absent, premier_rang, rang_resolu,
};
use crate::motif::{captures, captures_de, correspond, groupe, groupe_de, is_match, vue_groupes};
use crate::texte::{
    ajoute_items, analyse_entier, decimal_signe, ecrit_decimal_signe, entier_borne, items_nets,
    print_option, rogne, str_egal, texte_option, trim, vues,
};
use crate::extract::suivi::{
    ajoute_un, comptes_gardes, etendu, gardes, groupes_gardes, lemme_gardes_suite, lemme_pas_groupe,
    lemme_pas_ligne, membres_gardes, lemme_suit_courant, lemme_suit_etats,
    lemme_suit_sans_membres, lemme_suit_suite, lemme_suit_un, membres_apres, membres_de,
    participants_apres, participants_de, pas_suivi, suit, suivent, suivi_de, Suivi,
};
use vstd::prelude::*;
use vstd::string::StringExecFns;

verus! {

/// What a cell reads as text: a number as it is printed, a text without the
/// white space around it unless nothing is left, "true" or "false" for a
/// truth value, and nothing for an error or an empty cell.
pub open spec fn texte_lu(data: Cellule) -> Option<Seq<char>> {
    match data {
        Cellule::Int(i) => Some(decimal_signe(i as int)),
        Cellule::Float(f) => Some(f.texte@),
        Cellule::String(s) => if rogne(s@).len() == 0 {
            None
        } else {
            Some(rogne(s@))
        },
        Cellule::Bool(b) => Some(
            if b {
                "true"@
            } else {
                "false"@
            },
        ),
        Cellule::Error => None,
        Cellule::Empty => None,
    }
}

/// What an optional text holds.
pub open spec fn vue(o: Option<String>) -> Option<Seq<char>> {
    match o {
        Some(s) => Some(s@),
        None => None,
    }
}

/// Reads a cell as text.
pub fn into_string(data: &Cellule) -> (r: Option<String>)
    ensures
        vue(r) == texte_lu(*data),
{
    match data {
        Cellule::Int(i) => {
            let mut s = String::new();
            ecrit_decimal_signe(&mut s, *i);
            assert(s@ =~= decimal_signe(*i as int));
            Some(s)
        },
        Cellule::Float(f) => Some(f.texte.clone()),
        Cellule::String(s) => {
            let ss = trim(s.as_str());
            if ss.unicode_len() == 0 {
                None
            } else {
                Some(String::from_str(ss))
            }
        },
        Cellule::Bool(b) => Some(
            if *b {
                String::from_str("true")
            } else {
                String::from_str("false")
            },
        ),
        Cellule::Error => None,
        Cellule::Empty => None,
    }
}

/// What a cell reads as a whole number: a number itself, without its
/// fraction, the number that a text writes in decimal, one or zero for a truth
/// value, and nothing otherwise.
pub open spec fn entier_lu(data: Cellule) -> Option<int> {
    match data {
        Cellule::Int(i) => Some(i as int),
        Cellule::Float(f) => Some(f.tronque as int),
        Cellule::String(s) => entier_borne(s@, i64::MIN as int, i64::MAX as int),
        Cellule::Bool(b) => Some(
            if b {
                1int
            } else {
                0int
            },
        ),
        Cellule::Error => None,
        Cellule::Empty => None,
    }
}

/// Reads a cell as a whole number.
pub fn into_int(data: &Cellule) -> (r: Option<i64>)
    ensures
        match r {
            Some(v) => entier_lu(*data) == Some(v as int),
            None => entier_lu(*data) is None,
        },
{
    match data {
        Cellule::Int(i) => Some(*i),
        Cellule::Float(f) => Some(f.tronque),
        Cellule::String(s) => analyse_entier(s.as_str(), i64::MIN, i64::MAX),
        Cellule::Bool(b) => Some(
            if *b {
                1
            } else {
                0
            },
        ),
        Cellule::Error => None,
        Cellule::Empty => None,
    }
}

/// What a cell reads as a truth value: a number says whether it is zero, a
/// text whether it stands for "yes" or for "no", and an error or an empty cell
/// says nothing.
pub open spec fn bool_lu(data: Cellule) -> Option<bool> {
    match data {
        Cellule::Int(i) => Some(i == 0),
        Cellule::Float(f) => Some(f.nul),
        Cellule::String(s) => if correspond(TRUE_DATA_RE@, s@) {
            Some(true)
        } else if correspond(FALSE_DATA_RE@, s@) {
            Some(false)
        } else {
            None
        },
        Cellule::Bool(b) => Some(b),
        Cellule::Error => None,
        Cellule::Empty => None,
    }
}

/// Reads a cell as a truth value.
pub fn into_bool(data: &Cellule) -> (r: Option<bool>)
    ensures
        r == bool_lu(*data),
{
    match data {
        Cellule::Int(i) => Some(*i == 0),
        Cellule::Float(f) => Some(f.nul),
        Cellule::String(s) => {
            if is_match(TRUE_DATA_RE, s.as_str()) {
                Some(true)
            } else if is_match(FALSE_DATA_RE, s.as_str()) {
                Some(false)
            } else {
                None
            }
        },
        Cellule::Bool(b) => Some(*b),
        Cellule::Error => None,
        Cellule::Empty => None,
    }
}

/// What the groups found in a cell mean as an answer with a remark: the
/// answer is "yes" if group 1 stands for it, the remark is group 3 without the
/// white space around it, unless nothing is left. Without group 1 there is no
/// answer.
pub open spec fn reponse_des_groupes(groupes: Seq<Option<Seq<char>>>) -> Option<
    (bool, Option<Seq<char>>),
> {
    match groupe(groupes, 1) {
        None => None,
        Some(b) => Some(
            (
                correspond(TRUE_DATA_RE@, b),
                match groupe(groupes, 3) {
                    None => None,
                    Some(c) => if rogne(c).len() == 0 {
                        None
                    } else {
                        Some(rogne(c))
                    },
                },
            ),
        ),
    }
}

/// What a cell reads as an answer with a remark: only a text that starts with
/// a "yes" or a "no" reads as one.
pub open spec fn reponse_lue(data: Cellule) -> Option<(bool, Option<Seq<char>>)> {
    match data {
        Cellule::String(s) => match captures_de(BOOL_W_COMMENT_DATA_RE@, s@) {
            Some(g) => reponse_des_groupes(g),
            None => None,
        },
        _ => None,
    }
}

/// What an answer with a remark holds.
pub open spec fn vue_reponse(r: Option<(bool, Option<String>)>) -> Option<
    (bool, Option<Seq<char>>),
> {
    match r {
        Some((b, c)) => Some((b, vue(c))),
        None => None,
    }
}

/// The answer and the remark that the groups found in a cell stand for.
pub fn reponse_depuis_groupes(groupes: &Vec<Option<String>>) -> (r: Option<
    (bool, Option<String>),
>)
    ensures
        vue_reponse(r) == reponse_des_groupes(vue_groupes(groupes@)),
{
    match groupe_de(groupes, 1) {
        None => None,
        Some(bool_str) => {
            let comment = match groupe_de(groupes, 3) {
                None => None,
                Some(c) => {
                    let t = trim(c);
                    if t.unicode_len() == 0 {
                        None
                    } else {
                        Some(String::from_str(t))
                    }
                },
            };
            let bool_val = is_match(TRUE_DATA_RE, bool_str);
            Some((bool_val, comment))
        },
    }
}

/// Reads a cell as an answer with a remark.
pub fn into_bool_with_comment(data: &Cellule) -> (r: Option<(bool, Option<String>)>)
    ensures
        vue_reponse(r) == reponse_lue(*data),
{
    if let Cellule::String(s) = data {
        match captures(BOOL_W_COMMENT_DATA_RE, s.as_str()) {
            Some(cap) => reponse_depuis_groupes(&cap),
            None => None,
        }
    } else {
        None
    }
}

/// Whether the cell `c` holds the title `titre`, give or take the white space
/// around it.
pub open spec fn est_titre(c: Cellule, titre: Seq<char>) -> bool {
    match c {
        Cellule::String(s) => rogne(s@) == titre,
        _ => false,
    }
}

/// For each cell of `cols`, whether it holds the title `titre`.
pub open spec fn titres(cols: Seq<Cellule>, titre: Seq<char>) -> Seq<bool> {
    cols.map_values(|c: Cellule| est_titre(c, titre))
}

/// The first column of `cols` that holds the title `titre`, if any does.
pub open spec fn colonne(cols: Seq<Cellule>, titre: Seq<char>) -> Option<usize> {
    match premier_rang(titres(cols, titre), true) {
        Some(i) => Some(i as usize),
        None => None,
    }
}

/// The line of titles of the rectangle `lignes`: line `ln`, or no title at
/// all if the rectangle does not reach that far.
pub open spec fn ligne_titres(lignes: Seq<Vec<Cellule>>, ln: int) -> Seq<Cellule> {
    if 0 <= ln < lignes.len() {
        lignes[ln]@
    } else {
        Seq::empty()
    }
}

/// In which column of a sheet each piece of information stands, as far as the
/// sheet has a column for it.
#[derive(Debug, Clone, Copy, PartialEq, Eq, Structural)]
pub struct DataColConfig {
    pub nom: Option<usize>,
    pub prenom: Option<usize>,
    pub genre: Option<usize>,
    pub naissance: Option<usize>,
    pub mandataire: Option<usize>,
    pub courriel: Option<usize>,
    pub tel: Option<usize>,
    pub adresse: Option<usize>,
    pub accompagnement: Option<usize>,
    pub cam: Option<usize>,
    pub auth_soins: Option<usize>,
    pub prob_comportement: Option<usize>,
    pub prise_med: Option<usize>,
    pub med_acetaminophene: Option<usize>,
    pub med_antibio: Option<usize>,
    pub med_antiinfl: Option<usize>,
    pub med_ibu: Option<usize>,
    pub med_sirop_toux: Option<usize>,
    pub med_antieme: Option<usize>,
    pub mal_asthme: Option<usize>,
    pub mal_diabete: Option<usize>,
    pub mal_emo: Option<usize>,
    pub mal_epi: Option<usize>,
    pub mal_autre: Option<usize>,
    pub all_alim: Option<usize>,
    pub all_anim: Option<usize>,
    pub all_insecte: Option<usize>,
    pub all_peni: Option<usize>,
    pub all_autre: Option<usize>,
    pub contact_1_nom: Option<usize>,
    pub contact_1_tel: Option<usize>,
    pub contact_1_lien: Option<usize>,
    pub contact_2_nom: Option<usize>,
    pub contact_2_tel: Option<usize>,
    pub contact_2_lien: Option<usize>,
    pub quit_parent: Option<usize>,
    pub quit_seul: Option<usize>,
    pub quit_acceuil: Option<usize>,
    pub quit_autre: Option<usize>,
    pub mdp: Option<usize>,
    pub auth_partage_sauveteur: Option<usize>,
    pub vfi: Option<usize>,
    pub tete_sous_eau: Option<usize>,
    pub taille: Option<usize>,
    pub interet_1: Option<usize>,
    pub interet_2: Option<usize>,
    pub interet_3: Option<usize>,
    pub interet_4: Option<usize>,
    pub auth_photo: Option<usize>,
    pub commentaire: Option<usize>,
}

impl DataColConfig {
    /// The columns that the titles `cols` announce: each piece of information
    /// stands in the first column that bears its title.
    pub open spec fn lu(cols: Seq<Cellule>) -> DataColConfig {
        DataColConfig {
            nom: colonne(cols, "Nom"@),
            prenom: colonne(cols, "Prénom"@),
            genre: colonne(cols, "Genre"@),
            naissance: colonne(cols, "Date de naissance"@),
            mandataire: colonne(cols, "Mandataire du compte"@),
            courriel: colonne(cols, "Courriel"@),
            tel: match colonne(cols, "Principal"@) {
                Some(c) => Some(c),
                None => colonne(cols, "Numéro de téléphone principal"@),
            },
            adresse: match colonne(cols, "Adresse princ."@) {
                Some(c) => Some(c),
                None => colonne(cols, "Adresse principale"@),
            },
            accompagnement: colonne(cols, "Accompagnement"@),
            cam: colonne(cols, "assurance maladie"@),
            auth_soins: colonne(cols, "Autorisation de soigner"@),
            prob_comportement: colonne(cols, "Problèmes de comportement?"@),
            prise_med: colonne(cols, "Prise de Médicament"@),
            med_acetaminophene: colonne(cols, "Med Acétaminophène"@),
            med_antibio: colonne(cols, "Med Antibiotique"@),
            med_antiinfl: colonne(cols, "Med Anti-Inflamatoires"@),
            med_ibu: colonne(cols, "Med Ibuprophène"@),
            med_sirop_toux: colonne(cols, "Med Sirop Toux"@),
            med_antieme: colonne(cols, "Med Antiémétique"@),
            mal_asthme: colonne(cols, "MC Asthme"@),
            mal_diabete: colonne(cols, "MC Diabète"@),
            mal_emo: colonne(cols, "MC Émophilie"@),
            mal_epi: colonne(cols, "MC Épilépsie"@),
            mal_autre: colonne(cols, "MC Autre"@),
            all_alim: colonne(cols, "Allergie Alimentaire"@),
            all_anim: colonne(cols, "Allergie Animaux"@),
            all_insecte: colonne(cols, "Allergie Insecte"@),
            all_peni: colonne(cols, "Allergie Pénicilline"@),
            all_autre: colonne(cols, "Allergie Autre"@),
            contact_1_nom: colonne(cols, "contact d'urgence - Nom"@),
            contact_1_tel: colonne(cols, "contact d'urgence - Téléphone"@),
            contact_1_lien: colonne(cols, "contact d'urgence - Lien de parenté"@),
            contact_2_nom: colonne(cols, "Contact Urgence 2 - Nom"@),
            contact_2_tel: colonne(cols, "Contact Urgence 2 - Téléphone"@),
            contact_2_lien: colonne(cols, "Contact Urgence 2 - Lien de parenté"@),
            quit_parent: colonne(cols, "Quitte Parent"@),
            quit_seul: colonne(cols, "Quitte Seul"@),
            quit_acceuil: colonne(cols, "Quitte Service d'accueil"@),
            quit_autre: colonne(cols, "Quitte Autre"@),
            mdp: colonne(cols, "Mdp"@),
            auth_partage_sauveteur: colonne(cols, "Autorisation Partage aux Sauveteurs"@),
            vfi: colonne(cols, "VFI"@),
            tete_sous_eau: colonne(cols, "Tête Sous l'Eau"@),
            taille: colonne(cols, "Taille"@),
            interet_1: colonne(cols, "Interet_1"@),
            interet_2: colonne(cols, "Interet_2"@),
            interet_3: colonne(cols, "Interet_3"@),
            interet_4: colonne(cols, "Interet_4"@),
            auth_photo: colonne(cols, "Autorisation Photo"@),
            commentaire: colonne(cols, "Commentaires"@),
        }
    }

    /// The columns that line `ln` of the rectangle `rng` announces.
    pub fn new(rng: &Plage, ln: usize) -> (r: Self)
        ensures
            r == DataColConfig::lu(ligne_titres(rng.lignes(), ln as int)),
    {
        let (h, _) = rng.get_size();
        let vide: Vec<Cellule> = Vec::new();
        let cols: &Vec<Cellule> = if ln < h {
            rng.ligne(ln)
        } else {
            &vide
        };
        assert(cols@ =~= ligne_titres(rng.lignes(), ln as int));
        DataColConfig {
            nom: DataColConfig::search(cols, "Nom"),
            prenom: DataColConfig::search(cols, "Prénom"),
            genre: DataColConfig::search(cols, "Genre"),
            naissance: DataColConfig::search(cols, "Date de naissance"),
            mandataire: DataColConfig::search(cols, "Mandataire du compte"),
            courriel: DataColConfig::search(cols, "Courriel"),
            tel: match DataColConfig::search(cols, "Principal") {
                Some(c) => Some(c),
                None => DataColConfig::search(cols, "Numéro de téléphone principal"),
            },
            adresse: match DataColConfig::search(cols, "Adresse princ.") {
                Some(c) => Some(c),
                None => DataColConfig::search(cols, "Adresse principale"),
            },
            accompagnement: DataColConfig::search(cols, "Accompagnement"),
            cam: DataColConfig::search(cols, "assurance maladie"),
            auth_soins: DataColConfig::search(cols, "Autorisation de soigner"),
            prob_comportement: DataColConfig::search(cols, "Problèmes de comportement?"),
            prise_med: DataColConfig::search(cols, "Prise de Médicament"),
            med_acetaminophene: DataColConfig::search(cols, "Med Acétaminophène"),
            med_antibio: DataColConfig::search(cols, "Med Antibiotique"),
            med_antiinfl: DataColConfig::search(cols, "Med Anti-Inflamatoires"),
            med_ibu: DataColConfig::search(cols, "Med Ibuprophène"),
            med_sirop_toux: DataColConfig::search(cols, "Med Sirop Toux"),
            med_antieme: DataColConfig::search(cols, "Med Antiémétique"),
            mal_asthme: DataColConfig::search(cols, "MC Asthme"),
            mal_diabete: DataColConfig::search(cols, "MC Diabète"),
            mal_emo: DataColConfig::search(cols, "MC Émophilie"),
            mal_epi: DataColConfig::search(cols, "MC Épilépsie"),
            mal_autre: DataColConfig::search(cols, "MC Autre"),
            all_alim: DataColConfig::search(cols, "Allergie Alimentaire"),
            all_anim: DataColConfig::search(cols, "Allergie Animaux"),
            all_insecte: DataColConfig::search(cols, "Allergie Insecte"),
            all_peni: DataColConfig::search(cols, "Allergie Pénicilline"),
            all_autre: DataColConfig::search(cols, "Allergie Autre"),
            contact_1_nom: DataColConfig::search(cols, "contact d'urgence - Nom"),
            contact_1_tel: DataColConfig::search(cols, "contact d'urgence - Téléphone"),
            contact_1_lien: DataColConfig::search(cols, "contact d'urgence - Lien de parenté"),
            contact_2_nom: DataColConfig::search(cols, "Contact Urgence 2 - Nom"),
            contact_2_tel: DataColConfig::search(cols, "Contact Urgence 2 - Téléphone"),
            contact_2_lien: DataColConfig::search(cols, "Contact Urgence 2 - Lien de parenté"),
            quit_parent: DataColConfig::search(cols, "Quitte Parent"),
            quit_seul: DataColConfig::search(cols, "Quitte Seul"),
            quit_acceuil: DataColConfig::search(cols, "Quitte Service d'accueil"),
            quit_autre: DataColConfig::search(cols, "Quitte Autre"),
            mdp: DataColConfig::search(cols, "Mdp"),
            auth_partage_sauveteur: DataColConfig::search(cols, "Autorisation Partage aux Sauveteurs"),
            vfi: DataColConfig::search(cols, "VFI"),
            tete_sous_eau: DataColConfig::search(cols, "Tête Sous l'Eau"),
            taille: DataColConfig::search(cols, "Taille"),
            interet_1: DataColConfig::search(cols, "Interet_1"),
            interet_2: DataColConfig::search(cols, "Interet_2"),
            interet_3: DataColConfig::search(cols, "Interet_3"),
            interet_4: DataColConfig::search(cols, "Interet_4"),
            auth_photo: DataColConfig::search(cols, "Autorisation Photo"),
            commentaire: DataColConfig::search(cols, "Commentaires"),
        }
    }

    /// The first column of `cols` that holds the title `trgt`, if any does.
    pub fn search(cols: &Vec<Cellule>, trgt: &str) -> (r: Option<usize>)
        ensures
            r == colonne(cols@, trgt@),
    {
        let mut n: usize = 0;
        while n < cols.len()
            invariant
                n <= cols@.len(),
                forall|j: int| 0 <= j < n ==> !titres(cols@, trgt@)[j],
            decreases cols@.len() - n,
        {
            if let Cellule::String(s) = &cols[n] {
                if str_egal(trim(s.as_str()), trgt) {
                    proof {
                        lemme_premier_rang(titres(cols@, trgt@), true, n as int);
                    }
                    return Some(n);
                }
            }
            n += 1;
        }
        proof {
            lemme_premier_rang_absent(titres(cols@, trgt@), true);
        }
        None
    }
}

/// The cell in column `col` of the line `ln`; a line that does not reach that
/// far has an empty cell there.
pub open spec fn cellule_a(ln: Seq<Cellule>, col: int) -> Cellule {
    if 0 <= col < ln.len() {
        ln[col]
    } else {
        Cellule::Empty
    }
}

/// What the cell in column `col` of the line `ln` reads as text.
pub open spec fn texte_a(ln: Seq<Cellule>, col: Option<usize>) -> Option<Seq<char>> {
    match col {
        Some(c) => texte_lu(cellule_a(ln, c as int)),
        None => None,
    }
}

/// What the cell in column `col` of the line `ln` reads as a truth value.
pub open spec fn bool_a(ln: Seq<Cellule>, col: Option<usize>) -> Option<bool> {
    match col {
        Some(c) => bool_lu(cellule_a(ln, c as int)),
        None => None,
    }
}

/// What the cell in column `col` of the line `ln` reads as an answer with a
/// remark.
pub open spec fn reponse_a(ln: Seq<Cellule>, col: Option<usize>) -> Option<
    (bool, Option<Seq<char>>),
> {
    match col {
        Some(c) => reponse_lue(cellule_a(ln, c as int)),
        None => None,
    }
}

pub(crate) fn lit_texte(ln: &Vec<Cellule>, col: Option<usize>) -> (r: Option<String>)
    ensures
        vue(r) == texte_a(ln@, col),
{
    match col {
        Some(c) => if c < ln.len() {
            into_string(&ln[c])
        } else {
            None
        },
        None => None,
    }
}

fn lit_bool(ln: &Vec<Cellule>, col: Option<usize>) -> (r: Option<bool>)
    ensures
        r == bool_a(ln@, col),
{
    match col {
        Some(c) => if c < ln.len() {
            into_bool(&ln[c])
        } else {
            None
        },
        None => None,
    }
}

fn lit_reponse(ln: &Vec<Cellule>, col: Option<usize>) -> (r: Option<(bool, Option<String>)>)
    ensures
        vue_reponse(r) == reponse_a(ln@, col),
{
    match col {
        Some(c) => if c < ln.len() {
            into_bool_with_comment(&ln[c])
        } else {
            None
        },
        None => None,
    }
}

/// The key of the account that the line `ln` describes, or why the line
/// describes none: the column of the name must be known, and the name must be
/// there. E-mail address, phone number and postal address are kept as far as
/// they are there and read as what they should be.
pub open spec fn compte_lu(ln: Seq<Cellule>, dcc: DataColConfig) -> Result<
    CleCompte,
    ExtractError,
> {
    if dcc.mandataire is None {
        Err(ExtractError::MissingInformations("Mandataire"))
    } else {
        match texte_a(ln, dcc.mandataire) {
            None => Err(ExtractError::InvalidFormat),
            Some(m) => Ok(
                CleCompte {
                    mandataire: m,
                    email: match texte_a(ln, dcc.courriel) {
                        Some(t) => Email::lu(t),
                        None => None,
                    },
                    tel: match texte_a(ln, dcc.tel) {
                        Some(t) => Tel::lu(t),
                        None => None,
                    },
                    adresse: match texte_a(ln, dcc.adresse) {
                        Some(t) => Adresse::lue(t),
                        None => None,
                    },
                },
            ),
        }
    }
}

/// Reads the account that a line describes. Its identifier is the number
/// drawn from its key.
pub fn extract_compte_info(ln: &Vec<Cellule>, dcc: &DataColConfig) -> (r: Result<
    Compte,
    ExtractError,
>)
    ensures
        match r {
            Ok(c) => compte_lu(ln@, *dcc) == Ok::<CleCompte, ExtractError>(c.cle()) && c.id
                == CompteID(Compte::graine(c.cle())) && c.membres.vue().len() == 0,
            Err(e) => compte_lu(ln@, *dcc) == Err::<CleCompte, ExtractError>(e),
        },
{
    let mut cmpt = Compte::default();
    if dcc.mandataire.is_none() {
        return Err(ExtractError::MissingInformations("Mandataire"));
    }
    cmpt.mandataire = match lit_texte(ln, dcc.mandataire) {
        None => return Err(ExtractError::InvalidFormat),
        Some(m) => m,
    };
    if let Some(t) = lit_texte(ln, dcc.courriel) {
        cmpt.email = match Email::from_str(t.as_str()) {
            Ok(e) => Some(e),
            Err(_) => None,
        };
    }
    if let Some(t) = lit_texte(ln, dcc.tel) {
        cmpt.tel = match Tel::from_str(t.as_str()) {
            Ok(e) => Some(e),
            Err(_) => None,
        };
    }
    if let Some(t) = lit_texte(ln, dcc.adresse) {
        cmpt.adresse = match Adresse::from_full(t.as_str()) {
            Ok(e) => Some(e),
            Err(_) => None,
        };
    }
    cmpt.id = CompteID(cmpt.get_id_seed());
    Ok(cmpt)
}

/// The three whole numbers of a date as the groups found in it give them:
/// year, month and day, if they are written there and name a day that
/// exists.
pub open spec fn date_des_groupes(groupes: Seq<Option<Seq<char>>>) -> Option<(int, int, int)> {
    match (groupe(groupes, 1), groupe(groupes, 2), groupe(groupes, 3)) {
        (Some(an), Some(mois), Some(jour)) => match (
            entier_borne(an, -0x8000_0000, 0x7fff_ffff),
            entier_borne(mois, 0, 0xffff_ffff),
            entier_borne(jour, 0, 0xffff_ffff),
        ) {
            (Some(a), Some(m), Some(j)) => if date_valide(a, m, j) {
                Some((a, m, j))
            } else {
                None
            },
            _ => None,
        },
        _ => None,
    }
}

/// The birth date that the text `t` holds, if it holds one.
pub open spec fn date_lue(t: Seq<char>) -> Option<(int, int, int)> {
    match captures_de(DATE_NAISSANCE_RE@, t) {
        Some(g) => date_des_groupes(g),
        None => None,
    }
}

/// The date that the groups found by [`DATE_NAISSANCE_RE`] stand for.
pub fn date_depuis_groupes(groupes: &Vec<Option<String>>) -> (r: Option<Date>)
    ensures
        match r {
            Some(d) => date_des_groupes(vue_groupes(groupes@)) == Some(
                (d.an(), d.mois(), d.jour()),
            ),
            None => date_des_groupes(vue_groupes(groupes@)) is None,
        },
{
    match (groupe_de(groupes, 1), groupe_de(groupes, 2), groupe_de(groupes, 3)) {
        (Some(an), Some(mois), Some(jour)) => match (
            analyse_entier(an, -0x8000_0000, 0x7fff_ffff),
            analyse_entier(mois, 0, 0xffff_ffff),
            analyse_entier(jour, 0, 0xffff_ffff),
        ) {
            (Some(a), Some(m), Some(j)) => Date::from_ymd_opt(a as i32, m as u32, j as u32),
            _ => None,
        },
        _ => None,
    }
}

/// The key of the member that the line `ln` describes, without account, or
/// why the line describes none: the columns of name, first name and birth
/// date must be known, and all three must be there.
pub open spec fn membre_lu(ln: Seq<Cellule>, dcc: DataColConfig) -> Result<
    CleMembre,
    ExtractError,
> {
    if dcc.nom is None {
        Err(ExtractError::MissingInformations("Nom"))
    } else if dcc.prenom is None {
        Err(ExtractError::MissingInformations("Prénom"))
    } else if dcc.naissance is None {
        Err(ExtractError::MissingInformations("Naissance"))
    } else {
        match texte_a(ln, dcc.nom) {
            None => Err(ExtractError::MissingInformations("Nom")),
            Some(nom) => match texte_a(ln, dcc.prenom) {
                None => Err(ExtractError::MissingInformations("Prénom")),
                Some(prenom) => match texte_a(ln, dcc.naissance) {
                    None => Err(ExtractError::MissingInformations("Naissance")),
                    Some(n) => match date_lue(n) {
                        None => Err(ExtractError::MissingInformations("Naissance")),
                        Some(d) => Ok(CleMembre { nom, prenom, naissance: d, compte: None }),
                    },
                },
            },
        }
    }
}

/// Reads the member that a line describes: name, first name and birth date.
/// Its identifier is the number drawn from them.
pub fn extract_membre_info(ln: &Vec<Cellule>, dcc: &DataColConfig) -> (r: Result<
    Membre,
    ExtractError,
>)
    ensures
        match r {
            Ok(m) => membre_lu(ln@, *dcc) == Ok::<CleMembre, ExtractError>(m.cle()) && m.id
                == MembreID(Membre::graine(m.cle())) && m.vierge(),
            Err(e) => membre_lu(ln@, *dcc) == Err::<CleMembre, ExtractError>(e),
        },
{
    let mut mbr = Membre::default();
    let ghost blanc = mbr;
    if dcc.nom.is_none() {
        return Err(ExtractError::MissingInformations("Nom"));
    }
    if dcc.prenom.is_none() {
        return Err(ExtractError::MissingInformations("Prénom"));
    }
    if dcc.naissance.is_none() {
        return Err(ExtractError::MissingInformations("Naissance"));
    }
    mbr.nom = match lit_texte(ln, dcc.nom) {
        None => return Err(ExtractError::MissingInformations("Nom")),
        Some(n) => n,
    };
    mbr.prenom = match lit_texte(ln, dcc.prenom) {
        None => return Err(ExtractError::MissingInformations("Prénom")),
        Some(n) => n,
    };
    mbr.naissance = match lit_texte(ln, dcc.naissance) {
        None => return Err(ExtractError::MissingInformations("Naissance")),
        Some(n) => {
            match captures(DATE_NAISSANCE_RE, n.as_str()) {
                Some(cap) => match date_depuis_groupes(&cap) {
                    None => return Err(ExtractError::MissingInformations("Naissance")),
                    Some(d) => d,
                },
                None => return Err(ExtractError::MissingInformations("Naissance")),
            }
        },
    };
    mbr.id = MembreID(mbr.get_id_seed());
    proof {
        lemme_vierge(blanc, mbr);
    }
    Ok(mbr)
}

/// The cell in line `i` and column `j` of the rectangle `lignes`; a rectangle
/// that does not reach that far has an empty cell there.
pub open spec fn cellule_en(lignes: Seq<Vec<Cellule>>, i: int, j: int) -> Cellule {
    if 0 <= i < lignes.len() {
        cellule_a(lignes[i]@, j)
    } else {
        Cellule::Empty
    }
}

/// What the title of a sheet says of its group.
pub struct TitreGroupe {
    pub activite: Seq<char>,
    pub site: Seq<char>,
    pub semaine: Seq<char>,
    pub age_min: u32,
    pub age_max: u32,
}

/// What the groups found in the title of a sheet say of its group: activity,
/// site and week, and the two ages if they fit in 32 bits.
pub open spec fn titre_des_groupes(groupes: Seq<Option<Seq<char>>>) -> Option<TitreGroupe> {
    match (
        groupe(groupes, 1),
        groupe(groupes, 2),
        groupe(groupes, 5),
        groupe(groupes, 3),
        groupe(groupes, 4),
    ) {
        (Some(activite), Some(site), Some(semaine), Some(mn), Some(mx)) => match (
            entier_borne(mn, 0, 0xffff_ffff),
            entier_borne(mx, 0, 0xffff_ffff),
        ) {
            (Some(a), Some(b)) => Some(
                TitreGroupe { activite, site, semaine, age_min: a as u32, age_max: b as u32 },
            ),
            _ => None,
        },
        _ => None,
    }
}

/// What a sheet says of its group.
pub struct GroupeLu {
    pub cle: CleGroupe,
    pub age_min: Option<u32>,
    pub age_max: Option<u32>,
}

/// The season that the third line of a sheet names, if it names one.
pub open spec fn saison_lue(lignes: Seq<Vec<Cellule>>) -> Option<Seq<char>> {
    match texte_lu(cellule_en(lignes, 2, 0)) {
        Some(p) => match captures_de(GROUPE_PROG_RE@, p) {
            Some(g) => groupe(g, 1),
            None => None,
        },
        None => None,
    }
}

/// What the sheet `lignes` says of its group, or nothing if the sheet cannot
/// be one of a group. The first cell must hold a text, the title; a title of
/// the usual form gives activity, site, week, ages and, from the ages, the
/// category. The sheet must have six lines at least. The second line tells
/// the group from its like, the third names the season.
pub open spec fn groupe_lu(lignes: Seq<Vec<Cellule>>) -> Option<GroupeLu> {
    match texte_lu(cellule_en(lignes, 0, 0)) {
        None => None,
        Some(desc) => if lignes.len() < 6 {
            None
        } else {
            match captures_de(GROUPE_RE@, desc) {
                None => Some(
                    GroupeLu {
                        cle: CleGroupe {
                            saison: saison_lue(lignes),
                            category: None,
                            discriminant: texte_lu(cellule_en(lignes, 1, 0)),
                            semaine: None,
                            activite: None,
                            site: None,
                        },
                        age_min: None,
                        age_max: None,
                    },
                ),
                Some(g) => match titre_des_groupes(g) {
                    None => None,
                    Some(t) => Some(
                        GroupeLu {
                            cle: CleGroupe {
                                saison: saison_lue(lignes),
                                category: Some(categorie(Some(t.age_min), Some(t.age_max))),
                                discriminant: texte_lu(cellule_en(lignes, 1, 0)),
                                semaine: Some(t.semaine),
                                activite: Some(t.activite),
                                site: Some(t.site),
                            },
                            age_min: Some(t.age_min),
                            age_max: Some(t.age_max),
                        },
                    ),
                },
            }
        },
    }
}

fn lit_cellule(ws: &Plage, i: usize, j: usize) -> (r: Option<String>)
    ensures
        vue(r) == texte_lu(cellule_en(ws.lignes(), i as int, j as int)),
{
    let (_h, _w) = ws.get_size();
    match ws.get_value(i, j) {
        Some(c) => into_string(c),
        None => None,
    }
}

/// Reads the group that a sheet is about. Its identifier is the number drawn
/// from its key; it has no participant yet.
pub fn extract_group_info(ws: &Plage) -> (r: Result<Groupe, ExtractError>)
    ensures
        match r {
            Ok(g) => {
                &&& groupe_lu(ws.lignes()) == Some(
                    GroupeLu { cle: g.cle(), age_min: g.age_min, age_max: g.age_max },
                )
                &&& g.id == GroupeID(Groupe::graine(g.cle()))
                &&& g.participants.vue().len() == 0
                &&& g.sous_groupe@.len() == 0
                &&& g.capacite is None
            },
            Err(e) => e is InvalidFormat && groupe_lu(ws.lignes()) is None,
        },
{
    proof {
        reveal(groupe_lu);
    }
    let mut g = Groupe::default();
    let grp_desc = match lit_cellule(ws, 0, 0) {
        None => return Err(ExtractError::InvalidFormat),
        Some(d) => d,
    };
    let (h, _) = ws.get_size();
    if h < 6 {
        return Err(ExtractError::InvalidFormat);
    }
    if let Some(cap) = captures(GROUPE_RE, grp_desc.as_str()) {
        let (activite, site, semaine, mn, mx) = match (
            groupe_de(&cap, 1),
            groupe_de(&cap, 2),
            groupe_de(&cap, 5),
            groupe_de(&cap, 3),
            groupe_de(&cap, 4),
        ) {
            (Some(a), Some(b), Some(c), Some(d), Some(e)) => (a, b, c, d, e),
            _ => return Err(ExtractError::InvalidFormat),
        };
        let (grage_min, grage_max) = match (
            analyse_entier(mn, 0, 0xffff_ffff),
            analyse_entier(mx, 0, 0xffff_ffff),
        ) {
            (Some(a), Some(b)) => (a as u32, b as u32),
            _ => return Err(ExtractError::InvalidFormat),
        };
        g.activite = Some(String::from_str(activite));
        g.site = Some(String::from_str(site));
        g.semaine = Some(String::from_str(semaine));
        g.age_min = Some(grage_min);
        g.age_max = Some(grage_max);
        g.category = Some(Groupe::guess_category(g.age_min, g.age_max));
    }
    if let Some(grp_prog) = lit_cellule(ws, 2, 0) {
        if let Some(cap) = captures(GROUPE_PROG_RE, grp_prog.as_str()) {
            if let Some(prog) = groupe_de(&cap, 1) {
                g.saison = Some(String::from_str(prog));
            }
        }
    }
    g.discriminant = lit_cellule(ws, 1, 0);
    g.id = GroupeID(g.get_id_seed());
    Ok(g)
}

/// A list with `nom` added at its end if the answer `b` is "yes".
pub open spec fn ajout_si(avant: Seq<Seq<char>>, b: Option<bool>, nom: Seq<char>) -> Seq<
    Seq<char>,
> {
    if b == Some(true) {
        avant.push(nom)
    } else {
        avant
    }
}

/// A list with the items of the remark of `r` added at its end, if `r` has a
/// remark.
pub open spec fn ajout_remarque(avant: Seq<Seq<char>>, r: Option<(bool, Option<Seq<char>>)>) -> Seq<
    Seq<char>,
> {
    match r {
        Some((_, Some(s))) => avant + items_nets(s),
        _ => avant,
    }
}

/// A list with `nom` added at its end if the answer of `r` is "yes", and the
/// items of its remark behind that.
pub open spec fn ajout_reponse(
    avant: Seq<Seq<char>>,
    r: Option<(bool, Option<Seq<char>>)>,
    nom: Seq<char>,
) -> Seq<Seq<char>> {
    match r {
        Some((b, c)) => ajout_remarque(ajout_si(avant, Some(b), nom), r),
        None => avant,
    }
}

/// The allergies of a member once the line `ln` has been read: those known
/// before, then what each column of allergies adds.
pub open spec fn allergies_lues(avant: Seq<Seq<char>>, ln: Seq<Cellule>, dcc: DataColConfig) -> Seq<
    Seq<char>,
> {
    ajout_remarque(
        ajout_si(
            ajout_si(
                ajout_si(
                    ajout_reponse(avant, reponse_a(ln, dcc.all_alim), ALL_ALIMENTAIRE@),
                    bool_a(ln, dcc.all_anim),
                    ALL_ANIMAUX@,
                ),
                bool_a(ln, dcc.all_insecte),
                ALL_INSECTES@,
            ),
            bool_a(ln, dcc.all_peni),
            ALL_PENICILINE@,
        ),
        reponse_a(ln, dcc.all_autre),
    )
}

/// The illnesses of a member once the line `ln` has been read.
pub open spec fn maladies_lues(avant: Seq<Seq<char>>, ln: Seq<Cellule>, dcc: DataColConfig) -> Seq<
    Seq<char>,
> {
    ajout_remarque(
        ajout_si(
            ajout_si(
                ajout_si(
                    ajout_si(avant, bool_a(ln, dcc.mal_asthme), MAL_ASTHME@),
                    bool_a(ln, dcc.mal_diabete),
                    MAL_DIABETE@,
                ),
                bool_a(ln, dcc.mal_emo),
                MAL_EMOPHILIE@,
            ),
            bool_a(ln, dcc.mal_epi),
            MAL_EPILEPSIE@,
        ),
        reponse_a(ln, dcc.mal_autre),
    )
}

/// A list with the way of leaving `nom` added if the answer of `r` is "yes":
/// `nom` alone, or `nom`, ": " and the remark if there is one.
pub open spec fn ajout_depart(
    avant: Seq<Seq<char>>,
    r: Option<(bool, Option<Seq<char>>)>,
    nom: Seq<char>,
) -> Seq<Seq<char>> {
    match r {
        Some((true, None)) => avant.push(nom),
        Some((true, Some(c))) => avant.push(nom + ": "@ + c),
        _ => avant,
    }
}

/// With whom a member may leave once the line `ln` has been read.
pub open spec fn departs_lus(avant: Seq<Seq<char>>, ln: Seq<Cellule>, dcc: DataColConfig) -> Seq<
    Seq<char>,
> {
    ajout_depart(
        ajout_depart(
            ajout_si(
                ajout_si(avant, bool_a(ln, dcc.quit_parent), "Parent"@),
                bool_a(ln, dcc.quit_seul),
                "Seul"@,
            ),
            reponse_a(ln, dcc.quit_acceuil),
            "Service d'accueil"@,
        ),
        reponse_a(ln, dcc.quit_autre),
        "Autre"@,
    )
}

/// An answer as it stands once a cell has been read: the answer read, or the
/// one known before if the cell gave none.
pub open spec fn maj<T>(avant: Option<T>, lu: Option<T>) -> Option<T> {
    match lu {
        Some(b) => Some(b),
        None => avant,
    }
}

/// What an answer with its reason holds.
pub open spec fn vue_bj(o: Option<BoolJustifie>) -> Option<(bool, Option<Seq<char>>)> {
    match o {
        Some(bj) => Some((bj.reponse, vue(bj.justification))),
        None => None,
    }
}

/// What an emergency contact holds: name, digits of the phone number, and
/// relation to the member.
pub open spec fn vue_contact(o: Option<Contact>) -> Option<
    (Seq<char>, Option<Seq<u8>>, Option<Seq<char>>),
> {
    match o {
        Some(c) => Some(
            (
                c.nom@,
                match c.tel {
                    Some(t) => Some(t.chiffres()),
                    None => None,
                },
                vue(c.lien),
            ),
        ),
        None => None,
    }
}

/// The emergency contact that the line `ln` gives in the columns `nom`, `tel`
/// and `lien`, or the one known before if the line names nobody.
pub open spec fn contact_lu(
    avant: Option<Contact>,
    ln: Seq<Cellule>,
    nom: Option<usize>,
    tel: Option<usize>,
    lien: Option<usize>,
) -> Option<(Seq<char>, Option<Seq<u8>>, Option<Seq<char>>)> {
    match texte_a(ln, nom) {
        Some(n) => Some(
            (
                n,
                match texte_a(ln, tel) {
                    Some(t) => Tel::lu(rogne(t)),
                    None => None,
                },
                match texte_a(ln, lien) {
                    Some(l) => Some(rogne(l)),
                    None => None,
                },
            ),
        ),
        None => vue_contact(avant),
    }
}

/// The interest that the line `ln` gives in column `col`, or the one known
/// before if the column is empty or names no interest.
pub open spec fn interet_lu(avant: Option<Interet>, ln: Seq<Cellule>, col: Option<usize>) -> Option<
    Interet,
> {
    match texte_a(ln, col) {
        Some(s) => maj(avant, Interet::nomme(s)),
        None => avant,
    }
}

/// What a card holds.
pub open spec fn vue_cam(o: Option<CAM>) -> Option<(Seq<u8>, int, int)> {
    match o {
        Some(c) => Some(c.cle()),
        None => None,
    }
}

fn ajoute_si(liste: &mut Vec<String>, b: Option<bool>, nom: &str)
    ensures
        vues(final(liste)@) == ajout_si(vues(old(liste)@), b, nom@),
{
    if let Some(true) = b {
        liste.push(String::from_str(nom));
        assert(vues(liste@) =~= vues(old(liste)@).push(nom@));
    }
}

fn ajoute_remarque(liste: &mut Vec<String>, r: &Option<(bool, Option<String>)>)
    ensures
        vues(final(liste)@) == ajout_remarque(vues(old(liste)@), vue_reponse(*r)),
{
    if let Some((_, Some(s))) = r {
        ajoute_items(liste, s.as_str());
    }
}

fn ajoute_depart(liste: &mut Vec<String>, r: &Option<(bool, Option<String>)>, nom: &str)
    ensures
        vues(final(liste)@) == ajout_depart(vues(old(liste)@), vue_reponse(*r), nom@),
{
    if let Some((b, c)) = r {
        if *b {
            let mut t = String::from_str(nom);
            if let Some(c) = c {
                t.append(": ");
                t.append(c.as_str());
            }
            let ghost v = t@;
            liste.push(t);
            assert(vues(liste@) =~= vues(old(liste)@).push(v));
        }
    }
}

fn lit_justifie(avant: Option<BoolJustifie>, r: Option<(bool, Option<String>)>) -> (o: Option<
    BoolJustifie,
>)
    ensures
        vue_bj(o) == maj(vue_bj(avant), vue_reponse(r)),
{
    match r {
        Some((b, c)) => Some(BoolJustifie { reponse: b, justification: c }),
        None => avant,
    }
}

fn lit_interet(avant: Option<Interet>, ln: &Vec<Cellule>, col: Option<usize>) -> (r: (
    Option<Interet>,
    bool,
))
    ensures
        r.0 == interet_lu(avant, ln@, col),
        r.1 == (erreur_interet(ln@, col).len() == 0),
{
    match lit_texte(ln, col) {
        Some(s) => match Interet::from_str(s.as_str()) {
            Ok(i) => (Some(i), true),
            Err(_) => (avant, false),
        },
        None => (avant, true),
    }
}

fn lit_contact(
    ln: &Vec<Cellule>,
    nom: Option<usize>,
    tel: Option<usize>,
    lien: Option<usize>,
) -> (r: Option<Contact>)
    ensures
        r is Some <==> texte_a(ln@, nom) is Some,
        forall|avant: Option<Contact>|
            r is Some ==> vue_contact(r) == #[trigger] contact_lu(avant, ln@, nom, tel, lien),
{
    match lit_texte(ln, nom) {
        Some(n) => {
            let mut contact = Contact { nom: n, tel: None, lien: None };
            if let Some(s) = lit_texte(ln, tel) {
                if let Ok(t) = Tel::from_str(trim(s.as_str())) {
                    contact.tel = Some(t);
                }
            }
            if let Some(s) = lit_texte(ln, lien) {
                contact.lien = Some(String::from_str(trim(s.as_str())));
            }
            Some(contact)
        },
        None => None,
    }
}

/// Whether the journal `apres` is the journal `avant` with more behind it.
pub open spec fn prolonge(avant: Seq<Message>, apres: Seq<Message>) -> bool {
    avant.len() <= apres.len() && forall|i: int| 0 <= i < avant.len() ==> apres[i] == avant[i]
}

/// The number of messages of `journal` that report something that went
/// wrong.
pub open spec fn nb_erreurs(journal: Seq<Message>) -> nat
    decreases journal.len(),
{
    if journal.len() == 0 {
        0
    } else {
        nb_erreurs(journal.drop_last()) + (if journal.last() is Erreur {
            1nat
        } else {
            0nat
        })
    }
}

/// One message more is one error more if it reports one.
pub proof fn lemme_erreurs_note(journal: Seq<Message>, m: Message)
    ensures
        nb_erreurs(journal.push(m)) == nb_erreurs(journal) + (if m is Erreur {
            1nat
        } else {
            0nat
        }),
{
    assert(journal.push(m).drop_last() =~= journal);
}

/// A journal that goes on reports no fewer errors.
pub proof fn lemme_erreurs_prolonge(avant: Seq<Message>, apres: Seq<Message>)
    requires
        prolonge(avant, apres),
    ensures
        nb_erreurs(avant) <= nb_erreurs(apres),
    decreases apres.len(),
{
    if avant.len() < apres.len() {
        assert forall|i: int| 0 <= i < avant.len() implies apres.drop_last()[i] == avant[i] by {}
        lemme_erreurs_prolonge(avant, apres.drop_last());
    } else {
        assert(avant =~= apres);
    }
}

pub(crate) fn note(journal: &mut Vec<Message>, m: Message)
    ensures
        final(journal)@ == old(journal)@.push(m),
        prolonge(old(journal)@, final(journal)@),
        notes(final(journal)@) == notes(old(journal)@) + seq![m.note()],
{
    journal.push(m);
    assert(notes(journal@) =~= notes(old(journal)@) + seq![m.note()]);
}

/// Reports in `journal` that something went wrong: one message more, an error
/// that says `texte`, behind those that the journal holds.
fn note_erreur(journal: &mut Vec<Message>, texte: &str)
    ensures
        final(journal)@.len() == old(journal)@.len() + 1,
        final(journal)@.drop_last() == old(journal)@,
        final(journal)@.last() is Erreur,
        final(journal)@.last().texte() == texte@,
        prolonge(old(journal)@, final(journal)@),
        notes(final(journal)@) == notes(old(journal)@) + seq![(true, texte@)],
{
    note(journal, Message::Erreur(String::from_str(texte)));
    assert(journal@.drop_last() =~= old(journal)@);
}

/// Journals put end to end: first `x`, then `y`.
pub proof fn lemme_notes_suite(
    a: Seq<(bool, Seq<char>)>,
    x: Seq<(bool, Seq<char>)>,
    y: Seq<(bool, Seq<char>)>,
)
    ensures
        (a + x) + y == a + (x + y),
{
    assert((a + x) + y =~= a + (x + y));
}

/// What is reported of the health-insurance card of the line `ln`: nothing
/// if the line gives none or one that reads well, else the text and why it
/// does not read.
pub open spec fn erreur_cam(ln: Seq<Cellule>, dcc: DataColConfig) -> Seq<(bool, Seq<char>)> {
    match texte_a(ln, dcc.cam) {
        Some(s) => match CAM::refus(s) {
            Some(msg) => seq![
                (
                    true,
                    "Erreur en lisant le CAM: "@ + s + " ("@ + texte_erreur(None, Some(msg))
                        + ")"@,
                ),
            ],
            None => Seq::empty(),
        },
        None => Seq::empty(),
    }
}

/// What is reported of the interest in column `col` of the line `ln`: an
/// error if the line names one that is none.
pub open spec fn erreur_interet(ln: Seq<Cellule>, col: Option<usize>) -> Seq<(bool, Seq<char>)> {
    match texte_a(ln, col) {
        Some(s) => if Interet::nomme(s) is None {
            seq![(true, "Erreur en lisant le 1er interet"@)]
        } else {
            Seq::empty()
        },
        None => Seq::empty(),
    }
}

/// What is reported of the four interests of the line `ln`.
pub open spec fn erreurs_interets(ln: Seq<Cellule>, dcc: DataColConfig) -> Seq<
    (bool, Seq<char>),
> {
    erreur_interet(ln, dcc.interet_1) + erreur_interet(ln, dcc.interet_2) + erreur_interet(
        ln,
        dcc.interet_3,
    ) + erreur_interet(ln, dcc.interet_4)
}

/// What is reported of the gender of the line `ln`: an error, with the text,
/// if the line names one that is none.
pub open spec fn erreur_genre(ln: Seq<Cellule>, dcc: DataColConfig) -> Seq<(bool, Seq<char>)> {
    match texte_a(ln, dcc.genre) {
        Some(s) => if Genre::nomme(s) is None {
            seq![(true, "Erreur en lisant le genre: "@ + s)]
        } else {
            Seq::empty()
        },
        None => Seq::empty(),
    }
}

/// What is reported of the size of the line `ln`: an error if the line names
/// one that is none.
pub open spec fn erreur_taille(ln: Seq<Cellule>, dcc: DataColConfig) -> Seq<(bool, Seq<char>)> {
    match texte_a(ln, dcc.taille) {
        Some(s) => if Taille::nomme(s) is None {
            seq![(true, "Erreur en lisant la taille"@)]
        } else {
            Seq::empty()
        },
        None => Seq::empty(),
    }
}

/// What is reported when a member is given what the line `ln` says of it: the
/// card, the gender, the interests and the size that cannot be read.
pub open spec fn erreurs_membre(ln: Seq<Cellule>, dcc: DataColConfig) -> Seq<(bool, Seq<char>)> {
    erreur_cam(ln, dcc) + erreur_genre(ln, dcc) + erreurs_interets(ln, dcc) + erreur_taille(
        ln,
        dcc,
    )
}

fn remplit_listes(ln: &Vec<Cellule>, dcc: &DataColConfig, fiche: &mut FicheSante)
    ensures
        vues(final(fiche).allergies@) == allergies_lues(vues(old(fiche).allergies@), ln@, *dcc),
        vues(final(fiche).maladies@) == maladies_lues(vues(old(fiche).maladies@), ln@, *dcc),
        final(fiche).auth_soins == old(fiche).auth_soins,
        final(fiche).probleme_comportement == old(fiche).probleme_comportement,
        final(fiche).cam == old(fiche).cam,
        final(fiche).prise_med == old(fiche).prise_med,
        final(fiche).auth_medicaments == old(fiche).auth_medicaments,
{
    let alim = lit_reponse(ln, dcc.all_alim);
    if let Some((b, _)) = &alim {
        ajoute_si(&mut fiche.allergies, Some(*b), ALL_ALIMENTAIRE);
        ajoute_remarque(&mut fiche.allergies, &alim);
    }
    ajoute_si(&mut fiche.allergies, lit_bool(ln, dcc.all_anim), ALL_ANIMAUX);
    ajoute_si(&mut fiche.allergies, lit_bool(ln, dcc.all_insecte), ALL_INSECTES);
    ajoute_si(&mut fiche.allergies, lit_bool(ln, dcc.all_peni), ALL_PENICILINE);
    ajoute_remarque(&mut fiche.allergies, &lit_reponse(ln, dcc.all_autre));
    ajoute_si(&mut fiche.maladies, lit_bool(ln, dcc.mal_asthme), MAL_ASTHME);
    ajoute_si(&mut fiche.maladies, lit_bool(ln, dcc.mal_diabete), MAL_DIABETE);
    ajoute_si(&mut fiche.maladies, lit_bool(ln, dcc.mal_emo), MAL_EMOPHILIE);
    ajoute_si(&mut fiche.maladies, lit_bool(ln, dcc.mal_epi), MAL_EPILEPSIE);
    ajoute_remarque(&mut fiche.maladies, &lit_reponse(ln, dcc.mal_autre));
}

fn lit_maj(avant: Option<bool>, ln: &Vec<Cellule>, col: Option<usize>) -> (r: Option<bool>)
    ensures
        r == maj(avant, bool_a(ln@, col)),
{
    match lit_bool(ln, col) {
        Some(b) => Some(b),
        None => avant,
    }
}

fn remplit_medicaments(ln: &Vec<Cellule>, dcc: &DataColConfig, avant: Medicaments) -> (m:
    Medicaments)
    ensures
        m.acetaminophene == maj(avant.acetaminophene, bool_a(ln@, dcc.med_acetaminophene)),
        m.anti_biotique == maj(avant.anti_biotique, bool_a(ln@, dcc.med_antibio)),
        m.anti_emetique == maj(avant.anti_emetique, bool_a(ln@, dcc.med_antieme)),
        m.anti_inflamatoire == maj(avant.anti_inflamatoire, bool_a(ln@, dcc.med_antiinfl)),
        m.ibuprofene == maj(avant.ibuprofene, bool_a(ln@, dcc.med_ibu)),
        m.sirop_toux == maj(avant.sirop_toux, bool_a(ln@, dcc.med_sirop_toux)),
{
    Medicaments {
        acetaminophene: lit_maj(avant.acetaminophene, ln, dcc.med_acetaminophene),
        anti_biotique: lit_maj(avant.anti_biotique, ln, dcc.med_antibio),
        anti_emetique: lit_maj(avant.anti_emetique, ln, dcc.med_antieme),
        anti_inflamatoire: lit_maj(avant.anti_inflamatoire, ln, dcc.med_antiinfl),
        ibuprofene: lit_maj(avant.ibuprofene, ln, dcc.med_ibu),
        sirop_toux: lit_maj(avant.sirop_toux, ln, dcc.med_sirop_toux),
    }
}

/// The card once the line `ln` has been read: the card read, or the one known
/// before if the line holds none that reads as a card.
pub open spec fn cam_lue(avant: Option<CAM>, ln: Seq<Cellule>, dcc: DataColConfig) -> Option<
    (Seq<u8>, int, int),
> {
    match texte_a(ln, dcc.cam) {
        Some(s) => maj(vue_cam(avant), CAM::lue(s)),
        None => vue_cam(avant),
    }
}

fn remplit_sante(
    ln: &Vec<Cellule>,
    dcc: &DataColConfig,
    fiche: &mut FicheSante,
    journal: &mut Vec<Message>,
)
    ensures
        vues(final(fiche).allergies@) == allergies_lues(vues(old(fiche).allergies@), ln@, *dcc),
        vues(final(fiche).maladies@) == maladies_lues(vues(old(fiche).maladies@), ln@, *dcc),
        final(fiche).auth_medicaments.acetaminophene == maj(
            old(fiche).auth_medicaments.acetaminophene,
            bool_a(ln@, dcc.med_acetaminophene),
        ),
        final(fiche).auth_medicaments.anti_biotique == maj(
            old(fiche).auth_medicaments.anti_biotique,
            bool_a(ln@, dcc.med_antibio),
        ),
        final(fiche).auth_medicaments.anti_emetique == maj(
            old(fiche).auth_medicaments.anti_emetique,
            bool_a(ln@, dcc.med_antieme),
        ),
        final(fiche).auth_medicaments.anti_inflamatoire == maj(
            old(fiche).auth_medicaments.anti_inflamatoire,
            bool_a(ln@, dcc.med_antiinfl),
        ),
        final(fiche).auth_medicaments.ibuprofene == maj(
            old(fiche).auth_medicaments.ibuprofene,
            bool_a(ln@, dcc.med_ibu),
        ),
        final(fiche).auth_medicaments.sirop_toux == maj(
            old(fiche).auth_medicaments.sirop_toux,
            bool_a(ln@, dcc.med_sirop_toux),
        ),
        final(fiche).auth_soins == maj(old(fiche).auth_soins, bool_a(ln@, dcc.auth_soins)),
        vue_bj(final(fiche).probleme_comportement) == maj(
            vue_bj(old(fiche).probleme_comportement),
            reponse_a(ln@, dcc.prob_comportement),
        ),
        vue_bj(final(fiche).prise_med) == maj(
            vue_bj(old(fiche).prise_med),
            reponse_a(ln@, dcc.prise_med),
        ),
        vue_cam(final(fiche).cam) == cam_lue(old(fiche).cam, ln@, *dcc),
        prolonge(old(journal)@, final(journal)@),
        notes(final(journal)@) == notes(old(journal)@) + erreur_cam(ln@, *dcc),
{
    assert(notes(journal@) + Seq::<(bool, Seq<char>)>::empty() =~= notes(journal@));
    remplit_listes(ln, dcc, fiche);
    fiche.auth_medicaments = remplit_medicaments(ln, dcc, fiche.auth_medicaments);
    fiche.auth_soins = lit_maj(fiche.auth_soins, ln, dcc.auth_soins);
    let mut pc: Option<BoolJustifie> = None;
    std::mem::swap(&mut pc, &mut fiche.probleme_comportement);
    fiche.probleme_comportement = lit_justifie(pc, lit_reponse(ln, dcc.prob_comportement));
    let mut pm: Option<BoolJustifie> = None;
    std::mem::swap(&mut pm, &mut fiche.prise_med);
    fiche.prise_med = lit_justifie(pm, lit_reponse(ln, dcc.prise_med));
    if let Some(s) = lit_texte(ln, dcc.cam) {
        match CAM::from_str(s.as_str()) {
            Ok(cam) => fiche.cam = Some(cam),
            Err(e) => {
                let mut t = String::from_str("Erreur en lisant le CAM: ");
                t.append(s.as_str());
                t.append(" (");
                t.append(e.to_string().as_str());
                t.append(")");
                assert(e.texte() == texte_erreur(None, CAM::refus(s@)));
                note(journal, Message::Erreur(t));
            },
        }
    }
}

fn remplit_depart(ln: &Vec<Cellule>, dcc: &DataColConfig, quitte: &mut Quitte)
    ensures
        vues(final(quitte).avec@) == departs_lus(vues(old(quitte).avec@), ln@, *dcc),
        vue(final(quitte).mdp) == maj(vue(old(quitte).mdp), texte_a(ln@, dcc.mdp)),
{
    ajoute_si(&mut quitte.avec, lit_bool(ln, dcc.quit_parent), "Parent");
    ajoute_si(&mut quitte.avec, lit_bool(ln, dcc.quit_seul), "Seul");
    ajoute_depart(&mut quitte.avec, &lit_reponse(ln, dcc.quit_acceuil), "Service d'accueil");
    ajoute_depart(&mut quitte.avec, &lit_reponse(ln, dcc.quit_autre), "Autre");
    if let Some(s) = lit_texte(ln, dcc.mdp) {
        quitte.mdp = Some(s);
    }
}

fn remplit_piscine(ln: &Vec<Cellule>, dcc: &DataColConfig, avant: Piscine) -> (p: Piscine)
    ensures
        p.vfi == maj(avant.vfi, bool_a(ln@, dcc.vfi)),
        p.partage == maj(avant.partage, bool_a(ln@, dcc.auth_partage_sauveteur)),
        p.tete_sous_eau == maj(avant.tete_sous_eau, bool_a(ln@, dcc.tete_sous_eau)),
{
    Piscine {
        vfi: lit_maj(avant.vfi, ln, dcc.vfi),
        partage: lit_maj(avant.partage, ln, dcc.auth_partage_sauveteur),
        tete_sous_eau: lit_maj(avant.tete_sous_eau, ln, dcc.tete_sous_eau),
    }
}

/// The interests once the line `ln` has been read.
pub open spec fn interets_lus(avant: Seq<Option<Interet>>, ln: Seq<Cellule>, dcc: DataColConfig) -> Seq<
    Option<Interet>,
> {
    seq![
        interet_lu(avant[0], ln, dcc.interet_1),
        interet_lu(avant[1], ln, dcc.interet_2),
        interet_lu(avant[2], ln, dcc.interet_3),
        interet_lu(avant[3], ln, dcc.interet_4),
    ]
}

fn remplit_interets(
    ln: &Vec<Cellule>,
    dcc: &DataColConfig,
    avant: Interets,
    journal: &mut Vec<Message>,
) -> (r: Interets)
    ensures
        r@ == interets_lus(avant@, ln@, *dcc),
        prolonge(old(journal)@, final(journal)@),
        notes(final(journal)@) == notes(old(journal)@) + erreurs_interets(ln@, *dcc),
{
    let ghost vide = Seq::<(bool, Seq<char>)>::empty();
    let ghost n0 = notes(journal@);
    let ghost e1 = erreur_interet(ln@, dcc.interet_1);
    let ghost e2 = erreur_interet(ln@, dcc.interet_2);
    let ghost e3 = erreur_interet(ln@, dcc.interet_3);
    let ghost e4 = erreur_interet(ln@, dcc.interet_4);
    let (i0, ok0) = lit_interet(avant[0], ln, dcc.interet_1);
    let (i1, ok1) = lit_interet(avant[1], ln, dcc.interet_2);
    let (i2, ok2) = lit_interet(avant[2], ln, dcc.interet_3);
    let (i3, ok3) = lit_interet(avant[3], ln, dcc.interet_4);
    if !ok0 {
        note_erreur(journal, "Erreur en lisant le 1er interet");
    }
    let ghost j1 = journal@;
    if !ok1 {
        note_erreur(journal, "Erreur en lisant le 1er interet");
    }
    let ghost j2 = journal@;
    if !ok2 {
        note_erreur(journal, "Erreur en lisant le 1er interet");
    }
    let ghost j3 = journal@;
    if !ok3 {
        note_erreur(journal, "Erreur en lisant le 1er interet");
    }
    proof {
        lemme_prolonge(old(journal)@, j1, j2);
        lemme_prolonge(old(journal)@, j2, j3);
        lemme_prolonge(old(journal)@, j3, journal@);
        assert(e1 =~= if ok0 { vide } else { seq![(true, "Erreur en lisant le 1er interet"@)] });
        assert(e2 =~= if ok1 { vide } else { seq![(true, "Erreur en lisant le 1er interet"@)] });
        assert(e3 =~= if ok2 { vide } else { seq![(true, "Erreur en lisant le 1er interet"@)] });
        assert(e4 =~= if ok3 { vide } else { seq![(true, "Erreur en lisant le 1er interet"@)] });
        assert(notes(j1) =~= n0 + e1);
        assert(notes(j2) =~= notes(j1) + e2);
        assert(notes(j3) =~= notes(j2) + e3);
        assert(notes(journal@) =~= notes(j3) + e4);
        assert(notes(journal@) =~= n0 + (e1 + e2 + e3 + e4));
    }
    let r: Interets = [i0, i1, i2, i3];
    assert(r@ =~= interets_lus(avant@, ln@, *dcc));
    r
}

/// A journal that goes on twice has gone on.
pub proof fn lemme_prolonge(a: Seq<Message>, b: Seq<Message>, c: Seq<Message>)
    requires
        prolonge(a, b),
        prolonge(b, c),
    ensures
        prolonge(a, c),
{
}

/// The gender once the line `ln` has been read.
pub open spec fn genre_lu(avant: Option<Genre>, ln: Seq<Cellule>, dcc: DataColConfig) -> Option<
    Genre,
> {
    match texte_a(ln, dcc.genre) {
        Some(s) => maj(avant, Genre::nomme(s)),
        None => avant,
    }
}

/// The size once the line `ln` has been read.
pub open spec fn taille_lue(avant: Option<Taille>, ln: Seq<Cellule>, dcc: DataColConfig) -> Option<
    Taille,
> {
    match texte_a(ln, dcc.taille) {
        Some(s) => maj(avant, Taille::nomme(s)),
        None => avant,
    }
}

fn remplit_genre(
    ln: &Vec<Cellule>,
    dcc: &DataColConfig,
    avant: Option<Genre>,
    journal: &mut Vec<Message>,
) -> (r: Option<Genre>)
    ensures
        r == genre_lu(avant, ln@, *dcc),
        prolonge(old(journal)@, final(journal)@),
        notes(final(journal)@) == notes(old(journal)@) + erreur_genre(ln@, *dcc),
{
    assert(notes(journal@) + Seq::<(bool, Seq<char>)>::empty() =~= notes(journal@));
    if let Some(s) = lit_texte(ln, dcc.genre) {
        match Genre::from_str(s.as_str()) {
            Ok(genre) => Some(genre),
            Err(_) => {
                let mut t = String::from_str("Erreur en lisant le genre: ");
                t.append(s.as_str());
                note(journal, Message::Erreur(t));
                avant
            },
        }
    } else {
        avant
    }
}

fn remplit_taille(
    ln: &Vec<Cellule>,
    dcc: &DataColConfig,
    avant: Option<Taille>,
    journal: &mut Vec<Message>,
) -> (r: Option<Taille>)
    ensures
        r == taille_lue(avant, ln@, *dcc),
        prolonge(old(journal)@, final(journal)@),
        notes(final(journal)@) == notes(old(journal)@) + erreur_taille(ln@, *dcc),
{
    assert(notes(journal@) + Seq::<(bool, Seq<char>)>::empty() =~= notes(journal@));
    if let Some(s) = lit_texte(ln, dcc.taille) {
        match Taille::from_str(s.as_str()) {
            Ok(t) => Some(t),
            Err(_) => {
                note_erreur(journal, "Erreur en lisant la taille");
                avant
            },
        }
    } else {
        avant
    }
}

/// Fills in what the line `ln` says of a member beyond name, first name and
/// birth date: health, interests, contacts, leave, pool, size, photo and
/// remark. What the line does not say stays as it was; who the member is, and
/// the account it belongs to, are never touched. A cell that cannot be read is
/// reported in `journal` and skipped.
pub fn fill_membre_info(
    ln: &Vec<Cellule>,
    dcc: &DataColConfig,
    membre: &mut Membre,
    journal: &mut Vec<Message>,
)
    ensures
        final(membre).id == old(membre).id,
        final(membre).nom == old(membre).nom,
        final(membre).prenom == old(membre).prenom,
        final(membre).naissance == old(membre).naissance,
        final(membre).compte == old(membre).compte,
        final(membre).cle() == old(membre).cle(),
        vues(final(membre).fiche_sante.allergies@) == allergies_lues(
            vues(old(membre).fiche_sante.allergies@),
            ln@,
            *dcc,
        ),
        vues(final(membre).fiche_sante.maladies@) == maladies_lues(
            vues(old(membre).fiche_sante.maladies@),
            ln@,
            *dcc,
        ),
        final(membre).fiche_sante.auth_medicaments.acetaminophene == maj(
            old(membre).fiche_sante.auth_medicaments.acetaminophene,
            bool_a(ln@, dcc.med_acetaminophene),
        ),
        final(membre).fiche_sante.auth_medicaments.anti_biotique == maj(
            old(membre).fiche_sante.auth_medicaments.anti_biotique,
            bool_a(ln@, dcc.med_antibio),
        ),
        final(membre).fiche_sante.auth_medicaments.anti_emetique == maj(
            old(membre).fiche_sante.auth_medicaments.anti_emetique,
            bool_a(ln@, dcc.med_antieme),
        ),
        final(membre).fiche_sante.auth_medicaments.anti_inflamatoire == maj(
            old(membre).fiche_sante.auth_medicaments.anti_inflamatoire,
            bool_a(ln@, dcc.med_antiinfl),
        ),
        final(membre).fiche_sante.auth_medicaments.ibuprofene == maj(
            old(membre).fiche_sante.auth_medicaments.ibuprofene,
            bool_a(ln@, dcc.med_ibu),
        ),
        final(membre).fiche_sante.auth_medicaments.sirop_toux == maj(
            old(membre).fiche_sante.auth_medicaments.sirop_toux,
            bool_a(ln@, dcc.med_sirop_toux),
        ),
        final(membre).fiche_sante.auth_soins == maj(
            old(membre).fiche_sante.auth_soins,
            bool_a(ln@, dcc.auth_soins),
        ),
        vue_bj(final(membre).fiche_sante.probleme_comportement) == maj(
            vue_bj(old(membre).fiche_sante.probleme_comportement),
            reponse_a(ln@, dcc.prob_comportement),
        ),
        vue_bj(final(membre).fiche_sante.prise_med) == maj(
            vue_bj(old(membre).fiche_sante.prise_med),
            reponse_a(ln@, dcc.prise_med),
        ),
        vue_cam(final(membre).fiche_sante.cam) == cam_lue(old(membre).fiche_sante.cam, ln@, *dcc),
        final(membre).genre == genre_lu(old(membre).genre, ln@, *dcc),
        final(membre).interets@ == interets_lus(old(membre).interets@, ln@, *dcc),
        vue_contact(final(membre).contacts@[0]) == contact_lu(
            old(membre).contacts@[0],
            ln@,
            dcc.contact_1_nom,
            dcc.contact_1_tel,
            dcc.contact_1_lien,
        ),
        vue_contact(final(membre).contacts@[1]) == contact_lu(
            old(membre).contacts@[1],
            ln@,
            dcc.contact_2_nom,
            dcc.contact_2_tel,
            dcc.contact_2_lien,
        ),
        final(membre).accompagnement == maj(
            old(membre).accompagnement,
            bool_a(ln@, dcc.accompagnement),
        ),
        vues(final(membre).quitte.avec@) == departs_lus(vues(old(membre).quitte.avec@), ln@, *dcc),
        vue(final(membre).quitte.mdp) == maj(vue(old(membre).quitte.mdp), texte_a(ln@, dcc.mdp)),
        final(membre).piscine.vfi == maj(old(membre).piscine.vfi, bool_a(ln@, dcc.vfi)),
        final(membre).piscine.partage == maj(
            old(membre).piscine.partage,
            bool_a(ln@, dcc.auth_partage_sauveteur),
        ),
        final(membre).piscine.tete_sous_eau == maj(
            old(membre).piscine.tete_sous_eau,
            bool_a(ln@, dcc.tete_sous_eau),
        ),
        final(membre).taille == taille_lue(old(membre).taille, ln@, *dcc),
        final(membre).auth_photo == maj(old(membre).auth_photo, bool_a(ln@, dcc.auth_photo)),
        vue(final(membre).commentaire) == if dcc.commentaire is Some {
            texte_a(ln@, dcc.commentaire)
        } else {
            vue(old(membre).commentaire)
        },
        prolonge(old(journal)@, final(journal)@),
        notes(final(journal)@) == notes(old(journal)@) + erreurs_membre(ln@, *dcc),
{
    let ghost n0 = notes(journal@);
    let mut m = Membre::default();
    std::mem::swap(membre, &mut m);
    let mut fiche = *m.fiche_sante;
    remplit_sante(ln, dcc, &mut fiche, journal);
    m.fiche_sante = Box::new(fiche);
    let ghost j1 = journal@;
    m.genre = remplit_genre(ln, dcc, m.genre, journal);
    let ghost j2 = journal@;
    m.interets = remplit_interets(ln, dcc, m.interets, journal);
    let ghost j3 = journal@;
    if let Some(c) = lit_contact(ln, dcc.contact_1_nom, dcc.contact_1_tel, dcc.contact_1_lien) {
        m.contacts[0] = Some(c);
    }
    if let Some(c) = lit_contact(ln, dcc.contact_2_nom, dcc.contact_2_tel, dcc.contact_2_lien) {
        m.contacts[1] = Some(c);
    }
    m.accompagnement = lit_maj(m.accompagnement, ln, dcc.accompagnement);
    remplit_depart(ln, dcc, &mut m.quitte);
    m.piscine = remplit_piscine(ln, dcc, m.piscine);
    m.taille = remplit_taille(ln, dcc, m.taille, journal);
    m.auth_photo = lit_maj(m.auth_photo, ln, dcc.auth_photo);
    if dcc.commentaire.is_some() {
        m.commentaire = lit_texte(ln, dcc.commentaire);
    }
    proof {
        lemme_prolonge(old(journal)@, j1, j2);
        lemme_prolonge(old(journal)@, j2, j3);
        lemme_prolonge(old(journal)@, j3, journal@);
        let a = erreur_cam(ln@, *dcc);
        let b = erreur_genre(ln@, *dcc);
        let c = erreurs_interets(ln@, *dcc);
        let d = erreur_taille(ln@, *dcc);
        lemme_notes_suite(n0, a, b);
        lemme_notes_suite(n0, a + b, c);
        lemme_notes_suite(n0, a + b + c, d);
    }
    std::mem::swap(membre, &mut m);
}

/// Whether the member `apres` is the member `avant` with what the line `ln`
/// says of it filled in: health, interests, contacts, leave, pool, size, photo
/// and remark. What the line does not say is as it was, and so is who the
/// member is and the account it belongs to.
#[verifier::opaque]
pub open spec fn rempli(avant: Membre, apres: Membre, ln: Seq<Cellule>, dcc: DataColConfig) -> bool {
    &&& apres.id == avant.id
    &&& apres.nom == avant.nom
    &&& apres.prenom == avant.prenom
    &&& apres.naissance == avant.naissance
    &&& apres.compte == avant.compte
    &&& apres.cle() == avant.cle()
    &&& vues(apres.fiche_sante.allergies@) == allergies_lues(
        vues(avant.fiche_sante.allergies@),
        ln,
        dcc,
    )
    &&& vues(apres.fiche_sante.maladies@) == maladies_lues(
        vues(avant.fiche_sante.maladies@),
        ln,
        dcc,
    )
    &&& apres.fiche_sante.auth_medicaments.acetaminophene == maj(
        avant.fiche_sante.auth_medicaments.acetaminophene,
        bool_a(ln, dcc.med_acetaminophene),
    )
    &&& apres.fiche_sante.auth_medicaments.anti_biotique == maj(
        avant.fiche_sante.auth_medicaments.anti_biotique,
        bool_a(ln, dcc.med_antibio),
    )
    &&& apres.fiche_sante.auth_medicaments.anti_emetique == maj(
        avant.fiche_sante.auth_medicaments.anti_emetique,
        bool_a(ln, dcc.med_antieme),
    )
    &&& apres.fiche_sante.auth_medicaments.anti_inflamatoire == maj(
        avant.fiche_sante.auth_medicaments.anti_inflamatoire,
        bool_a(ln, dcc.med_antiinfl),
    )
    &&& apres.fiche_sante.auth_medicaments.ibuprofene == maj(
        avant.fiche_sante.auth_medicaments.ibuprofene,
        bool_a(ln, dcc.med_ibu),
    )
    &&& apres.fiche_sante.auth_medicaments.sirop_toux == maj(
        avant.fiche_sante.auth_medicaments.sirop_toux,
        bool_a(ln, dcc.med_sirop_toux),
    )
    &&& apres.fiche_sante.auth_soins == maj(
        avant.fiche_sante.auth_soins,
        bool_a(ln, dcc.auth_soins),
    )
    &&& vue_bj(apres.fiche_sante.probleme_comportement) == maj(
        vue_bj(avant.fiche_sante.probleme_comportement),
        reponse_a(ln, dcc.prob_comportement),
    )
    &&& vue_bj(apres.fiche_sante.prise_med) == maj(
        vue_bj(avant.fiche_sante.prise_med),
        reponse_a(ln, dcc.prise_med),
    )
    &&& vue_cam(apres.fiche_sante.cam) == cam_lue(avant.fiche_sante.cam, ln, dcc)
    &&& apres.genre == genre_lu(avant.genre, ln, dcc)
    &&& apres.interets@ == interets_lus(avant.interets@, ln, dcc)
    &&& vue_contact(apres.contacts@[0]) == contact_lu(
        avant.contacts@[0],
        ln,
        dcc.contact_1_nom,
        dcc.contact_1_tel,
        dcc.contact_1_lien,
    )
    &&& vue_contact(apres.contacts@[1]) == contact_lu(
        avant.contacts@[1],
        ln,
        dcc.contact_2_nom,
        dcc.contact_2_tel,
        dcc.contact_2_lien,
    )
    &&& apres.accompagnement == maj(
        avant.accompagnement,
        bool_a(ln, dcc.accompagnement),
    )
    &&& vues(apres.quitte.avec@) == departs_lus(vues(avant.quitte.avec@), ln, dcc)
    &&& vue(apres.quitte.mdp) == maj(vue(avant.quitte.mdp), texte_a(ln, dcc.mdp))
    &&& apres.piscine.vfi == maj(avant.piscine.vfi, bool_a(ln, dcc.vfi))
    &&& apres.piscine.partage == maj(
        avant.piscine.partage,
        bool_a(ln, dcc.auth_partage_sauveteur),
    )
    &&& apres.piscine.tete_sous_eau == maj(
        avant.piscine.tete_sous_eau,
        bool_a(ln, dcc.tete_sous_eau),
    )
    &&& apres.taille == taille_lue(avant.taille, ln, dcc)
    &&& apres.auth_photo == maj(avant.auth_photo, bool_a(ln, dcc.auth_photo))
    &&& vue(apres.commentaire) == if dcc.commentaire is Some {
        texte_a(ln, dcc.commentaire)
    } else {
        vue(avant.commentaire)
    }
}

/// Whether the member `m` is as a line enters it: a member of whom nothing
/// was known but who it is, with what the line `ln` says of it filled in,
/// under the identifier that it was given.
pub open spec fn entre(m: Membre, ln: Seq<Cellule>, dcc: DataColConfig) -> bool {
    exists|f: Membre, g: Membre|
        f.vierge() && #[trigger] rempli(f, g, ln, dcc) && m == g.avec_id(m.id)
}

/// Whether the member `m` is as one of the lines `lignes` enters it.
pub open spec fn vient_de(m: Membre, lignes: Seq<Vec<Cellule>>, dcc: DataColConfig) -> bool {
    exists|i: int| 0 <= i < lignes.len() && #[trigger] entre(m, lignes[i]@, dcc)
}

/// Whether every member that `b` holds behind those of `a` is as one of the
/// lines `lignes` enters it.
pub open spec fn entrees(
    a: MembreReg,
    b: MembreReg,
    lignes: Seq<Vec<Cellule>>,
    dcc: DataColConfig,
) -> bool {
    forall|r: int|
        a.registre().items().len() <= r < b.registre().items().len() ==> vient_de(
            #[trigger] b.registre().items()[r],
            lignes,
            dcc,
        )
}

/// Whether the member `m` is as a line of one of the sheets `feuilles` enters
/// it.
pub open spec fn vient_des(m: Membre, feuilles: Seq<Feuille>, dcc: DataColConfig) -> bool {
    exists|k: int|
        0 <= k < feuilles.len() && #[trigger] vient_de(m, feuilles[k].plage.lignes(), dcc)
}

/// Whether every member that `b` holds behind those of `a` is as a line of one
/// of the sheets `feuilles` enters it, read by the columns `dc`; without
/// columns, whether `b` holds no more members than `a`.
pub open spec fn entrees_lecture(
    a: MembreReg,
    b: MembreReg,
    feuilles: Seq<Feuille>,
    dc: Option<DataColConfig>,
) -> bool {
    match dc {
        Some(d) => forall|r: int|
            a.registre().items().len() <= r < b.registre().items().len() ==> vient_des(
                #[trigger] b.registre().items()[r],
                feuilles,
                d,
            ),
        None => b.registre().items().len() == a.registre().items().len(),
    }
}

/// What the merge of records goes by in the three registries.
pub struct Etats {
    pub groupes: Etat<CleGroupe>,
    pub comptes: Etat<CleCompte>,
    pub membres: Etat<CleMembre>,
}

/// One step of a reading: the group of a sheet, or a line of it. Of a line
/// the account counts, if the line describes one, and with it the member, if
/// the line describes one.
pub enum Pas {
    Groupe(CleGroupe),
    Ligne(Option<(CleCompte, Option<CleMembre>)>),
}

/// The member key `k`, tied to the account `cid`.
pub open spec fn avec_compte(k: CleMembre, cid: u32) -> CleMembre {
    CleMembre { compte: Some(CompteID(cid)), ..k }
}

/// The accounts and the members after a line: its account is merged into the
/// accounts, then its member, tied to the identifier that the account goes
/// by, into the members. A line without account changes nothing.
pub open spec fn ligne_appliquee(
    ec: Etat<CleCompte>,
    em: Etat<CleMembre>,
    ligne: Option<(CleCompte, Option<CleMembre>)>,
) -> (Etat<CleCompte>, Etat<CleMembre>) {
    match ligne {
        None => (ec, em),
        Some((kc, None)) => (resolution(ec, Compte::graine(kc), kc).0, em),
        Some((kc, Some(km))) => {
            let (ec2, cid) = resolution(ec, Compte::graine(kc), kc);
            let k = avec_compte(km, cid);
            (ec2, resolution(em, Membre::graine(k), k).0)
        },
    }
}

/// The identifiers that the account `kc` and its member `km` go by once a
/// line that describes them is merged into the accounts `ec` and the members
/// `em`.
pub open spec fn ids_ligne(
    ec: Etat<CleCompte>,
    em: Etat<CleMembre>,
    kc: CleCompte,
    km: CleMembre,
) -> (CompteID, MembreID) {
    let cid = resolution(ec, Compte::graine(kc), kc).1;
    let k = avec_compte(km, cid);
    (CompteID(cid), MembreID(resolution(em, Membre::graine(k), k).1))
}

/// The states after one step: a group is merged into the groups, a line into
/// the accounts and the members.
#[verifier::opaque]
pub open spec fn pas_applique(e: Etats, p: Pas) -> Etats {
    match p {
        Pas::Groupe(k) => Etats { groupes: resolution(e.groupes, Groupe::graine(k), k).0, ..e },
        Pas::Ligne(l) => Etats {
            comptes: ligne_appliquee(e.comptes, e.membres, l).0,
            membres: ligne_appliquee(e.comptes, e.membres, l).1,
            ..e
        },
    }
}

/// The states after the steps `pas`, one after the other.
pub open spec fn applique(e: Etats, pas: Seq<Pas>) -> Etats
    decreases pas.len(),
{
    if pas.len() == 0 {
        e
    } else {
        pas_applique(applique(e, pas.drop_last()), pas.last())
    }
}

/// The account and the member that the line `ln` describes, as far as it
/// describes them: nothing without an account, and no member without one.
#[verifier::opaque]
pub open spec fn decrit(ln: Seq<Cellule>, dcc: DataColConfig) -> Option<
    (CleCompte, Option<CleMembre>),
> {
    match compte_lu(ln, dcc) {
        Err(_) => None,
        Ok(kc) => Some(
            (
                kc,
                match membre_lu(ln, dcc) {
                    Ok(km) => Some(km),
                    Err(_) => None,
                },
            ),
        ),
    }
}

/// What is reported of the line `ln` when it is turned down: that its account
/// or its member cannot be read, and why. Nothing for a line that describes
/// both.
#[verifier::opaque]
pub open spec fn rejet(ln: Seq<Cellule>, dcc: DataColConfig) -> Option<Seq<char>> {
    match compte_lu(ln, dcc) {
        Err(e) => Some(
            "Erreur en lisant le compte '"@ + texte_option(texte_a(ln, Some(0))) + "': "@
                + e.texte(),
        ),
        Ok(_) => match membre_lu(ln, dcc) {
            Err(e) => Some(
                "Erreur en lisant le membre '"@ + texte_option(texte_a(ln, Some(0))) + "': "@
                    + e.texte(),
            ),
            Ok(_) => None,
        },
    }
}

/// The step that the line `ln` stands for.
pub open spec fn ligne_lue(ln: Seq<Cellule>, dcc: DataColConfig) -> Pas {
    Pas::Ligne(decrit(ln, dcc))
}

/// Whether the journal `apres` is the journal `avant`, with one error that
/// says `erreur` behind it if there is one to report.
pub open spec fn rapporte(avant: Seq<Message>, apres: Seq<Message>, erreur: Option<Seq<char>>) -> bool {
    match erreur {
        None => apres == avant,
        Some(t) => {
            &&& apres.len() == avant.len() + 1
            &&& apres.drop_last() == avant
            &&& apres.last() is Erreur
            &&& apres.last().texte() == t
        },
    }
}

/// What the journal takes in when the line `ln` is looked at: the rejection,
/// if the line is turned down.
pub open spec fn note_rejet(ln: Seq<Cellule>, dcc: DataColConfig) -> Seq<(bool, Seq<char>)> {
    match rejet(ln, dcc) {
        Some(t) => seq![(true, t)],
        None => Seq::empty(),
    }
}

/// What the journal takes in when the line `ln` is merged into the accounts
/// `ec` and the members `em`: the rejection, if the line is turned down; for
/// a member that is new, what cannot be read of it; nothing for a member that
/// is known.
pub open spec fn notes_ligne(
    ec: Etat<CleCompte>,
    em: Etat<CleMembre>,
    ln: Seq<Cellule>,
    dcc: DataColConfig,
) -> Seq<(bool, Seq<char>)> {
    match rejet(ln, dcc) {
        Some(t) => seq![(true, t)],
        None => match decrit(ln, dcc) {
            Some((kc, Some(km))) => if premier_rang(
                em.cles,
                avec_compte(km, resolution(ec, Compte::graine(kc), kc).1),
            ) is None {
                erreurs_membre(ln, dcc)
            } else {
                Seq::empty()
            },
            _ => Seq::empty(),
        },
    }
}

/// The keys of what was read from a line.
pub open spec fn vue_ligne(r: Option<(Compte, Option<Membre>)>) -> Option<
    (CleCompte, Option<CleMembre>),
> {
    match r {
        None => None,
        Some((c, None)) => Some((c.cle(), None)),
        Some((c, Some(m))) => Some((c.cle(), Some(m.cle()))),
    }
}

/// Whether what was read from a line is fresh: each record has the identifier
/// drawn from its key, the account has no members yet, and nothing is known of
/// the member but who it is.
pub open spec fn fraiche(r: Option<(Compte, Option<Membre>)>) -> bool {
    match r {
        None => true,
        Some((c, om)) => {
            &&& c.id == CompteID(Compte::graine(c.cle()))
            &&& c.membres.vue().len() == 0
            &&& match om {
                Some(m) => m.id == MembreID(Membre::graine(m.cle())) && m.vierge(),
                None => true,
            }
        },
    }
}

/// The steps that the lines of `lignes` stand for, from line `debut` up to,
/// but without, line `fin`.
pub open spec fn lignes_lues(lignes: Seq<Vec<Cellule>>, dcc: DataColConfig, debut: int, fin: int) -> Seq<
    Pas,
>
    decreases fin - debut,
{
    if fin <= debut || fin > lignes.len() || debut < 0 {
        Seq::empty()
    } else {
        lignes_lues(lignes, dcc, debut, fin - 1).push(ligne_lue(lignes[fin - 1]@, dcc))
    }
}

/// The steps that a sheet stands for: none if the sheet is not one of a
/// group, else the group and then the lines behind the first `ln_skip`.
pub open spec fn feuille_lue(lignes: Seq<Vec<Cellule>>, dcc: DataColConfig, ln_skip: int) -> Seq<
    Pas,
> {
    match groupe_lu(lignes) {
        None => Seq::empty(),
        Some(g) => seq![Pas::Groupe(g.cle)] + lignes_lues(
            lignes,
            dcc,
            ln_skip,
            lignes.len() as int,
        ),
    }
}

/// Whether the step is a line that describes a member.
pub open spec fn decrit_membre(p: Pas) -> bool {
    p matches Pas::Ligne(Some((_, Some(_))))
}

/// The states of the three registries.
pub open spec fn etats(groupes: GroupeReg, comptes: CompteReg, membres: MembreReg) -> Etats {
    Etats { groupes: groupes.etat(), comptes: comptes.etat(), membres: membres.etat() }
}

/// Ties the member under `mid` to the account under `cid`, which its key
/// names already, and signs it up for `grp`. The account takes the member in
/// unless it holds it already; an account that stands under another identifier
/// than its own takes nobody in.
fn attache(
    comptes: &mut CompteReg,
    membres: &mut MembreReg,
    grp: &mut Groupe,
    cid: CompteID,
    mid: MembreID,
)
    requires
        old(comptes).wf(),
        old(membres).wf(),
        old(comptes).contient(cid),
        old(membres).contient(mid),
        old(membres).item(mid).compte == Some(cid),
    ensures
        final(comptes).wf(),
        final(membres).wf(),
        final(comptes).etat() == old(comptes).etat(),
        final(membres).etat() == old(membres).etat(),
        final(comptes).contient(cid),
        final(membres).contient(mid),
        old(comptes).coherent() ==> final(comptes).coherent(),
        old(membres).coherent() ==> final(membres).coherent(),
        final(membres).item(mid).compte == Some(cid),
        old(comptes).item(cid).id == cid ==> final(comptes).item(cid).membres.vue().contains(
            old(membres).item(mid).id,
        ),
        *final(grp) == (Groupe { participants: final(grp).participants, ..*old(grp) }),
        final(grp).participants.vue() == ajoute_un(old(grp).participants.vue(), mid),
        comptes_gardes(*old(comptes), *final(comptes)),
        membres_gardes(*old(membres), *final(membres)),
        old(comptes).item(cid).id == cid && old(membres).item(mid).id == mid ==> membres_de(
            *final(comptes),
        ) == membres_de(*old(comptes)).update(
            old(comptes).registre().rang(cid.0),
            ajoute_un(old(comptes).item(cid).membres.vue(), mid),
        ),
{
    let ghost ec = comptes.etat();
    let ghost em = membres.etat();
    let ghost inscrits = comptes.item(cid).membres.vue();
    let ghost id = membres.item(mid).id;
    let compte = comptes.get_mut(cid).unwrap();
    let membre = membres.get_mut(mid).unwrap();
    let r = compte.add_membre(membre);
    proof {
        assert(comptes.etat().cles =~= ec.cles);
        assert(membres.etat().cles =~= em.cles);
        if r is Ok {
            assert(inscrits.push(id)[inscrits.len() as int] == id);
        }
        if old(comptes).item(cid).id == cid && old(membres).item(mid).id == mid {
            assert(membres_de(*comptes) =~= membres_de(*old(comptes)).update(
                old(comptes).registre().rang(cid.0),
                ajoute_un(inscrits, mid),
            ));
        }
    }
    grp.add_participant(mid);
}

/// Merges the account `c`, freshly read, into the registry. A new account
/// comes without members.
fn inscrit_compte(comptes: &mut CompteReg, c: Compte) -> (cid: CompteID)
    requires
        old(comptes).wf(),
        old(comptes).registre().cles().len() < 0x1_0000_0000,
        c.membres.vue().len() == 0,
    ensures
        final(comptes).wf(),
        final(comptes).registre().cles().len() <= old(comptes).registre().cles().len() + 1,
        (final(comptes).etat(), cid.0) == resolution(old(comptes).etat(), c.id.0, c.cle()),
        final(comptes).contient(cid),
        final(comptes).registre().rang(cid.0) == rang_resolu(old(comptes).etat(), c.cle()),
        membres_de(*final(comptes)) == etendu(
            membres_de(*old(comptes)),
            old(comptes).etat(),
            c.cle(),
        ),
        old(comptes).coherent() ==> final(comptes).coherent() && final(comptes).item(cid).id
            == cid,
        comptes_gardes(*old(comptes), *final(comptes)),
{
    let cid = comptes.resoudre(c);
    proof {
        assert(c.membres.vue() =~= Seq::<MembreID>::empty());
        assert(membres_de(*comptes) =~= etendu(
            membres_de(*old(comptes)),
            old(comptes).etat(),
            c.cle(),
        ));
    }
    cid
}

/// Merges the member `lu`, freshly read from the line `ln`, into the registry
/// as a member of the account under `cid`, ties it to the account and signs it
/// up for `grp`. A member that the registry does not know is first given what the
/// line says of it.
fn inscrit_membre(
    comptes: &mut CompteReg,
    membres: &mut MembreReg,
    grp: &mut Groupe,
    cid: CompteID,
    lu: Membre,
    ln: &Vec<Cellule>,
    dcc: &DataColConfig,
    journal: &mut Vec<Message>,
)
    requires
        old(comptes).wf(),
        old(membres).wf(),
        old(membres).registre().cles().len() < 0x1_0000_0000,
        old(comptes).contient(cid),
        lu.vierge(),
    ensures
        final(comptes).wf(),
        final(membres).wf(),
        final(comptes).etat() == old(comptes).etat(),
        final(membres).registre().items().len() > old(membres).registre().items().len() ==> entre(
            final(membres).registre().items().last(),
            ln@,
            *dcc,
        ),
        final(comptes).contient(cid),
        final(membres).registre().cles().len() <= old(membres).registre().cles().len() + 1,
        ({
            let (em, id) = resolution(
                old(membres).etat(),
                lu.id.0,
                avec_compte(lu.cle(), cid.0),
            );
            let mid = MembreID(id);
            &&& final(membres).etat() == em
            &&& final(membres).contient(mid)
            &&& final(membres).item(mid).compte == Some(cid)
            &&& final(grp).participants.vue() == ajoute_un(old(grp).participants.vue(), mid)
            &&& old(comptes).item(cid).id == cid && old(membres).coherent() ==> membres_de(
                *final(comptes),
            ) == membres_de(*old(comptes)).update(
                old(comptes).registre().rang(cid.0),
                ajoute_un(old(comptes).item(cid).membres.vue(), mid),
            )
        }),
        *final(grp) == (Groupe { participants: final(grp).participants, ..*old(grp) }),
        old(comptes).coherent() ==> final(comptes).coherent(),
        old(membres).coherent() ==> final(membres).coherent(),
        comptes_gardes(*old(comptes), *final(comptes)),
        membres_gardes(*old(membres), *final(membres)),
        prolonge(old(journal)@, final(journal)@),
        notes(final(journal)@) == notes(old(journal)@) + (if premier_rang(
            old(membres).etat().cles,
            avec_compte(lu.cle(), cid.0),
        ) is None {
            erreurs_membre(ln@, *dcc)
        } else {
            Seq::empty()
        }),
{
    let mut mbr = lu;
    mbr.compte = Some(cid);
    proof {
        lemme_vierge(lu, mbr);
        assert(mbr.cle() == avec_compte(lu.cle(), cid.0));
    }
    let ghost blanc = mbr;
    let mut mbr = mbr;
    assert(notes(journal@) + Seq::<(bool, Seq<char>)>::empty() =~= notes(journal@));
    if membres.cherche_equivalent(&mbr).is_none() {
        fill_membre_info(ln, dcc, &mut mbr, journal);
        assert(rempli(blanc, mbr, ln@, *dcc)) by {
            reveal(rempli);
        }
    }
    let ghost plein = mbr;
    let mid = membres.resoudre(mbr);
    let ghost m1 = *membres;
    attache(comptes, membres, grp, cid, mid);
    proof {
        let n = old(membres).registre().items().len() as int;
        if membres.registre().items().len() > n {
            assert(m1.registre().items().len() == n + 1);
            assert(m1.registre().items()[n] == plein.avec_id(mid));
            assert(membres.registre().items()[n] == m1.registre().items()[n]);
            assert(membres.registre().items().last() == plein.avec_id(mid));
            assert(rempli(blanc, plein, ln@, *dcc));
        }
    }
}

/// Reads the account and the member that the line `ln` describes. A line
/// whose account cannot be read gives nothing; one whose member cannot be read
/// gives its account alone. Either is reported in `journal`.
fn extrait_ligne(ln: &Vec<Cellule>, dcc: &DataColConfig, journal: &mut Vec<Message>) -> (r: Option<
    (Compte, Option<Membre>),
>)
    ensures
        vue_ligne(r) == decrit(ln@, *dcc),
        fraiche(r),
        rejet(ln@, *dcc) is None <==> decrit(ln@, *dcc) matches Some((_, Some(_))),
        rapporte(old(journal)@, final(journal)@, rejet(ln@, *dcc)),
        notes(final(journal)@) == notes(old(journal)@) + note_rejet(ln@, *dcc),
{
    proof {
        reveal(decrit);
        reveal(rejet);
        assert(notes(journal@) + Seq::<(bool, Seq<char>)>::empty() =~= notes(journal@));
    }
    match extract_compte_info(ln, dcc) {
        Err(e) => {
            let mut t = String::from_str("Erreur en lisant le compte '");
            t.append(print_option(&lit_texte(ln, Some(0))).as_str());
            t.append("': ");
            t.append(e.to_string().as_str());
            note(journal, Message::Erreur(t));
            assert(journal@.drop_last() =~= old(journal)@);
            None
        },
        Ok(c) => match extract_membre_info(ln, dcc) {
            Err(e) => {
                let mut t = String::from_str("Erreur en lisant le membre '");
                t.append(print_option(&lit_texte(ln, Some(0))).as_str());
                t.append("': ");
                t.append(e.to_string().as_str());
                note(journal, Message::Erreur(t));
                assert(journal@.drop_last() =~= old(journal)@);
                Some((c, None))
            },
            Ok(mbr) => Some((c, Some(mbr))),
        },
    }
}

/// Merges what the line `ln` describes into the registries: its account, its
/// member, and the tie of the member to the account and to the group `grp`. A
/// line that describes no account changes nothing; one that describes no
/// member leaves its account behind. Both are reported in `journal`.
pub fn importe_ligne(
    comptes: &mut CompteReg,
    membres: &mut MembreReg,
    grp: &mut Groupe,
    ln: &Vec<Cellule>,
    dcc: &DataColConfig,
    journal: &mut Vec<Message>,
)
    requires
        old(comptes).wf(),
        old(membres).wf(),
        old(comptes).registre().cles().len() < 0x1_0000_0000,
        old(membres).registre().cles().len() < 0x1_0000_0000,
    ensures
        final(comptes).wf(),
        final(membres).wf(),
        final(comptes).registre().cles().len() <= old(comptes).registre().cles().len() + 1,
        final(membres).registre().cles().len() <= old(membres).registre().cles().len() + 1,
        (final(comptes).etat(), final(membres).etat()) == ligne_appliquee(
            old(comptes).etat(),
            old(membres).etat(),
            decrit(ln@, *dcc),
        ),
        *final(grp) == (Groupe { participants: final(grp).participants, ..*old(grp) }),
        decrit(ln@, *dcc) matches Some((kc, Some(km))) ==> {
            let (cid, mid) = ids_ligne(old(comptes).etat(), old(membres).etat(), kc, km);
            &&& final(comptes).contient(cid)
            &&& final(membres).contient(mid)
            &&& final(membres).item(mid).compte == Some(cid)
        },
        old(comptes).coherent() ==> final(comptes).coherent(),
        old(membres).coherent() ==> final(membres).coherent(),
        !decrit_membre(ligne_lue(ln@, *dcc)) ==> *final(grp) == *old(grp),
        final(grp).participants.vue() == participants_apres(
            old(grp).participants.vue(),
            old(comptes).etat(),
            old(membres).etat(),
            decrit(ln@, *dcc),
        ),
        old(comptes).coherent() && old(membres).coherent() ==> membres_de(*final(comptes))
            == membres_apres(
            membres_de(*old(comptes)),
            old(comptes).etat(),
            old(membres).etat(),
            decrit(ln@, *dcc),
        ),
        comptes_gardes(*old(comptes), *final(comptes)),
        membres_gardes(*old(membres), *final(membres)),
        notes(final(journal)@) == notes(old(journal)@) + notes_ligne(
            old(comptes).etat(),
            old(membres).etat(),
            ln@,
            *dcc,
        ),
        final(membres).registre().items().len() > old(membres).registre().items().len() ==> entre(
            final(membres).registre().items().last(),
            ln@,
            *dcc,
        ),
        prolonge(old(journal)@, final(journal)@),
        rejet(ln@, *dcc) is None <==> decrit_membre(ligne_lue(ln@, *dcc)),
        rejet(ln@, *dcc) is Some ==> rapporte(old(journal)@, final(journal)@, rejet(ln@, *dcc)),
        nb_erreurs(final(journal)@) >= nb_erreurs(old(journal)@) + (if rejet(ln@, *dcc) is Some {
            1nat
        } else {
            0nat
        }),
{
    let ghost j0 = journal@;
    let ghost vide = Seq::<(bool, Seq<char>)>::empty();
    assert(notes(journal@) + vide =~= notes(journal@));
    match extrait_ligne(ln, dcc, journal) {
        None => {},
        Some((c, om)) => {
            let cid = inscrit_compte(comptes, c);
            if let Some(mbr) = om {
                let ghost km = mbr.cle();
                assert(Membre::graine(avec_compte(km, cid.0)) == Membre::graine(km));
                assert(membres_de(*comptes)[comptes.registre().rang(cid.0)] == comptes.item(
                    cid,
                ).membres.vue());
                inscrit_membre(comptes, membres, grp, cid, mbr, ln, dcc, journal);
            }
        },
    }
    proof {
        if rejet(ln@, *dcc) is Some {
            lemme_erreurs_note(old(journal)@, journal@.last());
            assert(journal@ =~= old(journal)@.push(journal@.last()));
        } else {
            lemme_erreurs_prolonge(old(journal)@, journal@);
        }
    }
}

/// Steps in a row amount to the first ones, then the others.
pub proof fn lemme_applique_suite(e: Etats, a: Seq<Pas>, b: Seq<Pas>)
    ensures
        applique(e, a + b) == applique(applique(e, a), b),
    decreases b.len(),
{
    if b.len() == 0 {
        assert(a + b =~= a);
    } else {
        lemme_applique_suite(e, a, b.drop_last());
        assert((a + b).drop_last() =~= a + b.drop_last());
        assert((a + b).last() == b.last());
    }
}

/// What the journal takes in when the lines of `lignes`, from line `debut` up
/// to, but without, line `fin`, are merged one after the other into
/// registries that go by `e0`.
pub open spec fn notes_lignes(
    e0: Etats,
    lignes: Seq<Vec<Cellule>>,
    dcc: DataColConfig,
    debut: int,
    fin: int,
) -> Seq<(bool, Seq<char>)>
    decreases fin - debut,
{
    if fin <= debut || fin > lignes.len() || debut < 0 {
        Seq::empty()
    } else {
        let e = applique(e0, lignes_lues(lignes, dcc, debut, fin - 1));
        notes_lignes(e0, lignes, dcc, debut, fin - 1) + notes_ligne(
            e.comptes,
            e.membres,
            lignes[fin - 1]@,
            dcc,
        )
    }
}

/// The number of lines of `lignes`, from line `debut` up to, but without, line
/// `fin`, that are turned down: those that describe no account or no member.
pub open spec fn nb_rejets(lignes: Seq<Vec<Cellule>>, dcc: DataColConfig, debut: int, fin: int) -> nat
    decreases fin - debut,
{
    if fin <= debut || fin > lignes.len() || debut < 0 {
        0
    } else {
        nb_rejets(lignes, dcc, debut, fin - 1) + (if rejet(lignes[fin - 1]@, dcc) is Some {
            1nat
        } else {
            0nat
        })
    }
}

/// Merges the lines of the sheet `plage` behind the first `ln_skip` into the
/// registries, the members signing up for the group `gid` and being taken in
/// by their accounts.
pub fn importe_lignes(
    comptes: &mut CompteReg,
    membres: &mut MembreReg,
    groupes: &mut GroupeReg,
    gid: GroupeID,
    plage: &Plage,
    dcc: &DataColConfig,
    ln_skip: usize,
    journal: &mut Vec<Message>,
)
    requires
        old(comptes).wf(),
        old(membres).wf(),
        old(groupes).wf(),
        old(groupes).contient(gid),
        old(comptes).registre().cles().len() + plage.lignes().len() < 0x1_0000_0000,
        old(membres).registre().cles().len() + plage.lignes().len() < 0x1_0000_0000,
    ensures
        final(comptes).wf(),
        final(membres).wf(),
        final(groupes).wf(),
        final(groupes).registre().cles() == old(groupes).registre().cles(),
        final(comptes).registre().cles().len() <= old(comptes).registre().cles().len()
            + plage.lignes().len(),
        final(membres).registre().cles().len() <= old(membres).registre().cles().len()
            + plage.lignes().len(),
        etats(*final(groupes), *final(comptes), *final(membres)) == applique(
            etats(*old(groupes), *old(comptes), *old(membres)),
            lignes_lues(plage.lignes(), *dcc, ln_skip as int, plage.lignes().len() as int),
        ),
        suivent(
            *final(groupes),
            *final(comptes),
            *final(membres),
            suit(
                suivi_de(
                    *old(groupes),
                    *old(comptes),
                    *old(membres),
                    old(groupes).registre().rang(gid.0),
                ),
                lignes_lues(plage.lignes(), *dcc, ln_skip as int, plage.lignes().len() as int),
            ),
            old(comptes).coherent() && old(membres).coherent(),
        ),
        gardes(
            *old(groupes),
            *old(comptes),
            *old(membres),
            *final(groupes),
            *final(comptes),
            *final(membres),
        ),
        notes(final(journal)@) == notes(old(journal)@) + notes_lignes(
            etats(*old(groupes), *old(comptes), *old(membres)),
            plage.lignes(),
            *dcc,
            ln_skip as int,
            plage.lignes().len() as int,
        ),
        entrees(*old(membres), *final(membres), plage.lignes(), *dcc),
        prolonge(old(journal)@, final(journal)@),
        nb_erreurs(final(journal)@) >= nb_erreurs(old(journal)@) + nb_rejets(
            plage.lignes(),
            *dcc,
            ln_skip as int,
            plage.lignes().len() as int,
        ),
{
    let (h, _) = plage.get_size();
    let mut i: usize = if ln_skip < h {
        ln_skip
    } else {
        h
    };
    let ghost depart = etats(*groupes, *comptes, *membres);
    let ghost debut = i;
    let ghost rg = groupes.registre().rang(gid.0);
    let ghost s0 = suivi_de(*groupes, *comptes, *membres, rg);
    let ghost coh = comptes.coherent() && membres.coherent();
    assert(notes(journal@) + Seq::<(bool, Seq<char>)>::empty() =~= notes(journal@));
    while i < h
        invariant
            debut <= i <= h,
            notes(journal@) == notes(old(journal)@) + notes_lignes(
                depart,
                plage.lignes(),
                *dcc,
                ln_skip as int,
                i as int,
            ),
            rg == old(groupes).registre().rang(gid.0),
            s0 == suivi_de(*old(groupes), *old(comptes), *old(membres), rg),
            coh == (old(comptes).coherent() && old(membres).coherent()),
            suit(s0, lignes_lues(plage.lignes(), *dcc, ln_skip as int, i as int)).courant == rg,
            suivent(
                *groupes,
                *comptes,
                *membres,
                suit(s0, lignes_lues(plage.lignes(), *dcc, ln_skip as int, i as int)),
                coh,
            ),
            nb_erreurs(journal@) >= nb_erreurs(old(journal)@) + nb_rejets(
                plage.lignes(),
                *dcc,
                ln_skip as int,
                i as int,
            ),
            gardes(*old(groupes), *old(comptes), *old(membres), *groupes, *comptes, *membres),
            entrees(*old(membres), *membres, plage.lignes(), *dcc),
            debut == if ln_skip < h {
                ln_skip
            } else {
                h
            },
            h == plage.lignes().len(),
            comptes.wf(),
            membres.wf(),
            groupes.wf(),
            groupes.contient(gid),
            groupes.registre().cles() == old(groupes).registre().cles(),
            comptes.registre().cles().len() <= old(comptes).registre().cles().len() + (i - debut),
            membres.registre().cles().len() <= old(membres).registre().cles().len() + (i - debut),
            old(comptes).registre().cles().len() + plage.lignes().len() < 0x1_0000_0000,
            old(membres).registre().cles().len() + plage.lignes().len() < 0x1_0000_0000,
            depart == etats(*old(groupes), *old(comptes), *old(membres)),
            etats(*groupes, *comptes, *membres) == applique(
                depart,
                lignes_lues(plage.lignes(), *dcc, ln_skip as int, i as int),
            ),
            prolonge(old(journal)@, journal@),
        decreases h - i,
    {
        let ghost eg = groupes.etat();
        let ghost j0 = journal@;
        let ghost avant = suit(s0, lignes_lues(plage.lignes(), *dcc, ln_skip as int, i as int));
        let ghost pg = participants_de(*groupes);
        let ghost g1 = *groupes;
        let ghost c1 = *comptes;
        let ghost m1 = *membres;
        let ln = plage.ligne(i);
        let grp = groupes.get_mut(gid).unwrap();
        importe_ligne(comptes, membres, grp, ln, dcc, journal);
        proof {
            lemme_pas_ligne(avant, decrit(ln@, *dcc));
            assert forall|r: int|
                old(membres).registre().items().len() <= r
                    < membres.registre().items().len() implies vient_de(
                #[trigger] membres.registre().items()[r],
                plage.lignes(),
                *dcc,
            ) by {
                if r < m1.registre().items().len() {
                    assert(membres.registre().items()[r] == m1.registre().items()[r]);
                } else {
                    assert(membres.registre().items()[r] == membres.registre().items().last());
                    assert(entre(membres.registre().items()[r], plage.lignes()[i as int]@, *dcc));
                }
            }
            lemme_notes_suite(
                notes(old(journal)@),
                notes_lignes(depart, plage.lignes(), *dcc, ln_skip as int, i as int),
                notes_ligne(c1.etat(), m1.etat(), ln@, *dcc),
            );
            assert(groupes_gardes(g1, *groupes));
            lemme_gardes_suite(
                *old(groupes),
                *old(comptes),
                *old(membres),
                g1,
                c1,
                m1,
                *groupes,
                *comptes,
                *membres,
            );
            assert(groupes.etat().cles =~= eg.cles);
            let suivantes = lignes_lues(plage.lignes(), *dcc, ln_skip as int, i + 1);
            assert(suivantes.drop_last() =~= lignes_lues(
                plage.lignes(),
                *dcc,
                ln_skip as int,
                i as int,
            ));
            assert(suivantes.last() == ligne_lue(ln@, *dcc));
            lemme_prolonge(old(journal)@, j0, journal@);
            assert(suit(s0, suivantes) == pas_suivi(avant, ligne_lue(ln@, *dcc)));
            lemme_suit_etats(s0, suivantes);
            assert(participants_de(*groupes) =~= pg.update(
                rg,
                participants_apres(pg[rg], avant.e.comptes, avant.e.membres, decrit(ln@, *dcc)),
            ));
        }
        i += 1;
    }
}

/// For each sheet, whether it is one of a group.
pub open spec fn lisibles(feuilles: Seq<Feuille>) -> Seq<bool> {
    feuilles.map_values(|f: Feuille| groupe_lu(f.plage.lignes()) is Some)
}

/// The columns that a reading of `feuilles` goes by: those that the first
/// sheet of a group announces on line `data_ln`.
pub open spec fn colonnes(feuilles: Seq<Feuille>, data_ln: int) -> Option<DataColConfig> {
    match premier_rang(lisibles(feuilles), true) {
        Some(i) => Some(DataColConfig::lu(ligne_titres(feuilles[i].plage.lignes(), data_ln))),
        None => None,
    }
}

/// The steps that the first `k` sheets of `feuilles` stand for, read by the
/// columns `dcc`.
pub open spec fn lecture_jusqua(feuilles: Seq<Feuille>, dcc: DataColConfig, ln_skip: int, k: int) -> Seq<
    Pas,
>
    decreases k,
{
    if k <= 0 || k > feuilles.len() {
        Seq::empty()
    } else {
        lecture_jusqua(feuilles, dcc, ln_skip, k - 1) + feuille_lue(
            feuilles[k - 1].plage.lignes(),
            dcc,
            ln_skip,
        )
    }
}

/// The steps that a reading of the sheets `feuilles` takes: for each sheet of
/// a group, the group and the lines behind the first `ln_skip`.
pub open spec fn lecture(feuilles: Seq<Feuille>, data_ln: int, ln_skip: int) -> Seq<Pas> {
    match colonnes(feuilles, data_ln) {
        Some(dcc) => lecture_jusqua(feuilles, dcc, ln_skip, feuilles.len() as int),
        None => Seq::empty(),
    }
}

/// A reading begins with the group of a sheet.
pub proof fn lemme_jusqua_groupe(feuilles: Seq<Feuille>, dcc: DataColConfig, ln_skip: int, k: int)
    ensures
        lecture_jusqua(feuilles, dcc, ln_skip, k).len() > 0 ==> lecture_jusqua(
            feuilles,
            dcc,
            ln_skip,
            k,
        )[0] is Groupe,
    decreases k,
{
    if 0 < k <= feuilles.len() {
        lemme_jusqua_groupe(feuilles, dcc, ln_skip, k - 1);
    }
}

/// A reading begins with the group of a sheet.
pub proof fn lemme_lecture_groupe(feuilles: Seq<Feuille>, data_ln: int, ln_skip: int)
    ensures
        lecture(feuilles, data_ln, ln_skip).len() > 0 ==> lecture(
            feuilles,
            data_ln,
            ln_skip,
        )[0] is Groupe,
{
    if colonnes(feuilles, data_ln) is Some {
        lemme_jusqua_groupe(
            feuilles,
            colonnes(feuilles, data_ln)->0,
            ln_skip,
            feuilles.len() as int,
        );
    }
}

/// The number of lines in the sheets of `feuilles` from sheet `k` on.
pub open spec fn nb_lignes(feuilles: Seq<Feuille>, k: int) -> nat
    decreases feuilles.len() - k,
{
    if k < 0 || k >= feuilles.len() {
        0
    } else {
        feuilles[k].plage.lignes().len() + nb_lignes(feuilles, k + 1)
    }
}

/// Without a sheet of a group nothing is read, whatever the columns.
pub proof fn lemme_lecture_vide(feuilles: Seq<Feuille>, dcc: DataColConfig, ln_skip: int, k: int)
    requires
        0 <= k <= feuilles.len(),
        forall|j: int| 0 <= j < k ==> !lisibles(feuilles)[j],
    ensures
        lecture_jusqua(feuilles, dcc, ln_skip, k).len() == 0,
    decreases k,
{
    if k > 0 {
        lemme_lecture_vide(feuilles, dcc, ln_skip, k - 1);
        assert(!lisibles(feuilles)[k - 1]);
    }
}

/// One step alone is that step.
pub proof fn lemme_applique_un(e: Etats, p: Pas)
    ensures
        applique(e, seq![p]) == pas_applique(e, p),
{
    assert(seq![p].drop_last() =~= Seq::<Pas>::empty());
    assert(applique(e, Seq::<Pas>::empty()) == e);
}

/// No step changes nothing.
pub proof fn lemme_applique_rien(e: Etats)
    ensures
        applique(e, Seq::<Pas>::empty()) == e,
{
}

/// What the journal takes in when a group with key `k` is merged into groups
/// that go by `e`: that the group is read, and that it is there already if it
/// is.
pub open spec fn notes_groupe(e: Etat<CleGroupe>, k: CleGroupe) -> Seq<(bool, Seq<char>)> {
    seq![(false, annonce(k))] + (if premier_rang(e.cles, k) is Some {
        seq![(false, "Groupe déjà existant!!"@)]
    } else {
        Seq::empty()
    })
}

/// Whether the group `g` is as the sheet `lignes` enters it: the group and
/// the ages that the sheet names, no sub-group, and a number of places that
/// is not known.
pub open spec fn groupe_entre(g: Groupe, lignes: Seq<Vec<Cellule>>) -> bool {
    &&& groupe_lu(lignes) == Some(GroupeLu { cle: g.cle(), age_min: g.age_min, age_max: g.age_max })
    &&& g.sous_groupe@.len() == 0
    &&& g.capacite is None
}

/// Whether every group that `b` holds behind those of `a` is as one of the
/// sheets `feuilles` enters it.
pub open spec fn groupes_entres(a: GroupeReg, b: GroupeReg, feuilles: Seq<Feuille>) -> bool {
    forall|r: int|
        a.registre().items().len() <= r < b.registre().items().len() ==> exists|k: int|
            0 <= k < feuilles.len() && groupe_entre(
                #[trigger] b.registre().items()[r],
                #[trigger] feuilles[k].plage.lignes(),
            )
}

/// Merges the group `grp`, freshly read, into the registry, and reports it.
fn inscrit_groupe(groupes: &mut GroupeReg, grp: Groupe, journal: &mut Vec<Message>) -> (gid:
    GroupeID)
    requires
        old(groupes).wf(),
        old(groupes).registre().cles().len() < 0x1_0000_0000,
        grp.id == GroupeID(Groupe::graine(grp.cle())),
    ensures
        final(groupes).wf(),
        final(groupes).contient(gid),
        final(groupes).registre().cles().len() <= old(groupes).registre().cles().len() + 1,
        final(groupes).etat() == resolution(
            old(groupes).etat(),
            Groupe::graine(grp.cle()),
            grp.cle(),
        ).0,
        final(groupes).registre().rang(gid.0) == rang_resolu(old(groupes).etat(), grp.cle()),
        grp.participants.vue().len() == 0 ==> participants_de(*final(groupes)) == etendu(
            participants_de(*old(groupes)),
            old(groupes).etat(),
            grp.cle(),
        ),
        groupes_gardes(*old(groupes), *final(groupes)),
        final(groupes).registre().items().len() > old(groupes).registre().items().len()
            ==> final(groupes).registre().items().last() == grp.avec_id(gid),
        prolonge(old(journal)@, final(journal)@),
        notes(final(journal)@) == notes(old(journal)@) + notes_groupe(
            old(groupes).etat(),
            grp.cle(),
        ),
{
    let ghost n0 = notes(journal@);
    note(journal, annonce_groupe(&grp));
    let ghost j1 = journal@;
    if groupes.cherche_equivalent(&grp).is_some() {
        note(journal, Message::Info(String::from_str("Groupe déjà existant!!")));
    }
    proof {
        lemme_prolonge(old(journal)@, j1, journal@);
        let a = seq![(false, annonce(grp.cle()))];
        if premier_rang(old(groupes).etat().cles, grp.cle()) is Some {
            lemme_notes_suite(n0, a, seq![(false, "Groupe déjà existant!!"@)]);
        } else {
            assert(a + Seq::<(bool, Seq<char>)>::empty() =~= a);
        }
    }
    let gid = groupes.resoudre(grp);
    proof {
        if grp.participants.vue().len() == 0 {
            assert(grp.participants.vue() =~= Seq::<MembreID>::empty());
            assert(participants_de(*groupes) =~= etendu(
                participants_de(*old(groupes)),
                old(groupes).etat(),
                grp.cle(),
            ));
        }
    }
    gid
}

/// What is reported of a sheet that is not one of a group.
pub open spec fn refus_feuille(nom: Seq<char>) -> Seq<char> {
    "Erreur en lisant la page '"@ + nom + "': "@ + ExtractError::InvalidFormat.texte()
}

/// What the journal takes in when the sheet named `nom` is merged into
/// registries that go by `e`, by the columns `dc`: the rejection of a sheet
/// that is not one of a group; else what is said of its group, then of its
/// lines.
pub open spec fn notes_feuille(
    e: Etats,
    nom: Seq<char>,
    lignes: Seq<Vec<Cellule>>,
    dc: Option<DataColConfig>,
    ln_skip: int,
) -> Seq<(bool, Seq<char>)> {
    match groupe_lu(lignes) {
        None => seq![(true, refus_feuille(nom))],
        Some(g) => notes_groupe(e.groupes, g.cle) + (match dc {
            Some(d) => notes_lignes(
                pas_applique(e, Pas::Groupe(g.cle)),
                lignes,
                d,
                ln_skip,
                lignes.len() as int,
            ),
            None => Seq::empty(),
        }),
    }
}

/// What the journal takes in when the first `k` sheets of `feuilles` are
/// merged one after the other into registries that go by `e0`.
pub open spec fn notes_jusqua(
    e0: Etats,
    feuilles: Seq<Feuille>,
    dc: Option<DataColConfig>,
    ln_skip: int,
    k: int,
) -> Seq<(bool, Seq<char>)>
    decreases k,
{
    if k <= 0 || k > feuilles.len() {
        Seq::empty()
    } else {
        notes_jusqua(e0, feuilles, dc, ln_skip, k - 1) + notes_feuille(
            applique(e0, pas_jusqua(feuilles, dc, ln_skip, k - 1)),
            feuilles[k - 1].nom@,
            feuilles[k - 1].plage.lignes(),
            dc,
            ln_skip,
        )
    }
}

/// The journal of a reading of the sheets `feuilles` into registries that go
/// by `e0`: for each sheet in turn its rejection, or what is said of its group
/// and of its lines.
pub open spec fn notes_lecture(e0: Etats, feuilles: Seq<Feuille>, data_ln: int, ln_skip: int) -> Seq<
    (bool, Seq<char>),
> {
    notes_jusqua(e0, feuilles, colonnes(feuilles, data_ln), ln_skip, feuilles.len() as int)
}

/// Of sheets that are not of a group the same is reported, whatever the
/// columns.
pub proof fn lemme_notes_illisibles(
    e0: Etats,
    feuilles: Seq<Feuille>,
    a: Option<DataColConfig>,
    b: Option<DataColConfig>,
    ln_skip: int,
    k: int,
)
    requires
        0 <= k <= feuilles.len(),
        forall|j: int| 0 <= j < k ==> !lisibles(feuilles)[j],
    ensures
        notes_jusqua(e0, feuilles, a, ln_skip, k) == notes_jusqua(e0, feuilles, b, ln_skip, k),
    decreases k,
{
    if k > 0 {
        lemme_notes_illisibles(e0, feuilles, a, b, ln_skip, k - 1);
        assert(!lisibles(feuilles)[k - 1]);
    }
}

/// The steps that a sheet stands for in a reading that goes by the columns
/// `dc` once it has seen the sheet: none without columns.
pub open spec fn pas_feuille(lignes: Seq<Vec<Cellule>>, dc: Option<DataColConfig>, ln_skip: int) -> Seq<
    Pas,
> {
    match dc {
        Some(d) => feuille_lue(lignes, d, ln_skip),
        None => Seq::empty(),
    }
}

/// The number of rejections that a sheet gives rise to: one for a sheet that
/// is not one of a group, else one for each of its lines that is turned down.
pub open spec fn rejets_feuille(
    lignes: Seq<Vec<Cellule>>,
    dc: Option<DataColConfig>,
    ln_skip: int,
) -> nat {
    if groupe_lu(lignes) is None {
        1
    } else {
        match dc {
            Some(d) => nb_rejets(lignes, d, ln_skip, lignes.len() as int),
            None => 0,
        }
    }
}

/// The number of rejections that the first `k` sheets of `feuilles` give rise
/// to.
pub open spec fn rejets_jusqua(
    feuilles: Seq<Feuille>,
    dc: Option<DataColConfig>,
    ln_skip: int,
    k: int,
) -> nat
    decreases k,
{
    if k <= 0 || k > feuilles.len() {
        0
    } else {
        rejets_jusqua(feuilles, dc, ln_skip, k - 1) + rejets_feuille(
            feuilles[k - 1].plage.lignes(),
            dc,
            ln_skip,
        )
    }
}

/// The number of rejections that a reading of the sheets `feuilles` gives rise
/// to: the sheets that are not of a group, and the lines of the others that
/// describe no account or no member.
pub open spec fn rejets(feuilles: Seq<Feuille>, data_ln: int, ln_skip: int) -> nat {
    rejets_jusqua(feuilles, colonnes(feuilles, data_ln), ln_skip, feuilles.len() as int)
}

/// The columns that a reading goes by once it has seen the sheet `lignes`:
/// those it went by before, or those that the sheet announces if it is the
/// first one of a group.
pub open spec fn colonnes_apres(
    avant: Option<DataColConfig>,
    lignes: Seq<Vec<Cellule>>,
    data_ln: int,
) -> Option<DataColConfig> {
    match avant {
        Some(d) => Some(d),
        None => if groupe_lu(lignes) is Some {
            Some(DataColConfig::lu(ligne_titres(lignes, data_ln)))
        } else {
            None
        },
    }
}

/// Merges what one sheet describes into the registries: its group, then its
/// lines. A sheet that is not one of a group is reported and changes nothing.
pub fn importe_feuille(
    comptes: &mut CompteReg,
    membres: &mut MembreReg,
    groupes: &mut GroupeReg,
    config: &Config,
    feuille: &Feuille,
    dc: &mut Option<DataColConfig>,
    journal: &mut Vec<Message>,
)
    requires
        old(comptes).wf(),
        old(membres).wf(),
        old(groupes).wf(),
        old(groupes).registre().cles().len() < 0x1_0000_0000,
        old(comptes).registre().cles().len() + feuille.plage.lignes().len() < 0x1_0000_0000,
        old(membres).registre().cles().len() + feuille.plage.lignes().len() < 0x1_0000_0000,
    ensures
        final(comptes).wf(),
        final(membres).wf(),
        final(groupes).wf(),
        final(groupes).registre().cles().len() <= old(groupes).registre().cles().len() + 1,
        final(comptes).registre().cles().len() <= old(comptes).registre().cles().len()
            + feuille.plage.lignes().len(),
        final(membres).registre().cles().len() <= old(membres).registre().cles().len()
            + feuille.plage.lignes().len(),
        *final(dc) == colonnes_apres(
            *old(dc),
            feuille.plage.lignes(),
            config.excel.data_ln as int,
        ),
        match *final(dc) {
            Some(d) => etats(*final(groupes), *final(comptes), *final(membres)) == applique(
                etats(*old(groupes), *old(comptes), *old(membres)),
                feuille_lue(feuille.plage.lignes(), d, config.excel.ln_skip as int),
            ),
            None => etats(*final(groupes), *final(comptes), *final(membres)) == etats(
                *old(groupes),
                *old(comptes),
                *old(membres),
            ) && groupe_lu(feuille.plage.lignes()) is None,
        },
        suivent(
            *final(groupes),
            *final(comptes),
            *final(membres),
            suit(
                suivi_de(*old(groupes), *old(comptes), *old(membres), -1),
                pas_feuille(feuille.plage.lignes(), *final(dc), config.excel.ln_skip as int),
            ),
            old(comptes).coherent() && old(membres).coherent(),
        ),
        gardes(
            *old(groupes),
            *old(comptes),
            *old(membres),
            *final(groupes),
            *final(comptes),
            *final(membres),
        ),
        notes(final(journal)@) == notes(old(journal)@) + notes_feuille(
            etats(*old(groupes), *old(comptes), *old(membres)),
            feuille.nom@,
            feuille.plage.lignes(),
            *final(dc),
            config.excel.ln_skip as int,
        ),
        match *final(dc) {
            Some(d) => entrees(*old(membres), *final(membres), feuille.plage.lignes(), d),
            None => final(membres).registre().items().len() == old(
                membres,
            ).registre().items().len(),
        },
        final(groupes).registre().items().len() > old(groupes).registre().items().len()
            ==> groupe_entre(final(groupes).registre().items().last(), feuille.plage.lignes()),
        prolonge(old(journal)@, final(journal)@),
        groupe_lu(feuille.plage.lignes()) is None ==> rapporte(
            old(journal)@,
            final(journal)@,
            Some(
                "Erreur en lisant la page '"@ + feuille.nom@ + "': "@
                    + ExtractError::InvalidFormat.texte(),
            ),
        ),
        nb_erreurs(final(journal)@) >= nb_erreurs(old(journal)@) + rejets_feuille(
            feuille.plage.lignes(),
            *final(dc),
            config.excel.ln_skip as int,
        ),
{
    let rng = &feuille.plage;
    let ghost lignes = rng.lignes();
    let ghost depart = etats(*groupes, *comptes, *membres);
    let ghost s0 = suivi_de(*groupes, *comptes, *membres, -1);
    let ghost coh = comptes.coherent() && membres.coherent();
    let ghost skip = config.excel.ln_skip as int;
    let grp = match extract_group_info(rng) {
        Ok(grp) => grp,
        Err(e) => {
            let mut t = String::from_str("Erreur en lisant la page '");
            t.append(feuille.nom.as_str());
            t.append("': ");
            t.append(e.to_string().as_str());
            note(journal, Message::Erreur(t));
            proof {
                if *dc is Some {
                    assert(feuille_lue(lignes, (*dc)->0, skip) =~= Seq::<Pas>::empty());
                    lemme_applique_rien(depart);
                }
                assert(pas_feuille(lignes, *dc, skip) =~= Seq::<Pas>::empty());
                assert(suit(s0, Seq::<Pas>::empty()) == s0);
                assert(journal@.drop_last() =~= old(journal)@);
                lemme_erreurs_note(old(journal)@, Message::Erreur(t));
                assert(t@ =~= refus_feuille(feuille.nom@));
            }
            return ;
        },
    };
    let ghost kg = grp.cle();
    let gid = inscrit_groupe(groupes, grp, journal);
    let ghost j1 = journal@;
    let ghost s1 = suivi_de(*groupes, *comptes, *membres, groupes.registre().rang(gid.0));
    let ghost g1 = *groupes;
    if dc.is_none() {
        *dc = Some(DataColConfig::new(rng, config.excel.data_ln));
    }
    let dcc = dc.unwrap();
    proof {
        lemme_pas_groupe(s0, kg);
        lemme_applique_un(depart, Pas::Groupe(kg));
        lemme_suit_un(s0, Pas::Groupe(kg));
        assert(s1 == pas_suivi(s0, Pas::Groupe(kg)));
        lemme_erreurs_prolonge(old(journal)@, j1);
    }
    importe_lignes(comptes, membres, groupes, gid, rng, &dcc, config.excel.ln_skip, journal);
    proof {
        let l = lignes_lues(lignes, dcc, skip, lignes.len() as int);
        lemme_applique_suite(depart, seq![Pas::Groupe(kg)], l);
        lemme_suit_suite(s0, seq![Pas::Groupe(kg)], l);
        lemme_notes_suite(
            notes(old(journal)@),
            notes_groupe(depart.groupes, kg),
            notes_lignes(pas_applique(depart, Pas::Groupe(kg)), lignes, dcc, skip, lignes.len() as int),
        );
        lemme_gardes_suite(
            *old(groupes),
            *old(comptes),
            *old(membres),
            g1,
            *old(comptes),
            *old(membres),
            *groupes,
            *comptes,
            *membres,
        );
        lemme_prolonge(old(journal)@, j1, journal@);
    }
}

/// The steps that the first `k` sheets of `feuilles` stand for in a reading
/// that has found the columns `dc`: none as long as it has found none.
pub open spec fn pas_jusqua(feuilles: Seq<Feuille>, dc: Option<DataColConfig>, ln_skip: int, k: int) -> Seq<
    Pas,
> {
    match dc {
        Some(d) => lecture_jusqua(feuilles, d, ln_skip, k),
        None => Seq::empty(),
    }
}

/// Sheets that are not of a group give rise to one rejection each, whatever
/// the columns.
pub proof fn lemme_rejets_illisibles(
    feuilles: Seq<Feuille>,
    a: Option<DataColConfig>,
    b: Option<DataColConfig>,
    ln_skip: int,
    k: int,
)
    requires
        0 <= k <= feuilles.len(),
        forall|j: int| 0 <= j < k ==> !lisibles(feuilles)[j],
    ensures
        rejets_jusqua(feuilles, a, ln_skip, k) == rejets_jusqua(feuilles, b, ln_skip, k),
    decreases k,
{
    if k > 0 {
        lemme_rejets_illisibles(feuilles, a, b, ln_skip, k - 1);
        assert(!lisibles(feuilles)[k - 1]);
    }
}

/// Merges what the sheets `feuilles` describe into the registries: the group
/// of each sheet, and for each line of it the account, the member, and the
/// tie of the member to the account and to the group. A record that a
/// registry holds already, by its key, is not entered again. What cannot be
/// read is reported and skipped: a line that describes no account or no
/// member, and a sheet that is not one of a group, stop neither the sheet nor
/// the reading. Gives the journal of what was done and of what went wrong.
///
/// Afterwards the registries are as [`suit`] says, step by step: the
/// identifiers and keys of all records, and the participants of every group,
/// which are those it had, followed by the members of the lines of its
/// sheets. The same holds of the members of every account, provided that
/// every account and every member stood under its own identifier before, as
/// they do in registries that were only ever filled by merging and adding.
/// The records that the registries held stay at their places and keep what
/// they held: what a line says of a member that is known is not taken over.
/// Every member that comes in is as one of the lines enters it: blank but for
/// what the line says of it; every group that comes in is as its sheet
/// describes it. The journal is the one that [`notes_lecture`]
/// gives: for each sheet its rejection, or what is said of its group and of
/// its lines; and so it holds an error for every sheet and every line that is
/// turned down.
pub fn fill_regs(
    comptes: &mut CompteReg,
    membres: &mut MembreReg,
    groupes: &mut GroupeReg,
    config: &Config,
    feuilles: &Vec<Feuille>,
) -> (journal: Vec<Message>)
    requires
        old(comptes).wf(),
        old(membres).wf(),
        old(groupes).wf(),
        old(groupes).registre().cles().len() + feuilles@.len() < 0x1_0000_0000,
        old(comptes).registre().cles().len() + nb_lignes(feuilles@, 0) < 0x1_0000_0000,
        old(membres).registre().cles().len() + nb_lignes(feuilles@, 0) < 0x1_0000_0000,
    ensures
        final(comptes).wf(),
        final(membres).wf(),
        final(groupes).wf(),
        etats(*final(groupes), *final(comptes), *final(membres)) == applique(
            etats(*old(groupes), *old(comptes), *old(membres)),
            lecture(feuilles@, config.excel.data_ln as int, config.excel.ln_skip as int),
        ),
        suivent(
            *final(groupes),
            *final(comptes),
            *final(membres),
            suit(
                suivi_de(*old(groupes), *old(comptes), *old(membres), -1),
                lecture(feuilles@, config.excel.data_ln as int, config.excel.ln_skip as int),
            ),
            old(comptes).coherent() && old(membres).coherent(),
        ),
        gardes(
            *old(groupes),
            *old(comptes),
            *old(membres),
            *final(groupes),
            *final(comptes),
            *final(membres),
        ),
        notes(journal@) == notes_lecture(
            etats(*old(groupes), *old(comptes), *old(membres)),
            feuilles@,
            config.excel.data_ln as int,
            config.excel.ln_skip as int,
        ),
        entrees_lecture(
            *old(membres),
            *final(membres),
            feuilles@,
            colonnes(feuilles@, config.excel.data_ln as int),
        ),
        groupes_entres(*old(groupes), *final(groupes), feuilles@),
        nb_erreurs(journal@) >= rejets(
            feuilles@,
            config.excel.data_ln as int,
            config.excel.ln_skip as int,
        ),
{
    let mut journal: Vec<Message> = Vec::new();
    let mut dc: Option<DataColConfig> = None;
    let ghost depart = etats(*groupes, *comptes, *membres);
    let ghost s0 = suivi_de(*groupes, *comptes, *membres, -1);
    let ghost coh = comptes.coherent() && membres.coherent();
    let ghost skip = config.excel.ln_skip as int;
    let ghost data_ln = config.excel.data_ln as int;
    assert(notes(journal@) =~= Seq::<(bool, Seq<char>)>::empty());
    let mut k: usize = 0;
    while k < feuilles.len()
        invariant
            k <= feuilles@.len(),
            comptes.wf(),
            membres.wf(),
            groupes.wf(),
            skip == config.excel.ln_skip as int,
            data_ln == config.excel.data_ln as int,
            groupes.registre().cles().len() + (feuilles@.len() - k) < 0x1_0000_0000,
            comptes.registre().cles().len() + nb_lignes(feuilles@, k as int) < 0x1_0000_0000,
            membres.registre().cles().len() + nb_lignes(feuilles@, k as int) < 0x1_0000_0000,
            match dc {
                None => etats(*groupes, *comptes, *membres) == depart && forall|j: int|
                    0 <= j < k ==> !lisibles(feuilles@)[j],
                Some(d) => colonnes(feuilles@, data_ln) == Some(d) && etats(
                    *groupes,
                    *comptes,
                    *membres,
                ) == applique(depart, lecture_jusqua(feuilles@, d, skip, k as int)),
            },
            s0 == suivi_de(*old(groupes), *old(comptes), *old(membres), -1),
            coh == (old(comptes).coherent() && old(membres).coherent()),
            suivent(
                *groupes,
                *comptes,
                *membres,
                suit(s0, pas_jusqua(feuilles@, dc, skip, k as int)),
                coh,
            ),
            notes(journal@) == notes_jusqua(depart, feuilles@, dc, skip, k as int),
            dc is None ==> notes_jusqua(depart, feuilles@, dc, skip, k as int) == notes_jusqua(
                depart,
                feuilles@,
                colonnes(feuilles@, data_ln),
                skip,
                k as int,
            ),
            nb_erreurs(journal@) >= rejets_jusqua(feuilles@, dc, skip, k as int),
            gardes(*old(groupes), *old(comptes), *old(membres), *groupes, *comptes, *membres),
            entrees_lecture(*old(membres), *membres, feuilles@, dc),
            groupes_entres(*old(groupes), *groupes, feuilles@),
            dc is None ==> rejets_jusqua(feuilles@, dc, skip, k as int) == rejets_jusqua(
                feuilles@,
                colonnes(feuilles@, data_ln),
                skip,
                k as int,
            ),
        decreases feuilles@.len() - k,
    {
        let ghost dc0 = dc;
        let ghost lignes = feuilles@[k as int].plage.lignes();
        let ghost avant = suit(s0, pas_jusqua(feuilles@, dc, skip, k as int));
        let ghost sk = suivi_de(*groupes, *comptes, *membres, -1);
        let ghost g1 = *groupes;
        let ghost c1 = *comptes;
        let ghost m1 = *membres;
        assert(lisibles(feuilles@)[k as int] == (groupe_lu(lignes) is Some));
        importe_feuille(comptes, membres, groupes, config, &feuilles[k], &mut dc, &mut journal);
        proof {
            if dc0 is None && dc is Some {
                lemme_premier_rang(lisibles(feuilles@), true, k as int);
                lemme_lecture_vide(feuilles@, dc->0, skip, k as int);
                assert(lecture_jusqua(feuilles@, dc->0, skip, k + 1) =~= feuille_lue(
                    lignes,
                    dc->0,
                    skip,
                ));
                lemme_rejets_illisibles(feuilles@, dc0, dc, skip, k as int);
                lemme_notes_illisibles(depart, feuilles@, dc0, dc, skip, k as int);
                lemme_notes_illisibles(
                    depart,
                    feuilles@,
                    dc0,
                    colonnes(feuilles@, data_ln),
                    skip,
                    k as int,
                );
                lemme_applique_rien(depart);
                lemme_rejets_illisibles(feuilles@, dc0, colonnes(feuilles@, data_ln), skip, k as int);
            } else if dc is Some {
                let d = dc->0;
                lemme_applique_suite(
                    depart,
                    lecture_jusqua(feuilles@, d, skip, k as int),
                    feuille_lue(lignes, d, skip),
                );
            }
            lemme_gardes_suite(
                *old(groupes),
                *old(comptes),
                *old(membres),
                g1,
                c1,
                m1,
                *groupes,
                *comptes,
                *membres,
            );
            assert forall|r: int|
                old(groupes).registre().items().len() <= r
                    < groupes.registre().items().len() implies exists|j: int|
                0 <= j < feuilles@.len() && groupe_entre(
                    #[trigger] groupes.registre().items()[r],
                    #[trigger] feuilles@[j].plage.lignes(),
                ) by {
                if r < g1.registre().items().len() {
                    let j = choose|j: int|
                        0 <= j < feuilles@.len() && groupe_entre(
                            #[trigger] g1.registre().items()[r],
                            #[trigger] feuilles@[j].plage.lignes(),
                        );
                    assert(groupe_entre(groupes.registre().items()[r], feuilles@[j].plage.lignes()));
                } else {
                    assert(groupe_entre(
                        groupes.registre().items()[r],
                        feuilles@[k as int].plage.lignes(),
                    ));
                }
            }
            if dc is Some {
                let d = dc->0;
                assert forall|r: int|
                    old(membres).registre().items().len() <= r
                        < membres.registre().items().len() implies vient_des(
                    #[trigger] membres.registre().items()[r],
                    feuilles@,
                    d,
                ) by {
                    if r < m1.registre().items().len() {
                        assert(membres.registre().items()[r] == m1.registre().items()[r]);
                    } else {
                        assert(vient_de(
                            membres.registre().items()[r],
                            feuilles@[k as int].plage.lignes(),
                            d,
                        ));
                    }
                }
            }
            let f = pas_feuille(lignes, dc, skip);
            let base = Suivi { courant: -1, ..avant };
            assert(sk == (Suivi { membres: sk.membres, ..base }));
            lemme_suit_sans_membres(base, sk.membres, f);
            if coh {
                assert(sk == base);
            }
            if f.len() > 0 {
                lemme_suit_courant(avant, -1, f);
            } else {
                assert(suit(avant, f) == avant);
                assert(suit(base, f) == base);
            }
            if dc0 is None {
                assert(pas_jusqua(feuilles@, dc0, skip, k as int) =~= Seq::<Pas>::empty());
                assert(avant == s0);
                if dc is Some {
                    assert(pas_jusqua(feuilles@, dc, skip, k + 1) =~= f);
                } else {
                    assert(pas_jusqua(feuilles@, dc, skip, k + 1) =~= Seq::<Pas>::empty());
                }
            } else {
                lemme_suit_suite(s0, lecture_jusqua(feuilles@, dc->0, skip, k as int), f);
            }
        }
        k += 1;
    }
    proof {
        if dc is None {
            lemme_premier_rang_absent(lisibles(feuilles@), true);
        }
    }
    journal
}

/// Whether in each of the three states every identifier has its key.
pub open spec fn reguliers(e: Etats) -> bool {
    &&& e.groupes.ids.len() == e.groupes.cles.len()
    &&& e.comptes.ids.len() == e.comptes.cles.len()
    &&& e.membres.ids.len() == e.membres.cles.len()
}

/// Whether the states `b` are the states `a` with more records behind them.
pub open spec fn prefixes(a: Etats, b: Etats) -> bool {
    prefixe(a.groupes, b.groupes) && prefixe(a.comptes, b.comptes) && prefixe(
        a.membres,
        b.membres,
    )
}

/// A step only adds records, behind those that are there.
pub proof fn lemme_pas_prefixe(e: Etats, p: Pas)
    requires
        reguliers(e),
    ensures
        prefixes(e, pas_applique(e, p)),
        reguliers(pas_applique(e, p)),
{
    reveal(pas_applique);
    match p {
        Pas::Groupe(k) => {
            lemme_resolution_prefixe(e.groupes, Groupe::graine(k), k);
        },
        Pas::Ligne(None) => {},
        Pas::Ligne(Some((kc, None))) => {
            lemme_resolution_prefixe(e.comptes, Compte::graine(kc), kc);
        },
        Pas::Ligne(Some((kc, Some(km)))) => {
            lemme_resolution_prefixe(e.comptes, Compte::graine(kc), kc);
            let cid = resolution(e.comptes, Compte::graine(kc), kc).1;
            let k = avec_compte(km, cid);
            lemme_resolution_prefixe(e.membres, Membre::graine(k), k);
        },
    }
}

/// Steps only add records, behind those that are there.
pub proof fn lemme_applique_prefixe(e: Etats, pas: Seq<Pas>)
    requires
        reguliers(e),
    ensures
        prefixes(e, applique(e, pas)),
        reguliers(applique(e, pas)),
    decreases pas.len(),
{
    if pas.len() > 0 {
        lemme_applique_prefixe(e, pas.drop_last());
        lemme_pas_prefixe(applique(e, pas.drop_last()), pas.last());
    }
}

/// A step that has been taken changes nothing when it is taken again, in the
/// states it left or in any states with more records behind them.
pub proof fn lemme_pas_repete(e: Etats, p: Pas, b: Etats)
    requires
        reguliers(e),
        prefixes(pas_applique(e, p), b),
    ensures
        pas_applique(b, p) == b,
{
    reveal(pas_applique);
    match p {
        Pas::Groupe(k) => {
            lemme_resolution_stable(e.groupes, Groupe::graine(k), k, b.groupes);
        },
        Pas::Ligne(None) => {},
        Pas::Ligne(Some((kc, None))) => {
            lemme_resolution_stable(e.comptes, Compte::graine(kc), kc, b.comptes);
        },
        Pas::Ligne(Some((kc, Some(km)))) => {
            lemme_resolution_stable(e.comptes, Compte::graine(kc), kc, b.comptes);
            let cid = resolution(e.comptes, Compte::graine(kc), kc).1;
            let k = avec_compte(km, cid);
            lemme_resolution_stable(e.membres, Membre::graine(k), k, b.membres);
        },
    }
}

/// The states after the first `j` steps are those after all steps, without
/// the records that the later steps add.
proof fn lemme_applique_monte(e: Etats, pas: Seq<Pas>, j: int)
    requires
        reguliers(e),
        0 <= j <= pas.len(),
    ensures
        reguliers(applique(e, pas.take(j))),
        prefixes(applique(e, pas.take(j)), applique(e, pas)),
{
    lemme_applique_prefixe(e, pas.take(j));
    lemme_applique_suite(e, pas.take(j), pas.skip(j));
    assert(pas.take(j) + pas.skip(j) =~= pas);
    lemme_applique_prefixe(applique(e, pas.take(j)), pas.skip(j));
}

/// A step that was taken on the way to a state changes nothing when it is
/// taken again from that state.
proof fn lemme_etape(e: Etats, pas: Seq<Pas>, j: int)
    requires
        reguliers(e),
        0 < j <= pas.len(),
    ensures
        pas_applique(applique(e, pas), pas[j - 1]) == applique(e, pas),
{
    let avant = applique(e, pas.take(j - 1));
    assert(applique(e, pas.take(j)) == pas_applique(avant, pas[j - 1])) by {
        assert(pas.take(j).drop_last() =~= pas.take(j - 1));
        assert(pas.take(j).last() == pas[j - 1]);
    }
    lemme_applique_monte(e, pas, j - 1);
    lemme_applique_monte(e, pas, j);
    lemme_pas_repete(avant, pas[j - 1], applique(e, pas));
}

/// The first `j` steps, taken again after all of them, change nothing.
proof fn lemme_relecture(e: Etats, pas: Seq<Pas>, j: int)
    requires
        reguliers(e),
        0 <= j <= pas.len(),
    ensures
        applique(applique(e, pas), pas.take(j)) == applique(e, pas),
    decreases j,
{
    if j > 0 {
        lemme_relecture(e, pas, j - 1);
        lemme_etape(e, pas, j);
        assert(pas.take(j).drop_last() =~= pas.take(j - 1));
        assert(pas.take(j).last() == pas[j - 1]);
    } else {
        assert(pas.take(0) =~= Seq::<Pas>::empty());
    }
}

/// Reading the same sheets a second time changes nothing: every group,
/// account and member is found where the first reading left it, so that the
/// registries hold the same records under the same identifiers, and so as
/// many of each kind, as after the first reading.
pub proof fn loi_relecture(e: Etats, pas: Seq<Pas>)
    requires
        reguliers(e),
    ensures
        applique(applique(e, pas), pas) == applique(e, pas),
        applique(applique(e, pas), pas).groupes.ids.len() == applique(e, pas).groupes.ids.len(),
        applique(applique(e, pas), pas).comptes.ids.len() == applique(e, pas).comptes.ids.len(),
        applique(applique(e, pas), pas).membres.ids.len() == applique(e, pas).membres.ids.len(),
{
    lemme_relecture(e, pas, pas.len() as int);
    assert(pas.take(pas.len() as int) =~= pas);
}

} // verus!
