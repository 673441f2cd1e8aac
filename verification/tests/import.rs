use camp_registre::config::Config;
use camp_registre::data::Genre;
use camp_registre::data::Taille;
use camp_registre::extract::excel::{
    extract_compte_info, extract_group_info, extract_membre_info, fill_membre_info, fill_regs,
    importe_ligne, into_bool, into_bool_with_comment, into_int, into_string, DataColConfig,
};
use camp_registre::extract::prog::{
    extract_group_info_from_prog, fill_groupe_reg_from_prog, ProgLnConfig,
};
use camp_registre::extract::presence::{GroupeExtractConfig, GroupeExtractData};
use camp_registre::extract::{Cellule, ExtractError, Feuille, Flottant, Message, Plage};
use camp_registre::groupes::comptes::{CompteID, CompteReg};
use camp_registre::groupes::groupes::{Groupe, GroupeID, GroupeReg};
use camp_registre::groupes::membres::{Interet, Membre, MembreID, MembreReg};

fn t(s: &str) -> Cellule {
    Cellule::String(s.to_string())
}

fn flottant(texte: &str, tronque: i64, nul: bool) -> Cellule {
    Cellule::Float(Flottant { texte: texte.to_string(), tronque, nul })
}

const TITRES: [&str; 12] = [
    "Nom",
    "Prénom",
    "Date de naissance",
    "Mandataire du compte",
    "Courriel",
    "Principal",
    "Genre",
    "Interet_1",
    "Interet_2",
    "Allergie Alimentaire",
    "Taille",
    "Commentaires",
];

fn ligne(cellules: &[&str]) -> Vec<Cellule> {
    let mut v: Vec<Cellule> = cellules
        .iter()
        .map(|s| if s.is_empty() { Cellule::Empty } else { t(s) })
        .collect();
    while v.len() < TITRES.len() {
        v.push(Cellule::Empty);
    }
    v
}

fn feuille(nom: &str, titre: &str, membres: &[&[&str]]) -> Feuille {
    let mut lignes = vec![
        ligne(&[titre]),
        ligne(&["A"]),
        ligne(&["Programmation: Été 2024"]),
        ligne(&[]),
        ligne(&[]),
        ligne(&TITRES),
    ];
    for m in membres {
        lignes.push(ligne(m));
    }
    Feuille { nom: nom.to_string(), plage: Plage::new(lignes, TITRES.len()).unwrap() }
}

fn registres() -> (CompteReg, MembreReg, GroupeReg) {
    (CompteReg::new(), MembreReg::new(), GroupeReg::new())
}

const ANA: [&str; 12] = [
    "Roy",
    "Ana",
    "2014-03-02",
    "Jean Roy",
    "jean@exemple.ca",
    "418 555-1234",
    "Femme",
    "Sport",
    "art",
    "oui, noix; lait",
    "M",
    "aime lire",
];
const LUC: [&str; 12] =
    ["Roy", "Luc", "2016-11-30", "Jean Roy", "jean@exemple.ca", "418 555-1234", "", "", "", "", "", ""];
const EVE: [&str; 12] = ["Côté", "Ève", "2015-01-15 (9 ans)", "Lise Côté", "", "", "", "", "", "", "", ""];

#[test]
fn cells_read_as_text() {
    assert_eq!(into_string(&Cellule::Int(-12)), Some("-12".to_string()));
    assert_eq!(into_string(&Cellule::Int(0)), Some("0".to_string()));
    assert_eq!(into_string(&Cellule::Int(i64::MIN)), Some("-9223372036854775808".to_string()));
    assert_eq!(into_string(&flottant("1.5", 1, false)), Some("1.5".to_string()));
    assert_eq!(into_string(&t("  \tbonjour \n")), Some("bonjour".to_string()));
    assert_eq!(into_string(&t(" \u{a0}\u{3000} ")), None);
    assert_eq!(into_string(&t("")), None);
    assert_eq!(into_string(&Cellule::Bool(true)), Some("true".to_string()));
    assert_eq!(into_string(&Cellule::Bool(false)), Some("false".to_string()));
    assert_eq!(into_string(&Cellule::Error), None);
    assert_eq!(into_string(&Cellule::Empty), None);
}

#[test]
fn cells_read_as_whole_numbers() {
    assert_eq!(into_int(&Cellule::Int(7)), Some(7));
    assert_eq!(into_int(&flottant("7.9", 7, false)), Some(7));
    assert_eq!(into_int(&t("42")), Some(42));
    assert_eq!(into_int(&t("-42")), Some(-42));
    assert_eq!(into_int(&t("+42")), Some(42));
    assert_eq!(into_int(&t("0042")), Some(42));
    assert_eq!(into_int(&t("9223372036854775807")), Some(i64::MAX));
    assert_eq!(into_int(&t("-9223372036854775808")), Some(i64::MIN));
    assert_eq!(into_int(&t("9223372036854775808")), None);
    assert_eq!(into_int(&t("-9223372036854775809")), None);
    assert_eq!(into_int(&t("99999999999999999999999999")), None);
    assert_eq!(into_int(&t(" 42")), None);
    assert_eq!(into_int(&t("4 2")), None);
    assert_eq!(into_int(&t("")), None);
    assert_eq!(into_int(&t("-")), None);
    assert_eq!(into_int(&t("+")), None);
    assert_eq!(into_int(&t("--4")), None);
    assert_eq!(into_int(&t("٤٢")), None);
    assert_eq!(into_int(&Cellule::Bool(true)), Some(1));
    assert_eq!(into_int(&Cellule::Bool(false)), Some(0));
    assert_eq!(into_int(&Cellule::Error), None);
    assert_eq!(into_int(&Cellule::Empty), None);
}

#[test]
fn cells_read_as_truth_values() {
    for s in ["oui", "OUI", "true", "Vrai", "yes", "o", "Y", "v", "t"] {
        assert_eq!(into_bool(&t(s)), Some(true));
    }
    for s in ["non", "NON", "false", "no", "Faux", "n", "F"] {
        assert_eq!(into_bool(&t(s)), Some(false));
    }
    for s in ["", "peut-être", "oui ", " non", "ouii"] {
        assert_eq!(into_bool(&t(s)), None);
    }
    assert_eq!(into_bool(&Cellule::Int(0)), Some(true));
    assert_eq!(into_bool(&Cellule::Int(3)), Some(false));
    assert_eq!(into_bool(&flottant("0", 0, true)), Some(true));
    assert_eq!(into_bool(&flottant("0.5", 0, false)), Some(false));
    assert_eq!(into_bool(&Cellule::Bool(true)), Some(true));
    assert_eq!(into_bool(&Cellule::Bool(false)), Some(false));
    assert_eq!(into_bool(&Cellule::Error), None);
    assert_eq!(into_bool(&Cellule::Empty), None);
}

#[test]
fn cells_read_as_answers_with_a_remark() {
    assert_eq!(into_bool_with_comment(&t("oui")), Some((true, None)));
    assert_eq!(into_bool_with_comment(&t("Non")), Some((false, None)));
    assert_eq!(
        into_bool_with_comment(&t("oui, noix et lait ")),
        Some((true, Some("noix et lait".to_string())))
    );
    assert_eq!(
        into_bool_with_comment(&t("non ,  voir la fiche")),
        Some((false, Some("voir la fiche".to_string())))
    );
    assert_eq!(into_bool_with_comment(&t("oui,   ")), Some((true, None)));
    assert_eq!(into_bool_with_comment(&t("peut-être")), None);
    assert_eq!(into_bool_with_comment(&Cellule::Bool(true)), None);
    assert_eq!(into_bool_with_comment(&Cellule::Int(1)), None);
    assert_eq!(into_bool_with_comment(&Cellule::Empty), None);
}

#[test]
fn columns_are_found_by_their_titles() {
    let cols = ligne(&TITRES);
    assert_eq!(DataColConfig::search(&cols, "Nom"), Some(0));
    assert_eq!(DataColConfig::search(&cols, "Taille"), Some(10));
    assert_eq!(DataColConfig::search(&cols, "nom"), None);
    let mut deux = ligne(&["x", " Nom ", "Nom"]);
    deux.push(Cellule::Int(4));
    assert_eq!(DataColConfig::search(&deux, "Nom"), Some(1));
    assert_eq!(DataColConfig::search(&Vec::new(), "Nom"), None);
    let f = feuille("f", "x", &[]);
    let dcc = DataColConfig::new(&f.plage, 5);
    assert_eq!(dcc.nom, Some(0));
    assert_eq!(dcc.prenom, Some(1));
    assert_eq!(dcc.naissance, Some(2));
    assert_eq!(dcc.mandataire, Some(3));
    assert_eq!(dcc.courriel, Some(4));
    assert_eq!(dcc.tel, Some(5));
    assert_eq!(dcc.genre, Some(6));
    assert_eq!(dcc.interet_1, Some(7));
    assert_eq!(dcc.interet_2, Some(8));
    assert_eq!(dcc.all_alim, Some(9));
    assert_eq!(dcc.taille, Some(10));
    assert_eq!(dcc.commentaire, Some(11));
    assert_eq!(dcc.adresse, None);
    assert_eq!(dcc.cam, None);
    assert_eq!(DataColConfig::new(&f.plage, 0).nom, None);
    assert_eq!(DataColConfig::new(&f.plage, 99).nom, None);
    let alt = Plage::new(vec![vec![t("Numéro de téléphone principal"), t("Adresse principale")]], 2)
        .unwrap();
    let dcc = DataColConfig::new(&alt, 0);
    assert_eq!(dcc.tel, Some(0));
    assert_eq!(dcc.adresse, Some(1));
}

#[test]
fn ranges_are_rectangles() {
    assert!(Plage::new(vec![vec![Cellule::Empty], vec![]], 1).is_none());
    let p = Plage::new(vec![vec![Cellule::Int(1), Cellule::Int(2)]], 2).unwrap();
    assert_eq!(p.get_size(), (1, 2));
    assert!(matches!(p.get_value(0, 1), Some(Cellule::Int(2))));
    assert!(p.get_value(1, 0).is_none());
    assert!(p.get_value(0, 2).is_none());
    assert_eq!(p.ligne(0).len(), 2);
    assert_eq!(Plage::new(Vec::new(), 3).unwrap().get_size(), (0, 3));
}

#[test]
fn group_is_read_from_the_head_of_a_sheet() {
    let f = feuille("f", " Camp de jour | Lac | 5 - 6 ans | Sem. 3 ", &[]);
    let g = extract_group_info(&f.plage).unwrap();
    assert_eq!(g.activite.as_deref(), Some("Camp de jour"));
    assert_eq!(g.site.as_deref(), Some("Lac"));
    assert_eq!(g.semaine.as_deref(), Some("3"));
    assert_eq!(g.age_min, Some(5));
    assert_eq!(g.age_max, Some(6));
    assert_eq!(g.category.as_deref(), Some("Crocus"));
    assert_eq!(g.saison.as_deref(), Some("Été 2024"));
    assert_eq!(g.discriminant.as_deref(), Some("A"));
    assert_eq!(g.id, GroupeID(g.get_id_seed()));
    assert_eq!(g.participants.len(), 0);

    let libre = extract_group_info(&feuille("f", "Sortie", &[]).plage).unwrap();
    assert_eq!(libre.activite, None);
    assert_eq!(libre.category, None);
    assert_eq!(libre.saison.as_deref(), Some("Été 2024"));

    let age = extract_group_info(&feuille("f", "Ski | Mont | 13 17 ans | semaine 12", &[]).plage)
        .unwrap();
    assert_eq!(age.category.as_deref(), Some("13-17 ans"));
    assert_eq!(age.semaine.as_deref(), Some("12"));
}

#[test]
fn sheet_without_head_is_refused() {
    let vide = Plage::new(Vec::new(), 0).unwrap();
    assert!(matches!(extract_group_info(&vide), Err(ExtractError::InvalidFormat)));
    let court = Plage::new(vec![vec![t("Sortie")], vec![t("A")]], 1).unwrap();
    assert!(matches!(extract_group_info(&court), Err(ExtractError::InvalidFormat)));
    let sans_titre = feuille("f", "", &[]);
    assert!(matches!(extract_group_info(&sans_titre.plage), Err(ExtractError::InvalidFormat)));
    let trop = feuille("f", "Ski | Mont | 5 99999999999 ans | sem 1", &[]);
    assert!(matches!(extract_group_info(&trop.plage), Err(ExtractError::InvalidFormat)));
}

#[test]
fn account_is_read_from_a_line() {
    let dcc = DataColConfig::new(&feuille("f", "x", &[]).plage, 5);
    let c = extract_compte_info(&ligne(&ANA), &dcc).unwrap();
    assert_eq!(c.mandataire, "Jean Roy");
    assert_eq!(c.email.as_ref().unwrap().as_str(), "jean@exemple.ca");
    assert_eq!(c.tel.unwrap().as_str(), "4185551234");
    assert!(c.adresse.is_none());
    assert_eq!(c.id, CompteID(c.get_id_seed()));
    let e = extract_compte_info(&ligne(&EVE), &dcc).unwrap();
    assert!(e.email.is_none() && e.tel.is_none());
    let mauvais = ligne(&["Roy", "Ana", "2014-03-02", "Jean Roy", "pas un courriel", "12"]);
    let m = extract_compte_info(&mauvais, &dcc).unwrap();
    assert!(m.email.is_none() && m.tel.is_none());
}

#[test]
fn line_without_responsible_party_is_rejected() {
    let dcc = DataColConfig::new(&feuille("f", "x", &[]).plage, 5);
    let sans = ligne(&["Roy", "Ana", "2014-03-02", ""]);
    assert!(matches!(extract_compte_info(&sans, &dcc), Err(ExtractError::InvalidFormat)));
    let mut sans_colonne = dcc;
    sans_colonne.mandataire = None;
    assert!(matches!(
        extract_compte_info(&ligne(&ANA), &sans_colonne),
        Err(ExtractError::MissingInformations("Mandataire"))
    ));
    assert!(matches!(
        extract_compte_info(&Vec::new(), &dcc),
        Err(ExtractError::InvalidFormat)
    ));
}

#[test]
fn member_is_read_from_a_line() {
    let dcc = DataColConfig::new(&feuille("f", "x", &[]).plage, 5);
    let m = extract_membre_info(&ligne(&EVE), &dcc).unwrap();
    assert_eq!(m.nom, "Côté");
    assert_eq!(m.prenom, "Ève");
    assert_eq!((m.naissance.year(), m.naissance.month(), m.naissance.day()), (2015, 1, 15));
    assert_eq!(m.id.0, m.get_id_seed());
    assert!(m.compte.is_none());
    for (cellules, manque) in [
        (["", "Ana", "2014-03-02"], "Nom"),
        (["Roy", "", "2014-03-02"], "Prénom"),
        (["Roy", "Ana", ""], "Naissance"),
        (["Roy", "Ana", "le 2 mars"], "Naissance"),
        (["Roy", "Ana", "2014-02-30"], "Naissance"),
        (["Roy", "Ana", "2014-13-01"], "Naissance"),
    ] {
        match extract_membre_info(&ligne(&cellules), &dcc) {
            Err(ExtractError::MissingInformations(s)) => assert_eq!(s, manque),
            _ => panic!("the line describes no member"),
        }
    }
    let mut sans = dcc;
    sans.prenom = None;
    assert!(matches!(
        extract_membre_info(&ligne(&ANA), &sans),
        Err(ExtractError::MissingInformations("Prénom"))
    ));
    sans.nom = None;
    assert!(matches!(
        extract_membre_info(&ligne(&ANA), &sans),
        Err(ExtractError::MissingInformations("Nom"))
    ));
    let mut sans = dcc;
    sans.naissance = None;
    assert!(matches!(
        extract_membre_info(&ligne(&ANA), &sans),
        Err(ExtractError::MissingInformations("Naissance"))
    ));
}

#[test]
fn member_details_are_filled_in() {
    let dcc = DataColConfig::new(&feuille("f", "x", &[]).plage, 5);
    let mut m = extract_membre_info(&ligne(&ANA), &dcc).unwrap();
    let id = m.id;
    let mut journal = Vec::new();
    fill_membre_info(&ligne(&ANA), &dcc, &mut m, &mut journal);
    assert_eq!(m.id, id);
    assert_eq!(m.nom, "Roy");
    assert_eq!(m.genre, Some(Genre::Femme));
    assert_eq!(m.interets, [Some(Interet::Sport), Some(Interet::Art), None, None]);
    assert_eq!(m.fiche_sante.allergies, vec!["Alimentaire", "noix", "lait"]);
    assert_eq!(m.taille, Some(Taille::M));
    assert_eq!(m.commentaire.as_deref(), Some("aime lire"));
    assert!(journal.is_empty());

    let mauvais = ligne(&["Roy", "Ana", "2014-03-02", "Jean", "", "", "fille", "danse", "", "non", "géant"]);
    let mut n = Membre::default();
    n.genre = Some(Genre::Autre);
    n.commentaire = Some("avant".to_string());
    fill_membre_info(&mauvais, &dcc, &mut n, &mut journal);
    assert_eq!(n.genre, Some(Genre::Autre));
    assert_eq!(n.interets, [None, None, None, None]);
    assert!(n.fiche_sante.allergies.is_empty());
    assert_eq!(n.taille, None);
    assert_eq!(n.commentaire, None);
    let erreurs: Vec<String> = journal
        .iter()
        .map(|m| match m {
            Message::Erreur(s) => s.clone(),
            Message::Info(s) => format!("info: {}", s),
        })
        .collect();
    assert_eq!(
        erreurs,
        vec![
            "Erreur en lisant le genre: fille".to_string(),
            "Erreur en lisant le 1er interet".to_string(),
            "Erreur en lisant la taille".to_string(),
        ]
    );
}

#[test]
fn line_is_merged_into_the_registries() {
    let (mut comptes, mut membres, _) = registres();
    let dcc = DataColConfig::new(&feuille("f", "x", &[]).plage, 5);
    let mut grp = Groupe::new(GroupeID(1));
    let mut journal = Vec::new();
    importe_ligne(&mut comptes, &mut membres, &mut grp, &ligne(&ANA), &dcc, &mut journal);
    importe_ligne(&mut comptes, &mut membres, &mut grp, &ligne(&LUC), &dcc, &mut journal);
    assert_eq!(comptes.len(), 1);
    assert_eq!(membres.len(), 2);
    assert_eq!(grp.participants.len(), 2);
    let cid = comptes.ids()[0];
    let compte = comptes.get(cid).unwrap();
    assert_eq!(compte.membres.to_vec(), membres.ids());
    for mid in membres.ids() {
        assert_eq!(membres.get(mid).unwrap().compte, Some(cid));
        assert!(grp.has_participant(mid));
    }
    assert_eq!(membres.get(membres.ids()[0]).unwrap().genre, Some(Genre::Femme));
    assert!(journal.is_empty());
}

#[test]
fn row_without_account_is_skipped_and_the_sheet_goes_on() {
    let (mut comptes, mut membres, mut groupes) = registres();
    let sans_mandataire: [&str; 4] = ["Roy", "Zoé", "2013-05-05", ""];
    let sans_naissance: [&str; 4] = ["Roy", "Max", "", "Paul Roy"];
    let f = feuille(
        "Crocus 3",
        "Camp de jour | Lac | 5-6 ans | Sem. 3",
        &[&ANA, &sans_mandataire, &sans_naissance, &EVE],
    );
    let journal = fill_regs(&mut comptes, &mut membres, &mut groupes, &Config::default(), &vec![f]);
    assert_eq!(groupes.len(), 1);
    // Ana and Ève come in; the line without birth date leaves its account.
    assert_eq!(membres.len(), 2);
    assert_eq!(comptes.len(), 3);
    let g = groupes.get(groupes.ids()[0]).unwrap();
    assert_eq!(g.participants.to_vec(), membres.ids());
    // Ève, on the line behind the two that are turned down, is listed by her account.
    let eve = membres.ids()[1];
    assert_eq!(membres.get(eve).unwrap().prenom, "Ève");
    let lise = membres.get(eve).unwrap().compte.unwrap();
    assert_eq!(comptes.get(lise).unwrap().mandataire, "Lise Côté");
    assert_eq!(comptes.get(lise).unwrap().membres.to_vec(), vec![eve]);
    assert_eq!(comptes.get(comptes.ids()[1]).unwrap().mandataire, "Paul Roy");
    assert!(comptes.get(comptes.ids()[1]).unwrap().membres.is_empty());
    let erreurs: Vec<&String> = journal
        .iter()
        .filter_map(|m| match m {
            Message::Erreur(s) => Some(s),
            Message::Info(_) => None,
        })
        .collect();
    assert_eq!(
        erreurs,
        vec![
            "Erreur en lisant le compte 'Roy': ExtractError: Format de donnée invalide",
            "Erreur en lisant le membre 'Roy': ExtractError: Information manquante (Naissance)",
        ]
    );
    assert!(matches!(&journal[0], Message::Info(s) if s == "LECTURE Été 2024: Camp de jour | Lac | Crocus | Sem. 3 - A"));
}

#[test]
fn reading_the_same_sheets_twice_adds_nothing() {
    let (mut comptes, mut membres, mut groupes) = registres();
    let feuilles = vec![
        feuille("Crocus 3", "Camp de jour | Lac | 5-6 ans | Sem. 3", &[&ANA, &LUC]),
        Feuille { nom: "vide".to_string(), plage: Plage::new(Vec::new(), 0).unwrap() },
        feuille("Crocus 4", "Camp de jour | Lac | 5-6 ans | Sem. 4", &[&ANA, &EVE]),
    ];
    let config = Config::default();
    let journal = fill_regs(&mut comptes, &mut membres, &mut groupes, &config, &feuilles);
    assert_eq!((groupes.len(), comptes.len(), membres.len()), (2, 2, 3));
    assert!(journal.iter().any(
        |m| matches!(m, Message::Erreur(s) if s == "Erreur en lisant la page 'vide': ExtractError: Format de donnée invalide")
    ));
    let (gids, cids, mids) = (groupes.ids(), comptes.ids(), membres.ids());
    let tailles: Vec<usize> =
        gids.iter().map(|g| groupes.get(*g).unwrap().participants.len()).collect();
    assert_eq!(tailles, vec![2, 2]);

    let inscrits: Vec<Vec<MembreID>> =
        gids.iter().map(|g| groupes.get(*g).unwrap().participants.to_vec()).collect();
    let tenus: Vec<Vec<MembreID>> =
        cids.iter().map(|c| comptes.get(*c).unwrap().membres.to_vec()).collect();
    assert_eq!(inscrits, vec![vec![mids[0], mids[1]], vec![mids[0], mids[2]]]);
    assert_eq!(tenus, vec![vec![mids[0], mids[1]], vec![mids[2]]]);

    let journal = fill_regs(&mut comptes, &mut membres, &mut groupes, &config, &feuilles);
    assert_eq!((groupes.len(), comptes.len(), membres.len()), (2, 2, 3));
    assert_eq!(
        (groupes.ids(), comptes.ids(), membres.ids()),
        (gids.clone(), cids.clone(), mids.clone())
    );
    let encore: Vec<Vec<MembreID>> =
        gids.iter().map(|g| groupes.get(*g).unwrap().participants.to_vec()).collect();
    assert_eq!(encore, inscrits);
    let encore: Vec<Vec<MembreID>> =
        cids.iter().map(|c| comptes.get(*c).unwrap().membres.to_vec()).collect();
    assert_eq!(encore, tenus);
    let tailles: Vec<usize> =
        gids.iter().map(|g| groupes.get(*g).unwrap().participants.len()).collect();
    assert_eq!(tailles, vec![2, 2]);
    let deja = journal
        .iter()
        .filter(|m| matches!(m, Message::Info(s) if s == "Groupe déjà existant!!"))
        .count();
    assert_eq!(deja, 2);
    for cid in comptes.ids() {
        for mid in comptes.get(cid).unwrap().membres.to_vec() {
            assert_eq!(membres.get(mid).unwrap().compte, Some(cid));
        }
    }
}

#[test]
fn columns_come_from_the_first_sheet_of_a_group() {
    let (mut comptes, mut membres, mut groupes) = registres();
    let mut config = Config::default();
    config.excel.ln_skip = 7;
    let feuilles = vec![feuille("f", "Sortie", &[&ANA, &LUC, &EVE])];
    fill_regs(&mut comptes, &mut membres, &mut groupes, &config, &feuilles);
    // The first line behind the titles is skipped as well.
    assert_eq!(membres.len(), 2);
    config.excel.ln_skip = 100;
    let (mut comptes, mut membres, mut groupes) = registres();
    fill_regs(&mut comptes, &mut membres, &mut groupes, &config, &feuilles);
    assert_eq!((groupes.len(), membres.len()), (1, 0));
}

#[test]
fn programme_is_read_line_by_line() {
    let titres = vec![t("Programmation"), t("Activité"), t("Groupe"), t("Nombre de place max")];
    let config = ProgLnConfig::guess(&titres);
    assert_eq!(config.programmation, Some(0));
    assert_eq!(config.activite, Some(1));
    assert_eq!(config.nom, Some(2));
    assert_eq!(config.capacite, Some(3));
    assert_eq!(config.debut, None);
    assert_eq!(ProgLnConfig::search(&titres, "Groupe"), Some(2));
    let defaut = ProgLnConfig::default();
    assert_eq!((defaut.programmation, defaut.nom, defaut.capacite), (Some(0), Some(2), Some(11)));
    assert_eq!((defaut.age_min, defaut.age_max), (Some(12), Some(15)));

    let l1 = vec![t("Été 2024"), t("Camp"), t("Camp de jour | Lac | 7-8 ans | Sem. 1"), Cellule::Int(24)];
    let g = extract_group_info_from_prog(&l1, &config).unwrap();
    assert_eq!(g.saison.as_deref(), Some("Été 2024"));
    assert_eq!(g.category.as_deref(), Some("Balaous"));
    assert_eq!(g.capacite, Some(24));
    assert_eq!(g.discriminant, None);
    let l2 = vec![t("Été 2024"), t("Camp"), Cellule::Empty, Cellule::Int(24)];
    assert!(matches!(extract_group_info_from_prog(&l2, &config), Err(ExtractError::InvalidFormat)));
    let l3 = vec![t("Été 2024"), t("Camp"), t("Sortie"), Cellule::Int(-3)];
    assert_eq!(extract_group_info_from_prog(&l3, &config).unwrap().capacite, None);

    let mut reg = GroupeReg::new();
    let l4 = vec![t("Été 2024"), t("Camp"), t("Camp de jour | Lac | 7-8 ans | Sem. 1"), t("30")];
    let l5 = vec![t("Été 2024"), t("Camp"), t("Camp de jour | Lac | 7-8 ans | Sem. 1"), Cellule::Empty];
    let plage = Plage::new(vec![titres, l1, l2, l3, l4, l5], 4).unwrap();
    let journal = fill_groupe_reg_from_prog(&plage, &mut reg);
    assert_eq!(reg.len(), 2);
    let textes: Vec<String> = journal
        .iter()
        .map(|m| match m {
            Message::Info(s) => s.clone(),
            Message::Erreur(s) => format!("erreur: {}", s),
        })
        .collect();
    assert_eq!(
        textes,
        vec![
            "LECTURE Été 2024: Camp de jour | Lac | Balaous | Sem. 1 - NONE",
            "LECTURE Été 2024: NONE | NONE | NONE | Sem. NONE - NONE",
            "LECTURE Été 2024: Camp de jour | Lac | Balaous | Sem. 1 - NONE",
            "LECTURE Été 2024: Camp de jour | Lac | Balaous | Sem. 1 - NONE",
        ]
    );
    assert_eq!(reg.get(reg.ids()[0]).unwrap().capacite, Some(30));
    assert_eq!(reg.get(reg.ids()[1]).unwrap().capacite, None);
    fill_groupe_reg_from_prog(&plage, &mut reg);
    assert_eq!(reg.len(), 2);
    assert_eq!(fill_groupe_reg_from_prog(&Plage::new(Vec::new(), 0).unwrap(), &mut reg).len(), 0);
}

#[test]
fn extraction_errors_have_their_text() {
    assert_eq!(ExtractError::InvalidFormat.to_string(), "ExtractError: Format de donnée invalide");
    assert_eq!(
        ExtractError::InvalidGroupNameFormat.to_string(),
        "ExtractError: Nom de groupe invalide"
    );
    assert_eq!(ExtractError::CouldNotReadFile.to_string(), "ExtractError: N'a pu lire le fichier");
    assert_eq!(
        ExtractError::MissingInformations("Nom").to_string(),
        "ExtractError: Information manquante (Nom)"
    );
}

#[test]
fn head_of_a_sheet_is_shown_in_one_line() {
    let c = GroupeExtractConfig::default();
    assert_eq!((c.nom, c.saison, c.sous_groupe), ((0, 0), (2, 0), (1, 0)));
    assert_eq!((c.responsable, c.profil), ((4, 0), (3, 0)));
    let mut d = GroupeExtractData {
        nom: "Crocus 3".to_string(),
        desc: "Crocus sem. 3".to_string(),
        saison: None,
        sous_groupe: None,
        responsable: None,
        profil: None,
    };
    assert_eq!(d.to_string(), "Crocus sem. 3");
    d.saison = Some("Été".to_string());
    assert_eq!(d.to_string(), "Été Crocus sem. 3");
    d.profil = Some("Sport".to_string());
    assert_eq!(d.to_string(), "Été Crocus sem. 3 (profil Sport)");
    d.sous_groupe = Some("A".to_string());
    assert_eq!(d.to_string(), "Été Crocus sem. 3 (A | profil Sport)");
    d.responsable = Some("Léa".to_string());
    assert_eq!(d.to_string(), "Été Crocus sem. 3 (A | respo Léa | profil Sport)");
    d.sous_groupe = None;
    assert_eq!(d.to_string(), "Été Crocus sem. 3 (respo Léa | profil Sport)");
}

#[test]
fn known_group_takes_over_the_places_that_the_programme_gives() {
    let titres = vec![t("Programmation"), t("Activité"), t("Groupe"), t("Nombre de place max")];
    let nom = "Camp de jour | Lac | 7-8 ans | Sem. 1";
    let sans = vec![t("Été 2024"), t("Camp"), t(nom), Cellule::Empty];
    let vingt = vec![t("Été 2024"), t("Camp"), t(nom), Cellule::Int(20)];
    let autre = vec![t("Été 2024"), t("Camp"), t("Camp de jour | Lac | 7-8 ans | Sem. 2"), Cellule::Int(8)];
    let mut reg = GroupeReg::new();
    fill_groupe_reg_from_prog(&Plage::new(vec![titres.clone(), sans.clone()], 4).unwrap(), &mut reg);
    assert_eq!(reg.get(reg.ids()[0]).unwrap().capacite, None);
    fill_groupe_reg_from_prog(
        &Plage::new(vec![titres.clone(), autre, vingt], 4).unwrap(),
        &mut reg,
    );
    assert_eq!(reg.len(), 2);
    assert_eq!(reg.get(reg.ids()[0]).unwrap().capacite, Some(20));
    assert_eq!(reg.get(reg.ids()[1]).unwrap().capacite, Some(8));
    // A line without a number leaves the places as they are.
    fill_groupe_reg_from_prog(&Plage::new(vec![titres, sans], 4).unwrap(), &mut reg);
    assert_eq!(reg.get(reg.ids()[0]).unwrap().capacite, Some(20));
    assert_eq!(reg.get(reg.ids()[1]).unwrap().capacite, Some(8));
}

#[test]
fn every_sheet_and_line_turned_down_is_reported() {
    let (mut comptes, mut membres, mut groupes) = registres();
    let sans_mandataire: [&str; 4] = ["Roy", "Zoé", "2013-05-05", ""];
    let feuilles = vec![
        Feuille { nom: "vide".to_string(), plage: Plage::new(Vec::new(), 0).unwrap() },
        feuille("Crocus 3", "Camp de jour | Lac | 5-6 ans | Sem. 3", &[&sans_mandataire, &ANA, &sans_mandataire]),
        Feuille { nom: "vide aussi".to_string(), plage: Plage::new(Vec::new(), 0).unwrap() },
    ];
    let journal = fill_regs(&mut comptes, &mut membres, &mut groupes, &Config::default(), &feuilles);
    let erreurs: Vec<String> = journal
        .iter()
        .filter_map(|m| match m {
            Message::Erreur(s) => Some(s.clone()),
            Message::Info(_) => None,
        })
        .collect();
    assert_eq!(
        erreurs,
        vec![
            "Erreur en lisant la page 'vide': ExtractError: Format de donnée invalide",
            "Erreur en lisant le compte 'Roy': ExtractError: Format de donnée invalide",
            "Erreur en lisant le compte 'Roy': ExtractError: Format de donnée invalide",
            "Erreur en lisant la page 'vide aussi': ExtractError: Format de donnée invalide",
        ]
    );
    assert_eq!((groupes.len(), comptes.len(), membres.len()), (1, 1, 1));
    assert_eq!(groupes.get(groupes.ids()[0]).unwrap().participants.to_vec(), membres.ids());
}

#[test]
fn what_cannot_be_read_of_a_new_member_is_reported_once() {
    let (mut comptes, mut membres, mut groupes) = registres();
    let flou: [&str; 12] = [
        "Roy",
        "Ana",
        "2014-03-02",
        "Jean Roy",
        "",
        "",
        "fille",
        "Sport",
        "danse",
        "",
        "moyen",
        "",
    ];
    let feuilles =
        vec![feuille("Crocus 3", "Camp de jour | Lac | 5-6 ans | Sem. 3", &[&flou])];
    let config = Config::default();
    let journal = fill_regs(&mut comptes, &mut membres, &mut groupes, &config, &feuilles);
    let textes: Vec<(bool, String)> = journal
        .iter()
        .map(|m| match m {
            Message::Info(s) => (false, s.clone()),
            Message::Erreur(s) => (true, s.clone()),
        })
        .collect();
    assert_eq!(
        textes,
        vec![
            (false, "LECTURE Été 2024: Camp de jour | Lac | Crocus | Sem. 3 - A".to_string()),
            (true, "Erreur en lisant le genre: fille".to_string()),
            (true, "Erreur en lisant le 1er interet".to_string()),
            (true, "Erreur en lisant la taille".to_string()),
        ]
    );
    let ana = membres.get(membres.ids()[0]).unwrap();
    assert_eq!(ana.genre, None);
    assert_eq!(ana.interets, [Some(Interet::Sport), None, None, None]);
    // The member is known now: a second reading has nothing to say of it.
    let journal = fill_regs(&mut comptes, &mut membres, &mut groupes, &config, &feuilles);
    let textes: Vec<String> = journal
        .iter()
        .map(|m| match m {
            Message::Info(s) => s.clone(),
            Message::Erreur(s) => format!("erreur: {}", s),
        })
        .collect();
    assert_eq!(
        textes,
        vec!["LECTURE Été 2024: Camp de jour | Lac | Crocus | Sem. 3 - A", "Groupe déjà existant!!"]
    );
}
