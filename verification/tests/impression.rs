use camp_registre::config::Config;
use camp_registre::data::tel::Tel;
use camp_registre::data::{BoolJustifie, Genre, Taille};
use camp_registre::date::Date;
use camp_registre::groupes::comptes::{Compte, CompteID, CompteReg};
use camp_registre::groupes::ensemble::Ensemble;
use camp_registre::groupes::groupes::{Groupe, GroupeID, GroupeReg};
use camp_registre::groupes::membres::{Contact, Interet, Membre, MembreID, MembreReg};
use camp_registre::groupes::sous_groupes::SousGroupe;
use camp_registre::print::typst::{
    filter_grp, get_mbr_sg, mk_groupe, mk_membre, po, print_fiche_med, print_presence_anim,
    print_presence_sdj, resout_membres, trie_par_nom, Delimiter, PresenceSDJInfo, PrintError,
};
use camp_registre::session::{
    decrit_groupe, infos_sdj, liste_sites, membres_du_site, Registres,
};
use camp_registre::stats::{compte_par_categorie, update_calcul_chandail, ChandailCalcul};

fn config() -> Config {
    let mut c = Config::default();
    c.out_dir = "/tmp/sortie".to_string();
    c.working_dir = "/tmp/travail".to_string();
    c
}

fn enfant(id: u32, nom: &str, prenom: &str) -> Membre {
    Membre::new(
        MembreID(id),
        nom.to_string(),
        prenom.to_string(),
        Date::from_ymd_opt(2015, 6, 15).unwrap(),
    )
}

fn groupe_ete(id: u32, site: &str, semaine: &str, participants: &[u32]) -> Groupe {
    let mut g = Groupe::new(GroupeID(id));
    g.saison = Some("Été 2024".to_string());
    g.site = Some(site.to_string());
    g.semaine = Some(semaine.to_string());
    g.activite = Some("Camp de jour".to_string());
    g.category = Some("Touche-à-tout".to_string());
    g.discriminant = Some("A".to_string());
    for p in participants {
        assert!(g.add_participant(MembreID(*p)));
    }
    g
}

const ENFANT_INCONNU: &str = "new_enfant(\n\t\tid: \"M00000007\",\n\t\tnom: [Roy],\n\t\tprenom: [Zoé],\n\t\tcam: new_cam(nam: none, exp_mois: none, exp_year: none),\n\t\tgenre: none,\n\t\tallergies: (),\n\t\tmaladies: (),\n\t\tprob_comportement: none,\n\t\tcompte: new_compte(mandataire: [], tel: none, adresse: none, email: \"none\"),\n\t\tprise_med: none,\n\t\tauth_soins: none,\n\t\tmedicaments: new_medicaments(anti_inflamatoire: none, sirop_toux: none, ibuprofene: none, antiemetique: none, antibiotique: none, acetaminophene: none,),\n\t\tcontact_1: none,\n\t\tcontact_2: none,\n\t\tquitte: (),\n\t\tmdp: none,\n\t\tpiscine: new_piscine(auth_partage: none, vfi: none, tete_sous_eau: none),\n\t\tauth_photo: none,\n\t\tcommentaire: none,\n\t\tnaissance: [2015/06/15],\n\t\tage: [9],\n\t)";

#[test]
fn optional_values_are_delimited_and_escaped() {
    assert_eq!(po(None, Delimiter::Brackets), "none");
    assert_eq!(po(None, Delimiter::Quotes), "none");
    assert_eq!(po(Some("Luc"), Delimiter::Brackets), "[Luc]");
    assert_eq!(po(Some("Luc"), Delimiter::Quotes), "\"Luc\"");
    assert_eq!(po(Some("Luc"), Delimiter::Dollars), "$Luc$");
    assert_eq!(po(Some("Luc"), Delimiter::Parentheses), "(Luc)");
    assert_eq!(po(Some("Luc"), Delimiter::Braces), "{Luc}");
    assert_eq!(po(Some("Luc"), Delimiter::Aucun), "Luc");
    assert_eq!(po(Some("a@b.ca #1"), Delimiter::Aucun), "a\\@b.ca \\#1");
    assert_eq!(po(Some("5$ \"dit\""), Delimiter::Brackets), "[5\\$ \"dit\"]");
    assert_eq!(po(Some("5$ \"dit\""), Delimiter::Quotes), "\"5$ \\\"dit\\\"\"");
    assert_eq!(po(Some("5$"), Delimiter::Dollars), "$5\\$$");
    assert_eq!(po(Some(""), Delimiter::Brackets), "[]");
}

#[test]
fn member_of_whom_little_is_known_is_written_with_none() {
    let m = enfant(7, "Roy", "Zoé");
    let jour = Date::from_ymd_opt(2024, 7, 1).unwrap();
    assert_eq!(mk_membre(&m, &Compte::default(), &jour), ENFANT_INCONNU);
}

#[test]
fn age_counts_full_years_only() {
    let m = enfant(7, "Roy", "Zoé");
    let c = Compte::default();
    let veille = Date::from_ymd_opt(2024, 6, 14).unwrap();
    let fete = Date::from_ymd_opt(2024, 6, 15).unwrap();
    let avant = Date::from_ymd_opt(2015, 6, 14).unwrap();
    assert!(mk_membre(&m, &c, &veille).ends_with("\t\tage: [8],\n\t)"));
    assert!(mk_membre(&m, &c, &fete).ends_with("\t\tage: [9],\n\t)"));
    assert!(mk_membre(&m, &c, &avant).ends_with("\t\tage: none,\n\t)"));
}

#[test]
fn member_with_everything_known_is_written_in_full() {
    let mut m = enfant(0xab, "Roy", "Zoé");
    m.genre = Some(Genre::from_str("femme").unwrap());
    m.fiche_sante.allergies = vec!["Arachides".to_string()];
    m.fiche_sante.maladies = vec!["Asthme".to_string(), "Eczéma".to_string()];
    m.fiche_sante.probleme_comportement =
        Some(BoolJustifie { reponse: true, justification: Some("TDAH".to_string()) });
    m.fiche_sante.prise_med = Some(BoolJustifie { reponse: false, justification: None });
    m.fiche_sante.auth_soins = Some(true);
    m.fiche_sante.auth_medicaments.ibuprofene = Some(false);
    m.contacts[0] = Some(Contact {
        nom: "Luc Roy".to_string(),
        tel: Some(Tel::from_str("514 555-1234").unwrap()),
        lien: Some("père".to_string()),
    });
    m.quitte.avec = vec!["Luc Roy".to_string()];
    m.quitte.mdp = Some("tortue".to_string());
    m.piscine.vfi = Some(true);
    m.auth_photo = Some(false);
    m.commentaire = Some("Aime les #défis".to_string());
    let mut c = Compte::new(CompteID(3), "Luc Roy".to_string());
    c.tel = Some(Tel::from_str("5145551234").unwrap());
    let jour = Date::from_ymd_opt(2024, 7, 1).unwrap();
    let s = mk_membre(&m, &c, &jour);
    assert!(s.starts_with("new_enfant(\n\t\tid: \"M000000ab\",\n\t\tnom: [Roy],"));
    assert!(s.contains("\n\t\tgenre: [Femme],\n"));
    assert!(s.contains("\n\t\tallergies: ([Arachides],),\n"));
    assert!(s.contains("\n\t\tmaladies: ([Asthme], [Eczéma]),\n"));
    assert!(s.contains("\n\t\tprob_comportement: bool_just(val: true, just: [TDAH]),\n"));
    assert!(s.contains("\n\t\tprise_med: bool_just(val: false, just: none),\n"));
    assert!(s.contains("\n\t\tauth_soins: true,\n"));
    assert!(s.contains("sirop_toux: none, ibuprofene: false, antiemetique: none"));
    assert!(s.contains(
        "\n\t\tcompte: new_compte(mandataire: [Luc Roy], tel: [+1 (514) 555-1234], adresse: none, email: \"none\"),\n"
    ));
    assert!(s.contains(
        "\n\t\tcontact_1: new_contact(nom: [Luc Roy], tel: [+1 (514) 555-1234], lien: [père]),\n\t\tcontact_2: none,\n"
    ));
    assert!(s.contains("\n\t\tquitte: ([Luc Roy],),\n\t\tmdp: [tortue],\n"));
    assert!(s.contains("piscine: new_piscine(auth_partage: none, vfi: true, tete_sous_eau: none)"));
    assert!(s.contains("\n\t\tauth_photo: false,\n\t\tcommentaire: [Aime les \\#défis],\n"));
}

#[test]
fn group_is_written_with_and_without_a_sub_group() {
    let g = groupe_ete(1, "Parc Central", "3", &[]);
    assert_eq!(
        mk_groupe(&g, None),
        "new_groupe(saison: [Été 2024], site: [Parc Central], categorie: [Touche-à-tout], discriminant: [A], animateur: none, semaine: [3], activite: [Camp de jour], profil: none, groupe_num: none)"
    );
    let mut sg = SousGroupe::default();
    sg.profil = Some(Interet::Sport);
    sg.disc = 2;
    sg.animateur = Some("Kim".to_string());
    assert_eq!(
        mk_groupe(&g, Some(&sg)),
        "new_groupe(saison: [Été 2024], site: [Parc Central], categorie: [Touche-à-tout], discriminant: [A], animateur: [Kim], semaine: [3], activite: [Camp de jour], profil: [Sport], groupe_num: [2])"
    );
    assert_eq!(
        mk_groupe(&Groupe::new(GroupeID(9)), None),
        "new_groupe(saison: none, site: none, categorie: none, discriminant: none, animateur: none, semaine: none, activite: none, profil: none, groupe_num: none)"
    );
}

#[test]
fn health_file_goes_to_the_folder_of_its_site() {
    let m = enfant(7, "Roy", "Zoé");
    let jour = Date::from_ymd_opt(2024, 7, 1).unwrap();
    let imp = print_fiche_med(&m, &Compte::default(), &config(), "Parc Central", &jour);
    assert_eq!(imp.dir, "/tmp/sortie/Parc Central/fiche_med");
    assert_eq!(imp.out_file, "/tmp/sortie/Parc Central/fiche_med/fichemed_Roy_Zoé.pdf");
    assert_eq!(imp.tmp_dir, "/tmp/travail/templates");
    assert_eq!(imp.tmp_file, "/tmp/travail/templates/tmp.typ");
    assert_eq!(
        imp.source,
        format!(
            "#import \"template.typ\": *\n#let enfant = {}\n#show: it => fiche_med( it,\n\tenfant: enfant,\n)\n",
            ENFANT_INCONNU
        )
    );
}

#[test]
fn members_are_sorted_by_name_then_first_name() {
    let a = enfant(1, "Roy", "Zoé");
    let b = enfant(2, "Côté", "Max");
    let c = enfant(3, "Roy", "Alice");
    let d = enfant(4, "Cote", "Max");
    let e = enfant(5, "Roy", "Alice");
    let tri = trie_par_nom(&vec![&a, &b, &c, &d, &e]);
    let ids: Vec<u32> = tri.iter().map(|m| m.id.0).collect();
    assert_eq!(ids, vec![4, 2, 3, 5, 1]);
    assert!(trie_par_nom(&Vec::new()).is_empty());
}

#[test]
fn participants_are_resolved_in_order_or_the_first_missing_is_named() {
    let mut membres = MembreReg::new();
    membres.add(enfant(1, "Roy", "Zoé")).unwrap();
    membres.add(enfant(2, "Côté", "Max")).unwrap();
    let mut ids = Ensemble::new();
    ids.insert(MembreID(2));
    ids.insert(MembreID(1));
    let trouves = resout_membres(&ids, &membres).unwrap();
    assert_eq!(trouves.iter().map(|m| m.id.0).collect::<Vec<u32>>(), vec![2, 1]);
    ids.insert(MembreID(8));
    ids.insert(MembreID(9));
    assert_eq!(resout_membres(&ids, &membres).err(), Some(MembreID(8)));
}

#[test]
fn attendance_sheet_of_a_group_lists_its_participants_by_name() {
    let mut membres = MembreReg::new();
    let mut comptes = CompteReg::new();
    comptes.add(Compte::new(CompteID(3), "Luc Roy".to_string())).unwrap();
    let mut zoe = enfant(1, "Roy", "Zoé");
    zoe.compte = Some(CompteID(3));
    membres.add(zoe).unwrap();
    membres.add(enfant(2, "Côté", "Max")).unwrap();
    let g = groupe_ete(1, "Parc Central", "3", &[1, 2]);
    let jour = Date::from_ymd_opt(2024, 7, 1).unwrap();
    let nul = Compte::default();
    let imp = print_presence_anim(&g, None, &membres, &comptes, &nul, &config(), &jour).unwrap();
    assert_eq!(imp.dir, "/tmp/sortie/Été-2024/Parc-Central/anim/sem3");
    assert_eq!(
        imp.out_file,
        "/tmp/sortie/Été-2024/Parc-Central/anim/sem3/presence_anim_Camp-de-jour_Parc-Central_Touche-à-tout_Anone_none_sem3.pdf"
    );
    assert_eq!(imp.tmp_file, "/tmp/travail/templates/tmp.typ");
    let max = mk_membre(membres.get(MembreID(2)).unwrap(), &nul, &jour);
    let zoe = mk_membre(
        membres.get(MembreID(1)).unwrap(),
        comptes.get(CompteID(3)).unwrap(),
        &jour,
    );
    assert!(zoe.contains("mandataire: [Luc Roy]"));
    assert_eq!(
        imp.source,
        format!(
            "#import \"template.typ\": *\n#let grp = {}\n#let participants = (\n{},\n{},\n)\n#show: it => presence_anim(it, groupe: grp, participants: participants)\n",
            mk_groupe(&g, None),
            max,
            zoe
        )
    );
}

#[test]
fn attendance_sheet_of_a_sub_group_lists_the_sub_group_only() {
    let mut membres = MembreReg::new();
    membres.add(enfant(1, "Roy", "Zoé")).unwrap();
    membres.add(enfant(2, "Côté", "Max")).unwrap();
    let comptes = CompteReg::new();
    let g = groupe_ete(1, "Parc Central", "3", &[1, 2]);
    let mut sg = SousGroupe::default();
    sg.profil = Some(Interet::Art);
    sg.disc = 1;
    sg.participants.insert(MembreID(1));
    let jour = Date::from_ymd_opt(2024, 7, 1).unwrap();
    let nul = Compte::default();
    let imp =
        print_presence_anim(&g, Some(&sg), &membres, &comptes, &nul, &config(), &jour).unwrap();
    assert!(imp.out_file.ends_with("/presence_anim_Camp-de-jour_Parc-Central_Touche-à-tout_A1_Art_sem3.pdf"));
    assert!(imp.source.contains("nom: [Roy]"));
    assert!(!imp.source.contains("nom: [Côté]"));
    assert!(imp.source.contains("profil: [Art], groupe_num: [1])"));
}

#[test]
fn attendance_sheet_fails_on_the_first_unknown_member_or_account() {
    let mut membres = MembreReg::new();
    let comptes = CompteReg::new();
    let mut zoe = enfant(1, "Roy", "Zoé");
    zoe.compte = Some(CompteID(3));
    membres.add(zoe).unwrap();
    let jour = Date::from_ymd_opt(2024, 7, 1).unwrap();
    let nul = Compte::default();
    let g = groupe_ete(1, "Parc Central", "3", &[1, 5, 6]);
    assert_eq!(
        print_presence_anim(&g, None, &membres, &comptes, &nul, &config(), &jour).err(),
        Some(PrintError::MembreInexistant(MembreID(5)))
    );
    let g = groupe_ete(1, "Parc Central", "3", &[1]);
    assert_eq!(
        print_presence_anim(&g, None, &membres, &comptes, &nul, &config(), &jour).err(),
        Some(PrintError::CompteInexistant(CompteID(3)))
    );
}

#[test]
fn groups_are_matched_to_a_day_care_by_season_site_and_week() {
    let g = groupe_ete(1, "Parc Central", "3", &[]);
    let oui =
        PresenceSDJInfo { site: Some("Parc Central"), semaine: Some("3"), saison: Some("Été 2024") };
    let autre_semaine =
        PresenceSDJInfo { site: Some("Parc Central"), semaine: Some("4"), saison: Some("Été 2024") };
    let sans_site = PresenceSDJInfo { site: None, semaine: Some("3"), saison: Some("Été 2024") };
    assert!(filter_grp(&g, &oui));
    assert!(!filter_grp(&g, &autre_semaine));
    assert!(!filter_grp(&g, &sans_site));
    let vide = PresenceSDJInfo { site: None, semaine: None, saison: None };
    assert!(filter_grp(&Groupe::new(GroupeID(2)), &vide));
}

#[test]
fn sub_group_that_holds_a_member_is_looked_up() {
    let mut g = groupe_ete(1, "Parc Central", "3", &[1, 2, 3]);
    let mut a = SousGroupe::default();
    a.disc = 1;
    a.participants.insert(MembreID(1));
    let mut b = SousGroupe::default();
    b.disc = 2;
    b.participants.insert(MembreID(2));
    g.sous_groupe = vec![a, b];
    assert_eq!(get_mbr_sg(MembreID(2), &g).map(|sg| sg.disc), Some(2));
    assert_eq!(get_mbr_sg(MembreID(1), &g).map(|sg| sg.disc), Some(1));
    assert!(get_mbr_sg(MembreID(3), &g).is_none());
}

#[test]
fn day_care_sheet_gathers_the_groups_of_one_site_and_week() {
    let mut groupes = GroupeReg::new();
    groupes.add(groupe_ete(1, "Parc Central", "3", &[1, 2])).unwrap();
    groupes.add(groupe_ete(2, "Parc Central", "3", &[2, 3])).unwrap();
    groupes.add(groupe_ete(3, "Parc Central", "4", &[4])).unwrap();
    let mut membres = MembreReg::new();
    membres.add(enfant(1, "Roy", "Zoé")).unwrap();
    membres.add(enfant(2, "Côté", "Max")).unwrap();
    membres.add(enfant(3, "Alarie", "Léa")).unwrap();
    membres.add(enfant(4, "Bouchard", "Tom")).unwrap();
    let comptes = CompteReg::new();
    let nul = Compte::default();
    let jour = Date::from_ymd_opt(2024, 7, 1).unwrap();
    let info =
        PresenceSDJInfo { site: Some("Parc Central"), semaine: Some("3"), saison: Some("Été 2024") };
    let imp =
        print_presence_sdj(&info, &groupes, &membres, &comptes, &nul, &config(), &jour).unwrap();
    assert_eq!(imp.dir, "/tmp/sortie/Été-2024/Parc-Central/sdj");
    assert_eq!(
        imp.out_file,
        "/tmp/sortie/Été-2024/Parc-Central/sdj/presence_sdj_Été-2024_Parc-Central_sem3.pdf"
    );
    let lea = imp.source.find("nom: [Alarie]").unwrap();
    let max = imp.source.find("nom: [Côté]").unwrap();
    let zoe = imp.source.find("nom: [Roy]").unwrap();
    assert!(lea < max && max < zoe);
    assert_eq!(imp.source.matches("nom: [Côté]").count(), 1);
    assert!(!imp.source.contains("nom: [Bouchard]"));
    assert!(imp.source.starts_with("#import \"template.typ\": *\n"));
    assert!(imp.source.ends_with(
        ")\n#show: it => presence_sdj(\n\tsite: site,\n\tsaison: saison,\n\tsemaine: semaine,\n\tgroupes: groupes,\n\tparticipants: participants,\n)"
    ));
    groupes.get_mut(GroupeID(2)).unwrap().add_participant(MembreID(77));
    assert_eq!(
        print_presence_sdj(&info, &groupes, &membres, &comptes, &nul, &config(), &jour).err(),
        Some(PrintError::MembreInexistant(MembreID(77)))
    );
}

#[test]
fn session_starts_with_the_records_that_stand_for_none() {
    let r = Registres::new();
    assert_eq!(r.groupes.len(), 1);
    assert_eq!(r.comptes.len(), 1);
    assert_eq!(r.membres.len(), 1);
    assert!(r.groupes.contains(GroupeID(0)));
    assert!(r.comptes.contains(CompteID(0)));
    assert!(r.membres.contains(MembreID(0)));
    assert_eq!(r.membres.get(MembreID(0)).unwrap().nom, "");
    assert!(infos_sdj(&r.groupes, GroupeID(0)).is_empty());
}

#[test]
fn group_is_described_in_one_line() {
    let mut g = groupe_ete(0x1f, "Parc Central", "3", &[1, 2]);
    assert_eq!(
        decrit_groupe(&g),
        "G0000001f: Été 2024: Camp de jour | Parc Central | Touche-à-tout | Sem. 3 - A --- inscriptions: 2/-"
    );
    g.capacite = Some(24);
    g.discriminant = None;
    assert_eq!(
        decrit_groupe(&g),
        "G0000001f: Été 2024: Camp de jour | Parc Central | Touche-à-tout | Sem. 3 - NONE --- inscriptions: 2/24"
    );
}

#[test]
fn day_cares_and_sites_are_listed_once_each() {
    let mut r = Registres::new();
    r.groupes.add(groupe_ete(1, "Parc Central", "3", &[1, 2])).unwrap();
    r.groupes.add(groupe_ete(2, "Parc Central", "3", &[2, 3])).unwrap();
    r.groupes.add(groupe_ete(3, "Rivière", "3", &[4])).unwrap();
    r.groupes.add(groupe_ete(4, "Parc Central", "4", &[5, 1])).unwrap();
    let infos = infos_sdj(&r.groupes, GroupeID(0));
    let vus: Vec<(Option<&str>, Option<&str>, Option<&str>)> =
        infos.iter().map(|i| (i.site, i.semaine, i.saison)).collect();
    assert_eq!(
        vus,
        vec![
            (Some("Parc Central"), Some("3"), Some("Été 2024")),
            (Some("Rivière"), Some("3"), Some("Été 2024")),
            (Some("Parc Central"), Some("4"), Some("Été 2024")),
        ]
    );
    assert_eq!(liste_sites(&r.groupes), vec!["None", "Parc Central", "Rivière"]);
    assert_eq!(
        membres_du_site(&r.groupes, "Parc Central").to_vec(),
        vec![MembreID(1), MembreID(2), MembreID(3), MembreID(5)]
    );
    assert_eq!(membres_du_site(&r.groupes, "Rivière").to_vec(), vec![MembreID(4)]);
    assert!(membres_du_site(&r.groupes, "Ailleurs").is_empty());
}

#[test]
fn shirts_are_counted_once_per_member() {
    let mut membres = MembreReg::new();
    let tailles = Taille::tailles();
    for (i, t) in [Some(tailles[0]), Some(tailles[2]), None, Some(tailles[2])].iter().enumerate() {
        let mut m = enfant(i as u32 + 1, "Roy", "Zoé");
        m.taille = *t;
        membres.add(m).unwrap();
    }
    let mut cc = ChandailCalcul::new();
    let mut vus = Ensemble::new();
    let a = groupe_ete(1, "Parc Central", "3", &[1, 2, 3]);
    let b = groupe_ete(2, "Parc Central", "4", &[3, 4, 1]);
    assert_eq!(update_calcul_chandail(&mut cc, &a, &membres, &mut vus), Ok(()));
    assert_eq!(cc.nombre(), 3);
    assert_eq!(cc.total(), 2);
    assert_eq!(update_calcul_chandail(&mut cc, &b, &membres, &mut vus), Ok(()));
    assert_eq!(cc.nombre(), 4);
    assert_eq!(cc.total(), 3);
    assert_eq!(cc.compte(tailles[0]), 1);
    assert_eq!(cc.compte(tailles[2]), 2);
    assert_eq!(cc.compte(tailles[1]), 0);
    assert_eq!(vus.to_vec(), vec![MembreID(1), MembreID(2), MembreID(3), MembreID(4)]);
    let c = groupe_ete(3, "Parc Central", "5", &[2, 9]);
    assert_eq!(update_calcul_chandail(&mut cc, &c, &membres, &mut vus), Err(MembreID(9)));
    assert_eq!(cc.nombre(), 4);
    assert_eq!(vus.len(), 4);
}

#[test]
fn members_are_counted_by_category_once_each() {
    let mut membres = MembreReg::new();
    let tailles = Taille::tailles();
    for (i, t) in [Some(tailles[0]), Some(tailles[2]), None, Some(tailles[5])].iter().enumerate() {
        let mut m = enfant(i as u32 + 1, "Roy", "Zoé");
        m.taille = *t;
        membres.add(m).unwrap();
    }
    let mut groupes = GroupeReg::new();
    let mut a = groupe_ete(1, "Parc Central", "3", &[1, 2]);
    a.category = Some("Crocus".to_string());
    let mut b = groupe_ete(2, "Parc Central", "4", &[3]);
    b.category = None;
    let mut c = groupe_ete(3, "Parc Central", "5", &[2, 4, 1]);
    c.category = Some("Balaous".to_string());
    let mut d = groupe_ete(4, "Parc Central", "6", &[4, 3]);
    d.category = Some("Crocus".to_string());
    for g in [a, b, c, d] {
        groupes.add(g).unwrap();
    }
    let comptes = compte_par_categorie(&groupes, &membres).unwrap();
    let vus: Vec<(String, usize, usize, Vec<usize>)> = comptes
        .iter()
        .map(|(nom, cc)| {
            (nom.clone(), cc.nombre(), cc.total(), tailles.iter().map(|t| cc.compte(*t)).collect())
        })
        .collect();
    assert_eq!(
        vus,
        vec![
            ("Crocus".to_string(), 2, 2, vec![1, 0, 1, 0, 0, 0]),
            ("None".to_string(), 1, 0, vec![0, 0, 0, 0, 0, 0]),
            ("Balaous".to_string(), 1, 1, vec![0, 0, 0, 0, 0, 1]),
        ]
    );
    groupes.get_mut(GroupeID(2)).unwrap().add_participant(MembreID(9));
    groupes.get_mut(GroupeID(4)).unwrap().add_participant(MembreID(8));
    assert_eq!(compte_par_categorie(&groupes, &membres).err(), Some(MembreID(9)));
    assert!(compte_par_categorie(&GroupeReg::new(), &membres).unwrap().is_empty());
}
