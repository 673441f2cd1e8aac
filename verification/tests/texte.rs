use camp_registre::config::{Config, ExcelConfig};
use camp_registre::data::Taille;
use camp_registre::groupes::groupes::{Groupe, GroupeID};
use camp_registre::groupes::ensemble::Ensemble;
use camp_registre::date::Date;
use camp_registre::groupes::membres::{Interet, Membre, MembreID, MembreReg};
use camp_registre::groupes::sous_groupes::{guess_nb_sous_groupes, NbSousGroupes, SousGroupe};
use camp_registre::motif::is_match;
use camp_registre::outils::{capitalize, col_to_num, excel_col_to_num, Swap};
use camp_registre::print::typst::{filter_grp, get_mbr_sg, mk_groupe, po, Delimiter, PresenceSDJInfo};
use camp_registre::stats::{update_calcul_chandail, ChandailCalcul};
use camp_registre::texte::{
    analyse_entier, decoupe, ecrit_decimal, ecrit_decimal_signe, ecrit_hex8, nettoie, opt_texte_egal,
    ordre_textes, print_option, str_egal,
};
use std::cmp::Ordering;

#[test]
fn numbers_are_written_out() {
    let mut s = String::from("n=");
    ecrit_decimal(&mut s, 0);
    s.push(' ');
    ecrit_decimal(&mut s, 1234567890);
    s.push(' ');
    ecrit_decimal(&mut s, u64::MAX);
    s.push(' ');
    ecrit_decimal_signe(&mut s, -7);
    s.push(' ');
    ecrit_decimal_signe(&mut s, i64::MIN);
    s.push(' ');
    ecrit_decimal_signe(&mut s, i64::MAX);
    s.push(' ');
    ecrit_hex8(&mut s, 0xa1b2_c3d4);
    assert_eq!(
        s,
        "n=0 1234567890 18446744073709551615 -7 -9223372036854775808 9223372036854775807 a1b2c3d4"
    );
}

#[test]
fn whole_numbers_are_read_within_bounds() {
    assert_eq!(analyse_entier("12", 0, 12), Some(12));
    assert_eq!(analyse_entier("13", 0, 12), None);
    assert_eq!(analyse_entier("-1", 0, 12), None);
    assert_eq!(analyse_entier("-0", 0, 12), Some(0));
    assert_eq!(analyse_entier("-5", -5, 0), Some(-5));
    assert_eq!(analyse_entier("-6", -5, 0), None);
    assert_eq!(analyse_entier("0005", 0, 5), Some(5));
    assert_eq!(analyse_entier("5é", 0, 5), None);
}

#[test]
fn texts_compare() {
    assert!(str_egal("été", "été"));
    assert!(!str_egal("été", "ete"));
    assert!(opt_texte_egal(&None, &None));
    assert!(opt_texte_egal(&Some("a".to_string()), &Some("a".to_string())));
    assert!(!opt_texte_egal(&Some("a".to_string()), &None));
    assert!(!opt_texte_egal(&Some("a".to_string()), &Some("b".to_string())));
    assert_eq!(ordre_textes("abc", "abd"), -1);
    assert_eq!(ordre_textes("abc", "abc"), 0);
    assert_eq!(ordre_textes("abd", "abc"), 1);
    assert_eq!(ordre_textes("ab", "abc"), -1);
    assert_eq!(ordre_textes("abc", "ab"), 1);
    assert_eq!(ordre_textes("", ""), 0);
    assert_eq!(ordre_textes("Z", "a"), -1);
    assert_eq!(ordre_textes("é", "z"), 1);
}

#[test]
fn members_are_ordered_by_name_then_first_name() {
    let d = Date::default();
    let m = |nom: &str, prenom: &str| Membre::new(MembreID(0), nom.to_string(), prenom.to_string(), d);
    assert_eq!(m("Roy", "Ana").cmp_nom(&m("Roy", "Luc")), Ordering::Less);
    assert_eq!(m("Roy", "Luc").cmp_nom(&m("Roy", "Ana")), Ordering::Greater);
    assert_eq!(m("Roy", "Ana").cmp_nom(&m("Roy", "Ana")), Ordering::Equal);
    assert_eq!(m("Côté", "Zoé").cmp_nom(&m("Roy", "Ana")), Ordering::Less);
    assert_eq!(m("Roy", "Ana").cmp_nom(&m("Ro", "Zoé")), Ordering::Greater);
}

#[test]
fn lists_are_cut_at_commas_and_semicolons() {
    assert_eq!(decoupe(""), vec![""]);
    assert_eq!(decoupe("noix"), vec!["noix"]);
    assert_eq!(decoupe("noix, lait;œufs"), vec!["noix", " lait", "œufs"]);
    assert_eq!(decoupe(",a,,"), vec!["", "a", "", ""]);
    assert_eq!(nettoie("  lait\nde vache \n"), "lait de vache");
    assert_eq!(nettoie(" \n "), "");
}

#[test]
fn optional_text_is_printed() {
    assert_eq!(print_option(&None), "NONE");
    assert_eq!(print_option(&Some("Lac".to_string())), "Lac");
    assert_eq!(print_option(&Some(String::new())), "");
}

#[test]
fn first_letter_is_capitalized() {
    assert_eq!(capitalize(""), "");
    assert_eq!(capitalize("lac"), "Lac");
    assert_eq!(capitalize("élan vital"), "Élan vital");
    assert_eq!(capitalize("Lac"), "Lac");
    assert_eq!(capitalize("ßa"), "SSa");
    assert_eq!(capitalize("1a"), "1a");
}

#[test]
fn column_names_are_numbers() {
    assert_eq!(excel_col_to_num("A"), Some(1));
    assert_eq!(excel_col_to_num("z"), Some(26));
    assert_eq!(excel_col_to_num(" AA "), Some(27));
    assert_eq!(excel_col_to_num("AZ"), Some(52));
    assert_eq!(excel_col_to_num("ZZ"), Some(702));
    assert_eq!(excel_col_to_num(""), Some(0));
    assert_eq!(excel_col_to_num("A1"), None);
    assert_eq!(excel_col_to_num("A B"), None);
    assert_eq!(excel_col_to_num("é"), None);
    assert_eq!(excel_col_to_num("MWLQKWU"), Some(4294967295));
    assert_eq!(excel_col_to_num("MWLQKWV"), None);
    assert_eq!(excel_col_to_num("ZZZZZZZZZZZZ"), None);
}

#[test]
fn options_swap() {
    let mut a = Some(1);
    assert_eq!(a.swap(Some(2)), Some(1));
    assert_eq!(a, Some(2));
    assert_eq!(a.swap(None), Some(2));
    assert_eq!(a, None);
    assert_eq!(a.swap(Some(3)), None);
    assert_eq!(a, Some(3));
}

#[test]
fn values_are_written_for_typst() {
    assert_eq!(po(None, Delimiter::Quotes), "none");
    assert_eq!(po(None, Delimiter::Aucun), "none");
    assert_eq!(po(Some("a#b@c\"d$e"), Delimiter::Quotes), "\"a\\#b\\@c\\\"d$e\"");
    assert_eq!(po(Some("a#b@c\"d$e"), Delimiter::Brackets), "[a\\#b\\@c\"d\\$e]");
    assert_eq!(po(Some("a#b@c\"d$e"), Delimiter::Dollars), "$a\\#b\\@c\"d\\$e$");
    assert_eq!(po(Some("a#b@c\"d$e"), Delimiter::Parentheses), "(a\\#b\\@c\"d$e)");
    assert_eq!(po(Some("a#b@c\"d$e"), Delimiter::Braces), "{a\\#b\\@c\"d$e}");
    assert_eq!(po(Some("a#b@c\"d$e"), Delimiter::Aucun), "a\\#b\\@c\"d$e");
    assert_eq!(po(Some(""), Delimiter::Brackets), "[]");
}

#[test]
fn group_is_written_for_typst() {
    let mut g = Groupe::new(GroupeID(1));
    assert_eq!(
        mk_groupe(&g, None),
        "new_groupe(saison: none, site: none, categorie: none, discriminant: none, animateur: none, semaine: none, activite: none, profil: none, groupe_num: none)"
    );
    g.saison = Some("Été".to_string());
    g.site = Some("Lac #2".to_string());
    g.category = Some("Crocus".to_string());
    g.discriminant = Some("A".to_string());
    g.semaine = Some("3".to_string());
    g.activite = Some("Camp".to_string());
    let mut sg = SousGroupe::default();
    sg.disc = 2;
    sg.profil = Some(Interet::Nature);
    sg.animateur = Some("Léa".to_string());
    assert_eq!(
        mk_groupe(&g, Some(&sg)),
        "new_groupe(saison: [Été], site: [Lac \\#2], categorie: [Crocus], discriminant: [A], animateur: [Léa], semaine: [3], activite: [Camp], profil: [Nature], groupe_num: [2])"
    );
}

#[test]
fn groups_are_filtered_by_season_site_and_week() {
    let mut g = Groupe::new(GroupeID(1));
    g.saison = Some("Été".to_string());
    g.site = Some("Lac".to_string());
    let info = PresenceSDJInfo { site: Some("Lac"), semaine: None, saison: Some("Été") };
    assert!(filter_grp(&g, &info));
    g.semaine = Some("3".to_string());
    assert!(!filter_grp(&g, &info));
    assert!(filter_grp(&g, &g.get_sdj_info()));
    let autre = PresenceSDJInfo { site: Some("Mont"), semaine: Some("3"), saison: Some("Été") };
    assert!(!filter_grp(&g, &autre));
}

#[test]
fn sub_group_of_a_member_is_found() {
    let mut g = Groupe::new(GroupeID(1));
    let mut a = SousGroupe::default();
    a.disc = 1;
    a.participants.insert(MembreID(1));
    let mut b = SousGroupe::default();
    b.disc = 2;
    b.participants.insert(MembreID(2));
    b.participants.insert(MembreID(1));
    g.sous_groupe = vec![a, b];
    assert_eq!(g.get_sous_groupe_for(MembreID(1)).unwrap().disc, 1);
    assert_eq!(get_mbr_sg(MembreID(2), &g).unwrap().disc, 2);
    assert!(get_mbr_sg(MembreID(3), &g).is_none());
    assert!(g.sous_groupe[1].contains(MembreID(2)));
    assert!(!g.sous_groupe[0].contains(MembreID(2)));
}

#[test]
fn number_of_sub_groups_follows_the_category() {
    let mut g = Groupe::new(GroupeID(1));
    assert!(matches!(guess_nb_sous_groupes(&g), NbSousGroupes::Connu(None)));
    g.capacite = Some(25);
    g.category = Some("Crocus".to_string());
    assert!(matches!(guess_nb_sous_groupes(&g), NbSousGroupes::Connu(Some(3))));
    g.capacite = Some(30);
    assert!(matches!(guess_nb_sous_groupes(&g), NbSousGroupes::Connu(Some(3))));
    g.category = Some("BALAOUS".to_string());
    g.capacite = Some(25);
    assert!(matches!(guess_nb_sous_groupes(&g), NbSousGroupes::Connu(Some(3))));
    g.capacite = Some(24);
    assert!(matches!(guess_nb_sous_groupes(&g), NbSousGroupes::Connu(Some(2))));
    g.category = Some("basaltes".to_string());
    g.capacite = Some(16);
    assert!(matches!(guess_nb_sous_groupes(&g), NbSousGroupes::Connu(Some(2))));
    g.category = Some("12-15 ans".to_string());
    g.capacite = Some(1);
    assert!(matches!(guess_nb_sous_groupes(&g), NbSousGroupes::Connu(Some(1))));
    g.category = Some("Ados".to_string());
    g.capacite = Some(20);
    g.saison = Some("Été".to_string());
    match guess_nb_sous_groupes(&g) {
        NbSousGroupes::Demander(q) => assert_eq!(
            q,
            "Combien de sous groupe pour le groupe [Été | Ados]? (capacité de 20): "
        ),
        _ => panic!("the category has no rule"),
    }
    g.capacite = None;
    g.add_participant(MembreID(1));
    match guess_nb_sous_groupes(&g) {
        NbSousGroupes::Demander(q) => {
            assert_eq!(q, "Combien de sous groupe pour le groupe [Été | Ados]? ")
        },
        _ => panic!("the category has no rule"),
    }
    g.category = None;
    assert!(matches!(guess_nb_sous_groupes(&g), NbSousGroupes::Demander(_)));
}

#[test]
fn sizes_are_counted_once_for_each_member() {
    let mut reg = MembreReg::new();
    let tailles = [Some(Taille::M), None, Some(Taille::M), Some(Taille::XL)];
    let mut g = Groupe::new(GroupeID(1));
    for (i, t) in tailles.iter().enumerate() {
        let mut m = Membre::new(MembreID(i as u32 + 1), "N".to_string(), "P".to_string(), Date::default());
        m.taille = *t;
        reg.add(m).unwrap();
        g.add_participant(MembreID(i as u32 + 1));
    }
    let mut cc = ChandailCalcul::new();
    assert_eq!((cc.nombre(), cc.total()), (0, 0));
    let mut vus = Ensemble::new();
    vus.insert(MembreID(3));
    assert_eq!(update_calcul_chandail(&mut cc, &g, &reg, &mut vus), Ok(()));
    assert_eq!(cc.nombre(), 3);
    assert_eq!(cc.total(), 2);
    assert_eq!(cc.compte(Taille::M), 1);
    assert_eq!(cc.compte(Taille::XL), 1);
    assert_eq!(cc.compte(Taille::S), 0);
    assert_eq!(vus.to_vec(), vec![MembreID(3), MembreID(1), MembreID(2), MembreID(4)]);
    assert_eq!(update_calcul_chandail(&mut cc, &g, &reg, &mut vus), Ok(()));
    assert_eq!(cc.nombre(), 3);
    g.add_participant(MembreID(9));
    let mut autres = Ensemble::new();
    assert_eq!(update_calcul_chandail(&mut cc, &g, &reg, &mut autres), Err(MembreID(9)));
    assert_eq!(cc.nombre(), 3);
    assert!(autres.is_empty());
    cc.ajoute(Some(Taille::XS));
    cc.ajoute(None);
    assert_eq!((cc.nombre(), cc.total(), cc.compte(Taille::XS)), (5, 3, 1));
}

#[test]
fn settings_have_their_defaults() {
    let c = Config::default();
    assert_eq!(c.out_dir, "./out");
    assert_eq!(c.working_dir, ".");
    assert_eq!(c.typst_working_dir, "templates");
    assert!(c.verbose);
    assert_eq!((c.excel.ln_skip, c.excel.data_ln), (6, 5));
    let e = ExcelConfig::default();
    assert_eq!((e.ln_skip, e.data_ln), (6, 5));
}

#[test]
fn patterns_match_or_not() {
    assert!(is_match("^a+$", "aaa"));
    assert!(!is_match("^a+$", "aab"));
    assert!(!is_match("(", "("));
}

#[test]
fn sets_keep_the_order_of_arrival() {
    let mut e = Ensemble::new();
    assert!(e.is_empty());
    assert!(e.insert(MembreID(5)));
    assert!(e.insert(MembreID(2)));
    assert!(!e.insert(MembreID(5)));
    assert_eq!(e.len(), 2);
    assert_eq!(e.get(1), MembreID(2));
    assert_eq!(e.position(MembreID(2)), Some(1));
    assert_eq!(e.position(MembreID(9)), None);
    let f = e.clone();
    assert!(e.remove(MembreID(5)));
    assert!(!e.remove(MembreID(5)));
    assert_eq!(e.to_vec(), vec![MembreID(2)]);
    assert_eq!(f.to_vec(), vec![MembreID(5), MembreID(2)]);
    assert!(Ensemble::default().is_empty());
}

#[test]
fn lower_case_column_names_are_numbered() {
    assert_eq!(col_to_num("a"), Some(1));
    assert_eq!(col_to_num("z"), Some(26));
    assert_eq!(col_to_num("aa"), Some(27));
    assert_eq!(col_to_num("bc"), Some(55));
    assert_eq!(col_to_num(""), Some(0));
    assert_eq!(col_to_num("A"), None);
    assert_eq!(col_to_num("a1"), None);
    assert_eq!(col_to_num(" a"), None);
    assert_eq!(col_to_num("mwlqkwu"), Some(4294967295));
    assert_eq!(col_to_num("mwlqkwv"), None);
    assert_eq!(col_to_num("zzzzzzzzzzzz"), None);
}
