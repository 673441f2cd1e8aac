use camp_registre::data::adresse::Adresse;
use camp_registre::data::email::Email;
use camp_registre::data::tel::Tel;
use camp_registre::date::Date;
use camp_registre::groupes::comptes::{Compte, CompteErr, CompteID, CompteReg};
use camp_registre::groupes::graine::{hache_octets, hache_texte, FNV_BASE};
use camp_registre::groupes::groupes::{Groupe, GroupeID, GroupeReg};
use camp_registre::groupes::membres::{Membre, MembreID, MembreReg};
use camp_registre::groupes::registre::Registre;
use camp_registre::groupes::RegError;

fn compte(nom: &str) -> Compte {
    let mut c = Compte::new(CompteID(0), nom.to_string());
    c.id = CompteID(c.get_id_seed());
    c
}

fn membre(nom: &str, prenom: &str, an: i32) -> Membre {
    let mut m = Membre::new(
        MembreID(0),
        nom.to_string(),
        prenom.to_string(),
        Date::from_ymd_opt(an, 6, 15).unwrap(),
    );
    m.id = MembreID(m.get_id_seed());
    m
}

#[test]
fn identifiers_show_as_letter_and_eight_hex_digits() {
    assert_eq!(MembreID(0).to_string(), "M00000000");
    assert_eq!(MembreID(0x2a).to_string(), "M0000002a");
    assert_eq!(CompteID(0xdead_beef).to_string(), "Cdeadbeef");
    assert_eq!(GroupeID(u32::MAX).to_string(), "Gffffffff");
    assert_eq!(GroupeID(0x0123_4567).to_string(), "G01234567");
    assert_eq!(CompteID::default(), CompteID(0));
}

#[test]
fn empty_store_holds_nothing() {
    let r: Registre<u8> = Registre::new();
    assert_eq!(r.len(), 0);
    assert!(!r.contains(0));
    assert!(r.get(7).is_none());
    assert_eq!(r.premiere_cle_libre(99), 99);
}

#[test]
fn store_keeps_insertion_order_and_refuses_a_taken_key() {
    let mut r: Registre<&str> = Registre::new();
    assert!(r.add(5, "cinq").is_ok());
    assert!(r.add(2, "deux").is_ok());
    assert_eq!(r.add(5, "encore"), Err("encore"));
    assert_eq!(r.len(), 2);
    assert_eq!(r.cle_a(0), 5);
    assert_eq!(r.cle_a(1), 2);
    assert_eq!(*r.item_a(1), "deux");
    assert_eq!(r.position(2), Some(1));
    assert_eq!(r.position(3), None);
    assert_eq!(r.get(5), Some(&"cinq"));
    *r.get_mut(2).unwrap() = "two";
    assert_eq!(r.get(2), Some(&"two"));
    assert_eq!(r.remove(5), Some("cinq"));
    assert_eq!(r.remove(5), None);
    assert_eq!(r.len(), 1);
    assert_eq!(r.cle_a(0), 2);
}

#[test]
fn free_key_is_the_seed_or_the_next_free_one() {
    let mut r: Registre<u8> = Registre::new();
    assert_eq!(r.premiere_cle_libre(42), 42);
    r.add(42, 0).unwrap();
    assert_eq!(r.premiere_cle_libre(42), 43);
    r.add(43, 0).unwrap();
    r.add(45, 0).unwrap();
    assert_eq!(r.premiere_cle_libre(42), 44);
    assert_eq!(r.premiere_cle_libre(45), 46);
    assert_eq!(r.premiere_cle_libre(41), 41);
}

#[test]
fn free_key_wraps_around_the_largest() {
    let mut r: Registre<u8> = Registre::new();
    r.add(u32::MAX, 0).unwrap();
    assert_eq!(r.premiere_cle_libre(u32::MAX), 0);
    r.add(0, 0).unwrap();
    r.add(1, 0).unwrap();
    assert_eq!(r.premiere_cle_libre(u32::MAX), 2);
    assert_eq!(r.premiere_cle_libre(u32::MAX - 1), u32::MAX - 1);
}

#[test]
fn registry_reports_conflicts_and_misses() {
    let mut reg = CompteReg::new();
    let mut c = compte("A");
    c.id = CompteID(7);
    assert!(reg.add(c).is_ok());
    let mut d = compte("B");
    d.id = CompteID(7);
    match reg.add(d) {
        Err(RegError::KeyAlreadyInReg(id)) => assert_eq!(id, CompteID(7)),
        _ => panic!("the identifier was taken"),
    }
    assert_eq!(reg.len(), 1);
    assert!(reg.contains(CompteID(7)));
    assert!(!reg.contains(CompteID(8)));
    match reg.get(CompteID(8)) {
        Err(RegError::NoSuchItem(id)) => assert_eq!(id, CompteID(8)),
        _ => panic!("nothing is there"),
    }
    match reg.get_mut(CompteID(8)) {
        Err(RegError::NoSuchItem(id)) => assert_eq!(id, CompteID(8)),
        _ => panic!("nothing is there"),
    }
    match reg.remove(CompteID(8)) {
        Err(RegError::NoSuchItem(id)) => assert_eq!(id, CompteID(8)),
        _ => panic!("nothing is there"),
    }
    assert_eq!(reg.get(CompteID(7)).unwrap().mandataire, "A");
    reg.get_mut(CompteID(7)).unwrap().mandataire = "C".to_string();
    assert_eq!(reg.remove(CompteID(7)).unwrap().mandataire, "C");
    assert_eq!(reg.len(), 0);
}

#[test]
fn second_account_with_the_same_seed_gets_the_next_identifier() {
    let mut reg = CompteReg::new();
    let mut premier = Compte::new(CompteID(42), "Jean Tremblay".to_string());
    premier.id = CompteID(42);
    assert_eq!(reg.resoudre(premier), CompteID(42));
    let mut second = Compte::new(CompteID(42), "Marie Gagnon".to_string());
    second.id = CompteID(42);
    assert_eq!(reg.resoudre(second), CompteID(43));
    assert_eq!(reg.len(), 2);
    assert_eq!(reg.get(CompteID(42)).unwrap().mandataire, "Jean Tremblay");
    assert_eq!(reg.get(CompteID(43)).unwrap().mandataire, "Marie Gagnon");
    assert_eq!(reg.get(CompteID(43)).unwrap().id, CompteID(43));
    assert_eq!(reg.get_new_id_from_seed(42), CompteID(44));
}

#[test]
fn merging_the_same_account_twice_keeps_one() {
    let mut reg = CompteReg::new();
    let a = reg.resoudre(compte("Jean Tremblay"));
    let b = reg.resoudre(compte("Marie Gagnon"));
    assert_ne!(a, b);
    assert_eq!(reg.resoudre(compte("Jean Tremblay")), a);
    assert_eq!(reg.resoudre(compte("Marie Gagnon")), b);
    assert_eq!(reg.len(), 2);
    assert_eq!(reg.cherche_equivalent(&compte("Marie Gagnon")), Some(b));
    assert_eq!(reg.cherche_equivalent(&compte("Luc")), None);
    assert_eq!(reg.ids(), vec![a, b]);
}

#[test]
fn first_equivalent_wins() {
    let mut reg = MembreReg::new();
    let mut m1 = membre("Roy", "Ana", 2014);
    m1.id = MembreID(10);
    let mut m2 = membre("Roy", "Ana", 2014);
    m2.id = MembreID(3);
    reg.add(m1).unwrap();
    reg.add(m2).unwrap();
    assert_eq!(reg.cherche_equivalent(&membre("Roy", "Ana", 2014)), Some(MembreID(10)));
    assert_eq!(reg.resoudre(membre("Roy", "Ana", 2014)), MembreID(10));
    assert_eq!(reg.len(), 2);
}

#[test]
fn seed_depends_on_the_key_alone() {
    let a = compte("Jean Tremblay");
    let mut b = compte("Jean Tremblay");
    b.id = CompteID(5);
    b.membres.insert(MembreID(1));
    assert_eq!(a.get_id_seed(), b.get_id_seed());
    assert_eq!(a.get_id_seed(), 885042682);
    assert_ne!(a.get_id_seed(), compte("Jean Tremblai").get_id_seed());
    let mut c = compte("Jean Tremblay");
    c.tel = Some(Tel::parse("418 555-1234").unwrap());
    assert_ne!(a.get_id_seed(), c.get_id_seed());
    let mut d = compte("Jean Tremblay");
    d.email = Some(Email::parse("jean@exemple.ca").unwrap());
    assert_ne!(a.get_id_seed(), d.get_id_seed());
    let mut e = compte("Jean Tremblay");
    e.adresse = Some(Adresse::default());
    assert_ne!(a.get_id_seed(), e.get_id_seed());

    let m = membre("Tremblay", "Luc", 2015);
    assert_eq!(m.get_id_seed(), 1143782656);
    let mut n = membre("Tremblay", "Luc", 2015);
    n.compte = Some(CompteID(9));
    n.commentaire = Some("x".to_string());
    assert_eq!(m.get_id_seed(), n.get_id_seed());

    assert_eq!(Groupe::new(GroupeID(3)).get_id_seed(), 303091727);
    let mut g = Groupe::new(GroupeID(0));
    g.saison = Some("Été 2024".to_string());
    g.category = Some("Crocus".to_string());
    g.semaine = Some("3".to_string());
    g.activite = Some("Camp de jour".to_string());
    assert_eq!(g.get_id_seed(), 1377508153);
    g.site = Some("Lac".to_string());
    assert_eq!(g.get_id_seed(), 1377508153);
}

#[test]
fn hash_is_fnv_1a() {
    assert_eq!(hache_octets(FNV_BASE, b""), 0x811c_9dc5);
    assert_eq!(hache_octets(FNV_BASE, b"a"), 3826002220);
    assert_eq!(hache_octets(FNV_BASE, b"foobar"), 0xbf9c_f968);
    assert_ne!(hache_texte(hache_texte(FNV_BASE, "ab"), "c"), hache_texte(hache_texte(FNV_BASE, "a"), "bc"));
}

#[test]
fn equivalence_goes_by_the_key() {
    let a = compte("Jean");
    let mut b = compte("Jean");
    b.id = CompteID(1);
    b.membres.insert(MembreID(4));
    assert!(a.equiv(&b));
    b.tel = Some(Tel::default());
    assert!(!a.equiv(&b));

    let m = membre("Roy", "Ana", 2014);
    let mut n = membre("Roy", "Ana", 2014);
    n.id = MembreID(77);
    assert!(m.equiv(&n));
    n.compte = Some(CompteID(1));
    assert!(!m.equiv(&n));
    assert!(!m.equiv(&membre("Roy", "Ana", 2015)));
    assert!(!m.equiv(&membre("Roy", "Anna", 2014)));

    let mut g = Groupe::new(GroupeID(1));
    let mut h = Groupe::new(GroupeID(2));
    assert!(g.equiv(&h));
    g.site = Some("Lac".to_string());
    assert!(!g.equiv(&h));
    h.site = Some("Lac".to_string());
    h.capacite = Some(3);
    assert!(g.equiv(&h));
}

#[test]
fn member_joins_an_account_once() {
    let mut c = Compte::new(CompteID(1), "Jean".to_string());
    let mut m = membre("Roy", "Ana", 2014);
    m.id = MembreID(5);
    assert!(!c.contains_membre(MembreID(5)));
    assert!(c.add_membre(&mut m).is_ok());
    assert_eq!(m.compte, Some(CompteID(1)));
    assert!(c.contains_membre(MembreID(5)));
    match c.add_membre(&mut m) {
        Err(CompteErr::MembreDejaExistant(id)) => assert_eq!(id, MembreID(5)),
        _ => panic!("the member is there already"),
    }
    let mut autre = Compte::new(CompteID(2), "Marie".to_string());
    match autre.add_membre(&mut m) {
        Err(CompteErr::MembreDejaDansUnCompte(id)) => assert_eq!(id, MembreID(5)),
        _ => panic!("the member belongs elsewhere"),
    }
    assert_eq!(m.compte, Some(CompteID(1)));
    assert_eq!(autre.membres.len(), 0);
    match autre.remove_membre(&mut m) {
        Err(CompteErr::MembreInexistant(id)) => assert_eq!(id, MembreID(5)),
        _ => panic!("the member is not there"),
    }
    assert!(c.remove_membre(&mut m).is_ok());
    assert_eq!(m.compte, None);
    assert!(!c.contains_membre(MembreID(5)));
    match c.remove_membre(&mut m) {
        Err(CompteErr::MembreSansCompte(id)) => assert_eq!(id, MembreID(5)),
        _ => panic!("the member has no account"),
    }
}

#[test]
fn participants_are_a_set_in_order_of_arrival() {
    let mut g = Groupe::new(GroupeID(1));
    assert!(g.add_participant(MembreID(3)));
    assert!(g.add_participant(MembreID(1)));
    assert!(!g.add_participant(MembreID(3)));
    assert_eq!(g.participants.to_vec(), vec![MembreID(3), MembreID(1)]);
    assert!(g.has_participant(MembreID(1)));
    assert!(g.remove_participant(MembreID(3)));
    assert!(!g.remove_participant(MembreID(3)));
    assert!(!g.has_participant(MembreID(3)));
    assert_eq!(g.participants.len(), 1);
    assert_eq!(g.estime_cap(), 1);
    g.capacite = Some(12);
    assert_eq!(g.estime_cap(), 12);
}

#[test]
fn random_identifier_is_free() {
    let mut reg = GroupeReg::new();
    for _ in 0..50 {
        let id = reg.get_new_id();
        assert!(!reg.contains(id));
        let g = Groupe::new(id);
        assert!(reg.add(g).is_ok());
    }
    assert_eq!(reg.len(), 50);
}

#[test]
fn walk_shows_every_record_in_order() {
    let mut reg = CompteReg::new();
    reg.resoudre(compte("A"));
    reg.resoudre(compte("B"));
    reg.resoudre(compte("A2"));
    let mut it = reg.comptes();
    assert_eq!(it.next().unwrap().mandataire, "A");
    assert_eq!(it.next().unwrap().mandataire, "B");
    assert_eq!(it.next().unwrap().mandataire, "A2");
    assert!(it.next().is_none());
    assert!(it.next().is_none());
    let mut autre = compte("A");
    autre.tel = Some(Tel::default());
    reg.resoudre(autre);
    let trouves = reg.search_by_name("A");
    assert_eq!(trouves.len(), 2);
    assert!(trouves[0].tel.is_none());
    assert!(trouves[1].tel.is_some());
    assert_eq!(reg.search_by_name("Z").len(), 0);
}

#[test]
fn group_descriptions() {
    let mut g = Groupe::new(GroupeID(1));
    assert_eq!(g.desc(), "NONE: NONE | NONE | NONE | Sem. NONE - NONE");
    assert_eq!(g.short_desc(), "");
    g.saison = Some("Été".to_string());
    g.activite = Some("Camp".to_string());
    g.site = Some("Lac".to_string());
    g.category = Some("Crocus".to_string());
    g.semaine = Some("3".to_string());
    assert_eq!(g.desc(), "Été: Camp | Lac | Crocus | Sem. 3 - NONE");
    assert_eq!(g.short_desc(), "Été | Camp | Lac | Crocus");
    g.discriminant = Some("B".to_string());
    assert_eq!(g.desc(), "Été: Camp | Lac | Crocus | Sem. 3 - B");
    assert_eq!(g.short_desc(), "Été | Camp | Lac | Crocus | Sem. B - B");
    assert_eq!(g.get_saison(), Some("Été"));
    assert_eq!(g.get_site(), Some("Lac"));
    assert_eq!(g.get_category(), Some("Crocus"));
    assert_eq!(g.get_discriminant(), Some("B"));
    assert_eq!(g.get_semaine(), Some("3"));
    let info = g.get_sdj_info();
    assert_eq!(info.saison, Some("Été"));
    assert_eq!(info.site, Some("Lac"));
    assert_eq!(info.semaine, Some("3"));
    let mut seul = Groupe::new(GroupeID(2));
    seul.discriminant = Some("A".to_string());
    assert_eq!(seul.short_desc(), "Sem. A - A");
}

#[test]
fn categories_by_age() {
    assert_eq!(Groupe::guess_category(Some(5), Some(6)), "Crocus");
    assert_eq!(Groupe::guess_category(Some(7), Some(8)), "Balaous");
    assert_eq!(Groupe::guess_category(Some(9), Some(12)), "Basaltes");
    assert_eq!(Groupe::guess_category(Some(12), Some(15)), "12-15 ans");
    assert_eq!(Groupe::guess_category(Some(5), Some(7)), "5-7 ans");
    assert_eq!(Groupe::guess_category(Some(16), None), ">16 ans");
    assert_eq!(Groupe::guess_category(None, Some(4)), "<4 ans");
    assert_eq!(Groupe::guess_category(None, None), "Tous âge");
    assert_eq!(Groupe::guess_category(Some(0), Some(4294967295)), "0-4294967295 ans");
}
