use camp_registre::data::adresse::{Adresse, CodePostal, Pays, Province, Ville};
use camp_registre::data::cam::{CAM, NAM};
use camp_registre::data::email::Email;
use camp_registre::data::tel::Tel;
use camp_registre::data::{Genre, ParsingError, Taille};
use camp_registre::date::{Date, DayInMonth, Mois};
use camp_registre::groupes::membres::Interet;

#[test]
fn phone_numbers_are_read_in_many_forms() {
    let t = Tel::parse("418 555-1234").unwrap();
    assert_eq!(t.as_str(), "4185551234");
    assert_eq!(t.compact(), "+14185551234");
    assert_eq!(t.to_string(), "+1 (418) 555-1234");
    assert_eq!(Tel::parse("(418) 555 1234").unwrap(), t);
    assert_eq!(Tel::parse("  +1 418-555-1234 ").unwrap(), t);
    assert_eq!(Tel::parse("4185551234").unwrap(), t);
    assert_eq!(Tel::from_str("1-418-555-1234").unwrap(), t);
    assert_eq!(Tel::default().as_str(), "0000000000");
    assert_ne!(Tel::default(), t);
}

#[test]
fn bad_phone_numbers_are_refused() {
    for s in ["", "555-1234", "418 555 123", "418 555 12345", "abc def ghij", "418-555-1234 x"] {
        let e = Tel::parse(s).unwrap_err();
        assert_eq!(e.message(), Some("Numéro de téléphone invalide"));
        assert_eq!(e.position(), None);
    }
    assert!(Tel::try_new(*b"418555123a").is_none());
    assert_eq!(Tel::try_new(*b"4185551234").unwrap().as_str(), "4185551234");
}

#[test]
fn email_addresses_are_read() {
    let e = Email::parse("  jean.tremblay@exemple.ca ").unwrap();
    assert_eq!(e.as_str(), "jean.tremblay@exemple.ca");
    assert_eq!(e.user(), "jean.tremblay");
    assert_eq!(e.domain(), "exemple.ca");
    assert!(!e.is_empty());
    let f = Email::parse("a @ b-c.org").unwrap();
    assert_eq!(f.as_str(), "a@b-c.org");
    assert_eq!(f.user(), "a");
    assert_eq!(f.domain(), "b-c.org");
    assert_eq!(Email::from_str("a@b-c.org").unwrap(), f);
    assert_ne!(e, f);
    let vide = Email::default();
    assert!(vide.is_empty());
    assert_eq!(vide.as_str(), "@");
    assert_eq!(vide.user(), "");
    assert_eq!(vide.domain(), "");
    assert_eq!(e.clone(), e);
}

#[test]
fn bad_email_addresses_are_refused() {
    for s in ["", "jean", "jean@", "@exemple.ca", "jean@@exemple.ca", "jean@ex_emple.ca", "é@x.ca"] {
        let e = Email::parse(s).unwrap_err();
        assert_eq!(e.message(), Some("Format d'email invalide"));
    }
    assert!(Email::try_new("é", "x.ca").is_none());
}

#[test]
fn postal_codes_are_read_and_put_in_upper_case() {
    let cp = CodePostal::parse(" g1v 2m2 ").unwrap();
    assert_eq!(cp.as_str(), "G1V2M2");
    assert_eq!(cp.to_string(), "G1V 2M2");
    assert_eq!(CodePostal::parse("G1V2M2").unwrap(), cp);
    assert_eq!(CodePostal::default().as_str(), "A0A0A0");
    for s in ["", "G1V", "G1V 2M", "11V 2M2", "G1V-2M2", "G1V 2M2 x"] {
        let e = CodePostal::parse(s).unwrap_err();
        assert_eq!(e.message(), Some("Format d'email invalide"));
    }
    assert!(CodePostal::create(*b"G1V2M2").is_some());
    assert!(CodePostal::create(*b"g1V2M2").is_none());
    assert!(CodePostal::create(*b"G1V2M?").is_none());
}

#[test]
fn postal_codes_say_what_is_wrong() {
    let cp = CodePostal::try_new(*b"g1v2m2").unwrap();
    assert_eq!(cp.as_str(), "G1V2M2");
    let e = CodePostal::try_new(*b"01V2M2").unwrap_err();
    assert_eq!(e.position(), Some(0));
    assert_eq!(e.message(), Some("Le 1ième caractère du code doit être une lettre"));
    let e = CodePostal::try_new(*b"G1V2?2").unwrap_err();
    assert_eq!(e.position(), Some(4));
    assert_eq!(e.message(), Some("Le 5ième caractère du code doit être une lettre"));
    let e = CodePostal::try_new(*b"G1d2M2").unwrap_err();
    assert_eq!(e.position(), Some(2));
    assert_eq!(e.message(), Some("'D' n'est jamais utilisée dans un code postal canadien"));
    let e = CodePostal::try_new(*b"W1V2M2").unwrap_err();
    assert_eq!(e.position(), Some(0));
    assert_eq!(
        e.message(),
        Some("'W' n'est jamais utilisée comme premier caractère dans un code postal canadien")
    );
    assert!(CodePostal::try_new(*b"G1W2Z2").is_ok());
    let e = CodePostal::try_new(*b"GAV2M2").unwrap_err();
    assert_eq!(e.position(), Some(1));
    assert_eq!(e.message(), Some("Le 2ème caractère doit être un chiffre"));
    // The letters are looked at before the digits.
    let e = CodePostal::try_new(*b"GAV2Q2").unwrap_err();
    assert_eq!(e.position(), Some(4));
    let e = CodePostal::try_new(*b"G1V2Mx").unwrap_err();
    assert_eq!(e.position(), Some(5));
    assert_eq!(e.message(), Some("Le 6ème caractère doit être un chiffre"));
}

#[test]
fn parsing_errors_show_position_and_message() {
    assert_eq!(ParsingError::from_msg("oups").to_string(), "ParsingError: oups");
    assert_eq!(ParsingError::from_at(3).to_string(), "ParsingError at char 3");
    assert_eq!(ParsingError::from_msg_at("oups", 12).to_string(), "ParsingError at char 12: oups");
    assert_eq!(ParsingError::new(None, None, None).to_string(), "ParsingError");
    assert_eq!(ParsingError::from_src("cause").to_string(), "ParsingError");
    assert_eq!(ParsingError::from_src("cause").source(), Some("cause"));
    assert_eq!(ParsingError::from_msg("oups").source(), None);
    let e = ParsingError::from_msg_src("oups", "cause");
    assert_eq!((e.message(), e.position(), e.source()), (Some("oups"), None, Some("cause")));
    let e = ParsingError::from_src_at("cause", 4);
    assert_eq!((e.message(), e.position(), e.source()), (None, Some(4), Some("cause")));
    let e = ParsingError::from_msg_src_at("oups", "cause", 4);
    assert_eq!((e.message(), e.position(), e.source()), (Some("oups"), Some(4), Some("cause")));
    let e = ParsingError::new(Some("m".to_string()), Some(0), Some("s".to_string()));
    assert_eq!(e.to_string(), "ParsingError at char 0: m");
}

#[test]
fn health_insurance_numbers_are_read() {
    let n = NAM::parse(" trel 1506 1512 ").unwrap();
    assert_eq!(n.as_str(), "TREL15061512");
    assert_eq!(n.nom(), "TRE");
    assert_eq!(n.prenom(), "L");
    assert_eq!(n.an_naissance(), 15);
    assert_eq!(n.mois_naissance(), Some(Mois::Juin));
    assert_eq!(n.jour_naissance(), 15);
    assert_eq!(n.genre(), Genre::Homme);
    assert!(n.valid());
    let f = NAM::parse("GAGM14520399").unwrap();
    assert_eq!(f.genre(), Genre::Femme);
    assert_eq!(f.mois_naissance(), Some(Mois::Fevrier));
    assert_eq!(f.jour_naissance(), 3);
    assert!(NAM::parse("GAGM14522999").is_ok());
    assert_ne!(n, f);
}

#[test]
fn bad_health_insurance_numbers_are_refused() {
    assert_eq!(NAM::parse("").unwrap_err().message(), Some("Format de NAM invalide"));
    assert_eq!(NAM::parse("TRE 1506 1512").unwrap_err().message(), Some("Format de NAM invalide"));
    assert_eq!(
        NAM::parse("TREL15001512").unwrap_err().message(),
        Some("NAM invalide (mois de naissance)")
    );
    assert_eq!(
        NAM::parse("TREL15131512").unwrap_err().message(),
        Some("NAM invalide (mois de naissance)")
    );
    assert_eq!(
        NAM::parse("TREL15631512").unwrap_err().message(),
        Some("NAM invalide (mois de naissance)")
    );
    assert_eq!(
        NAM::parse("TREL15060012").unwrap_err().message(),
        Some("NAM invalide (jour de naissance)")
    );
    assert_eq!(
        NAM::parse("TREL15063112").unwrap_err().message(),
        Some("NAM invalide (jour de naissance)")
    );
    assert_eq!(
        NAM::parse("TREL15023012").unwrap_err().message(),
        Some("NAM invalide (jour de naissance)")
    );
    assert!(NAM::create(*b"TREL15001512").is_some());
    assert!(!NAM::create(*b"TREL15001512").unwrap().valid());
    assert!(NAM::create(*b"treL15061512").is_none());
    assert!(NAM::create(*b"TREL1506151x").is_none());
}

#[test]
fn health_insurance_cards_are_read() {
    let c = CAM::parse("TREL 1506 1512 2027/08").unwrap();
    assert_eq!(c.numero().as_str(), "TREL15061512");
    assert_eq!(c.exp_year(), 2027);
    assert_eq!(c.exp_month(), 8);
    assert_eq!(c.to_string(), "TREL15061512 2027/80");
    let d = c.expiration();
    assert_eq!((d.year(), d.month(), d.day()), (2027, 8, 31));
    assert!(c.is_expired_at(Date::from_ymd_opt(2027, 8, 30).unwrap()));
    assert!(!c.is_expired_at(Date::from_ymd_opt(2027, 8, 31).unwrap()));
    assert!(!c.is_expired_at(Date::from_ymd_opt(2030, 1, 1).unwrap()));
    let f = CAM::from_str("gagm14520399-2024 / 02").unwrap();
    let d = f.expiration();
    assert_eq!((d.year(), d.month(), d.day()), (2024, 2, 29));
    assert_eq!(f.to_string(), "GAGM14520399 2024/20");
    assert_ne!(c, f);
    let _ = f.is_expired();
}

#[test]
fn bad_health_insurance_cards_are_refused() {
    assert_eq!(CAM::parse("TREL15061512").unwrap_err().message(), Some("Format de NAM invalide"));
    assert_eq!(
        CAM::parse("TREL15061512 2027/13").unwrap_err().message(),
        Some("Mois d'expiration invalide")
    );
    assert_eq!(
        CAM::parse("TREL15061512 2027/00").unwrap_err().message(),
        Some("Mois d'expiration invalide")
    );
    assert_eq!(
        CAM::parse("TREL15001512 2027/01").unwrap_err().message(),
        Some("NAM invalide (mois de naissance)")
    );
    assert_eq!(
        CAM::parse("TREL15063112 2027/01").unwrap_err().message(),
        Some("NAM invalide (jour de naissance)")
    );
    let n = NAM::parse("TREL15061512").unwrap();
    assert!(CAM::create(n, 2027, 0).is_none());
    assert!(CAM::create(n, 2027, 13).is_none());
    assert!(CAM::create(n, 300000, 1).is_none());
    assert!(CAM::create(n, 2027, 12).is_some());
}

#[test]
fn dates_exist_or_not() {
    assert!(Date::from_ymd_opt(2024, 2, 29).is_some());
    assert!(Date::from_ymd_opt(2023, 2, 29).is_none());
    assert!(Date::from_ymd_opt(1900, 2, 29).is_none());
    assert!(Date::from_ymd_opt(2000, 2, 29).is_some());
    assert!(Date::from_ymd_opt(2023, 4, 31).is_none());
    assert!(Date::from_ymd_opt(2023, 0, 1).is_none());
    assert!(Date::from_ymd_opt(2023, 13, 1).is_none());
    assert!(Date::from_ymd_opt(2023, 1, 0).is_none());
    assert!(Date::from_ymd_opt(-4, 2, 29).is_some());
    assert!(Date::from_ymd_opt(262142, 12, 31).is_some());
    assert!(Date::from_ymd_opt(262143, 1, 1).is_none());
    assert!(Date::from_ymd_opt(-262143, 1, 1).is_some());
    assert!(Date::from_ymd_opt(-262144, 12, 31).is_none());
    let d = Date::from_ymd_opt(2015, 6, 15).unwrap();
    assert_eq!((d.year(), d.month(), d.day()), (2015, 6, 15));
    assert_eq!(d.ordinal(), 2015 * 512 + 6 * 32 + 15);
    let defaut = Date::default();
    assert_eq!((defaut.year(), defaut.month(), defaut.day()), (1970, 1, 1));
    let t = Date::today();
    assert!(Date::from_ymd_opt(t.year(), t.month(), t.day()) == Some(t));
}

#[test]
fn dates_are_ordered() {
    let a = Date::from_ymd_opt(2015, 6, 15).unwrap();
    let b = Date::from_ymd_opt(2015, 6, 16).unwrap();
    let c = Date::from_ymd_opt(2015, 7, 1).unwrap();
    let d = Date::from_ymd_opt(2016, 1, 1).unwrap();
    assert!(a.avant(&b) && b.avant(&c) && c.avant(&d));
    assert!(!b.avant(&a) && !a.avant(&a));
    assert_eq!(d.years_since(&a), Some(0));
    assert_eq!(Date::from_ymd_opt(2024, 6, 14).unwrap().years_since(&a), Some(8));
    assert_eq!(Date::from_ymd_opt(2024, 6, 15).unwrap().years_since(&a), Some(9));
    assert_eq!(a.years_since(&b), None);
    assert_eq!(a.years_since(&a), Some(0));
}

#[test]
fn months_have_their_days() {
    let jours = [31, 29, 31, 30, 31, 30, 31, 31, 30, 31, 30, 31];
    for n in 1..=12u8 {
        let m = Mois::try_from(n).unwrap();
        assert_eq!(m.number(), n);
        assert_eq!(m.day_in_month(), jours[n as usize - 1]);
        assert_eq!(m.days_in_month_year(2024), jours[n as usize - 1]);
        if n != 2 {
            assert_eq!(m.days_in_month_year(2023), jours[n as usize - 1]);
        }
    }
    assert_eq!(Mois::Fevrier.days_in_month_year(2023), 28);
    assert_eq!(Mois::Fevrier.days_in_month_year(1900), 28);
    assert_eq!(Mois::Fevrier.days_in_month_year(2000), 29);
    assert_eq!(Mois::Fevrier.days_in_month_year(-4), 29);
    assert!(Mois::try_from(0).is_none());
    assert!(Mois::try_from(13).is_none());
}

#[test]
fn street_addresses_are_read() {
    let a = Adresse::from_num_rue("12 rue des Pins");
    assert_eq!(a.numero, Some(12));
    assert_eq!(a.rue.as_deref(), Some("rue des Pins"));
    assert_eq!(a.appartement, None);
    let b = Adresse::from_num_rue(" 3 - 12, rue des Pins ");
    assert_eq!(b.numero, Some(12));
    assert_eq!(b.appartement, Some(3));
    assert_eq!(b.rue.as_deref(), Some("rue des Pins"));
    let c = Adresse::from_num_rue("99999999999 rue des Pins");
    assert_eq!(c.numero, None);
    assert_eq!(c.rue.as_deref(), Some("rue des Pins"));
    let d = Adresse::from_num_rue("Pins");
    assert!(d.numero.is_none() && d.rue.is_none() && d.appartement.is_none());
}

#[test]
fn whole_addresses_are_read() {
    let a = Adresse::from_full("12 rue des Pins #3 ,Québec, QC, Canada, G1V 2M2").unwrap();
    assert_eq!(a.numero, Some(12));
    // The street takes the space before the "#" with it.
    assert_eq!(a.rue.as_deref(), Some("rue des Pins "));
    assert_eq!(a.appartement, Some(3));
    assert_eq!(a.ville.as_ref().unwrap().as_str(), "Québec");
    assert_eq!(a.province.as_ref().unwrap().as_str(), "QC");
    // The country is taken from the street, and the postal code is only
    // checked.
    assert_eq!(a.pays.as_ref().unwrap().as_str(), "rue des Pins ");
    assert!(a.code_postal.is_none());
    assert!(Adresse::from_full("12 rue des Pins ,Québec, QC, Canada, 12345").is_err());
    let vide = Adresse::from_full("n'importe quoi").unwrap();
    assert!(vide.equiv(&Adresse::default()));
    let ca = Adresse::from_full("12 CA ,Québec, QC, Canada, G1V 2M2").unwrap();
    assert_eq!(ca.pays.as_ref().unwrap().as_str(), "Canada");
}

#[test]
fn addresses_are_written_in_one_line() {
    let mut a = Adresse::default();
    assert_eq!(a.full(), "");
    a.rue = Some("rue des Pins".to_string());
    assert_eq!(a.full(), "rue des Pins");
    a.appartement = Some(3);
    assert_eq!(a.full(), "rue des Pins");
    a.numero = Some(12);
    assert_eq!(a.full(), "12 app. 3 rue des Pins");
    a.appartement = None;
    a.ville = Some(Ville::new("Québec"));
    assert_eq!(a.full(), "12 rue des Pins, Québec");
    a.province = Some(Province::new("QC"));
    a.pays = Some(Pays::new("Canada"));
    a.code_postal = Some(CodePostal::parse("G1V 2M2").unwrap());
    assert_eq!(a.full(), "12 rue des Pins, Québec QC Canada G1V2M2");
    a.numero = Some(-5);
    assert_eq!(a.full(), "-5 rue des Pins, Québec QC Canada G1V2M2");
    let mut b = Adresse::default();
    b.ville = Some(Ville::new("Québec"));
    assert_eq!(b.full(), "Québec");
    b.pays = Some(Pays::new("Canada"));
    assert_eq!(b.full(), "Québec, Canada");
    b.code_postal = Some(CodePostal::default());
    assert_eq!(b.full(), "Québec, Canada A0A0A0");
    assert!(a.clone().equiv(&a));
    assert!(!a.equiv(&b));
    assert_eq!(Pays::new("Canada"), Pays::new("Canada"));
    assert_ne!(Ville::new("Québec"), Ville::new("Lévis"));
    assert_eq!(Province::new("QC").clone(), Province::new("QC"));
}

#[test]
fn names_of_genders_sizes_and_interests() {
    assert_eq!(Genre::Homme.to_string(), "Homme");
    assert_eq!(Genre::Femme.to_string(), "Femme");
    assert_eq!(Genre::Autre.to_string(), "Autre");
    assert_eq!(Genre::default(), Genre::Homme);
    assert_eq!(Genre::from_str("FEMME").unwrap(), Genre::Femme);
    assert_eq!(Genre::from_str("homme").unwrap(), Genre::Homme);
    assert_eq!(Genre::from_str("Autre").unwrap(), Genre::Autre);
    assert_eq!(Genre::from_str("x").unwrap_err().message(), Some("N'a pu lire le genre"));
    let noms = ["XS", "S", "M", "L", "XL", "XXL"];
    for (i, t) in Taille::tailles().iter().enumerate() {
        assert_eq!(t.to_string(), noms[i]);
        assert_eq!(t.rang(), i);
        assert_eq!(Taille::from_str(&noms[i].to_lowercase()).unwrap(), *t);
    }
    assert_eq!(Taille::from_str("XXXL").unwrap_err().message(), Some("N'a pu lire la taille"));
    assert_eq!(Interet::Science.as_str(), "Science");
    assert_eq!(Interet::Sport.to_string(), "Sport");
    assert_eq!(Interet::Art.as_str(), "Art");
    assert_eq!(Interet::Nature.as_str(), "Nature");
    assert_eq!(Interet::from_str("SPORT").unwrap(), Interet::Sport);
    assert_eq!(Interet::from_str("science").unwrap(), Interet::Science);
    assert_eq!(Interet::from_str("Art").unwrap(), Interet::Art);
    assert_eq!(Interet::from_str("nature").unwrap(), Interet::Nature);
    assert_eq!(Interet::from_str("sports").unwrap_err().message(), Some("N'a pu lire l'intéret"));
    assert_eq!(Interet::iter(), [Interet::Science, Interet::Sport, Interet::Art, Interet::Nature]);
}

#[test]
fn lower_case_names_are_told_from_the_rest() {
    assert_eq!(Genre::from_lower("femme"), Some(Genre::Femme));
    assert_eq!(Genre::from_lower("homme"), Some(Genre::Homme));
    assert_eq!(Genre::from_lower("autre"), Some(Genre::Autre));
    assert_eq!(Genre::from_lower("Femme"), None);
    assert_eq!(Genre::from_lower(""), None);
    assert_eq!(Taille::from_lower("xs"), Some(Taille::XS));
    assert_eq!(Taille::from_lower("s"), Some(Taille::S));
    assert_eq!(Taille::from_lower("m"), Some(Taille::M));
    assert_eq!(Taille::from_lower("l"), Some(Taille::L));
    assert_eq!(Taille::from_lower("xl"), Some(Taille::XL));
    assert_eq!(Taille::from_lower("xxl"), Some(Taille::XXL));
    assert_eq!(Taille::from_lower("XL"), None);
    assert_eq!(Taille::from_lower("xxxl"), None);
    assert_eq!(Interet::from_lower("science"), Some(Interet::Science));
    assert_eq!(Interet::from_lower("sport"), Some(Interet::Sport));
    assert_eq!(Interet::from_lower("art"), Some(Interet::Art));
    assert_eq!(Interet::from_lower("nature"), Some(Interet::Nature));
    assert_eq!(Interet::from_lower("Sport"), None);
    assert_eq!(Interet::from_lower("sports"), None);
}
