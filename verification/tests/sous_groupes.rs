use camp_registre::date::Date;
use camp_registre::groupes::groupes::{Groupe, GroupeID};
use camp_registre::groupes::membres::{Interet, Membre, MembreID, MembreReg};
use camp_registre::groupes::sous_groupes::{
    membres_par_sous_groupe, mk_sous_groupe, rank_points, trouve_profil, Candidat, SousGroupeErr,
};

fn candidat(id: u32, an: i32, interets: [Option<Interet>; 4]) -> Candidat {
    Candidat { id: MembreID(id), naissance: Date::from_ymd_opt(an, 6, 15).unwrap(), interets }
}

fn membre(id: u32, an: i32, interets: [Option<Interet>; 4]) -> Membre {
    let mut m = Membre::new(
        MembreID(id),
        format!("Nom{}", id),
        format!("Prenom{}", id),
        Date::from_ymd_opt(an, 6, 15).unwrap(),
    );
    m.interets = interets;
    m
}

#[test]
fn rank_points_are_8_4_2_0() {
    assert_eq!(rank_points(0), 8);
    assert_eq!(rank_points(1), 4);
    assert_eq!(rank_points(2), 2);
    assert_eq!(rank_points(3), 0);
    assert_eq!(rank_points(17), 0);
}

#[test]
fn profile_needs_more_than_forty_percent() {
    // Sport and Nature both hold 8 of 20 points: exactly 40 %, which is not
    // enough.
    let cands = vec![
        candidat(1, 2015, [Some(Interet::Sport), Some(Interet::Art), None, None]),
        candidat(2, 2015, [Some(Interet::Nature), None, None, None]),
    ];
    assert_eq!(trouve_profil(&cands), None);
    // One more point for Nature tips the scale: 10 of 22.
    let cands = vec![
        candidat(1, 2015, [Some(Interet::Sport), Some(Interet::Art), None, None]),
        candidat(2, 2015, [Some(Interet::Nature), None, Some(Interet::Nature), None]),
    ];
    assert_eq!(trouve_profil(&cands), Some(Interet::Nature));
    let cands = vec![
        candidat(1, 2015, [Some(Interet::Sport), Some(Interet::Art), None, None]),
        candidat(2, 2015, [Some(Interet::Art), Some(Interet::Science), None, None]),
        candidat(3, 2015, [Some(Interet::Nature), Some(Interet::Science), None, None]),
    ];
    // Science 8, Sport 8, Art 12, Nature 8 of 36: nobody above 40 %.
    assert_eq!(trouve_profil(&cands), None);
    assert_eq!(trouve_profil(&Vec::new()), None);
}

#[test]
fn profile_is_first_in_declared_order() {
    // Science and Sport both hold 8 of 16 points: Science is declared first.
    let cands = vec![
        candidat(1, 2015, [Some(Interet::Sport), None, None, None]),
        candidat(2, 2015, [Some(Interet::Science), None, None, None]),
    ];
    assert_eq!(trouve_profil(&cands), Some(Interet::Science));
}

#[test]
fn profile_does_not_depend_on_order() {
    let a = candidat(1, 2015, [Some(Interet::Sport), Some(Interet::Art), None, None]);
    let b = candidat(2, 2014, [Some(Interet::Sport), None, None, None]);
    let c = candidat(3, 2013, [Some(Interet::Art), Some(Interet::Sport), None, None]);
    let d = candidat(4, 2012, [Some(Interet::Nature), None, None, None]);
    let p = trouve_profil(&vec![a, b, c, d]);
    assert_eq!(p, Some(Interet::Sport));
    assert_eq!(trouve_profil(&vec![d, c, b, a]), p);
    assert_eq!(trouve_profil(&vec![b, d, a, c]), p);
}

#[test]
fn without_profile_the_oldest_are_taken() {
    let cands = vec![
        candidat(10, 2016, [None, None, None, None]),
        candidat(11, 2012, [None, None, None, None]),
        candidat(12, 2014, [None, None, None, None]),
        candidat(13, 2012, [None, None, None, None]),
    ];
    let sg = mk_sous_groupe(&cands, 3);
    assert_eq!(sg.profil, None);
    assert_eq!(sg.participants.to_vec(), vec![MembreID(11), MembreID(13), MembreID(12)]);
    let sg = mk_sous_groupe(&cands, 9);
    assert_eq!(sg.participants.len(), 4);
}

#[test]
fn with_profile_first_rank_goes_before_second() {
    let cands = vec![
        candidat(1, 2015, [Some(Interet::Art), Some(Interet::Sport), None, None]),
        candidat(2, 2015, [Some(Interet::Sport), None, None, None]),
        candidat(3, 2015, [Some(Interet::Nature), None, Some(Interet::Sport), None]),
        candidat(4, 2015, [Some(Interet::Sport), None, None, None]),
    ];
    let sg = mk_sous_groupe(&cands, 4);
    assert_eq!(sg.profil, Some(Interet::Sport));
    // The member who ranks Sport third does not qualify.
    assert_eq!(sg.participants.to_vec(), vec![MembreID(2), MembreID(4), MembreID(1)]);
}

fn groupe_de(n: u32, sport: u32) -> (Groupe, MembreReg) {
    let mut reg = MembreReg::new();
    let mut g = Groupe::new(GroupeID(7));
    for i in 1..=n {
        let interets = if i <= sport {
            [Some(Interet::Sport), None, None, None]
        } else {
            [None, None, None, None]
        };
        reg.add(membre(i, 2010 + (i as i32 % 5), interets)).unwrap();
        g.add_participant(MembreID(i));
    }
    (g, reg)
}

#[test]
fn seven_members_in_two_sub_groups() {
    let (mut g, reg) = groupe_de(7, 0);
    assert_eq!(g.mk_sous_groupes(2, &reg), Ok(()));
    assert_eq!(g.sous_groupe.len(), 2);
    assert_eq!(g.sous_groupe[0].participants.len(), 4);
    assert_eq!(g.sous_groupe[1].participants.len(), 3);
    assert_eq!(g.sous_groupe[0].disc, 1);
    assert_eq!(g.sous_groupe[1].disc, 2);
    assert_eq!(g.sous_groupe[0].groupe, GroupeID(7));
    for i in 1..=7 {
        let dans: usize =
            g.sous_groupe.iter().filter(|sg| sg.participants.contains(MembreID(i))).count();
        assert_eq!(dans, 1);
    }
}

#[test]
fn ten_members_six_for_sport() {
    let (mut g, reg) = groupe_de(10, 6);
    assert_eq!(g.mk_sous_groupes(2, &reg), Ok(()));
    let premier = &g.sous_groupe[0];
    assert_eq!(premier.profil, Some(Interet::Sport));
    assert_eq!(
        premier.participants.to_vec(),
        vec![MembreID(1), MembreID(2), MembreID(3), MembreID(4), MembreID(5)]
    );
    let second = &g.sous_groupe[1];
    assert_eq!(second.participants.len(), 5);
    assert!(second.participants.contains(MembreID(6)));
    let total: usize = g.sous_groupe.iter().map(|sg| sg.participants.len()).sum();
    assert_eq!(total, 10);
}

#[test]
fn split_into_zero_leaves_no_sub_group() {
    let (mut g, reg) = groupe_de(5, 0);
    assert_eq!(g.mk_sous_groupes(2, &reg), Ok(()));
    assert_eq!(g.sous_groupe.len(), 2);
    assert_eq!(g.mk_sous_groupes(0, &reg), Ok(()));
    assert_eq!(g.sous_groupe.len(), 0);
}

#[test]
fn unknown_participant_rolls_back() {
    let (mut g, reg) = groupe_de(6, 0);
    assert_eq!(g.mk_sous_groupes(3, &reg), Ok(()));
    let avant: Vec<Vec<MembreID>> =
        g.sous_groupe.iter().map(|sg| sg.participants.to_vec()).collect();
    g.add_participant(MembreID(999));
    assert_eq!(g.mk_sous_groupes(2, &reg), Err(SousGroupeErr::MembreInexistant(MembreID(999))));
    let apres: Vec<Vec<MembreID>> =
        g.sous_groupe.iter().map(|sg| sg.participants.to_vec()).collect();
    assert_eq!(avant, apres);
    assert_eq!(g.sous_groupe.len(), 3);
}

#[test]
fn sizes_stay_within_the_target() {
    for n in 0..25u32 {
        for nb in 1..8usize {
            let (mut g, reg) = groupe_de(n, n / 3);
            assert_eq!(g.mk_sous_groupes(nb, &reg), Ok(()));
            let cible = (n as usize + nb - 1) / nb;
            let mut total = 0;
            for sg in g.sous_groupe.iter() {
                assert!(sg.participants.len() <= cible);
                total += sg.participants.len();
            }
            assert_eq!(total, n as usize);
            assert_eq!(g.sous_groupe.len(), nb);
        }
    }
}

#[test]
fn categories_with_a_rule_say_how_many_a_sub_group_takes() {
    assert_eq!(membres_par_sous_groupe("crocus"), Some(10));
    assert_eq!(membres_par_sous_groupe("balaous"), Some(12));
    assert_eq!(membres_par_sous_groupe("basaltes"), Some(15));
    assert_eq!(membres_par_sous_groupe("12-15 ans"), Some(15));
    assert_eq!(membres_par_sous_groupe("Crocus"), None);
    assert_eq!(membres_par_sous_groupe("touche-à-tout"), None);
    assert_eq!(membres_par_sous_groupe(""), None);
}
