//! What the printed sheets are made from.

use crate::data::adresse::Adresse;
use crate::data::cam::CAM;
use crate::data::email::Email;
use crate::data::tel::Tel;
use crate::data::{BoolJustifie, Genre};
use crate::date::Date;
use crate::config::Config;
use crate::groupes::comptes::{Compte, CompteID, CompteReg};
use crate::groupes::ensemble::Ensemble;
use crate::groupes::groupes::{Groupe, GroupeReg};
use crate::groupes::membres::{Contact, Membre, MembreID, MembreReg};
use crate::groupes::ordre::{ordre_noms, plus_grand};
use crate::groupes::registre::{lemme_premier_rang, lemme_premier_rang_absent, premier_rang};
use crate::groupes::sous_groupes::{inscrits, SousGroupe};
use crate::texte::{
    decimal, decimal_large, ecrit_decimal, ecrit_decimal_large, hex8, pousse_car, sans_espaces,
    str_egal, texte_ascii, tirets, vue_opt, vues,
};
use vstd::prelude::*;
use vstd::string::StringExecFns;

verus! {

/// Site, week and season: what an attendance sheet of the day care is made
/// for.
#[derive(Debug, Clone, Copy)]
pub struct PresenceSDJInfo<'a> {
    pub site: Option<&'a str>,
    pub semaine: Option<&'a str>,
    pub saison: Option<&'a str>,
}

/// What an optional string slice holds.
pub open spec fn vue_opt_str(o: Option<&str>) -> Option<Seq<char>> {
    match o {
        Some(s) => Some(s@),
        None => None,
    }
}

impl<'a> PresenceSDJInfo<'a> {
    /// Site, week and season, as sequences of characters.
    pub open spec fn cle(&self) -> (Option<Seq<char>>, Option<Seq<char>>, Option<Seq<char>>) {
        (vue_opt_str(self.site), vue_opt_str(self.semaine), vue_opt_str(self.saison))
    }
}

/// What a value is put between when it is written into a Typst source.
#[derive(Debug, Clone, Copy, PartialEq, Eq, Structural)]
pub enum Delimiter {
    Quotes,
    Brackets,
    Dollars,
    Parentheses,
    Braces,
    /// Nothing around the value.
    Aucun,
}

impl Delimiter {
    /// What opens the delimited value.
    pub open spec fn ouvre(self) -> Seq<char> {
        match self {
            Delimiter::Quotes => seq!['"'],
            Delimiter::Brackets => seq!['['],
            Delimiter::Dollars => seq!['$'],
            Delimiter::Parentheses => seq!['('],
            Delimiter::Braces => seq!['{'],
            Delimiter::Aucun => Seq::empty(),
        }
    }

    /// What closes the delimited value.
    pub open spec fn ferme(self) -> Seq<char> {
        match self {
            Delimiter::Quotes => seq!['"'],
            Delimiter::Brackets => seq![']'],
            Delimiter::Dollars => seq!['$'],
            Delimiter::Parentheses => seq![')'],
            Delimiter::Braces => seq!['}'],
            Delimiter::Aucun => Seq::empty(),
        }
    }

    /// Whether `c` must be escaped between these delimiters: "#" and "@"
    /// always, the quote between quotes, the dollar between brackets and
    /// dollars.
    pub open spec fn special(self, c: char) -> bool {
        c == '#' || c == '@' || (self == Delimiter::Quotes && c == '"') || ((self
            == Delimiter::Brackets || self == Delimiter::Dollars) && c == '$')
    }
}

/// `t` with a backslash before each character that must be escaped between
/// the delimiters `d`.
pub open spec fn echappe(t: Seq<char>, d: Delimiter) -> Seq<char>
    decreases t.len(),
{
    if t.len() == 0 {
        t
    } else if d.special(t.last()) {
        echappe(t.drop_last(), d).push('\\').push(t.last())
    } else {
        echappe(t.drop_last(), d).push(t.last())
    }
}

/// An optional value as a Typst source holds it: "none", or the value between
/// the delimiters `d`, with what must be escaped there escaped.
pub open spec fn delimite(obj: Option<Seq<char>>, d: Delimiter) -> Seq<char> {
    match obj {
        None => "none"@,
        Some(t) => d.ouvre() + echappe(t, d) + d.ferme(),
    }
}

/// Writes an optional value as a Typst source holds it.
pub fn po(obj: Option<&str>, delimiter: Delimiter) -> (r: String)
    ensures
        r@ == delimite(vue_opt_str(obj), delimiter),
{
    match obj {
        None => String::from_str("none"),
        Some(s) => {
            let mut r = String::new();
            match delimiter {
                Delimiter::Quotes => pousse_car(&mut r, '"'),
                Delimiter::Brackets => pousse_car(&mut r, '['),
                Delimiter::Dollars => pousse_car(&mut r, '$'),
                Delimiter::Parentheses => pousse_car(&mut r, '('),
                Delimiter::Braces => pousse_car(&mut r, '{'),
                Delimiter::Aucun => {},
            }
            assert(r@ =~= delimiter.ouvre());
            for c in it: s.chars()
                invariant
                    it.seq() == s@,
                    r@ == delimiter.ouvre() + echappe(s@.take(it.index() as int), delimiter),
            {
                let quote = match delimiter {
                    Delimiter::Quotes => true,
                    _ => false,
                };
                let dollar = match delimiter {
                    Delimiter::Brackets => true,
                    Delimiter::Dollars => true,
                    _ => false,
                };
                proof {
                    assert(s@.take(it.index() + 1).drop_last() =~= s@.take(it.index() as int));
                    assert(s@.take(it.index() + 1).last() == c);
                }
                if c == '#' || c == '@' || (quote && c == '"') || (dollar && c == '$') {
                    pousse_car(&mut r, '\\');
                }
                pousse_car(&mut r, c);
                assert(r@ =~= delimiter.ouvre() + echappe(s@.take(it.index() + 1), delimiter));
            }
            assert(s@.take(s@.len() as int) =~= s@);
            match delimiter {
                Delimiter::Quotes => pousse_car(&mut r, '"'),
                Delimiter::Brackets => pousse_car(&mut r, ']'),
                Delimiter::Dollars => pousse_car(&mut r, '$'),
                Delimiter::Parentheses => pousse_car(&mut r, ')'),
                Delimiter::Braces => pousse_car(&mut r, '}'),
                Delimiter::Aucun => {},
            }
            assert(r@ =~= delimite(Some(s@), delimiter));
            r
        },
    }
}

fn opt_egal(a: &Option<String>, b: Option<&str>) -> (r: bool)
    ensures
        r == (vue_opt(*a) == vue_opt_str(b)),
{
    match (a, b) {
        (Some(x), Some(y)) => str_egal(x.as_str(), y),
        (None, None) => true,
        _ => false,
    }
}

/// Whether the group `grp` is of the season, the site and the week of `info`.
pub fn filter_grp(grp: &Groupe, info: &PresenceSDJInfo) -> (b: bool)
    ensures
        b == du_service(*grp, *info),
{
    opt_egal(&grp.saison, info.saison) && opt_egal(&grp.site, info.site) && opt_egal(
        &grp.semaine,
        info.semaine,
    )
}

/// The first sub-group of `grp` that holds the member `mid`, if any does.
pub fn get_mbr_sg(mid: MembreID, grp: &Groupe) -> (r: Option<&SousGroupe>)
    ensures
        match r {
            Some(sg) => exists|i: int|
                0 <= i < grp.sous_groupe@.len() && *sg == grp.sous_groupe@[i]
                    && sg.participants.vue().contains(mid) && forall|j: int|
                    0 <= j < i ==> !(#[trigger] grp.sous_groupe@[j]).participants.vue().contains(
                        mid,
                    ),
            None => forall|j: int|
                0 <= j < grp.sous_groupe@.len() ==> !(#[trigger] grp.sous_groupe@[j]).participants.vue().contains(
                    mid,
                ),
        },
{
    grp.get_sous_groupe_for(mid)
}

/// What `mk_groupe` writes for a group and, if need be, one of its
/// sub-groups: a call of the Typst function `new_groupe`, each piece of
/// information between brackets or "none".
pub open spec fn groupe_typst(groupe: Groupe, sous_groupe: Option<SousGroupe>) -> Seq<char> {
    let b = Delimiter::Brackets;
    "new_groupe(saison: "@ + delimite(vue_opt(groupe.saison), b) + ", site: "@ + delimite(
        vue_opt(groupe.site),
        b,
    ) + ", categorie: "@ + delimite(vue_opt(groupe.category), b) + ", discriminant: "@ + delimite(
        vue_opt(groupe.discriminant),
        b,
    ) + ", animateur: "@ + delimite(
        match sous_groupe {
            Some(sg) => vue_opt(sg.animateur),
            None => None,
        },
        b,
    ) + ", semaine: "@ + delimite(vue_opt(groupe.semaine), b) + ", activite: "@ + delimite(
        vue_opt(groupe.activite),
        b,
    ) + ", profil: "@ + delimite(
        match sous_groupe {
            Some(sg) => match sg.profil {
                Some(p) => Some(p.nom()),
                None => None,
            },
            None => None,
        },
        b,
    ) + ", groupe_num: "@ + delimite(
        match sous_groupe {
            Some(sg) => Some(decimal(sg.disc as nat)),
            None => None,
        },
        b,
    ) + ")"@
}

fn opt_ref(o: &Option<String>) -> (r: Option<&str>)
    ensures
        vue_opt_str(r) == vue_opt(*o),
{
    match o {
        Some(s) => Some(s.as_str()),
        None => None,
    }
}

/// Writes a group and, if need be, one of its sub-groups as a call of the
/// Typst function `new_groupe`.
pub fn mk_groupe(groupe: &Groupe, sous_groupe: Option<&SousGroupe>) -> (r: String)
    ensures
        r@ == groupe_typst(*groupe, val_sg(sous_groupe)),
{
    let b = Delimiter::Brackets;
    let mut r = String::from_str("new_groupe(saison: ");
    r.append(po(opt_ref(&groupe.saison), b).as_str());
    r.append(", site: ");
    r.append(po(opt_ref(&groupe.site), b).as_str());
    r.append(", categorie: ");
    r.append(po(opt_ref(&groupe.category), b).as_str());
    r.append(", discriminant: ");
    r.append(po(opt_ref(&groupe.discriminant), b).as_str());
    r.append(", animateur: ");
    let animateur: Option<&str> = match sous_groupe {
        Some(sg) => opt_ref(&sg.animateur),
        None => None,
    };
    r.append(po(animateur, b).as_str());
    r.append(", semaine: ");
    r.append(po(opt_ref(&groupe.semaine), b).as_str());
    r.append(", activite: ");
    r.append(po(opt_ref(&groupe.activite), b).as_str());
    r.append(", profil: ");
    let profil: Option<&str> = match sous_groupe {
        Some(sg) => match &sg.profil {
            Some(p) => Some(p.as_str()),
            None => None,
        },
        None => None,
    };
    r.append(po(profil, b).as_str());
    r.append(", groupe_num: ");
    let mut num = String::new();
    let num_ref: Option<&str> = match sous_groupe {
        Some(sg) => {
            ecrit_decimal(&mut num, sg.disc as u64);
            assert(num@ =~= decimal(sg.disc as nat));
            Some(num.as_str())
        },
        None => None,
    };
    r.append(po(num_ref, b).as_str());
    r.append(")");
    assert(r@ =~= groupe_typst(
        *groupe,
        match sous_groupe {
            Some(sg) => Some(*sg),
            None => None,
        },
    ));
    r
}

/// An optional answer as a Typst source holds it: "true", "false" or "none".
pub open spec fn bool_typst(o: Option<bool>) -> Seq<char> {
    match o {
        Some(true) => "true"@,
        Some(false) => "false"@,
        None => "none"@,
    }
}

fn ecrit_bool(o: Option<bool>) -> (s: String)
    ensures
        s@ == bool_typst(o),
{
    match o {
        Some(true) => String::from_str("true"),
        Some(false) => String::from_str("false"),
        None => String::from_str("none"),
    }
}

/// The items `l` between brackets, with ", " between them.
pub open spec fn crochets(l: Seq<Seq<char>>) -> Seq<char>
    decreases l.len(),
{
    if l.len() == 0 {
        Seq::empty()
    } else if l.len() == 1 {
        seq!['['] + l[0] + seq![']']
    } else {
        crochets(l.drop_last()) + ", "@ + seq!['['] + l.last() + seq![']']
    }
}

/// A list as a Typst source holds it between round brackets: nothing for an
/// empty list, the one item between brackets with a comma behind it, or the
/// items between brackets with ", " between them.
pub open spec fn liste_typst(l: Seq<Seq<char>>) -> Seq<char> {
    if l.len() == 1 {
        crochets(l) + seq![',']
    } else {
        crochets(l)
    }
}

fn ecrit_liste(l: &Vec<String>) -> (s: String)
    ensures
        s@ == liste_typst(vues(l@)),
{
    let mut s = String::new();
    let mut i: usize = 0;
    assert(vues(l@).take(0) =~= Seq::<Seq<char>>::empty());
    while i < l.len()
        invariant
            i <= l@.len(),
            s@ == crochets(vues(l@).take(i as int)),
        decreases l@.len() - i,
    {
        proof {
            let v = vues(l@);
            assert(v.take(i + 1).drop_last() =~= v.take(i as int));
            assert(v.take(i + 1).last() == l@[i as int]@);
            assert(v.take(i + 1)[0] == v[0]);
        }
        if i > 0 {
            s.append(", ");
        }
        pousse_car(&mut s, '[');
        s.append(l[i].as_str());
        pousse_car(&mut s, ']');
        assert(s@ =~= crochets(vues(l@).take(i + 1)));
        i += 1;
    }
    assert(vues(l@).take(l@.len() as int) =~= vues(l@));
    if l.len() == 1 {
        pousse_car(&mut s, ',');
    }
    s
}

/// An answer with its reason as a Typst source holds it: "none", or a call of
/// `bool_just`.
pub open spec fn justifie_typst(o: Option<BoolJustifie>) -> Seq<char> {
    match o {
        None => "none"@,
        Some(bj) => "bool_just(val: "@ + (if bj.reponse {
            "true"@
        } else {
            "false"@
        }) + ", just: "@ + delimite(vue_opt(bj.justification), Delimiter::Brackets) + ")"@,
    }
}

fn ecrit_justifie(o: &Option<BoolJustifie>) -> (s: String)
    ensures
        s@ == justifie_typst(*o),
{
    match o {
        None => String::from_str("none"),
        Some(bj) => {
            let mut s = String::from_str("bool_just(val: ");
            s.append(
                if bj.reponse {
                    "true"
                } else {
                    "false"
                },
            );
            s.append(", just: ");
            s.append(po(opt_ref(&bj.justification), Delimiter::Brackets).as_str());
            s.append(")");
            assert(s@ =~= justifie_typst(*o));
            s
        },
    }
}

/// An optional phone number as a Typst source holds it: "none", or the number
/// as it is shown, between brackets.
pub open spec fn tel_typst(o: Option<Tel>) -> Seq<char> {
    delimite(
        match o {
            Some(t) => Some(t.texte()),
            None => None,
        },
        Delimiter::Brackets,
    )
}

fn ecrit_tel(o: &Option<Tel>) -> (s: String)
    ensures
        s@ == tel_typst(*o),
{
    match o {
        Some(t) => {
            let texte = t.to_string();
            po(Some(texte.as_str()), Delimiter::Brackets)
        },
        None => po(None, Delimiter::Brackets),
    }
}

/// An emergency contact as a Typst source holds it: "none", or a call of
/// `new_contact`.
pub open spec fn contact_typst(o: Option<Contact>) -> Seq<char> {
    match o {
        None => "none"@,
        Some(c) => "new_contact(nom: ["@ + c.nom@ + "], tel: "@ + tel_typst(c.tel) + ", lien: "@
            + delimite(vue_opt(c.lien), Delimiter::Brackets) + ")"@,
    }
}

fn ecrit_contact(o: &Option<Contact>) -> (s: String)
    ensures
        s@ == contact_typst(*o),
{
    match o {
        None => String::from_str("none"),
        Some(c) => {
            let mut s = String::from_str("new_contact(nom: [");
            s.append(c.nom.as_str());
            s.append("], tel: ");
            s.append(ecrit_tel(&c.tel).as_str());
            s.append(", lien: ");
            s.append(po(opt_ref(&c.lien), Delimiter::Brackets).as_str());
            s.append(")");
            assert(s@ =~= contact_typst(*o));
            s
        },
    }
}

fn ecrit_nam(o: &Option<CAM>) -> (s: String)
    ensures
        s@ == delimite(
            match *o {
                Some(c) => Some(texte_ascii(c.num().octets())),
                None => None,
            },
            Delimiter::Brackets,
        ),
{
    match o {
        Some(c) => {
            let t = c.numero().as_str();
            po(Some(t.as_str()), Delimiter::Brackets)
        },
        None => po(None, Delimiter::Brackets),
    }
}

fn ecrit_exp_mois(o: &Option<CAM>) -> (s: String)
    ensures
        s@ == delimite(
            match *o {
                Some(c) => Some(decimal_large(c.exp_mois(), 2)),
                None => None,
            },
            Delimiter::Brackets,
        ),
{
    match o {
        Some(c) => {
            let mut t = String::new();
            ecrit_decimal_large(&mut t, c.exp_month() as i64, 2);
            assert(t@ =~= decimal_large(c.exp_mois(), 2));
            po(Some(t.as_str()), Delimiter::Brackets)
        },
        None => po(None, Delimiter::Brackets),
    }
}

fn ecrit_exp_an(o: &Option<CAM>) -> (s: String)
    ensures
        s@ == delimite(
            match *o {
                Some(c) => Some(decimal_large(c.exp_an(), 4)),
                None => None,
            },
            Delimiter::Brackets,
        ),
{
    match o {
        Some(c) => {
            let mut t = String::new();
            ecrit_decimal_large(&mut t, c.exp_year() as i64, 4);
            assert(t@ =~= decimal_large(c.exp_an(), 4));
            po(Some(t.as_str()), Delimiter::Brackets)
        },
        None => po(None, Delimiter::Brackets),
    }
}

fn ecrit_genre(o: Option<Genre>) -> (s: String)
    ensures
        s@ == delimite(
            match o {
                Some(g) => Some(g.nom()),
                None => None,
            },
            Delimiter::Brackets,
        ),
{
    match o {
        Some(g) => {
            let t = g.to_string();
            po(Some(t.as_str()), Delimiter::Brackets)
        },
        None => po(None, Delimiter::Brackets),
    }
}

fn ecrit_adresse(o: &Option<Adresse>) -> (s: String)
    ensures
        s@ == delimite(
            match *o {
                Some(a) => Some(a.texte()),
                None => None,
            },
            Delimiter::Brackets,
        ),
{
    match o {
        Some(a) => {
            let t = a.full();
            po(Some(t.as_str()), Delimiter::Brackets)
        },
        None => po(None, Delimiter::Brackets),
    }
}

fn ecrit_email(o: &Option<Email>) -> (s: String)
    ensures
        s@ == delimite(
            match *o {
                Some(e) => Some(e.valeur()),
                None => None,
            },
            Delimiter::Aucun,
        ),
{
    match o {
        Some(e) => po(Some(e.as_str()), Delimiter::Aucun),
        None => po(None, Delimiter::Aucun),
    }
}

/// A date as a Typst source holds it: year, month and day with "/" between
/// them, in four, two and two digits.
pub open spec fn date_typst(d: Date) -> Seq<char> {
    decimal_large(d.an(), 4) + seq!['/'] + decimal_large(d.mois(), 2) + seq!['/'] + decimal_large(
        d.jour(),
        2,
    )
}

fn ecrit_date(d: &Date) -> (s: String)
    ensures
        s@ == date_typst(*d),
{
    let mut s = String::new();
    ecrit_decimal_large(&mut s, d.year() as i64, 4);
    pousse_car(&mut s, '/');
    ecrit_decimal_large(&mut s, d.month() as i64, 2);
    pousse_car(&mut s, '/');
    ecrit_decimal_large(&mut s, d.day() as i64, 2);
    assert(s@ =~= date_typst(*d));
    s
}

/// The age on the day `aujourdhui` of someone born on `naissance`, in full
/// years; nothing for someone not born yet.
pub open spec fn age(naissance: Date, aujourdhui: Date) -> Option<nat> {
    if naissance.rang() <= aujourdhui.rang() {
        Some(
            (aujourdhui.an() - naissance.an() - (if aujourdhui.mois() * 32 + aujourdhui.jour()
                < naissance.mois() * 32 + naissance.jour() {
                1int
            } else {
                0int
            })) as nat,
        )
    } else {
        None
    }
}

/// An age as a Typst source holds it: "none", or the years between brackets.
pub open spec fn age_typst(naissance: Date, aujourdhui: Date) -> Seq<char> {
    delimite(
        match age(naissance, aujourdhui) {
            Some(a) => Some(decimal(a)),
            None => None,
        },
        Delimiter::Brackets,
    )
}

fn ecrit_age(naissance: &Date, aujourdhui: &Date) -> (s: String)
    ensures
        s@ == age_typst(*naissance, *aujourdhui),
{
    match aujourdhui.years_since(naissance) {
        Some(a) => {
            let mut t = String::new();
            ecrit_decimal(&mut t, a as u64);
            assert(t@ =~= decimal(a as nat));
            po(Some(t.as_str()), Delimiter::Brackets)
        },
        None => po(None, Delimiter::Brackets),
    }
}

/// How the record of a child opens: the identifier, the names and the
/// health-insurance card.
#[verifier::opaque]
pub open spec fn enfant_partie_1(membre: Membre, compte: Compte, aujourdhui: Date) -> Seq<char> {
    "new_enfant(\n\t\tid: \""@
        + seq!['M']
        + hex8(membre.id.0)
        + "\",\n\t\tnom: ["@
        + membre.nom@
        + "],\n\t\tprenom: ["@
        + membre.prenom@
        + "],\n\t\tcam: new_cam(nam: "@
        + delimite(
            match membre.fiche_sante.cam {
                Some(c) => Some(texte_ascii(c.num().octets())),
                None => None,
            },
            Delimiter::Brackets,
        )
        + ", exp_mois: "@
        + delimite(
            match membre.fiche_sante.cam {
                Some(c) => Some(decimal_large(c.exp_mois(), 2)),
                None => None,
            },
            Delimiter::Brackets,
        )
        + ", exp_year: "@
        + delimite(
            match membre.fiche_sante.cam {
                Some(c) => Some(decimal_large(c.exp_an(), 4)),
                None => None,
            },
            Delimiter::Brackets,
        )
}

fn ecrit_partie_1(membre: &Membre, compte: &Compte, aujourdhui: &Date) -> (s: String)
    ensures
        s@ == enfant_partie_1(*membre, *compte, *aujourdhui),
{
    proof {
        reveal(enfant_partie_1);
    }
    let mut s = String::new();
    s.append("new_enfant(\n\t\tid: \"");
    s.append(membre.id.to_string().as_str());
    s.append("\",\n\t\tnom: [");
    s.append(membre.nom.clone().as_str());
    s.append("],\n\t\tprenom: [");
    s.append(membre.prenom.clone().as_str());
    s.append("],\n\t\tcam: new_cam(nam: ");
    s.append(ecrit_nam(&membre.fiche_sante.cam).as_str());
    s.append(", exp_mois: ");
    s.append(ecrit_exp_mois(&membre.fiche_sante.cam).as_str());
    s.append(", exp_year: ");
    s.append(ecrit_exp_an(&membre.fiche_sante.cam).as_str());
    assert(s@ =~= enfant_partie_1(*membre, *compte, *aujourdhui));
    s
}

/// The record of a child, second stretch: the gender, the allergies and
/// illnesses, the behaviour, then the account's holder and telephone.
#[verifier::opaque]
pub open spec fn enfant_partie_2(membre: Membre, compte: Compte, aujourdhui: Date) -> Seq<char> {
    "),\n\t\tgenre: "@
        + delimite(
            match membre.genre {
                Some(g) => Some(g.nom()),
                None => None,
            },
            Delimiter::Brackets,
        )
        + ",\n\t\tallergies: ("@
        + liste_typst(vues(membre.fiche_sante.allergies@))
        + "),\n\t\tmaladies: ("@
        + liste_typst(vues(membre.fiche_sante.maladies@))
        + "),\n\t\tprob_comportement: "@
        + justifie_typst(membre.fiche_sante.probleme_comportement)
        + ",\n\t\tcompte: new_compte(mandataire: ["@
        + compte.mandataire@
        + "], tel: "@
        + tel_typst(compte.tel)
}

fn ecrit_partie_2(membre: &Membre, compte: &Compte, aujourdhui: &Date) -> (s: String)
    ensures
        s@ == enfant_partie_2(*membre, *compte, *aujourdhui),
{
    proof {
        reveal(enfant_partie_2);
    }
    let mut s = String::new();
    s.append("),\n\t\tgenre: ");
    s.append(ecrit_genre(membre.genre).as_str());
    s.append(",\n\t\tallergies: (");
    s.append(ecrit_liste(&membre.fiche_sante.allergies).as_str());
    s.append("),\n\t\tmaladies: (");
    s.append(ecrit_liste(&membre.fiche_sante.maladies).as_str());
    s.append("),\n\t\tprob_comportement: ");
    s.append(ecrit_justifie(&membre.fiche_sante.probleme_comportement).as_str());
    s.append(",\n\t\tcompte: new_compte(mandataire: [");
    s.append(compte.mandataire.clone().as_str());
    s.append("], tel: ");
    s.append(ecrit_tel(&compte.tel).as_str());
    assert(s@ =~= enfant_partie_2(*membre, *compte, *aujourdhui));
    s
}

/// The record of a child, third stretch: the account's address and e-mail,
/// the medication taken, the consent to care and the first permitted remedies.
#[verifier::opaque]
pub open spec fn enfant_partie_3(membre: Membre, compte: Compte, aujourdhui: Date) -> Seq<char> {
    ", adresse: "@
        + delimite(
            match compte.adresse {
                Some(a) => Some(a.texte()),
                None => None,
            },
            Delimiter::Brackets,
        )
        + ", email: \""@
        + delimite(
            match compte.email {
                Some(e) => Some(e.valeur()),
                None => None,
            },
            Delimiter::Aucun,
        )
        + "\"),\n\t\tprise_med: "@
        + justifie_typst(membre.fiche_sante.prise_med)
        + ",\n\t\tauth_soins: "@
        + bool_typst(membre.fiche_sante.auth_soins)
        + ",\n\t\tmedicaments: new_medicaments(anti_inflamatoire: "@
        + bool_typst(membre.fiche_sante.auth_medicaments.anti_inflamatoire)
        + ", sirop_toux: "@
        + bool_typst(membre.fiche_sante.auth_medicaments.sirop_toux)
}

fn ecrit_partie_3(membre: &Membre, compte: &Compte, aujourdhui: &Date) -> (s: String)
    ensures
        s@ == enfant_partie_3(*membre, *compte, *aujourdhui),
{
    proof {
        reveal(enfant_partie_3);
    }
    let mut s = String::new();
    s.append(", adresse: ");
    s.append(ecrit_adresse(&compte.adresse).as_str());
    s.append(", email: \"");
    s.append(ecrit_email(&compte.email).as_str());
    s.append("\"),\n\t\tprise_med: ");
    s.append(ecrit_justifie(&membre.fiche_sante.prise_med).as_str());
    s.append(",\n\t\tauth_soins: ");
    s.append(ecrit_bool(membre.fiche_sante.auth_soins).as_str());
    s.append(",\n\t\tmedicaments: new_medicaments(anti_inflamatoire: ");
    s.append(ecrit_bool(membre.fiche_sante.auth_medicaments.anti_inflamatoire).as_str());
    s.append(", sirop_toux: ");
    s.append(ecrit_bool(membre.fiche_sante.auth_medicaments.sirop_toux).as_str());
    assert(s@ =~= enfant_partie_3(*membre, *compte, *aujourdhui));
    s
}

/// The record of a child, fourth stretch: the other permitted remedies and
/// the two contacts.
#[verifier::opaque]
pub open spec fn enfant_partie_4(membre: Membre, compte: Compte, aujourdhui: Date) -> Seq<char> {
    ", ibuprofene: "@
        + bool_typst(membre.fiche_sante.auth_medicaments.ibuprofene)
        + ", antiemetique: "@
        + bool_typst(membre.fiche_sante.auth_medicaments.anti_emetique)
        + ", antibiotique: "@
        + bool_typst(membre.fiche_sante.auth_medicaments.anti_biotique)
        + ", acetaminophene: "@
        + bool_typst(membre.fiche_sante.auth_medicaments.acetaminophene)
        + ",),\n\t\tcontact_1: "@
        + contact_typst(membre.contacts@[0])
        + ",\n\t\tcontact_2: "@
        + contact_typst(membre.contacts@[1])
}

fn ecrit_partie_4(membre: &Membre, compte: &Compte, aujourdhui: &Date) -> (s: String)
    ensures
        s@ == enfant_partie_4(*membre, *compte, *aujourdhui),
{
    proof {
        reveal(enfant_partie_4);
    }
    let mut s = String::new();
    s.append(", ibuprofene: ");
    s.append(ecrit_bool(membre.fiche_sante.auth_medicaments.ibuprofene).as_str());
    s.append(", antiemetique: ");
    s.append(ecrit_bool(membre.fiche_sante.auth_medicaments.anti_emetique).as_str());
    s.append(", antibiotique: ");
    s.append(ecrit_bool(membre.fiche_sante.auth_medicaments.anti_biotique).as_str());
    s.append(", acetaminophene: ");
    s.append(ecrit_bool(membre.fiche_sante.auth_medicaments.acetaminophene).as_str());
    s.append(",),\n\t\tcontact_1: ");
    s.append(ecrit_contact(&membre.contacts[0]).as_str());
    s.append(",\n\t\tcontact_2: ");
    s.append(ecrit_contact(&membre.contacts[1]).as_str());
    assert(s@ =~= enfant_partie_4(*membre, *compte, *aujourdhui));
    s
}

/// The record of a child, fifth stretch: who may fetch the child and under
/// which password, the swimming pool, and the consent to photographs.
#[verifier::opaque]
pub open spec fn enfant_partie_5(membre: Membre, compte: Compte, aujourdhui: Date) -> Seq<char> {
    ",\n\t\tquitte: ("@
        + liste_typst(vues(membre.quitte.avec@))
        + "),\n\t\tmdp: "@
        + delimite(vue_opt(membre.quitte.mdp), Delimiter::Brackets)
        + ",\n\t\tpiscine: new_piscine(auth_partage: "@
        + bool_typst(membre.piscine.partage)
        + ", vfi: "@
        + bool_typst(membre.piscine.vfi)
        + ", tete_sous_eau: "@
        + bool_typst(membre.piscine.tete_sous_eau)
        + "),\n\t\tauth_photo: "@
        + bool_typst(membre.auth_photo)
}

fn ecrit_partie_5(membre: &Membre, compte: &Compte, aujourdhui: &Date) -> (s: String)
    ensures
        s@ == enfant_partie_5(*membre, *compte, *aujourdhui),
{
    proof {
        reveal(enfant_partie_5);
    }
    let mut s = String::new();
    s.append(",\n\t\tquitte: (");
    s.append(ecrit_liste(&membre.quitte.avec).as_str());
    s.append("),\n\t\tmdp: ");
    s.append(po(opt_ref(&membre.quitte.mdp), Delimiter::Brackets).as_str());
    s.append(",\n\t\tpiscine: new_piscine(auth_partage: ");
    s.append(ecrit_bool(membre.piscine.partage).as_str());
    s.append(", vfi: ");
    s.append(ecrit_bool(membre.piscine.vfi).as_str());
    s.append(", tete_sous_eau: ");
    s.append(ecrit_bool(membre.piscine.tete_sous_eau).as_str());
    s.append("),\n\t\tauth_photo: ");
    s.append(ecrit_bool(membre.auth_photo).as_str());
    assert(s@ =~= enfant_partie_5(*membre, *compte, *aujourdhui));
    s
}

/// How the record of a child closes: the comment, the date of birth and the
/// age on the day `aujourdhui`.
#[verifier::opaque]
pub open spec fn enfant_partie_6(membre: Membre, compte: Compte, aujourdhui: Date) -> Seq<char> {
    ",\n\t\tcommentaire: "@
        + delimite(vue_opt(membre.commentaire), Delimiter::Brackets)
        + ",\n\t\tnaissance: ["@
        + date_typst(membre.naissance)
        + "],\n\t\tage: "@
        + age_typst(membre.naissance, aujourdhui)
        + ",\n\t)"@
}

fn ecrit_partie_6(membre: &Membre, compte: &Compte, aujourdhui: &Date) -> (s: String)
    ensures
        s@ == enfant_partie_6(*membre, *compte, *aujourdhui),
{
    proof {
        reveal(enfant_partie_6);
    }
    let mut s = String::new();
    s.append(",\n\t\tcommentaire: ");
    s.append(po(opt_ref(&membre.commentaire), Delimiter::Brackets).as_str());
    s.append(",\n\t\tnaissance: [");
    s.append(ecrit_date(&membre.naissance).as_str());
    s.append("],\n\t\tage: ");
    s.append(ecrit_age(&membre.naissance, aujourdhui).as_str());
    s.append(",\n\t)");
    assert(s@ =~= enfant_partie_6(*membre, *compte, *aujourdhui));
    s
}

/// What `mk_membre` writes for a member and the account it belongs to: a call
/// of the Typst function `new_enfant` that holds all that is known of the
/// member, the age being that on the day `aujourdhui`.
pub open spec fn enfant_typst(membre: Membre, compte: Compte, aujourdhui: Date) -> Seq<char> {
    enfant_partie_1(membre, compte, aujourdhui)
        + enfant_partie_2(membre, compte, aujourdhui)
        + enfant_partie_3(membre, compte, aujourdhui)
        + enfant_partie_4(membre, compte, aujourdhui)
        + enfant_partie_5(membre, compte, aujourdhui)
        + enfant_partie_6(membre, compte, aujourdhui)
}

/// Writes a member and the account it belongs to as a call of the Typst
/// function `new_enfant`.
pub fn mk_membre(membre: &Membre, compte: &Compte, aujourdhui: &Date) -> (s: String)
    ensures
        s@ == enfant_typst(*membre, *compte, *aujourdhui),
{
    let mut s = String::new();
    s.append(ecrit_partie_1(membre, compte, aujourdhui).as_str());
    s.append(ecrit_partie_2(membre, compte, aujourdhui).as_str());
    s.append(ecrit_partie_3(membre, compte, aujourdhui).as_str());
    s.append(ecrit_partie_4(membre, compte, aujourdhui).as_str());
    s.append(ecrit_partie_5(membre, compte, aujourdhui).as_str());
    s.append(ecrit_partie_6(membre, compte, aujourdhui).as_str());
    assert(s@ =~= enfant_typst(*membre, *compte, *aujourdhui));
    s
}

/// Why a sheet could not be written.
#[derive(Debug, Clone, Copy, PartialEq, Eq, Structural)]
pub enum PrintError {
    /// The registry of members holds nobody under this identifier.
    MembreInexistant(MembreID),
    /// The registry of accounts holds nothing under this identifier.
    CompteInexistant(CompteID),
}

/// What it takes to print a sheet: where the sheet goes, where its Typst source
/// is put meanwhile, and the source itself.
#[derive(Debug)]
pub struct Impression {
    /// The directory of the sheet.
    pub dir: String,
    /// The file of the sheet.
    pub out_file: String,
    /// The directory of the source.
    pub tmp_dir: String,
    /// The file of the source.
    pub tmp_file: String,
    /// The source.
    pub source: String,
}

/// The directory in which the Typst sources are put: "templates" in the
/// working directory.
pub open spec fn dossier_source(config: Config) -> Seq<char> {
    config.working_dir@ + "/templates"@
}

/// The file in which a Typst source is put.
pub open spec fn fichier_source(config: Config) -> Seq<char> {
    dossier_source(config) + "/tmp.typ"@
}

fn ecrit_dossier_source(config: &Config) -> (r: (String, String))
    ensures
        r.0@ == dossier_source(*config),
        r.1@ == fichier_source(*config),
{
    let mut d = config.working_dir.clone();
    d.append("/templates");
    let mut f = d.clone();
    f.append("/tmp.typ");
    (d, f)
}

/// The directory of the health files of the site `site`.
pub open spec fn dossier_fiche_med(config: Config, site: Seq<char>) -> Seq<char> {
    config.out_dir@ + seq!['/'] + site + "/fiche_med"@
}

/// The file of the health file of `membre` at the site `site`.
pub open spec fn fichier_fiche_med(config: Config, site: Seq<char>, membre: Membre) -> Seq<char> {
    dossier_fiche_med(config, site) + "/fichemed_"@ + membre.nom@ + seq!['_'] + membre.prenom@
        + ".pdf"@
}

/// The Typst source of the health file of a member.
pub open spec fn source_fiche_med(membre: Membre, compte: Compte, aujourdhui: Date) -> Seq<char> {
    "#import \"template.typ\": *\n#let enfant = "@ + enfant_typst(membre, compte, aujourdhui)
        + "\n#show: it => fiche_med( it,\n\tenfant: enfant,\n)\n"@
}

/// What it takes to print the health file of `membre`, of the account
/// `compte`, for the site `site`.
pub fn print_fiche_med(
    membre: &Membre,
    compte: &Compte,
    config: &Config,
    site: &str,
    aujourdhui: &Date,
) -> (r: Impression)
    ensures
        r.dir@ == dossier_fiche_med(*config, site@),
        r.out_file@ == fichier_fiche_med(*config, site@, *membre),
        r.tmp_dir@ == dossier_source(*config),
        r.tmp_file@ == fichier_source(*config),
        r.source@ == source_fiche_med(*membre, *compte, *aujourdhui),
{
    let mut dir = config.out_dir.clone();
    pousse_car(&mut dir, '/');
    dir.append(site);
    dir.append("/fiche_med");
    assert(dir@ =~= dossier_fiche_med(*config, site@));
    let mut out_file = dir.clone();
    out_file.append("/fichemed_");
    out_file.append(membre.nom.as_str());
    pousse_car(&mut out_file, '_');
    out_file.append(membre.prenom.as_str());
    out_file.append(".pdf");
    assert(out_file@ =~= fichier_fiche_med(*config, site@, *membre));
    let (tmp_dir, tmp_file) = ecrit_dossier_source(config);
    let mut source = String::from_str("#import \"template.typ\": *\n#let enfant = ");
    source.append(mk_membre(membre, compte, aujourdhui).as_str());
    source.append("\n#show: it => fiche_med( it,\n\tenfant: enfant,\n)\n");
    Impression { dir, out_file, tmp_dir, tmp_file, source }
}

/// An optional text, or "none" in its place.
pub open spec fn ou_none(o: Option<Seq<char>>) -> Seq<char> {
    match o {
        Some(t) => t,
        None => "none"@,
    }
}

fn ecrit_ou_none(s: &mut String, o: &Option<String>)
    ensures
        final(s)@ == old(s)@ + ou_none(vue_opt(*o)),
{
    match o {
        Some(t) => s.append(t.as_str()),
        None => s.append("none"),
    }
}

/// For each member of `ms`, whether it comes behind `x` in the order of names.
pub open spec fn plus_grands(ms: Seq<Membre>, x: Membre) -> Seq<bool> {
    ms.map_values(|m: Membre| ordre_noms(m, x) > 0)
}

/// The members `ms` with `x` put before the first of them that comes behind it
/// in the order of names, or at the end if none does.
pub open spec fn insere_nom(ms: Seq<Membre>, x: Membre) -> Seq<Membre> {
    match premier_rang(plus_grands(ms, x), true) {
        Some(i) => ms.insert(i, x),
        None => ms.push(x),
    }
}

/// The members `ms` in the order of names; members of the same name and first
/// name keep the order they came in.
pub open spec fn tri_noms(ms: Seq<Membre>) -> Seq<Membre>
    decreases ms.len(),
{
    if ms.len() == 0 {
        ms
    } else {
        insere_nom(tri_noms(ms.drop_last()), ms.last())
    }
}

/// What each reference of `v` points to.
pub open spec fn vises(v: Seq<&Membre>) -> Seq<Membre> {
    v.map_values(|m: &Membre| *m)
}

/// Puts members in the order of names.
pub fn trie_par_nom<'a>(v: &Vec<&'a Membre>) -> (r: Vec<&'a Membre>)
    ensures
        vises(r@) == tri_noms(vises(v@)),
{
    let mut r: Vec<&'a Membre> = Vec::new();
    let mut i: usize = 0;
    assert(vises(v@).take(0) =~= Seq::<Membre>::empty());
    assert(vises(r@) =~= tri_noms(vises(v@).take(0)));
    while i < v.len()
        invariant
            i <= v@.len(),
            vises(r@) == tri_noms(vises(v@).take(i as int)),
        decreases v@.len() - i,
    {
        let x = v[i];
        let mut pos: usize = 0;
        let ghost pg = plus_grands(vises(r@), *x);
        while pos < r.len() && !plus_grand(r[pos], x)
            invariant
                pos <= r@.len(),
                pg == plus_grands(vises(r@), *x),
                forall|j: int| 0 <= j < pos ==> !pg[j],
            decreases r@.len() - pos,
        {
            pos += 1;
        }
        let ghost avant = vises(r@);
        proof {
            if pos < r@.len() {
                lemme_premier_rang(pg, true, pos as int);
            } else {
                lemme_premier_rang_absent(pg, true);
            }
            assert(vises(v@).take(i + 1).drop_last() =~= vises(v@).take(i as int));
            assert(vises(v@).take(i + 1).last() == *x);
        }
        r.insert(pos, x);
        assert(vises(r@) =~= insere_nom(avant, *x));
        i += 1;
    }
    assert(vises(v@).take(v@.len() as int) =~= vises(v@));
    r
}

/// The members held under the identifiers `ids`.
pub open spec fn resolus(ids: Seq<MembreID>, membres: MembreReg) -> Seq<Membre> {
    ids.map_values(|id: MembreID| membres.item(id))
}

/// The members held under the identifiers of `ids`, or the first identifier
/// under which the registry holds nobody.
pub fn resout_membres<'a>(ids: &Ensemble, membres: &'a MembreReg) -> (r: Result<
    Vec<&'a Membre>,
    MembreID,
>)
    requires
        membres.wf(),
    ensures
        match r {
            Ok(v) => premier_rang(inscrits(ids.vue(), *membres), false) is None && vises(v@)
                == resolus(ids.vue(), *membres),
            Err(id) => premier_rang(inscrits(ids.vue(), *membres), false) matches Some(i) && id
                == ids.vue()[i],
        },
{
    let mut v: Vec<&'a Membre> = Vec::new();
    let n = ids.len();
    let mut i: usize = 0;
    while i < n
        invariant
            membres.wf(),
            n == ids.vue().len(),
            i <= n,
            v@.len() == i,
            forall|j: int| 0 <= j < i ==> membres.contient(ids.vue()[j]),
            forall|j: int| 0 <= j < i ==> *(#[trigger] v@[j]) == membres.item(ids.vue()[j]),
        decreases n - i,
    {
        let id = ids.get(i);
        match membres.get(id) {
            Ok(m) => v.push(m),
            Err(_) => {
                proof {
                    lemme_premier_rang(inscrits(ids.vue(), *membres), false, i as int);
                }
                return Err(id);
            },
        }
        i += 1;
    }
    proof {
        lemme_premier_rang_absent(inscrits(ids.vue(), *membres), false);
        assert(vises(v@) =~= resolus(ids.vue(), *membres));
    }
    Ok(v)
}

/// Whether the account of the member `m` is at hand: a member without account
/// needs none.
pub open spec fn compte_present(m: Membre, comptes: CompteReg) -> bool {
    match m.compte {
        Some(c) => comptes.contient(c),
        None => true,
    }
}

/// For each member of `ms`, whether its account is at hand.
pub open spec fn comptes_presents(ms: Seq<Membre>, comptes: CompteReg) -> Seq<bool> {
    ms.map_values(|m: Membre| compte_present(m, comptes))
}

/// The account of the member `m`: the one it belongs to, or `nul` for a member
/// without account.
pub open spec fn compte_de(m: Membre, comptes: CompteReg, nul: Compte) -> Compte {
    match m.compte {
        Some(c) => comptes.item(c),
        None => nul,
    }
}

/// The members `ms` as items of a Typst list: each as a call of `new_enfant`,
/// with a comma and a line break behind it.
pub open spec fn enfants_typst(
    ms: Seq<Membre>,
    comptes: CompteReg,
    nul: Compte,
    aujourdhui: Date,
) -> Seq<char>
    decreases ms.len(),
{
    if ms.len() == 0 {
        Seq::empty()
    } else {
        enfants_typst(ms.drop_last(), comptes, nul, aujourdhui) + enfant_typst(
            ms.last(),
            compte_de(ms.last(), comptes, nul),
            aujourdhui,
        ) + ",\n"@
    }
}

/// Writes members as items of a Typst list, or gives the first account that is
/// missing.
pub fn ecrit_enfants(
    ms: &Vec<&Membre>,
    comptes: &CompteReg,
    nul: &Compte,
    aujourdhui: &Date,
) -> (r: Result<String, CompteID>)
    requires
        comptes.wf(),
    ensures
        match r {
            Ok(s) => premier_rang(comptes_presents(vises(ms@), *comptes), false) is None && s@
                == enfants_typst(vises(ms@), *comptes, *nul, *aujourdhui),
            Err(c) => premier_rang(comptes_presents(vises(ms@), *comptes), false) matches Some(i)
                && vises(ms@)[i].compte == Some(c),
        },
{
    let mut s = String::new();
    let mut i: usize = 0;
    let ghost tous = vises(ms@);
    assert(tous.take(0) =~= Seq::<Membre>::empty());
    while i < ms.len()
        invariant
            comptes.wf(),
            i <= ms@.len(),
            tous == vises(ms@),
            forall|j: int| 0 <= j < i ==> compte_present(tous[j], *comptes),
            s@ == enfants_typst(tous.take(i as int), *comptes, *nul, *aujourdhui),
        decreases ms@.len() - i,
    {
        let m = ms[i];
        assert(*m == tous[i as int]);
        let compte: &Compte = match m.compte {
            Some(c) => match comptes.get(c) {
                Ok(x) => x,
                Err(_) => {
                    proof {
                        lemme_premier_rang(comptes_presents(tous, *comptes), false, i as int);
                    }
                    return Err(c);
                },
            },
            None => nul,
        };
        proof {
            assert(tous.take(i + 1).drop_last() =~= tous.take(i as int));
            assert(tous.take(i + 1).last() == *m);
        }
        s.append(mk_membre(m, compte, aujourdhui).as_str());
        s.append(",\n");
        i += 1;
    }
    proof {
        assert(tous.take(ms@.len() as int) =~= tous);
        lemme_premier_rang_absent(comptes_presents(tous, *comptes), false);
    }
    Ok(s)
}

/// The directory of the attendance sheets of the instructors of `groupe`.
pub open spec fn dossier_presence_anim(config: Config, groupe: Groupe) -> Seq<char> {
    tirets(
        config.out_dir@ + seq!['/'] + ou_none(vue_opt(groupe.saison)) + seq!['/'] + ou_none(
            vue_opt(groupe.site),
        ) + "/anim/sem"@ + ou_none(vue_opt(groupe.semaine)),
    )
}

/// The name of the file of the attendance sheet of `groupe` or of its
/// sub-group `sous_groupe`.
pub open spec fn nom_presence_anim(groupe: Groupe, sous_groupe: Option<SousGroupe>) -> Seq<char> {
    tirets(
        "presence_anim_"@ + ou_none(vue_opt(groupe.activite)) + seq!['_'] + ou_none(
            vue_opt(groupe.site),
        ) + seq!['_'] + ou_none(vue_opt(groupe.category)) + seq!['_'] + ou_none(
            vue_opt(groupe.discriminant),
        ) + ou_none(
            match sous_groupe {
                Some(sg) => Some(decimal(sg.disc as nat)),
                None => None,
            },
        ) + seq!['_'] + ou_none(
            match sous_groupe {
                Some(sg) => match sg.profil {
                    Some(p) => Some(p.nom()),
                    None => None,
                },
                None => None,
            },
        ) + "_sem"@ + ou_none(vue_opt(groupe.semaine)) + ".pdf"@,
    )
}

/// The participants that an attendance sheet lists: those of the sub-group if
/// there is one, else those of the group.
pub open spec fn inscrits_feuille(groupe: Groupe, sous_groupe: Option<SousGroupe>) -> Seq<
    MembreID,
> {
    match sous_groupe {
        Some(sg) => sg.participants.vue(),
        None => groupe.participants.vue(),
    }
}

/// The Typst source of the attendance sheet of the members `ms` of `groupe`.
pub open spec fn source_presence_anim(
    groupe: Groupe,
    sous_groupe: Option<SousGroupe>,
    ms: Seq<Membre>,
    comptes: CompteReg,
    nul: Compte,
    aujourdhui: Date,
) -> Seq<char> {
    "#import \"template.typ\": *\n#let grp = "@ + groupe_typst(groupe, sous_groupe)
        + "\n#let participants = (\n"@ + enfants_typst(ms, comptes, nul, aujourdhui)
        + ")\n#show: it => presence_anim(it, groupe: grp, participants: participants)\n"@
}

/// The group or sub-group that an attendance sheet is about, as a value.
pub open spec fn val_sg(sous_groupe: Option<&SousGroupe>) -> Option<SousGroupe> {
    match sous_groupe {
        Some(sg) => Some(*sg),
        None => None,
    }
}

/// What it takes to print the attendance sheet of `groupe`, or of its
/// sub-group `sous_groupe`, for its instructor: the participants in the order
/// of names, each with its account, `nul` standing for the account of a member
/// that has none. Fails on the first participant that the registry of members
/// lacks, or else on the first account that the registry of accounts lacks.
pub fn print_presence_anim(
    groupe: &Groupe,
    sous_groupe: Option<&SousGroupe>,
    membres: &MembreReg,
    comptes: &CompteReg,
    nul: &Compte,
    config: &Config,
    aujourdhui: &Date,
) -> (r: Result<Impression, PrintError>)
    requires
        membres.wf(),
        comptes.wf(),
    ensures
        ({
            let ids = inscrits_feuille(*groupe, val_sg(sous_groupe));
            let ms = tri_noms(resolus(ids, *membres));
            match r {
                Ok(imp) => {
                    &&& premier_rang(inscrits(ids, *membres), false) is None
                    &&& premier_rang(comptes_presents(ms, *comptes), false) is None
                    &&& imp.dir@ == dossier_presence_anim(*config, *groupe)
                    &&& imp.out_file@ == imp.dir@ + seq!['/'] + nom_presence_anim(
                        *groupe,
                        val_sg(sous_groupe),
                    )
                    &&& imp.tmp_dir@ == dossier_source(*config)
                    &&& imp.tmp_file@ == fichier_source(*config)
                    &&& imp.source@ == source_presence_anim(
                        *groupe,
                        val_sg(sous_groupe),
                        ms,
                        *comptes,
                        *nul,
                        *aujourdhui,
                    )
                },
                Err(PrintError::MembreInexistant(id)) => premier_rang(
                    inscrits(ids, *membres),
                    false,
                ) matches Some(i) && id == ids[i],
                Err(PrintError::CompteInexistant(c)) => {
                    &&& premier_rang(inscrits(ids, *membres), false) is None
                    &&& premier_rang(comptes_presents(ms, *comptes), false) matches Some(i)
                    &&& ms[i].compte == Some(c)
                },
            }
        }),
{
    let participants: &Ensemble = match sous_groupe {
        Some(sg) => &sg.participants,
        None => &groupe.participants,
    };
    let ps = match resout_membres(participants, membres) {
        Ok(v) => trie_par_nom(&v),
        Err(id) => return Err(PrintError::MembreInexistant(id)),
    };
    let enfants = match ecrit_enfants(&ps, comptes, nul, aujourdhui) {
        Ok(s) => s,
        Err(c) => return Err(PrintError::CompteInexistant(c)),
    };
    let dir = ecrit_dossier_anim(config, groupe);
    let mut out_file = dir.clone();
    pousse_car(&mut out_file, '/');
    out_file.append(ecrit_nom_anim(groupe, sous_groupe).as_str());
    let (tmp_dir, tmp_file) = ecrit_dossier_source(config);
    let mut source = String::from_str("#import \"template.typ\": *\n#let grp = ");
    source.append(mk_groupe(groupe, sous_groupe).as_str());
    source.append("\n#let participants = (\n");
    source.append(enfants.as_str());
    source.append(")\n#show: it => presence_anim(it, groupe: grp, participants: participants)\n");
    Ok(Impression { dir, out_file, tmp_dir, tmp_file, source })
}

fn ecrit_dossier_anim(config: &Config, groupe: &Groupe) -> (s: String)
    ensures
        s@ == dossier_presence_anim(*config, *groupe),
{
    let mut s = config.out_dir.clone();
    pousse_car(&mut s, '/');
    ecrit_ou_none(&mut s, &groupe.saison);
    pousse_car(&mut s, '/');
    ecrit_ou_none(&mut s, &groupe.site);
    s.append("/anim/sem");
    ecrit_ou_none(&mut s, &groupe.semaine);
    assert(s@ =~= config.out_dir@ + seq!['/'] + ou_none(vue_opt(groupe.saison)) + seq!['/']
        + ou_none(vue_opt(groupe.site)) + "/anim/sem"@ + ou_none(vue_opt(groupe.semaine)));
    sans_espaces(s.as_str())
}

fn ecrit_nom_anim(groupe: &Groupe, sous_groupe: Option<&SousGroupe>) -> (s: String)
    ensures
        s@ == nom_presence_anim(*groupe, val_sg(sous_groupe)),
{
    let mut s = String::from_str("presence_anim_");
    ecrit_ou_none(&mut s, &groupe.activite);
    pousse_car(&mut s, '_');
    ecrit_ou_none(&mut s, &groupe.site);
    pousse_car(&mut s, '_');
    ecrit_ou_none(&mut s, &groupe.category);
    pousse_car(&mut s, '_');
    ecrit_ou_none(&mut s, &groupe.discriminant);
    match sous_groupe {
        Some(sg) => {
            ecrit_decimal(&mut s, sg.disc as u64);
        },
        None => {
            s.append("none");
        },
    }
    pousse_car(&mut s, '_');
    match sous_groupe {
        Some(sg) => match &sg.profil {
            Some(p) => s.append(p.as_str()),
            None => s.append("none"),
        },
        None => s.append("none"),
    }
    s.append("_sem");
    ecrit_ou_none(&mut s, &groupe.semaine);
    s.append(".pdf");
    assert(s@ =~= "presence_anim_"@ + ou_none(vue_opt(groupe.activite)) + seq!['_'] + ou_none(
        vue_opt(groupe.site),
    ) + seq!['_'] + ou_none(vue_opt(groupe.category)) + seq!['_'] + ou_none(
        vue_opt(groupe.discriminant),
    ) + ou_none(
        match val_sg(sous_groupe) {
            Some(sg) => Some(decimal(sg.disc as nat)),
            None => None,
        },
    ) + seq!['_'] + ou_none(
        match val_sg(sous_groupe) {
            Some(sg) => match sg.profil {
                Some(p) => Some(p.nom()),
                None => None,
            },
            None => None,
        },
    ) + "_sem"@ + ou_none(vue_opt(groupe.semaine)) + ".pdf"@);
    sans_espaces(s.as_str())
}

/// The identifiers `acc` with those of `ids` added behind them, each unless it
/// is there already.
pub open spec fn ajoute_tous(acc: Seq<MembreID>, ids: Seq<MembreID>) -> Seq<MembreID>
    decreases ids.len(),
{
    if ids.len() == 0 {
        acc
    } else {
        let avant = ajoute_tous(acc, ids.drop_last());
        if avant.contains(ids.last()) {
            avant
        } else {
            avant.push(ids.last())
        }
    }
}

/// Whether the group `g` is of the season, the site and the week of `info`.
pub open spec fn du_service(g: Groupe, info: PresenceSDJInfo) -> bool {
    vue_opt(g.saison) == vue_opt_str(info.saison) && vue_opt(g.site) == vue_opt_str(info.site)
        && vue_opt(g.semaine) == vue_opt_str(info.semaine)
}

/// The participants of the groups of `gs` that are of the season, the site and
/// the week of `info`, each once, in the order in which they are met.
pub open spec fn inscrits_sdj(gs: Seq<Groupe>, info: PresenceSDJInfo) -> Seq<MembreID>
    decreases gs.len(),
{
    if gs.len() == 0 {
        Seq::empty()
    } else if du_service(gs.last(), info) {
        ajoute_tous(inscrits_sdj(gs.drop_last(), info), gs.last().participants.vue())
    } else {
        inscrits_sdj(gs.drop_last(), info)
    }
}

/// The first sub-group among `sgs` that holds the member `mid`, if any does.
pub open spec fn sous_groupe_de(sgs: Seq<SousGroupe>, mid: MembreID) -> Option<SousGroupe> {
    match premier_rang(sgs.map_values(|sg: SousGroupe| sg.participants.vue().contains(mid)), true) {
        Some(i) => Some(sgs[i]),
        None => None,
    }
}

/// What the attendance sheet of the day care says of the participant `mid` of
/// the group `g`: category and discriminant of the group, instructor and
/// profile of the sub-group that holds the participant.
pub open spec fn ligne_sdj(g: Groupe, mid: MembreID) -> Seq<char> {
    let b = Delimiter::Brackets;
    let sg = sous_groupe_de(g.sous_groupe@, mid);
    seq!['"', 'M'] + hex8(mid.0) + "\": new_groupe(categorie: "@ + delimite(
        vue_opt(g.category),
        b,
    ) + ", discriminant: "@ + delimite(vue_opt(g.discriminant), b) + ", animateur: "@ + delimite(
        match sg {
            Some(x) => vue_opt(x.animateur),
            None => None,
        },
        b,
    ) + ", profil: "@ + delimite(
        match sg {
            Some(x) => match x.profil {
                Some(p) => Some(p.nom()),
                None => None,
            },
            None => None,
        },
        b,
    ) + "),\n"@
}

/// What the attendance sheet of the day care says of the first `k`
/// participants of the group `g`.
pub open spec fn lignes_sdj(g: Groupe, k: int) -> Seq<char>
    decreases k,
{
    if k <= 0 || k > g.participants.vue().len() {
        Seq::empty()
    } else {
        lignes_sdj(g, k - 1) + ligne_sdj(g, g.participants.vue()[k - 1])
    }
}

/// What the attendance sheet of the day care says of the participants of the
/// groups of `gs` that are of the season, the site and the week of `info`.
pub open spec fn groupes_sdj(gs: Seq<Groupe>, info: PresenceSDJInfo) -> Seq<char>
    decreases gs.len(),
{
    if gs.len() == 0 {
        Seq::empty()
    } else if du_service(gs.last(), info) {
        groupes_sdj(gs.drop_last(), info) + lignes_sdj(
            gs.last(),
            gs.last().participants.vue().len() as int,
        )
    } else {
        groupes_sdj(gs.drop_last(), info)
    }
}

fn ecrit_ligne_sdj(s: &mut String, g: &Groupe, mid: MembreID)
    ensures
        final(s)@ == old(s)@ + ligne_sdj(*g, mid),
{
    let b = Delimiter::Brackets;
    let sg = g.get_sous_groupe_for(mid);
    proof {
        let drapeaux = g.sous_groupe@.map_values(
            |sg: SousGroupe| sg.participants.vue().contains(mid),
        );
        match sg {
            Some(x) => {
                let i = choose|i: int|
                    0 <= i < g.sous_groupe@.len() && *x == g.sous_groupe@[i]
                        && x.participants.vue().contains(mid) && forall|j: int|
                        0 <= j < i ==> !(#[trigger] g.sous_groupe@[j]).participants.vue().contains(
                            mid,
                        );
                lemme_premier_rang(drapeaux, true, i);
            },
            None => {
                lemme_premier_rang_absent(drapeaux, true);
            },
        }
    }
    let animateur: Option<&str> = match sg {
        Some(x) => opt_ref(&x.animateur),
        None => None,
    };
    let profil: Option<&str> = match sg {
        Some(x) => match &x.profil {
            Some(p) => Some(p.as_str()),
            None => None,
        },
        None => None,
    };
    let mut t = String::new();
    pousse_car(&mut t, '"');
    t.append(mid.to_string().as_str());
    t.append("\": new_groupe(categorie: ");
    t.append(po(opt_ref(&g.category), b).as_str());
    t.append(", discriminant: ");
    t.append(po(opt_ref(&g.discriminant), b).as_str());
    t.append(", animateur: ");
    t.append(po(animateur, b).as_str());
    t.append(", profil: ");
    t.append(po(profil, b).as_str());
    t.append("),\n");
    assert(t@ =~= ligne_sdj(*g, mid));
    s.append(t.as_str());
}

fn ecrit_groupe_sdj(s: &mut String, vus: &mut Ensemble, g: &Groupe)
    ensures
        final(s)@ == old(s)@ + lignes_sdj(*g, g.participants.vue().len() as int),
        final(vus).vue() == ajoute_tous(old(vus).vue(), g.participants.vue()),
{
    let n = g.participants.len();
    let mut k: usize = 0;
    let ghost ids = g.participants.vue();
    assert(ids.take(0) =~= Seq::<MembreID>::empty());
    while k < n
        invariant
            k <= n,
            n == g.participants.vue().len(),
            ids == g.participants.vue(),
            s@ == old(s)@ + lignes_sdj(*g, k as int),
            vus.vue() == ajoute_tous(old(vus).vue(), ids.take(k as int)),
        decreases n - k,
    {
        let p = g.participants.get(k);
        proof {
            assert(ids.take(k + 1).drop_last() =~= ids.take(k as int));
            assert(ids.take(k + 1).last() == p);
        }
        vus.insert(p);
        ecrit_ligne_sdj(s, g, p);
        assert(s@ =~= old(s)@ + lignes_sdj(*g, k + 1));
        k += 1;
    }
    assert(ids.take(n as int) =~= ids);
}

/// The directory of the attendance sheets of the day care of `info`.
pub open spec fn dossier_presence_sdj(config: Config, info: PresenceSDJInfo) -> Seq<char> {
    tirets(
        config.out_dir@ + seq!['/'] + ou_none(vue_opt_str(info.saison)) + seq!['/'] + ou_none(
            vue_opt_str(info.site),
        ) + "/sdj"@,
    )
}

/// The name of the file of the attendance sheet of the day care of `info`.
pub open spec fn nom_presence_sdj(info: PresenceSDJInfo) -> Seq<char> {
    tirets(
        "presence_sdj_"@ + ou_none(vue_opt_str(info.saison)) + seq!['_'] + ou_none(
            vue_opt_str(info.site),
        ) + "_sem"@ + ou_none(vue_opt_str(info.semaine)) + ".pdf"@,
    )
}

/// The Typst source of the attendance sheet of the day care of `info`, for
/// the groups `gs` and the members `ms`.
pub open spec fn source_presence_sdj(
    info: PresenceSDJInfo,
    gs: Seq<Groupe>,
    ms: Seq<Membre>,
    comptes: CompteReg,
    nul: Compte,
    aujourdhui: Date,
) -> Seq<char> {
    let b = Delimiter::Brackets;
    "#import \"template.typ\": *\n#let site = "@ + delimite(vue_opt_str(info.site), b)
        + "\n#let saison = "@ + delimite(vue_opt_str(info.saison), b) + "\n#let semaine = "@
        + delimite(vue_opt_str(info.semaine), b) + "\n#let groupes = (\n"@ + groupes_sdj(gs, info)
        + ")\n#let participants = (\n"@ + enfants_typst(ms, comptes, nul, aujourdhui)
        + ")\n#show: it => presence_sdj(\n\tsite: site,\n\tsaison: saison,\n\tsemaine: semaine,\n\tgroupes: groupes,\n\tparticipants: participants,\n)"@
}

fn str_ou_none(s: &mut String, o: Option<&str>)
    ensures
        final(s)@ == old(s)@ + ou_none(vue_opt_str(o)),
{
    match o {
        Some(t) => s.append(t),
        None => s.append("none"),
    }
}

fn collecte_sdj(groupes: &GroupeReg, info: &PresenceSDJInfo) -> (r: (String, Ensemble))
    requires
        groupes.wf(),
    ensures
        r.0@ == groupes_sdj(groupes.registre().items(), *info),
        r.1.vue() == inscrits_sdj(groupes.registre().items(), *info),
{
    let mut lignes = String::new();
    let mut vus = Ensemble::new();
    let mut it = groupes.groupes();
    let ghost gs = groupes.registre().items();
    let mut k: usize = 0;
    let n = groupes.len();
    assert(gs.take(0) =~= Seq::<Groupe>::empty());
    assert(gs.skip(0) =~= gs);
    while k < n
        invariant
            k <= n,
            n == gs.len(),
            it.restants() == gs.skip(k as int),
            lignes@ == groupes_sdj(gs.take(k as int), *info),
            vus.vue() == inscrits_sdj(gs.take(k as int), *info),
        decreases n - k,
    {
        proof {
            assert(gs.skip(k as int).len() > 0);
            assert(gs.skip(k as int)[0] == gs[k as int]);
            assert(gs.skip(k as int).drop_first() =~= gs.skip(k + 1));
            assert(gs.take(k + 1).drop_last() =~= gs.take(k as int));
            assert(gs.take(k + 1).last() == gs[k as int]);
        }
        if let Some(g) = it.next() {
            if filter_grp(g, info) {
                ecrit_groupe_sdj(&mut lignes, &mut vus, g);
            }
        }
        k += 1;
    }
    assert(gs.take(n as int) =~= gs);
    (lignes, vus)
}

fn chemins_sdj(config: &Config, info: &PresenceSDJInfo) -> (r: (String, String))
    ensures
        r.0@ == dossier_presence_sdj(*config, *info),
        r.1@ == r.0@ + seq!['/'] + nom_presence_sdj(*info),
{
    let mut d = config.out_dir.clone();
    pousse_car(&mut d, '/');
    str_ou_none(&mut d, info.saison);
    pousse_car(&mut d, '/');
    str_ou_none(&mut d, info.site);
    d.append("/sdj");
    assert(d@ =~= config.out_dir@ + seq!['/'] + ou_none(vue_opt_str(info.saison)) + seq!['/']
        + ou_none(vue_opt_str(info.site)) + "/sdj"@);
    let dir = sans_espaces(d.as_str());
    let mut f = String::from_str("presence_sdj_");
    str_ou_none(&mut f, info.saison);
    pousse_car(&mut f, '_');
    str_ou_none(&mut f, info.site);
    f.append("_sem");
    str_ou_none(&mut f, info.semaine);
    f.append(".pdf");
    assert(f@ =~= "presence_sdj_"@ + ou_none(vue_opt_str(info.saison)) + seq!['_'] + ou_none(
        vue_opt_str(info.site),
    ) + "_sem"@ + ou_none(vue_opt_str(info.semaine)) + ".pdf"@);
    let mut out_file = dir.clone();
    pousse_car(&mut out_file, '/');
    out_file.append(sans_espaces(f.as_str()).as_str());
    (dir, out_file)
}

fn ecrit_source_sdj(info: &PresenceSDJInfo, lignes: &str, enfants: &str) -> (source: String)
    ensures
        source@ == "#import \"template.typ\": *\n#let site = "@ + delimite(
            vue_opt_str(info.site),
            Delimiter::Brackets,
        ) + "\n#let saison = "@ + delimite(vue_opt_str(info.saison), Delimiter::Brackets)
            + "\n#let semaine = "@ + delimite(vue_opt_str(info.semaine), Delimiter::Brackets)
            + "\n#let groupes = (\n"@ + lignes@ + ")\n#let participants = (\n"@ + enfants@
            + ")\n#show: it => presence_sdj(\n\tsite: site,\n\tsaison: saison,\n\tsemaine: semaine,\n\tgroupes: groupes,\n\tparticipants: participants,\n)"@,
{
    let b = Delimiter::Brackets;
    let mut source = String::from_str("#import \"template.typ\": *\n#let site = ");
    source.append(po(info.site, b).as_str());
    source.append("\n#let saison = ");
    source.append(po(info.saison, b).as_str());
    source.append("\n#let semaine = ");
    source.append(po(info.semaine, b).as_str());
    source.append("\n#let groupes = (\n");
    source.append(lignes);
    source.append(")\n#let participants = (\n");
    source.append(enfants);
    source.append(
        ")\n#show: it => presence_sdj(\n\tsite: site,\n\tsaison: saison,\n\tsemaine: semaine,\n\tgroupes: groupes,\n\tparticipants: participants,\n)",
    );
    source
}

/// What it takes to print the attendance sheet of the day care of `info`: the
/// participants of all groups of that season, site and week, each once, in the
/// order of names. Fails on the first participant that the registry of
/// members lacks, or else on the first account that the registry of accounts
/// lacks.
pub fn print_presence_sdj(
    info: &PresenceSDJInfo,
    groupes: &GroupeReg,
    membres: &MembreReg,
    comptes: &CompteReg,
    nul: &Compte,
    config: &Config,
    aujourdhui: &Date,
) -> (r: Result<Impression, PrintError>)
    requires
        groupes.wf(),
        membres.wf(),
        comptes.wf(),
    ensures
        ({
            let gs = groupes.registre().items();
            let ids = inscrits_sdj(gs, *info);
            let ms = tri_noms(resolus(ids, *membres));
            match r {
                Ok(imp) => {
                    &&& premier_rang(inscrits(ids, *membres), false) is None
                    &&& premier_rang(comptes_presents(ms, *comptes), false) is None
                    &&& imp.dir@ == dossier_presence_sdj(*config, *info)
                    &&& imp.out_file@ == imp.dir@ + seq!['/'] + nom_presence_sdj(*info)
                    &&& imp.tmp_dir@ == dossier_source(*config)
                    &&& imp.tmp_file@ == fichier_source(*config)
                    &&& imp.source@ == source_presence_sdj(
                        *info,
                        gs,
                        ms,
                        *comptes,
                        *nul,
                        *aujourdhui,
                    )
                },
                Err(PrintError::MembreInexistant(id)) => premier_rang(
                    inscrits(ids, *membres),
                    false,
                ) matches Some(i) && id == ids[i],
                Err(PrintError::CompteInexistant(c)) => {
                    &&& premier_rang(inscrits(ids, *membres), false) is None
                    &&& premier_rang(comptes_presents(ms, *comptes), false) matches Some(i)
                    &&& ms[i].compte == Some(c)
                },
            }
        }),
{
    let (lignes, vus) = collecte_sdj(groupes, info);
    let ps = match resout_membres(&vus, membres) {
        Ok(v) => trie_par_nom(&v),
        Err(id) => return Err(PrintError::MembreInexistant(id)),
    };
    let enfants = match ecrit_enfants(&ps, comptes, nul, aujourdhui) {
        Ok(s) => s,
        Err(c) => return Err(PrintError::CompteInexistant(c)),
    };
    let (dir, out_file) = chemins_sdj(config, info);
    let (tmp_dir, tmp_file) = ecrit_dossier_source(config);
    let source = ecrit_source_sdj(info, lignes.as_str(), enfants.as_str());
    Ok(Impression { dir, out_file, tmp_dir, tmp_file, source })
}

} // verus!
