//! What the head of a sheet of attendance says of its group, before it is
//! made sense of.

use crate::groupes::groupes::{ajoute_joint, joint};
use crate::texte::vue_opt;
use vstd::prelude::*;
use vstd::string::StringExecFns;

verus! {

/// Where the head of a sheet holds each piece of information on its group:
/// line and column.
pub struct GroupeExtractConfig {
    pub nom: (usize, usize),
    pub saison: (usize, usize),
    pub sous_groupe: (usize, usize),
    pub responsable: (usize, usize),
    pub profil: (usize, usize),
}

impl Default for GroupeExtractConfig {
    /// Everything in the first column: the name on line 0, the sub-group on
    /// line 1, the season on line 2, the profile on line 3 and who is in
    /// charge on line 4.
    fn default() -> (c: Self)
        ensures
            c.nom == (0usize, 0usize),
            c.saison == (2usize, 0usize),
            c.sous_groupe == (1usize, 0usize),
            c.responsable == (4usize, 0usize),
            c.profil == (3usize, 0usize),
    {
        GroupeExtractConfig {
            nom: (0, 0),
            saison: (2, 0),
            sous_groupe: (1, 0),
            responsable: (4, 0),
            profil: (3, 0),
        }
    }
}

/// What the head of a sheet says of its group.
pub struct GroupeExtractData {
    /// The name of the group.
    pub nom: String,
    /// The group as its name describes it.
    pub desc: String,
    pub saison: Option<String>,
    pub sous_groupe: Option<String>,
    pub responsable: Option<String>,
    pub profil: Option<String>,
}

/// The details of a group as they are shown: the sub-group, "respo " and who
/// is in charge, "profil " and the profile.
pub open spec fn parts_details(
    sous_groupe: Option<Seq<char>>,
    responsable: Option<Seq<char>>,
    profil: Option<Seq<char>>,
) -> Seq<Option<Seq<char>>> {
    seq![
        sous_groupe,
        match responsable {
            Some(r) => Some("respo "@ + r),
            None => None,
        },
        match profil {
            Some(p) => Some("profil "@ + p),
            None => None,
        },
    ]
}

/// The details of a group between brackets: those that are known, with " | "
/// between them. Nothing at all if none is known.
pub open spec fn details(
    sous_groupe: Option<Seq<char>>,
    responsable: Option<Seq<char>>,
    profil: Option<Seq<char>>,
) -> Seq<char> {
    if sous_groupe is None && responsable is None && profil is None {
        Seq::empty()
    } else {
        " ("@ + joint(parts_details(sous_groupe, responsable, profil), false).0 + ")"@
    }
}

fn ecrit_details(
    sous_groupe: &Option<String>,
    responsable: &Option<String>,
    profil: &Option<String>,
) -> (s: String)
    ensures
        s@ == joint(
            parts_details(vue_opt(*sous_groupe), vue_opt(*responsable), vue_opt(*profil)),
            false,
        ).0,
{
    let mut s = String::new();
    let mut suite = false;
    let ghost parts = parts_details(
        vue_opt(*sous_groupe),
        vue_opt(*responsable),
        vue_opt(*profil),
    );
    proof {
        reveal_with_fuel(joint, 4);
    }
    assert(parts.take(0) =~= Seq::<Option<Seq<char>>>::empty());
    if let Some(sg) = sous_groupe {
        ajoute_joint(&mut s, &mut suite, sg.as_str());
    }
    assert(parts.take(1).drop_last() =~= parts.take(0));
    assert((s@, suite) == joint(parts.take(1), false));
    if let Some(resp) = responsable {
        let mut t = String::from_str("respo ");
        t.append(resp.as_str());
        ajoute_joint(&mut s, &mut suite, t.as_str());
    }
    assert(parts.take(2).drop_last() =~= parts.take(1));
    assert((s@, suite) == joint(parts.take(2), false));
    if let Some(pro) = profil {
        let mut t = String::from_str("profil ");
        t.append(pro.as_str());
        ajoute_joint(&mut s, &mut suite, t.as_str());
    }
    assert(parts.take(3).drop_last() =~= parts.take(2));
    assert(parts.take(3) =~= parts);
    s
}

impl GroupeExtractData {
    /// The group in one line: the season if it is known, the description, and
    /// the details between brackets.
    pub open spec fn texte(&self) -> Seq<char> {
        (match self.saison {
            None => self.desc@,
            Some(saison) => saison@ + " "@ + self.desc@,
        }) + details(vue_opt(self.sous_groupe), vue_opt(self.responsable), vue_opt(self.profil))
    }

    /// The group in one line.
    pub fn to_string(&self) -> (s: String)
        ensures
            s@ == self.texte(),
    {
        let mut s = match &self.saison {
            None => self.desc.clone(),
            Some(saison) => {
                let mut t = saison.clone();
                t.append(" ");
                t.append(self.desc.as_str());
                t
            },
        };
        if self.sous_groupe.is_some() || self.responsable.is_some() || self.profil.is_some() {
            s.append(" (");
            s.append(ecrit_details(&self.sous_groupe, &self.responsable, &self.profil).as_str());
            s.append(")");
        }
        assert(s@ =~= self.texte());
        s
    }
}

} // verus!
