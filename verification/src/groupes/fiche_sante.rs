//! The health file of a member.

use crate::data::cam::CAM;
use crate::data::BoolJustifie;
use vstd::prelude::*;

verus! {

/// The illness "asthma", as it is written in a health file.
pub const MAL_ASTHME: &'static str = "Asthme";

/// The illness "diabetes", as it is written in a health file.
pub const MAL_DIABETE: &'static str = "Diabète";

/// The illness "haemophilia", as it is written in a health file.
pub const MAL_EMOPHILIE: &'static str = "Émophilie";

/// The illness "epilepsy", as it is written in a health file.
pub const MAL_EPILEPSIE: &'static str = "Épilepsie";

/// The allergy to food, as it is written in a health file.
pub const ALL_ALIMENTAIRE: &'static str = "Alimentaire";

/// The allergy to animals, as it is written in a health file.
pub const ALL_ANIMAUX: &'static str = "Animaux";

/// The allergy to insects, as it is written in a health file.
pub const ALL_INSECTES: &'static str = "Insectes";

/// The allergy to penicillin, as it is written in a health file.
pub const ALL_PENICILINE: &'static str = "Péniciline";

/// Which medicines the camp may give to a member; each answer may be missing.
#[derive(Debug, Clone, Copy)]
pub struct Medicaments {
    pub sirop_toux: Option<bool>,
    pub anti_emetique: Option<bool>,
    pub ibuprofene: Option<bool>,
    pub anti_inflamatoire: Option<bool>,
    pub anti_biotique: Option<bool>,
    pub acetaminophene: Option<bool>,
}

impl Default for Medicaments {
    /// No answer at all.
    fn default() -> (m: Self)
        ensures
            m.sirop_toux is None,
            m.anti_emetique is None,
            m.ibuprofene is None,
            m.anti_inflamatoire is None,
            m.anti_biotique is None,
            m.acetaminophene is None,
    {
        Medicaments {
            sirop_toux: None,
            anti_emetique: None,
            ibuprofene: None,
            anti_inflamatoire: None,
            anti_biotique: None,
            acetaminophene: None,
        }
    }
}

/// What the camp knows of the health of a member.
#[derive(Debug, Clone)]
pub struct FicheSante {
    pub allergies: Vec<String>,
    pub maladies: Vec<String>,
    pub auth_soins: Option<bool>,
    pub probleme_comportement: Option<BoolJustifie>,
    pub cam: Option<CAM>,
    pub prise_med: Option<BoolJustifie>,
    pub auth_medicaments: Medicaments,
}

impl Default for FicheSante {
    /// The empty health file.
    fn default() -> (f: Self)
        ensures
            f.allergies@.len() == 0,
            f.maladies@.len() == 0,
            f.auth_soins is None,
            f.probleme_comportement is None,
            f.cam is None,
            f.prise_med is None,
            f.auth_medicaments.sirop_toux is None,
            f.auth_medicaments.anti_emetique is None,
            f.auth_medicaments.ibuprofene is None,
            f.auth_medicaments.anti_inflamatoire is None,
            f.auth_medicaments.anti_biotique is None,
            f.auth_medicaments.acetaminophene is None,
    {
        FicheSante {
            allergies: Vec::new(),
            maladies: Vec::new(),
            auth_soins: None,
            probleme_comportement: None,
            cam: None,
            prise_med: None,
            auth_medicaments: Medicaments::default(),
        }
    }
}

} // verus!
