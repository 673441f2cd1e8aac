//! Reading records from the cells of a spreadsheet.

use vstd::prelude::*;
use vstd::string::StringExecFns;

pub mod excel;
pub mod presence;
pub mod prog;
pub mod suivi;

verus! {

/// Why a sheet or a line of a sheet could not be read.
#[derive(Debug, Clone, Copy)]
pub enum ExtractError {
    /// The cell or the sheet does not have the form it should have.
    InvalidFormat,
    /// The name of the group does not have the form it should have.
    InvalidGroupNameFormat,
    /// The file could not be read.
    CouldNotReadFile,
    /// Something that must be known is missing; the variant names it.
    MissingInformations(&'static str),
}

impl ExtractError {
    /// The error as it is shown.
    pub open spec fn texte(&self) -> Seq<char> {
        "ExtractError: "@ + match self {
            ExtractError::InvalidFormat => "Format de donnée invalide"@,
            ExtractError::InvalidGroupNameFormat => "Nom de groupe invalide"@,
            ExtractError::CouldNotReadFile => "N'a pu lire le fichier"@,
            ExtractError::MissingInformations(s) => "Information manquante ("@ + s@ + ")"@,
        }
    }

    /// The error as it is shown.
    pub fn to_string(&self) -> (s: String)
        ensures
            s@ == self.texte(),
    {
        let mut s = String::from_str("ExtractError: ");
        match self {
            ExtractError::InvalidFormat => s.append("Format de donnée invalide"),
            ExtractError::InvalidGroupNameFormat => s.append("Nom de groupe invalide"),
            ExtractError::CouldNotReadFile => s.append("N'a pu lire le fichier"),
            ExtractError::MissingInformations(m) => {
                s.append("Information manquante (");
                s.append(m);
                s.append(")");
                assert(s@ =~= self.texte());
            },
        }
        s
    }
}

/// The texts that stand for "yes" in a cell.
pub const TRUE_DATA_RE: &'static str = "^(?i)(?:oui|true|vrai|yes|o|y|v|t)$";

/// The texts that stand for "no" in a cell.
pub const FALSE_DATA_RE: &'static str = "^(?i)(?:non|false|no|faux|n|f)$";

/// A "yes" or a "no", with a remark behind a comma if need be. Group 1 is the
/// answer, group 3 the remark.
pub const BOOL_W_COMMENT_DATA_RE: &'static str =
    r"^(?i)(?P<bool>oui|true|vrai|yes|o|y|v|t|non|false|no|faux|n|f)(:?\s*,\s*(?P<comment>(?:.|\n)+)\s*)?";

/// The title of a sheet: activity, site, age range and week. Group 1 is the
/// activity, group 2 the site, groups 3 and 4 the ages, group 5 the week.
pub const GROUPE_RE: &'static str =
    r"^(?i)\s*(?P<activite>[^|]+?)\s*\|\s*(?P<site>[^|]+?)\s*\|\s*(?P<grage_min>\d+)\s*(?:-\s*)?(?P<grage_max>\d+)\s*ans\s*\|\s*(?:sem|semaine)\.?\s*(?P<semaine>\d+)\s*$";

/// The line that names the season of a sheet, in group 1.
pub const GROUPE_PROG_RE: &'static str = r"^(?i)Programmation:\s*(?P<prog>.*)\s*$";

/// A birth date: year, month and day in groups 1, 2 and 3.
pub const DATE_NAISSANCE_RE: &'static str = r"(?P<an>\d{4})-(?P<mois>\d{2})-(?P<jour>\d{2})";

/// What the reading looks at in a cell that holds a number with a fraction.
#[derive(Debug, Clone)]
pub struct Flottant {
    /// The number as it is printed.
    pub texte: String,
    /// The number without its fraction, brought into the range of `i64`.
    pub tronque: i64,
    /// Whether the number is zero.
    pub nul: bool,
}

/// A cell of a spreadsheet.
#[derive(Debug, Clone)]
pub enum Cellule {
    /// A whole number.
    Int(i64),
    /// A number with a fraction.
    Float(Flottant),
    /// A text.
    String(String),
    /// A truth value.
    Bool(bool),
    /// An error of the spreadsheet.
    Error,
    /// Nothing.
    Empty,
}

/// A rectangle of cells: the used part of a sheet.
#[derive(Debug)]
pub struct Plage {
    lignes: Vec<Vec<Cellule>>,
    largeur: usize,
}

impl Plage {
    /// The lines of the rectangle, top first.
    pub closed spec fn lignes(&self) -> Seq<Vec<Cellule>> {
        self.lignes@
    }

    /// The number of cells in each line.
    pub closed spec fn largeur(&self) -> nat {
        self.largeur as nat
    }

    #[verifier::type_invariant]
    spec fn inv(self) -> bool {
        forall|i: int| 0 <= i < self.lignes@.len() ==> (#[trigger] self.lignes@[i])@.len()
            == self.largeur
    }

    /// The rectangle made of `lignes`, if they all have `largeur` cells.
    pub fn new(lignes: Vec<Vec<Cellule>>, largeur: usize) -> (r: Option<Plage>)
        ensures
            r is Some <==> forall|i: int|
                0 <= i < lignes@.len() ==> (#[trigger] lignes@[i])@.len() == largeur,
            r matches Some(p) ==> p.lignes() == lignes@ && p.largeur() == largeur,
    {
        let mut i: usize = 0;
        while i < lignes.len()
            invariant
                i <= lignes@.len(),
                forall|j: int| 0 <= j < i ==> (#[trigger] lignes@[j])@.len() == largeur,
            decreases lignes@.len() - i,
        {
            if lignes[i].len() != largeur {
                return None;
            }
            i += 1;
        }
        Some(Plage { lignes, largeur })
    }

    /// Height and width of the rectangle.
    pub fn get_size(&self) -> (r: (usize, usize))
        ensures
            r.0 == self.lignes().len(),
            r.1 == self.largeur(),
            forall|i: int| 0 <= i < self.lignes().len() ==> (#[trigger] self.lignes()[i])@.len()
                == self.largeur(),
    {
        proof {
            use_type_invariant(self);
        }
        (self.lignes.len(), self.largeur)
    }

    /// The cell in line `i` and column `j`, if the rectangle reaches that far.
    pub fn get_value(&self, i: usize, j: usize) -> (r: Option<&Cellule>)
        ensures
            r is Some <==> i < self.lignes().len() && j < self.largeur(),
            r matches Some(c) ==> *c == self.lignes()[i as int]@[j as int],
    {
        proof {
            use_type_invariant(self);
        }
        if i < self.lignes.len() && j < self.largeur {
            Some(&self.lignes[i][j])
        } else {
            None
        }
    }

    /// Line `i` of the rectangle.
    pub fn ligne(&self, i: usize) -> (r: &Vec<Cellule>)
        requires
            i < self.lignes().len(),
        ensures
            *r == self.lignes()[i as int],
            r@.len() == self.largeur(),
    {
        proof {
            use_type_invariant(self);
        }
        &self.lignes[i]
    }
}

/// A sheet of a workbook: its name and its cells.
#[derive(Debug)]
pub struct Feuille {
    pub nom: String,
    pub plage: Plage,
}

/// Something to tell whoever runs the reading.
#[derive(Debug, Clone)]
pub enum Message {
    /// What is being done.
    Info(String),
    /// What went wrong.
    Erreur(String),
}

impl Message {
    /// What the message says.
    pub open spec fn texte(&self) -> Seq<char> {
        match self {
            Message::Info(t) => t@,
            Message::Erreur(t) => t@,
        }
    }

    /// The message as a plain value: whether it reports something that went
    /// wrong, and what it says.
    pub open spec fn note(&self) -> (bool, Seq<char>) {
        (self is Erreur, self.texte())
    }
}

/// The messages of a journal as plain values, in their order.
pub open spec fn notes(journal: Seq<Message>) -> Seq<(bool, Seq<char>)> {
    journal.map_values(|m: Message| m.note())
}

} // verus!
