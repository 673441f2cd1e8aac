//! The field values that records are made of.

use crate::texte::{decimal, ecrit_decimal, minuscules, str_egal, to_lowercase, vue_opt};
use vstd::prelude::*;
use vstd::string::StringExecFns;

pub mod adresse;
pub mod cam;
pub mod email;
pub mod tel;

verus! {

/// The gender of a member.
#[derive(Clone, Copy, PartialEq, Eq, Structural, PartialOrd, Ord, Debug)]
pub enum Genre {
    Homme,
    Femme,
    Autre,
}

impl Default for Genre {
    fn default() -> (g: Self)
        ensures
            g == Genre::Homme,
    {
        Genre::Homme
    }
}

impl Genre {
    /// The name of the gender.
    pub open spec fn nom(self) -> Seq<char> {
        match self {
            Genre::Autre => "Autre"@,
            Genre::Homme => "Homme"@,
            Genre::Femme => "Femme"@,
        }
    }

    /// The name of the gender.
    pub fn to_string(&self) -> (s: String)
        ensures
            s@ == self.nom(),
    {
        match self {
            Genre::Autre => String::from_str("Autre"),
            Genre::Homme => String::from_str("Homme"),
            Genre::Femme => String::from_str("Femme"),
        }
    }

    /// The gender that the lower-case name `m` stands for.
    pub open spec fn du_nom(m: Seq<char>) -> Option<Genre> {
        if m == "homme"@ {
            Some(Genre::Homme)
        } else if m == "femme"@ {
            Some(Genre::Femme)
        } else if m == "autre"@ {
            Some(Genre::Autre)
        } else {
            None
        }
    }

    /// The gender that the text `t` names, whatever its case.
    pub open spec fn nomme(t: Seq<char>) -> Option<Genre> {
        Genre::du_nom(minuscules(t))
    }

    /// The gender that the lower-case name `m` stands for, if it is one.
    pub fn from_lower(m: &str) -> (r: Option<Genre>)
        ensures
            r == Genre::du_nom(m@),
    {
        if str_egal(m, "homme") {
            Some(Genre::Homme)
        } else if str_egal(m, "femme") {
            Some(Genre::Femme)
        } else if str_egal(m, "autre") {
            Some(Genre::Autre)
        } else {
            None
        }
    }

    /// Reads a gender from its name, whatever its case.
    pub fn from_str(s: &str) -> (r: ParsingResult<Genre>)
        ensures
            match r {
                Ok(g) => Genre::nomme(s@) == Some(g),
                Err(e) => Genre::nomme(s@) is None && e.msg() == Some("N'a pu lire le genre"@)
                    && e.at() is None && e.src() is None,
            },
    {
        let m = to_lowercase(s);
        match Genre::from_lower(m.as_str()) {
            Some(g) => Ok(g),
            None => Err(ParsingError::from_msg("N'a pu lire le genre")),
        }
    }
}

/// A clothing size.
#[derive(Clone, Copy, PartialEq, Eq, Structural, PartialOrd, Ord, Debug)]
pub enum Taille {
    XS,
    S,
    M,
    L,
    XL,
    XXL,
}

impl Taille {
    /// The name of the size.
    pub open spec fn nom(self) -> Seq<char> {
        match self {
            Taille::XS => "XS"@,
            Taille::S => "S"@,
            Taille::M => "M"@,
            Taille::L => "L"@,
            Taille::XL => "XL"@,
            Taille::XXL => "XXL"@,
        }
    }

    /// The name of the size.
    pub fn to_string(&self) -> (s: String)
        ensures
            s@ == self.nom(),
    {
        match self {
            Taille::XS => String::from_str("XS"),
            Taille::S => String::from_str("S"),
            Taille::M => String::from_str("M"),
            Taille::L => String::from_str("L"),
            Taille::XL => String::from_str("XL"),
            Taille::XXL => String::from_str("XXL"),
        }
    }

    /// The sizes, smallest first.
    pub open spec fn toutes() -> Seq<Taille> {
        seq![Taille::XS, Taille::S, Taille::M, Taille::L, Taille::XL, Taille::XXL]
    }

    /// The sizes, smallest first.
    pub fn tailles() -> (v: [Taille; 6])
        ensures
            v@ == Taille::toutes(),
    {
        let v = [Taille::XS, Taille::S, Taille::M, Taille::L, Taille::XL, Taille::XXL];
        assert(v@ =~= Taille::toutes());
        v
    }

    /// The place of the size among the sizes, from 0 for the smallest.
    pub fn rang(&self) -> (i: usize)
        ensures
            i < 6,
            Taille::toutes()[i as int] == *self,
    {
        match self {
            Taille::XS => 0,
            Taille::S => 1,
            Taille::M => 2,
            Taille::L => 3,
            Taille::XL => 4,
            Taille::XXL => 5,
        }
    }

    /// The size that the lower-case name `m` stands for.
    pub open spec fn du_nom(m: Seq<char>) -> Option<Taille> {
        if m == "xs"@ {
            Some(Taille::XS)
        } else if m == "s"@ {
            Some(Taille::S)
        } else if m == "m"@ {
            Some(Taille::M)
        } else if m == "l"@ {
            Some(Taille::L)
        } else if m == "xl"@ {
            Some(Taille::XL)
        } else if m == "xxl"@ {
            Some(Taille::XXL)
        } else {
            None
        }
    }

    /// The size that the text `t` names, whatever its case.
    pub open spec fn nomme(t: Seq<char>) -> Option<Taille> {
        Taille::du_nom(minuscules(t))
    }

    /// The size that the lower-case name `m` stands for, if it is one.
    pub fn from_lower(m: &str) -> (r: Option<Taille>)
        ensures
            r == Taille::du_nom(m@),
    {
        if str_egal(m, "xs") {
            Some(Taille::XS)
        } else if str_egal(m, "s") {
            Some(Taille::S)
        } else if str_egal(m, "m") {
            Some(Taille::M)
        } else if str_egal(m, "l") {
            Some(Taille::L)
        } else if str_egal(m, "xl") {
            Some(Taille::XL)
        } else if str_egal(m, "xxl") {
            Some(Taille::XXL)
        } else {
            None
        }
    }

    /// Reads a size from its name, whatever its case.
    pub fn from_str(s: &str) -> (r: ParsingResult<Taille>)
        ensures
            match r {
                Ok(t) => Taille::nomme(s@) == Some(t),
                Err(e) => Taille::nomme(s@) is None && e.msg() == Some("N'a pu lire la taille"@)
                    && e.at() is None && e.src() is None,
            },
    {
        let m = to_lowercase(s);
        match Taille::from_lower(m.as_str()) {
            Some(t) => Ok(t),
            None => Err(ParsingError::from_msg("N'a pu lire la taille")),
        }
    }
}

/// A yes or no answer together with the reason given for it.
#[derive(Debug, Clone)]
pub struct BoolJustifie {
    pub reponse: bool,
    pub justification: Option<String>,
}

/// A reading error in one line: "ParsingError", then " at char " and the
/// position `at` if there is one, then ": " and the message `msg` if there is
/// one.
pub open spec fn texte_erreur(at: Option<usize>, msg: Option<Seq<char>>) -> Seq<char> {
    "ParsingError"@ + (match at {
        Some(at) => " at char "@ + decimal(at as nat),
        None => Seq::<char>::empty(),
    }) + (match msg {
        Some(m) => ": "@ + m,
        None => Seq::<char>::empty(),
    })
}

/// Why a text could not be read as the value it should hold.
#[derive(Debug)]
pub struct ParsingError {
    msg: Option<String>,
    at: Option<usize>,
    src: Option<String>,
}

impl ParsingError {
    /// What went wrong, if it was said.
    pub closed spec fn msg(&self) -> Option<Seq<char>> {
        vue_opt(self.msg)
    }

    /// The position in the text where it went wrong, if it is known.
    pub closed spec fn at(&self) -> Option<usize> {
        self.at
    }

    /// The description of the error that caused this one, if there was one.
    pub closed spec fn src(&self) -> Option<Seq<char>> {
        vue_opt(self.src)
    }

    /// An error with the given message, position and cause.
    pub fn new(msg: Option<String>, at: Option<usize>, src: Option<String>) -> (e: Self)
        ensures
            e.msg() == vue_opt(msg),
            e.at() == at,
            e.src() == vue_opt(src),
    {
        ParsingError { msg, at, src }
    }

    /// An error that only carries a message.
    pub fn from_msg(msg: &str) -> (e: Self)
        ensures
            e.msg() == Some(msg@),
            e.at() is None,
            e.src() is None,
    {
        ParsingError { msg: Some(String::from_str(msg)), at: None, src: None }
    }

    /// An error with a message and the position it speaks of.
    pub fn from_msg_at(msg: &str, at: usize) -> (e: Self)
        ensures
            e.msg() == Some(msg@),
            e.at() == Some(at),
            e.src() is None,
    {
        ParsingError { msg: Some(String::from_str(msg)), at: Some(at), src: None }
    }

    /// An error that only carries a position.
    pub fn from_at(at: usize) -> (e: Self)
        ensures
            e.msg() is None,
            e.at() == Some(at),
            e.src() is None,
    {
        ParsingError { msg: None, at: Some(at), src: None }
    }

    /// An error that only carries its cause.
    pub fn from_src(src: &str) -> (e: Self)
        ensures
            e.msg() is None,
            e.at() is None,
            e.src() == Some(src@),
    {
        ParsingError { msg: None, at: None, src: Some(String::from_str(src)) }
    }

    /// An error with a message and its cause.
    pub fn from_msg_src(msg: &str, src: &str) -> (e: Self)
        ensures
            e.msg() == Some(msg@),
            e.at() is None,
            e.src() == Some(src@),
    {
        ParsingError { msg: Some(String::from_str(msg)), at: None, src: Some(String::from_str(src)) }
    }

    /// An error with its cause and the position it speaks of.
    pub fn from_src_at(src: &str, at: usize) -> (e: Self)
        ensures
            e.msg() is None,
            e.at() == Some(at),
            e.src() == Some(src@),
    {
        ParsingError { msg: None, at: Some(at), src: Some(String::from_str(src)) }
    }

    /// An error with a message, its cause and the position it speaks of.
    pub fn from_msg_src_at(msg: &str, src: &str, at: usize) -> (e: Self)
        ensures
            e.msg() == Some(msg@),
            e.at() == Some(at),
            e.src() == Some(src@),
    {
        ParsingError {
            msg: Some(String::from_str(msg)),
            at: Some(at),
            src: Some(String::from_str(src)),
        }
    }

    /// The message of the error, if it has one.
    pub fn message(&self) -> (m: Option<&str>)
        ensures
            match m {
                Some(s) => self.msg() == Some(s@),
                None => self.msg() is None,
            },
    {
        match &self.msg {
            Some(s) => Some(s.as_str()),
            None => None,
        }
    }

    /// The position the error speaks of, if it has one.
    pub fn position(&self) -> (p: Option<usize>)
        ensures
            p == self.at(),
    {
        self.at
    }

    /// The description of the cause of the error, if it has one.
    pub fn source(&self) -> (m: Option<&str>)
        ensures
            match m {
                Some(s) => self.src() == Some(s@),
                None => self.src() is None,
            },
    {
        match &self.src {
            Some(s) => Some(s.as_str()),
            None => None,
        }
    }

    /// The error in one line: "ParsingError", then " at char " and the
    /// position if there is one, then ": " and the message if there is one.
    pub open spec fn texte(&self) -> Seq<char> {
        texte_erreur(self.at(), self.msg())
    }

    /// The error in one line.
    pub fn to_string(&self) -> (s: String)
        ensures
            s@ == self.texte(),
    {
        let mut s = String::from_str("ParsingError");
        if let Some(at) = self.at {
            s.append(" at char ");
            ecrit_decimal(&mut s, at as u64);
        }
        if let Some(m) = &self.msg {
            s.append(": ");
            s.append(m.as_str());
        }
        assert(s@ =~= self.texte());
        s
    }
}

/// What reading a value from a text gives.
pub type ParsingResult<T> = Result<T, ParsingError>;

} // verus!
