//! E-mail addresses.

use crate::data::{ParsingError, ParsingResult};
use crate::motif::{captures, captures_de, groupe, groupe_de, vue_groupes};
use crate::texte::{est_ascii, pousse_car};
use vstd::prelude::*;
use vstd::string::StringExecFns;

verus! {

/// An e-mail address as it may be written, with white space around it and
/// around the "@". Group 2 is the user name, group 4 the domain.
pub const EMAIL_RE: &'static str =
    r"^\s*((?P<user>[a-zA-Z0-9!#$%&'*+\-/=?^_`{|}~]+(:?\.[a-zA-Z0-9!#$%&'*+\-/=?^_`{|}~]+)*)\s*@\s*(?P<domain>(:?[a-zA-Z0-9]+(:?-[a-zA-Z0-9]+)*)(:?\.(:?[a-zA-Z0-9]+(:?-[a-zA-Z0-9]+)*))*))\s*$";

/// The user name and the domain that the groups found in an address stand
/// for, if both are there and in ASCII.
pub open spec fn parts_lues(groupes: Seq<Option<Seq<char>>>) -> Option<(Seq<char>, Seq<char>)> {
    match (groupe(groupes, 2), groupe(groupes, 4)) {
        (Some(user), Some(domain)) => if est_ascii(user) && est_ascii(domain) {
            Some((user, domain))
        } else {
            None
        },
        _ => None,
    }
}

/// An e-mail address: a user name, "@" and a domain, all in ASCII.
#[derive(Debug, Eq, Hash)]
pub struct Email {
    value: String,
    sep: usize,
}

impl Clone for Email {
    fn clone(&self) -> (r: Self)
        ensures
            r == *self,
    {
        proof {
            use_type_invariant(self);
        }
        Email { value: self.value.clone(), sep: self.sep }
    }
}

impl PartialEq for Email {
    fn eq(&self, other: &Self) -> (r: bool) {
        self.value == other.value && self.sep == other.sep
    }
}

impl vstd::std_specs::cmp::PartialEqSpecImpl for Email {
    open spec fn obeys_eq_spec() -> bool {
        true
    }

    open spec fn eq_spec(&self, other: &Self) -> bool {
        self.valeur() == other.valeur() && self.sep() == other.sep()
    }
}

impl Email {
    /// The whole address.
    pub closed spec fn valeur(&self) -> Seq<char> {
        self.value@
    }

    /// The position of the "@".
    pub closed spec fn sep(&self) -> int {
        self.sep as int
    }

    /// What two addresses must share to be the same address.
    pub open spec fn cle(&self) -> (Seq<char>, int) {
        (self.valeur(), self.sep())
    }

    #[verifier::type_invariant]
    spec fn inv(self) -> bool {
        &&& self.value.is_ascii()
        &&& self.sep < self.value@.len()
        &&& self.value@[self.sep as int] == '@'
    }

    /// The address `user`@`domain`, if both parts are in ASCII.
    pub fn try_new(user: &str, domain: &str) -> (r: Option<Email>)
        ensures
            r is Some <==> user.is_ascii() && domain.is_ascii(),
            r matches Some(e) ==> e.valeur() == user@ + seq!['@'] + domain@ && e.sep()
                == user@.len(),
    {
        if !user.is_ascii() || !domain.is_ascii() {
            return None;
        }
        let mut value = String::from_str(user);
        pousse_car(&mut value, '@');
        value.append(domain);
        assert(value@ =~= user@ + seq!['@'] + domain@);
        let sep = user.unicode_len();
        Some(Email { value, sep })
    }

    /// The address that the groups found by [`EMAIL_RE`] stand for.
    pub fn des_groupes(groupes: &Vec<Option<String>>) -> (r: ParsingResult<Email>)
        ensures
            match r {
                Ok(e) => parts_lues(vue_groupes(groupes@)) matches Some(p) && e.valeur() == p.0
                    + seq!['@'] + p.1 && e.sep() == p.0.len(),
                Err(e) => parts_lues(vue_groupes(groupes@)) is None && e.msg() == Some(
                    "Format d'email invalide"@,
                ) && e.at() is None && e.src() is None,
            },
    {
        match (groupe_de(groupes, 2), groupe_de(groupes, 4)) {
            (Some(user), Some(domain)) => match Email::try_new(user, domain) {
                Some(e) => Ok(e),
                None => Err(ParsingError::from_msg("Format d'email invalide")),
            },
            _ => Err(ParsingError::from_msg("Format d'email invalide")),
        }
    }

    /// Reads an e-mail address.
    pub fn parse(s: &str) -> (r: ParsingResult<Email>)
        ensures
            match r {
                Ok(e) => captures_de(EMAIL_RE@, s@) matches Some(g) && parts_lues(g) matches Some(
                    p,
                ) && e.valeur() == p.0 + seq!['@'] + p.1 && e.sep() == p.0.len(),
                Err(e) => (match captures_de(EMAIL_RE@, s@) {
                    Some(g) => parts_lues(g) is None,
                    None => true,
                }) && e.msg() == Some("Format d'email invalide"@) && e.at() is None && e.src() is None,
            },
    {
        match captures(EMAIL_RE, s) {
            None => Err(ParsingError::from_msg("Format d'email invalide")),
            Some(cap) => Email::des_groupes(&cap),
        }
    }

    /// The address that the text `t` reads as, if it reads as one.
    pub open spec fn lu(t: Seq<char>) -> Option<(Seq<char>, int)> {
        match captures_de(EMAIL_RE@, t) {
            Some(g) => match parts_lues(g) {
                Some(p) => Some((p.0 + seq!['@'] + p.1, p.0.len() as int)),
                None => None,
            },
            None => None,
        }
    }

    /// Reads an e-mail address, as [`Self::parse`] does.
    pub fn from_str(s: &str) -> (r: ParsingResult<Email>)
        ensures
            match r {
                Ok(e) => Email::lu(s@) == Some(e.cle()),
                Err(_) => Email::lu(s@) is None,
            },
    {
        Email::parse(s)
    }

    /// The whole address.
    pub fn as_str(&self) -> (s: &str)
        ensures
            s@ == self.valeur(),
    {
        self.value.as_str()
    }

    /// The part behind the "@".
    pub fn domain(&self) -> (s: &str)
        ensures
            s@ == self.valeur().subrange(self.sep() + 1, self.valeur().len() as int),
    {
        proof {
            use_type_invariant(self);
        }
        let v = self.value.as_str();
        let fin = v.unicode_len();
        v.substring_ascii(self.sep + 1, fin)
    }

    /// The part before the "@".
    pub fn user(&self) -> (s: &str)
        ensures
            s@ == self.valeur().subrange(0, self.sep()),
    {
        proof {
            use_type_invariant(self);
        }
        self.value.as_str().substring_ascii(0, self.sep)
    }

    /// Whether the address is the placeholder "@", with neither user nor domain.
    pub fn is_empty(&self) -> (b: bool)
        ensures
            b == (self.valeur() == seq!['@']),
    {
        proof {
            use_type_invariant(self);
        }
        let b = self.value.as_str().unicode_len() == 1;
        assert(b ==> self.valeur() =~= seq!['@']);
        b
    }
}

impl Default for Email {
    /// The placeholder address "@".
    fn default() -> (e: Self)
        ensures
            e.valeur() == seq!['@'],
            e.sep() == 0,
    {
        let mut value = String::new();
        pousse_car(&mut value, '@');
        assert(value@ =~= seq!['@']);
        Email { value, sep: 0 }
    }
}

} // verus!
