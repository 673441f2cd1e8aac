use vstd::prelude::*;

pub mod comptes;
pub mod ensemble;
pub mod fiche_sante;
pub mod graine;
pub mod groupes;
pub mod membres;
pub mod ordre;
pub mod registre;
pub mod sous_groupes;

verus! {

/// Why a registry refused an operation; each variant carries the identifier
/// that was asked for.
#[derive(Debug)]
pub enum RegError<Key> {
    /// `add` was given an identifier that the registry already holds.
    KeyAlreadyInReg(Key),
    /// The registry holds nothing under this identifier.
    NoSuchItem(Key),
}

/// `rand::random`: a number drawn by the random number generator of the
/// thread; nothing is known of it.
#[verifier::external_body]
pub(crate) fn nombre_aleatoire() -> u32 {
    rand::random()
}

} // verus!
