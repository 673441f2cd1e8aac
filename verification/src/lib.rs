//! Registries of camp accounts, members and groups, the merge of freshly
//! read records into them, and the split of a group into sub-groups.

pub mod config;
pub mod data;
pub mod date;
pub mod extract;
pub mod groupes;
pub mod motif;
pub mod outils;
pub mod print;
pub mod session;
pub mod stats;
pub mod texte;
