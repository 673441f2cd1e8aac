//! The sheets that the camp prints.

pub mod typst;
