//! Importers for on-disk container formats.

pub mod wbg;
