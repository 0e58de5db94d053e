//! Finds the dependency cycles that an undeclared reference between packs would close.
//!
//! A pack declares the packs that it depends on. Where it refers to a constant of a pack that it
//! does not declare, the reference is an implicit dependency. [`cycle::Checker`] reports it if
//! declaring it would close a cycle, that is, if the other pack already depends on the first.

pub mod cycle;
pub mod dependency;
pub mod graph;
pub mod laws;
pub mod pack;
pub mod pack_checker;
pub mod pack_laws;
pub mod paths;
pub mod report_laws;
pub mod text;
pub mod text_laws;
