//! Reflective operations over a closed, ordered enumeration of named
//! constants: given the declared variants of an enum (optionally with
//! explicit integer discriminants and an optional catch-all variant),
//! this library classifies the declaration, resolves every variant's
//! integer discriminant, and builds the lookup table behind `name`,
//! `ordinal`, `from_ordinal`, `discriminant`, `from_discriminant`,
//! `len` and `values`.
//!
//! A declaration front end (for instance one that reads an enum's
//! source text) hands the library an ordered list of
//! [`decl::VariantDecl`] entries together with the declared underlying
//! representation, and attaches the operations of the resulting
//! [`table::EnumTable`] to the enum type.

pub mod classify;
pub mod decl;
pub mod laws;
pub mod resolve;
pub mod table;
