//! Generation of an in-place update method for a structure with named fields.
//!
//! An annotation on the structure lists pairs of a target type and a transform
//! function. For each pair, every field whose declared type has the pair's simple
//! name is replaced by the transform applied to a copy of its current value.
//! The configuration is read from the annotation (`config`), matched against the
//! field list (`synth`) and the whole expansion is put together in `expand`.
pub mod path;
pub mod decl;
pub mod config;
pub mod error;
pub mod synth;
pub mod expand;
pub mod laws;

pub use expand::derive_struct_update;
