//! Build-time instantiation discovery and code generation for a succinct
//! data structure library bound over a C ABI.
//!
//! The crate scans a program's textual intermediate representation for
//! mentions of generic structure types, resolves nested generic parameters
//! recursively, derives a content-addressed identifier for each concrete
//! instantiation, renders the set of template files to materialize with
//! their token substitutions, and plans the workspace updates (fresh copies,
//! one-time substitutions, stale-file removal) that produce the native
//! sources to compile.

pub mod backend;
pub mod interface;
pub mod meta;
pub mod text;
