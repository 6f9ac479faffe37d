//! A source-to-source transform over a module's statement list: every import
//! statement whose source specifier is a relative or absolute path containing
//! glob syntax is expanded into one concrete import statement per matching
//! file, plus constant declarations that regroup the imported values (and,
//! for the `_importMeta` pseudo-binding, per-file path metadata) into ordered
//! arrays.
//!
//! The statement list is modelled by this crate's own types; a host that works
//! on a concrete syntax tree converts to and from them, enumerates the
//! filesystem, and hands the matched paths in.

pub mod ast;
pub mod globs;
pub mod ident;
pub mod laws;
pub mod paths;
pub mod plugin;
pub mod transformer;
pub mod utils;



