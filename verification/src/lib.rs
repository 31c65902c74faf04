//! Binding-pattern validation for a TypeScript-like checker.
//!
//! The crate walks declaration and assignment patterns, resolves their types,
//! registers the names they bind and collects the diagnostics that
//! destructuring raises. Every function is verified against its contract,
//! but for the four private functions of `hygiene` that call into
//! `swc_common`: their contracts are taken on trust from that crate's source.
//!
//! - `ast`, `module`: the syntax that is validated, each node with its
//!   mathematical view.
//! - `ty`, `span`, `symbol`, `errors`: types, positions, names, diagnostics.
//! - `hygiene`: marks on positions, kept by `swc_common`.
//! - `names`, `rules`: what a pattern binds, and the destructuring rules.
//! - `scope`: the scope binder.
//! - `analyzer`: the state of a pass and the validation of patterns.
//! - `visit`: the walk over a file.
//! - `laws`: what holds of validation whatever the input.

pub mod analyzer;
pub mod ast;
pub mod errors;
pub mod hygiene;
pub mod laws;
pub mod module;
pub mod names;
pub mod rules;
pub mod scope;
pub mod span;
pub mod symbol;
pub mod ty;
pub mod visit;
